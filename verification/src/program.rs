use vstd::prelude::*;

use crate::text::{hex_text, int_text, nat_text, pad_left, pad_right, padded_left, padded_right, push_hex, push_int, push_nat};

verus! {

/// The address of an instruction in a program.
pub type CodeAddr = u32;

/// The address of a constant in a program.
pub type ConstAddr = u32;

/// An instruction of the virtual machine. A `Float` carries the bits of its
/// single-precision value (as `f32::to_bits` gives them).
#[derive(Copy, Clone, Debug, PartialEq, Eq, Structural)]
pub enum Instr {
    Nop,
    /// Duplicate the last item on the stack
    Dup,
    /// Pop the last item on the stack
    Pop,
    /// Push the given integer, converted to a number
    Integer(i32),
    /// Push the float with the given bits, converted to a number
    Float(u32),
    /// Push `true`
    True,
    /// Push `false`
    False,
    /// Make a list from the last N items on the stack (reversed)
    MakeList(u32),
    /// Index the list at the top of the stack
    IndexList(u32),
    NegNum,
    NotBool,
    AddNum,
    SubNum,
    MulNum,
    DivNum,
    RemNum,
    EqNum,
    /// Load a constant from the program constants
    LoadConst(ConstAddr),
    /// Push a copy of the local with the given offset on to the stack
    LoadLocal(u32),
    /// Push the top value in the stack on to the local stack
    PushLocal,
    /// Pop the last local from the local stack
    PopLocal,
    /// Jump to the address
    Jump(u32),
    /// Jump to the address if the last value in the stack is `false`
    JumpIfNot(u32),
    /// Pop the top value in the stack, consider this a return value.
    /// Then, pop N additional items and return to the last pushed
    /// address, and push the return value
    Return(u32),
}

/// How an instruction is written in a program listing. A `Float` is written
/// as `float ` followed by its value, which is not part of this text.
pub open spec fn instr_text(i: Instr) -> Seq<char> {
    match i {
        Instr::Nop => "nop"@,
        Instr::Dup => "dup"@,
        Instr::Pop => "pop"@,
        Instr::True => "true"@,
        Instr::False => "false"@,
        Instr::NegNum => "num.neg"@,
        Instr::NotBool => "bool.not"@,
        Instr::AddNum => "num.add"@,
        Instr::SubNum => "num.sub"@,
        Instr::MulNum => "num.mul"@,
        Instr::DivNum => "num.div"@,
        Instr::RemNum => "num.rem"@,
        Instr::EqNum => "num.eq"@,
        Instr::PushLocal => "push_local"@,
        Instr::PopLocal => "pop_local"@,
        Instr::Integer(x) => "int "@ + int_text(x as int),
        Instr::MakeList(x) => "list.make "@ + nat_text(x as nat),
        Instr::IndexList(x) => "list.index "@ + nat_text(x as nat),
        Instr::LoadConst(x) => "const "@ + hex_text(x as nat),
        Instr::LoadLocal(x) => "load_local "@ + nat_text(x as nat),
        Instr::Jump(x) => "jump "@ + hex_text(x as nat),
        Instr::JumpIfNot(x) => "jump_if_not "@ + hex_text(x as nat),
        Instr::Return(x) => "return "@ + nat_text(x as nat),
        Instr::Float(_) => "float "@,
    }
}

impl Instr {
    /// How the instruction is written in a program listing, as `instr_text`
    /// says; a `Float` instruction's value is to be written after it.
    pub fn text(&self) -> (r: String)
        ensures
            r@ == instr_text(*self),
    {
        let mut out = String::new();
        match *self {
            Instr::Nop => out.append("nop"),
            Instr::Dup => out.append("dup"),
            Instr::Pop => out.append("pop"),
            Instr::True => out.append("true"),
            Instr::False => out.append("false"),
            Instr::NegNum => out.append("num.neg"),
            Instr::NotBool => out.append("bool.not"),
            Instr::AddNum => out.append("num.add"),
            Instr::SubNum => out.append("num.sub"),
            Instr::MulNum => out.append("num.mul"),
            Instr::DivNum => out.append("num.div"),
            Instr::RemNum => out.append("num.rem"),
            Instr::EqNum => out.append("num.eq"),
            Instr::PushLocal => out.append("push_local"),
            Instr::PopLocal => out.append("pop_local"),
            Instr::Integer(x) => {
                out.append("int ");
                push_int(&mut out, x as i64);
            },
            Instr::MakeList(x) => {
                out.append("list.make ");
                push_nat(&mut out, x as u64);
            },
            Instr::IndexList(x) => {
                out.append("list.index ");
                push_nat(&mut out, x as u64);
            },
            Instr::LoadConst(x) => {
                out.append("const ");
                push_hex(&mut out, x as u64);
            },
            Instr::LoadLocal(x) => {
                out.append("load_local ");
                push_nat(&mut out, x as u64);
            },
            Instr::Jump(x) => {
                out.append("jump ");
                push_hex(&mut out, x as u64);
            },
            Instr::JumpIfNot(x) => {
                out.append("jump_if_not ");
                push_hex(&mut out, x as u64);
            },
            Instr::Return(x) => {
                out.append("return ");
                push_nat(&mut out, x as u64);
            },
            Instr::Float(_) => out.append("float "),
        }
        assert(out@ =~= instr_text(*self));
        out
    }
}

/// The start of the line for the instruction at `addr` in a program listing:
/// the address in hexadecimal, right-aligned in five columns, and a bar.
pub open spec fn code_line_head(addr: nat) -> Seq<char> {
    pad_left(hex_text(addr), 5, ' ') + " | "@
}

/// The start of the line for the constant at `addr` in a program listing: the
/// address in decimal, filled with `X` on the right up to four columns, and a bar.
pub open spec fn const_line_head(addr: nat) -> Seq<char> {
    pad_right(nat_text(addr), 4, 'X') + " | "@
}

/// A program of the virtual machine: its code, its constants of type `V`, and
/// the address at which execution starts.
pub struct Program<V> {
    code: Vec<Instr>,
    consts: Vec<V>,
    entry: CodeAddr,
}

impl<V> Program<V> {
    /// The instructions of the program, in order of emission.
    pub closed spec fn code(&self) -> Seq<Instr> {
        self.code@
    }

    /// The constants of the program, in order of emission.
    pub closed spec fn consts(&self) -> Seq<V> {
        self.consts@
    }

    /// The address at which execution starts.
    pub closed spec fn entry_addr(&self) -> CodeAddr {
        self.entry
    }

    /// The line for the instruction at `addr` in a listing of the program:
    /// `code_line_head` and the instruction's text.
    pub fn code_line(&self, addr: CodeAddr) -> (r: String)
        requires
            addr < self.code().len(),
        ensures
            r@ == code_line_head(addr as nat) + instr_text(self.code()[addr as int]),
    {
        let mut hex = String::new();
        push_hex(&mut hex, addr as u64);
        proof {
            reveal_strlit(" ");
        }
        let mut out = padded_left(hex, 5, " ");
        out.append(" | ");
        let text = self.code[addr as usize].text();
        out.append(text.as_str());
        assert(out@ =~= code_line_head(addr as nat) + instr_text(self.code()[addr as int]));
        out
    }

    /// The start of the line for the constant at `addr` in a listing of the
    /// program, as `const_line_head` says.
    pub fn const_line_head(&self, addr: ConstAddr) -> (r: String)
        ensures
            r@ == const_line_head(addr as nat),
    {
        let mut dec = String::new();
        push_nat(&mut dec, addr as u64);
        proof {
            reveal_strlit("X");
        }
        let mut out = padded_right(dec, 4, "X");
        out.append(" | ");
        assert(out@ =~= const_line_head(addr as nat));
        out
    }

    /// An empty program that starts at address zero.
    pub fn new() -> (r: Self)
        ensures
            r.code() == Seq::<Instr>::empty(),
            r.consts() == Seq::<V>::empty(),
            r.entry_addr() == 0,
    {
        Program { code: Vec::new(), consts: Vec::new(), entry: 0 }
    }

    /// The address at which execution starts.
    pub fn entry(&self) -> (r: CodeAddr)
        ensures
            r == self.entry_addr(),
    {
        self.entry
    }

    /// The instruction at `addr`.
    pub fn fetch_instr_unchecked(&self, addr: CodeAddr) -> (r: Instr)
        requires
            addr < self.code().len(),
        ensures
            r == self.code()[addr as int],
    {
        self.code[addr as usize]
    }

    /// A clone of the constant at `addr`.
    pub fn fetch_const(&self, addr: ConstAddr) -> (r: V)
        where
            V: Clone,
        requires
            addr < self.consts().len(),
        ensures
            cloned::<V>(self.consts()[addr as int], r),
    {
        self.consts[addr as usize].clone()
    }

    /// Appends a constant and returns its address (the number of constants
    /// before it, truncated to 32 bits).
    pub fn emit_const(&mut self, c: V) -> (r: ConstAddr)
        ensures
            final(self).consts() == old(self).consts().push(c),
            final(self).code() == old(self).code(),
            final(self).entry_addr() == old(self).entry_addr(),
            r == old(self).consts().len() as u32,
    {
        self.consts.push(c);
        (self.consts.len() - 1) as ConstAddr
    }

    /// Appends an instruction and returns its address (the number of
    /// instructions before it, truncated to 32 bits).
    pub fn emit_instr(&mut self, instr: Instr) -> (r: CodeAddr)
        ensures
            final(self).code() == old(self).code().push(instr),
            final(self).consts() == old(self).consts(),
            final(self).entry_addr() == old(self).entry_addr(),
            r == old(self).code().len() as u32,
    {
        self.code.push(instr);
        (self.code.len() - 1) as CodeAddr
    }

    /// Sets the address at which execution starts.
    pub fn set_entry(&mut self, addr: CodeAddr)
        ensures
            final(self).entry_addr() == addr,
            final(self).code() == old(self).code(),
            final(self).consts() == old(self).consts(),
    {
        self.entry = addr;
    }

    /// The address that the next emitted instruction will get.
    pub fn next_instr_addr(&self) -> (r: CodeAddr)
        ensures
            r == self.code().len() as u32,
    {
        self.code.len() as CodeAddr
    }

    /// The address that the next emitted constant will get.
    pub fn next_const_addr(&self) -> (r: ConstAddr)
        ensures
            r == self.consts().len() as u32,
    {
        self.consts.len() as ConstAddr
    }
}

impl<V> Default for Program<V> {
    fn default() -> (r: Self)
        ensures
            r.code() == Seq::<Instr>::empty(),
            r.consts() == Seq::<V>::empty(),
            r.entry_addr() == 0,
    {
        Program::new()
    }
}

/// An instruction emitted into a program with fewer than `u32::MAX`
/// instructions is fetched back, unchanged, from the address that emitting it
/// returned; the instructions emitted before it stay at their addresses.
pub proof fn lemma_emit_then_fetch_instr<V>(before: Program<V>, after: Program<V>, instr: Instr, addr: CodeAddr)
    requires
        before.code().len() < u32::MAX,
        after.code() == before.code().push(instr),
        addr == before.code().len() as u32,
    ensures
        addr < after.code().len(),
        after.code()[addr as int] == instr,
        forall|a: int| 0 <= a < before.code().len() ==> after.code()[a] == before.code()[a],
{
}

/// A constant emitted into a program with fewer than `u32::MAX` constants is
/// found at the address that emitting it returned; the constants emitted before
/// it stay at their addresses.
pub proof fn lemma_emit_then_fetch_const<V>(before: Program<V>, after: Program<V>, c: V, addr: ConstAddr)
    requires
        before.consts().len() < u32::MAX,
        after.consts() == before.consts().push(c),
        addr == before.consts().len() as u32,
    ensures
        addr < after.consts().len(),
        after.consts()[addr as int] == c,
        forall|a: int| 0 <= a < before.consts().len() ==> after.consts()[a] == before.consts()[a],
{
}

/// One call of `emit_instr`, `emit_const` or `set_entry`: how `a` becomes `b`.
pub open spec fn program_step<V>(a: Program<V>, b: Program<V>) -> bool {
    ||| (exists|i: Instr| #[trigger] a.code().push(i) == b.code()) && b.consts() == a.consts()
    ||| (exists|c: V| #[trigger] a.consts().push(c) == b.consts()) && b.code() == a.code()
    ||| b.code() == a.code() && b.consts() == a.consts()
}

/// Each program of `run` comes from the one before it by one such call.
pub open spec fn program_run<V>(run: Seq<Program<V>>) -> bool {
    forall|k: int| 0 <= k < run.len() - 1 ==> #[trigger] program_step(run[k], run[k + 1])
}

/// An instruction that a program holds at `addr`, and a constant it holds at
/// `caddr`, stay there through any later calls that emit instructions or
/// constants or set the entry.
pub proof fn lemma_emitted_stays<V>(run: Seq<Program<V>>, addr: CodeAddr, caddr: ConstAddr)
    requires
        run.len() > 0,
        program_run(run),
    ensures
        run[0].code().len() <= run.last().code().len(),
        run[0].consts().len() <= run.last().consts().len(),
        addr < run[0].code().len() ==> addr < run.last().code().len() && run.last().code()[addr as int]
            == run[0].code()[addr as int],
        caddr < run[0].consts().len() ==> caddr < run.last().consts().len() && run.last().consts()[caddr as int]
            == run[0].consts()[caddr as int],
    decreases run.len(),
{
    if run.len() > 1 {
        let rest = run.drop_first();
        assert forall|k: int| 0 <= k < rest.len() - 1 implies #[trigger] program_step(rest[k], rest[k + 1]) by {
            let j = k + 1;
            assert(program_step(run[j], run[j + 1]));
            assert(rest[k] == run[j] && rest[k + 1] == run[j + 1]);
        }
        lemma_emitted_stays(rest, addr, caddr);
        assert(program_step(run[0], run[1]));
        assert(rest.last() == run.last());
    }
}

/// The instructions that take no operand.
pub open spec fn operandless(i: Instr) -> bool {
    ||| i is Nop
        ||| i is Dup
        ||| i is Pop
        ||| i is True
        ||| i is False
        ||| i is NegNum
        ||| i is NotBool
        ||| i is AddNum
        ||| i is SubNum
        ||| i is MulNum
        ||| i is DivNum
        ||| i is RemNum
        ||| i is EqNum
        ||| i is PushLocal
        ||| i is PopLocal
}

/// The length, first character and fifth character (a space where there is
/// none) of a text.
pub open spec fn text_key(t: Seq<char>) -> (nat, char, char) {
    (t.len(), if t.len() > 0 { t[0] } else { ' ' }, if t.len() > 4 { t[4] } else { ' ' })
}

/// The key of the text of each instruction without an operand.
pub open spec fn operandless_key(i: Instr) -> (nat, char, char) {
    match i {
        Instr::Nop => (3, 'n', ' '),
        Instr::Dup => (3, 'd', ' '),
        Instr::Pop => (3, 'p', ' '),
        Instr::True => (4, 't', ' '),
        Instr::False => (5, 'f', 'e'),
        Instr::NegNum => (7, 'n', 'n'),
        Instr::NotBool => (8, 'b', '.'),
        Instr::AddNum => (7, 'n', 'a'),
        Instr::SubNum => (7, 'n', 's'),
        Instr::MulNum => (7, 'n', 'm'),
        Instr::DivNum => (7, 'n', 'd'),
        Instr::RemNum => (7, 'n', 'r'),
        Instr::EqNum => (6, 'n', 'e'),
        Instr::PushLocal => (10, 'p', '_'),
        Instr::PopLocal => (9, 'p', 'l'),
        _ => (0, ' ', ' '),
    }
}

proof fn lemma_operandless_key(i: Instr)
    requires
        operandless(i),
    ensures
        text_key(instr_text(i)) == operandless_key(i),
{
    reveal_strlit("nop");
    reveal_strlit("dup");
    reveal_strlit("pop");
    reveal_strlit("true");
    reveal_strlit("false");
    reveal_strlit("num.neg");
    reveal_strlit("bool.not");
    reveal_strlit("num.add");
    reveal_strlit("num.sub");
    reveal_strlit("num.mul");
    reveal_strlit("num.div");
    reveal_strlit("num.rem");
    reveal_strlit("num.eq");
    reveal_strlit("push_local");
    reveal_strlit("pop_local");
}

/// No two instructions without an operand are written alike in a listing, so
/// a listing tells them apart.
pub proof fn lemma_operandless_texts_differ(a: Instr, b: Instr)
    requires
        operandless(a),
        operandless(b),
        a != b,
    ensures
        instr_text(a) != instr_text(b),
{
    lemma_operandless_key(a);
    lemma_operandless_key(b);
    assert(operandless_key(a) != operandless_key(b));
}

} // verus!
