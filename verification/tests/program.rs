use tao::program::{Instr, Program};

#[test]
fn size() {
    assert!(std::mem::size_of::<Instr>() <= 8);
}

#[test]
fn emit_then_fetch() {
    let mut p: Program<i64> = Program::default();
    assert_eq!(p.entry(), 0);
    assert_eq!(p.next_instr_addr(), 0);
    assert_eq!(p.next_const_addr(), 0);
    let a = p.emit_instr(Instr::Integer(5));
    let b = p.emit_instr(Instr::Float(1.5f32.to_bits()));
    let c = p.emit_instr(Instr::Return(2));
    assert_eq!((a, b, c), (0, 1, 2));
    assert_eq!(p.next_instr_addr(), 3);
    assert_eq!(p.fetch_instr_unchecked(a), Instr::Integer(5));
    assert_eq!(p.fetch_instr_unchecked(b), Instr::Float(1.5f32.to_bits()));
    assert_eq!(p.fetch_instr_unchecked(c), Instr::Return(2));
    let k = p.emit_const(42);
    let l = p.emit_const(-7);
    assert_eq!((k, l), (0, 1));
    assert_eq!(p.next_const_addr(), 2);
    assert_eq!(p.fetch_const(k), 42);
    assert_eq!(p.fetch_const(l), -7);
    p.set_entry(b);
    assert_eq!(p.entry(), 1);
    assert_eq!(p.fetch_instr_unchecked(a), Instr::Integer(5));
}

#[test]
fn new_is_empty() {
    let p: Program<String> = Program::new();
    assert_eq!(p.entry(), 0);
    assert_eq!(p.next_instr_addr(), 0);
    assert_eq!(p.next_const_addr(), 0);
}

#[test]
fn instruction_text() {
    assert_eq!(Instr::Nop.text(), "nop");
    assert_eq!(Instr::Integer(-12).text(), "int -12");
    assert_eq!(Instr::Integer(i32::MIN).text(), "int -2147483648");
    assert_eq!(Instr::Float(1.5f32.to_bits()).text(), "float ");
    assert_eq!(Instr::MakeList(3).text(), "list.make 3");
    assert_eq!(Instr::LoadConst(255).text(), "const 0xFF");
    assert_eq!(Instr::Jump(0).text(), "jump 0x0");
    assert_eq!(Instr::JumpIfNot(26).text(), "jump_if_not 0x1A");
    assert_eq!(Instr::LoadLocal(10).text(), "load_local 10");
    assert_eq!(Instr::Return(1).text(), "return 1");
    assert_eq!(Instr::EqNum.text(), "num.eq");
    assert_eq!(Instr::NotBool.text(), "bool.not");
}

#[test]
fn listing_lines() {
    let mut p: Program<i64> = Program::new();
    p.emit_instr(Instr::Dup);
    for _ in 0..30 {
        p.emit_instr(Instr::Pop);
    }
    p.emit_instr(Instr::Jump(3));
    assert_eq!(p.code_line(0), "  0x0 | dup");
    assert_eq!(p.code_line(31), " 0x1F | jump 0x3");
    assert_eq!(p.const_line_head(0), "0XXX | ");
    assert_eq!(p.const_line_head(12345), "12345 | ");
}
