use vstd::prelude::*;
use vstd::string::*;

verus! {

/// The decimal digit `d` (below ten) as a character.
pub open spec fn digit_char(d: nat) -> char {
    if d == 0 { '0' } else if d == 1 { '1' } else if d == 2 { '2' } else if d == 3 { '3' } else if d == 4 { '4' }
    else if d == 5 { '5' } else if d == 6 { '6' } else if d == 7 { '7' } else if d == 8 { '8' } else { '9' }
}

/// How a natural number is written in decimal, with no leading zeros.
pub open spec fn nat_text(n: nat) -> Seq<char>
    decreases n,
{
    if n < 10 {
        seq![digit_char(n)]
    } else {
        nat_text(n / 10) + seq![digit_char(n % 10)]
    }
}

/// Writes the digit `d` at the end of `out`.
fn push_digit(out: &mut String, d: u64)
    requires
        d < 10,
    ensures
        final(out)@ == old(out)@ + seq![digit_char(d as nat)],
{
    proof {
        reveal_strlit("0");
        reveal_strlit("1");
        reveal_strlit("2");
        reveal_strlit("3");
        reveal_strlit("4");
        reveal_strlit("5");
        reveal_strlit("6");
        reveal_strlit("7");
        reveal_strlit("8");
        reveal_strlit("9");
    }
    if d == 0 {
        out.append("0");
    } else if d == 1 {
        out.append("1");
    } else if d == 2 {
        out.append("2");
    } else if d == 3 {
        out.append("3");
    } else if d == 4 {
        out.append("4");
    } else if d == 5 {
        out.append("5");
    } else if d == 6 {
        out.append("6");
    } else if d == 7 {
        out.append("7");
    } else if d == 8 {
        out.append("8");
    } else {
        out.append("9");
    }
}

/// Writes `n` in decimal at the end of `out`.
pub fn push_nat(out: &mut String, n: u64)
    ensures
        final(out)@ == old(out)@ + nat_text(n as nat),
    decreases n,
{
    if n < 10 {
        push_digit(out, n);
    } else {
        push_nat(out, n / 10);
        push_digit(out, n % 10);
        assert(final(out)@ =~= old(out)@ + nat_text(n as nat));
    }
}

/// `n` written in decimal.
pub fn nat_string(n: u64) -> (r: String)
    ensures
        r@ == nat_text(n as nat),
{
    let mut out = String::new();
    push_nat(&mut out, n);
    assert(out@ =~= nat_text(n as nat));
    out
}

/// The hexadecimal digit `d` (below sixteen) as an upper-case character.
pub open spec fn hex_digit(d: nat) -> char {
    if d == 0 { '0' } else if d == 1 { '1' } else if d == 2 { '2' } else if d == 3 { '3' } else if d == 4 { '4' } else if d == 5 { '5' } else if d == 6 { '6' } else if d == 7 { '7' } else if d == 8 { '8' } else if d == 9 { '9' } else if d == 10 { 'A' } else if d == 11 { 'B' } else if d == 12 { 'C' } else if d == 13 { 'D' } else if d == 14 { 'E' } else { 'F' }
}

/// How a natural number is written in upper-case hexadecimal, with no leading zeros.
pub open spec fn hex_digits(n: nat) -> Seq<char>
    decreases n,
{
    if n < 16 {
        seq![hex_digit(n)]
    } else {
        hex_digits(n / 16) + seq![hex_digit(n % 16)]
    }
}

/// How a natural number is written in hexadecimal with the prefix `0x`.
pub open spec fn hex_text(n: nat) -> Seq<char> {
    "0x"@ + hex_digits(n)
}

/// How an integer is written in decimal, with a minus sign where it is negative.
pub open spec fn int_text(i: int) -> Seq<char> {
    if i < 0 {
        "-"@ + nat_text((-i) as nat)
    } else {
        nat_text(i as nat)
    }
}

/// `s` with copies of `c` before it, up to the width `w`.
pub open spec fn pad_left(s: Seq<char>, w: nat, c: char) -> Seq<char> {
    if s.len() >= w {
        s
    } else {
        Seq::new((w - s.len()) as nat, |_i: int| c) + s
    }
}

/// `s` with copies of `c` after it, up to the width `w`.
pub open spec fn pad_right(s: Seq<char>, w: nat, c: char) -> Seq<char> {
    if s.len() >= w {
        s
    } else {
        s + Seq::new((w - s.len()) as nat, |_i: int| c)
    }
}

fn push_hex_digit(out: &mut String, d: u64)
    requires
        d < 16,
    ensures
        final(out)@ == old(out)@ + seq![hex_digit(d as nat)],
{
    proof {
        reveal_strlit("0");
        reveal_strlit("1");
        reveal_strlit("2");
        reveal_strlit("3");
        reveal_strlit("4");
        reveal_strlit("5");
        reveal_strlit("6");
        reveal_strlit("7");
        reveal_strlit("8");
        reveal_strlit("9");
        reveal_strlit("A");
        reveal_strlit("B");
        reveal_strlit("C");
        reveal_strlit("D");
        reveal_strlit("E");
        reveal_strlit("F");
    }
    if d == 0 {
        out.append("0");
    } else if d == 1 {
        out.append("1");
    } else if d == 2 {
        out.append("2");
    } else if d == 3 {
        out.append("3");
    } else if d == 4 {
        out.append("4");
    } else if d == 5 {
        out.append("5");
    } else if d == 6 {
        out.append("6");
    } else if d == 7 {
        out.append("7");
    } else if d == 8 {
        out.append("8");
    } else if d == 9 {
        out.append("9");
    } else if d == 10 {
        out.append("A");
    } else if d == 11 {
        out.append("B");
    } else if d == 12 {
        out.append("C");
    } else if d == 13 {
        out.append("D");
    } else if d == 14 {
        out.append("E");
    } else {
        out.append("F");
    }
}

fn push_hex_digits(out: &mut String, n: u64)
    ensures
        final(out)@ == old(out)@ + hex_digits(n as nat),
    decreases n,
{
    if n < 16 {
        push_hex_digit(out, n);
    } else {
        push_hex_digits(out, n / 16);
        push_hex_digit(out, n % 16);
        assert(final(out)@ =~= old(out)@ + hex_digits(n as nat));
    }
}

/// Writes `n` in hexadecimal, with the prefix `0x`, at the end of `out`.
pub fn push_hex(out: &mut String, n: u64)
    ensures
        final(out)@ == old(out)@ + hex_text(n as nat),
{
    out.append("0x");
    push_hex_digits(out, n);
    assert(final(out)@ =~= old(out)@ + hex_text(n as nat));
}

/// Writes `i` in decimal at the end of `out`.
pub fn push_int(out: &mut String, i: i64)
    requires
        i > i64::MIN,
    ensures
        final(out)@ == old(out)@ + int_text(i as int),
{
    if i < 0 {
        out.append("-");
        push_nat(out, (-i) as u64);
        assert(final(out)@ =~= old(out)@ + int_text(i as int));
    } else {
        push_nat(out, i as u64);
    }
}

/// `s` with copies of the one character of `fill` before it, up to the width `w`.
pub fn padded_left(s: String, w: usize, fill: &str) -> (r: String)
    requires
        fill@.len() == 1,
    ensures
        r@ == pad_left(s@, w as nat, fill@[0]),
{
    let n = s.as_str().unicode_len();
    let mut out = String::new();
    let mut k: usize = n;
    while k < w
        invariant
            n == s@.len(),
            n <= k,
            k == n || k <= w,
            fill@.len() == 1,
            out@ == Seq::new((k - n) as nat, |_i: int| fill@[0]),
        decreases w - k,
    {
        out.append(fill);
        k = k + 1;
        assert(out@ =~= Seq::new((k - n) as nat, |_i: int| fill@[0]));
    }
    out.append(s.as_str());
    if n >= w {
        assert(out@ =~= s@);
    } else {
        assert(out@ =~= pad_left(s@, w as nat, fill@[0]));
    }
    out
}

/// `s` with copies of the one character of `fill` after it, up to the width `w`.
pub fn padded_right(s: String, w: usize, fill: &str) -> (r: String)
    requires
        fill@.len() == 1,
    ensures
        r@ == pad_right(s@, w as nat, fill@[0]),
{
    let n = s.as_str().unicode_len();
    let mut out = s;
    let ghost s0 = out@;
    let mut k: usize = n;
    while k < w
        invariant
            n == s0.len(),
            n <= k,
            k == n || k <= w,
            fill@.len() == 1,
            out@ == s0 + Seq::new((k - n) as nat, |_i: int| fill@[0]),
        decreases w - k,
    {
        out.append(fill);
        k = k + 1;
        assert(out@ =~= s0 + Seq::new((k - n) as nat, |_i: int| fill@[0]));
    }
    if n >= w {
        assert(out@ =~= s0);
    } else {
        assert(out@ =~= pad_right(s0, w as nat, fill@[0]));
    }
    out
}

} // verus!
