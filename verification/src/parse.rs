use vstd::prelude::*;

pub mod types;
pub mod bindings;
pub mod exprs;
pub mod items;
pub mod laws;

use crate::ast::{Literal, LiteralV};
use crate::ident::Ident;
use crate::span::{Span, SrcNode, spec_union};
use crate::token::{Delimiter, Op, Spanned, Token};

verus! {

/// A syntax error: the position of the offending token in the input, its span,
/// and the token found there (`None` at the end of the input).
#[derive(Debug, PartialEq)]
pub struct Error {
    pub pos: usize,
    pub span: Span,
    pub found: Option<Token>,
}

/// The result of a parser run at some position: the value, the position after
/// what it consumed, and the errors it recovered from on the way; or the error
/// that stopped it.
pub type PResult<T> = Result<(T, usize, Vec<Error>), Error>;

/// The mathematical value of a `PResult`.
pub type SRes<A> = Result<(A, int, Seq<Error>), Error>;

/// The mathematical value of a parser's result.
pub open spec fn res_v<T: View>(r: PResult<T>) -> SRes<T::V> {
    match r {
        Ok((v, p, errs)) => Ok((v@, p as int, errs@)),
        Err(e) => Err(e),
    }
}

/// The result succeeded, consumed at least one token after `pos`, and stopped
/// within the input.
pub open spec fn progress<A>(r: SRes<A>, pos: int, len: int) -> bool {
    r matches Ok((_, p, _)) ==> pos < p <= len
}

/// Succeeded without recovering from any error.
pub open spec fn clean<A>(r: SRes<A>) -> bool {
    r matches Ok((_, _, errs)) && errs.len() == 0
}

/// The choice between two alternatives tried at the same position: the first
/// if it succeeded cleanly, else the second if it succeeded cleanly, else a
/// success with fewer recovered errors (the first on a tie), else the error
/// that reached further (the first on a tie).
pub open spec fn alt<A>(a: SRes<A>, b: SRes<A>) -> SRes<A> {
    if clean(a) {
        a
    } else if clean(b) {
        b
    } else {
        match (a, b) {
            (Ok(x), Ok(y)) => if y.2.len() < x.2.len() {
                b
            } else {
                a
            },
            (Ok(_), Err(_)) => a,
            (Err(_), Ok(_)) => b,
            (Err(ea), Err(eb)) => if eb.pos > ea.pos {
                b
            } else {
                a
            },
        }
    }
}

/// The span that marks the end of the input.
pub open spec fn eoi_span(toks: Seq<Spanned>) -> Span {
    if toks.len() == 0 {
        Span { start: 0, end: 0 }
    } else {
        Span { start: toks.last().span.end, end: toks.last().span.end }
    }
}

/// The span of the token at `pos`, or the end of the input.
pub open spec fn span_at(toks: Seq<Spanned>, pos: int) -> Span {
    if 0 <= pos < toks.len() {
        toks[pos].span
    } else {
        eoi_span(toks)
    }
}

/// The span covered by the tokens `p..q`; where nothing was consumed, the empty
/// span at the start of the token at `p`.
pub open spec fn span_of(toks: Seq<Spanned>, p: int, q: int) -> Span {
    if p < q {
        Span { start: toks[p].span.start, end: toks[q - 1].span.end }
    } else {
        Span { start: span_at(toks, p).start, end: span_at(toks, p).start }
    }
}

/// The error of an unexpected token (or of the end of input) at `pos`.
pub open spec fn err_at(toks: Seq<Spanned>, pos: int) -> Error {
    Error {
        pos: pos as usize,
        span: span_at(toks, pos),
        found: if 0 <= pos < toks.len() {
            Some(toks[pos].token)
        } else {
            None
        },
    }
}

/// The token at `pos` is `t`.
pub open spec fn is(toks: Seq<Spanned>, pos: int, t: Token) -> bool {
    0 <= pos < toks.len() && toks[pos].token == t
}

/// A token that carries no data beyond its kind, so that it is found by comparison.
pub open spec fn simple(t: Token) -> bool {
    match t {
        Token::Nat(_) | Token::Num(_) | Token::Bool(_) | Token::Char(_) | Token::Str(_)
        | Token::TermIdent(_) | Token::TypeIdent(_) => false,
        _ => true,
    }
}

// ----- Executable helpers -----

pub(crate) fn err_here(toks: &Vec<Spanned>, pos: usize) -> (r: Error)
    requires
        pos <= toks@.len(),
    ensures
        r == err_at(toks@, pos as int),
{
    let span = span_here(toks, pos);
    if pos < toks.len() {
        Error { pos, span, found: Some(toks[pos].token.clone()) }
    } else {
        Error { pos, span, found: None }
    }
}

pub(crate) fn span_here(toks: &Vec<Spanned>, pos: usize) -> (r: Span)
    ensures
        r == span_at(toks@, pos as int),
{
    if pos < toks.len() {
        toks[pos].span
    } else if toks.len() == 0 {
        Span { start: 0, end: 0 }
    } else {
        let e = toks[toks.len() - 1].span.end;
        Span { start: e, end: e }
    }
}

pub(crate) fn span_between(toks: &Vec<Spanned>, p: usize, q: usize) -> (r: Span)
    requires
        q <= toks@.len(),
    ensures
        r == span_of(toks@, p as int, q as int),
{
    if p < q {
        Span { start: toks[p].span.start, end: toks[q - 1].span.end }
    } else {
        let s = span_here(toks, p);
        Span { start: s.start, end: s.start }
    }
}

pub(crate) fn is_tok(toks: &Vec<Spanned>, pos: usize, t: &Token) -> (r: bool)
    requires
        simple(*t),
    ensures
        r == is(toks@, pos as int, *t),
        r ==> pos < toks@.len() <= usize::MAX,
{
    if pos >= toks.len() {
        return false;
    }
    match (&toks[pos].token, t) {
        (Token::Open(a), Token::Open(b)) => *a == *b,
        (Token::Close(a), Token::Close(b)) => *a == *b,
        (Token::Op(a), Token::Op(b)) => *a == *b,
        (Token::Comma, Token::Comma) => true,
        (Token::Colon, Token::Colon) => true,
        (Token::Question, Token::Question) => true,
        (Token::Wildcard, Token::Wildcard) => true,
        (Token::Tilde, Token::Tilde) => true,
        (Token::Pipe, Token::Pipe) => true,
        (Token::Fn, Token::Fn) => true,
        (Token::Let, Token::Let) => true,
        (Token::In, Token::In) => true,
        (Token::If, Token::If) => true,
        (Token::Then, Token::Then) => true,
        (Token::Else, Token::Else) => true,
        (Token::Match, Token::Match) => true,
        (Token::Data, Token::Data) => true,
        (Token::Type, Token::Type) => true,
        (Token::Def, Token::Def) => true,
        _ => false,
    }
}

pub(crate) fn is_clean<T>(r: &PResult<T>) -> (b: bool)
    ensures
        b == (r matches Ok((_, _, errs)) && errs@.len() == 0),
{
    match r {
        Ok((_, _, errs)) => errs.len() == 0,
        Err(_) => false,
    }
}

/// Chooses between the results of two alternatives, as `alt` says.
pub(crate) fn pick<T: View>(a: PResult<T>, b: PResult<T>) -> (r: PResult<T>)
    ensures
        res_v(r) == alt(res_v(a), res_v(b)),
{
    if is_clean(&a) {
        return a;
    }
    if is_clean(&b) {
        return b;
    }
    match (a, b) {
        (Ok(x), Ok(y)) => if y.2.len() < x.2.len() {
            Ok(y)
        } else {
            Ok(x)
        },
        (Ok(x), Err(_)) => Ok(x),
        (Err(_), Ok(y)) => Ok(y),
        (Err(ea), Err(eb)) => if eb.pos > ea.pos {
            Err(eb)
        } else {
            Err(ea)
        },
    }
}

pub(crate) fn append_errs(a: Vec<Error>, b: Vec<Error>) -> (r: Vec<Error>)
    ensures
        r@ == a@ + b@,
{
    let mut a = a;
    let mut b = b;
    a.append(&mut b);
    a
}

// ----- Single tokens -----

/// The literal at `pos`, if the token there is one.
pub open spec fn s_literal(toks: Seq<Spanned>, pos: int) -> Result<(LiteralV, int), Error> {
    if 0 <= pos < toks.len() {
        match toks[pos].token {
            Token::Nat(x) => Ok((LiteralV::Nat(x), pos + 1)),
            Token::Num(x) => Ok((LiteralV::Num(x@), pos + 1)),
            Token::Bool(x) => Ok((LiteralV::Bool(x), pos + 1)),
            Token::Char(x) => Ok((LiteralV::Char(x), pos + 1)),
            Token::Str(x) => Ok((LiteralV::Str(x@), pos + 1)),
            _ => Err(err_at(toks, pos)),
        }
    } else {
        Err(err_at(toks, pos))
    }
}

/// Reads a literal: a natural number, a number with a fractional part (kept as
/// written), a boolean, a character or a string.
pub fn literal_parser(toks: &Vec<Spanned>, pos: usize) -> (r: Result<(Literal, usize), Error>)
    requires
        pos <= toks@.len(),
    ensures
        match r {
            Ok((l, p)) => s_literal(toks@, pos as int) == Ok::<(LiteralV, int), Error>((l@, p as int)),
            Err(e) => s_literal(toks@, pos as int) == Err::<(LiteralV, int), Error>(e),
        },
{
    if pos < toks.len() {
        match &toks[pos].token {
            Token::Nat(x) => Ok((Literal::Nat(*x), pos + 1)),
            Token::Num(x) => Ok((Literal::Num(x.clone()), pos + 1)),
            Token::Bool(x) => Ok((Literal::Bool(*x), pos + 1)),
            Token::Char(x) => Ok((Literal::Char(*x), pos + 1)),
            Token::Str(x) => Ok((Literal::Str(x.clone()), pos + 1)),
            _ => Err(err_here(toks, pos)),
        }
    } else {
        Err(err_here(toks, pos))
    }
}

/// The name of a term at `pos`, if the token there is one.
pub open spec fn s_term_ident(toks: Seq<Spanned>, pos: int) -> Result<(Seq<char>, int), Error> {
    if 0 <= pos < toks.len() {
        match toks[pos].token {
            Token::TermIdent(x) => Ok((x@, pos + 1)),
            _ => Err(err_at(toks, pos)),
        }
    } else {
        Err(err_at(toks, pos))
    }
}

/// The name of a type at `pos`, if the token there is one.
pub open spec fn s_type_ident(toks: Seq<Spanned>, pos: int) -> Result<(Seq<char>, int), Error> {
    if 0 <= pos < toks.len() {
        match toks[pos].token {
            Token::TypeIdent(x) => Ok((x@, pos + 1)),
            _ => Err(err_at(toks, pos)),
        }
    } else {
        Err(err_at(toks, pos))
    }
}

/// Reads the name of a term.
pub fn term_ident_parser(toks: &Vec<Spanned>, pos: usize) -> (r: Result<(Ident, usize), Error>)
    requires
        pos <= toks@.len(),
    ensures
        match r {
            Ok((x, p)) => s_term_ident(toks@, pos as int) == Ok::<(Seq<char>, int), Error>((x@, p as int)),
            Err(e) => s_term_ident(toks@, pos as int) == Err::<(Seq<char>, int), Error>(e),
        },
{
    if pos < toks.len() {
        match &toks[pos].token {
            Token::TermIdent(x) => Ok((x.clone(), pos + 1)),
            _ => Err(err_here(toks, pos)),
        }
    } else {
        Err(err_here(toks, pos))
    }
}

/// Reads the name of a type.
pub fn type_ident_parser(toks: &Vec<Spanned>, pos: usize) -> (r: Result<(Ident, usize), Error>)
    requires
        pos <= toks@.len(),
    ensures
        match r {
            Ok((x, p)) => s_type_ident(toks@, pos as int) == Ok::<(Seq<char>, int), Error>((x@, p as int)),
            Err(e) => s_type_ident(toks@, pos as int) == Err::<(Seq<char>, int), Error>(e),
        },
{
    if pos < toks.len() {
        match &toks[pos].token {
            Token::TypeIdent(x) => Ok((x.clone(), pos + 1)),
            _ => Err(err_here(toks, pos)),
        }
    } else {
        Err(err_here(toks, pos))
    }
}

/// Reads a natural number.
pub fn nat_parser(toks: &Vec<Spanned>, pos: usize) -> (r: Result<(u64, usize), Error>)
    requires
        pos <= toks@.len(),
    ensures
        pos < toks@.len() && toks@[pos as int].token is Nat ==> r == Ok::<(u64, usize), Error>(
            (toks@[pos as int].token->Nat_0, (pos + 1) as usize),
        ),
        !(pos < toks@.len() && toks@[pos as int].token is Nat) ==> r == Err::<(u64, usize), Error>(
            err_at(toks@, pos as int),
        ),
{
    if pos < toks.len() {
        match &toks[pos].token {
            Token::Nat(x) => Ok((*x, pos + 1)),
            _ => Err(err_here(toks, pos)),
        }
    } else {
        Err(err_here(toks, pos))
    }
}

/// Reads a boolean.
pub fn bool_parser(toks: &Vec<Spanned>, pos: usize) -> (r: Result<(bool, usize), Error>)
    requires
        pos <= toks@.len(),
    ensures
        pos < toks@.len() && toks@[pos as int].token is Bool ==> r == Ok::<(bool, usize), Error>(
            (toks@[pos as int].token->Bool_0, (pos + 1) as usize),
        ),
        !(pos < toks@.len() && toks@[pos as int].token is Bool) ==> r == Err::<(bool, usize), Error>(
            err_at(toks@, pos as int),
        ),
{
    if pos < toks.len() {
        match &toks[pos].token {
            Token::Bool(x) => Ok((*x, pos + 1)),
            _ => Err(err_here(toks, pos)),
        }
    } else {
        Err(err_here(toks, pos))
    }
}

// ----- Delimited groups -----

/// Scanning from `i` with the open brackets `stack` still to be closed, the
/// position of the bracket that closes the outermost of them; `None` where a
/// bracket closes one of another kind or the input ends first.
pub open spec fn s_closing(toks: Seq<Spanned>, i: int, stack: Seq<Delimiter>) -> Option<int>
    decreases toks.len() - i,
{
    if i < 0 || i >= toks.len() {
        None
    } else {
        match toks[i].token {
            Token::Open(d) => s_closing(toks, i + 1, stack.push(d)),
            Token::Close(d) => if stack.len() > 0 && stack.last() == d {
                if stack.len() == 1 {
                    Some(i)
                } else {
                    s_closing(toks, i + 1, stack.drop_last())
                }
            } else {
                None
            },
            _ => s_closing(toks, i + 1, stack),
        }
    }
}

/// The recovery from an error `e` inside the group opened at `pos`: the group
/// stands for `fallback`, and parsing goes on after its closing bracket, where
/// one of the right kind closes it; otherwise the error stands.
pub open spec fn s_recover<A>(toks: Seq<Spanned>, pos: int, d: Delimiter, e: Error, fallback: A) -> SRes<A> {
    match s_closing(toks, pos, Seq::empty()) {
        Some(m) => if toks[m].token == Token::Close(d) {
            Ok((fallback, m + 1, seq![e]))
        } else {
            Err(e)
        },
        None => Err(e),
    }
}

/// A group in the brackets `d` opened at `pos`, whose contents parsed (from
/// `pos + 1`) to `inner`: the contents when the matching bracket follows them,
/// else the recovery from the error. Where no bracket `d` opens at `pos`, the
/// group fails there, and neither its contents nor `fallback` count.
pub open spec fn s_nested<A>(toks: Seq<Spanned>, pos: int, d: Delimiter, inner: SRes<A>, fallback: A) -> SRes<A> {
    if !(is(toks, pos, Token::Open(d))) {
        Err(err_at(toks, pos))
    } else {
    match inner {
        Ok((v, q, errs)) => if is(toks, q, Token::Close(d)) {
            Ok((v, q + 1, errs))
        } else {
            s_recover(toks, pos, d, err_at(toks, q), fallback)
        },
        Err(e) => s_recover(toks, pos, d, e, fallback),
    }
    }
}

/// The recovery scan finds a closing bracket after the opening one.
pub proof fn lemma_closing_after(toks: Seq<Spanned>, i: int, stack: Seq<Delimiter>)
    ensures
        s_closing(toks, i, stack) matches Some(m) ==> i <= m < toks.len(),
    decreases toks.len() - i,
{
    if 0 <= i < toks.len() {
        match toks[i].token {
            Token::Open(d) => lemma_closing_after(toks, i + 1, stack.push(d)),
            Token::Close(d) => if stack.len() > 1 {
                lemma_closing_after(toks, i + 1, stack.drop_last())
            },
            _ => lemma_closing_after(toks, i + 1, stack),
        }
    }
}

fn find_closing(toks: &Vec<Spanned>, pos: usize) -> (r: Option<usize>)
    ensures
        r matches Some(m) ==> s_closing(toks@, pos as int, Seq::empty()) == Some(m as int),
        r is None ==> s_closing(toks@, pos as int, Seq::empty()) is None,
{
    let mut stack: Vec<Delimiter> = Vec::new();
    let mut i = pos;
    while i < toks.len()
        invariant
            pos <= i,
            s_closing(toks@, pos as int, Seq::empty()) == s_closing(toks@, i as int, stack@),
        decreases toks.len() - i,
    {
        match &toks[i].token {
            Token::Open(d) => {
                stack.push(*d);
            },
            Token::Close(d) => {
                if stack.len() > 0 && stack[stack.len() - 1] == *d {
                    if stack.len() == 1 {
                        return Some(i);
                    }
                    stack.pop();
                } else {
                    return None;
                }
            },
            _ => {},
        }
        i = i + 1;
    }
    None
}

/// The group in the brackets `delimiter` opened at `pos` (where the opening
/// bracket stands), given `inner`, the result of parsing its contents from
/// `pos + 1`: the contents when the matching closing bracket follows them.
/// Otherwise the error is recorded, the input is skipped up to the bracket
/// that closes the group (brackets of all kinds nest in between), and the group
/// stands for `fallback`; where no such bracket is found the error stands.
pub fn nested_parser<T: View>(
    toks: &Vec<Spanned>,
    pos: usize,
    delimiter: Delimiter,
    inner: PResult<T>,
    fallback: T,
) -> (r: PResult<T>)
    requires
        pos <= toks@.len(),
        res_v(inner) matches Ok((_, q, _)) ==> pos < q <= toks@.len(),
    ensures
        res_v(r) == s_nested(toks@, pos as int, delimiter, res_v(inner), fallback@),
        progress(res_v(r), pos as int, toks@.len() as int),
{
    if !is_tok(toks, pos, &Token::Open(delimiter)) {
        return Err(err_here(toks, pos));
    }
    let e = match inner {
        Ok((v, q, errs)) => {
            if is_tok(toks, q, &Token::Close(delimiter)) {
                assert(q < toks.len());
                return Ok((v, q + 1, errs));
            }
            err_here(toks, q)
        },
        Err(e) => e,
    };
    proof {
        lemma_closing_after(toks@, pos as int, Seq::empty());
    }
    match find_closing(toks, pos) {
        Some(m) => {
            if is_tok(toks, m, &Token::Close(delimiter)) {
                assert(m < toks.len());
                let mut errs: Vec<Error> = Vec::new();
                errs.push(e);
                proof {
                    assert(errs@ =~= seq![e]);
                    assert(m != pos);
                }
                Ok((fallback, m + 1, errs))
            } else {
                Err(e)
            }
        },
        None => Err(e),
    }
}

} // verus!
