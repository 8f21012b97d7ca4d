use vstd::prelude::*;

use crate::ident::Ident;
use crate::span::Span;

verus! {

/// The three kinds of bracket.
#[derive(Copy, Clone, Debug, PartialEq, Eq, Structural)]
pub enum Delimiter {
    Paren,
    Brack,
    Brace,
}

/// The operators of the language.
#[derive(Copy, Clone, Debug, PartialEq, Eq, Structural)]
pub enum Op {
    Add,
    Sub,
    Mul,
    Div,
    Rem,
    Eq,
    NotEq,
    Less,
    More,
    LessEq,
    MoreEq,
    Join,
    And,
    Or,
    Xor,
    Not,
    RArrow,
    RFlow,
    Dot,
    Ellipsis,
}

/// A token of the language.
#[derive(Debug, PartialEq)]
pub enum Token {
    Nat(u64),
    /// A number with a fractional part, as written in the source.
    Num(String),
    Bool(bool),
    Char(char),
    Str(String),
    TermIdent(Ident),
    TypeIdent(Ident),
    Open(Delimiter),
    Close(Delimiter),
    Op(Op),
    Comma,
    Colon,
    Question,
    Wildcard,
    Tilde,
    Pipe,
    Fn,
    Let,
    In,
    If,
    Then,
    Else,
    Match,
    Data,
    Type,
    Def,
}

impl Clone for Token {
    fn clone(&self) -> (r: Token)
        ensures
            r == *self,
    {
        match self {
            Token::Nat(x) => Token::Nat(*x),
            Token::Num(x) => Token::Num(x.clone()),
            Token::Bool(x) => Token::Bool(*x),
            Token::Char(x) => Token::Char(*x),
            Token::Str(x) => Token::Str(x.clone()),
            Token::TermIdent(x) => Token::TermIdent(x.clone()),
            Token::TypeIdent(x) => Token::TypeIdent(x.clone()),
            Token::Open(d) => Token::Open(*d),
            Token::Close(d) => Token::Close(*d),
            Token::Op(o) => Token::Op(*o),
            Token::Comma => Token::Comma,
            Token::Colon => Token::Colon,
            Token::Question => Token::Question,
            Token::Wildcard => Token::Wildcard,
            Token::Tilde => Token::Tilde,
            Token::Pipe => Token::Pipe,
            Token::Fn => Token::Fn,
            Token::Let => Token::Let,
            Token::In => Token::In,
            Token::If => Token::If,
            Token::Then => Token::Then,
            Token::Else => Token::Else,
            Token::Match => Token::Match,
            Token::Data => Token::Data,
            Token::Type => Token::Type,
            Token::Def => Token::Def,
        }
    }
}

/// A token with the span of source it was read from.
#[derive(Debug, PartialEq)]
pub struct Spanned {
    pub token: Token,
    pub span: Span,
}

impl Spanned {
    /// A token read from `span`.
    pub fn new(token: Token, span: Span) -> (r: Spanned)
        ensures
            r.token == token,
            r.span == span,
    {
        Spanned { token, span }
    }
}

} // verus!
