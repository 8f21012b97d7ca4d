use vstd::prelude::*;

use crate::ast::{
    bfields_v, bnode_v, bnodes_v, lemma_pat_views, nodev, Binding, BindingV, NodeV, Pat, PatV, Type,
    TypeV,
};
use crate::ident::Ident;
use crate::parse::types::{s_ty_hint, ty_hint_parser};
use crate::parse::{
    alt, append_errs, err_at, err_here, is, is_clean, is_tok, literal_parser, nested_parser, pick,
    progress, res_v, s_literal, s_nested, span_between, span_of, Error, PResult, SRes,
};
use crate::span::SrcNode;
use crate::token::{Delimiter, Op, Spanned, Token};

verus! {

/// A pattern together with the name it binds, before its type hint.
pub type PatNameV = (NodeV<PatV>, Option<NodeV<Seq<char>>>);

/// A binding: `name ~ pattern`, a pattern, or a name alone (which matches
/// anything); the first of these that applies, followed by an optional type hint.
pub open spec fn s_binding(toks: Seq<Spanned>, pos: int) -> SRes<NodeV<BindingV>>
    decreases toks.len() - pos, 5nat,
{
    if pos < 0 || pos > toks.len() {
        Err(err_at(toks, pos))
    } else {
        let ident = pos < toks.len() && toks[pos].token is TermIdent;
        let a: SRes<PatNameV> = if ident && is(toks, pos + 1, Token::Tilde) {
            match s_pat(toks, pos + 2) {
                Ok((pt, q, es)) => Ok(((pt, Some(nodev(toks[pos].token->TermIdent_0@, toks[pos].span))), q, es)),
                Err(e) => Err(e),
            }
        } else if ident {
            Err(err_at(toks, pos + 1))
        } else {
            Err(err_at(toks, pos))
        };
        let b: SRes<PatNameV> = match s_pat(toks, pos) {
            Ok((pt, q, es)) => Ok(((pt, None), q, es)),
            Err(e) => Err(e),
        };
        let c: SRes<PatNameV> = if ident {
            Ok((
                (nodev(PatV::Wildcard, toks[pos].span), Some(nodev(toks[pos].token->TermIdent_0@, toks[pos].span))),
                pos + 1,
                Seq::empty(),
            ))
        } else {
            Err(err_at(toks, pos))
        };
        match alt(alt(a, b), c) {
            Ok(((pt, name), q, es)) => if pos < q <= toks.len() {
                let (ty, q2, es2) = s_ty_hint(toks, q);
                Ok((nodev(BindingV { pat: pt, name, ty }, span_of(toks, pos, q2)), q2, es + es2))
            } else {
                Err(err_at(toks, pos))
            },
            Err(e) => Err(e),
        }
    }
}

/// A pattern: `_`, a literal, a constructor applied to an optional binding, a
/// binding in parentheses, a tuple, a record or a list; the first that applies.
pub open spec fn s_pat(toks: Seq<Spanned>, pos: int) -> SRes<NodeV<PatV>>
    decreases toks.len() - pos, 4nat,
{
    if pos < 0 || pos > toks.len() {
        Err(err_at(toks, pos))
    } else {
        alt(
            alt(
                alt(
                    alt(alt(alt(s_wildcard(toks, pos), s_litr_pat(toks, pos)), s_decons(toks, pos)), s_paren_pat(toks, pos)),
                    s_tuple_pat(toks, pos),
                ),
                s_record_pat(toks, pos),
            ),
            s_list_pat(toks, pos),
        )
    }
}

pub open spec fn s_wildcard(toks: Seq<Spanned>, pos: int) -> SRes<NodeV<PatV>> {
    if 0 <= pos && is(toks, pos, Token::Wildcard) {
        Ok((nodev(PatV::Wildcard, toks[pos].span), pos + 1, Seq::empty()))
    } else {
        Err(err_at(toks, pos))
    }
}

pub open spec fn s_litr_pat(toks: Seq<Spanned>, pos: int) -> SRes<NodeV<PatV>> {
    match s_literal(toks, pos) {
        Ok((l, q)) => Ok((nodev(PatV::Literal(l), span_of(toks, pos, q)), q, Seq::empty())),
        Err(e) => Err(e),
    }
}

/// The binding that a constructor written without one takes: the empty tuple.
pub open spec fn unit_binding(span: crate::span::Span) -> NodeV<BindingV> {
    nodev(BindingV { pat: nodev(PatV::Tuple(Seq::empty()), span), name: None, ty: None }, span)
}

/// `Name binding?`
pub open spec fn s_decons(toks: Seq<Spanned>, pos: int) -> SRes<NodeV<PatV>>
    decreases toks.len() - pos, 3nat,
{
    if 0 <= pos < toks.len() && toks[pos].token is TypeIdent {
        let name = nodev(toks[pos].token->TypeIdent_0@, toks[pos].span);
        let (inner, q, es) = match s_binding(toks, pos + 1) {
            Ok((b, q, es)) => (b, q, es),
            Err(_) => (unit_binding(toks[pos].span), pos + 1, Seq::empty()),
        };
        Ok((nodev(PatV::Deconstruct(name, inner), span_of(toks, pos, q)), q, es))
    } else {
        Err(err_at(toks, pos))
    }
}

/// `( binding )`
pub open spec fn s_paren_pat(toks: Seq<Spanned>, pos: int) -> SRes<NodeV<PatV>>
    decreases toks.len() - pos, 3nat,
{
    if 0 <= pos && is(toks, pos, Token::Open(Delimiter::Paren)) {
        let inner = match s_binding(toks, pos + 1) {
            Ok((b, q, es)) => Ok((PatV::Single(b), q, es)),
            Err(e) => Err(e),
        };
        node_of(toks, pos, s_nested(toks, pos, Delimiter::Paren, inner, PatV::Error))
    } else {
        Err(err_at(toks, pos))
    }
}

/// A result whose value is wrapped in a node spanning what it consumed from `pos`.
pub open spec fn node_of<A>(toks: Seq<Spanned>, pos: int, r: SRes<A>) -> SRes<NodeV<A>> {
    match r {
        Ok((v, q, es)) => Ok((nodev(v, span_of(toks, pos, q)), q, es)),
        Err(e) => Err(e),
    }
}

/// `( binding, ... )`
pub open spec fn s_tuple_pat(toks: Seq<Spanned>, pos: int) -> SRes<NodeV<PatV>>
    decreases toks.len() - pos, 3nat,
{
    if 0 <= pos && is(toks, pos, Token::Open(Delimiter::Paren)) {
        let (items, q, es) = s_bindings(toks, pos + 1);
        node_of(toks, pos, s_nested(toks, pos, Delimiter::Paren, Ok((PatV::Tuple(items), q, es)), PatV::Error))
    } else {
        Err(err_at(toks, pos))
    }
}

/// `{ field, ... }` where a field is `name : type? (= binding)?`.
pub open spec fn s_record_pat(toks: Seq<Spanned>, pos: int) -> SRes<NodeV<PatV>>
    decreases toks.len() - pos, 3nat,
{
    if 0 <= pos && is(toks, pos, Token::Open(Delimiter::Brace)) {
        let (fields, q, es) = s_pfields(toks, pos + 1);
        let q2 = if is(toks, q, Token::Comma) {
            q + 1
        } else {
            q
        };
        node_of(toks, pos, s_nested(toks, pos, Delimiter::Brace, Ok((PatV::Record(fields), q2, es)), PatV::Error))
    } else {
        Err(err_at(toks, pos))
    }
}

/// `[ binding, ... ]`, optionally followed by `..` and an optional binding for the rest.
pub open spec fn s_list_pat(toks: Seq<Spanned>, pos: int) -> SRes<NodeV<PatV>>
    decreases toks.len() - pos, 3nat,
{
    if 0 <= pos && is(toks, pos, Token::Open(Delimiter::Brack)) {
        let (items, q, es) = s_bindings(toks, pos + 1);
        let inner = if pos < q && is(toks, q, Token::Op(Op::Ellipsis)) {
            match s_binding(toks, q + 1) {
                Ok((t, q2, es2)) => Ok((PatV::ListFront(items, Some(t)), q2, es + es2)),
                Err(_) => Ok((PatV::ListFront(items, None), q + 1, es)),
            }
        } else {
            Ok((PatV::ListExact(items), q, es))
        };
        node_of(toks, pos, s_nested(toks, pos, Delimiter::Brack, inner, PatV::Error))
    } else {
        Err(err_at(toks, pos))
    }
}

/// Bindings separated by commas (possibly none, possibly with a trailing comma).
pub open spec fn s_bindings(toks: Seq<Spanned>, p: int) -> (Seq<NodeV<BindingV>>, int, Seq<Error>)
    decreases toks.len() - p, 6nat,
{
    if p < 0 || p > toks.len() {
        (Seq::empty(), p, Seq::empty())
    } else {
        match s_binding(toks, p) {
            Ok((b, p1, e1)) => if p < p1 <= toks.len() {
                s_bindings_rest(toks, seq![b], p1, e1)
            } else {
                (Seq::empty(), p, Seq::empty())
            },
            Err(_) => (Seq::empty(), p, Seq::empty()),
        }
    }
}

pub open spec fn s_bindings_rest(toks: Seq<Spanned>, acc: Seq<NodeV<BindingV>>, p: int, errs: Seq<Error>) -> (Seq<NodeV<BindingV>>, int, Seq<Error>)
    decreases toks.len() - p, 6nat,
{
    if 0 <= p && is(toks, p, Token::Comma) {
        match s_binding(toks, p + 1) {
            Ok((b, p2, e2)) => if p + 1 < p2 <= toks.len() {
                s_bindings_rest(toks, acc.push(b), p2, errs + e2)
            } else {
                (acc, p + 1, errs)
            },
            Err(_) => (acc, p + 1, errs),
        }
    } else {
        (acc, p, errs)
    }
}

/// A field of a record pattern: `name : type? (= binding)?`. Without a binding
/// the field binds its own name (with the type hint, if one is given).
pub open spec fn s_pfield(toks: Seq<Spanned>, p: int) -> SRes<(NodeV<Seq<char>>, NodeV<BindingV>)>
    decreases toks.len() - p, 1nat,
{
    if 0 <= p < toks.len() && toks[p].token is TermIdent {
        let field = nodev(toks[p].token->TermIdent_0@, toks[p].span);
        let (ty, q1, e1) = s_ty_hint(toks, p + 1);
        let given = if p < q1 && is(toks, q1, Token::Op(Op::Eq)) {
            match s_binding(toks, q1 + 1) {
                Ok((b, q2, e2)) => Some((b, q2, e1 + e2)),
                Err(_) => None,
            }
        } else {
            None
        };
        match given {
            Some((b, q2, es)) => Ok(((field, b), q2, es)),
            None => Ok((
                (
                    field,
                    nodev(BindingV { pat: nodev(PatV::Wildcard, field.span), name: Some(field), ty }, span_of(toks, p, q1)),
                ),
                q1,
                e1,
            )),
        }
    } else {
        Err(err_at(toks, p))
    }
}

pub open spec fn s_pfields(toks: Seq<Spanned>, p: int) -> (Seq<(NodeV<Seq<char>>, NodeV<BindingV>)>, int, Seq<Error>)
    decreases toks.len() - p, 6nat,
{
    if p < 0 || p > toks.len() {
        (Seq::empty(), p, Seq::empty())
    } else {
        match s_pfield(toks, p) {
            Ok((f, p1, e1)) => if p < p1 <= toks.len() {
                s_pfields_rest(toks, seq![f], p1, e1)
            } else {
                (Seq::empty(), p, Seq::empty())
            },
            Err(_) => (Seq::empty(), p, Seq::empty()),
        }
    }
}

pub open spec fn s_pfields_rest(
    toks: Seq<Spanned>,
    acc: Seq<(NodeV<Seq<char>>, NodeV<BindingV>)>,
    p: int,
    errs: Seq<Error>,
) -> (Seq<(NodeV<Seq<char>>, NodeV<BindingV>)>, int, Seq<Error>)
    decreases toks.len() - p, 6nat,
{
    if 0 <= p && is(toks, p, Token::Comma) {
        match s_pfield(toks, p + 1) {
            Ok((f, p2, e2)) => if p + 1 < p2 <= toks.len() {
                s_pfields_rest(toks, acc.push(f), p2, errs + e2)
            } else {
                (acc, p + 1, errs)
            },
            Err(_) => (acc, p + 1, errs),
        }
    } else {
        (acc, p, errs)
    }
}

/// The mathematical value of a binding parser's result.
pub open spec fn bres_v(r: PResult<SrcNode<Binding>>) -> SRes<NodeV<BindingV>> {
    match r {
        Ok((b, p, errs)) => Ok((bnode_v(b), p as int, errs@)),
        Err(e) => Err(e),
    }
}

// ----- The parsers -----

/// Reads a binding: a pattern, the name it binds and its type hint.
pub fn binding_parser(toks: &Vec<Spanned>, pos: usize) -> (r: PResult<SrcNode<Binding>>)
    requires
        pos <= toks@.len(),
    ensures
        bres_v(r) == s_binding(toks@, pos as int),
        progress(bres_v(r), pos as int, toks@.len() as int),
    decreases toks@.len() - pos, 5nat,
{
    let ident: Option<&Ident> = if pos < toks.len() {
        match &toks[pos].token {
            Token::TermIdent(x) => Some(x),
            _ => None,
        }
    } else {
        None
    };
    let a: PResult<(SrcNode<Pat>, Option<SrcNode<Ident>>)> = match ident {
        Some(x) => if is_tok(toks, pos + 1, &Token::Tilde) {
            match pat_parser(toks, pos + 2) {
                Ok((pt, q, es)) => Ok(((pt, Some(SrcNode::new(x.clone(), toks[pos].span))), q, es)),
                Err(e) => Err(e),
            }
        } else {
            Err(err_here(toks, pos + 1))
        },
        None => Err(err_here(toks, pos)),
    };
    let r = if is_clean(&a) {
        a
    } else {
        let b: PResult<(SrcNode<Pat>, Option<SrcNode<Ident>>)> = match pat_parser(toks, pos) {
            Ok((pt, q, es)) => Ok(((pt, None), q, es)),
            Err(e) => Err(e),
        };
        pick(a, b)
    };
    let r = if is_clean(&r) {
        r
    } else {
        let c: PResult<(SrcNode<Pat>, Option<SrcNode<Ident>>)> = match ident {
            Some(x) => {
                let span = toks[pos].span;
                Ok(((SrcNode::new(Pat::Wildcard, span), Some(SrcNode::new(x.clone(), span))), pos + 1, Vec::new()))
            },
            None => Err(err_here(toks, pos)),
        };
        pick(r, c)
    };
    match r {
        Ok(((pt, name), q, es)) => {
            let (ty, q2, es2) = ty_hint_parser(toks, q);
            let span = span_between(toks, pos, q2);
            let b = Binding { pat: pt, name, ty };
            let node = SrcNode::new(b, span);
            Ok((node, q2, append_errs(es, es2)))
        },
        Err(e) => Err(e),
    }
}

fn pat_parser(toks: &Vec<Spanned>, pos: usize) -> (r: PResult<SrcNode<Pat>>)
    requires
        pos <= toks@.len(),
    ensures
        res_v(r) == s_pat(toks@, pos as int),
        progress(res_v(r), pos as int, toks@.len() as int),
    decreases toks@.len() - pos, 4nat,
{
    let r = wildcard_pat(toks, pos);
    let r = if is_clean(&r) {
        r
    } else {
        pick(r, litr_pat(toks, pos))
    };
    let r = if is_clean(&r) {
        r
    } else {
        pick(r, decons_pat(toks, pos))
    };
    let r = if is_clean(&r) {
        r
    } else {
        pick(r, paren_pat(toks, pos))
    };
    let r = if is_clean(&r) {
        r
    } else {
        pick(r, tuple_pat(toks, pos))
    };
    let r = if is_clean(&r) {
        r
    } else {
        pick(r, record_pat(toks, pos))
    };
    if is_clean(&r) {
        r
    } else {
        pick(r, list_pat(toks, pos))
    }
}

fn wildcard_pat(toks: &Vec<Spanned>, pos: usize) -> (r: PResult<SrcNode<Pat>>)
    requires
        pos <= toks@.len(),
    ensures
        res_v(r) == s_wildcard(toks@, pos as int),
        progress(res_v(r), pos as int, toks@.len() as int),
{
    if is_tok(toks, pos, &Token::Wildcard) {
        Ok((SrcNode::new(Pat::Wildcard, toks[pos].span), pos + 1, Vec::new()))
    } else {
        Err(err_here(toks, pos))
    }
}

fn litr_pat(toks: &Vec<Spanned>, pos: usize) -> (r: PResult<SrcNode<Pat>>)
    requires
        pos <= toks@.len(),
    ensures
        res_v(r) == s_litr_pat(toks@, pos as int),
        progress(res_v(r), pos as int, toks@.len() as int),
{
    match literal_parser(toks, pos) {
        Ok((l, q)) => {
            let span = span_between(toks, pos, q);
            Ok((SrcNode::new(Pat::Literal(l), span), q, Vec::new()))
        },
        Err(e) => Err(e),
    }
}

fn unit_binding_node(span: crate::span::Span) -> (r: SrcNode<Binding>)
    ensures
        bnode_v(r) == unit_binding(span),
{
    let p = Pat::Tuple(Vec::new());
    proof {
        lemma_pat_views(p);
        assert(bnodes_v(Seq::<SrcNode<Binding>>::empty()) =~= Seq::empty());
    }
    SrcNode::new(Binding { pat: SrcNode::new(p, span), name: None, ty: None }, span)
}

fn decons_pat(toks: &Vec<Spanned>, pos: usize) -> (r: PResult<SrcNode<Pat>>)
    requires
        pos <= toks@.len(),
    ensures
        res_v(r) == s_decons(toks@, pos as int),
        progress(res_v(r), pos as int, toks@.len() as int),
    decreases toks@.len() - pos, 3nat,
{
    if pos < toks.len() {
        match &toks[pos].token {
            Token::TypeIdent(x) => {
                let name = SrcNode::new(x.clone(), toks[pos].span);
                let (inner, q, es) = match binding_parser(toks, pos + 1) {
                    Ok((b, q, es)) => (b, q, es),
                    Err(_) => (unit_binding_node(toks[pos].span), pos + 1, Vec::new()),
                };
                let span = span_between(toks, pos, q);
                Ok((SrcNode::new(Pat::Deconstruct(name, inner), span), q, es))
            },
            _ => Err(err_here(toks, pos)),
        }
    } else {
        Err(err_here(toks, pos))
    }
}

fn node_result(toks: &Vec<Spanned>, pos: usize, r: PResult<Pat>) -> (n: PResult<SrcNode<Pat>>)
    requires
        res_v(r) matches Ok((_, q, _)) ==> q <= toks@.len(),
    ensures
        res_v(n) == node_of(toks@, pos as int, res_v(r)),
{
    match r {
        Ok((v, q, es)) => {
            let span = span_between(toks, pos, q);
            Ok((SrcNode::new(v, span), q, es))
        },
        Err(e) => Err(e),
    }
}

fn paren_pat(toks: &Vec<Spanned>, pos: usize) -> (r: PResult<SrcNode<Pat>>)
    requires
        pos <= toks@.len(),
    ensures
        res_v(r) == s_paren_pat(toks@, pos as int),
        progress(res_v(r), pos as int, toks@.len() as int),
    decreases toks@.len() - pos, 3nat,
{
    if is_tok(toks, pos, &Token::Open(Delimiter::Paren)) {
        let inner = match binding_parser(toks, pos + 1) {
            Ok((b, q, es)) => Ok((Pat::Single(b), q, es)),
            Err(e) => Err(e),
        };
        node_result(toks, pos, nested_parser(toks, pos, Delimiter::Paren, inner, Pat::Error))
    } else {
        Err(err_here(toks, pos))
    }
}

fn tuple_pat(toks: &Vec<Spanned>, pos: usize) -> (r: PResult<SrcNode<Pat>>)
    requires
        pos <= toks@.len(),
    ensures
        res_v(r) == s_tuple_pat(toks@, pos as int),
        progress(res_v(r), pos as int, toks@.len() as int),
    decreases toks@.len() - pos, 3nat,
{
    if is_tok(toks, pos, &Token::Open(Delimiter::Paren)) {
        let (items, q, es) = bindings_sep(toks, pos + 1);
        let p = Pat::Tuple(items);
        proof {
            lemma_pat_views(p);
        }
        node_result(toks, pos, nested_parser(toks, pos, Delimiter::Paren, Ok((p, q, es)), Pat::Error))
    } else {
        Err(err_here(toks, pos))
    }
}

fn record_pat(toks: &Vec<Spanned>, pos: usize) -> (r: PResult<SrcNode<Pat>>)
    requires
        pos <= toks@.len(),
    ensures
        res_v(r) == s_record_pat(toks@, pos as int),
        progress(res_v(r), pos as int, toks@.len() as int),
    decreases toks@.len() - pos, 3nat,
{
    if is_tok(toks, pos, &Token::Open(Delimiter::Brace)) {
        let (fields, q, es) = pfields_sep(toks, pos + 1);
        let q2 = if is_tok(toks, q, &Token::Comma) {
            q + 1
        } else {
            q
        };
        let p = Pat::Record(fields);
        proof {
            lemma_pat_views(p);
        }
        node_result(toks, pos, nested_parser(toks, pos, Delimiter::Brace, Ok((p, q2, es)), Pat::Error))
    } else {
        Err(err_here(toks, pos))
    }
}

fn list_pat(toks: &Vec<Spanned>, pos: usize) -> (r: PResult<SrcNode<Pat>>)
    requires
        pos <= toks@.len(),
    ensures
        res_v(r) == s_list_pat(toks@, pos as int),
        progress(res_v(r), pos as int, toks@.len() as int),
    decreases toks@.len() - pos, 3nat,
{
    if is_tok(toks, pos, &Token::Open(Delimiter::Brack)) {
        let (items, q, es) = bindings_sep(toks, pos + 1);
        let inner = if is_tok(toks, q, &Token::Op(Op::Ellipsis)) {
            match binding_parser(toks, q + 1) {
                Ok((t, q2, es2)) => {
                    let p = Pat::ListFront(items, Some(t));
                    proof {
                        lemma_pat_views(p);
                    }
                    Ok((p, q2, append_errs(es, es2)))
                },
                Err(_) => {
                    let p = Pat::ListFront(items, None);
                    proof {
                        lemma_pat_views(p);
                    }
                    Ok((p, q + 1, es))
                },
            }
        } else {
            let p = Pat::ListExact(items);
            proof {
                lemma_pat_views(p);
            }
            Ok((p, q, es))
        };
        node_result(toks, pos, nested_parser(toks, pos, Delimiter::Brack, inner, Pat::Error))
    } else {
        Err(err_here(toks, pos))
    }
}

/// Reads bindings separated by commas, with an optional trailing comma.
pub(crate) fn bindings_sep(toks: &Vec<Spanned>, p: usize) -> (r: (Vec<SrcNode<Binding>>, usize, Vec<Error>))
    requires
        p <= toks@.len(),
    ensures
        s_bindings(toks@, p as int) == (bnodes_v(r.0@), r.1 as int, r.2@),
        p <= r.1 <= toks@.len(),
    decreases toks@.len() - p, 6nat,
{
    match binding_parser(toks, p) {
        Ok((b, p1, e1)) => {
            let mut acc: Vec<SrcNode<Binding>> = Vec::new();
            acc.push(b);
            proof {
                assert(bnodes_v(acc@) =~= seq![bnode_v(acc@[0])]);
            }
            bindings_sep_rest(toks, acc, p1, e1)
        },
        Err(_) => {
            proof {
                assert(bnodes_v(Seq::<SrcNode<Binding>>::empty()) =~= Seq::empty());
            }
            (Vec::new(), p, Vec::new())
        },
    }
}

fn bindings_sep_rest(toks: &Vec<Spanned>, acc: Vec<SrcNode<Binding>>, p: usize, errs: Vec<Error>) -> (r: (
    Vec<SrcNode<Binding>>,
    usize,
    Vec<Error>,
))
    requires
        p <= toks@.len(),
    ensures
        s_bindings_rest(toks@, bnodes_v(acc@), p as int, errs@) == (bnodes_v(r.0@), r.1 as int, r.2@),
        p <= r.1 <= toks@.len(),
    decreases toks@.len() - p, 6nat,
{
    if is_tok(toks, p, &Token::Comma) {
        match binding_parser(toks, p + 1) {
            Ok((b, p2, e2)) => {
                let mut acc = acc;
                let ghost old_acc = acc@;
                acc.push(b);
                proof {
                    assert(bnodes_v(acc@) =~= bnodes_v(old_acc).push(bnode_v(acc@.last())));
                }
                bindings_sep_rest(toks, acc, p2, append_errs(errs, e2))
            },
            Err(_) => (acc, p + 1, errs),
        }
    } else {
        (acc, p, errs)
    }
}

fn pfield(toks: &Vec<Spanned>, p: usize) -> (r: PResult<(SrcNode<Ident>, SrcNode<Binding>)>)
    requires
        p <= toks@.len(),
    ensures
        match (r, s_pfield(toks@, p as int)) {
            (Ok((f, q, es)), Ok((sf, sq, ses))) => (f.0@, bnode_v(f.1)) == sf && q == sq && es@ == ses,
            (Err(e), Err(se)) => e == se,
            _ => false,
        },
        r matches Ok((_, q, _)) ==> p < q <= toks@.len(),
    decreases toks@.len() - p, 1nat,
{
    if p < toks.len() {
        match &toks[p].token {
            Token::TermIdent(x) => {
                let field = SrcNode::new(x.clone(), toks[p].span);
                let (ty, q1, e1) = ty_hint_parser(toks, p + 1);
                if is_tok(toks, q1, &Token::Op(Op::Eq)) {
                    match binding_parser(toks, q1 + 1) {
                        Ok((b, q2, e2)) => {
                            return Ok(((field, b), q2, append_errs(e1, e2)));
                        },
                        Err(_) => {},
                    }
                }
                let span = span_between(toks, p, q1);
                let fspan = field.span;
                let name = SrcNode::new(x.clone(), toks[p].span);
                let b = Binding { pat: SrcNode::new(Pat::Wildcard, fspan), name: Some(name), ty };
                Ok(((field, SrcNode::new(b, span)), q1, e1))
            },
            _ => Err(err_here(toks, p)),
        }
    } else {
        Err(err_here(toks, p))
    }
}

fn pfields_sep(toks: &Vec<Spanned>, p: usize) -> (r: (Vec<(SrcNode<Ident>, SrcNode<Binding>)>, usize, Vec<Error>))
    requires
        p <= toks@.len(),
    ensures
        s_pfields(toks@, p as int) == (bfields_v(r.0@), r.1 as int, r.2@),
        p <= r.1 <= toks@.len(),
    decreases toks@.len() - p, 6nat,
{
    match pfield(toks, p) {
        Ok((f, p1, e1)) => {
            let mut acc: Vec<(SrcNode<Ident>, SrcNode<Binding>)> = Vec::new();
            acc.push(f);
            proof {
                assert(bfields_v(acc@) =~= seq![(acc@[0].0@, bnode_v(acc@[0].1))]);
            }
            pfields_sep_rest(toks, acc, p1, e1)
        },
        Err(_) => {
            proof {
                assert(bfields_v(Seq::<(SrcNode<Ident>, SrcNode<Binding>)>::empty()) =~= Seq::empty());
            }
            (Vec::new(), p, Vec::new())
        },
    }
}

fn pfields_sep_rest(
    toks: &Vec<Spanned>,
    acc: Vec<(SrcNode<Ident>, SrcNode<Binding>)>,
    p: usize,
    errs: Vec<Error>,
) -> (r: (Vec<(SrcNode<Ident>, SrcNode<Binding>)>, usize, Vec<Error>))
    requires
        p <= toks@.len(),
    ensures
        s_pfields_rest(toks@, bfields_v(acc@), p as int, errs@) == (bfields_v(r.0@), r.1 as int, r.2@),
        p <= r.1 <= toks@.len(),
    decreases toks@.len() - p, 6nat,
{
    if is_tok(toks, p, &Token::Comma) {
        match pfield(toks, p + 1) {
            Ok((f, p2, e2)) => {
                let mut acc = acc;
                let ghost old_acc = acc@;
                acc.push(f);
                proof {
                    assert(bfields_v(acc@) =~= bfields_v(old_acc).push((acc@.last().0@, bnode_v(acc@.last().1))));
                }
                pfields_sep_rest(toks, acc, p2, append_errs(errs, e2))
            },
            Err(_) => (acc, p + 1, errs),
        }
    } else {
        (acc, p, errs)
    }
}

} // verus!
