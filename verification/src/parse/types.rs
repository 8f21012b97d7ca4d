use vstd::prelude::*;

use crate::ast::{
    lemma_type_views, nodev, tfields_v, tnodes_v, NodeV, Type, TypeV,
};
use crate::ident::Ident;
use crate::parse::{
    alt, append_errs, is_clean, err_at, err_here, is, is_tok, nested_parser, pick, progress, res_v, s_nested,
    span_between, span_of, Error, PResult, SRes,
};
use crate::span::{spec_union, SrcNode};
use crate::token::{Delimiter, Op, Spanned, Token};

verus! {

// ----- The grammar of types -----

/// A type: a data type or an atom, followed by any number of `-> type`
/// (so that arrows group to the right).
pub open spec fn s_ty(toks: Seq<Spanned>, pos: int) -> SRes<TypeV>
    decreases toks.len() - pos, 5nat,
{
    if pos < 0 || pos > toks.len() {
        Err(err_at(toks, pos))
    } else {
        match s_data(toks, pos) {
            Err(e) => Err(e),
            Ok((d, p1, e1)) => if pos < p1 <= toks.len() {
                s_arrows(toks, d, p1, e1)
            } else {
                Err(err_at(toks, pos))
            },
        }
    }
}

/// The function types `acc -> o` for each `-> o` that follows at `p`.
pub open spec fn s_arrows(toks: Seq<Spanned>, acc: NodeV<TypeV>, p: int, errs: Seq<Error>) -> SRes<TypeV>
    decreases toks.len() - p, 7nat,
{
    if 0 <= p && is(toks, p, Token::Op(Op::RArrow)) {
        match s_ty(toks, p + 1) {
            Ok((o, p2, e2)) => if p + 1 < p2 <= toks.len() {
                let on = nodev(o, span_of(toks, p + 1, p2));
                s_arrows(toks, nodev(TypeV::Func(acc, on), spec_union(acc.span, on.span)), p2, errs + e2)
            } else {
                Err(err_at(toks, p))
            },
            Err(_) => Ok((*acc.inner, p, errs)),
        }
    } else {
        Ok((*acc.inner, p, errs))
    }
}

/// A data type applied to its parameters (any number of atoms), or else an atom.
pub open spec fn s_data(toks: Seq<Spanned>, pos: int) -> SRes<NodeV<TypeV>>
    decreases toks.len() - pos, 4nat,
{
    if pos < 0 || pos > toks.len() {
        Err(err_at(toks, pos))
    } else {
        let first = if pos < toks.len() && toks[pos].token is TypeIdent {
            let (ps, p, es) = s_params(toks, pos + 1, Seq::empty(), Seq::empty());
            Ok((
                nodev(TypeV::Data(nodev(toks[pos].token->TypeIdent_0@, toks[pos].span), ps), span_of(toks, pos, p)),
                p,
                es,
            ))
        } else {
            Err(err_at(toks, pos))
        };
        alt(first, s_atom(toks, pos))
    }
}

/// The atoms that follow at `p`, appended to `acc`.
pub open spec fn s_params(toks: Seq<Spanned>, p: int, acc: Seq<NodeV<TypeV>>, errs: Seq<Error>) -> (Seq<NodeV<TypeV>>, int, Seq<Error>)
    decreases toks.len() - p, 8nat,
{
    if p < 0 || p > toks.len() {
        (acc, p, errs)
    } else {
        match s_atom(toks, p) {
            Ok((n, p2, e2)) => if p < p2 <= toks.len() {
                s_params(toks, p2, acc.push(n), errs + e2)
            } else {
                (acc, p, errs)
            },
            Err(_) => (acc, p, errs),
        }
    }
}

/// A type in parentheses, a data type without parameters, a list type, a
/// tuple type, a record type, or `?`; the first of these that applies.
pub open spec fn s_atom(toks: Seq<Spanned>, pos: int) -> SRes<NodeV<TypeV>>
    decreases toks.len() - pos, 3nat,
{
    if pos < 0 || pos > toks.len() {
        Err(err_at(toks, pos))
    } else {
        let r = alt(
            alt(
                alt(alt(alt(s_paren_ty(toks, pos), s_data0(toks, pos)), s_list_ty(toks, pos)), s_tuple_ty(toks, pos)),
                s_record_ty(toks, pos),
            ),
            s_unknown(toks, pos),
        );
        match r {
            Ok((t, p, es)) => Ok((nodev(t, span_of(toks, pos, p)), p, es)),
            Err(e) => Err(e),
        }
    }
}

/// `( type )`
pub open spec fn s_paren_ty(toks: Seq<Spanned>, pos: int) -> SRes<TypeV>
    decreases toks.len() - pos, 2nat,
{
    if 0 <= pos && is(toks, pos, Token::Open(Delimiter::Paren)) {
        s_nested(toks, pos, Delimiter::Paren, s_ty(toks, pos + 1), TypeV::Error)
    } else {
        Err(err_at(toks, pos))
    }
}

/// The name of a data type, without parameters.
pub open spec fn s_data0(toks: Seq<Spanned>, pos: int) -> SRes<TypeV> {
    if 0 <= pos < toks.len() && toks[pos].token is TypeIdent {
        Ok((
            TypeV::Data(nodev(toks[pos].token->TypeIdent_0@, toks[pos].span), Seq::empty()),
            pos + 1,
            Seq::empty(),
        ))
    } else {
        Err(err_at(toks, pos))
    }
}

/// `[ type ]`
pub open spec fn s_list_ty(toks: Seq<Spanned>, pos: int) -> SRes<TypeV>
    decreases toks.len() - pos, 2nat,
{
    if 0 <= pos && is(toks, pos, Token::Open(Delimiter::Brack)) {
        let inner = match s_ty(toks, pos + 1) {
            Ok((t, q, es)) => Ok((TypeV::List(nodev(t, span_of(toks, pos + 1, q))), q, es)),
            Err(e) => Err(e),
        };
        s_nested(toks, pos, Delimiter::Brack, inner, TypeV::Error)
    } else {
        Err(err_at(toks, pos))
    }
}

/// `( type, ... )`, with an optional trailing comma.
pub open spec fn s_tuple_ty(toks: Seq<Spanned>, pos: int) -> SRes<TypeV>
    decreases toks.len() - pos, 2nat,
{
    if 0 <= pos && is(toks, pos, Token::Open(Delimiter::Paren)) {
        let (items, q, es) = s_tys(toks, pos + 1);
        let q2 = if is(toks, q, Token::Comma) {
            q + 1
        } else {
            q
        };
        s_nested(toks, pos, Delimiter::Paren, Ok((TypeV::Tuple(items), q2, es)), TypeV::Error)
    } else {
        Err(err_at(toks, pos))
    }
}

/// `{ name = type, ... }`, with an optional trailing comma.
pub open spec fn s_record_ty(toks: Seq<Spanned>, pos: int) -> SRes<TypeV>
    decreases toks.len() - pos, 2nat,
{
    if 0 <= pos && is(toks, pos, Token::Open(Delimiter::Brace)) {
        let (fields, q, es) = s_fields(toks, pos + 1);
        let q2 = if is(toks, q, Token::Comma) {
            q + 1
        } else {
            q
        };
        s_nested(toks, pos, Delimiter::Brace, Ok((TypeV::Record(fields), q2, es)), TypeV::Error)
    } else {
        Err(err_at(toks, pos))
    }
}

/// `?`, a type left to inference.
pub open spec fn s_unknown(toks: Seq<Spanned>, pos: int) -> SRes<TypeV> {
    if 0 <= pos && is(toks, pos, Token::Question) {
        Ok((TypeV::Unknown, pos + 1, Seq::empty()))
    } else {
        Err(err_at(toks, pos))
    }
}

/// Types separated by commas (possibly none, possibly with a trailing comma).
pub open spec fn s_tys(toks: Seq<Spanned>, p: int) -> (Seq<NodeV<TypeV>>, int, Seq<Error>)
    decreases toks.len() - p, 6nat,
{
    if p < 0 || p > toks.len() {
        (Seq::empty(), p, Seq::empty())
    } else {
        match s_ty(toks, p) {
            Ok((t, p1, e1)) => if p < p1 <= toks.len() {
                s_tys_rest(toks, seq![nodev(t, span_of(toks, p, p1))], p1, e1)
            } else {
                (Seq::empty(), p, Seq::empty())
            },
            Err(_) => (Seq::empty(), p, Seq::empty()),
        }
    }
}

pub open spec fn s_tys_rest(toks: Seq<Spanned>, acc: Seq<NodeV<TypeV>>, p: int, errs: Seq<Error>) -> (Seq<NodeV<TypeV>>, int, Seq<Error>)
    decreases toks.len() - p, 6nat,
{
    if 0 <= p && is(toks, p, Token::Comma) {
        match s_ty(toks, p + 1) {
            Ok((t, p2, e2)) => if p + 1 < p2 <= toks.len() {
                s_tys_rest(toks, acc.push(nodev(t, span_of(toks, p + 1, p2))), p2, errs + e2)
            } else {
                (acc, p + 1, errs)
            },
            Err(_) => (acc, p + 1, errs),
        }
    } else {
        (acc, p, errs)
    }
}

/// `name = type`, a field of a record type.
pub open spec fn s_field(toks: Seq<Spanned>, p: int) -> SRes<(NodeV<Seq<char>>, NodeV<TypeV>)>
    decreases toks.len() - p, 1nat,
{
    if 0 <= p < toks.len() && toks[p].token is TermIdent {
        if is(toks, p + 1, Token::Op(Op::Eq)) {
            match s_ty(toks, p + 2) {
                Ok((t, q, es)) => Ok((
                    (nodev(toks[p].token->TermIdent_0@, toks[p].span), nodev(t, span_of(toks, p + 2, q))),
                    q,
                    es,
                )),
                Err(e) => Err(e),
            }
        } else {
            Err(err_at(toks, p + 1))
        }
    } else {
        Err(err_at(toks, p))
    }
}

/// Fields of a record type separated by commas (possibly none, possibly with a
/// trailing comma).
pub open spec fn s_fields(toks: Seq<Spanned>, p: int) -> (Seq<(NodeV<Seq<char>>, NodeV<TypeV>)>, int, Seq<Error>)
    decreases toks.len() - p, 6nat,
{
    if p < 0 || p > toks.len() {
        (Seq::empty(), p, Seq::empty())
    } else {
        match s_field(toks, p) {
            Ok((f, p1, e1)) => if p < p1 <= toks.len() {
                s_fields_rest(toks, seq![f], p1, e1)
            } else {
                (Seq::empty(), p, Seq::empty())
            },
            Err(_) => (Seq::empty(), p, Seq::empty()),
        }
    }
}

pub open spec fn s_fields_rest(
    toks: Seq<Spanned>,
    acc: Seq<(NodeV<Seq<char>>, NodeV<TypeV>)>,
    p: int,
    errs: Seq<Error>,
) -> (Seq<(NodeV<Seq<char>>, NodeV<TypeV>)>, int, Seq<Error>)
    decreases toks.len() - p, 6nat,
{
    if 0 <= p && is(toks, p, Token::Comma) {
        match s_field(toks, p + 1) {
            Ok((f, p2, e2)) => if p + 1 < p2 <= toks.len() {
                s_fields_rest(toks, acc.push(f), p2, errs + e2)
            } else {
                (acc, p + 1, errs)
            },
            Err(_) => (acc, p + 1, errs),
        }
    } else {
        (acc, p, errs)
    }
}

/// `: type`, if it follows at `pos`.
pub open spec fn s_ty_hint(toks: Seq<Spanned>, pos: int) -> (Option<NodeV<TypeV>>, int, Seq<Error>) {
    if 0 <= pos && is(toks, pos, Token::Colon) {
        match s_ty(toks, pos + 1) {
            Ok((t, q, es)) => (Some(nodev(t, span_of(toks, pos + 1, q))), q, es),
            Err(_) => (None, pos, Seq::empty()),
        }
    } else {
        (None, pos, Seq::empty())
    }
}

// ----- The parsers -----

/// Reads a type.
pub fn type_parser(toks: &Vec<Spanned>, pos: usize) -> (r: PResult<Type>)
    requires
        pos <= toks@.len(),
    ensures
        res_v(r) == s_ty(toks@, pos as int),
        progress(res_v(r), pos as int, toks@.len() as int),
    decreases toks@.len() - pos, 5nat,
{
    match data_type(toks, pos) {
        Err(e) => Err(e),
        Ok((d, p1, e1)) => arrows(toks, d, p1, e1),
    }
}

fn arrows(toks: &Vec<Spanned>, acc: SrcNode<Type>, p: usize, errs: Vec<Error>) -> (r: PResult<Type>)
    requires
        p <= toks@.len(),
    ensures
        res_v(r) == s_arrows(toks@, acc@, p as int, errs@),
        res_v(r) matches Ok((_, q, _)) ==> p <= q <= toks@.len(),
    decreases toks@.len() - p, 7nat,
{
    if is_tok(toks, p, &Token::Op(Op::RArrow)) {
        match type_parser(toks, p + 1) {
            Ok((o, p2, e2)) => {
                let span = span_between(toks, p + 1, p2);
                let on = SrcNode::new(o, span);
                let s = acc.span.union(on.span);
                let ghost acc_v = acc@;
                let ghost on_v = on@;
                let node = SrcNode::new(Type::Func(acc, on), s);
                assert(node@ == nodev(TypeV::Func(acc_v, on_v), spec_union(acc_v.span, on_v.span)));
                arrows(toks, node, p2, append_errs(errs, e2))
            },
            Err(_) => {
                assert(*acc@.inner == (*acc.inner)@);
                Ok((acc.into_inner(), p, errs))
            },
        }
    } else {
        assert(*acc@.inner == (*acc.inner)@);
        Ok((acc.into_inner(), p, errs))
    }
}

fn data_type(toks: &Vec<Spanned>, pos: usize) -> (r: PResult<SrcNode<Type>>)
    requires
        pos <= toks@.len(),
    ensures
        res_v(r) == s_data(toks@, pos as int),
        progress(res_v(r), pos as int, toks@.len() as int),
    decreases toks@.len() - pos, 4nat,
{
    let first: PResult<SrcNode<Type>> = if pos < toks.len() {
        match &toks[pos].token {
            Token::TypeIdent(name) => {
                let name_node = SrcNode::new(name.clone(), toks[pos].span);
                proof {
                    assert(tnodes_v(Seq::<SrcNode<Type>>::empty()) =~= Seq::empty());
                }
                let (ps, p, es) = type_params(toks, pos + 1, Vec::new(), Vec::new());
                let span = span_between(toks, pos, p);
                let t = Type::Data(name_node, ps);
                proof {
                    lemma_type_views(t);
                }
                let node = SrcNode::new(t, span);
                assert(node@ == nodev(t@, span));
                Ok((node, p, es))
            },
            _ => Err(err_here(toks, pos)),
        }
    } else {
        Err(err_here(toks, pos))
    };
    if is_clean(&first) {
        return first;
    }
    let second = atom_type(toks, pos);
    pick(first, second)
}

fn type_params(toks: &Vec<Spanned>, p: usize, acc: Vec<SrcNode<Type>>, errs: Vec<Error>) -> (r: (
    Vec<SrcNode<Type>>,
    usize,
    Vec<Error>,
))
    requires
        p <= toks@.len(),
    ensures
        s_params(toks@, p as int, tnodes_v(acc@), errs@) == (tnodes_v(r.0@), r.1 as int, r.2@),
        p <= r.1 <= toks@.len(),
    decreases toks@.len() - p, 8nat,
{
    match atom_type(toks, p) {
        Ok((n, p2, e2)) => {
            let mut acc = acc;
            let ghost old_acc = acc@;
            acc.push(n);
            proof {
                assert(tnodes_v(acc@) =~= tnodes_v(old_acc).push(n@));
            }
            type_params(toks, p2, acc, append_errs(errs, e2))
        },
        Err(_) => (acc, p, errs),
    }
}

fn atom_type(toks: &Vec<Spanned>, pos: usize) -> (r: PResult<SrcNode<Type>>)
    requires
        pos <= toks@.len(),
    ensures
        res_v(r) == s_atom(toks@, pos as int),
        progress(res_v(r), pos as int, toks@.len() as int),
    decreases toks@.len() - pos, 3nat,
{
    let r = paren_type(toks, pos);
    let r = if is_clean(&r) {
        r
    } else {
        pick(r, data0_type(toks, pos))
    };
    let r = if is_clean(&r) {
        r
    } else {
        pick(r, list_type(toks, pos))
    };
    let r = if is_clean(&r) {
        r
    } else {
        pick(r, tuple_type(toks, pos))
    };
    let r = if is_clean(&r) {
        r
    } else {
        pick(r, record_type(toks, pos))
    };
    let r = if is_clean(&r) {
        r
    } else {
        pick(r, unknown_type(toks, pos))
    };
    match r {
        Ok((t, p, es)) => {
            let span = span_between(toks, pos, p);
            Ok((SrcNode::new(t, span), p, es))
        },
        Err(e) => Err(e),
    }
}

fn paren_type(toks: &Vec<Spanned>, pos: usize) -> (r: PResult<Type>)
    requires
        pos <= toks@.len(),
    ensures
        res_v(r) == s_paren_ty(toks@, pos as int),
        progress(res_v(r), pos as int, toks@.len() as int),
    decreases toks@.len() - pos, 2nat,
{
    if is_tok(toks, pos, &Token::Open(Delimiter::Paren)) {
        let inner = type_parser(toks, pos + 1);
        nested_parser(toks, pos, Delimiter::Paren, inner, Type::Error)
    } else {
        Err(err_here(toks, pos))
    }
}

fn data0_type(toks: &Vec<Spanned>, pos: usize) -> (r: PResult<Type>)
    requires
        pos <= toks@.len(),
    ensures
        res_v(r) == s_data0(toks@, pos as int),
        progress(res_v(r), pos as int, toks@.len() as int),
{
    if pos < toks.len() {
        match &toks[pos].token {
            Token::TypeIdent(name) => {
                let t = Type::Data(SrcNode::new(name.clone(), toks[pos].span), Vec::new());
                proof {
                    lemma_type_views(t);
                    assert(tnodes_v(Seq::<SrcNode<Type>>::empty()) =~= Seq::empty());
                }
                Ok((t, pos + 1, Vec::new()))
            },
            _ => Err(err_here(toks, pos)),
        }
    } else {
        Err(err_here(toks, pos))
    }
}

fn list_type(toks: &Vec<Spanned>, pos: usize) -> (r: PResult<Type>)
    requires
        pos <= toks@.len(),
    ensures
        res_v(r) == s_list_ty(toks@, pos as int),
        progress(res_v(r), pos as int, toks@.len() as int),
    decreases toks@.len() - pos, 2nat,
{
    if is_tok(toks, pos, &Token::Open(Delimiter::Brack)) {
        let inner = match type_parser(toks, pos + 1) {
            Ok((t, q, es)) => {
                let span = span_between(toks, pos + 1, q);
                Ok((Type::List(SrcNode::new(t, span)), q, es))
            },
            Err(e) => Err(e),
        };
        nested_parser(toks, pos, Delimiter::Brack, inner, Type::Error)
    } else {
        Err(err_here(toks, pos))
    }
}

fn tuple_type(toks: &Vec<Spanned>, pos: usize) -> (r: PResult<Type>)
    requires
        pos <= toks@.len(),
    ensures
        res_v(r) == s_tuple_ty(toks@, pos as int),
        progress(res_v(r), pos as int, toks@.len() as int),
    decreases toks@.len() - pos, 2nat,
{
    if is_tok(toks, pos, &Token::Open(Delimiter::Paren)) {
        let (items, q, es) = types_sep(toks, pos + 1);
        let q2 = if is_tok(toks, q, &Token::Comma) {
            q + 1
        } else {
            q
        };
        let t = Type::Tuple(items);
        proof {
            lemma_type_views(t);
        }
        nested_parser(toks, pos, Delimiter::Paren, Ok((t, q2, es)), Type::Error)
    } else {
        Err(err_here(toks, pos))
    }
}

fn record_type(toks: &Vec<Spanned>, pos: usize) -> (r: PResult<Type>)
    requires
        pos <= toks@.len(),
    ensures
        res_v(r) == s_record_ty(toks@, pos as int),
        progress(res_v(r), pos as int, toks@.len() as int),
    decreases toks@.len() - pos, 2nat,
{
    if is_tok(toks, pos, &Token::Open(Delimiter::Brace)) {
        let (fields, q, es) = fields_sep(toks, pos + 1);
        let q2 = if is_tok(toks, q, &Token::Comma) {
            q + 1
        } else {
            q
        };
        let t = Type::Record(fields);
        proof {
            lemma_type_views(t);
        }
        nested_parser(toks, pos, Delimiter::Brace, Ok((t, q2, es)), Type::Error)
    } else {
        Err(err_here(toks, pos))
    }
}

fn unknown_type(toks: &Vec<Spanned>, pos: usize) -> (r: PResult<Type>)
    requires
        pos <= toks@.len(),
    ensures
        res_v(r) == s_unknown(toks@, pos as int),
        progress(res_v(r), pos as int, toks@.len() as int),
{
    if is_tok(toks, pos, &Token::Question) {
        Ok((Type::Unknown, pos + 1, Vec::new()))
    } else {
        Err(err_here(toks, pos))
    }
}

fn types_sep(toks: &Vec<Spanned>, p: usize) -> (r: (Vec<SrcNode<Type>>, usize, Vec<Error>))
    requires
        p <= toks@.len(),
    ensures
        s_tys(toks@, p as int) == (tnodes_v(r.0@), r.1 as int, r.2@),
        p <= r.1 <= toks@.len(),
    decreases toks@.len() - p, 6nat,
{
    match type_parser(toks, p) {
        Ok((t, p1, e1)) => {
            let span = span_between(toks, p, p1);
            let mut acc: Vec<SrcNode<Type>> = Vec::new();
            acc.push(SrcNode::new(t, span));
            proof {
                assert(tnodes_v(acc@) =~= seq![acc@[0]@]);
            }
            types_sep_rest(toks, acc, p1, e1)
        },
        Err(_) => {
            proof {
                assert(tnodes_v(Seq::<SrcNode<Type>>::empty()) =~= Seq::empty());
            }
            (Vec::new(), p, Vec::new())
        },
    }
}

fn types_sep_rest(toks: &Vec<Spanned>, acc: Vec<SrcNode<Type>>, p: usize, errs: Vec<Error>) -> (r: (
    Vec<SrcNode<Type>>,
    usize,
    Vec<Error>,
))
    requires
        p <= toks@.len(),
    ensures
        s_tys_rest(toks@, tnodes_v(acc@), p as int, errs@) == (tnodes_v(r.0@), r.1 as int, r.2@),
        p <= r.1 <= toks@.len(),
    decreases toks@.len() - p, 6nat,
{
    if is_tok(toks, p, &Token::Comma) {
        match type_parser(toks, p + 1) {
            Ok((t, p2, e2)) => {
                let span = span_between(toks, p + 1, p2);
                let mut acc = acc;
                let ghost old_acc = acc@;
                acc.push(SrcNode::new(t, span));
                proof {
                    assert(tnodes_v(acc@) =~= tnodes_v(old_acc).push(acc@.last()@));
                }
                types_sep_rest(toks, acc, p2, append_errs(errs, e2))
            },
            Err(_) => (acc, p + 1, errs),
        }
    } else {
        (acc, p, errs)
    }
}

fn field_type(toks: &Vec<Spanned>, p: usize) -> (r: PResult<(SrcNode<Ident>, SrcNode<Type>)>)
    requires
        p <= toks@.len(),
    ensures
        match (r, s_field(toks@, p as int)) {
            (Ok((f, q, es)), Ok((sf, sq, ses))) => (f.0@, f.1@) == sf && q == sq && es@ == ses,
            (Err(e), Err(se)) => e == se,
            _ => false,
        },
        r matches Ok((_, q, _)) ==> p < q <= toks@.len(),
    decreases toks@.len() - p, 1nat,
{
    if p < toks.len() {
        match &toks[p].token {
            Token::TermIdent(name) => {
                if is_tok(toks, p + 1, &Token::Op(Op::Eq)) {
                    match type_parser(toks, p + 2) {
                        Ok((t, q, es)) => {
                            let span = span_between(toks, p + 2, q);
                            Ok(((SrcNode::new(name.clone(), toks[p].span), SrcNode::new(t, span)), q, es))
                        },
                        Err(e) => Err(e),
                    }
                } else {
                    Err(err_here(toks, p + 1))
                }
            },
            _ => Err(err_here(toks, p)),
        }
    } else {
        Err(err_here(toks, p))
    }
}

fn fields_sep(toks: &Vec<Spanned>, p: usize) -> (r: (Vec<(SrcNode<Ident>, SrcNode<Type>)>, usize, Vec<Error>))
    requires
        p <= toks@.len(),
    ensures
        s_fields(toks@, p as int) == (tfields_v(r.0@), r.1 as int, r.2@),
        p <= r.1 <= toks@.len(),
    decreases toks@.len() - p, 6nat,
{
    match field_type(toks, p) {
        Ok((f, p1, e1)) => {
            let mut acc: Vec<(SrcNode<Ident>, SrcNode<Type>)> = Vec::new();
            acc.push(f);
            proof {
                assert(tfields_v(acc@) =~= seq![(acc@[0].0@, acc@[0].1@)]);
            }
            fields_sep_rest(toks, acc, p1, e1)
        },
        Err(_) => {
            proof {
                assert(tfields_v(Seq::<(SrcNode<Ident>, SrcNode<Type>)>::empty()) =~= Seq::empty());
            }
            (Vec::new(), p, Vec::new())
        },
    }
}

fn fields_sep_rest(
    toks: &Vec<Spanned>,
    acc: Vec<(SrcNode<Ident>, SrcNode<Type>)>,
    p: usize,
    errs: Vec<Error>,
) -> (r: (Vec<(SrcNode<Ident>, SrcNode<Type>)>, usize, Vec<Error>))
    requires
        p <= toks@.len(),
    ensures
        s_fields_rest(toks@, tfields_v(acc@), p as int, errs@) == (tfields_v(r.0@), r.1 as int, r.2@),
        p <= r.1 <= toks@.len(),
    decreases toks@.len() - p, 6nat,
{
    if is_tok(toks, p, &Token::Comma) {
        match field_type(toks, p + 1) {
            Ok((f, p2, e2)) => {
                let mut acc = acc;
                let ghost old_acc = acc@;
                acc.push(f);
                proof {
                    assert(tfields_v(acc@) =~= tfields_v(old_acc).push((acc@.last().0@, acc@.last().1@)));
                }
                fields_sep_rest(toks, acc, p2, append_errs(errs, e2))
            },
            Err(_) => (acc, p + 1, errs),
        }
    } else {
        (acc, p, errs)
    }
}

/// Reads `: type` where it follows; otherwise nothing is consumed.
pub fn ty_hint_parser(toks: &Vec<Spanned>, pos: usize) -> (r: (Option<SrcNode<Type>>, usize, Vec<Error>))
    requires
        pos <= toks@.len(),
    ensures
        s_ty_hint(toks@, pos as int) == (
            match r.0 {
                Some(t) => Some(t@),
                None => None,
            },
            r.1 as int,
            r.2@,
        ),
        pos <= r.1 <= toks@.len(),
{
    if is_tok(toks, pos, &Token::Colon) {
        match type_parser(toks, pos + 1) {
            Ok((t, q, es)) => {
                let span = span_between(toks, pos + 1, q);
                (Some(SrcNode::new(t, span)), q, es)
            },
            Err(_) => (None, pos, Vec::new()),
        }
    } else {
        (None, pos, Vec::new())
    }
}

} // verus!
