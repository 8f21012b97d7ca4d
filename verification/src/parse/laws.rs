use vstd::prelude::*;

use crate::ast::{
    binding_ok, branch_ok, expr_ok, nodev, pat_ok, type_ok, BindingV, BranchV, ExprV, NodeV, PatV, TypeV,
};
use crate::ast::{item_ok, ItemV};
use crate::parse::items::{
    s_alias, s_data_item, s_def, s_generics, s_item, s_items, s_module, s_parse_module, s_variant, s_variants,
    s_variants_rest,
};
use crate::parse::exprs::{
    apply_chain, op_at, prefix_at, s_atom as s_atom_e, s_bin, s_bin_rest, s_branch, s_branches, s_branches_rest,
    s_chain, s_chain_rest, s_chained, s_cons, s_direct, s_efield, s_efields, s_efields_rest, s_expr, s_exprs,
    s_exprs_rest, s_fold_args, s_func, s_if, s_let, s_let_item, s_lets, s_lets_rest, s_list, s_litr, s_local,
    s_match, s_operand, s_paren, s_paren_list, s_record, s_tuple, s_unary, ChainV,
};
use crate::parse::bindings::{
    node_of, s_binding, s_bindings, s_bindings_rest, s_decons, s_list_pat, s_litr_pat, s_paren_pat, s_pat, s_pfield,
    s_pfields, s_pfields_rest, s_record_pat, s_tuple_pat, s_wildcard, unit_binding, PatNameV,
};
use crate::parse::types::{
    s_arrows, s_atom, s_data, s_data0, s_field, s_fields, s_fields_rest, s_list_ty, s_params, s_paren_ty,
    s_record_ty, s_ty, s_ty_hint, s_tuple_ty, s_tys, s_tys_rest, s_unknown,
};
use crate::parse::{alt, clean, s_nested, Error, SRes};
use crate::token::{Delimiter, Spanned};

verus! {

// ----- What a parse without recovered errors gives -----

/// A group that parsed without recovering from any error holds what its
/// contents parsed to: the fallback of a recovery always comes with an error.
pub proof fn lemma_nested_clean<A>(toks: Seq<Spanned>, pos: int, d: Delimiter, inner: SRes<A>, fallback: A)
    ensures
        clean(s_nested(toks, pos, d, inner, fallback)) ==> (inner matches Ok((v, q, es)) && es.len() == 0
            && s_nested(toks, pos, d, inner, fallback) == Ok::<(A, int, Seq<Error>), Error>((v, q + 1, es))),
{
}

/// The choice between alternatives is one of them, and a clean choice is a clean one of them.
pub proof fn lemma_alt_clean<A>(a: SRes<A>, b: SRes<A>)
    ensures
        clean(alt(a, b)) ==> (clean(a) && alt(a, b) == a) || (clean(b) && alt(a, b) == b),
{
}

pub open spec fn types_ok(s: Seq<NodeV<TypeV>>) -> bool {
    forall|i: int| 0 <= i < s.len() ==> type_ok(*(#[trigger] s[i]).inner)
}

pub open spec fn tfields_ok(s: Seq<(NodeV<Seq<char>>, NodeV<TypeV>)>) -> bool {
    forall|i: int| 0 <= i < s.len() ==> type_ok(*(#[trigger] s[i]).1.inner)
}

/// A clean result whose value is a type without erroneous nodes.
pub open spec fn ty_ok_res(r: SRes<TypeV>) -> bool {
    clean(r) ==> type_ok(r->Ok_0.0)
}

pub open spec fn tnode_ok_res(r: SRes<NodeV<TypeV>>) -> bool {
    clean(r) ==> type_ok(*r->Ok_0.0.inner)
}

pub proof fn lemma_ty_ok(toks: Seq<Spanned>, pos: int)
    ensures
        ty_ok_res(s_ty(toks, pos)),
    decreases toks.len() - pos, 5nat,
{
    if 0 <= pos <= toks.len() {
        lemma_data_ok(toks, pos);
        match s_data(toks, pos) {
            Ok((d, p1, e1)) => if pos < p1 <= toks.len() {
                lemma_arrows_ok(toks, d, p1, e1);
            },
            Err(_) => {},
        }
    }
}

proof fn lemma_arrows_ok(toks: Seq<Spanned>, acc: NodeV<TypeV>, p: int, errs: Seq<Error>)
    requires
        errs.len() == 0 ==> type_ok(*acc.inner),
    ensures
        ty_ok_res(s_arrows(toks, acc, p, errs)),
    decreases toks.len() - p, 7nat,
{
    if 0 <= p && crate::parse::is(toks, p, crate::token::Token::Op(crate::token::Op::RArrow)) {
        lemma_ty_ok(toks, p + 1);
        match s_ty(toks, p + 1) {
            Ok((o, p2, e2)) => if p + 1 < p2 <= toks.len() {
                let on = nodev(o, crate::parse::span_of(toks, p + 1, p2));
                let next = nodev(TypeV::Func(acc, on), crate::span::spec_union(acc.span, on.span));
                assert((errs + e2).len() == 0 ==> type_ok(*next.inner));
                lemma_arrows_ok(toks, next, p2, errs + e2);
            },
            Err(_) => {},
        }
    }
}

proof fn lemma_data_ok(toks: Seq<Spanned>, pos: int)
    ensures
        tnode_ok_res(s_data(toks, pos)),
    decreases toks.len() - pos, 4nat,
{
    if 0 <= pos <= toks.len() {
        if pos < toks.len() {
            lemma_params_ok(toks, pos + 1, Seq::empty(), Seq::empty());
        }
        lemma_atom_ok(toks, pos);
        let first = if pos < toks.len() && toks[pos].token is TypeIdent {
            let (ps, p, es) = s_params(toks, pos + 1, Seq::empty(), Seq::empty());
            Ok((
                nodev(TypeV::Data(nodev(toks[pos].token->TypeIdent_0@, toks[pos].span), ps), crate::parse::span_of(toks, pos, p)),
                p,
                es,
            ))
        } else {
            Err(crate::parse::err_at(toks, pos))
        };
        lemma_alt_clean(first, s_atom(toks, pos));
    }
}

proof fn lemma_params_ok(toks: Seq<Spanned>, p: int, acc: Seq<NodeV<TypeV>>, errs: Seq<Error>)
    requires
        errs.len() == 0 ==> types_ok(acc),
    ensures
        s_params(toks, p, acc, errs).2.len() == 0 ==> types_ok(s_params(toks, p, acc, errs).0),
    decreases toks.len() - p, 8nat,
{
    if 0 <= p <= toks.len() {
        lemma_atom_ok(toks, p);
        match s_atom(toks, p) {
            Ok((n, p2, e2)) => if p < p2 <= toks.len() {
                assert((errs + e2).len() == 0 ==> types_ok(acc.push(n))) by {
                    if (errs + e2).len() == 0 {
                        assert forall|i: int| 0 <= i < acc.push(n).len() implies type_ok(*(#[trigger] acc.push(n)[i]).inner) by {
                            if i < acc.len() {
                                assert(acc.push(n)[i] == acc[i]);
                            }
                        }
                    }
                }
                lemma_params_ok(toks, p2, acc.push(n), errs + e2);
            },
            Err(_) => {},
        }
    }
}

proof fn lemma_atom_ok(toks: Seq<Spanned>, pos: int)
    ensures
        tnode_ok_res(s_atom(toks, pos)),
    decreases toks.len() - pos, 3nat,
{
    if 0 <= pos <= toks.len() {
        lemma_paren_ty_ok(toks, pos);
        lemma_list_ty_ok(toks, pos);
        lemma_tuple_ty_ok(toks, pos);
        lemma_record_ty_ok(toks, pos);
        let r1 = alt(s_paren_ty(toks, pos), s_data0(toks, pos));
        lemma_alt_clean(s_paren_ty(toks, pos), s_data0(toks, pos));
        let r2 = alt(r1, s_list_ty(toks, pos));
        lemma_alt_clean(r1, s_list_ty(toks, pos));
        let r3 = alt(r2, s_tuple_ty(toks, pos));
        lemma_alt_clean(r2, s_tuple_ty(toks, pos));
        let r4 = alt(r3, s_record_ty(toks, pos));
        lemma_alt_clean(r3, s_record_ty(toks, pos));
        lemma_alt_clean(r4, s_unknown(toks, pos));
        if s_data0(toks, pos) is Ok {
            assert(types_ok(Seq::<NodeV<TypeV>>::empty()));
        }
    }
}

proof fn lemma_paren_ty_ok(toks: Seq<Spanned>, pos: int)
    ensures
        ty_ok_res(s_paren_ty(toks, pos)),
    decreases toks.len() - pos, 2nat,
{
    if 0 <= pos && crate::parse::is(toks, pos, crate::token::Token::Open(Delimiter::Paren)) {
        lemma_ty_ok(toks, pos + 1);
        lemma_nested_clean(toks, pos, Delimiter::Paren, s_ty(toks, pos + 1), TypeV::Error);
    }
}

proof fn lemma_list_ty_ok(toks: Seq<Spanned>, pos: int)
    ensures
        ty_ok_res(s_list_ty(toks, pos)),
    decreases toks.len() - pos, 2nat,
{
    if 0 <= pos && crate::parse::is(toks, pos, crate::token::Token::Open(Delimiter::Brack)) {
        lemma_ty_ok(toks, pos + 1);
        let inner = match s_ty(toks, pos + 1) {
            Ok((t, q, es)) => Ok((TypeV::List(nodev(t, crate::parse::span_of(toks, pos + 1, q))), q, es)),
            Err(e) => Err(e),
        };
        lemma_nested_clean(toks, pos, Delimiter::Brack, inner, TypeV::Error);
    }
}

proof fn lemma_tuple_ty_ok(toks: Seq<Spanned>, pos: int)
    ensures
        ty_ok_res(s_tuple_ty(toks, pos)),
    decreases toks.len() - pos, 2nat,
{
    if 0 <= pos && crate::parse::is(toks, pos, crate::token::Token::Open(Delimiter::Paren)) {
        lemma_tys_ok(toks, pos + 1);
        let (items, q, es) = s_tys(toks, pos + 1);
        let q2 = if crate::parse::is(toks, q, crate::token::Token::Comma) {
            q + 1
        } else {
            q
        };
        lemma_nested_clean(toks, pos, Delimiter::Paren, Ok((TypeV::Tuple(items), q2, es)), TypeV::Error);
    }
}

proof fn lemma_record_ty_ok(toks: Seq<Spanned>, pos: int)
    ensures
        ty_ok_res(s_record_ty(toks, pos)),
    decreases toks.len() - pos, 2nat,
{
    if 0 <= pos && crate::parse::is(toks, pos, crate::token::Token::Open(Delimiter::Brace)) {
        lemma_fields_ok(toks, pos + 1);
        let (fields, q, es) = s_fields(toks, pos + 1);
        let q2 = if crate::parse::is(toks, q, crate::token::Token::Comma) {
            q + 1
        } else {
            q
        };
        lemma_nested_clean(toks, pos, Delimiter::Brace, Ok((TypeV::Record(fields), q2, es)), TypeV::Error);
    }
}

proof fn lemma_tys_ok(toks: Seq<Spanned>, p: int)
    ensures
        s_tys(toks, p).2.len() == 0 ==> types_ok(s_tys(toks, p).0),
    decreases toks.len() - p, 6nat,
{
    if 0 <= p <= toks.len() {
        lemma_ty_ok(toks, p);
        match s_ty(toks, p) {
            Ok((t, p1, e1)) => if p < p1 <= toks.len() {
                let first = seq![nodev(t, crate::parse::span_of(toks, p, p1))];
                assert(e1.len() == 0 ==> types_ok(first));
                lemma_tys_rest_ok(toks, first, p1, e1);
            },
            Err(_) => {},
        }
    }
}

proof fn lemma_tys_rest_ok(toks: Seq<Spanned>, acc: Seq<NodeV<TypeV>>, p: int, errs: Seq<Error>)
    requires
        errs.len() == 0 ==> types_ok(acc),
    ensures
        s_tys_rest(toks, acc, p, errs).2.len() == 0 ==> types_ok(s_tys_rest(toks, acc, p, errs).0),
    decreases toks.len() - p, 6nat,
{
    if 0 <= p && crate::parse::is(toks, p, crate::token::Token::Comma) {
        lemma_ty_ok(toks, p + 1);
        match s_ty(toks, p + 1) {
            Ok((t, p2, e2)) => if p + 1 < p2 <= toks.len() {
                let n = nodev(t, crate::parse::span_of(toks, p + 1, p2));
                assert((errs + e2).len() == 0 ==> types_ok(acc.push(n))) by {
                    if (errs + e2).len() == 0 {
                        assert forall|i: int| 0 <= i < acc.push(n).len() implies type_ok(*(#[trigger] acc.push(n)[i]).inner) by {
                            if i < acc.len() {
                                assert(acc.push(n)[i] == acc[i]);
                            }
                        }
                    }
                }
                lemma_tys_rest_ok(toks, acc.push(n), p2, errs + e2);
            },
            Err(_) => {},
        }
    }
}

proof fn lemma_field_ok(toks: Seq<Spanned>, p: int)
    ensures
        clean(s_field(toks, p)) ==> type_ok(*s_field(toks, p)->Ok_0.0.1.inner),
    decreases toks.len() - p, 1nat,
{
    if 0 <= p && p + 2 <= toks.len() {
        lemma_ty_ok(toks, p + 2);
    }
}

proof fn lemma_fields_ok(toks: Seq<Spanned>, p: int)
    ensures
        s_fields(toks, p).2.len() == 0 ==> tfields_ok(s_fields(toks, p).0),
    decreases toks.len() - p, 6nat,
{
    if 0 <= p <= toks.len() {
        lemma_field_ok(toks, p);
        match s_field(toks, p) {
            Ok((f, p1, e1)) => if p < p1 <= toks.len() {
                assert(e1.len() == 0 ==> tfields_ok(seq![f]));
                lemma_fields_rest_ok(toks, seq![f], p1, e1);
            },
            Err(_) => {},
        }
    }
}

proof fn lemma_fields_rest_ok(toks: Seq<Spanned>, acc: Seq<(NodeV<Seq<char>>, NodeV<TypeV>)>, p: int, errs: Seq<Error>)
    requires
        errs.len() == 0 ==> tfields_ok(acc),
    ensures
        s_fields_rest(toks, acc, p, errs).2.len() == 0 ==> tfields_ok(s_fields_rest(toks, acc, p, errs).0),
    decreases toks.len() - p, 6nat,
{
    if 0 <= p && crate::parse::is(toks, p, crate::token::Token::Comma) {
        lemma_field_ok(toks, p + 1);
        match s_field(toks, p + 1) {
            Ok((f, p2, e2)) => if p + 1 < p2 <= toks.len() {
                assert((errs + e2).len() == 0 ==> tfields_ok(acc.push(f))) by {
                    if (errs + e2).len() == 0 {
                        assert forall|i: int| 0 <= i < acc.push(f).len() implies type_ok(*(#[trigger] acc.push(f)[i]).1.inner) by {
                            if i < acc.len() {
                                assert(acc.push(f)[i] == acc[i]);
                            }
                        }
                    }
                }
                lemma_fields_rest_ok(toks, acc.push(f), p2, errs + e2);
            },
            Err(_) => {},
        }
    }
}

/// A type hint that parsed without recovering from any error holds no erroneous node.
pub proof fn lemma_ty_hint_ok(toks: Seq<Spanned>, pos: int)
    ensures
        s_ty_hint(toks, pos).2.len() == 0 ==> (s_ty_hint(toks, pos).0 matches Some(t) ==> type_ok(*t.inner)),
{
    if 0 <= pos < toks.len() {
        lemma_ty_ok(toks, pos + 1);
    }
}


// ----- Bindings -----

pub open spec fn bindings_ok(s: Seq<NodeV<BindingV>>) -> bool {
    forall|i: int| 0 <= i < s.len() ==> binding_ok(*(#[trigger] s[i]).inner)
}

pub open spec fn bfields_ok(s: Seq<(NodeV<Seq<char>>, NodeV<BindingV>)>) -> bool {
    forall|i: int| 0 <= i < s.len() ==> binding_ok(*(#[trigger] s[i]).1.inner)
}

pub open spec fn bnode_ok_res(r: SRes<NodeV<BindingV>>) -> bool {
    clean(r) ==> binding_ok(*r->Ok_0.0.inner)
}

pub open spec fn pnode_ok_res(r: SRes<NodeV<PatV>>) -> bool {
    clean(r) ==> pat_ok(*r->Ok_0.0.inner)
}

pub open spec fn pat_ok_res(r: SRes<PatV>) -> bool {
    clean(r) ==> pat_ok(r->Ok_0.0)
}

pub proof fn lemma_binding_ok(toks: Seq<Spanned>, pos: int)
    ensures
        bnode_ok_res(s_binding(toks, pos)),
    decreases toks.len() - pos, 5nat,
{
    if 0 <= pos <= toks.len() {
        let ident = pos < toks.len() && toks[pos].token is TermIdent;
        if ident && crate::parse::is(toks, pos + 1, crate::token::Token::Tilde) {
            lemma_pat_ok(toks, pos + 2);
        }
        lemma_pat_ok(toks, pos);
        let a: SRes<PatNameV> = if ident && crate::parse::is(toks, pos + 1, crate::token::Token::Tilde) {
            match s_pat(toks, pos + 2) {
                Ok((pt, q, es)) => Ok(((pt, Some(nodev(toks[pos].token->TermIdent_0@, toks[pos].span))), q, es)),
                Err(e) => Err(e),
            }
        } else if ident {
            Err(crate::parse::err_at(toks, pos + 1))
        } else {
            Err(crate::parse::err_at(toks, pos))
        };
        let b: SRes<PatNameV> = match s_pat(toks, pos) {
            Ok((pt, q, es)) => Ok(((pt, None), q, es)),
            Err(e) => Err(e),
        };
        let c: SRes<PatNameV> = if ident {
            Ok((
                (nodev(PatV::Wildcard, toks[pos].span), Some(nodev(toks[pos].token->TermIdent_0@, toks[pos].span))),
                pos + 1,
                Seq::empty(),
            ))
        } else {
            Err(crate::parse::err_at(toks, pos))
        };
        lemma_alt_clean(a, b);
        lemma_alt_clean(alt(a, b), c);
        match alt(alt(a, b), c) {
            Ok(((pt, name), q, es)) => if pos < q <= toks.len() {
                lemma_ty_hint_ok(toks, q);
            },
            Err(_) => {},
        }
    }
}

proof fn lemma_pat_ok(toks: Seq<Spanned>, pos: int)
    ensures
        pnode_ok_res(s_pat(toks, pos)),
    decreases toks.len() - pos, 4nat,
{
    if 0 <= pos <= toks.len() {
        lemma_decons_ok(toks, pos);
        lemma_paren_pat_ok(toks, pos);
        lemma_tuple_pat_ok(toks, pos);
        lemma_record_pat_ok(toks, pos);
        lemma_list_pat_ok(toks, pos);
        let r1 = alt(s_wildcard(toks, pos), s_litr_pat(toks, pos));
        lemma_alt_clean(s_wildcard(toks, pos), s_litr_pat(toks, pos));
        let r2 = alt(r1, s_decons(toks, pos));
        lemma_alt_clean(r1, s_decons(toks, pos));
        let r3 = alt(r2, s_paren_pat(toks, pos));
        lemma_alt_clean(r2, s_paren_pat(toks, pos));
        let r4 = alt(r3, s_tuple_pat(toks, pos));
        lemma_alt_clean(r3, s_tuple_pat(toks, pos));
        let r5 = alt(r4, s_record_pat(toks, pos));
        lemma_alt_clean(r4, s_record_pat(toks, pos));
        lemma_alt_clean(r5, s_list_pat(toks, pos));
    }
}

proof fn lemma_node_of_ok(toks: Seq<Spanned>, pos: int, r: SRes<PatV>)
    requires
        pat_ok_res(r),
    ensures
        pnode_ok_res(node_of(toks, pos, r)),
{
}

proof fn lemma_decons_ok(toks: Seq<Spanned>, pos: int)
    ensures
        pnode_ok_res(s_decons(toks, pos)),
    decreases toks.len() - pos, 3nat,
{
    if 0 <= pos < toks.len() && toks[pos].token is TypeIdent {
        lemma_binding_ok(toks, pos + 1);
        let u = unit_binding(toks[pos].span);
        assert(bindings_ok(Seq::<NodeV<BindingV>>::empty()));
        assert(binding_ok(*u.inner));
    }
}

proof fn lemma_paren_pat_ok(toks: Seq<Spanned>, pos: int)
    ensures
        pnode_ok_res(s_paren_pat(toks, pos)),
    decreases toks.len() - pos, 3nat,
{
    if 0 <= pos && crate::parse::is(toks, pos, crate::token::Token::Open(Delimiter::Paren)) {
        lemma_binding_ok(toks, pos + 1);
        let inner = match s_binding(toks, pos + 1) {
            Ok((b, q, es)) => Ok((PatV::Single(b), q, es)),
            Err(e) => Err(e),
        };
        lemma_nested_clean(toks, pos, Delimiter::Paren, inner, PatV::Error);
        lemma_node_of_ok(toks, pos, s_nested(toks, pos, Delimiter::Paren, inner, PatV::Error));
    }
}

proof fn lemma_tuple_pat_ok(toks: Seq<Spanned>, pos: int)
    ensures
        pnode_ok_res(s_tuple_pat(toks, pos)),
    decreases toks.len() - pos, 3nat,
{
    if 0 <= pos && crate::parse::is(toks, pos, crate::token::Token::Open(Delimiter::Paren)) {
        lemma_bindings_ok(toks, pos + 1);
        let (items, q, es) = s_bindings(toks, pos + 1);
        let inner = Ok((PatV::Tuple(items), q, es));
        lemma_nested_clean(toks, pos, Delimiter::Paren, inner, PatV::Error);
        lemma_node_of_ok(toks, pos, s_nested(toks, pos, Delimiter::Paren, inner, PatV::Error));
    }
}

proof fn lemma_record_pat_ok(toks: Seq<Spanned>, pos: int)
    ensures
        pnode_ok_res(s_record_pat(toks, pos)),
    decreases toks.len() - pos, 3nat,
{
    if 0 <= pos && crate::parse::is(toks, pos, crate::token::Token::Open(Delimiter::Brace)) {
        lemma_pfields_ok(toks, pos + 1);
        let (fields, q, es) = s_pfields(toks, pos + 1);
        let q2 = if crate::parse::is(toks, q, crate::token::Token::Comma) {
            q + 1
        } else {
            q
        };
        let inner = Ok((PatV::Record(fields), q2, es));
        lemma_nested_clean(toks, pos, Delimiter::Brace, inner, PatV::Error);
        lemma_node_of_ok(toks, pos, s_nested(toks, pos, Delimiter::Brace, inner, PatV::Error));
    }
}

proof fn lemma_list_pat_ok(toks: Seq<Spanned>, pos: int)
    ensures
        pnode_ok_res(s_list_pat(toks, pos)),
    decreases toks.len() - pos, 3nat,
{
    if 0 <= pos && crate::parse::is(toks, pos, crate::token::Token::Open(Delimiter::Brack)) {
        lemma_bindings_ok(toks, pos + 1);
        let (items, q, es) = s_bindings(toks, pos + 1);
        if pos < q && crate::parse::is(toks, q, crate::token::Token::Op(crate::token::Op::Ellipsis)) {
            lemma_binding_ok(toks, q + 1);
        }
        let inner = if pos < q && crate::parse::is(toks, q, crate::token::Token::Op(crate::token::Op::Ellipsis)) {
            match s_binding(toks, q + 1) {
                Ok((t, q2, es2)) => Ok((PatV::ListFront(items, Some(t)), q2, es + es2)),
                Err(_) => Ok((PatV::ListFront(items, None), q + 1, es)),
            }
        } else {
            Ok((PatV::ListExact(items), q, es))
        };
        lemma_nested_clean(toks, pos, Delimiter::Brack, inner, PatV::Error);
        lemma_node_of_ok(toks, pos, s_nested(toks, pos, Delimiter::Brack, inner, PatV::Error));
    }
}

pub proof fn lemma_bindings_ok(toks: Seq<Spanned>, p: int)
    ensures
        s_bindings(toks, p).2.len() == 0 ==> bindings_ok(s_bindings(toks, p).0),
    decreases toks.len() - p, 6nat,
{
    if 0 <= p <= toks.len() {
        lemma_binding_ok(toks, p);
        match s_binding(toks, p) {
            Ok((b, p1, e1)) => if p < p1 <= toks.len() {
                assert(e1.len() == 0 ==> bindings_ok(seq![b]));
                lemma_bindings_rest_ok(toks, seq![b], p1, e1);
            },
            Err(_) => {},
        }
    }
}

proof fn lemma_bindings_rest_ok(toks: Seq<Spanned>, acc: Seq<NodeV<BindingV>>, p: int, errs: Seq<Error>)
    requires
        errs.len() == 0 ==> bindings_ok(acc),
    ensures
        s_bindings_rest(toks, acc, p, errs).2.len() == 0 ==> bindings_ok(s_bindings_rest(toks, acc, p, errs).0),
    decreases toks.len() - p, 6nat,
{
    if 0 <= p && crate::parse::is(toks, p, crate::token::Token::Comma) {
        lemma_binding_ok(toks, p + 1);
        match s_binding(toks, p + 1) {
            Ok((b, p2, e2)) => if p + 1 < p2 <= toks.len() {
                assert((errs + e2).len() == 0 ==> bindings_ok(acc.push(b))) by {
                    if (errs + e2).len() == 0 {
                        assert forall|i: int| 0 <= i < acc.push(b).len() implies binding_ok(*(#[trigger] acc.push(b)[i]).inner) by {
                            if i < acc.len() {
                                assert(acc.push(b)[i] == acc[i]);
                            }
                        }
                    }
                }
                lemma_bindings_rest_ok(toks, acc.push(b), p2, errs + e2);
            },
            Err(_) => {},
        }
    }
}

proof fn lemma_pfield_ok(toks: Seq<Spanned>, p: int)
    ensures
        clean(s_pfield(toks, p)) ==> binding_ok(*s_pfield(toks, p)->Ok_0.0.1.inner),
    decreases toks.len() - p, 1nat,
{
    if 0 <= p < toks.len() && toks[p].token is TermIdent {
        lemma_ty_hint_ok(toks, p + 1);
        let (ty, q1, e1) = s_ty_hint(toks, p + 1);
        if p < q1 && crate::parse::is(toks, q1, crate::token::Token::Op(crate::token::Op::Eq)) {
            lemma_binding_ok(toks, q1 + 1);
        }
    }
}

proof fn lemma_pfields_ok(toks: Seq<Spanned>, p: int)
    ensures
        s_pfields(toks, p).2.len() == 0 ==> bfields_ok(s_pfields(toks, p).0),
    decreases toks.len() - p, 6nat,
{
    if 0 <= p <= toks.len() {
        lemma_pfield_ok(toks, p);
        match s_pfield(toks, p) {
            Ok((f, p1, e1)) => if p < p1 <= toks.len() {
                assert(e1.len() == 0 ==> bfields_ok(seq![f]));
                lemma_pfields_rest_ok(toks, seq![f], p1, e1);
            },
            Err(_) => {},
        }
    }
}

proof fn lemma_pfields_rest_ok(toks: Seq<Spanned>, acc: Seq<(NodeV<Seq<char>>, NodeV<BindingV>)>, p: int, errs: Seq<Error>)
    requires
        errs.len() == 0 ==> bfields_ok(acc),
    ensures
        s_pfields_rest(toks, acc, p, errs).2.len() == 0 ==> bfields_ok(s_pfields_rest(toks, acc, p, errs).0),
    decreases toks.len() - p, 6nat,
{
    if 0 <= p && crate::parse::is(toks, p, crate::token::Token::Comma) {
        lemma_pfield_ok(toks, p + 1);
        match s_pfield(toks, p + 1) {
            Ok((f, p2, e2)) => if p + 1 < p2 <= toks.len() {
                assert((errs + e2).len() == 0 ==> bfields_ok(acc.push(f))) by {
                    if (errs + e2).len() == 0 {
                        assert forall|i: int| 0 <= i < acc.push(f).len() implies binding_ok(*(#[trigger] acc.push(f)[i]).1.inner) by {
                            if i < acc.len() {
                                assert(acc.push(f)[i] == acc[i]);
                            }
                        }
                    }
                }
                lemma_pfields_rest_ok(toks, acc.push(f), p2, errs + e2);
            },
            Err(_) => {},
        }
    }
}


// ----- Expressions -----

pub open spec fn exprs_ok(s: Seq<NodeV<ExprV>>) -> bool {
    forall|i: int| 0 <= i < s.len() ==> expr_ok(*(#[trigger] s[i]).inner)
}

pub open spec fn efields_ok(s: Seq<(NodeV<Seq<char>>, NodeV<ExprV>)>) -> bool {
    forall|i: int| 0 <= i < s.len() ==> expr_ok(*(#[trigger] s[i]).1.inner)
}

pub open spec fn lets_ok(s: Seq<(NodeV<BindingV>, NodeV<ExprV>)>) -> bool {
    forall|i: int| 0 <= i < s.len() ==> binding_ok(*(#[trigger] s[i]).0.inner) && expr_ok(*s[i].1.inner)
}

pub open spec fn branches_ok(s: Seq<BranchV>) -> bool {
    forall|i: int| 0 <= i < s.len() ==> branch_ok(#[trigger] s[i])
}

pub open spec fn enode_ok_res(r: SRes<NodeV<ExprV>>) -> bool {
    clean(r) ==> expr_ok(*r->Ok_0.0.inner)
}

pub open spec fn expr_ok_res(r: SRes<ExprV>) -> bool {
    clean(r) ==> expr_ok(r->Ok_0.0)
}

pub open spec fn chain_ok(c: ChainV) -> bool {
    match c {
        ChainV::Field(_) => true,
        ChainV::Infix(f) => expr_ok(*f.inner),
        ChainV::Apply(None, _) => false,
        ChainV::Apply(Some(args), _) => exprs_ok(args),
    }
}

pub proof fn lemma_expr_ok(toks: Seq<Spanned>, pos: int)
    ensures
        expr_ok_res(s_expr(toks, pos)),
    decreases toks.len() - pos, 30nat,
{
    lemma_bin_ok(toks, pos, 4);
}

proof fn lemma_operand_ok(toks: Seq<Spanned>, pos: int, k: nat)
    ensures
        enode_ok_res(s_operand(toks, pos, k)),
    decreases toks.len() - pos, 11 + 2 * k,
{
    if k == 0 {
        lemma_unary_ok(toks, pos);
    } else {
        lemma_bin_ok(toks, pos, (k - 1) as nat);
    }
}

proof fn lemma_bin_ok(toks: Seq<Spanned>, pos: int, k: nat)
    ensures
        enode_ok_res(s_bin(toks, pos, k)),
    decreases toks.len() - pos, 12 + 2 * k,
{
    if 0 <= pos <= toks.len() && k <= 4 {
        lemma_operand_ok(toks, pos, k);
        match s_operand(toks, pos, k) {
            Ok((a, p1, e1)) => if pos < p1 <= toks.len() {
                lemma_bin_rest_ok(toks, a, p1, e1, k);
            },
            Err(_) => {},
        }
    }
}

proof fn lemma_bin_rest_ok(toks: Seq<Spanned>, acc: NodeV<ExprV>, p: int, errs: Seq<Error>, k: nat)
    requires
        errs.len() == 0 ==> expr_ok(*acc.inner),
    ensures
        enode_ok_res(s_bin_rest(toks, acc, p, errs, k)),
    decreases toks.len() - p, 13 + 2 * k,
{
    match op_at(toks, p, k) {
        Some(op) => {
            lemma_operand_ok(toks, p + 1, k);
            match s_operand(toks, p + 1, k) {
                Ok((b, p2, e2)) => if p + 1 < p2 <= toks.len() {
                    let node = nodev(ExprV::Binary(nodev(op, toks[p].span), acc, b), crate::span::spec_union(acc.span, b.span));
                    assert((errs + e2).len() == 0 ==> expr_ok(*node.inner));
                    lemma_bin_rest_ok(toks, node, p2, errs + e2, k);
                },
                Err(_) => {},
            }
        },
        None => {},
    }
}

proof fn lemma_unary_ok(toks: Seq<Spanned>, pos: int)
    ensures
        enode_ok_res(s_unary(toks, pos)),
    decreases toks.len() - pos, 10nat,
{
    match prefix_at(toks, pos) {
        Some(_) => lemma_unary_ok(toks, pos + 1),
        None => lemma_chained_ok(toks, pos),
    }
}

proof fn lemma_chained_ok(toks: Seq<Spanned>, pos: int)
    ensures
        enode_ok_res(s_chained(toks, pos)),
    decreases toks.len() - pos, 8nat,
{
    lemma_direct_ok(toks, pos);
    match s_direct(toks, pos) {
        Ok((d, p1, e1)) => if pos < p1 <= toks.len() {
            lemma_chain_rest_ok(toks, d, p1, e1);
        },
        Err(_) => {},
    }
}

proof fn lemma_fold_ok(f: NodeV<ExprV>, args: Seq<NodeV<ExprV>>, i: int, outer: crate::span::Span)
    requires
        expr_ok(*f.inner),
        exprs_ok(args),
    ensures
        expr_ok(*s_fold_args(f, args, i, outer).inner),
    decreases args.len() - i,
{
    if 0 <= i < args.len() {
        let span = if i == args.len() - 1 {
            outer
        } else {
            crate::span::spec_union(f.span, args[i].span)
        };
        let next = nodev(ExprV::Apply(f, args[i]), span);
        assert(expr_ok(*next.inner));
        lemma_fold_ok(next, args, i + 1, outer);
    }
}

proof fn lemma_apply_chain_ok(acc: NodeV<ExprV>, c: ChainV)
    requires
        expr_ok(*acc.inner),
        chain_ok(c),
    ensures
        expr_ok(*apply_chain(acc, c).inner),
{
    match c {
        ChainV::Apply(Some(args), outer) => lemma_fold_ok(acc, args, 0, outer),
        _ => {},
    }
}

proof fn lemma_chain_ok(toks: Seq<Spanned>, p: int)
    ensures
        clean(s_chain(toks, p)) ==> chain_ok(s_chain(toks, p)->Ok_0.0),
    decreases toks.len() - p, 7nat,
{
    if 0 <= p <= toks.len() {
        if crate::parse::is(toks, p, crate::token::Token::Colon) {
            lemma_direct_ok(toks, p + 1);
        }
        lemma_paren_list_ok(toks, p);
        let field = if crate::parse::is(toks, p, crate::token::Token::Op(crate::token::Op::Dot)) {
            if p + 1 < toks.len() && toks[p + 1].token is TermIdent {
                Ok((ChainV::Field(nodev(toks[p + 1].token->TermIdent_0@, toks[p + 1].span)), p + 2, Seq::<Error>::empty()))
            } else {
                Err(crate::parse::err_at(toks, p + 1))
            }
        } else {
            Err(crate::parse::err_at(toks, p))
        };
        let infix = if crate::parse::is(toks, p, crate::token::Token::Colon) {
            match s_direct(toks, p + 1) {
                Ok((f, q, es)) => Ok((ChainV::Infix(f), q, es)),
                Err(e) => Err(e),
            }
        } else {
            Err(crate::parse::err_at(toks, p))
        };
        let apply = match s_paren_list(toks, p) {
            Ok((args, q, es)) => Ok((ChainV::Apply(args, crate::parse::span_of(toks, p, q)), q, es)),
            Err(e) => Err(e),
        };
        lemma_alt_clean(field, infix);
        lemma_alt_clean(alt(field, infix), apply);
    }
}

proof fn lemma_chain_rest_ok(toks: Seq<Spanned>, acc: NodeV<ExprV>, p: int, errs: Seq<Error>)
    requires
        errs.len() == 0 ==> expr_ok(*acc.inner),
    ensures
        enode_ok_res(s_chain_rest(toks, acc, p, errs)),
    decreases toks.len() - p, 9nat,
{
    lemma_chain_ok(toks, p);
    match s_chain(toks, p) {
        Ok((c, q, es)) => if p < q <= toks.len() {
            if (errs + es).len() == 0 {
                lemma_apply_chain_ok(acc, c);
            }
            lemma_chain_rest_ok(toks, apply_chain(acc, c), q, errs + es);
        },
        Err(_) => {},
    }
}

proof fn lemma_direct_ok(toks: Seq<Spanned>, pos: int)
    ensures
        enode_ok_res(s_direct(toks, pos)),
    decreases toks.len() - pos, 6nat,
{
    lemma_atom_e_ok(toks, pos);
    match s_atom_e(toks, pos) {
        Ok((a, p1, e1)) => if pos < p1 <= toks.len() {
            lemma_paren_list_ok(toks, p1);
            match s_paren_list(toks, p1) {
                Ok((Some(args), q, es)) => {
                    if (e1 + es).len() == 0 {
                        lemma_fold_ok(a, args, 0, crate::parse::span_of(toks, pos, q));
                    }
                },
                _ => {},
            }
        },
        Err(_) => {},
    }
}

proof fn lemma_paren_list_ok(toks: Seq<Spanned>, pos: int)
    ensures
        clean(s_paren_list(toks, pos)) ==> (s_paren_list(toks, pos)->Ok_0.0 matches Some(args) && exprs_ok(args)),
    decreases toks.len() - pos, 2nat,
{
    if 0 <= pos && crate::parse::is(toks, pos, crate::token::Token::Open(Delimiter::Paren)) {
        lemma_exprs_ok(toks, pos + 1);
        let (items, q, es) = s_exprs(toks, pos + 1);
        lemma_nested_clean(toks, pos, Delimiter::Paren, Ok((Some(items), q, es)), None);
    }
}

proof fn lemma_exprs_ok(toks: Seq<Spanned>, p: int)
    ensures
        s_exprs(toks, p).2.len() == 0 ==> exprs_ok(s_exprs(toks, p).0),
    decreases toks.len() - p, 32nat,
{
    if 0 <= p <= toks.len() {
        lemma_expr_ok(toks, p);
        match s_expr(toks, p) {
            Ok((e, p1, e1)) => if p < p1 <= toks.len() {
                let first = seq![nodev(e, crate::parse::span_of(toks, p, p1))];
                assert(e1.len() == 0 ==> exprs_ok(first));
                lemma_exprs_rest_ok(toks, first, p1, e1);
            },
            Err(_) => {},
        }
    }
}

proof fn lemma_exprs_rest_ok(toks: Seq<Spanned>, acc: Seq<NodeV<ExprV>>, p: int, errs: Seq<Error>)
    requires
        errs.len() == 0 ==> exprs_ok(acc),
    ensures
        s_exprs_rest(toks, acc, p, errs).2.len() == 0 ==> exprs_ok(s_exprs_rest(toks, acc, p, errs).0),
    decreases toks.len() - p, 32nat,
{
    if 0 <= p && crate::parse::is(toks, p, crate::token::Token::Comma) {
        lemma_expr_ok(toks, p + 1);
        match s_expr(toks, p + 1) {
            Ok((e, p2, e2)) => if p + 1 < p2 <= toks.len() {
                let n = nodev(e, crate::parse::span_of(toks, p + 1, p2));
                assert((errs + e2).len() == 0 ==> exprs_ok(acc.push(n))) by {
                    if (errs + e2).len() == 0 {
                        assert forall|i: int| 0 <= i < acc.push(n).len() implies expr_ok(*(#[trigger] acc.push(n)[i]).inner) by {
                            if i < acc.len() {
                                assert(acc.push(n)[i] == acc[i]);
                            }
                        }
                    }
                }
                lemma_exprs_rest_ok(toks, acc.push(n), p2, errs + e2);
            },
            Err(_) => {},
        }
    }
}

proof fn lemma_atom_e_ok(toks: Seq<Spanned>, pos: int)
    ensures
        enode_ok_res(s_atom_e(toks, pos)),
    decreases toks.len() - pos, 4nat,
{
    if 0 <= pos <= toks.len() {
        lemma_paren_e_ok(toks, pos);
        lemma_tuple_e_ok(toks, pos);
        lemma_record_e_ok(toks, pos);
        lemma_list_e_ok(toks, pos);
        lemma_let_ok(toks, pos);
        lemma_if_ok(toks, pos);
        lemma_match_ok(toks, pos);
        lemma_func_ok(toks, pos);
        lemma_cons_ok(toks, pos);
        let r1 = alt(s_litr(toks, pos), s_local(toks, pos));
        lemma_alt_clean(s_litr(toks, pos), s_local(toks, pos));
        let r2 = alt(r1, s_paren(toks, pos));
        lemma_alt_clean(r1, s_paren(toks, pos));
        let r3 = alt(r2, s_tuple(toks, pos));
        lemma_alt_clean(r2, s_tuple(toks, pos));
        let r4 = alt(r3, s_record(toks, pos));
        lemma_alt_clean(r3, s_record(toks, pos));
        let r5 = alt(r4, s_list(toks, pos));
        lemma_alt_clean(r4, s_list(toks, pos));
        let r6 = alt(r5, s_let(toks, pos));
        lemma_alt_clean(r5, s_let(toks, pos));
        let r7 = alt(r6, s_if(toks, pos));
        lemma_alt_clean(r6, s_if(toks, pos));
        let r8 = alt(r7, s_match(toks, pos));
        lemma_alt_clean(r7, s_match(toks, pos));
        let r9 = alt(r8, s_func(toks, pos));
        lemma_alt_clean(r8, s_func(toks, pos));
        lemma_alt_clean(r9, s_cons(toks, pos));
    }
}

proof fn lemma_paren_e_ok(toks: Seq<Spanned>, pos: int)
    ensures
        expr_ok_res(s_paren(toks, pos)),
    decreases toks.len() - pos, 3nat,
{
    if 0 <= pos && crate::parse::is(toks, pos, crate::token::Token::Open(Delimiter::Paren)) {
        lemma_expr_ok(toks, pos + 1);
        lemma_nested_clean(toks, pos, Delimiter::Paren, s_expr(toks, pos + 1), ExprV::Error);
    }
}

proof fn lemma_tuple_e_ok(toks: Seq<Spanned>, pos: int)
    ensures
        expr_ok_res(s_tuple(toks, pos)),
    decreases toks.len() - pos, 3nat,
{
    lemma_paren_list_ok(toks, pos);
}

proof fn lemma_record_e_ok(toks: Seq<Spanned>, pos: int)
    ensures
        expr_ok_res(s_record(toks, pos)),
    decreases toks.len() - pos, 3nat,
{
    if 0 <= pos && crate::parse::is(toks, pos, crate::token::Token::Open(Delimiter::Brace)) {
        lemma_efields_ok(toks, pos + 1);
        let (fields, q, es) = s_efields(toks, pos + 1);
        lemma_nested_clean(toks, pos, Delimiter::Brace, Ok((ExprV::Record(fields), q, es)), ExprV::Error);
    }
}

proof fn lemma_efield_ok(toks: Seq<Spanned>, p: int)
    ensures
        clean(s_efield(toks, p)) ==> expr_ok(*s_efield(toks, p)->Ok_0.0.1.inner),
    decreases toks.len() - p, 1nat,
{
    if 0 <= p && p + 2 <= toks.len() {
        lemma_expr_ok(toks, p + 2);
    }
}

proof fn lemma_efields_ok(toks: Seq<Spanned>, p: int)
    ensures
        s_efields(toks, p).2.len() == 0 ==> efields_ok(s_efields(toks, p).0),
    decreases toks.len() - p, 32nat,
{
    if 0 <= p <= toks.len() {
        lemma_efield_ok(toks, p);
        match s_efield(toks, p) {
            Ok((f, p1, e1)) => if p < p1 <= toks.len() {
                assert(e1.len() == 0 ==> efields_ok(seq![f]));
                lemma_efields_rest_ok(toks, seq![f], p1, e1);
            },
            Err(_) => {},
        }
    }
}

proof fn lemma_efields_rest_ok(toks: Seq<Spanned>, acc: Seq<(NodeV<Seq<char>>, NodeV<ExprV>)>, p: int, errs: Seq<Error>)
    requires
        errs.len() == 0 ==> efields_ok(acc),
    ensures
        s_efields_rest(toks, acc, p, errs).2.len() == 0 ==> efields_ok(s_efields_rest(toks, acc, p, errs).0),
    decreases toks.len() - p, 32nat,
{
    if 0 <= p && crate::parse::is(toks, p, crate::token::Token::Comma) {
        lemma_efield_ok(toks, p + 1);
        match s_efield(toks, p + 1) {
            Ok((f, p2, e2)) => if p + 1 < p2 <= toks.len() {
                assert((errs + e2).len() == 0 ==> efields_ok(acc.push(f))) by {
                    if (errs + e2).len() == 0 {
                        assert forall|i: int| 0 <= i < acc.push(f).len() implies expr_ok(*(#[trigger] acc.push(f)[i]).1.inner) by {
                            if i < acc.len() {
                                assert(acc.push(f)[i] == acc[i]);
                            }
                        }
                    }
                }
                lemma_efields_rest_ok(toks, acc.push(f), p2, errs + e2);
            },
            Err(_) => {},
        }
    }
}

proof fn lemma_list_e_ok(toks: Seq<Spanned>, pos: int)
    ensures
        expr_ok_res(s_list(toks, pos)),
    decreases toks.len() - pos, 3nat,
{
    if 0 <= pos && crate::parse::is(toks, pos, crate::token::Token::Open(Delimiter::Brack)) {
        lemma_exprs_ok(toks, pos + 1);
        let (items, q, es) = s_exprs(toks, pos + 1);
        lemma_nested_clean(toks, pos, Delimiter::Brack, Ok((ExprV::List(items, Seq::empty()), q, es)), ExprV::Error);
    }
}

proof fn lemma_let_ok(toks: Seq<Spanned>, pos: int)
    ensures
        expr_ok_res(s_let(toks, pos)),
    decreases toks.len() - pos, 3nat,
{
    if 0 <= pos && crate::parse::is(toks, pos, crate::token::Token::Let) {
        lemma_lets_ok(toks, pos + 1);
        let (bs, q, es) = s_lets(toks, pos + 1);
        if pos < q && crate::parse::is(toks, q, crate::token::Token::In) {
            lemma_expr_ok(toks, q + 1);
        }
    }
}

proof fn lemma_let_item_ok(toks: Seq<Spanned>, p: int)
    ensures
        clean(s_let_item(toks, p)) ==> binding_ok(*s_let_item(toks, p)->Ok_0.0.0.inner) && expr_ok(
            *s_let_item(toks, p)->Ok_0.0.1.inner,
        ),
    decreases toks.len() - p, 1nat,
{
    lemma_binding_ok(toks, p);
    match s_binding(toks, p) {
        Ok((b, q, es)) => if p < q && crate::parse::is(toks, q, crate::token::Token::Op(crate::token::Op::Eq)) {
            lemma_expr_ok(toks, q + 1);
        },
        Err(_) => {},
    }
}

proof fn lemma_lets_ok(toks: Seq<Spanned>, p: int)
    ensures
        s_lets(toks, p).2.len() == 0 ==> lets_ok(s_lets(toks, p).0),
    decreases toks.len() - p, 32nat,
{
    if 0 <= p <= toks.len() {
        lemma_let_item_ok(toks, p);
        match s_let_item(toks, p) {
            Ok((f, p1, e1)) => if p < p1 <= toks.len() {
                assert(e1.len() == 0 ==> lets_ok(seq![f]));
                lemma_lets_rest_ok(toks, seq![f], p1, e1);
            },
            Err(_) => {},
        }
    }
}

proof fn lemma_lets_rest_ok(toks: Seq<Spanned>, acc: Seq<(NodeV<BindingV>, NodeV<ExprV>)>, p: int, errs: Seq<Error>)
    requires
        errs.len() == 0 ==> lets_ok(acc),
    ensures
        s_lets_rest(toks, acc, p, errs).2.len() == 0 ==> lets_ok(s_lets_rest(toks, acc, p, errs).0),
    decreases toks.len() - p, 32nat,
{
    if 0 <= p && crate::parse::is(toks, p, crate::token::Token::Comma) {
        lemma_let_item_ok(toks, p + 1);
        match s_let_item(toks, p + 1) {
            Ok((f, p2, e2)) => if p + 1 < p2 <= toks.len() {
                assert((errs + e2).len() == 0 ==> lets_ok(acc.push(f))) by {
                    if (errs + e2).len() == 0 {
                        assert forall|i: int| 0 <= i < acc.push(f).len() implies binding_ok(*(#[trigger] acc.push(f)[i]).0.inner)
                            && expr_ok(*acc.push(f)[i].1.inner) by {
                            if i < acc.len() {
                                assert(acc.push(f)[i] == acc[i]);
                            }
                        }
                    }
                }
                lemma_lets_rest_ok(toks, acc.push(f), p2, errs + e2);
            },
            Err(_) => {},
        }
    }
}

proof fn lemma_if_ok(toks: Seq<Spanned>, pos: int)
    ensures
        expr_ok_res(s_if(toks, pos)),
    decreases toks.len() - pos, 3nat,
{
    if 0 <= pos && crate::parse::is(toks, pos, crate::token::Token::If) {
        lemma_expr_ok(toks, pos + 1);
        match s_expr(toks, pos + 1) {
            Ok((c, q1, e1)) => if pos < q1 && crate::parse::is(toks, q1, crate::token::Token::Then) {
                lemma_expr_ok(toks, q1 + 1);
                match s_expr(toks, q1 + 1) {
                    Ok((a, q2, e2)) => if q1 < q2 && crate::parse::is(toks, q2, crate::token::Token::Else) {
                        lemma_expr_ok(toks, q2 + 1);
                    },
                    Err(_) => {},
                }
            },
            Err(_) => {},
        }
    }
}

proof fn lemma_match_ok(toks: Seq<Spanned>, pos: int)
    ensures
        expr_ok_res(s_match(toks, pos)),
    decreases toks.len() - pos, 3nat,
{
    if 0 <= pos && crate::parse::is(toks, pos, crate::token::Token::Match) {
        lemma_exprs_ok(toks, pos + 1);
        let (preds, q, es) = s_exprs(toks, pos + 1);
        if pos < q && crate::parse::is(toks, q, crate::token::Token::In) {
            lemma_branches_ok(toks, q + 1);
        }
    }
}

proof fn lemma_func_ok(toks: Seq<Spanned>, pos: int)
    ensures
        expr_ok_res(s_func(toks, pos)),
    decreases toks.len() - pos, 3nat,
{
    if 0 <= pos && crate::parse::is(toks, pos, crate::token::Token::Fn) {
        lemma_branches_ok(toks, pos + 1);
    }
}

proof fn lemma_cons_ok(toks: Seq<Spanned>, pos: int)
    ensures
        expr_ok_res(s_cons(toks, pos)),
    decreases toks.len() - pos, 3nat,
{
    if 0 <= pos < toks.len() && toks[pos].token is TypeIdent {
        lemma_expr_ok(toks, pos + 1);
        assert(expr_ok(ExprV::Tuple(Seq::empty())));
    }
}

proof fn lemma_branch_ok(toks: Seq<Spanned>, p: int)
    ensures
        clean(s_branch(toks, p)) ==> branch_ok(s_branch(toks, p)->Ok_0.0),
    decreases toks.len() - p, 1nat,
{
    if 0 <= p <= toks.len() {
        lemma_bindings_ok(toks, p);
        let (bs, q, es) = s_bindings(toks, p);
        if p <= q && crate::parse::is(toks, q, crate::token::Token::Op(crate::token::Op::RFlow)) {
            lemma_expr_ok(toks, q + 1);
        }
    }
}

proof fn lemma_branches_ok(toks: Seq<Spanned>, p: int)
    ensures
        s_branches(toks, p).2.len() == 0 ==> branches_ok(s_branches(toks, p).0),
    decreases toks.len() - p, 32nat,
{
    if 0 <= p <= toks.len() {
        let p0 = if crate::parse::is(toks, p, crate::token::Token::Pipe) {
            p + 1
        } else {
            p
        };
        lemma_branch_ok(toks, p0);
        match s_branch(toks, p0) {
            Ok((b, p1, e1)) => if p0 < p1 <= toks.len() {
                assert(e1.len() == 0 ==> branches_ok(seq![b]));
                lemma_branches_rest_ok(toks, seq![b], p1, e1);
            },
            Err(_) => {},
        }
    }
}

proof fn lemma_branches_rest_ok(toks: Seq<Spanned>, acc: Seq<BranchV>, p: int, errs: Seq<Error>)
    requires
        errs.len() == 0 ==> branches_ok(acc),
    ensures
        s_branches_rest(toks, acc, p, errs).2.len() == 0 ==> branches_ok(s_branches_rest(toks, acc, p, errs).0),
    decreases toks.len() - p, 32nat,
{
    if 0 <= p && crate::parse::is(toks, p, crate::token::Token::Pipe) {
        lemma_branch_ok(toks, p + 1);
        match s_branch(toks, p + 1) {
            Ok((b, p2, e2)) => if p + 1 < p2 <= toks.len() {
                assert((errs + e2).len() == 0 ==> branches_ok(acc.push(b))) by {
                    if (errs + e2).len() == 0 {
                        assert forall|i: int| 0 <= i < acc.push(b).len() implies branch_ok(#[trigger] acc.push(b)[i]) by {
                            if i < acc.len() {
                                assert(acc.push(b)[i] == acc[i]);
                            }
                        }
                    }
                }
                lemma_branches_rest_ok(toks, acc.push(b), p2, errs + e2);
            },
            Err(_) => {},
        }
    }
}


// ----- Items -----

pub open spec fn items_ok(s: Seq<ItemV>) -> bool {
    forall|i: int| 0 <= i < s.len() ==> item_ok(#[trigger] s[i])
}

proof fn lemma_variant_ok(toks: Seq<Spanned>, p: int)
    ensures
        clean(s_variant(toks, p)) ==> type_ok(*s_variant(toks, p)->Ok_0.0.1.inner),
{
    if 0 <= p < toks.len() && toks[p].token is TypeIdent {
        lemma_ty_ok(toks, p + 1);
        assert(type_ok(TypeV::Tuple(Seq::empty())));
    }
}

proof fn lemma_variants_rest_ok(toks: Seq<Spanned>, acc: Seq<(NodeV<Seq<char>>, NodeV<TypeV>)>, p: int, errs: Seq<Error>)
    requires
        errs.len() == 0 ==> tfields_ok(acc),
    ensures
        s_variants_rest(toks, acc, p, errs).2.len() == 0 ==> tfields_ok(s_variants_rest(toks, acc, p, errs).0),
    decreases toks.len() - p,
{
    if 0 <= p && crate::parse::is(toks, p, crate::token::Token::Pipe) {
        lemma_variant_ok(toks, p + 1);
        match s_variant(toks, p + 1) {
            Ok((v, p2, e2)) => if p + 1 < p2 <= toks.len() {
                assert((errs + e2).len() == 0 ==> tfields_ok(acc.push(v))) by {
                    if (errs + e2).len() == 0 {
                        assert forall|i: int| 0 <= i < acc.push(v).len() implies type_ok(*(#[trigger] acc.push(v)[i]).1.inner) by {
                            if i < acc.len() {
                                assert(acc.push(v)[i] == acc[i]);
                            }
                        }
                    }
                }
                lemma_variants_rest_ok(toks, acc.push(v), p2, errs + e2);
            },
            Err(_) => {},
        }
    }
}

proof fn lemma_variants_ok(toks: Seq<Spanned>, p: int)
    ensures
        s_variants(toks, p).2.len() == 0 ==> tfields_ok(s_variants(toks, p).0),
{
    if 0 <= p <= toks.len() {
        let p0 = if crate::parse::is(toks, p, crate::token::Token::Pipe) {
            p + 1
        } else {
            p
        };
        lemma_variant_ok(toks, p0);
        match s_variant(toks, p0) {
            Ok((v, p1, e1)) => if p0 < p1 <= toks.len() {
                assert(e1.len() == 0 ==> tfields_ok(seq![v]));
                lemma_variants_rest_ok(toks, seq![v], p1, e1);
            },
            Err(_) => {},
        }
    }
}

proof fn lemma_item_ok(toks: Seq<Spanned>, pos: int)
    ensures
        clean(s_item(toks, pos)) ==> item_ok(s_item(toks, pos)->Ok_0.0),
{
    if 0 <= pos && pos + 2 <= toks.len() {
        let (gens, p2) = s_generics(toks, pos + 2);
        if pos < p2 && p2 < toks.len() {
            lemma_ty_ok(toks, p2 + 1);
            lemma_variants_ok(toks, p2 + 1);
            let name = nodev(toks[pos + 1].token->TypeIdent_0@, toks[pos + 1].span);
            let single = match s_ty(toks, p2 + 1) {
                Ok((t, q, es)) => Ok((seq![(name, nodev(t, crate::parse::span_of(toks, p2 + 1, q)))], q, es)),
                Err(e) => Err(e),
            };
            let (vs, q, es) = s_variants(toks, p2 + 1);
            lemma_alt_clean(single, Ok((vs, q, es)));
        }
        lemma_ty_hint_ok(toks, p2);
        let (hint, p3, e3) = s_ty_hint(toks, p2);
        if pos < p3 && p3 < toks.len() {
            lemma_expr_ok(toks, p3 + 1);
        }
        assert(type_ok(TypeV::Unknown));
    }
    let d = match s_def(toks, pos) {
        Ok((x, q, es)) => Ok((ItemV::Def(x), q, es)),
        Err(e) => Err(e),
    };
    let t = match s_data_item(toks, pos) {
        Ok((x, q, es)) => Ok((ItemV::Data(x), q, es)),
        Err(e) => Err(e),
    };
    let a = match s_alias(toks, pos) {
        Ok((x, q, es)) => Ok((ItemV::Alias(x), q, es)),
        Err(e) => Err(e),
    };
    lemma_alt_clean(d, t);
    lemma_alt_clean(alt(d, t), a);
}

proof fn lemma_items_ok(toks: Seq<Spanned>, p: int, acc: Seq<ItemV>, errs: Seq<Error>)
    requires
        errs.len() == 0 ==> items_ok(acc),
    ensures
        s_items(toks, p, acc, errs).2.len() == 0 ==> items_ok(s_items(toks, p, acc, errs).0),
    decreases toks.len() - p,
{
    if 0 <= p <= toks.len() {
        lemma_item_ok(toks, p);
        match s_item(toks, p) {
            Ok((it, q, es)) => if p < q <= toks.len() {
                assert((errs + es).len() == 0 ==> items_ok(acc.push(it))) by {
                    if (errs + es).len() == 0 {
                        assert forall|i: int| 0 <= i < acc.push(it).len() implies item_ok(#[trigger] acc.push(it)[i]) by {
                            if i < acc.len() {
                                assert(acc.push(it)[i] == acc[i]);
                            }
                        }
                    }
                }
                lemma_items_ok(toks, q, acc.push(it), errs + es);
            },
            Err(_) => {},
        }
    }
}

/// A module that parses with no error at all holds no erroneous node: every
/// node that stands for a group recovered from comes with a recorded error.
pub proof fn lemma_clean_module_has_no_error_nodes(toks: Seq<Spanned>)
    ensures
        s_parse_module(toks) matches Ok(items) ==> items_ok(items),
{
    lemma_items_ok(toks, 0, Seq::empty(), Seq::empty());
}

/// The operator token that each binary operator is written with.
pub open spec fn op_token(o: crate::ast::BinaryOp) -> crate::token::Op {
    match o {
        crate::ast::BinaryOp::Add => crate::token::Op::Add,
        crate::ast::BinaryOp::Sub => crate::token::Op::Sub,
        crate::ast::BinaryOp::Mul => crate::token::Op::Mul,
        crate::ast::BinaryOp::Div => crate::token::Op::Div,
        crate::ast::BinaryOp::Rem => crate::token::Op::Rem,
        crate::ast::BinaryOp::Join => crate::token::Op::Join,
        crate::ast::BinaryOp::Less => crate::token::Op::Less,
        crate::ast::BinaryOp::LessEq => crate::token::Op::LessEq,
        crate::ast::BinaryOp::More => crate::token::Op::More,
        crate::ast::BinaryOp::MoreEq => crate::token::Op::MoreEq,
        crate::ast::BinaryOp::Eq => crate::token::Op::Eq,
        crate::ast::BinaryOp::NotEq => crate::token::Op::NotEq,
        crate::ast::BinaryOp::And => crate::token::Op::And,
        crate::ast::BinaryOp::Or => crate::token::Op::Or,
        crate::ast::BinaryOp::Xor => crate::token::Op::Xor,
    }
}

/// How tightly each binary operator binds: 0 is tightest (multiplication),
/// then addition, joining, comparison, and the logical operators last.
pub open spec fn op_level(o: crate::ast::BinaryOp) -> nat {
    match o {
        crate::ast::BinaryOp::Mul | crate::ast::BinaryOp::Div | crate::ast::BinaryOp::Rem => 0,
        crate::ast::BinaryOp::Add | crate::ast::BinaryOp::Sub => 1,
        crate::ast::BinaryOp::Join => 2,
        crate::ast::BinaryOp::Less | crate::ast::BinaryOp::LessEq | crate::ast::BinaryOp::More | crate::ast::BinaryOp::MoreEq
        | crate::ast::BinaryOp::Eq | crate::ast::BinaryOp::NotEq => 3,
        crate::ast::BinaryOp::And | crate::ast::BinaryOp::Or | crate::ast::BinaryOp::Xor => 4,
    }
}

/// An operator token is read as the binary operator of the same name, and
/// only at that operator's level of precedence: the infix operator read at
/// `p` on level `k` is `o` exactly when the token there is `o`'s token and
/// `k` is `o`'s level. So no two tokens are read as the same operator.
pub proof fn lemma_operator_tokens(toks: Seq<Spanned>, p: int, k: nat, o: crate::ast::BinaryOp)
    ensures
        crate::parse::exprs::op_at(toks, p, k) == Some(o) <==> (0 <= p < toks.len() && toks[p].token == crate::token::Token::Op(
            op_token(o),
        ) && k == op_level(o)),
{
}

/// The token of each prefix operator: `-` for negation and `!` for logical
/// not; propagation is no prefix operator.
pub open spec fn prefix_token(u: crate::ast::UnaryOp) -> Option<crate::token::Op> {
    match u {
        crate::ast::UnaryOp::Neg => Some(crate::token::Op::Sub),
        crate::ast::UnaryOp::Not => Some(crate::token::Op::Not),
        crate::ast::UnaryOp::Propagate => None,
    }
}

/// A prefix operator token is read as the unary operator it writes: the
/// prefix operator read at `p` is `u` exactly when `u` has a prefix token and
/// that token stands at `p`.
pub proof fn lemma_prefix_operator_tokens(toks: Seq<Spanned>, p: int, u: crate::ast::UnaryOp)
    ensures
        crate::parse::exprs::prefix_at(toks, p) == Some(u) <==> (0 <= p < toks.len() && prefix_token(u) is Some
            && toks[p].token == crate::token::Token::Op(prefix_token(u).unwrap())),
{
}

} // verus!
