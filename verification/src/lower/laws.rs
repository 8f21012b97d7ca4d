use vstd::prelude::*;
use vstd::string::*;

use crate::ast::{Binding, Branch, Expr, Pat, Type};
use crate::hir::{ENodeV, Meta};
use crate::ident::Ident;
use crate::infer::{lookup, s_flow, s_impls, s_insert, LowerCtx, StateV, TyInfoV};
use crate::lower::bindings::{
    binding_locals, s_fresh_generics, s_lower_bfields, s_lower_binding, s_lower_bindings, s_lower_pat, s_tupleify_binding,
};
use crate::lower::types::{s_lower_tfields, s_lower_type, s_lower_types};
use crate::ast::LangDef;
use crate::infer::{s_demand, s_error, s_insert_effect, DemandV, EffectInfoV};
use crate::lower::{s_litr_ty_info, ImplRequest, LowerError};
use crate::lower::exprs::s_basin;
use crate::ast::{BinaryOp, UnaryOp};
use crate::ty::Prim;
use crate::lower::exprs::{
    param_nodes, s_arity_errors, s_handle, s_instantiate_def, s_intrinsic, s_lower_arms, s_lower_efields, s_lower_expr,
    s_lower_exprs, s_lower_kind, s_lower_lets, s_lower_updates, s_param_refs, s_param_tys, s_tupleify_expr, s_wrap_funcs,
    wrong_arity, let_count,
};
use crate::lower::with_basin_v;
use crate::lower::{push_frame, s_find, DefId, ScopeV, TyVar};
use crate::span::{Span, SrcNode};

verus! {

/// `a` holds the entries of `b` that it has, in order: `b` is `a` with more after it.
pub open spec fn prefix<A>(a: Seq<A>, b: Seq<A>) -> bool {
    a.len() <= b.len() && forall|i: int| 0 <= i < a.len() ==> #[trigger] b[i] == a[i]
}

/// The state `b` keeps everything recorded in `a`, each at its place.
pub open spec fn grows(a: StateV, b: StateV) -> bool {
    &&& prefix(a.vars, b.vars)
    &&& prefix(a.effects, b.effects)
    &&& prefix(a.flows, b.flows)
    &&& prefix(a.demands, b.demands)
    &&& prefix(a.impls, b.impls)
    &&& prefix(a.errors, b.errors)
}

proof fn lemma_fresh_generics_grows(st: StateV, span: Span, params: Seq<crate::lower::GenericParam>)
    ensures
        grows(st, s_fresh_generics(st, span, params).1),
    decreases params.len(),
{
    if params.len() > 0 {
        lemma_fresh_generics_grows(st, span, params.drop_last());
    }
}

/// Lowering a type only adds to the state: every variable, flow, demand,
/// class membership and error recorded before stays at its place.
pub proof fn lemma_lower_type_grows(ctx: LowerCtx, st: StateV, t: SrcNode<Type>)
    ensures
        grows(st, s_lower_type(ctx, st, t).1),
    decreases t,
{
    match *t.inner {
        Type::List(item) => lemma_lower_type_grows(ctx, st, item),
        Type::Tuple(items) => lemma_lower_types_grows(ctx, st, items@),
        Type::Record(fields) => lemma_lower_tfields_grows(ctx, st, fields@),
        Type::Func(i, o) => {
            lemma_lower_type_grows(ctx, st, i);
            lemma_lower_type_grows(ctx, s_lower_type(ctx, st, i).1, o);
        },
        Type::Data(name, params) => {
            lemma_lower_types_grows(ctx, st, params@);
        },
        Type::Assoc(inner, _) => lemma_lower_type_grows(ctx, st, inner),
        Type::Effect(_, params, out) => {
            lemma_lower_types_grows(ctx, st, params@);
            lemma_lower_type_grows(ctx, s_lower_types(ctx, st, params@).1, out);
        },
        _ => {},
    }
}

proof fn lemma_lower_types_grows(ctx: LowerCtx, st: StateV, items: Seq<SrcNode<Type>>)
    ensures
        grows(st, s_lower_types(ctx, st, items).1),
    decreases items,
{
    if items.len() > 0 {
        lemma_lower_types_grows(ctx, st, items.drop_last());
        lemma_lower_type_grows(ctx, s_lower_types(ctx, st, items.drop_last()).1, items.last());
    }
}

proof fn lemma_lower_tfields_grows(ctx: LowerCtx, st: StateV, fields: Seq<(SrcNode<Ident>, SrcNode<Type>)>)
    ensures
        grows(st, s_lower_tfields(ctx, st, fields).1),
    decreases fields,
{
    if fields.len() > 0 {
        lemma_lower_tfields_grows(ctx, st, fields.drop_last());
        lemma_lower_type_grows(ctx, s_lower_tfields(ctx, st, fields.drop_last()).1, fields.last().1);
    }
}

proof fn lemma_lower_pat_grows(ctx: LowerCtx, st: StateV, b: SrcNode<Binding>)
    ensures
        grows(st, s_lower_pat(ctx, st, b).2),
    decreases b, 0nat,
{
    match *(*b.inner).pat.inner {
        Pat::Single(inner) => lemma_lower_binding_grows(ctx, st, inner),
        Pat::Tuple(items) => lemma_lower_bindings_grows(ctx, st, items@, None),
        Pat::Record(fields) => lemma_lower_bfields_grows(ctx, st, fields@),
        Pat::ListExact(items) => {
            let s1 = crate::infer::s_insert(st, (*b.inner).pat.span, crate::infer::TyInfoV::Unknown(None));
            lemma_lower_bindings_grows(ctx, s1.1, items@, Some(s1.0));
        },
        Pat::ListFront(items, tail) => {
            let s1 = crate::infer::s_insert(st, (*b.inner).pat.span, crate::infer::TyInfoV::Unknown(None));
            lemma_lower_bindings_grows(ctx, s1.1, items@, Some(s1.0));
            let s2 = s_lower_bindings(ctx, s1.1, items@, Some(s1.0)).1;
            match tail {
                Some(t) => lemma_lower_binding_grows(ctx, s2, t),
                None => {},
            }
        },
        Pat::Deconstruct(name, inner) => match lookup(ctx.conses@, (*name.inner)@) {
            Some(c) => {
                let cons = ctx.conses@[c as int];
                let decl = ctx.datas@[cons.data.id() as int];
                lemma_fresh_generics_grows(st, b.span, decl.generics.params@);
                let (gens, s1) = s_fresh_generics(st, b.span, decl.generics.params@);
                let s2 = crate::infer::s_impls(s1, crate::lower::requests(gens, crate::lower::obligations_of(decl.generics), b.span));
                let (actual, s3) = crate::infer::s_insert(s2, inner.span, crate::infer::TyInfoV::Instance(cons.ty, gens));
                let (inner_ty, s4) = crate::infer::s_insert(s3, b.span, crate::infer::TyInfoV::Unknown(None));
                let s5 = crate::infer::s_flow(s4, actual, inner_ty);
                lemma_lower_binding_grows(ctx, s5, inner);
            },
            None => {},
        },
        Pat::Binary(_, lhs, _) => lemma_lower_binding_grows(ctx, st, lhs),
        _ => {},
    }
}

/// Lowering a binding only adds to the state: every variable, flow, demand,
/// class membership and error recorded before stays at its place.
pub proof fn lemma_lower_binding_grows(ctx: LowerCtx, st: StateV, b: SrcNode<Binding>)
    ensures
        grows(st, s_lower_binding(ctx, st, b).1),
    decreases b, 1nat,
{
    lemma_lower_pat_grows(ctx, st, b);
    let (info, pat, s1) = s_lower_pat(ctx, st, b);
    let (ty, s2) = crate::infer::s_insert(s1, b.span, info);
    match (*b.inner).ty {
        Some(h) => lemma_lower_type_grows(ctx, s2, h),
        None => {},
    }
}

proof fn lemma_lower_bindings_grows(ctx: LowerCtx, st: StateV, items: Seq<SrcNode<Binding>>, into: Option<TyVar>)
    ensures
        grows(st, s_lower_bindings(ctx, st, items, into).1),
    decreases items, 0nat,
{
    if items.len() > 0 {
        lemma_lower_bindings_grows(ctx, st, items.drop_last(), into);
        lemma_lower_binding_grows(ctx, s_lower_bindings(ctx, st, items.drop_last(), into).1, items.last());
    }
}

proof fn lemma_lower_bfields_grows(ctx: LowerCtx, st: StateV, fields: Seq<(SrcNode<Ident>, SrcNode<Binding>)>)
    ensures
        grows(st, s_lower_bfields(ctx, st, fields).1),
    decreases fields, 0nat,
{
    if fields.len() > 0 {
        lemma_lower_bfields_grows(ctx, st, fields.drop_last());
        lemma_lower_binding_grows(ctx, s_lower_bfields(ctx, st, fields.drop_last()).1, fields.last().1);
    }
}

/// Lowering the patterns of a branch together only adds to the state.
pub proof fn lemma_tupleify_binding_grows(ctx: LowerCtx, st: StateV, items: SrcNode<Vec<SrcNode<Binding>>>)
    ensures
        grows(st, s_tupleify_binding(ctx, st, items).1),
{
    lemma_lower_bindings_grows(ctx, st, (*items.inner)@, None);
}

/// A type written, without parameters, as the name of a primitive type (other
/// than the universe, which has a form of its own) is that primitive type:
/// lowering it creates one variable, at the type's span, that is the primitive
/// type, and records nothing else.
pub proof fn lemma_primitive_names_lower(ctx: LowerCtx, st: StateV, t: SrcNode<Type>, p: crate::ty::Prim)
    requires
        p != crate::ty::Prim::Universe,
        *t.inner matches Type::Data(name, params) && params@.len() == 0 && (*name.inner)@ == crate::ty::prim_name(p),
    ensures
        crate::lower::types::prim_named(crate::ty::prim_name(p)) == Some(p),
        s_lower_type(ctx, st, t).0 == TyVar(st.vars.len() as usize),
        s_lower_type(ctx, st, t).1 == (StateV { vars: st.vars.push((t.span, TyInfoV::Prim(p))), ..st }),
{
    reveal_strlit("Nat");
    reveal_strlit("Int");
    reveal_strlit("Num");
    reveal_strlit("Bool");
    reveal_strlit("Char");
    reveal_strlit("Self");
    let n_nat = "Nat"@;
    let n_int = "Int"@;
    let n_num = "Num"@;
    let n_bool = "Bool"@;
    let n_char = "Char"@;
    assert(n_int[0] != n_nat[0] && n_num[1] != n_nat[1] && n_num[0] != n_int[0]);
    assert(n_bool.len() != n_nat.len() && n_char.len() != n_nat.len() && n_bool[0] != n_char[0]);
    assert("Self"@.len() != n_nat.len() && "Self"@[0] != n_bool[0] && "Self"@[0] != n_char[0]);
    match p {
        crate::ty::Prim::Nat => {},
        crate::ty::Prim::Int => {
            assert(n_int != n_nat);
        },
        crate::ty::Prim::Num => {
            assert(n_num != n_nat && n_num != n_int);
        },
        crate::ty::Prim::Bool => {
            assert(n_bool != n_nat && n_bool != n_int && n_bool != n_num);
        },
        crate::ty::Prim::Char => {
            assert(n_char != n_nat && n_char != n_int && n_char != n_num && n_char != n_bool);
        },
        crate::ty::Prim::Universe => {},
    }
}

/// The operators `!` and `-` go through their classes: lowering `!a` demands
/// the field `not` of the class for `!`, for the type of `a`, and applies
/// that field to `a`; lowering `-a` does the same with the field `neg` of the
/// class for `-`.
#[verifier::rlimit(100)]
pub proof fn lemma_unary_operator_classes(ctx: LowerCtx, st: StateV, sc: ScopeV, e: SrcNode<Expr>)
    requires
        *e.inner matches Expr::Unary(op, _) && !(*op.inner is Propagate),
    ensures
        ({
            let op = *(*e.inner)->Unary_0.inner;
            let (an, s1) = s_lower_expr(ctx, st, sc, (*e.inner)->Unary_1);
            let (info, x, span, s) = s_lower_kind(ctx, st, sc, e);
            let (class, field) = if op is Not {
                (ctx.classes.not, "not"@)
            } else {
                (ctx.classes.neg, "neg"@)
            };
            &&& s.demands.len() == s1.demands.len() + 1
            &&& s.demands.last() is ClassField
            &&& s.demands.last()->ClassField_0 == an.meta.ty
            &&& s.demands.last()->ClassField_1 == field
            &&& s.demands.last()->ClassField_2 == class
            &&& x is Apply
            &&& *x->Apply_1 == an
            &&& x->Apply_0.expr is ClassAccess
            &&& x->Apply_0.expr->ClassAccess_0 == an.meta
            &&& x->Apply_0.expr->ClassAccess_1 == Some(class)
            &&& x->Apply_0.expr->ClassAccess_2.0 == field
        }),
{
}

/// In a list pattern with a tail, the tail is a list of the items: lowering
/// the binding records a flow from the tail's type into a variable that is a
/// list of the item type, which is the first variable the pattern creates and
/// of which nothing is known when it is created.
pub proof fn lemma_list_tail_is_a_list(ctx: LowerCtx, st: StateV, b: SrcNode<Binding>)
    requires
        *(*b.inner).pat.inner matches Pat::ListFront(_, Some(_)),
        s_lower_binding(ctx, st, b).1.vars.len() <= usize::MAX,
    ensures
        ({
            let (bv, s) = s_lower_binding(ctx, st, b);
            let item = TyVar(st.vars.len() as usize);
            &&& item.0 < s.vars.len()
            &&& s.vars[item.0 as int].1 == TyInfoV::Unknown(None)
            &&& bv.pat is ListFront
            &&& bv.pat->ListFront_1 is Some
            &&& exists|k: int|
                #![trigger s.flows[k]]
                0 <= k < s.flows.len() && s.flows[k].0 == bv.pat->ListFront_1->0.meta.ty && s.flows[k].1.0 < s.vars.len()
                    && s.vars[s.flows[k].1.0 as int].1 == TyInfoV::List(item)
        }),
{
    match *(*b.inner).pat.inner {
        Pat::ListFront(items, Some(t)) => {
            let pat_span = (*b.inner).pat.span;
            let (item_ty, s1) = s_insert(st, pat_span, TyInfoV::Unknown(None));
            lemma_lower_bindings_grows(ctx, s1, items@, Some(item_ty));
            let (bs, s2) = s_lower_bindings(ctx, s1, items@, Some(item_ty));
            lemma_lower_binding_grows(ctx, s2, t);
            let (tv, s3) = s_lower_binding(ctx, s2, t);
            let (lt, s4) = s_insert(s3, tv.meta.span, TyInfoV::List(item_ty));
            let s5 = s_flow(s4, tv.meta.ty, lt);
            assert(s_lower_pat(ctx, st, b).2 == s5);
            let (info, pat, _) = s_lower_pat(ctx, st, b);
            let (ty, s6) = s_insert(s5, b.span, info);
            match (*b.inner).ty {
                Some(h) => lemma_lower_type_grows(ctx, s6, h),
                None => {},
            }
            let s = s_lower_binding(ctx, st, b).1;
            assert(grows(s5, s));
            assert(s3.vars.len() < s.vars.len());
            assert(lt.0 as int == s3.vars.len());
            assert(item_ty.0 as int == st.vars.len());
            let k = s4.flows.len() as int;
            assert(s5.flows[k] == (tv.meta.ty, lt));
            assert(s.flows[k] == (tv.meta.ty, lt));
            assert(s5.vars[lt.0 as int] == (tv.meta.span, TyInfoV::List(item_ty)));
            assert(s1.vars[item_ty.0 as int].1 == TyInfoV::Unknown(None));
        },
        _ => {},
    }
}

/// Equality goes through its class and compares operands of one type:
/// lowering `a == b` makes the types of `a` and `b` flow into each other and
/// demands the field `eq` of the class for `==` for the type of `a`. Every
/// other infix operator is kept as it is written, with the demand that it
/// apply to the types of its operands.
#[verifier::rlimit(100)]
pub proof fn lemma_binary_operators(ctx: LowerCtx, st: StateV, sc: ScopeV, e: SrcNode<Expr>)
    requires
        *e.inner is Binary,
    ensures
        ({
            let op = *(*e.inner)->Binary_0.inner;
            let (an, s1) = s_lower_expr(ctx, st, sc, (*e.inner)->Binary_1);
            let (bn, s2) = s_lower_expr(ctx, s1, sc, (*e.inner)->Binary_2);
            let (info, x, span, s) = s_lower_kind(ctx, st, sc, e);
            &&& s.demands.len() == s2.demands.len() + 1
            &&& op == crate::ast::BinaryOp::Eq ==> {
                &&& s.demands.last() is ClassField
                &&& s.demands.last()->ClassField_0 == an.meta.ty
                &&& s.demands.last()->ClassField_1 == "eq"@
                &&& s.demands.last()->ClassField_2 == ctx.classes.eq
                &&& s.flows.len() == s2.flows.len() + 2
                &&& s.flows[s2.flows.len() as int] == (an.meta.ty, bn.meta.ty)
                &&& s.flows[s2.flows.len() as int + 1] == (bn.meta.ty, an.meta.ty)
            }
            &&& op != crate::ast::BinaryOp::Eq ==> {
                &&& s.demands.last() == crate::infer::DemandV::Binary(op, an.meta.ty, bn.meta.ty, info->Ref_0)
                &&& x is Binary
                &&& x->Binary_0.0 == op
                &&& *x->Binary_1 == an
                &&& *x->Binary_2 == bn
            }
        }),
{
}

/// An `if` is a match of its condition on booleans: lowering it gives a
/// match, not required to be exhaustive, of the lowered condition, with two
/// branches: the first matches `true`, the second `false`.
#[verifier::rlimit(100)]
pub proof fn lemma_if_is_a_boolean_match(ctx: LowerCtx, st: StateV, sc: ScopeV, e: SrcNode<Expr>)
    requires
        *e.inner is If,
    ensures
        ({
            let (info, x, span, s) = s_lower_kind(ctx, st, sc, e);
            &&& x is Match
            &&& !x->Match_0
            &&& x->Match_2.len() == 2
            &&& x->Match_2[0].0.pat == crate::hir::PatV::Literal(crate::ast::LiteralV::Bool(true))
            &&& x->Match_2[1].0.pat == crate::hir::PatV::Literal(crate::ast::LiteralV::Bool(false))
            &&& x->Match_2[0].0.meta == x->Match_1.meta
            &&& x->Match_2[1].0.meta == x->Match_1.meta
        }),
{
}


proof fn lemma_instantiate_def_grows(ctx: LowerCtx, st: StateV, def: DefId, span: Span)
    ensures
        grows(st, s_instantiate_def(ctx, st, def, span).2),
{
    let decl = ctx.defs@[def.0 as int];
    lemma_fresh_generics_grows(st, span, decl.generics.params@);
}

proof fn lemma_arity_errors_grows(st: StateV, arms: Seq<Branch>, n: nat, at: Span)
    ensures
        grows(st, s_arity_errors(st, arms, n, at)),
    decreases arms.len(),
{
    if arms.len() > 0 {
        lemma_arity_errors_grows(st, arms.drop_last(), n, at);
    }
}

proof fn lemma_param_tys_grows(st: StateV, pats: Seq<SrcNode<Binding>>)
    ensures
        grows(st, s_param_tys(st, pats).1),
    decreases pats.len(),
{
    if pats.len() > 0 {
        lemma_param_tys_grows(st, pats.drop_last());
    }
}

proof fn lemma_param_refs_grows(st: StateV, span: Span, ptys: Seq<TyVar>)
    ensures
        grows(st, s_param_refs(st, span, ptys).1),
    decreases ptys.len(),
{
    if ptys.len() > 0 {
        lemma_param_refs_grows(st, span, ptys.drop_last());
    }
}

proof fn lemma_wrap_funcs_grows(st: StateV, span: Span, ptys: Seq<TyVar>, body: ENodeV, pm: Meta)
    ensures
        grows(st, s_wrap_funcs(st, span, ptys, body, pm).1),
    decreases ptys.len(),
{
    if ptys.len() > 0 {
        let (f, s1) = s_insert(st, span, TyInfoV::Func(ptys.last(), body.meta.ty));
        let nb = ENodeV {
            expr: crate::hir::ExprV::Func(crate::text::nat_text((ptys.len() - 1) as nat), pm, Box::new(body)),
            meta: Meta { span, ty: f },
        };
        lemma_wrap_funcs_grows(s1, span, ptys.drop_last(), nb, pm);
    }
}

/// Lowering an expression only adds to the state: every variable, effect,
/// flow, demand, class membership and error recorded before stays at its place.
pub proof fn lemma_lower_expr_grows(ctx: LowerCtx, st: StateV, sc: ScopeV, e: SrcNode<Expr>)
    ensures
        grows(st, s_lower_expr(ctx, st, sc, e).1),
    decreases e, 2nat, 0int,
{
    lemma_lower_kind_grows(ctx, st, sc, e);
    let (info, x, span, s1) = s_lower_kind(ctx, st, sc, e);
    g_insert(s1, span, info);
    g_trans(st, s1, s_insert(s1, span, info).1);
}

proof fn g_trans(a: StateV, b: StateV, c: StateV)
    requires
        grows(a, b),
        grows(b, c),
    ensures
        grows(a, c),
{
}

proof fn g_refl(a: StateV)
    ensures
        grows(a, a),
{
}

proof fn g_insert(st: StateV, span: Span, info: TyInfoV)
    ensures
        grows(st, s_insert(st, span, info).1),
{
}

proof fn g_effect(st: StateV, span: Span, info: EffectInfoV)
    ensures
        grows(st, s_insert_effect(st, span, info).1),
{
}

proof fn g_flow(st: StateV, a: TyVar, b: TyVar)
    ensures
        grows(st, s_flow(st, a, b)),
{
}

proof fn g_demand(st: StateV, d: DemandV)
    ensures
        grows(st, s_demand(st, d)),
{
}

proof fn g_error(st: StateV, e: LowerError)
    ensures
        grows(st, s_error(st, e)),
{
}

proof fn g_impls(st: StateV, reqs: Seq<ImplRequest>)
    ensures
        grows(st, s_impls(st, reqs)),
{
    assert forall|i: int| 0 <= i < st.impls.len() implies #[trigger] (st.impls + reqs)[i] == st.impls[i] by {}
}

proof fn g_find(sc: ScopeV, st: StateV, span: Span, name: Seq<char>)
    ensures
        grows(st, s_find(sc, st, span, name).1),
{
}

proof fn g_basin(sc: ScopeV, st: StateV, at: Span, fallback: Span)
    ensures
        grows(st, s_basin(sc, st, at, fallback).1),
{
    if sc.basin is None {
        g_error(st, LowerError::NoBasin(at));
        g_effect(s_error(st, LowerError::NoBasin(at)), fallback, EffectInfoV::Unknown);
        g_trans(st, s_error(st, LowerError::NoBasin(at)), s_basin(sc, st, at, fallback).1);
    }
}

#[verifier::rlimit(50)]
proof fn lemma_lower_kind_grows(ctx: LowerCtx, st: StateV, sc: ScopeV, e: SrcNode<Expr>)
    ensures
        grows(st, s_lower_kind(ctx, st, sc, e).3),
    decreases e, 1nat, 1int,
{
    match *e.inner {
        Expr::Error => g_refl(st),
        Expr::Literal(l) => {
            let (i, s1) = s_litr_ty_info(st, l@, e.span);
            g_insert(st, e.span, TyInfoV::Prim(crate::ty::Prim::Char));
            g_insert(s1, e.span, i);
            g_trans(st, s1, s_insert(s1, e.span, i).1);
        },
        Expr::Local(_) => lemma_local_grows(ctx, st, sc, e),
        Expr::Tuple(items) => lemma_lower_exprs_grows(ctx, st, sc, items@, None),
        Expr::Record(fields) => lemma_lower_efields_grows(ctx, st, sc, fields@),
        Expr::List(_, _) => lemma_list_grows(ctx, st, sc, e),
        Expr::Access(_, _) => lemma_access_grows(ctx, st, sc, e),
        Expr::Unary(_, _) => lemma_unary_grows(ctx, st, sc, e),
        Expr::Binary(_, _, _) => lemma_binary_grows(ctx, st, sc, e),
        Expr::Let(_, _) => lemma_lower_lets_grows(ctx, st, sc, e, 0),
        Expr::If(_, _, _) => lemma_if_grows(ctx, st, sc, e),
        Expr::Match(_, _) => lemma_match_grows(ctx, st, sc, e),
        Expr::Func(_) => lemma_func_grows(ctx, st, sc, e),
        Expr::Apply(_, _) => lemma_apply_grows(ctx, st, sc, e),
        Expr::Cons(_, _) => lemma_cons_grows(ctx, st, sc, e),
        Expr::LangDef(l) => {
            let d = match l {
                LangDef::IoUnit => ctx.lang.io_unit,
                LangDef::IoBind => ctx.lang.io_bind,
            };
            lemma_instantiate_def_grows(ctx, st, d, e.span);
        },
        Expr::ClassAccess(_, _) => lemma_class_access_grows(ctx, st, sc, e),
        Expr::Intrinsic(name, args) => {
            lemma_lower_exprs_grows(ctx, st, sc, args@, None);
            let (ns, s1) = s_lower_exprs(ctx, st, sc, args@, None);
            lemma_intrinsic_grows(ctx, s1, sc, e.span, name, ns);
            g_trans(st, s1, s_intrinsic(ctx, s1, sc, e.span, name, ns).2);
        },
        Expr::Update(r, fields) => {
            lemma_lower_expr_grows(ctx, st, sc, r);
            let (rn, s1) = s_lower_expr(ctx, st, sc, r);
            lemma_lower_updates_grows(ctx, s1, sc, fields@, rn.meta.ty);
            g_trans(st, s1, s_lower_updates(ctx, s1, sc, fields@, rn.meta.ty).1);
        },
        Expr::Block(_, _) => lemma_block_grows(ctx, st, sc, e),
        Expr::Handle { .. } => lemma_handle_grows(ctx, st, sc, e),
    }
}

proof fn lemma_local_grows(ctx: LowerCtx, st: StateV, sc: ScopeV, e: SrcNode<Expr>)
    requires
        *e.inner is Local,
    ensures
        grows(st, s_lower_kind(ctx, st, sc, e).3),
    decreases e, 1nat, 0int,
{
    if let Expr::Local(x) = *e.inner {
        g_find(sc, st, e.span, x@);
        let (f, s1) = s_find(sc, st, e.span, x@);
        if f is None {
            match lookup(ctx.defs@, x@) {
                Some(d) => {
                    lemma_instantiate_def_grows(ctx, s1, DefId(d as usize), e.span);
                    g_trans(st, s1, s_instantiate_def(ctx, s1, DefId(d as usize), e.span).2);
                },
                None => {
                    let err = LowerError::NoSuchLocal(SrcNode { inner: Box::new(x), span: e.span });
                    g_error(s1, err);
                    g_trans(st, s1, s_error(s1, err));
                },
            }
        }
    }
}

proof fn lemma_list_grows(ctx: LowerCtx, st: StateV, sc: ScopeV, e: SrcNode<Expr>)
    requires
        *e.inner is List,
    ensures
        grows(st, s_lower_kind(ctx, st, sc, e).3),
    decreases e, 1nat, 0int,
{
    if let Expr::List(items, tails) = *e.inner {
        let (item_ty, s1) = s_insert(st, e.span, TyInfoV::Unknown(None));
        g_insert(st, e.span, TyInfoV::Unknown(None));
        let (list_ty, s2) = s_insert(s1, e.span, TyInfoV::List(item_ty));
        g_insert(s1, e.span, TyInfoV::List(item_ty));
        lemma_lower_exprs_grows(ctx, s2, sc, items@, Some(item_ty));
        let (ns, s3) = s_lower_exprs(ctx, s2, sc, items@, Some(item_ty));
        lemma_lower_exprs_grows(ctx, s3, sc, tails@, Some(list_ty));
        let s4 = s_lower_exprs(ctx, s3, sc, tails@, Some(list_ty)).1;
        g_trans(st, s1, s2);
        g_trans(st, s2, s3);
        g_trans(st, s3, s4);
    }
}

proof fn lemma_access_grows(ctx: LowerCtx, st: StateV, sc: ScopeV, e: SrcNode<Expr>)
    requires
        *e.inner is Access,
    ensures
        grows(st, s_lower_kind(ctx, st, sc, e).3),
    decreases e, 1nat, 0int,
{
    if let Expr::Access(r, f) = *e.inner {
        lemma_lower_expr_grows(ctx, st, sc, r);
        let (rn, s1) = s_lower_expr(ctx, st, sc, r);
        g_insert(s1, e.span, TyInfoV::Unknown(None));
        let (ft, s2) = s_insert(s1, e.span, TyInfoV::Unknown(None));
        let d = DemandV::Access(rn.meta.ty, (*f.inner)@, ft);
        g_demand(s2, d);
        g_trans(st, s1, s2);
        g_trans(st, s2, s_demand(s2, d));
    }
}

proof fn lemma_unary_grows(ctx: LowerCtx, st: StateV, sc: ScopeV, e: SrcNode<Expr>)
    requires
        *e.inner is Unary,
    ensures
        grows(st, s_lower_kind(ctx, st, sc, e).3),
    decreases e, 1nat, 0int,
{
    if let Expr::Unary(op, a) = *e.inner {
        lemma_lower_expr_grows(ctx, st, sc, a);
        let (an, s1) = s_lower_expr(ctx, st, sc, a);
        g_insert(s1, e.span, TyInfoV::Unknown(None));
        let (out, s2) = s_insert(s1, e.span, TyInfoV::Unknown(None));
        g_trans(st, s1, s2);
        if *op.inner == UnaryOp::Propagate {
            g_basin(sc, s2, op.span, an.meta.span);
            let (eff, s3) = s_basin(sc, s2, op.span, an.meta.span);
            g_insert(s3, an.meta.span, TyInfoV::Effect(eff, out));
            let (eo, s4) = s_insert(s3, an.meta.span, TyInfoV::Effect(eff, out));
            g_flow(s4, an.meta.ty, eo);
            g_trans(st, s2, s3);
            g_trans(st, s3, s4);
            g_trans(st, s4, s_flow(s4, an.meta.ty, eo));
        } else {
            g_insert(s2, op.span, TyInfoV::Func(an.meta.ty, out));
            let (func, s3) = s_insert(s2, op.span, TyInfoV::Func(an.meta.ty, out));
            let (class, field) = if *op.inner == UnaryOp::Not {
                (ctx.classes.not, ("not"@, e.span))
            } else {
                (ctx.classes.neg, ("neg"@, op.span))
            };
            let d = DemandV::ClassField(an.meta.ty, field.0, class, func);
            g_demand(s3, d);
            g_trans(st, s2, s3);
            g_trans(st, s3, s_demand(s3, d));
        }
    }
}

proof fn lemma_binary_grows(ctx: LowerCtx, st: StateV, sc: ScopeV, e: SrcNode<Expr>)
    requires
        *e.inner is Binary,
    ensures
        grows(st, s_lower_kind(ctx, st, sc, e).3),
    decreases e, 1nat, 0int,
{
    if let Expr::Binary(op, a, b) = *e.inner {
        lemma_lower_expr_grows(ctx, st, sc, a);
        let (an, s1) = s_lower_expr(ctx, st, sc, a);
        lemma_lower_expr_grows(ctx, s1, sc, b);
        let (bn, s2) = s_lower_expr(ctx, s1, sc, b);
        g_insert(s2, e.span, TyInfoV::Unknown(None));
        let (out, s3) = s_insert(s2, e.span, TyInfoV::Unknown(None));
        g_trans(st, s1, s2);
        g_trans(st, s2, s3);
        if *op.inner == BinaryOp::Eq {
            g_insert(s3, op.span, TyInfoV::Func(bn.meta.ty, out));
            let (f2, s4) = s_insert(s3, op.span, TyInfoV::Func(bn.meta.ty, out));
            g_insert(s4, op.span, TyInfoV::Func(an.meta.ty, f2));
            let (f, s5) = s_insert(s4, op.span, TyInfoV::Func(an.meta.ty, f2));
            g_flow(s5, an.meta.ty, bn.meta.ty);
            let s5a = s_flow(s5, an.meta.ty, bn.meta.ty);
            g_flow(s5a, bn.meta.ty, an.meta.ty);
            let s6 = s_flow(s5a, bn.meta.ty, an.meta.ty);
            let d = DemandV::ClassField(an.meta.ty, "eq"@, ctx.classes.eq, f);
            g_demand(s6, d);
            g_trans(st, s3, s4);
            g_trans(st, s4, s5);
            g_trans(st, s5, s5a);
            g_trans(st, s5a, s6);
            g_trans(st, s6, s_demand(s6, d));
        } else {
            let d = DemandV::Binary(*op.inner, an.meta.ty, bn.meta.ty, out);
            g_demand(s3, d);
            g_trans(st, s3, s_demand(s3, d));
        }
    }
}

proof fn lemma_if_grows(ctx: LowerCtx, st: StateV, sc: ScopeV, e: SrcNode<Expr>)
    requires
        *e.inner is If,
    ensures
        grows(st, s_lower_kind(ctx, st, sc, e).3),
    decreases e, 1nat, 0int,
{
    if let Expr::If(p, a, b) = *e.inner {
        g_insert(st, p.span, TyInfoV::Prim(crate::ty::Prim::Bool));
        let (pt, s1) = s_insert(st, p.span, TyInfoV::Prim(crate::ty::Prim::Bool));
        g_insert(s1, e.span, TyInfoV::Unknown(None));
        let (out, s2) = s_insert(s1, e.span, TyInfoV::Unknown(None));
        lemma_lower_expr_grows(ctx, s2, sc, p);
        let (pn, s3) = s_lower_expr(ctx, s2, sc, p);
        g_flow(s3, pn.meta.ty, pt);
        let s4 = s_flow(s3, pn.meta.ty, pt);
        lemma_lower_expr_grows(ctx, s4, sc, a);
        let (an, s5) = s_lower_expr(ctx, s4, sc, a);
        lemma_lower_expr_grows(ctx, s5, sc, b);
        let (bn, s6) = s_lower_expr(ctx, s5, sc, b);
        g_flow(s6, an.meta.ty, out);
        let s6a = s_flow(s6, an.meta.ty, out);
        g_flow(s6a, bn.meta.ty, out);
        g_trans(st, s1, s2);
        g_trans(st, s2, s3);
        g_trans(st, s3, s4);
        g_trans(st, s4, s5);
        g_trans(st, s5, s6);
        g_trans(st, s6, s6a);
        g_trans(st, s6a, s_flow(s6a, bn.meta.ty, out));
    }
}

proof fn lemma_match_grows(ctx: LowerCtx, st: StateV, sc: ScopeV, e: SrcNode<Expr>)
    requires
        *e.inner is Match,
    ensures
        grows(st, s_lower_kind(ctx, st, sc, e).3),
    decreases e, 1nat, 0int,
{
    if let Expr::Match(preds, arms) = *e.inner {
        let n = (*preds.inner)@.len();
        lemma_arity_errors_grows(st, arms@, n, preds.span);
        let s1 = s_arity_errors(st, arms@, n, preds.span);
        if !wrong_arity(arms@, n) {
            lemma_tupleify_expr_grows(ctx, s1, sc, preds);
            let (pn, s2) = s_tupleify_expr(ctx, s1, sc, preds);
            g_insert(s2, e.span, TyInfoV::Unknown(None));
            let (out, s3) = s_insert(s2, e.span, TyInfoV::Unknown(None));
            lemma_lower_arms_grows(ctx, s3, sc, arms@, pn.meta.ty, out);
            g_trans(st, s1, s2);
            g_trans(st, s2, s3);
            g_trans(st, s3, s_lower_arms(ctx, s3, sc, arms@, pn.meta.ty, out).1);
        }
    }
}

proof fn lemma_func_grows(ctx: LowerCtx, st: StateV, sc: ScopeV, e: SrcNode<Expr>)
    requires
        *e.inner is Func,
    ensures
        grows(st, s_lower_kind(ctx, st, sc, e).3),
    decreases e, 1nat, 0int,
{
    if let Expr::Func(arms) = *e.inner {
        let span = e.span;
        if arms@.len() == 0 {
            g_error(st, LowerError::NoBranches(span));
        } else {
            let first = arms@[0];
            let n = (*first.0.inner)@.len();
            lemma_arity_errors_grows(st, arms@, n, first.0.span);
            let s1 = s_arity_errors(st, arms@, n, first.0.span);
            if !wrong_arity(arms@, n) {
                let out_span = if arms@.len() == 1 { arms@[0].1.span } else { span };
                g_insert(s1, out_span, TyInfoV::Unknown(None));
                let (out, s2) = s_insert(s1, out_span, TyInfoV::Unknown(None));
                lemma_param_tys_grows(s2, (*first.0.inner)@);
                let (ptys, s3) = s_param_tys(s2, (*first.0.inner)@);
                lemma_param_refs_grows(s3, span, ptys);
                let (refs, s4) = s_param_refs(s3, span, ptys);
                g_insert(s4, span, TyInfoV::Tuple(refs));
                let (tt, s5) = s_insert(s4, span, TyInfoV::Tuple(refs));
                let pred = ENodeV { expr: crate::hir::ExprV::Tuple(param_nodes(span, refs)), meta: Meta { span, ty: tt } };
                lemma_lower_arms_grows(ctx, s5, sc, arms@, tt, out);
                let (ans, s6) = s_lower_arms(ctx, s5, sc, arms@, tt, out);
                let body = ENodeV { expr: crate::hir::ExprV::Match(true, Box::new(pred), ans), meta: Meta { span, ty: out } };
                lemma_wrap_funcs_grows(s6, span, ptys, body, pred.meta);
                g_trans(st, s1, s2);
                g_trans(st, s2, s3);
                g_trans(st, s3, s4);
                g_trans(st, s4, s5);
                g_trans(st, s5, s6);
                g_trans(st, s6, s_wrap_funcs(s6, span, ptys, body, pred.meta).1);
            }
        }
    }
}

proof fn lemma_apply_grows(ctx: LowerCtx, st: StateV, sc: ScopeV, e: SrcNode<Expr>)
    requires
        *e.inner is Apply,
    ensures
        grows(st, s_lower_kind(ctx, st, sc, e).3),
    decreases e, 1nat, 0int,
{
    if let Expr::Apply(f, a) = *e.inner {
        lemma_lower_expr_grows(ctx, st, sc, f);
        let (fnode, s1) = s_lower_expr(ctx, st, sc, f);
        lemma_lower_expr_grows(ctx, s1, sc, a);
        let (an, s2) = s_lower_expr(ctx, s1, sc, a);
        g_insert(s2, an.meta.span, TyInfoV::Unknown(None));
        let (input, s3) = s_insert(s2, an.meta.span, TyInfoV::Unknown(None));
        g_insert(s3, e.span, TyInfoV::Unknown(None));
        let (out, s4) = s_insert(s3, e.span, TyInfoV::Unknown(None));
        g_insert(s4, fnode.meta.span, TyInfoV::Func(input, out));
        let (func, s5) = s_insert(s4, fnode.meta.span, TyInfoV::Func(input, out));
        g_flow(s5, fnode.meta.ty, func);
        let s5a = s_flow(s5, fnode.meta.ty, func);
        g_flow(s5a, an.meta.ty, input);
        g_trans(st, s1, s2);
        g_trans(st, s2, s3);
        g_trans(st, s3, s4);
        g_trans(st, s4, s5);
        g_trans(st, s5, s5a);
        g_trans(st, s5a, s_flow(s5a, an.meta.ty, input));
    }
}

proof fn lemma_cons_grows(ctx: LowerCtx, st: StateV, sc: ScopeV, e: SrcNode<Expr>)
    requires
        *e.inner is Cons,
    ensures
        grows(st, s_lower_kind(ctx, st, sc, e).3),
    decreases e, 1nat, 0int,
{
    if let Expr::Cons(name, inner) = *e.inner {
        let span = e.span;
        match lookup(ctx.conses@, (*name.inner)@) {
            Some(c) => {
                let cons = ctx.conses@[c as int];
                let decl = ctx.datas@[cons.data.id() as int];
                lemma_fresh_generics_grows(st, span, decl.generics.params@);
                let (gens, s1) = s_fresh_generics(st, span, decl.generics.params@);
                let reqs = crate::lower::requests(gens, crate::lower::obligations_of(decl.generics), span);
                g_impls(s1, reqs);
                let s2 = s_impls(s1, reqs);
                g_insert(s2, name.span, TyInfoV::Instance(cons.ty, gens));
                let (actual, s3) = s_insert(s2, name.span, TyInfoV::Instance(cons.ty, gens));
                g_insert(s3, span, TyInfoV::Unknown(None));
                let (it, s4) = s_insert(s3, span, TyInfoV::Unknown(None));
                g_flow(s4, it, actual);
                let s5 = s_flow(s4, it, actual);
                lemma_lower_expr_grows(ctx, s5, sc, inner);
                let (inn, s6) = s_lower_expr(ctx, s5, sc, inner);
                g_flow(s6, inn.meta.ty, it);
                g_trans(st, s1, s2);
                g_trans(st, s2, s3);
                g_trans(st, s3, s4);
                g_trans(st, s4, s5);
                g_trans(st, s5, s6);
                g_trans(st, s6, s_flow(s6, inn.meta.ty, it));
            },
            None => g_error(st, LowerError::NoSuchCons(name)),
        }
    }
}

proof fn lemma_class_access_grows(ctx: LowerCtx, st: StateV, sc: ScopeV, e: SrcNode<Expr>)
    requires
        *e.inner is ClassAccess,
    ensures
        grows(st, s_lower_kind(ctx, st, sc, e).3),
    decreases e, 1nat, 0int,
{
    if let Expr::ClassAccess(ty, field) = *e.inner {
        lemma_lower_type_grows(ctx, st, ty);
        let (t, s1) = s_lower_type(ctx, st, ty);
        g_insert(s1, field.span, TyInfoV::Unknown(None));
        let (ft, s2) = s_insert(s1, field.span, TyInfoV::Unknown(None));
        let d = DemandV::ClassMember(t, (*field.inner)@, ft);
        g_demand(s2, d);
        g_trans(st, s1, s2);
        g_trans(st, s2, s_demand(s2, d));
    }
}

proof fn lemma_block_grows(ctx: LowerCtx, st: StateV, sc: ScopeV, e: SrcNode<Expr>)
    requires
        *e.inner is Block,
    ensures
        grows(st, s_lower_kind(ctx, st, sc, e).3),
    decreases e, 1nat, 0int,
{
    if let Expr::Block(init, last) = *e.inner {
        g_effect(st, e.span, EffectInfoV::Unknown);
        let (eff, s1) = s_insert_effect(st, e.span, EffectInfoV::Unknown);
        lemma_lower_exprs_grows(ctx, s1, with_basin_v(sc, eff), init@, None);
        let (ns, s2) = s_lower_exprs(ctx, s1, with_basin_v(sc, eff), init@, None);
        lemma_lower_expr_grows(ctx, s2, with_basin_v(sc, eff), last);
        g_trans(st, s1, s2);
        g_trans(st, s2, s_lower_expr(ctx, s2, with_basin_v(sc, eff), last).1);
    }
}

proof fn lemma_handle_grows(ctx: LowerCtx, st: StateV, sc: ScopeV, e: SrcNode<Expr>)
    requires
        *e.inner is Handle,
    ensures
        grows(st, s_lower_kind(ctx, st, sc, e).3),
    decreases e, 1nat, 0int,
{
    if let Expr::Handle { expr, eff_name, eff_args, send, recv } = *e.inner {
        lemma_lower_expr_grows(ctx, st, sc, expr);
        let (xn, s1) = s_lower_expr(ctx, st, sc, expr);
        lemma_lower_binding_grows(ctx, s1, send);
        let (sv, s2) = s_lower_binding(ctx, s1, send);
        lemma_lower_expr_grows(ctx, s2, push_frame(sc, binding_locals(sv)), recv);
        let (rn, s3) = s_lower_expr(ctx, s2, push_frame(sc, binding_locals(sv)), recv);
        lemma_lower_types_grows(ctx, s3, eff_args@);
        let (args, s4) = s_lower_types(ctx, s3, eff_args@);
        g_insert(s4, e.span, TyInfoV::Unknown(None));
        let (out, s5) = s_insert(s4, e.span, TyInfoV::Unknown(None));
        lemma_handle_step_grows(ctx, s5, e.span, xn, eff_name, args, sv, rn, out);
        g_trans(st, s1, s2);
        g_trans(st, s2, s3);
        g_trans(st, s3, s4);
        g_trans(st, s4, s5);
        g_trans(st, s5, s_handle(ctx, s5, e.span, xn, eff_name, args, sv, rn, out).2);
    }
}

proof fn lemma_handle_step_grows(
    ctx: LowerCtx,
    st: StateV,
    span: Span,
    xn: ENodeV,
    name: SrcNode<Ident>,
    args: Seq<TyVar>,
    sv: crate::hir::BindingV,
    rn: ENodeV,
    out: TyVar,
)
    ensures
        grows(st, s_handle(ctx, st, span, xn, name, args, sv, rn, out).2),
{
    match lookup(ctx.effects@, (*name.inner)@) {
        Some(e) => {
            let decl = ctx.effects@[e as int];
            if decl.generics.params@.len() != args.len() {
                let err = LowerError::WrongNumberOfGenerics(
                    span,
                    args.len() as usize,
                    if decl.generics.params@.len() == 0 { decl.name.span } else { decl.generics.span },
                    decl.generics.params@.len() as usize,
                );
                g_error(st, err);
            } else {
                let reqs = crate::lower::requests(args, crate::lower::obligations_of(decl.generics), span);
                g_impls(st, reqs);
                let s1 = s_impls(st, reqs);
                let info = EffectInfoV::Known(crate::infer::EffectId(e as usize), args);
                g_effect(s1, span, info);
                let (eff, s2) = s_insert_effect(s1, span, info);
                let d = DemandV::SendRecv(eff, sv.meta.ty, rn.meta.ty);
                g_demand(s2, d);
                let s3 = s_demand(s2, d);
                g_insert(s3, xn.meta.span, TyInfoV::Effect(eff, out));
                let (eo, s4) = s_insert(s3, xn.meta.span, TyInfoV::Effect(eff, out));
                g_flow(s4, xn.meta.ty, eo);
                g_trans(st, s1, s2);
                g_trans(st, s2, s3);
                g_trans(st, s3, s4);
                g_trans(st, s4, s_flow(s4, xn.meta.ty, eo));
            }
        },
        None => g_error(st, LowerError::NoSuchEffect(name)),
    }
}

proof fn g_insert_flow(st: StateV, span: Span, info: TyInfoV, a: TyVar)
    ensures
        grows(st, s_flow(s_insert(st, span, info).1, a, s_insert(st, span, info).0)),
{
    g_insert(st, span, info);
    g_flow(s_insert(st, span, info).1, a, s_insert(st, span, info).0);
    g_trans(st, s_insert(st, span, info).1, s_flow(s_insert(st, span, info).1, a, s_insert(st, span, info).0));
}

#[verifier::rlimit(100)]
proof fn lemma_intrinsic_grows(ctx: LowerCtx, st: StateV, sc: ScopeV, span: Span, name: SrcNode<Ident>, args: Seq<ENodeV>)
    ensures
        grows(st, s_intrinsic(ctx, st, sc, span, name, args).2),
{
    let r = s_intrinsic(ctx, st, sc, span, name, args).2;
    let n = (*name.inner)@;
    let len = args.len();
    if n == "type_name"@ && len == 1 {
        let (item, s1) = s_insert(st, args[0].meta.span, TyInfoV::Unknown(None));
        g_insert(st, args[0].meta.span, TyInfoV::Unknown(None));
        g_insert_flow(s1, args[0].meta.span, TyInfoV::List(item), args[0].meta.ty);
        let (list, s2) = s_insert(s1, args[0].meta.span, TyInfoV::List(item));
        let s3 = s_flow(s2, args[0].meta.ty, list);
        g_insert(s3, name.span, TyInfoV::Prim(Prim::Char));
        g_trans(st, s1, s3);
        g_trans(st, s3, r);
    } else if (n == "neg_nat"@ || n == "neg_int"@ || n == "neg_real"@) && len == 1 {
        let p = if n == "neg_nat"@ { Prim::Nat } else if n == "neg_int"@ { Prim::Int } else { Prim::Num };
        g_insert_flow(st, args[0].meta.span, TyInfoV::Prim(p), args[0].meta.ty);
    } else if (n == "eq_char"@ || n == "eq_nat"@) && len == 2 {
        let p = if n == "eq_char"@ { Prim::Char } else { Prim::Nat };
        g_insert_flow(st, args[0].meta.span, TyInfoV::Prim(p), args[0].meta.ty);
        let (t, s1) = s_insert(st, args[0].meta.span, TyInfoV::Prim(p));
        let s1a = s_flow(s1, args[0].meta.ty, t);
        g_flow(s1a, args[1].meta.ty, t);
        g_trans(st, s1a, r);
    } else if n == "go"@ && len == 2 {
        match ctx.lang.go {
            Some(g) => {
                let c = args[1].meta.ty;
                g_insert(st, span, TyInfoV::Unknown(None));
                let (rv, s1) = s_insert(st, span, TyInfoV::Unknown(None));
                g_insert(s1, args[0].meta.span, TyInfoV::Data(g, seq![c, rv]));
                let (ret, s2) = s_insert(s1, args[0].meta.span, TyInfoV::Data(g, seq![c, rv]));
                g_insert_flow(s2, args[0].meta.span, TyInfoV::Func(c, ret), args[0].meta.ty);
                g_trans(st, s1, s2);
                g_trans(st, s2, r);
            },
            None => g_refl(st),
        }
    } else if n == "print"@ && len == 2 {
        g_insert_flow(st, args[0].meta.span, TyInfoV::Prim(Prim::Universe), args[0].meta.ty);
        let (u, s1) = s_insert(st, args[0].meta.span, TyInfoV::Prim(Prim::Universe));
        let s2 = s_flow(s1, args[0].meta.ty, u);
        g_insert(s2, args[1].meta.span, TyInfoV::Prim(Prim::Char));
        let (c, s3) = s_insert(s2, args[1].meta.span, TyInfoV::Prim(Prim::Char));
        g_insert_flow(s3, args[1].meta.span, TyInfoV::List(c), args[1].meta.ty);
        g_trans(st, s2, s3);
        g_trans(st, s3, r);
    } else if n == "input"@ && len == 1 {
        g_insert_flow(st, args[0].meta.span, TyInfoV::Prim(Prim::Universe), args[0].meta.ty);
        let (u, s1) = s_insert(st, args[0].meta.span, TyInfoV::Prim(Prim::Universe));
        let s2 = s_flow(s1, args[0].meta.ty, u);
        g_insert(s2, span, TyInfoV::Prim(Prim::Char));
        let (c, s3) = s_insert(s2, span, TyInfoV::Prim(Prim::Char));
        g_insert(s3, span, TyInfoV::List(c));
        g_trans(st, s2, s3);
        g_trans(st, s3, r);
    } else if n == "len_list"@ && len == 1 {
        g_insert(st, args[0].meta.span, TyInfoV::Unknown(None));
        let (item, s1) = s_insert(st, args[0].meta.span, TyInfoV::Unknown(None));
        g_insert_flow(s1, args[0].meta.span, TyInfoV::List(item), args[0].meta.ty);
        g_trans(st, s1, r);
    } else if (n == "skip_list"@ || n == "trim_list"@) && len == 2 {
        g_insert(st, args[0].meta.span, TyInfoV::Unknown(None));
        let (item, s1) = s_insert(st, args[0].meta.span, TyInfoV::Unknown(None));
        g_insert_flow(s1, args[0].meta.span, TyInfoV::List(item), args[0].meta.ty);
        let (list, s2) = s_insert(s1, args[0].meta.span, TyInfoV::List(item));
        let s3 = s_flow(s2, args[0].meta.ty, list);
        g_insert_flow(s3, args[1].meta.span, TyInfoV::Prim(Prim::Nat), args[1].meta.ty);
        g_trans(st, s1, s3);
        g_trans(st, s3, r);
    } else if n == "suspend"@ && len == 1 {
        g_insert(st, span, TyInfoV::Unknown(None));
        let (out, s1) = s_insert(st, span, TyInfoV::Unknown(None));
        g_basin(sc, s1, name.span, args[0].meta.span);
        let (eff, s2) = s_basin(sc, s1, name.span, args[0].meta.span);
        g_demand(s2, DemandV::SendRecv(eff, args[0].meta.ty, out));
        g_trans(st, s1, s2);
        g_trans(st, s2, r);
    } else {
        g_error(st, LowerError::InvalidIntrinsic(name));
    }
}

proof fn lemma_lower_updates_grows(ctx: LowerCtx, st: StateV, sc: ScopeV, fields: Seq<(SrcNode<Ident>, SrcNode<Expr>)>, rty: TyVar)
    ensures
        grows(st, s_lower_updates(ctx, st, sc, fields, rty).1),
    decreases fields, 0nat, 0int,
{
    if fields.len() > 0 {
        lemma_lower_updates_grows(ctx, st, sc, fields.drop_last(), rty);
        let (fs, s1) = s_lower_updates(ctx, st, sc, fields.drop_last(), rty);
        lemma_lower_expr_grows(ctx, s1, sc, fields.last().1);
        let (n, s2) = s_lower_expr(ctx, s1, sc, fields.last().1);
        let d = DemandV::Update(rty, (*fields.last().0.inner)@, n.meta.ty);
        g_demand(s2, d);
        g_trans(st, s1, s2);
        g_trans(st, s2, s_demand(s2, d));
    }
}

proof fn lemma_lower_lets_grows(ctx: LowerCtx, st: StateV, sc: ScopeV, e: SrcNode<Expr>, i: int)
    ensures
        grows(st, s_lower_lets(ctx, st, sc, e, i).1),
    decreases e, 0nat, let_count(e) - i,
{
    match *e.inner {
        Expr::Let(lets, then) => if 0 <= i < lets@.len() {
            lemma_lower_binding_grows(ctx, st, lets@[i].0);
            let (bv, s1) = s_lower_binding(ctx, st, lets@[i].0);
            lemma_lower_expr_grows(ctx, s1, sc, lets@[i].1);
            let (vn, s2) = s_lower_expr(ctx, s1, sc, lets@[i].1);
            let s3 = s_flow(s2, vn.meta.ty, bv.meta.ty);
            lemma_lower_lets_grows(ctx, s3, push_frame(sc, binding_locals(bv)), e, i + 1);
        } else {
            lemma_lower_expr_grows(ctx, st, sc, then);
        },
        _ => {},
    }
}

proof fn lemma_lower_exprs_grows(ctx: LowerCtx, st: StateV, sc: ScopeV, items: Seq<SrcNode<Expr>>, into: Option<TyVar>)
    ensures
        grows(st, s_lower_exprs(ctx, st, sc, items, into).1),
    decreases items, 0nat, 0int,
{
    if items.len() > 0 {
        lemma_lower_exprs_grows(ctx, st, sc, items.drop_last(), into);
        lemma_lower_expr_grows(ctx, s_lower_exprs(ctx, st, sc, items.drop_last(), into).1, sc, items.last());
    }
}

proof fn lemma_lower_efields_grows(ctx: LowerCtx, st: StateV, sc: ScopeV, fields: Seq<(SrcNode<Ident>, SrcNode<Expr>)>)
    ensures
        grows(st, s_lower_efields(ctx, st, sc, fields).1),
    decreases fields, 0nat, 0int,
{
    if fields.len() > 0 {
        lemma_lower_efields_grows(ctx, st, sc, fields.drop_last());
        lemma_lower_expr_grows(ctx, s_lower_efields(ctx, st, sc, fields.drop_last()).1, sc, fields.last().1);
    }
}

proof fn lemma_tupleify_expr_grows(ctx: LowerCtx, st: StateV, sc: ScopeV, items: SrcNode<Vec<SrcNode<Expr>>>)
    ensures
        grows(st, s_tupleify_expr(ctx, st, sc, items).1),
    decreases items, 0nat, 0int,
{
    lemma_lower_exprs_grows(ctx, st, sc, (*items.inner)@, None);
}

proof fn lemma_lower_arms_grows(ctx: LowerCtx, st: StateV, sc: ScopeV, arms: Seq<Branch>, pred_ty: TyVar, out: TyVar)
    ensures
        grows(st, s_lower_arms(ctx, st, sc, arms, pred_ty, out).1),
    decreases arms, 0nat, 0int,
{
    if arms.len() > 0 {
        lemma_lower_arms_grows(ctx, st, sc, arms.drop_last(), pred_ty, out);
        let (ans, s1) = s_lower_arms(ctx, st, sc, arms.drop_last(), pred_ty, out);
        let arm = arms.last();
        lemma_tupleify_binding_grows(ctx, s1, arm.0);
        let (bv, s2) = s_tupleify_binding(ctx, s1, arm.0);
        let s3 = s_flow(s2, pred_ty, bv.meta.ty);
        lemma_lower_expr_grows(ctx, s3, push_frame(sc, binding_locals(bv)), arm.1);
    }
}


/// A written type becomes the last variable made while lowering it, at the
/// type's span, and the shape of what is written is kept: a list type is a
/// list of its item's variable, a function type takes its input's variable to
/// its output's, a tuple type has one variable per element, the type of all
/// types is that primitive and a type left unwritten is unknown.
pub proof fn lemma_type_shapes_lower(ctx: LowerCtx, st: StateV, t: SrcNode<Type>)
    ensures
        ({
            let s = s_lower_type(ctx, st, t).1;
            &&& s.vars.len() > 0
            &&& s.vars.last().0 == t.span
            &&& (*t.inner is List ==> s.vars.last().1 == TyInfoV::List(s_lower_type(ctx, st, (*t.inner)->List_0).0))
            &&& (*t.inner is Func ==> s.vars.last().1 == TyInfoV::Func(
                s_lower_type(ctx, st, (*t.inner)->Func_0).0,
                s_lower_type(ctx, s_lower_type(ctx, st, (*t.inner)->Func_0).1, (*t.inner)->Func_1).0,
            ))
            &&& (*t.inner is Tuple ==> s.vars.last().1 is Tuple && s.vars.last().1->Tuple_0.len() == ((*t.inner)->Tuple_0)@.len())
            &&& (*t.inner is Universe ==> s.vars.last().1 == TyInfoV::Prim(Prim::Universe))
            &&& (*t.inner is Unknown ==> s.vars.last().1 == TyInfoV::Unknown(None))
        }),
{
    lemma_lower_type_grows(ctx, st, t);
    if let Type::Tuple(items) = *t.inner {
        lemma_lower_types_len(ctx, st, items@);
    }
}

proof fn lemma_lower_types_len(ctx: LowerCtx, st: StateV, items: Seq<SrcNode<Type>>)
    ensures
        s_lower_types(ctx, st, items).0.len() == items.len(),
    decreases items,
{
    if items.len() > 0 {
        lemma_lower_types_len(ctx, st, items.drop_last());
    }
}

} // verus!
