use vstd::prelude::*;
use vstd::string::*;

use crate::ast::{BinaryOp, Branch, Expr, LangDef, LiteralV, UnaryOp};
use crate::lower::types::{lower_type, lower_types, s_lower_type, s_lower_types};
use crate::ty::Prim;
use crate::lower::{with_basin_v, EffectVar};
use crate::hir;
use crate::hir::{hbinding_v, henode_v, sname_v, BindingV, ENodeV, ExprV, Meta, PatV};
use crate::ident::Ident;
use crate::infer::{ErrorReason, s_insert_effect, EffectId, EffectInfo, EffectInfoV,
    copy_vars, lookup, position, s_demand, s_error, s_flow, s_impls, s_insert, DemandV, LowerCtx, LowerState, StateV,
    TyInfo, TyInfoV,
};
use crate::lower::bindings::{
    binding_locals, fresh_generics, locals, lower_binding, s_fresh_generics, s_lower_binding, s_tupleify_binding,
    tupleify_binding,
};
use crate::lower::{
    enforce_generic_obligations, lemma_resolve_v, litr_ty_info, obligations_of, push_frame, requests, s_find,
    s_litr_ty_info, scope_v, DefId, ImplRequest, LowerError, Scope, ScopeV, TyVar,
};
use crate::span::{Span, SrcNode};
use crate::text::{nat_string, nat_text};

verus! {

/// The type variable of a lowered node.
pub open spec fn node_ty(n: ENodeV) -> TyVar {
    n.meta.ty
}

/// The pattern matching the boolean `b`, with the given meta, as an `if` lowers to.
pub open spec fn bool_pat(b: bool, m: Meta) -> BindingV {
    BindingV { pat: PatV::Literal(LiteralV::Bool(b)), pat_span: m.span, name: None, meta: m }
}

/// A demand of a generic definition, made where it is used, the other way round:
/// the obligation's span first, then that of the use.
pub open spec fn swap_spans(r: ImplRequest) -> ImplRequest {
    ImplRequest { ty: r.ty, class: r.class, use_span: r.obligation_span, obligation_span: r.use_span }
}

/// Using the definition `def` at `span`: new variables for its generic
/// parameters, whose obligations become demands, and its declared type
/// instantiated with them; an error where its type is not known.
pub open spec fn s_instantiate_def(ctx: LowerCtx, st: StateV, def: DefId, span: Span) -> (TyInfoV, ExprV, StateV) {
    let decl = ctx.defs@[def.0 as int];
    let (gens, s1) = s_fresh_generics(st, span, decl.generics.params@);
    let s2 = s_impls(s1, requests(gens, obligations_of(decl.generics), span).map_values(|r: ImplRequest| swap_spans(r)));
    match decl.ty {
        Some(t) => {
            let (actual, s3) = s_insert(s2, span, TyInfoV::Instance(t, gens));
            let (dt, s4) = s_insert(s3, span, TyInfoV::Unknown(None));
            (TyInfoV::Ref(dt), ExprV::Global(def, gens.map_values(|g: TyVar| (span, g))), s_flow(s4, actual, dt))
        },
        None => (TyInfoV::Error(ErrorReason::Unknown), ExprV::Error, s_error(s2, LowerError::DefTypeNotSpecified(decl.name.span, span, *decl.name.inner))),
    }
}

/// Whether some branch has a number of patterns other than `n`.
pub open spec fn wrong_arity(arms: Seq<Branch>, n: nat) -> bool {
    exists|i: int| 0 <= i < arms.len() && (*(#[trigger] arms[i]).0.inner)@.len() != n
}

/// The errors for the branches that have a number of patterns other than the
/// `n` expected at `at`, in order.
pub open spec fn s_arity_errors(st: StateV, arms: Seq<Branch>, n: nat, at: Span) -> StateV
    decreases arms.len(),
{
    if arms.len() == 0 {
        st
    } else {
        let s1 = s_arity_errors(st, arms.drop_last(), n, at);
        let arm = arms.last();
        if (*arm.0.inner)@.len() != n {
            s_error(s1, LowerError::WrongNumberOfParams(arm.0.span, (*arm.0.inner)@.len() as usize, at, n as usize))
        } else {
            s1
        }
    }
}

/// New variables for the parameters of a function, each at the span of the
/// corresponding pattern of its first branch.
pub open spec fn s_param_tys(st: StateV, pats: Seq<SrcNode<crate::ast::Binding>>) -> (Seq<TyVar>, StateV)
    decreases pats.len(),
{
    if pats.len() == 0 {
        (Seq::empty(), st)
    } else {
        let (vs, s1) = s_param_tys(st, pats.drop_last());
        let (v, s2) = s_insert(s1, pats.last().span, TyInfoV::Unknown(None));
        (vs.push(v), s2)
    }
}

/// The uses, at `span`, of the parameters of types `ptys`: each a variable that is the parameter's type.
pub open spec fn s_param_refs(st: StateV, span: Span, ptys: Seq<TyVar>) -> (Seq<TyVar>, StateV)
    decreases ptys.len(),
{
    if ptys.len() == 0 {
        (Seq::empty(), st)
    } else {
        let (vs, s1) = s_param_refs(st, span, ptys.drop_last());
        let (v, s2) = s_insert(s1, span, TyInfoV::Ref(ptys.last()));
        (vs.push(v), s2)
    }
}

/// The uses of the parameters: the `i`th is the local named `i`, of type `refs[i]`.
pub open spec fn param_nodes(span: Span, refs: Seq<TyVar>) -> Seq<ENodeV> {
    Seq::new(refs.len(), |i: int| ENodeV { expr: ExprV::Local(nat_text(i as nat)), meta: Meta { span, ty: refs[i] } })
}

/// The body `body` wrapped, innermost last, in a function of each parameter of type `ptys`.
pub open spec fn s_wrap_funcs(st: StateV, span: Span, ptys: Seq<TyVar>, body: ENodeV, pm: Meta) -> (ENodeV, StateV)
    decreases ptys.len(),
{
    if ptys.len() == 0 {
        (body, st)
    } else {
        let (f, s1) = s_insert(st, span, TyInfoV::Func(ptys.last(), body.meta.ty));
        let nb = ENodeV { expr: ExprV::Func(nat_text((ptys.len() - 1) as nat), pm, Box::new(body)), meta: Meta { span, ty: f } };
        s_wrap_funcs(s1, span, ptys.drop_last(), nb, pm)
    }
}

/// How many bindings a `let` expression has.
pub open spec fn let_count(e: SrcNode<Expr>) -> int {
    match *e.inner {
        Expr::Let(lets, _) => lets@.len() as int,
        _ => 0,
    }
}

/// Lowering an expression in the scope `sc`: the lowered node and the state after.
pub open spec fn s_lower_expr(ctx: LowerCtx, st: StateV, sc: ScopeV, e: SrcNode<Expr>) -> (ENodeV, StateV)
    decreases e, 2nat, 0int,
{
    let (info, x, span, s1) = s_lower_kind(ctx, st, sc, e);
    let (v, s2) = s_insert(s1, span, info);
    (ENodeV { expr: x, meta: Meta { span, ty: v } }, s2)
}

/// Lowering an expression: what is known of its type, the lowered expression,
/// the span of the node, and the state after. The type of the node is then a
/// new variable at that span.
pub open spec fn s_lower_kind(ctx: LowerCtx, st: StateV, sc: ScopeV, e: SrcNode<Expr>) -> (TyInfoV, ExprV, Span, StateV)
    decreases e, 1nat, 0int,
{
    let span = e.span;
    match *e.inner {
        Expr::Error => (TyInfoV::Error(ErrorReason::Unknown), ExprV::Error, span, st),
        Expr::Literal(l) => {
            let (i, s1) = s_litr_ty_info(st, l@, span);
            let (v, s2) = s_insert(s1, span, i);
            (TyInfoV::Ref(v), ExprV::Literal(l@), span, s2)
        },
        Expr::Local(x) => {
            let (f, s1) = s_find(sc, st, span, x@);
            match f {
                Some((ty, Some((d, g)))) => (TyInfoV::Ref(ty), ExprV::Global(d, g), span, s1),
                Some((ty, None)) => (TyInfoV::Ref(ty), ExprV::Local(x@), span, s1),
                None => match lookup(ctx.defs@, x@) {
                    Some(d) => {
                        let (i, ex, s2) = s_instantiate_def(ctx, s1, DefId(d as usize), span);
                        (i, ex, span, s2)
                    },
                    None => (TyInfoV::Error(ErrorReason::Unknown), ExprV::Error, span, s_error(s1, LowerError::NoSuchLocal(SrcNode { inner: Box::new(x), span }))),
                },
            }
        },
        Expr::Tuple(items) => {
            let (ns, s1) = s_lower_exprs(ctx, st, sc, items@, None);
            (TyInfoV::Tuple(ns.map_values(|n: ENodeV| n.meta.ty)), ExprV::Tuple(ns), span, s1)
        },
        Expr::Record(fields) => {
            let (fs, s1) = s_lower_efields(ctx, st, sc, fields@);
            (
                TyInfoV::Record(fs.map_values(|f: ((Seq<char>, Span), ENodeV)| (f.0.0, f.1.meta.ty))),
                ExprV::Record(fs),
                span,
                s1,
            )
        },
        Expr::List(items, tails) => {
            let (item_ty, s1) = s_insert(st, span, TyInfoV::Unknown(None));
            let (list_ty, s2) = s_insert(s1, span, TyInfoV::List(item_ty));
            let (ns, s3) = s_lower_exprs(ctx, s2, sc, items@, Some(item_ty));
            let (ts, s4) = s_lower_exprs(ctx, s3, sc, tails@, Some(list_ty));
            (TyInfoV::Ref(list_ty), ExprV::List(ns, ts), span, s4)
        },
        Expr::Access(r, f) => {
            let (rn, s1) = s_lower_expr(ctx, st, sc, r);
            let (ft, s2) = s_insert(s1, span, TyInfoV::Unknown(None));
            (
                TyInfoV::Ref(ft),
                ExprV::Access(Box::new(rn), sname_v(f)),
                span,
                s_demand(s2, DemandV::Access(rn.meta.ty, (*f.inner)@, ft)),
            )
        },
        Expr::Unary(op, a) => {
            let (an, s1) = s_lower_expr(ctx, st, sc, a);
            let (out, s2) = s_insert(s1, span, TyInfoV::Unknown(None));
            if *op.inner == UnaryOp::Propagate {
                let (eff, s3) = s_basin(sc, s2, op.span, an.meta.span);
                let (eo, s4) = s_insert(s3, an.meta.span, TyInfoV::Effect(eff, out));
                (
                    TyInfoV::Ref(out),
                    ExprV::Intrinsic((hir::Intrinsic::Propagate, op.span), seq![an]),
                    span,
                    s_flow(s4, an.meta.ty, eo),
                )
            } else {
                let (func, s3) = s_insert(s2, op.span, TyInfoV::Func(an.meta.ty, out));
                let (class, field) = if *op.inner == UnaryOp::Not {
                    (ctx.classes.not, ("not"@, span))
                } else {
                    (ctx.classes.neg, ("neg"@, op.span))
                };
                let access = ENodeV { expr: ExprV::ClassAccess(an.meta, Some(class), field), meta: Meta { span: op.span, ty: func } };
                (
                    TyInfoV::Ref(out),
                    ExprV::Apply(Box::new(access), Box::new(an)),
                    span,
                    s_demand(s3, DemandV::ClassField(an.meta.ty, field.0, class, func)),
                )
            }
        },
        Expr::Binary(op, a, b) => {
            let (an, s1) = s_lower_expr(ctx, st, sc, a);
            let (bn, s2) = s_lower_expr(ctx, s1, sc, b);
            let (out, s3) = s_insert(s2, span, TyInfoV::Unknown(None));
            if *op.inner == BinaryOp::Eq {
                let (f2, s4) = s_insert(s3, op.span, TyInfoV::Func(bn.meta.ty, out));
                let (f, s5) = s_insert(s4, op.span, TyInfoV::Func(an.meta.ty, f2));
                let s6 = s_flow(s_flow(s5, an.meta.ty, bn.meta.ty), bn.meta.ty, an.meta.ty);
                let field = ("eq"@, span);
                let access = ENodeV { expr: ExprV::ClassAccess(an.meta, Some(ctx.classes.eq), field), meta: Meta { span: op.span, ty: f } };
                let partial = ENodeV { expr: ExprV::Apply(Box::new(access), Box::new(an)), meta: Meta { span, ty: f } };
                (
                    TyInfoV::Ref(out),
                    ExprV::Apply(Box::new(partial), Box::new(bn)),
                    span,
                    s_demand(s6, DemandV::ClassField(an.meta.ty, field.0, ctx.classes.eq, f)),
                )
            } else {
                (
                    TyInfoV::Ref(out),
                    ExprV::Binary((*op.inner, op.span), Box::new(an), Box::new(bn)),
                    span,
                    s_demand(s3, DemandV::Binary(*op.inner, an.meta.ty, bn.meta.ty, out)),
                )
            }
        },
        Expr::Let(_, _) => {
            let (n, s1) = s_lower_lets(ctx, st, sc, e, 0);
            (TyInfoV::Ref(n.meta.ty), n.expr, n.meta.span, s1)
        },
        Expr::If(p, a, b) => {
            let (pt, s1) = s_insert(st, p.span, TyInfoV::Prim(crate::ty::Prim::Bool));
            let (out, s2) = s_insert(s1, span, TyInfoV::Unknown(None));
            let (pn, s3) = s_lower_expr(ctx, s2, sc, p);
            let s4 = s_flow(s3, pn.meta.ty, pt);
            let (an, s5) = s_lower_expr(ctx, s4, sc, a);
            let (bn, s6) = s_lower_expr(ctx, s5, sc, b);
            let s7 = s_flow(s_flow(s6, an.meta.ty, out), bn.meta.ty, out);
            let arms = seq![(bool_pat(true, pn.meta), an), (bool_pat(false, pn.meta), bn)];
            (TyInfoV::Ref(out), ExprV::Match(false, Box::new(pn), arms), span, s7)
        },
        Expr::Match(preds, arms) => {
            let n = (*preds.inner)@.len();
            let s1 = s_arity_errors(st, arms@, n, preds.span);
            if wrong_arity(arms@, n) {
                (TyInfoV::Error(ErrorReason::Unknown), ExprV::Error, span, s1)
            } else {
                let (pn, s2) = s_tupleify_expr(ctx, s1, sc, preds);
                let (out, s3) = s_insert(s2, span, TyInfoV::Unknown(None));
                let (ans, s4) = s_lower_arms(ctx, s3, sc, arms@, pn.meta.ty, out);
                (TyInfoV::Ref(out), ExprV::Match(true, Box::new(pn), ans), span, s4)
            }
        },
        Expr::Func(arms) => if arms@.len() == 0 {
            (TyInfoV::Error(ErrorReason::Unknown), ExprV::Error, span, s_error(st, LowerError::NoBranches(span)))
        } else {
            let first = arms@[0];
            let n = (*first.0.inner)@.len();
            let s1 = s_arity_errors(st, arms@, n, first.0.span);
            if wrong_arity(arms@, n) {
                (TyInfoV::Error(ErrorReason::Unknown), ExprV::Error, span, s1)
            } else {
                let out_span = if arms@.len() == 1 { arms@[0].1.span } else { span };
                let (out, s2) = s_insert(s1, out_span, TyInfoV::Unknown(None));
                let (ptys, s3) = s_param_tys(s2, (*first.0.inner)@);
                let (refs, s4) = s_param_refs(s3, span, ptys);
                let (tt, s5) = s_insert(s4, span, TyInfoV::Tuple(refs));
                let pred = ENodeV { expr: ExprV::Tuple(param_nodes(span, refs)), meta: Meta { span, ty: tt } };
                let (ans, s6) = s_lower_arms(ctx, s5, sc, arms@, tt, out);
                let body = ENodeV { expr: ExprV::Match(true, Box::new(pred), ans), meta: Meta { span, ty: out } };
                let (f, s7) = s_wrap_funcs(s6, span, ptys, body, pred.meta);
                (TyInfoV::Ref(f.meta.ty), f.expr, span, s7)
            }
        },
        Expr::Apply(f, a) => {
            let (fnode, s1) = s_lower_expr(ctx, st, sc, f);
            let (an, s2) = s_lower_expr(ctx, s1, sc, a);
            let (input, s3) = s_insert(s2, an.meta.span, TyInfoV::Unknown(None));
            let (out, s4) = s_insert(s3, span, TyInfoV::Unknown(None));
            let (func, s5) = s_insert(s4, fnode.meta.span, TyInfoV::Func(input, out));
            let s6 = s_flow(s_flow(s5, fnode.meta.ty, func), an.meta.ty, input);
            (TyInfoV::Ref(out), ExprV::Apply(Box::new(fnode), Box::new(an)), span, s6)
        },
        Expr::Cons(name, inner) => match lookup(ctx.conses@, (*name.inner)@) {
            Some(c) => {
                let cons = ctx.conses@[c as int];
                let decl = ctx.datas@[cons.data.id() as int];
                let (gens, s1) = s_fresh_generics(st, span, decl.generics.params@);
                let s2 = s_impls(s1, requests(gens, obligations_of(decl.generics), span));
                let (actual, s3) = s_insert(s2, name.span, TyInfoV::Instance(cons.ty, gens));
                let (it, s4) = s_insert(s3, span, TyInfoV::Unknown(None));
                let s5 = s_flow(s4, it, actual);
                let (inn, s6) = s_lower_expr(ctx, s5, sc, inner);
                (
                    TyInfoV::Data(cons.data, gens),
                    ExprV::Cons(cons.data, name.span, (*name.inner)@, Box::new(inn)),
                    span,
                    s_flow(s6, inn.meta.ty, it),
                )
            },
            None => (TyInfoV::Error(ErrorReason::Unknown), ExprV::Error, span, s_error(st, LowerError::NoSuchCons(name))),
        },
        Expr::LangDef(l) => {
            let d = match l {
                LangDef::IoUnit => ctx.lang.io_unit,
                LangDef::IoBind => ctx.lang.io_bind,
            };
            let (i, x, s1) = s_instantiate_def(ctx, st, d, span);
            (i, x, span, s1)
        },
        Expr::ClassAccess(ty, field) => {
            let (t, s1) = s_lower_type(ctx, st, ty);
            let (ft, s2) = s_insert(s1, field.span, TyInfoV::Unknown(None));
            (
                TyInfoV::Ref(ft),
                ExprV::ClassAccess(Meta { span: ty.span, ty: t }, None, sname_v(field)),
                span,
                s_demand(s2, DemandV::ClassMember(t, (*field.inner)@, ft)),
            )
        },
        Expr::Intrinsic(name, args) => {
            let (ns, s1) = s_lower_exprs(ctx, st, sc, args@, None);
            let (i, x, s2) = s_intrinsic(ctx, s1, sc, span, name, ns);
            (i, x, span, s2)
        },
        Expr::Update(r, fields) => {
            let (rn, s1) = s_lower_expr(ctx, st, sc, r);
            let (fs, s2) = s_lower_updates(ctx, s1, sc, fields@, rn.meta.ty);
            (TyInfoV::Ref(rn.meta.ty), ExprV::Update(Box::new(rn), fs), span, s2)
        },
        Expr::Block(init, last) => {
            let (eff, s1) = s_insert_effect(st, span, EffectInfoV::Unknown);
            let (ns, s2) = s_lower_exprs(ctx, s1, with_basin_v(sc, eff), init@, None);
            let (ln, s3) = s_lower_expr(ctx, s2, with_basin_v(sc, eff), last);
            (TyInfoV::Effect(eff, ln.meta.ty), ExprV::Basin(eff, Box::new(s_chain(ns, ln))), span, s3)
        },
        Expr::Handle { expr, eff_name, eff_args, send, recv } => {
            let (xn, s1) = s_lower_expr(ctx, st, sc, expr);
            let (sv, s2) = s_lower_binding(ctx, s1, send);
            let (rn, s3) = s_lower_expr(ctx, s2, push_frame(sc, binding_locals(sv)), recv);
            let (args, s4) = s_lower_types(ctx, s3, eff_args@);
            let (out, s5) = s_insert(s4, span, TyInfoV::Unknown(None));
            let (i, x, s6) = s_handle(ctx, s5, span, xn, eff_name, args, sv, rn, out);
            (i, x, span, s6)
        },
    }
}

/// The effect variable of the innermost block, or, where there is none, the
/// error that the effect performed at `at` has no block, and a new effect
/// variable at `fallback`.
pub open spec fn s_basin(sc: ScopeV, st: StateV, at: Span, fallback: Span) -> (EffectVar, StateV) {
    match sc.basin {
        Some(e) => (e, st),
        None => s_insert_effect(s_error(st, LowerError::NoBasin(at)), fallback, EffectInfoV::Unknown),
    }
}

/// The statement `before` run, then `then`: a match of its value with a wildcard.
pub open spec fn s_then(before: ENodeV, then: ENodeV) -> ENodeV {
    let wild = BindingV { pat: PatV::Wildcard, pat_span: before.meta.span, name: None, meta: before.meta };
    ENodeV { expr: ExprV::Match(false, Box::new(before), seq![(wild, then)]), meta: then.meta }
}

/// The statements `inits` run in order, then `last`.
pub open spec fn s_chain(inits: Seq<ENodeV>, last: ENodeV) -> ENodeV
    decreases inits.len(),
{
    if inits.len() == 0 {
        last
    } else {
        s_chain(inits.drop_last(), s_then(inits.last(), last))
    }
}

/// A handler of the effect named `name`, with the lowered parameters `args`,
/// around the lowered expression `xn`, where `sv` binds each value sent and
/// `rn` gives what is sent back; `out` is the type it gives.
pub open spec fn s_handle(
    ctx: LowerCtx,
    st: StateV,
    span: Span,
    xn: ENodeV,
    name: SrcNode<Ident>,
    args: Seq<TyVar>,
    sv: BindingV,
    rn: ENodeV,
    out: TyVar,
) -> (TyInfoV, ExprV, StateV) {
    match lookup(ctx.effects@, (*name.inner)@) {
        Some(e) => {
            let decl = ctx.effects@[e as int];
            if decl.generics.params@.len() != args.len() {
                (TyInfoV::Error(ErrorReason::Unknown), ExprV::Error, s_error(st, LowerError::WrongNumberOfGenerics(
                    span,
                    args.len() as usize,
                    if decl.generics.params@.len() == 0 { decl.name.span } else { decl.generics.span },
                    decl.generics.params@.len() as usize,
                )))
            } else {
                let s1 = s_impls(st, requests(args, obligations_of(decl.generics), span));
                let (eff, s2) = s_insert_effect(s1, span, EffectInfoV::Known(EffectId(e as usize), args));
                let s3 = s_demand(s2, DemandV::SendRecv(eff, sv.meta.ty, rn.meta.ty));
                let (eo, s4) = s_insert(s3, xn.meta.span, TyInfoV::Effect(eff, out));
                let local = ENodeV { expr: ExprV::Local("send"@), meta: sv.meta };
                let m = ENodeV { expr: ExprV::Match(false, Box::new(local), seq![(sv, rn)]), meta: rn.meta };
                (TyInfoV::Ref(out), ExprV::Handle(Box::new(xn), eff, ("send"@, sv.meta), Box::new(m)), s_flow(s4, xn.meta.ty, eo))
            }
        },
        None => (TyInfoV::Error(ErrorReason::Invalid), ExprV::Error, s_error(st, LowerError::NoSuchEffect(name))),
    }
}

/// The built-in operation `name` written at `span`, applied to the lowered
/// arguments `args`: what is known of its type, the lowered expression and the
/// state after. Each operation has a fixed number of arguments and demands
/// types of them; any other name or number is an error.
pub open spec fn s_intrinsic(ctx: LowerCtx, st: StateV, sc: ScopeV, span: Span, name: SrcNode<Ident>, args: Seq<ENodeV>) -> (TyInfoV, ExprV, StateV) {
    let n = (*name.inner)@;
    let len = args.len();
    if n == "type_name"@ && len == 1 {
        let (item, s1) = s_insert(st, args[0].meta.span, TyInfoV::Unknown(None));
        let (list, s2) = s_insert(s1, args[0].meta.span, TyInfoV::List(item));
        let s3 = s_flow(s2, args[0].meta.ty, list);
        let (c, s4) = s_insert(s3, name.span, TyInfoV::Prim(Prim::Char));
        (TyInfoV::List(c), ExprV::Intrinsic((hir::Intrinsic::TypeName, name.span), args), s4)
    } else if (n == "neg_nat"@ || n == "neg_int"@ || n == "neg_real"@) && len == 1 {
        let (p, i, r) = if n == "neg_nat"@ {
            (Prim::Nat, hir::Intrinsic::NegNat, Prim::Int)
        } else if n == "neg_int"@ {
            (Prim::Int, hir::Intrinsic::NegInt, Prim::Int)
        } else {
            (Prim::Num, hir::Intrinsic::NegReal, Prim::Num)
        };
        let (t, s1) = s_insert(st, args[0].meta.span, TyInfoV::Prim(p));
        (TyInfoV::Prim(r), ExprV::Intrinsic((i, name.span), args), s_flow(s1, args[0].meta.ty, t))
    } else if (n == "eq_char"@ || n == "eq_nat"@) && len == 2 {
        let p = if n == "eq_char"@ { Prim::Char } else { Prim::Nat };
        let i = if n == "eq_char"@ { hir::Intrinsic::EqChar } else { hir::Intrinsic::EqNat };
        let (t, s1) = s_insert(st, args[0].meta.span, TyInfoV::Prim(p));
        let s2 = s_flow(s_flow(s1, args[0].meta.ty, t), args[1].meta.ty, t);
        (TyInfoV::Prim(Prim::Bool), ExprV::Intrinsic((i, name.span), args), s2)
    } else if n == "go"@ && len == 2 {
        match ctx.lang.go {
            Some(g) => {
                let c = args[1].meta.ty;
                let (r, s1) = s_insert(st, span, TyInfoV::Unknown(None));
                let (ret, s2) = s_insert(s1, args[0].meta.span, TyInfoV::Data(g, seq![c, r]));
                let (f, s3) = s_insert(s2, args[0].meta.span, TyInfoV::Func(c, ret));
                (TyInfoV::Ref(r), ExprV::Intrinsic((hir::Intrinsic::Go, name.span), args), s_flow(s3, args[0].meta.ty, f))
            },
            None => (TyInfoV::Error(ErrorReason::Unknown), ExprV::Error, st),
        }
    } else if n == "print"@ && len == 2 {
        let (u, s1) = s_insert(st, args[0].meta.span, TyInfoV::Prim(Prim::Universe));
        let s2 = s_flow(s1, args[0].meta.ty, u);
        let (c, s3) = s_insert(s2, args[1].meta.span, TyInfoV::Prim(Prim::Char));
        let (l, s4) = s_insert(s3, args[1].meta.span, TyInfoV::List(c));
        (TyInfoV::Prim(Prim::Universe), ExprV::Intrinsic((hir::Intrinsic::Print, name.span), args), s_flow(s4, args[1].meta.ty, l))
    } else if n == "input"@ && len == 1 {
        let (u, s1) = s_insert(st, args[0].meta.span, TyInfoV::Prim(Prim::Universe));
        let s2 = s_flow(s1, args[0].meta.ty, u);
        let (c, s3) = s_insert(s2, span, TyInfoV::Prim(Prim::Char));
        let (l, s4) = s_insert(s3, span, TyInfoV::List(c));
        (TyInfoV::Tuple(seq![u, l]), ExprV::Intrinsic((hir::Intrinsic::Input, name.span), args), s4)
    } else if n == "len_list"@ && len == 1 {
        let (item, s1) = s_insert(st, args[0].meta.span, TyInfoV::Unknown(None));
        let (list, s2) = s_insert(s1, args[0].meta.span, TyInfoV::List(item));
        (TyInfoV::Prim(Prim::Nat), ExprV::Intrinsic((hir::Intrinsic::LenList, name.span), args), s_flow(s2, args[0].meta.ty, list))
    } else if (n == "skip_list"@ || n == "trim_list"@) && len == 2 {
        let i = if n == "skip_list"@ { hir::Intrinsic::SkipList } else { hir::Intrinsic::TrimList };
        let (item, s1) = s_insert(st, args[0].meta.span, TyInfoV::Unknown(None));
        let (list, s2) = s_insert(s1, args[0].meta.span, TyInfoV::List(item));
        let s3 = s_flow(s2, args[0].meta.ty, list);
        let (nt, s4) = s_insert(s3, args[1].meta.span, TyInfoV::Prim(Prim::Nat));
        (TyInfoV::Ref(list), ExprV::Intrinsic((i, name.span), args), s_flow(s4, args[1].meta.ty, nt))
    } else if n == "suspend"@ && len == 1 {
        let (out, s1) = s_insert(st, span, TyInfoV::Unknown(None));
        let (eff, s2) = s_basin(sc, s1, name.span, args[0].meta.span);
        (TyInfoV::Ref(out), ExprV::Suspend(eff, Box::new(args[0])), s_demand(s2, DemandV::SendRecv(eff, args[0].meta.ty, out)))
    } else {
        (TyInfoV::Error(ErrorReason::Invalid), ExprV::Error, s_error(st, LowerError::InvalidIntrinsic(name)))
    }
}


/// Lowering the bindings of the `let` expression `e` from the `i`th on, then
/// its body: each binding is a match of its value, in whose branch the names
/// it binds are in scope.
pub open spec fn s_lower_lets(ctx: LowerCtx, st: StateV, sc: ScopeV, e: SrcNode<Expr>, i: int) -> (ENodeV, StateV)
    decreases e, 0nat, let_count(e) - i,
{
    match *e.inner {
        Expr::Let(lets, then) => if 0 <= i < lets@.len() {
            let (bv, s1) = s_lower_binding(ctx, st, lets@[i].0);
            let (vn, s2) = s_lower_expr(ctx, s1, sc, lets@[i].1);
            let s3 = s_flow(s2, vn.meta.ty, bv.meta.ty);
            let (tn, s4) = s_lower_lets(ctx, s3, push_frame(sc, binding_locals(bv)), e, i + 1);
            (ENodeV { expr: ExprV::Match(false, Box::new(vn), seq![(bv, tn)]), meta: Meta { span: bv.meta.span, ty: tn.meta.ty } }, s4)
        } else {
            s_lower_expr(ctx, st, sc, then)
        },
        _ => (crate::hir::default_enode_v(), st),
    }
}

/// Lowering expressions in order; where `into` is given, each one's type must fit it.
pub open spec fn s_lower_exprs(ctx: LowerCtx, st: StateV, sc: ScopeV, items: Seq<SrcNode<Expr>>, into: Option<TyVar>) -> (Seq<ENodeV>, StateV)
    decreases items, 0nat, 0int,
{
    if items.len() == 0 {
        (Seq::empty(), st)
    } else {
        let (ns, s1) = s_lower_exprs(ctx, st, sc, items.drop_last(), into);
        let (n, s2) = s_lower_expr(ctx, s1, sc, items.last());
        let s3 = match into {
            Some(t) => s_flow(s2, n.meta.ty, t),
            None => s2,
        };
        (ns.push(n), s3)
    }
}

/// Lowering the fields of a record expression in order.
pub open spec fn s_lower_efields(ctx: LowerCtx, st: StateV, sc: ScopeV, fields: Seq<(SrcNode<Ident>, SrcNode<Expr>)>) -> (Seq<((Seq<char>, Span), ENodeV)>, StateV)
    decreases fields, 0nat, 0int,
{
    if fields.len() == 0 {
        (Seq::empty(), st)
    } else {
        let (fs, s1) = s_lower_efields(ctx, st, sc, fields.drop_last());
        let (n, s2) = s_lower_expr(ctx, s1, sc, fields.last().1);
        (fs.push((sname_v(fields.last().0), n)), s2)
    }
}

/// Lowering the fields of a record update in order: each new value must fit
/// the named field of the record of type `rty`.
pub open spec fn s_lower_updates(ctx: LowerCtx, st: StateV, sc: ScopeV, fields: Seq<(SrcNode<Ident>, SrcNode<Expr>)>, rty: TyVar) -> (Seq<((Seq<char>, Span), ENodeV)>, StateV)
    decreases fields, 0nat, 0int,
{
    if fields.len() == 0 {
        (Seq::empty(), st)
    } else {
        let (fs, s1) = s_lower_updates(ctx, st, sc, fields.drop_last(), rty);
        let (n, s2) = s_lower_expr(ctx, s1, sc, fields.last().1);
        (fs.push((sname_v(fields.last().0), n)), s_demand(s2, DemandV::Update(rty, (*fields.last().0.inner)@, n.meta.ty)))
    }
}

/// Lowering a group of expressions into one tuple, written at the span of the group.

pub open spec fn s_tupleify_expr(ctx: LowerCtx, st: StateV, sc: ScopeV, items: SrcNode<Vec<SrcNode<Expr>>>) -> (ENodeV, StateV)
    decreases items, 0nat, 0int,
{
    let (ns, s1) = s_lower_exprs(ctx, st, sc, (*items.inner)@, None);
    let (t, s2) = s_insert(s1, items.span, TyInfoV::Tuple(ns.map_values(|n: ENodeV| n.meta.ty)));
    (ENodeV { expr: ExprV::Tuple(ns), meta: Meta { span: items.span, ty: t } }, s2)
}

/// Lowering the branches of a match in order: each one's patterns, taken
/// together, must accept the matched value of type `pred_ty`, and each body,
/// lowered with the names bound by its patterns in scope, must fit `out`.
pub open spec fn s_lower_arms(ctx: LowerCtx, st: StateV, sc: ScopeV, arms: Seq<Branch>, pred_ty: TyVar, out: TyVar) -> (Seq<(BindingV, ENodeV)>, StateV)
    decreases arms, 0nat, 0int,
{
    if arms.len() == 0 {
        (Seq::empty(), st)
    } else {
        let (ans, s1) = s_lower_arms(ctx, st, sc, arms.drop_last(), pred_ty, out);
        let arm = arms.last();
        let (bv, s2) = s_tupleify_binding(ctx, s1, arm.0);
        let s3 = s_flow(s2, pred_ty, bv.meta.ty);
        let (body, s4) = s_lower_expr(ctx, s3, push_frame(sc, binding_locals(bv)), arm.1);
        (ans.push((bv, body)), s_flow(s4, body.meta.ty, out))
    }
}

fn node_tys(ns: &Vec<hir::ExprNode>) -> (r: Vec<TyVar>)
    ensures
        r@ == crate::hir::henodes_v(ns@).map_values(|n: ENodeV| n.meta.ty),
{
    let ghost want = crate::hir::henodes_v(ns@).map_values(|n: ENodeV| n.meta.ty);
    let mut r: Vec<TyVar> = Vec::new();
    let mut i: usize = 0;
    while i < ns.len()
        invariant
            i <= ns@.len(),
            want == crate::hir::henodes_v(ns@).map_values(|n: ENodeV| n.meta.ty),
            r@ == want.take(i as int),
        decreases ns.len() - i,
    {
        r.push(ns[i].meta.ty);
        i = i + 1;
        assert(r@ =~= want.take(i as int));
    }
    assert(want.take(i as int) =~= want);
    r
}

fn efield_tys(fs: &Vec<(SrcNode<Ident>, hir::ExprNode)>) -> (r: Vec<(Ident, TyVar)>)
    ensures
        r@.map_values(|f: (Ident, TyVar)| (f.0@, f.1)) == fs@.map_values(|f: (SrcNode<Ident>, hir::ExprNode)| (sname_v(f.0), henode_v(f.1))).map_values(
            |f: ((Seq<char>, Span), ENodeV)| (f.0.0, f.1.meta.ty),
        ),
{
    let ghost want = fs@.map_values(|f: (SrcNode<Ident>, hir::ExprNode)| (sname_v(f.0), henode_v(f.1))).map_values(
        |f: ((Seq<char>, Span), ENodeV)| (f.0.0, f.1.meta.ty),
    );
    let mut r: Vec<(Ident, TyVar)> = Vec::new();
    let mut i: usize = 0;
    while i < fs.len()
        invariant
            i <= fs@.len(),
            want.len() == fs@.len(),
            want == fs@.map_values(|f: (SrcNode<Ident>, hir::ExprNode)| (sname_v(f.0), henode_v(f.1))).map_values(
                |f: ((Seq<char>, Span), ENodeV)| (f.0.0, f.1.meta.ty),
            ),
            r@.map_values(|f: (Ident, TyVar)| (f.0@, f.1)) == want.take(i as int),
        decreases fs.len() - i,
    {
        let ghost before = r@;
        let name = fs[i].0.inner().clone();
        r.push((name, fs[i].1.meta.ty));
        proof {
            assert(want[i as int] == ((*fs@[i as int].0.inner)@, henode_v(fs@[i as int].1).meta.ty));
            assert(r@.map_values(|f: (Ident, TyVar)| (f.0@, f.1)) =~= before.map_values(|f: (Ident, TyVar)| (f.0@, f.1)).push(want[i as int]));
        }
        i = i + 1;
        assert(r@.map_values(|f: (Ident, TyVar)| (f.0@, f.1)) =~= want.take(i as int));
    }
    assert(want.take(i as int) =~= want);
    r
}

fn swap_all(reqs: Vec<ImplRequest>) -> (r: Vec<ImplRequest>)
    ensures
        r@ == reqs@.map_values(|q: ImplRequest| swap_spans(q)),
{
    let mut r: Vec<ImplRequest> = Vec::new();
    let mut i: usize = 0;
    while i < reqs.len()
        invariant
            i <= reqs@.len(),
            r@ == reqs@.map_values(|q: ImplRequest| swap_spans(q)).take(i as int),
        decreases reqs.len() - i,
    {
        let q = reqs[i];
        r.push(ImplRequest { ty: q.ty, class: q.class, use_span: q.obligation_span, obligation_span: q.use_span });
        i = i + 1;
        assert(r@ =~= reqs@.map_values(|q: ImplRequest| swap_spans(q)).take(i as int));
    }
    assert(reqs@.map_values(|q: ImplRequest| swap_spans(q)).take(i as int) =~= reqs@.map_values(|q: ImplRequest| swap_spans(q)));
    r
}

fn pair_with(span: Span, vs: &Vec<TyVar>) -> (r: Vec<(Span, TyVar)>)
    ensures
        r@ == vs@.map_values(|g: TyVar| (span, g)),
{
    let mut r: Vec<(Span, TyVar)> = Vec::new();
    let mut i: usize = 0;
    while i < vs.len()
        invariant
            i <= vs@.len(),
            r@ == vs@.map_values(|g: TyVar| (span, g)).take(i as int),
        decreases vs.len() - i,
    {
        r.push((span, vs[i]));
        i = i + 1;
        assert(r@ =~= vs@.map_values(|g: TyVar| (span, g)).take(i as int));
    }
    assert(vs@.map_values(|g: TyVar| (span, g)).take(i as int) =~= vs@.map_values(|g: TyVar| (span, g)));
    r
}

/// Uses the definition `def` at `span`, as `s_instantiate_def` says.
pub fn instantiate_def(ctx: &LowerCtx, st: &mut LowerState, def: DefId, span: Span) -> (r: (TyInfo, hir::Expr))
    requires
        def.0 < ctx.defs@.len(),
    ensures
        (r.0@, crate::hir::hexpr_v(r.1), final(st)@) == s_instantiate_def(*ctx, old(st)@, def, span),
{
    let decl = &ctx.defs[def.0];
    let gens = fresh_generics(st, span, &decl.generics.params);
    match enforce_generic_obligations(&decl.generics, gens.as_slice(), span, span) {
        Ok(reqs) => st.require(swap_all(reqs)),
        Err(_) => {},
    }
    match decl.ty {
        Some(t) => {
            let pairs = pair_with(span, &gens);
            let actual = st.insert(span, TyInfo::Instance(t, gens));
            let dt = st.unknown(span);
            st.flow(actual, dt);
            (TyInfo::Ref(dt), hir::Expr::Global(def, pairs))
        },
        None => {
            st.error(LowerError::DefTypeNotSpecified(decl.name.span, span, decl.name.inner().clone()));
            (TyInfo::Error(ErrorReason::Unknown), hir::Expr::Error)
        },
    }
}

/// Records the errors for the branches with a number of patterns other than
/// `n`, as `s_arity_errors` says, and tells whether there were any.
fn arity_errors(st: &mut LowerState, arms: &Vec<Branch>, n: usize, at: Span) -> (r: bool)
    ensures
        final(st)@ == s_arity_errors(old(st)@, arms@, n as nat, at),
        r == wrong_arity(arms@, n as nat),
{
    let ghost st0 = st@;
    let mut wrong = false;
    let mut i: usize = 0;
    while i < arms.len()
        invariant
            i <= arms@.len(),
            st@ == s_arity_errors(st0, arms@.take(i as int), n as nat, at),
            wrong == exists|j: int| 0 <= j < i && (*(#[trigger] arms@[j]).0.inner)@.len() != n,
        decreases arms.len() - i,
    {
        proof {
            assert(arms@.take(i + 1).drop_last() =~= arms@.take(i as int));
            assert(arms@.take(i + 1).last() == arms@[i as int]);
        }
        let m = arms[i].0.inner.len();
        if m != n {
            st.error(LowerError::WrongNumberOfParams(arms[i].0.span, m, at, n));
            wrong = true;
        }
        i = i + 1;
    }
    assert(arms@.take(i as int) =~= arms@);
    wrong
}

/// New variables for the parameters of a function, as `s_param_tys` says.
fn param_tys(st: &mut LowerState, pats: &Vec<SrcNode<crate::ast::Binding>>) -> (r: Vec<TyVar>)
    ensures
        (r@, final(st)@) == s_param_tys(old(st)@, pats@),
{
    let ghost st0 = st@;
    let mut r: Vec<TyVar> = Vec::new();
    let mut i: usize = 0;
    while i < pats.len()
        invariant
            i <= pats@.len(),
            (r@, st@) == s_param_tys(st0, pats@.take(i as int)),
        decreases pats.len() - i,
    {
        proof {
            assert(pats@.take(i + 1).drop_last() =~= pats@.take(i as int));
        }
        let v = st.unknown(pats[i].span);
        r.push(v);
        i = i + 1;
    }
    assert(pats@.take(i as int) =~= pats@);
    r
}

/// The uses of the parameters, as `s_param_refs` says.
fn param_refs(st: &mut LowerState, span: Span, ptys: &Vec<TyVar>) -> (r: Vec<TyVar>)
    ensures
        (r@, final(st)@) == s_param_refs(old(st)@, span, ptys@),
{
    let ghost st0 = st@;
    let mut r: Vec<TyVar> = Vec::new();
    let mut i: usize = 0;
    while i < ptys.len()
        invariant
            i <= ptys@.len(),
            (r@, st@) == s_param_refs(st0, span, ptys@.take(i as int)),
        decreases ptys.len() - i,
    {
        proof {
            assert(ptys@.take(i + 1).drop_last() =~= ptys@.take(i as int));
        }
        let v = st.insert(span, TyInfo::Ref(ptys[i]));
        r.push(v);
        i = i + 1;
    }
    assert(ptys@.take(i as int) =~= ptys@);
    r
}

/// The lowered uses of the parameters, as `param_nodes` says.
fn param_nodes_of(span: Span, refs: &Vec<TyVar>) -> (r: Vec<hir::ExprNode>)
    ensures
        crate::hir::henodes_v(r@) == param_nodes(span, refs@),
{
    let mut r: Vec<hir::ExprNode> = Vec::new();
    let mut i: usize = 0;
    while i < refs.len()
        invariant
            i <= refs@.len(),
            crate::hir::henodes_v(r@) == param_nodes(span, refs@).take(i as int),
        decreases refs.len() - i,
    {
        let n = hir::ExprNode { expr: hir::Expr::Local(Ident { name: nat_string(i as u64) }), meta: Meta { span, ty: refs[i] } };
        let ghost before = r@;
        r.push(n);
        proof {
            assert(henode_v(n) == param_nodes(span, refs@)[i as int]);
            assert(crate::hir::henodes_v(r@) =~= crate::hir::henodes_v(before).push(henode_v(n)));
        }
        i = i + 1;
        assert(crate::hir::henodes_v(r@) =~= param_nodes(span, refs@).take(i as int));
    }
    assert(param_nodes(span, refs@).take(i as int) =~= param_nodes(span, refs@));
    r
}

/// Wraps `body` in a function of each parameter, as `s_wrap_funcs` says.
fn wrap_funcs(st: &mut LowerState, span: Span, ptys: &Vec<TyVar>, body: hir::ExprNode, pm: Meta) -> (r: hir::ExprNode)
    ensures
        (r@, final(st)@) == s_wrap_funcs(old(st)@, span, ptys@, body@, pm),
{
    let ghost want = s_wrap_funcs(st@, span, ptys@, body@, pm);
    let mut body = body;
    let mut k: usize = ptys.len();
    assert(ptys@.take(k as int) =~= ptys@);
    while k > 0
        invariant
            k <= ptys@.len(),
            s_wrap_funcs(st@, span, ptys@.take(k as int), body@, pm) == want,
        decreases k,
    {
        let f = st.insert(span, TyInfo::Func(ptys[k - 1], body.meta.ty));
        let ghost prev = ptys@.take(k as int);
        proof {
            assert(prev.drop_last() =~= ptys@.take(k - 1));
            assert(prev.last() == ptys@[k - 1]);
        }
        body = hir::ExprNode { expr: hir::Expr::Func(Ident { name: nat_string((k - 1) as u64) }, pm, Box::new(body)), meta: Meta { span, ty: f } };
        k = k - 1;
    }
    assert(ptys@.take(0) =~= Seq::<TyVar>::empty());
    body
}

/// Lowers an expression in a scope: builds its lowered tree, and records the
/// variables, flows, demands and errors it gives rise to, as `s_lower_expr` says.
pub fn lower_expr(ctx: &LowerCtx, st: &mut LowerState, scope: &Scope, e: &SrcNode<Expr>) -> (r: hir::ExprNode)
    requires
        ctx.wf(),
    ensures
        (r@, final(st)@) == s_lower_expr(*ctx, old(st)@, scope_v(*scope), *e),
    decreases e, 2nat, 0int,
{
    let (info, x, span) = lower_kind(ctx, st, scope, e);
    let v = st.insert(span, info);
    hir::ExprNode { expr: x, meta: Meta { span, ty: v } }
}

/// Lowers an expression, without its own variable, as `s_lower_kind` says.
fn lower_kind(ctx: &LowerCtx, st: &mut LowerState, scope: &Scope, e: &SrcNode<Expr>) -> (r: (TyInfo, hir::Expr, Span))
    requires
        ctx.wf(),
    ensures
        (r.0@, crate::hir::hexpr_v(r.1), r.2, final(st)@) == s_lower_kind(*ctx, old(st)@, scope_v(*scope), *e),
    decreases e, 1nat, 1int,
{
    match &*e.inner {
        Expr::Error => kind_simple(ctx, st, scope, e),
        Expr::Literal(..) => kind_simple(ctx, st, scope, e),
        Expr::Local(..) => kind_simple(ctx, st, scope, e),
        Expr::Tuple(..) => kind_simple(ctx, st, scope, e),
        Expr::Record(..) => kind_simple(ctx, st, scope, e),
        Expr::List(..) => kind_simple(ctx, st, scope, e),
        Expr::Access(..) => kind_simple(ctx, st, scope, e),
        Expr::Unary(..) => kind_unary(ctx, st, scope, e),
        Expr::Binary(..) => kind_binary(ctx, st, scope, e),
        Expr::Apply(..) => kind_apply(ctx, st, scope, e),
        Expr::If(..) => kind_if(ctx, st, scope, e),
        Expr::Match(..) => kind_match(ctx, st, scope, e),
        Expr::Func(..) => kind_func(ctx, st, scope, e),
        Expr::Cons(..) => kind_cons(ctx, st, scope, e),
        Expr::LangDef(..) => kind_more(ctx, st, scope, e),
        Expr::ClassAccess(..) => kind_more(ctx, st, scope, e),
        Expr::Intrinsic(..) => kind_intrinsic(ctx, st, scope, e),
        Expr::Update(..) => kind_more(ctx, st, scope, e),
        Expr::Block(..) => kind_block(ctx, st, scope, e),
        Expr::Handle { .. } => kind_handle(ctx, st, scope, e),
        Expr::Let(_, _) => {
            let n = lower_lets(ctx, st, scope, e, 0);
            (TyInfo::Ref(n.meta.ty), n.expr, n.meta.span)
        },
    }
}

#[verifier::rlimit(40)]
fn kind_simple(ctx: &LowerCtx, st: &mut LowerState, scope: &Scope, e: &SrcNode<Expr>) -> (r: (TyInfo, hir::Expr, Span))
    requires
        ctx.wf(),
        *e.inner is Error || *e.inner is Literal || *e.inner is Local || *e.inner is Tuple || *e.inner is Record || *e.inner is List || *e.inner is Access,
    ensures
        (r.0@, crate::hir::hexpr_v(r.1), r.2, final(st)@) == s_lower_kind(*ctx, old(st)@, scope_v(*scope), *e),
    decreases e, 1nat, 0int,
{
    let span = e.span;
    match &*e.inner {
        Expr::Error => (TyInfo::Error(ErrorReason::Unknown), hir::Expr::Error, span),
        Expr::Literal(l) => {
            let i = litr_ty_info(l, st, span);
            let v = st.insert(span, i);
            (TyInfo::Ref(v), hir::Expr::Literal(l.clone()), span)
        },
        Expr::Local(x) => {
            proof {
                lemma_resolve_v(*scope, x@);
            }
            match scope.find(st, span, x) {
                Some((ty, Some((d, g)))) => (TyInfo::Ref(ty), hir::Expr::Global(d, g), span),
                Some((ty, None)) => (TyInfo::Ref(ty), hir::Expr::Local(x.clone()), span),
                None => match position(&ctx.defs, x) {
                    Some(d) => {
                        let (i, ex) = instantiate_def(ctx, st, DefId(d), span);
                        (i, ex, span)
                    },
                    None => {
                        st.error(LowerError::NoSuchLocal(SrcNode::new(x.clone(), span)));
                        (TyInfo::Error(ErrorReason::Unknown), hir::Expr::Error, span)
                    },
                },
            }
        },
        Expr::Tuple(items) => {
            let ns = lower_exprs(ctx, st, scope, items, None);
            let tys = node_tys(&ns);
            let x = hir::Expr::Tuple(ns);
            proof {
                crate::hir::lemma_hir_views(hir::Pat::Error, x);
            }
            (TyInfo::Tuple(tys), x, span)
        },
        Expr::Record(fields) => {
            let fs = lower_efields(ctx, st, scope, fields);
            let tys = efield_tys(&fs);
            let x = hir::Expr::Record(fs);
            proof {
                crate::hir::lemma_hir_views(hir::Pat::Error, x);
            }
            (TyInfo::Record(tys), x, span)
        },
        Expr::List(items, tails) => {
            let item_ty = st.unknown(span);
            let list_ty = st.insert(span, TyInfo::List(item_ty));
            let ns = lower_exprs(ctx, st, scope, items, Some(item_ty));
            let ts = lower_exprs(ctx, st, scope, tails, Some(list_ty));
            let x = hir::Expr::List(ns, ts);
            proof {
                crate::hir::lemma_hir_views(hir::Pat::Error, x);
            }
            (TyInfo::Ref(list_ty), x, span)
        },
        Expr::Access(r, f) => {
            let rn = lower_expr(ctx, st, scope, r);
            let ft = st.unknown(span);
            st.demand(crate::infer::Demand::Access(rn.meta.ty, f.inner().clone(), ft));
            (TyInfo::Ref(ft), hir::Expr::Access(Box::new(rn), SrcNode::new(f.inner().clone(), f.span)), span)
        },
        _ => (TyInfo::Error(ErrorReason::Unknown), hir::Expr::Error, span),
    }
}

#[verifier::rlimit(40)]
fn kind_unary(ctx: &LowerCtx, st: &mut LowerState, scope: &Scope, e: &SrcNode<Expr>) -> (r: (TyInfo, hir::Expr, Span))
    requires
        ctx.wf(),
        *e.inner is Unary,
    ensures
        (r.0@, crate::hir::hexpr_v(r.1), r.2, final(st)@) == s_lower_kind(*ctx, old(st)@, scope_v(*scope), *e),
    decreases e, 1nat, 0int,
{
    let span = e.span;
    match &*e.inner {
        Expr::Unary(op, a) => {
            let an = lower_expr(ctx, st, scope, a);
            let out = st.unknown(span);
            if let UnaryOp::Propagate = *op.inner {
                let eff = basin_of(scope, st, op.span, an.meta.span);
                let eo = st.insert(an.meta.span, TyInfo::Effect(eff, out));
                st.flow(an.meta.ty, eo);
                let ghost anv = henode_v(an);
                let mut args: Vec<hir::ExprNode> = Vec::new();
                args.push(an);
                let x = hir::Expr::Intrinsic(SrcNode::new(hir::Intrinsic::Propagate, op.span), args);
                proof {
                    crate::hir::lemma_hir_views(hir::Pat::Error, x);
                    assert(crate::hir::henodes_v(args@) =~= seq![anv]);
                }
                return (TyInfo::Ref(out), x, span);
            }
            let func = st.insert(op.span, TyInfo::Func(an.meta.ty, out));
            let (class, field) = match *op.inner {
                UnaryOp::Not => (ctx.classes.not, SrcNode::new(Ident::new("not"), span)),
                _ => (ctx.classes.neg, SrcNode::new(Ident::new("neg"), op.span)),
            };
            st.demand(crate::infer::Demand::ClassField(an.meta.ty, field.inner().clone(), class, func));
            let ghost fv = sname_v(field);
            let access = hir::ExprNode { expr: hir::Expr::ClassAccess(an.meta, Some(class), field), meta: Meta { span: op.span, ty: func } };
            assert(henode_v(access).expr == ExprV::ClassAccess(an.meta, Some(class), fv));
            (TyInfo::Ref(out), hir::Expr::Apply(Box::new(access), Box::new(an)), span)
        },
        _ => (TyInfo::Error(ErrorReason::Unknown), hir::Expr::Error, span),
    }
}

#[verifier::rlimit(40)]
fn kind_binary(ctx: &LowerCtx, st: &mut LowerState, scope: &Scope, e: &SrcNode<Expr>) -> (r: (TyInfo, hir::Expr, Span))
    requires
        ctx.wf(),
        *e.inner is Binary,
    ensures
        (r.0@, crate::hir::hexpr_v(r.1), r.2, final(st)@) == s_lower_kind(*ctx, old(st)@, scope_v(*scope), *e),
    decreases e, 1nat, 0int,
{
    let span = e.span;
    match &*e.inner {
        Expr::Binary(op, a, b) => {
            let an = lower_expr(ctx, st, scope, a);
            let bn = lower_expr(ctx, st, scope, b);
            let out = st.unknown(span);
            let ghost s3 = st@;
            match *op.inner {
                BinaryOp::Eq => {
                    assert(*op.inner == BinaryOp::Eq);
                    let f2 = st.insert(op.span, TyInfo::Func(bn.meta.ty, out));
                    let f = st.insert(op.span, TyInfo::Func(an.meta.ty, f2));
                    st.flow(an.meta.ty, bn.meta.ty);
                    st.flow(bn.meta.ty, an.meta.ty);
                    let field = SrcNode::new(Ident::new("eq"), span);
                    st.demand(crate::infer::Demand::ClassField(an.meta.ty, field.inner().clone(), ctx.classes.eq, f));
                    let access = hir::ExprNode { expr: hir::Expr::ClassAccess(an.meta, Some(ctx.classes.eq), field), meta: Meta { span: op.span, ty: f } };
                    let ghost accv = henode_v(access);
                    let ghost anv = henode_v(an);
                    assert(accv.expr == ExprV::ClassAccess(an.meta, Some(ctx.classes.eq), ("eq"@, span)));
                    let partial = hir::ExprNode { expr: hir::Expr::Apply(Box::new(access), Box::new(an)), meta: Meta { span, ty: f } };
                    assert(henode_v(partial).expr == ExprV::Apply(Box::new(accv), Box::new(anv)));
                    (TyInfo::Ref(out), hir::Expr::Apply(Box::new(partial), Box::new(bn)), span)
                },
                _ => {
                    assert(*op.inner != BinaryOp::Eq);
                    st.demand(crate::infer::Demand::Binary(*op.inner, an.meta.ty, bn.meta.ty, out));
                    assert(st@ == s_demand(s3, DemandV::Binary(*op.inner, an.meta.ty, bn.meta.ty, out)));
                    (TyInfo::Ref(out), hir::Expr::Binary(SrcNode::new(*op.inner, op.span), Box::new(an), Box::new(bn)), span)
                },
            }
        },
        _ => (TyInfo::Error(ErrorReason::Unknown), hir::Expr::Error, span),
    }
}

#[verifier::rlimit(40)]
fn kind_apply(ctx: &LowerCtx, st: &mut LowerState, scope: &Scope, e: &SrcNode<Expr>) -> (r: (TyInfo, hir::Expr, Span))
    requires
        ctx.wf(),
        *e.inner is Apply,
    ensures
        (r.0@, crate::hir::hexpr_v(r.1), r.2, final(st)@) == s_lower_kind(*ctx, old(st)@, scope_v(*scope), *e),
    decreases e, 1nat, 0int,
{
    let span = e.span;
    match &*e.inner {
        Expr::Apply(f, a) => {
            let fnode = lower_expr(ctx, st, scope, f);
            let an = lower_expr(ctx, st, scope, a);
            let input = st.unknown(an.meta.span);
            let out = st.unknown(span);
            let func = st.insert(fnode.meta.span, TyInfo::Func(input, out));
            st.flow(fnode.meta.ty, func);
            st.flow(an.meta.ty, input);
            (TyInfo::Ref(out), hir::Expr::Apply(Box::new(fnode), Box::new(an)), span)
        },
        _ => (TyInfo::Error(ErrorReason::Unknown), hir::Expr::Error, span),
    }
}

#[verifier::rlimit(40)]
fn kind_if(ctx: &LowerCtx, st: &mut LowerState, scope: &Scope, e: &SrcNode<Expr>) -> (r: (TyInfo, hir::Expr, Span))
    requires
        ctx.wf(),
        *e.inner is If,
    ensures
        (r.0@, crate::hir::hexpr_v(r.1), r.2, final(st)@) == s_lower_kind(*ctx, old(st)@, scope_v(*scope), *e),
    decreases e, 1nat, 0int,
{
    let span = e.span;
    match &*e.inner {
        Expr::If(p, a, b) => {
            let pt = st.insert(p.span, TyInfo::Prim(crate::ty::Prim::Bool));
            let out = st.unknown(span);
            let pn = lower_expr(ctx, st, scope, p);
            st.flow(pn.meta.ty, pt);
            let an = lower_expr(ctx, st, scope, a);
            let bn = lower_expr(ctx, st, scope, b);
            st.flow(an.meta.ty, out);
            st.flow(bn.meta.ty, out);
            let pm = pn.meta;
            let yes = hir::Binding { pat: SrcNode::new(hir::Pat::Literal(crate::ast::Literal::Bool(true)), pm.span), name: None, meta: pm };
            let no = hir::Binding { pat: SrcNode::new(hir::Pat::Literal(crate::ast::Literal::Bool(false)), pm.span), name: None, meta: pm };
            let mut arms: Vec<(hir::Binding, hir::ExprNode)> = Vec::new();
            arms.push((yes, an));
            arms.push((no, bn));
            let x = hir::Expr::Match(false, Box::new(pn), arms);
            proof {
                crate::hir::lemma_hir_views(hir::Pat::Error, x);
                assert(arms@.map_values(|a: (hir::Binding, hir::ExprNode)| (hbinding_v(a.0), henode_v(a.1))) =~= seq![
                    (bool_pat(true, pm), henode_v(an)),
                    (bool_pat(false, pm), henode_v(bn)),
                ]);
            }
            (TyInfo::Ref(out), x, span)
        },
        _ => (TyInfo::Error(ErrorReason::Unknown), hir::Expr::Error, span),
    }
}

#[verifier::rlimit(40)]
fn kind_match(ctx: &LowerCtx, st: &mut LowerState, scope: &Scope, e: &SrcNode<Expr>) -> (r: (TyInfo, hir::Expr, Span))
    requires
        ctx.wf(),
        *e.inner is Match,
    ensures
        (r.0@, crate::hir::hexpr_v(r.1), r.2, final(st)@) == s_lower_kind(*ctx, old(st)@, scope_v(*scope), *e),
    decreases e, 1nat, 0int,
{
    let span = e.span;
    match &*e.inner {
        Expr::Match(preds, arms) => {
            let wrong = arity_errors(st, arms, preds.inner.len(), preds.span);
            if wrong {
                (TyInfo::Error(ErrorReason::Unknown), hir::Expr::Error, span)
            } else {
                let pn = tupleify_expr(ctx, st, scope, preds);
                let out = st.unknown(span);
                let ans = lower_arms(ctx, st, scope, arms, pn.meta.ty, out);
                let x = hir::Expr::Match(true, Box::new(pn), ans);
                proof {
                    crate::hir::lemma_hir_views(hir::Pat::Error, x);
                }
                (TyInfo::Ref(out), x, span)
            }
        },
        _ => (TyInfo::Error(ErrorReason::Unknown), hir::Expr::Error, span),
    }
}

#[verifier::rlimit(40)]
fn kind_func(ctx: &LowerCtx, st: &mut LowerState, scope: &Scope, e: &SrcNode<Expr>) -> (r: (TyInfo, hir::Expr, Span))
    requires
        ctx.wf(),
        *e.inner is Func,
    ensures
        (r.0@, crate::hir::hexpr_v(r.1), r.2, final(st)@) == s_lower_kind(*ctx, old(st)@, scope_v(*scope), *e),
    decreases e, 1nat, 0int,
{
    let span = e.span;
    match &*e.inner {
        Expr::Func(arms) => {
            if arms.len() == 0 {
                st.error(LowerError::NoBranches(span));
                return (TyInfo::Error(ErrorReason::Unknown), hir::Expr::Error, span);
            }
            let first = &arms[0];
            let wrong = arity_errors(st, arms, first.0.inner.len(), first.0.span);
            if wrong {
                return (TyInfo::Error(ErrorReason::Unknown), hir::Expr::Error, span);
            }
            let out_span = if arms.len() == 1 {
                arms[0].1.span
            } else {
                span
            };
            let out = st.unknown(out_span);
            let ptys = param_tys(st, &first.0.inner);
            let refs = param_refs(st, span, &ptys);
            let tt = st.insert(span, TyInfo::Tuple(copy_vars(&refs)));
            let nodes = param_nodes_of(span, &refs);
            let pred = hir::ExprNode { expr: hir::Expr::Tuple(nodes), meta: Meta { span, ty: tt } };
            proof {
                crate::hir::lemma_hir_views(hir::Pat::Error, pred.expr);
            }
            let pm = pred.meta;
            let ans = lower_arms(ctx, st, scope, arms, tt, out);
            let body = hir::ExprNode { expr: hir::Expr::Match(true, Box::new(pred), ans), meta: Meta { span, ty: out } };
            proof {
                crate::hir::lemma_hir_views(hir::Pat::Error, body.expr);
            }
            let f = wrap_funcs(st, span, &ptys, body, pm);
            (TyInfo::Ref(f.meta.ty), f.expr, span)
        },
        _ => (TyInfo::Error(ErrorReason::Unknown), hir::Expr::Error, span),
    }
}

#[verifier::rlimit(40)]
fn kind_cons(ctx: &LowerCtx, st: &mut LowerState, scope: &Scope, e: &SrcNode<Expr>) -> (r: (TyInfo, hir::Expr, Span))
    requires
        ctx.wf(),
        *e.inner is Cons,
    ensures
        (r.0@, crate::hir::hexpr_v(r.1), r.2, final(st)@) == s_lower_kind(*ctx, old(st)@, scope_v(*scope), *e),
    decreases e, 1nat, 0int,
{
    let span = e.span;
    match &*e.inner {
        Expr::Cons(name, inner) => match position(&ctx.conses, name.inner()) {
            Some(c) => {
                let cons = &ctx.conses[c];
                assert(cons.data.id() < ctx.datas@.len());
                let decl = &ctx.datas[cons.data.index()];
                let gens = fresh_generics(st, span, &decl.generics.params);
                match enforce_generic_obligations(&decl.generics, gens.as_slice(), span, decl.span) {
                    Ok(reqs) => st.require(reqs),
                    Err(_) => {},
                }
                let gens2 = copy_vars(&gens);
                let actual = st.insert(name.span, TyInfo::Instance(cons.ty, gens));
                let it = st.unknown(span);
                st.flow(it, actual);
                let inn = lower_expr(ctx, st, scope, inner);
                st.flow(inn.meta.ty, it);
                (TyInfo::Data(cons.data, gens2), hir::Expr::Cons(cons.data, name.span, name.inner().clone(), Box::new(inn)), span)
            },
            None => {
                st.error(LowerError::NoSuchCons(crate::lower::copy_name(name)));
                (TyInfo::Error(ErrorReason::Unknown), hir::Expr::Error, span)
            },
        },
        _ => (TyInfo::Error(ErrorReason::Unknown), hir::Expr::Error, span),
    }
}

fn intrinsic_node(i: hir::Intrinsic, at: Span, args: Vec<hir::ExprNode>) -> (r: hir::Expr)
    ensures
        crate::hir::hexpr_v(r) == ExprV::Intrinsic((i, at), crate::hir::henodes_v(args@)),
{
    let x = hir::Expr::Intrinsic(SrcNode::new(i, at), args);
    proof {
        crate::hir::lemma_hir_views(hir::Pat::Error, x);
    }
    x
}

/// The built-in operation `name` applied to the lowered arguments `args`, as `s_intrinsic` says.
#[verifier::rlimit(80)]
fn lower_intrinsic(ctx: &LowerCtx, st: &mut LowerState, scope: &Scope, span: Span, name: &SrcNode<Ident>, args: Vec<hir::ExprNode>) -> (r: (TyInfo, hir::Expr))
    ensures
        (r.0@, crate::hir::hexpr_v(r.1), final(st)@) == s_intrinsic(*ctx, old(st)@, scope_v(*scope), span, *name, crate::hir::henodes_v(args@)),
{
    let n = name.inner();
    let len = args.len();
    let ghost av = crate::hir::henodes_v(args@);
    proof {
        reveal_strlit("type_name");
        reveal_strlit("neg_nat");
        reveal_strlit("neg_int");
        reveal_strlit("neg_real");
        reveal_strlit("eq_char");
        reveal_strlit("eq_nat");
        reveal_strlit("go");
        reveal_strlit("print");
        reveal_strlit("input");
        reveal_strlit("len_list");
        reveal_strlit("skip_list");
        reveal_strlit("trim_list");
        reveal_strlit("suspend");
    }
    if len == 1 && n.same(&Ident::new("type_name")) {
        let a0 = args[0].meta;
        assert(av[0].meta == a0);
        let item = st.unknown(a0.span);
        let list = st.insert(a0.span, TyInfo::List(item));
        st.flow(a0.ty, list);
        let c = st.insert(name.span, TyInfo::Prim(Prim::Char));
        let rr = (TyInfo::List(c), intrinsic_node(hir::Intrinsic::TypeName, name.span, args));
        assert((rr.0@, crate::hir::hexpr_v(rr.1), st@) == s_intrinsic(*ctx, old(st)@, scope_v(*scope), span, *name, av));
        rr
    } else if len == 1 && (n.same(&Ident::new("neg_nat")) || n.same(&Ident::new("neg_int")) || n.same(&Ident::new("neg_real"))) {
        let a0 = args[0].meta;
        assert(av[0].meta == a0);
        let (p, i, r) = if n.same(&Ident::new("neg_nat")) {
            (Prim::Nat, hir::Intrinsic::NegNat, Prim::Int)
        } else if n.same(&Ident::new("neg_int")) {
            (Prim::Int, hir::Intrinsic::NegInt, Prim::Int)
        } else {
            (Prim::Num, hir::Intrinsic::NegReal, Prim::Num)
        };
        let t = st.insert(a0.span, TyInfo::Prim(p));
        st.flow(a0.ty, t);
        let rr = (TyInfo::Prim(r), intrinsic_node(i, name.span, args));
        assert((rr.0@, crate::hir::hexpr_v(rr.1), st@) == s_intrinsic(*ctx, old(st)@, scope_v(*scope), span, *name, av));
        rr
    } else if len == 2 && (n.same(&Ident::new("eq_char")) || n.same(&Ident::new("eq_nat"))) {
        let a0 = args[0].meta;
        let a1 = args[1].meta;
        assert(av[0].meta == a0 && av[1].meta == a1);
        let (p, i) = if n.same(&Ident::new("eq_char")) {
            (Prim::Char, hir::Intrinsic::EqChar)
        } else {
            (Prim::Nat, hir::Intrinsic::EqNat)
        };
        let t = st.insert(a0.span, TyInfo::Prim(p));
        st.flow(a0.ty, t);
        st.flow(a1.ty, t);
        let rr = (TyInfo::Prim(Prim::Bool), intrinsic_node(i, name.span, args));
        assert((rr.0@, crate::hir::hexpr_v(rr.1), st@) == s_intrinsic(*ctx, old(st)@, scope_v(*scope), span, *name, av));
        rr
    } else if len == 2 && n.same(&Ident::new("go")) {
        let a0 = args[0].meta;
        let a1 = args[1].meta;
        assert(av[0].meta == a0 && av[1].meta == a1);
        match ctx.lang.go {
            Some(g) => {
                let c = a1.ty;
                let r = st.unknown(span);
                let mut ps: Vec<TyVar> = Vec::new();
                ps.push(c);
                ps.push(r);
                assert(ps@ =~= seq![c, r]);
                let ret = st.insert(a0.span, TyInfo::Data(g, ps));
                let f = st.insert(a0.span, TyInfo::Func(c, ret));
                st.flow(a0.ty, f);
                let rr = (TyInfo::Ref(r), intrinsic_node(hir::Intrinsic::Go, name.span, args));
                assert((rr.0@, crate::hir::hexpr_v(rr.1), st@) == s_intrinsic(*ctx, old(st)@, scope_v(*scope), span, *name, av));
                rr
            },
            None => (TyInfo::Error(ErrorReason::Unknown), hir::Expr::Error),
        }
    } else if len == 2 && n.same(&Ident::new("print")) {
        let a0 = args[0].meta;
        let a1 = args[1].meta;
        assert(av[0].meta == a0 && av[1].meta == a1);
        let u = st.insert(a0.span, TyInfo::Prim(Prim::Universe));
        st.flow(a0.ty, u);
        let c = st.insert(a1.span, TyInfo::Prim(Prim::Char));
        let l = st.insert(a1.span, TyInfo::List(c));
        st.flow(a1.ty, l);
        let rr = (TyInfo::Prim(Prim::Universe), intrinsic_node(hir::Intrinsic::Print, name.span, args));
        assert((rr.0@, crate::hir::hexpr_v(rr.1), st@) == s_intrinsic(*ctx, old(st)@, scope_v(*scope), span, *name, av));
        rr
    } else if len == 1 && n.same(&Ident::new("input")) {
        let a0 = args[0].meta;
        assert(av[0].meta == a0);
        let u = st.insert(a0.span, TyInfo::Prim(Prim::Universe));
        st.flow(a0.ty, u);
        let c = st.insert(span, TyInfo::Prim(Prim::Char));
        let l = st.insert(span, TyInfo::List(c));
        let mut ts: Vec<TyVar> = Vec::new();
        ts.push(u);
        ts.push(l);
        assert(ts@ =~= seq![u, l]);
        let rr = (TyInfo::Tuple(ts), intrinsic_node(hir::Intrinsic::Input, name.span, args));
        assert((rr.0@, crate::hir::hexpr_v(rr.1), st@) == s_intrinsic(*ctx, old(st)@, scope_v(*scope), span, *name, av));
        rr
    } else if len == 1 && n.same(&Ident::new("len_list")) {
        let a0 = args[0].meta;
        assert(av[0].meta == a0);
        let item = st.unknown(a0.span);
        let list = st.insert(a0.span, TyInfo::List(item));
        st.flow(a0.ty, list);
        let rr = (TyInfo::Prim(Prim::Nat), intrinsic_node(hir::Intrinsic::LenList, name.span, args));
        assert((rr.0@, crate::hir::hexpr_v(rr.1), st@) == s_intrinsic(*ctx, old(st)@, scope_v(*scope), span, *name, av));
        rr
    } else if len == 2 && (n.same(&Ident::new("skip_list")) || n.same(&Ident::new("trim_list"))) {
        let a0 = args[0].meta;
        let a1 = args[1].meta;
        assert(av[0].meta == a0 && av[1].meta == a1);
        let i = if n.same(&Ident::new("skip_list")) {
            hir::Intrinsic::SkipList
        } else {
            hir::Intrinsic::TrimList
        };
        let item = st.unknown(a0.span);
        let list = st.insert(a0.span, TyInfo::List(item));
        st.flow(a0.ty, list);
        let nt = st.insert(a1.span, TyInfo::Prim(Prim::Nat));
        st.flow(a1.ty, nt);
        let rr = (TyInfo::Ref(list), intrinsic_node(i, name.span, args));
        assert((rr.0@, crate::hir::hexpr_v(rr.1), st@) == s_intrinsic(*ctx, old(st)@, scope_v(*scope), span, *name, av));
        rr
    } else if len == 1 && n.same(&Ident::new("suspend")) {
        let a0 = args[0].meta;
        assert(av[0].meta == a0);
        let out = st.unknown(span);
        let eff = basin_of(scope, st, name.span, a0.span);
        st.demand(crate::infer::Demand::SendRecv(eff, a0.ty, out));
        let mut args = args;
        let first = args.remove(0);
        assert(henode_v(first) == av[0]);
        let rr = (TyInfo::Ref(out), hir::Expr::Suspend(eff, Box::new(first)));
        assert((rr.0@, crate::hir::hexpr_v(rr.1), st@) == s_intrinsic(*ctx, old(st)@, scope_v(*scope), span, *name, av));
        rr
    } else {
        st.error(LowerError::InvalidIntrinsic(crate::lower::copy_name(name)));
        let rr = (TyInfo::Error(ErrorReason::Invalid), hir::Expr::Error);
        assert((rr.0@, crate::hir::hexpr_v(rr.1), st@) == s_intrinsic(*ctx, old(st)@, scope_v(*scope), span, *name, av));
        rr
    }
}

/// The effect variable of the innermost block, as `s_basin` says.
fn basin_of(scope: &Scope, st: &mut LowerState, at: Span, fallback: Span) -> (r: EffectVar)
    ensures
        (r, final(st)@) == s_basin(scope_v(*scope), old(st)@, at, fallback),
{
    proof {
        crate::lower::lemma_basin_v(*scope);
    }
    match scope.last_basin() {
        Some(e) => e,
        None => {
            st.error(LowerError::NoBasin(at));
            st.insert_effect(fallback, EffectInfo::Unknown)
        },
    }
}

/// The statements `ns` run in order, then `last`, as `s_chain` says.
fn chain_nodes(ns: Vec<hir::ExprNode>, last: hir::ExprNode) -> (r: hir::ExprNode)
    ensures
        r@ == s_chain(crate::hir::henodes_v(ns@), last@),
{
    let ghost want = s_chain(crate::hir::henodes_v(ns@), last@);
    let mut ns = ns;
    let mut acc = last;
    while ns.len() > 0
        invariant
            s_chain(crate::hir::henodes_v(ns@), acc@) == want,
        decreases ns.len(),
    {
        let ghost before = ns@;
        let k = ns.len() - 1;
        let b = ns.remove(k);
        proof {
            assert(crate::hir::henodes_v(before).drop_last() =~= crate::hir::henodes_v(ns@));
            assert(crate::hir::henodes_v(before).last() == henode_v(b));
        }
        let bm = b.meta;
        let am = acc.meta;
        let ghost accv = acc@;
        let ghost bv = henode_v(b);
        let wild = hir::Binding { pat: SrcNode::new(hir::Pat::Wildcard, bm.span), name: None, meta: bm };
        let ghost wv = hbinding_v(wild);
        let mut arms: Vec<(hir::Binding, hir::ExprNode)> = Vec::new();
        arms.push((wild, acc));
        let x = hir::Expr::Match(false, Box::new(b), arms);
        proof {
            crate::hir::lemma_hir_views(hir::Pat::Error, x);
            assert(wv == BindingV { pat: PatV::Wildcard, pat_span: bv.meta.span, name: None, meta: bv.meta });
            assert(arms@.map_values(|a: (hir::Binding, hir::ExprNode)| (hbinding_v(a.0), henode_v(a.1))) =~= seq![(wv, accv)]);
        }
        acc = hir::ExprNode { expr: x, meta: am };
        assert(acc@ == s_then(bv, accv));
    }
    assert(crate::hir::henodes_v(ns@) =~= Seq::<ENodeV>::empty());
    acc
}

#[verifier::rlimit(40)]
fn kind_more(ctx: &LowerCtx, st: &mut LowerState, scope: &Scope, e: &SrcNode<Expr>) -> (r: (TyInfo, hir::Expr, Span))
    requires
        ctx.wf(),
        *e.inner is LangDef || *e.inner is ClassAccess || *e.inner is Update,
    ensures
        (r.0@, crate::hir::hexpr_v(r.1), r.2, final(st)@) == s_lower_kind(*ctx, old(st)@, scope_v(*scope), *e),
    decreases e, 1nat, 0int,
{
    let span = e.span;
    match &*e.inner {
        Expr::LangDef(l) => {
            let d = match l {
                LangDef::IoUnit => ctx.lang.io_unit,
                LangDef::IoBind => ctx.lang.io_bind,
            };
            let (i, x) = instantiate_def(ctx, st, d, span);
            (i, x, span)
        },
        Expr::ClassAccess(ty, field) => {
            let t = lower_type(ctx, st, ty);
            let ft = st.unknown(field.span);
            st.demand(crate::infer::Demand::ClassMember(t, field.inner().clone(), ft));
            (TyInfo::Ref(ft), hir::Expr::ClassAccess(Meta { span: ty.span, ty: t }, None, SrcNode::new(field.inner().clone(), field.span)), span)
        },
        Expr::Update(r, fields) => {
            let rn = lower_expr(ctx, st, scope, r);
            let rt = rn.meta.ty;
            let fs = lower_updates(ctx, st, scope, fields, rt);
            let x = hir::Expr::Update(Box::new(rn), fs);
            proof {
                crate::hir::lemma_hir_views(hir::Pat::Error, x);
            }
            (TyInfo::Ref(rt), x, span)
        },
        _ => (TyInfo::Error(ErrorReason::Unknown), hir::Expr::Error, span),
    }
}

#[verifier::rlimit(40)]
fn kind_intrinsic(ctx: &LowerCtx, st: &mut LowerState, scope: &Scope, e: &SrcNode<Expr>) -> (r: (TyInfo, hir::Expr, Span))
    requires
        ctx.wf(),
        *e.inner is Intrinsic,
    ensures
        (r.0@, crate::hir::hexpr_v(r.1), r.2, final(st)@) == s_lower_kind(*ctx, old(st)@, scope_v(*scope), *e),
    decreases e, 1nat, 0int,
{
    let span = e.span;
    match &*e.inner {
        Expr::Intrinsic(name, args) => {
            let ns = lower_exprs(ctx, st, scope, args, None);
            let (i, x) = lower_intrinsic(ctx, st, scope, span, name, ns);
            (i, x, span)
        },
        _ => (TyInfo::Error(ErrorReason::Unknown), hir::Expr::Error, span),
    }
}

#[verifier::rlimit(40)]
fn kind_block(ctx: &LowerCtx, st: &mut LowerState, scope: &Scope, e: &SrcNode<Expr>) -> (r: (TyInfo, hir::Expr, Span))
    requires
        ctx.wf(),
        *e.inner is Block,
    ensures
        (r.0@, crate::hir::hexpr_v(r.1), r.2, final(st)@) == s_lower_kind(*ctx, old(st)@, scope_v(*scope), *e),
    decreases e, 1nat, 0int,
{
    let span = e.span;
    match &*e.inner {
        Expr::Block(init, last) => {
            let eff = st.insert_effect(span, EffectInfo::Unknown);
            let inner = scope.with_basin(eff);
            let ns = lower_exprs(ctx, st, &inner, init, None);
            let ln = lower_expr(ctx, st, &inner, last);
            let lt = ln.meta.ty;
            let c = chain_nodes(ns, ln);
            (TyInfo::Effect(eff, lt), hir::Expr::Basin(eff, Box::new(c)), span)
        },
        _ => (TyInfo::Error(ErrorReason::Unknown), hir::Expr::Error, span),
    }
}

#[verifier::rlimit(40)]
fn kind_handle(ctx: &LowerCtx, st: &mut LowerState, scope: &Scope, e: &SrcNode<Expr>) -> (r: (TyInfo, hir::Expr, Span))
    requires
        ctx.wf(),
        *e.inner is Handle,
    ensures
        (r.0@, crate::hir::hexpr_v(r.1), r.2, final(st)@) == s_lower_kind(*ctx, old(st)@, scope_v(*scope), *e),
    decreases e, 1nat, 0int,
{
    let span = e.span;
    match &*e.inner {
        Expr::Handle { expr, eff_name, eff_args, send, recv } => {
            let xn = lower_expr(ctx, st, scope, expr);
            let sv = lower_binding(ctx, st, send);
            let ls = locals(&sv);
            let sl = ls.as_slice();
            let inner = scope.with_many(sl);
            let rn = lower_expr(ctx, st, &inner, recv);
            let args = lower_types(ctx, st, eff_args);
            let out = st.unknown(span);
            let (i, x) = handle(ctx, st, span, xn, eff_name, args, sv, rn, out);
            (i, x, span)
        },
        _ => (TyInfo::Error(ErrorReason::Unknown), hir::Expr::Error, span),
    }
}

/// A handler of the effect named `name`, as `s_handle` says.
fn handle(
    ctx: &LowerCtx,
    st: &mut LowerState,
    span: Span,
    xn: hir::ExprNode,
    name: &SrcNode<Ident>,
    args: Vec<TyVar>,
    sv: hir::Binding,
    rn: hir::ExprNode,
    out: TyVar,
) -> (r: (TyInfo, hir::Expr))
    ensures
        (r.0@, crate::hir::hexpr_v(r.1), final(st)@) == s_handle(*ctx, old(st)@, span, xn@, *name, args@, sv@, rn@, out),
{
    match position(&ctx.effects, name.inner()) {
        Some(e) => {
            let decl = &ctx.effects[e];
            match enforce_generic_obligations(&decl.generics, args.as_slice(), span, decl.name.span) {
                Ok(reqs) => {
                    st.require(reqs);
                    let eff = st.insert_effect(span, EffectInfo::Known(EffectId(e), args));
                    st.demand(crate::infer::Demand::SendRecv(eff, sv.meta.ty, rn.meta.ty));
                    let eo = st.insert(xn.meta.span, TyInfo::Effect(eff, out));
                    st.flow(xn.meta.ty, eo);
                    let sm = sv.meta;
                    let rm = rn.meta;
                    let local = hir::ExprNode { expr: hir::Expr::Local(Ident::new("send")), meta: sm };
                    let ghost svv = sv@;
                    let ghost rnv = rn@;
                    let mut arms: Vec<(hir::Binding, hir::ExprNode)> = Vec::new();
                    arms.push((sv, rn));
                    let m = hir::ExprNode { expr: hir::Expr::Match(false, Box::new(local), arms), meta: rm };
                    proof {
                        crate::hir::lemma_hir_views(hir::Pat::Error, m.expr);
                        assert(arms@.map_values(|a: (hir::Binding, hir::ExprNode)| (hbinding_v(a.0), henode_v(a.1))) =~= seq![(svv, rnv)]);
                    }
                    (TyInfo::Ref(out), hir::Expr::Handle { expr: Box::new(xn), eff, send: (Ident::new("send"), sm), recv: Box::new(m) })
                },
                Err(err) => {
                    st.error(err);
                    (TyInfo::Error(ErrorReason::Unknown), hir::Expr::Error)
                },
            }
        },
        None => {
            st.error(LowerError::NoSuchEffect(crate::lower::copy_name(name)));
            (TyInfo::Error(ErrorReason::Invalid), hir::Expr::Error)
        },
    }
}

/// Lowers the bindings of the `let` expression `e` from the `i`th on, then its
/// body, as `s_lower_lets` says.
fn lower_lets(ctx: &LowerCtx, st: &mut LowerState, scope: &Scope, e: &SrcNode<Expr>, i: usize) -> (r: hir::ExprNode)
    requires
        ctx.wf(),
        i <= let_count(*e),
    ensures
        (r@, final(st)@) == s_lower_lets(*ctx, old(st)@, scope_v(*scope), *e, i as int),
    decreases e, 0nat, let_count(*e) - i,
{
    match &*e.inner {
        Expr::Let(lets, then) => {
            if i < lets.len() {
                let bv = lower_binding(ctx, st, &lets[i].0);
                let vn = lower_expr(ctx, st, scope, &lets[i].1);
                st.flow(vn.meta.ty, bv.meta.ty);
                let ls = locals(&bv);
                let sl = ls.as_slice();
                let inner = scope.with_many(sl);
                let tn = lower_lets(ctx, st, &inner, e, i + 1);
                let m = Meta { span: bv.meta.span, ty: tn.meta.ty };
                let ghost bvv = bv@;
                let ghost tnv = tn@;
                let mut arms: Vec<(hir::Binding, hir::ExprNode)> = Vec::new();
                arms.push((bv, tn));
                let x = hir::Expr::Match(false, Box::new(vn), arms);
                proof {
                    crate::hir::lemma_hir_views(hir::Pat::Error, x);
                    assert(arms@.map_values(|a: (hir::Binding, hir::ExprNode)| (hbinding_v(a.0), henode_v(a.1))) =~= seq![(bvv, tnv)]);
                }
                hir::ExprNode { expr: x, meta: m }
            } else {
                lower_expr(ctx, st, scope, then)
            }
        },
        _ => hir::ExprNode { expr: hir::Expr::Error, meta: Meta { span: Span { start: 0, end: 0 }, ty: TyVar(0) } },
    }
}

/// Lowers expressions in order, as `s_lower_exprs` says.
fn lower_exprs(ctx: &LowerCtx, st: &mut LowerState, scope: &Scope, items: &Vec<SrcNode<Expr>>, into: Option<TyVar>) -> (r: Vec<hir::ExprNode>)
    requires
        ctx.wf(),
    ensures
        (crate::hir::henodes_v(r@), final(st)@) == s_lower_exprs(*ctx, old(st)@, scope_v(*scope), items@, into),
    decreases items, 0nat, 0int,
{
    let ghost st0 = st@;
    let mut ns: Vec<hir::ExprNode> = Vec::new();
    let mut i: usize = 0;
    while i < items.len()
        invariant
            ctx.wf(),
            i <= items@.len(),
            (crate::hir::henodes_v(ns@), st@) == s_lower_exprs(*ctx, st0, scope_v(*scope), items@.take(i as int), into),
        decreases items.len() - i,
    {
        proof {
            assert(items@.take(i + 1).drop_last() =~= items@.take(i as int));
        }
        let n = lower_expr(ctx, st, scope, &items[i]);
        if let Some(t) = into {
            st.flow(n.meta.ty, t);
        }
        let ghost before = ns@;
        ns.push(n);
        proof {
            assert(crate::hir::henodes_v(ns@) =~= crate::hir::henodes_v(before).push(henode_v(n)));
        }
        i = i + 1;
    }
    assert(items@.take(i as int) =~= items@);
    ns
}

/// Lowers the fields of a record expression in order, as `s_lower_efields` says.
fn lower_efields(ctx: &LowerCtx, st: &mut LowerState, scope: &Scope, fields: &Vec<(SrcNode<Ident>, SrcNode<Expr>)>) -> (r: Vec<(SrcNode<Ident>, hir::ExprNode)>)
    requires
        ctx.wf(),
    ensures
        (r@.map_values(|f: (SrcNode<Ident>, hir::ExprNode)| (sname_v(f.0), henode_v(f.1))), final(st)@) == s_lower_efields(
            *ctx,
            old(st)@,
            scope_v(*scope),
            fields@,
        ),
    decreases fields, 0nat, 0int,
{
    let ghost st0 = st@;
    let mut fs: Vec<(SrcNode<Ident>, hir::ExprNode)> = Vec::new();
    let mut i: usize = 0;
    while i < fields.len()
        invariant
            ctx.wf(),
            i <= fields@.len(),
            (fs@.map_values(|f: (SrcNode<Ident>, hir::ExprNode)| (sname_v(f.0), henode_v(f.1))), st@) == s_lower_efields(
                *ctx,
                st0,
                scope_v(*scope),
                fields@.take(i as int),
            ),
        decreases fields.len() - i,
    {
        proof {
            assert(fields@.take(i + 1).drop_last() =~= fields@.take(i as int));
        }
        let n = lower_expr(ctx, st, scope, &fields[i].1);
        let ghost before = fs@;
        let name = SrcNode::new(fields[i].0.inner().clone(), fields[i].0.span);
        fs.push((name, n));
        proof {
            assert(fs@.map_values(|f: (SrcNode<Ident>, hir::ExprNode)| (sname_v(f.0), henode_v(f.1))) =~= before.map_values(
                |f: (SrcNode<Ident>, hir::ExprNode)| (sname_v(f.0), henode_v(f.1)),
            ).push((sname_v(fields@[i as int].0), henode_v(n))));
        }
        i = i + 1;
    }
    assert(fields@.take(i as int) =~= fields@);
    fs
}

/// Lowers the fields of a record update in order, as `s_lower_updates` says.
fn lower_updates(ctx: &LowerCtx, st: &mut LowerState, scope: &Scope, fields: &Vec<(SrcNode<Ident>, SrcNode<Expr>)>, rty: TyVar) -> (r: Vec<(SrcNode<Ident>, hir::ExprNode)>)
    requires
        ctx.wf(),
    ensures
        (r@.map_values(|f: (SrcNode<Ident>, hir::ExprNode)| (sname_v(f.0), henode_v(f.1))), final(st)@) == s_lower_updates(
            *ctx,
            old(st)@,
            scope_v(*scope),
            fields@,
            rty,
        ),
    decreases fields, 0nat, 0int,
{
    let ghost st0 = st@;
    let mut fs: Vec<(SrcNode<Ident>, hir::ExprNode)> = Vec::new();
    let mut i: usize = 0;
    while i < fields.len()
        invariant
            ctx.wf(),
            i <= fields@.len(),
            (fs@.map_values(|f: (SrcNode<Ident>, hir::ExprNode)| (sname_v(f.0), henode_v(f.1))), st@) == s_lower_updates(
                *ctx,
                st0,
                scope_v(*scope),
                fields@.take(i as int),
                rty,
            ),
        decreases fields.len() - i,
    {
        proof {
            assert(fields@.take(i + 1).drop_last() =~= fields@.take(i as int));
        }
        let n = lower_expr(ctx, st, scope, &fields[i].1);
        st.demand(crate::infer::Demand::Update(rty, fields[i].0.inner().clone(), n.meta.ty));
        let ghost before = fs@;
        let name = SrcNode::new(fields[i].0.inner().clone(), fields[i].0.span);
        fs.push((name, n));
        proof {
            assert(fs@.map_values(|f: (SrcNode<Ident>, hir::ExprNode)| (sname_v(f.0), henode_v(f.1))) =~= before.map_values(
                |f: (SrcNode<Ident>, hir::ExprNode)| (sname_v(f.0), henode_v(f.1)),
            ).push((sname_v(fields@[i as int].0), henode_v(n))));
        }
        i = i + 1;
    }
    assert(fields@.take(i as int) =~= fields@);
    fs
}

/// Lowers a group of expressions into one tuple, as `s_tupleify_expr` says.
pub fn tupleify_expr(ctx: &LowerCtx, st: &mut LowerState, scope: &Scope, items: &SrcNode<Vec<SrcNode<Expr>>>) -> (r: hir::ExprNode)
    requires
        ctx.wf(),
    ensures
        (r@, final(st)@) == s_tupleify_expr(*ctx, old(st)@, scope_v(*scope), *items),
    decreases items, 0nat, 0int,
{
    let ns = lower_exprs(ctx, st, scope, &items.inner, None);
    let tys = node_tys(&ns);
    let t = st.insert(items.span, TyInfo::Tuple(tys));
    let x = hir::Expr::Tuple(ns);
    proof {
        crate::hir::lemma_hir_views(hir::Pat::Error, x);
    }
    hir::ExprNode { expr: x, meta: Meta { span: items.span, ty: t } }
}

/// Lowers the branches of a match in order, as `s_lower_arms` says.
fn lower_arms(ctx: &LowerCtx, st: &mut LowerState, scope: &Scope, arms: &Vec<Branch>, pred_ty: TyVar, out: TyVar) -> (r: Vec<(hir::Binding, hir::ExprNode)>)
    requires
        ctx.wf(),
    ensures
        (r@.map_values(|a: (hir::Binding, hir::ExprNode)| (hbinding_v(a.0), henode_v(a.1))), final(st)@) == s_lower_arms(
            *ctx,
            old(st)@,
            scope_v(*scope),
            arms@,
            pred_ty,
            out,
        ),
    decreases arms, 0nat, 0int,
{
    let ghost st0 = st@;
    let mut r: Vec<(hir::Binding, hir::ExprNode)> = Vec::new();
    let mut i: usize = 0;
    while i < arms.len()
        invariant
            ctx.wf(),
            i <= arms@.len(),
            (r@.map_values(|a: (hir::Binding, hir::ExprNode)| (hbinding_v(a.0), henode_v(a.1))), st@) == s_lower_arms(
                *ctx,
                st0,
                scope_v(*scope),
                arms@.take(i as int),
                pred_ty,
                out,
            ),
        decreases arms.len() - i,
    {
        proof {
            assert(arms@.take(i + 1).drop_last() =~= arms@.take(i as int));
        }
        let bv = tupleify_binding(ctx, st, &arms[i].0);
        st.flow(pred_ty, bv.meta.ty);
        let ls = locals(&bv);
        let sl = ls.as_slice();
        let inner = scope.with_many(sl);
        let body = lower_expr(ctx, st, &inner, &arms[i].1);
        st.flow(body.meta.ty, out);
        let ghost before = r@;
        let ghost pair = (hbinding_v(bv), henode_v(body));
        r.push((bv, body));
        proof {
            assert(r@.map_values(|a: (hir::Binding, hir::ExprNode)| (hbinding_v(a.0), henode_v(a.1))) =~= before.map_values(
                |a: (hir::Binding, hir::ExprNode)| (hbinding_v(a.0), henode_v(a.1)),
            ).push(pair));
        }
        i = i + 1;
    }
    assert(arms@.take(i as int) =~= arms@);
    r
}

/// A node of the syntax tree that lowers into the lowered tree.
pub trait ToHir: Sized {
    type Output;

    /// Whether `out` and the state `after` are what lowering `node` from the
    /// state `st` in the scope `sc` gives.
    spec fn lowers_to(ctx: LowerCtx, st: StateV, sc: ScopeV, node: SrcNode<Self>, out: Self::Output, after: StateV) -> bool;

    /// Lowers `node` in `scope`.
    fn to_hir(node: &SrcNode<Self>, ctx: &LowerCtx, st: &mut LowerState, scope: &Scope) -> (r: Self::Output)
        requires
            ctx.wf(),
        ensures
            Self::lowers_to(*ctx, old(st)@, scope_v(*scope), *node, r, final(st)@),
    ;
}

impl ToHir for crate::ast::Type {
    type Output = TyVar;

    /// A type lowers as `s_lower_type` says; the scope plays no part.
    open spec fn lowers_to(ctx: LowerCtx, st: StateV, sc: ScopeV, node: SrcNode<Self>, out: TyVar, after: StateV) -> bool {
        (out, after) == crate::lower::types::s_lower_type(ctx, st, node)
    }

    fn to_hir(node: &SrcNode<Self>, ctx: &LowerCtx, st: &mut LowerState, scope: &Scope) -> (r: TyVar) {
        crate::lower::types::lower_type(ctx, st, node)
    }
}

impl ToHir for crate::ast::Binding {
    type Output = hir::Binding;

    /// A binding lowers as `s_lower_binding` says; the scope plays no part.
    open spec fn lowers_to(ctx: LowerCtx, st: StateV, sc: ScopeV, node: SrcNode<Self>, out: hir::Binding, after: StateV) -> bool {
        (out@, after) == s_lower_binding(ctx, st, node)
    }

    fn to_hir(node: &SrcNode<Self>, ctx: &LowerCtx, st: &mut LowerState, scope: &Scope) -> (r: hir::Binding) {
        lower_binding(ctx, st, node)
    }
}

impl ToHir for Expr {
    type Output = hir::ExprNode;

    /// An expression lowers as `s_lower_expr` says.
    open spec fn lowers_to(ctx: LowerCtx, st: StateV, sc: ScopeV, node: SrcNode<Self>, out: hir::ExprNode, after: StateV) -> bool {
        (out@, after) == s_lower_expr(ctx, st, sc, node)
    }

    fn to_hir(node: &SrcNode<Self>, ctx: &LowerCtx, st: &mut LowerState, scope: &Scope) -> (r: hir::ExprNode) {
        lower_expr(ctx, st, scope, node)
    }
}

} // verus!
