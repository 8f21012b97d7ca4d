use vstd::prelude::*;

use crate::ast::Type;
use crate::ident::Ident;
use crate::infer::{s_demand, s_insert_effect, DemandV, EffectId, EffectInfo, EffectInfoV, Demand, ErrorReason, lookup, position, s_error, s_flow, s_impls, s_insert, LowerCtx, LowerState, StateV, TyInfo, TyInfoV};
use crate::lower::{copy_name, enforce_generic_obligations, obligations_of, requests, LowerError, TyVar};
use crate::span::{Span, SrcNode};
use crate::ty::{DataId, Prim};

verus! {

/// The primitive type that a name stands for, if it names one.
pub open spec fn prim_named(name: Seq<char>) -> Option<Prim> {
    if name == "Nat"@ {
        Some(Prim::Nat)
    } else if name == "Int"@ {
        Some(Prim::Int)
    } else if name == "Num"@ {
        Some(Prim::Num)
    } else if name == "Bool"@ {
        Some(Prim::Bool)
    } else if name == "Char"@ {
        Some(Prim::Char)
    } else {
        None
    }
}

/// Whether a name written without parameters is built in: `Self` or a primitive type.
pub open spec fn builtin_named(name: Seq<char>) -> bool {
    name == "Self"@ || prim_named(name) is Some
}

/// A built-in type name written without parameters at `name_span`: the primitive
/// type, or for `Self` the type it stands for here, else an error.
pub open spec fn s_builtin(ctx: LowerCtx, st: StateV, name: Seq<char>, name_span: Span) -> (TyInfoV, StateV) {
    match prim_named(name) {
        Some(p) => (TyInfoV::Prim(p), st),
        None => match ctx.self_ty {
            Some(v) => (TyInfoV::Ref(v), st),
            None => (TyInfoV::Error(ErrorReason::Invalid), s_error(st, LowerError::SelfNotValidHere(name_span))),
        },
    }
}

/// A type named `name` with the parameters `ps`, written at `span`: a generic
/// parameter of the enclosing item, else an alias (instantiated with the
/// parameters), else a data type (whose generic obligations the parameters
/// must meet), else an error.
pub open spec fn s_named(ctx: LowerCtx, st: StateV, span: Span, name: SrcNode<Ident>, ps: Seq<TyVar>) -> (TyInfoV, StateV) {
    let n = (*name.inner)@;
    let gen = match ctx.gen_scope {
        Some(gs) => match lookup(gs.params@, n) {
            Some(i) => Some((i, gs.params@[i as int].name.span)),
            None => None,
        },
        None => None,
    };
    match gen {
        Some((i, s)) => (TyInfoV::Gen(i as usize, s), st),
        None => match lookup(ctx.aliases@, n) {
            Some(a) => match ctx.aliases@[a as int].body {
                Some((ags, aty)) => if ags.params@.len() != ps.len() {
                    (TyInfoV::Error(ErrorReason::Unknown), s_error(st, LowerError::WrongNumberOfGenerics(span, ps.len() as usize, ags.span, ags.params@.len() as usize)))
                } else {
                    let (actual, s1) = s_insert(st, span, TyInfoV::Instance(aty, ps));
                    let (inner, s2) = s_insert(s1, span, TyInfoV::Unknown(None));
                    (TyInfoV::Ref(inner), s_flow(s2, actual, inner))
                },
                None => {
                    let (err, s1) = s_insert(st, span, TyInfoV::Error(ErrorReason::Unknown));
                    (TyInfoV::Ref(err), s_error(s1, LowerError::RecursiveAlias(name.span)))
                },
            },
            None => match lookup(ctx.datas@, n) {
                Some(d) => {
                    let decl = ctx.datas@[d as int];
                    if decl.generics.params@.len() != ps.len() {
                        (TyInfoV::Error(ErrorReason::Unknown), s_error(st, LowerError::WrongNumberOfGenerics(
                            span,
                            ps.len() as usize,
                            if decl.generics.params@.len() == 0 { decl.span } else { decl.generics.span },
                            decl.generics.params@.len() as usize,
                        )))
                    } else {
                        (TyInfoV::Data(DataId::spec_new(d), ps), s_impls(st, requests(ps, obligations_of(decl.generics), span)))
                    }
                },
                None => (TyInfoV::Error(ErrorReason::Invalid), s_error(st, LowerError::NoSuchData(name))),
            },
        },
    }
}

/// The effect named `name` with the parameters `ps`, giving values of type `out`,
/// written at `span`: an effect variable for the declared effect, whose generic
/// obligations the parameters must meet; an error where no effect has the name.
pub open spec fn s_effect_type(ctx: LowerCtx, st: StateV, span: Span, name: SrcNode<Ident>, ps: Seq<TyVar>, out: TyVar) -> (TyInfoV, StateV) {
    match lookup(ctx.effects@, (*name.inner)@) {
        Some(e) => {
            let decl = ctx.effects@[e as int];
            if decl.generics.params@.len() != ps.len() {
                (TyInfoV::Error(ErrorReason::Unknown), s_error(st, LowerError::WrongNumberOfGenerics(
                    span,
                    ps.len() as usize,
                    if decl.generics.params@.len() == 0 { decl.name.span } else { decl.generics.span },
                    decl.generics.params@.len() as usize,
                )))
            } else {
                let s1 = s_impls(st, requests(ps, obligations_of(decl.generics), span));
                let (eff, s2) = s_insert_effect(s1, span, EffectInfoV::Known(EffectId(e as usize), ps));
                (TyInfoV::Effect(eff, out), s2)
            }
        },
        None => (TyInfoV::Error(ErrorReason::Invalid), s_error(st, LowerError::NoSuchEffect(name))),
    }
}

/// Lowering a written type: the variable that stands for it, and the state after.
pub open spec fn s_lower_type(ctx: LowerCtx, st: StateV, t: SrcNode<Type>) -> (TyVar, StateV)
    decreases t,
{
    let (info, st1) = match *t.inner {
        Type::Error => (TyInfoV::Error(ErrorReason::Unknown), st),
        Type::Unknown => (TyInfoV::Unknown(None), st),
        Type::List(item) => {
            let (v, s) = s_lower_type(ctx, st, item);
            (TyInfoV::List(v), s)
        },
        Type::Tuple(items) => {
            let (vs, s) = s_lower_types(ctx, st, items@);
            (TyInfoV::Tuple(vs), s)
        },
        Type::Record(fields) => {
            let (fs, s) = s_lower_tfields(ctx, st, fields@);
            (TyInfoV::Record(fs), s)
        },
        Type::Func(i, o) => {
            let (a, s1) = s_lower_type(ctx, st, i);
            let (b, s2) = s_lower_type(ctx, s1, o);
            (TyInfoV::Func(a, b), s2)
        },
        Type::Data(name, params) => if params@.len() == 0 && builtin_named((*name.inner)@) {
            s_builtin(ctx, st, (*name.inner)@, name.span)
        } else {
            let (ps, s) = s_lower_types(ctx, st, params@);
            s_named(ctx, s, t.span, name, ps)
        },
        Type::Universe => (TyInfoV::Prim(Prim::Universe), st),
        Type::Assoc(inner, assoc) => {
            let (i, s1) = s_lower_type(ctx, st, inner);
            let (a, s2) = s_insert(s1, t.span, TyInfoV::Unknown(None));
            (TyInfoV::Ref(a), s_demand(s2, DemandV::ClassAssoc(i, (*assoc.inner)@, a)))
        },
        Type::Effect(name, params, out) => {
            let (ps, s1) = s_lower_types(ctx, st, params@);
            let (o, s2) = s_lower_type(ctx, s1, out);
            s_effect_type(ctx, s2, t.span, name, ps, o)
        },
    };
    s_insert(st1, t.span, info)
}

/// Lowering written types in order.
pub open spec fn s_lower_types(ctx: LowerCtx, st: StateV, items: Seq<SrcNode<Type>>) -> (Seq<TyVar>, StateV)
    decreases items,
{
    if items.len() == 0 {
        (Seq::empty(), st)
    } else {
        let (vs, s1) = s_lower_types(ctx, st, items.drop_last());
        let (v, s2) = s_lower_type(ctx, s1, items.last());
        (vs.push(v), s2)
    }
}

/// Lowering the fields of a written record type in order.
pub open spec fn s_lower_tfields(ctx: LowerCtx, st: StateV, fields: Seq<(SrcNode<Ident>, SrcNode<Type>)>) -> (Seq<(Seq<char>, TyVar)>, StateV)
    decreases fields,
{
    if fields.len() == 0 {
        (Seq::empty(), st)
    } else {
        let (fs, s1) = s_lower_tfields(ctx, st, fields.drop_last());
        let (v, s2) = s_lower_type(ctx, s1, fields.last().1);
        (fs.push(((*fields.last().0.inner)@, v)), s2)
    }
}

/// The built-in type written as `name` with no parameters.
fn lower_builtin(ctx: &LowerCtx, st: &mut LowerState, name: &SrcNode<Ident>) -> (r: TyInfo)
    requires
        builtin_named((*name.inner)@),
    ensures
        (r@, final(st)@) == s_builtin(*ctx, old(st)@, (*name.inner)@, name.span),
{
    let n = name.inner();
    if n.same(&Ident::new("Nat")) {
        TyInfo::Prim(Prim::Nat)
    } else if n.same(&Ident::new("Int")) {
        TyInfo::Prim(Prim::Int)
    } else if n.same(&Ident::new("Num")) {
        TyInfo::Prim(Prim::Num)
    } else if n.same(&Ident::new("Bool")) {
        TyInfo::Prim(Prim::Bool)
    } else if n.same(&Ident::new("Char")) {
        TyInfo::Prim(Prim::Char)
    } else {
        match ctx.self_ty {
            Some(v) => TyInfo::Ref(v),
            None => {
                st.error(LowerError::SelfNotValidHere(name.span));
                TyInfo::Error(ErrorReason::Invalid)
            },
        }
    }
}

/// Whether `name` is built in, as `builtin_named` says.
fn is_builtin(name: &Ident) -> (r: bool)
    ensures
        r == builtin_named(name@),
{
    name.same(&Ident::new("Self")) || name.same(&Ident::new("Nat")) || name.same(&Ident::new("Int"))
        || name.same(&Ident::new("Num")) || name.same(&Ident::new("Bool")) || name.same(&Ident::new("Char"))
}

/// The type named `name` with the lowered parameters `ps`, as `s_named` says.
fn lower_named(ctx: &LowerCtx, st: &mut LowerState, span: Span, name: &SrcNode<Ident>, ps: Vec<TyVar>) -> (r: TyInfo)
    ensures
        (r@, final(st)@) == s_named(*ctx, old(st)@, span, *name, ps@),
{
    if let Some(gs) = &ctx.gen_scope {
        if let Some(i) = position(&gs.params, name.inner()) {
            return TyInfo::Gen(i, gs.params[i].name.span);
        }
    }
    if let Some(a) = position(&ctx.aliases, name.inner()) {
        match &ctx.aliases[a].body {
            Some((ags, aty)) => {
                if ags.params.len() != ps.len() {
                    st.error(LowerError::WrongNumberOfGenerics(span, ps.len(), ags.span, ags.params.len()));
                    TyInfo::Error(ErrorReason::Unknown)
                } else {
                    let actual = st.insert(span, TyInfo::Instance(*aty, ps));
                    let inner = st.unknown(span);
                    st.flow(actual, inner);
                    TyInfo::Ref(inner)
                }
            },
            None => {
                let err = st.insert(span, TyInfo::Error(ErrorReason::Unknown));
                st.error(LowerError::RecursiveAlias(name.span));
                TyInfo::Ref(err)
            },
        }
    } else if let Some(d) = position(&ctx.datas, name.inner()) {
        let decl = &ctx.datas[d];
        match enforce_generic_obligations(&decl.generics, ps.as_slice(), span, decl.span) {
            Ok(reqs) => {
                st.require(reqs);
                TyInfo::Data(DataId::new(d), ps)
            },
            Err(e) => {
                st.error(e);
                TyInfo::Error(ErrorReason::Unknown)
            },
        }
    } else {
        st.error(LowerError::NoSuchData(copy_name(name)));
        TyInfo::Error(ErrorReason::Invalid)
    }
}

/// The effect type named `name`, as `s_effect_type` says.
fn lower_effect_type(ctx: &LowerCtx, st: &mut LowerState, span: Span, name: &SrcNode<Ident>, ps: Vec<TyVar>, out: TyVar) -> (r: TyInfo)
    ensures
        (r@, final(st)@) == s_effect_type(*ctx, old(st)@, span, *name, ps@, out),
{
    match position(&ctx.effects, name.inner()) {
        Some(e) => {
            let decl = &ctx.effects[e];
            match enforce_generic_obligations(&decl.generics, ps.as_slice(), span, decl.name.span) {
                Ok(reqs) => {
                    st.require(reqs);
                    let eff = st.insert_effect(span, EffectInfo::Known(EffectId(e), ps));
                    TyInfo::Effect(eff, out)
                },
                Err(err) => {
                    st.error(err);
                    TyInfo::Error(ErrorReason::Unknown)
                },
            }
        },
        None => {
            st.error(LowerError::NoSuchEffect(copy_name(name)));
            TyInfo::Error(ErrorReason::Invalid)
        },
    }
}

/// Lowers a written type: creates the variables for it and its parts, and
/// records what its names demand, as `s_lower_type` says.
pub fn lower_type(ctx: &LowerCtx, st: &mut LowerState, t: &SrcNode<Type>) -> (r: TyVar)
    ensures
        (r, final(st)@) == s_lower_type(*ctx, old(st)@, *t),
    decreases t,
{
    let info = match &*t.inner {
        Type::Error => TyInfo::Error(ErrorReason::Unknown),
        Type::Unknown => TyInfo::Unknown(None),
        Type::List(item) => TyInfo::List(lower_type(ctx, st, item)),
        Type::Tuple(items) => TyInfo::Tuple(lower_types(ctx, st, items)),
        Type::Record(fields) => TyInfo::Record(lower_tfields(ctx, st, fields)),
        Type::Func(i, o) => {
            let a = lower_type(ctx, st, i);
            let b = lower_type(ctx, st, o);
            TyInfo::Func(a, b)
        },
        Type::Data(name, params) => {
            if params.len() == 0 && is_builtin(name.inner()) {
                lower_builtin(ctx, st, name)
            } else {
                let ps = lower_types(ctx, st, params);
                lower_named(ctx, st, t.span, name, ps)
            }
        },
        Type::Universe => TyInfo::Prim(Prim::Universe),
        Type::Assoc(inner, assoc) => {
            let i = lower_type(ctx, st, inner);
            let a = st.unknown(t.span);
            st.demand(Demand::ClassAssoc(i, assoc.inner().clone(), a));
            TyInfo::Ref(a)
        },
        Type::Effect(name, params, out) => {
            let ps = lower_types(ctx, st, params);
            let o = lower_type(ctx, st, out);
            lower_effect_type(ctx, st, t.span, name, ps, o)
        },
    };
    st.insert(t.span, info)
}

/// Lowers written types in order, as `s_lower_types` says.
pub fn lower_types(ctx: &LowerCtx, st: &mut LowerState, items: &Vec<SrcNode<Type>>) -> (r: Vec<TyVar>)
    ensures
        (r@, final(st)@) == s_lower_types(*ctx, old(st)@, items@),
    decreases items,
{
    let ghost st0 = st@;
    let mut vs: Vec<TyVar> = Vec::new();
    let mut i: usize = 0;
    while i < items.len()
        invariant
            i <= items@.len(),
            (vs@, st@) == s_lower_types(*ctx, st0, items@.take(i as int)),
        decreases items.len() - i,
    {
        proof {
            assert(items@.take(i + 1).drop_last() =~= items@.take(i as int));
        }
        let v = lower_type(ctx, st, &items[i]);
        vs.push(v);
        i = i + 1;
    }
    assert(items@.take(i as int) =~= items@);
    vs
}

/// Lowers the fields of a written record type in order, as `s_lower_tfields` says.
fn lower_tfields(ctx: &LowerCtx, st: &mut LowerState, fields: &Vec<(SrcNode<Ident>, SrcNode<Type>)>) -> (r: Vec<(Ident, TyVar)>)
    ensures
        (r@.map_values(|f: (Ident, TyVar)| (f.0@, f.1)), final(st)@) == s_lower_tfields(*ctx, old(st)@, fields@),
    decreases fields,
{
    let ghost st0 = st@;
    let mut fs: Vec<(Ident, TyVar)> = Vec::new();
    let mut i: usize = 0;
    while i < fields.len()
        invariant
            i <= fields@.len(),
            (fs@.map_values(|f: (Ident, TyVar)| (f.0@, f.1)), st@) == s_lower_tfields(*ctx, st0, fields@.take(i as int)),
        decreases fields.len() - i,
    {
        proof {
            assert(fields@.take(i + 1).drop_last() =~= fields@.take(i as int));
        }
        let v = lower_type(ctx, st, &fields[i].1);
        let ghost before = fs@;
        fs.push((fields[i].0.inner().clone(), v));
        proof {
            assert(fs@.map_values(|f: (Ident, TyVar)| (f.0@, f.1)) =~= before.map_values(|f: (Ident, TyVar)| (f.0@, f.1)).push(
                ((*fields@[i as int].0.inner)@, v),
            ));
        }
        i = i + 1;
    }
    assert(fields@.take(i as int) =~= fields@);
    fs
}

} // verus!
