use vstd::prelude::*;
use vstd::string::StrSliceExecFns;

use crate::ast::{BinaryOp, Binding, Literal, LiteralV, Pat};
use crate::hir;
use crate::hir::{hbinding_v, BindingV, Meta, PatV};
use crate::ident::Ident;
use crate::infer::{ErrorReason, copy_vars, lookup, position, s_error, s_flow, s_impls, s_insert, GenericParam, LowerCtx, LowerState, StateV, TyInfo, TyInfoV};
use crate::lower::types::{lower_type, s_lower_type};
use crate::lower::{enforce_generic_obligations, litr_ty_info, obligations_of, requests, s_litr_ty_info, LowerError, TyVar};
use crate::span::{Span, SrcNode};
use crate::ty::{DataId, Prim};

verus! {

/// The name a binding binds, as the lowered tree holds it.
pub open spec fn bname_v(n: Option<SrcNode<Ident>>) -> Option<(Seq<char>, Span)> {
    match n {
        Some(n) => Some(((*n.inner)@, n.span)),
        None => None,
    }
}

/// The patterns that match a string literal character by character, each at
/// `span` and of the character type `c`.
pub open spec fn char_pats(text: Seq<char>, span: Span, c: TyVar) -> Seq<BindingV> {
    text.map_values(|ch: char| char_pat(ch, span, c))
}

/// The pattern matching the character `ch`, at `span` and of the character type `c`.
pub open spec fn char_pat(ch: char, span: Span, c: TyVar) -> BindingV {
    BindingV { pat: PatV::Literal(LiteralV::Char(ch)), pat_span: span, name: None, meta: Meta { span, ty: c } }
}

/// Whether the name `a` comes before `b`: character by character, by code
/// point, a proper prefix first.
pub open spec fn name_lt(a: Seq<char>, b: Seq<char>) -> bool
    decreases a.len(),
{
    if a.len() == 0 {
        b.len() > 0
    } else if b.len() == 0 {
        false
    } else if a[0] != b[0] {
        (a[0] as u32) < (b[0] as u32)
    } else {
        name_lt(a.drop_first(), b.drop_first())
    }
}

/// The fields `fs`, kept in order of their names, with the field `f` put in:
/// in place of a field of the same name, else before the first field whose
/// name comes after its own.
pub open spec fn place(fs: Seq<(Seq<char>, BindingV)>, f: (Seq<char>, BindingV)) -> Seq<(Seq<char>, BindingV)>
    decreases fs.len(),
{
    if fs.len() == 0 {
        seq![f]
    } else if fs[0].0 == f.0 {
        seq![f] + fs.drop_first()
    } else if name_lt(f.0, fs[0].0) {
        seq![f] + fs
    } else {
        seq![fs[0]] + place(fs.drop_first(), f)
    }
}

/// The fields of a record pattern as a map from names, in order of the names:
/// where a name is written more than once, its last field counts.
pub open spec fn record_of(fs: Seq<(Seq<char>, BindingV)>) -> Seq<(Seq<char>, BindingV)>
    decreases fs.len(),
{
    if fs.len() == 0 {
        Seq::empty()
    } else {
        place(record_of(fs.drop_last()), fs.last())
    }
}

proof fn lemma_name_lt_skip(a: Seq<char>, b: Seq<char>, i: int)
    requires
        0 <= i <= a.len(),
        i <= b.len(),
        forall|j: int| 0 <= j < i ==> a[j] == b[j],
    ensures
        name_lt(a, b) == name_lt(a.skip(i), b.skip(i)),
    decreases i,
{
    if i > 0 {
        assert(a[0] == b[0]);
        assert forall|j: int| 0 <= j < i - 1 implies a.drop_first()[j] == b.drop_first()[j] by {
            assert(a.drop_first()[j] == a[j + 1]);
            assert(b.drop_first()[j] == b[j + 1]);
        }
        lemma_name_lt_skip(a.drop_first(), b.drop_first(), i - 1);
        assert(a.drop_first().skip(i - 1) =~= a.skip(i));
        assert(b.drop_first().skip(i - 1) =~= b.skip(i));
    } else {
        assert(a.skip(0) =~= a);
        assert(b.skip(0) =~= b);
    }
}

/// Whether the name `a` comes before `b`, as `name_lt` says.
fn ident_lt(a: &Ident, b: &Ident) -> (r: bool)
    ensures
        r == name_lt(a@, b@),
{
    let n = a.as_str().unicode_len();
    let m = b.as_str().unicode_len();
    let mut i: usize = 0;
    while i < n && i < m
        invariant
            n == a@.len(),
            m == b@.len(),
            i <= n,
            i <= m,
            forall|j: int| 0 <= j < i ==> a@[j] == b@[j],
        decreases n - i,
    {
        let x = a.as_str().get_char(i);
        let y = b.as_str().get_char(i);
        if x != y {
            proof {
                lemma_name_lt_skip(a@, b@, i as int);
                assert(a@.skip(i as int)[0] == x);
                assert(b@.skip(i as int)[0] == y);
            }
            return (x as u32) < (y as u32);
        }
        i = i + 1;
    }
    proof {
        lemma_name_lt_skip(a@, b@, i as int);
    }
    n < m
}

proof fn lemma_place_skip(fs: Seq<(Seq<char>, BindingV)>, f: (Seq<char>, BindingV), k: int)
    requires
        0 <= k <= fs.len(),
        forall|j: int| 0 <= j < k ==> (#[trigger] fs[j]).0 != f.0 && !name_lt(f.0, fs[j].0),
    ensures
        place(fs, f) == fs.take(k) + place(fs.skip(k), f),
    decreases k,
{
    if k > 0 {
        assert forall|j: int| 0 <= j < k - 1 implies (#[trigger] fs.drop_first()[j]).0 != f.0 && !name_lt(f.0, fs.drop_first()[j].0) by {
            assert(fs.drop_first()[j] == fs[j + 1]);
        }
        lemma_place_skip(fs.drop_first(), f, k - 1);
        assert(fs.drop_first().skip(k - 1) =~= fs.skip(k));
        assert(fs.take(k) =~= seq![fs[0]] + fs.drop_first().take(k - 1));
    } else {
        assert(fs.skip(0) =~= fs);
    }
}

/// The views of lowered record fields.
pub open spec fn bfields_of(v: Seq<(Ident, hir::Binding)>) -> Seq<(Seq<char>, BindingV)> {
    v.map_values(|f: (Ident, hir::Binding)| (f.0@, hbinding_v(f.1)))
}

/// Puts the field `f` into the fields `m`, kept in order of their names, as `place` says.
fn place_field(m: &mut Vec<(Ident, hir::Binding)>, f: (Ident, hir::Binding))
    ensures
        bfields_of(final(m)@) == place(bfields_of(old(m)@), (f.0@, hbinding_v(f.1))),
{
    let ghost fv = (f.0@, hbinding_v(f.1));
    let ghost ms = bfields_of(m@);
    let mut i: usize = 0;
    while i < m.len()
        invariant
            i <= m@.len(),
            m@ == old(m)@,
            ms == bfields_of(m@),
            fv == (f.0@, hbinding_v(f.1)),
            forall|j: int| 0 <= j < i ==> (#[trigger] ms[j]).0 != fv.0 && !name_lt(fv.0, ms[j].0),
        decreases m.len() - i,
    {
        assert(ms[i as int] == (m@[i as int].0@, hbinding_v(m@[i as int].1)));
        if m[i].0.same(&f.0) {
            proof {
                lemma_place_skip(ms, fv, i as int);
                assert(ms.skip(i as int)[0] == ms[i as int]);
                assert(ms.skip(i as int)[0].0 == fv.0);
                assert(place(ms.skip(i as int), fv) == seq![fv] + ms.skip(i as int).drop_first());
            }
            m.remove(i);
            m.insert(i, f);
            proof {
                assert(bfields_of(m@) =~= ms.take(i as int) + (seq![fv] + ms.skip(i as int).drop_first()));
            }
            return;
        }
        if ident_lt(&f.0, &m[i].0) {
            proof {
                lemma_place_skip(ms, fv, i as int);
                assert(ms.skip(i as int)[0] == ms[i as int]);
                assert(ms.skip(i as int)[0].0 != fv.0);
                assert(name_lt(fv.0, ms.skip(i as int)[0].0));
                assert(place(ms.skip(i as int), fv) == seq![fv] + ms.skip(i as int));
            }
            m.insert(i, f);
            proof {
                assert(bfields_of(m@) =~= ms.take(i as int) + (seq![fv] + ms.skip(i as int)));
            }
            return;
        }
        i = i + 1;
    }
    proof {
        lemma_place_skip(ms, fv, i as int);
        assert(ms.skip(i as int) =~= Seq::<(Seq<char>, BindingV)>::empty());
    }
    m.push(f);
    assert(bfields_of(m@) =~= ms.take(i as int) + seq![fv]);
}

/// The fields of a record pattern as a map from names, as `record_of` says.
fn record_fields(fs: Vec<(Ident, hir::Binding)>) -> (r: Vec<(Ident, hir::Binding)>)
    ensures
        bfields_of(r@) == record_of(bfields_of(fs@)),
{
    let ghost all = bfields_of(fs@);
    let mut rest = fs;
    let mut m: Vec<(Ident, hir::Binding)> = Vec::new();
    let mut k: usize = 0;
    let n = rest.len();
    while rest.len() > 0
        invariant
            k + rest@.len() == n,
            n == all.len(),
            bfields_of(rest@) == all.skip(k as int),
            bfields_of(m@) == record_of(all.take(k as int)),
        decreases rest.len(),
    {
        let ghost before = rest@;
        let f = rest.remove(0);
        proof {
            assert(rest@ =~= before.drop_first());
            assert(bfields_of(rest@) =~= bfields_of(before).drop_first());
            assert(all.skip(k as int).drop_first() =~= all.skip(k + 1));
            assert(all.skip(k as int)[0] == (f.0@, hbinding_v(f.1)));
            assert(all.take(k + 1).drop_last() =~= all.take(k as int));
            assert(all.take(k + 1).last() == all[k as int]);
        }
        place_field(&mut m, f);
        k = k + 1;
    }
    assert(all.take(k as int) =~= all);
    m
}

/// New variables, at `span`, for the generic parameters `params` of an item,
/// each remembering where its parameter was declared.
pub open spec fn s_fresh_generics(st: StateV, span: Span, params: Seq<GenericParam>) -> (Seq<TyVar>, StateV)
    decreases params.len(),
{
    if params.len() == 0 {
        (Seq::empty(), st)
    } else {
        let (vs, s1) = s_fresh_generics(st, span, params.drop_last());
        let (v, s2) = s_insert(s1, span, TyInfoV::Unknown(Some(params.last().name.span)));
        (vs.push(v), s2)
    }
}

/// Lowering a pattern of the binding `b`: what is known of the binding's type,
/// the lowered pattern, and the state after.
pub open spec fn s_lower_pat(ctx: LowerCtx, st: StateV, b: SrcNode<Binding>) -> (TyInfoV, PatV, StateV)
    decreases b, 0nat,
{
    let span = b.span;
    let pat_span = (*b.inner).pat.span;
    match *(*b.inner).pat.inner {
        Pat::Error => (TyInfoV::Error(ErrorReason::Unknown), PatV::Error, st),
        Pat::Wildcard => (TyInfoV::Unknown(None), PatV::Wildcard, st),
        Pat::Literal(l) => {
            let (info, s1) = s_litr_ty_info(st, l@, pat_span);
            let (v, s2) = s_insert(s1, span, info);
            match l@ {
                LiteralV::Str(text) => {
                    let (c, s3) = s_insert(s2, span, TyInfoV::Prim(Prim::Char));
                    (TyInfoV::Ref(v), PatV::ListExact(char_pats(text, span, c)), s3)
                },
                _ => (TyInfoV::Ref(v), PatV::Literal(l@), s2),
            }
        },
        Pat::Single(inner) => {
            let (bv, s1) = s_lower_binding(ctx, st, inner);
            (TyInfoV::Ref(bv.meta.ty), PatV::Single(Box::new(bv)), s1)
        },
        Pat::Tuple(items) => {
            let (bs, s1) = s_lower_bindings(ctx, st, items@, None);
            (TyInfoV::Tuple(bs.map_values(|x: BindingV| x.meta.ty)), PatV::Tuple(bs), s1)
        },
        Pat::Record(fields) => {
            let (fs, s1) = s_lower_bfields(ctx, st, fields@);
            let m = record_of(fs);
            (
                TyInfoV::Record(m.map_values(|f: (Seq<char>, BindingV)| (f.0, f.1.meta.ty))),
                PatV::Record(m),
                s1,
            )
        },
        Pat::ListExact(items) => {
            let (item_ty, s1) = s_insert(st, pat_span, TyInfoV::Unknown(None));
            let (bs, s2) = s_lower_bindings(ctx, s1, items@, Some(item_ty));
            (TyInfoV::List(item_ty), PatV::ListExact(bs), s2)
        },
        Pat::ListFront(items, tail) => {
            let (item_ty, s1) = s_insert(st, pat_span, TyInfoV::Unknown(None));
            let (bs, s2) = s_lower_bindings(ctx, s1, items@, Some(item_ty));
            match tail {
                Some(t) => {
                    let (tv, s3) = s_lower_binding(ctx, s2, t);
                    let (lt, s4) = s_insert(s3, tv.meta.span, TyInfoV::List(item_ty));
                    (TyInfoV::List(item_ty), PatV::ListFront(bs, Some(Box::new(tv))), s_flow(s4, tv.meta.ty, lt))
                },
                None => (TyInfoV::List(item_ty), PatV::ListFront(bs, None), s2),
            }
        },
        Pat::Deconstruct(name, inner) => match lookup(ctx.conses@, (*name.inner)@) {
            Some(c) => {
                let cons = ctx.conses@[c as int];
                let decl = ctx.datas@[cons.data.id() as int];
                let (gens, s1) = s_fresh_generics(st, span, decl.generics.params@);
                let s2 = s_impls(s1, requests(gens, obligations_of(decl.generics), span));
                let (actual, s3) = s_insert(s2, inner.span, TyInfoV::Instance(cons.ty, gens));
                let (inner_ty, s4) = s_insert(s3, span, TyInfoV::Unknown(None));
                let s5 = s_flow(s4, actual, inner_ty);
                let (iv, s6) = s_lower_binding(ctx, s5, inner);
                (
                    TyInfoV::Data(cons.data, gens),
                    PatV::Decons(cons.data, span, (*name.inner)@, Box::new(iv)),
                    s_flow(s6, inner_ty, iv.meta.ty),
                )
            },
            None => (TyInfoV::Error(ErrorReason::Unknown), PatV::Error, s_error(st, LowerError::NoSuchCons(name))),
        },
        Pat::Binary(op, lhs, rhs) => {
            let (lv, s1) = s_lower_binding(ctx, st, lhs);
            if (*rhs.inner is Nat) && *op.inner == BinaryOp::Add {
                let (nt, s2) = s_insert(s1, rhs.span, TyInfoV::Prim(Prim::Nat));
                (TyInfoV::Ref(nt), PatV::Add(Box::new(lv), ((*rhs.inner)->Nat_0, rhs.span)), s_flow(s2, lv.meta.ty, nt))
            } else {
                let (info, s2) = s_litr_ty_info(s1, (*rhs.inner)@, pat_span);
                let (rt, s3) = s_insert(s2, rhs.span, info);
                (
                    TyInfoV::Error(ErrorReason::Unknown),
                    PatV::Error,
                    s_error(s3, LowerError::PatternNotSupported(lv.meta.ty, op, rt, span)),
                )
            }
        },
    }
}

/// Lowering a binding: the lowered binding and the state after. Its type is a
/// new variable at the binding's span; a type hint, lowered after the
/// pattern, is what that type must fit.
pub open spec fn s_lower_binding(ctx: LowerCtx, st: StateV, b: SrcNode<Binding>) -> (BindingV, StateV)
    decreases b, 1nat,
{
    let (info, pat, s1) = s_lower_pat(ctx, st, b);
    let (ty, s2) = s_insert(s1, b.span, info);
    let s3 = match (*b.inner).ty {
        Some(h) => {
            let (hv, s) = s_lower_type(ctx, s2, h);
            s_flow(s, ty, hv)
        },
        None => s2,
    };
    (BindingV { pat, pat_span: (*b.inner).pat.span, name: bname_v((*b.inner).name), meta: Meta { span: b.span, ty } }, s3)
}

/// Lowering bindings in order; where `into` is given, each one's type must fit it.
pub open spec fn s_lower_bindings(ctx: LowerCtx, st: StateV, items: Seq<SrcNode<Binding>>, into: Option<TyVar>) -> (Seq<BindingV>, StateV)
    decreases items, 0nat,
{
    if items.len() == 0 {
        (Seq::empty(), st)
    } else {
        let (bs, s1) = s_lower_bindings(ctx, st, items.drop_last(), into);
        let (bv, s2) = s_lower_binding(ctx, s1, items.last());
        let s3 = match into {
            Some(t) => s_flow(s2, bv.meta.ty, t),
            None => s2,
        };
        (bs.push(bv), s3)
    }
}

/// Lowering the fields of a record pattern in order.
pub open spec fn s_lower_bfields(ctx: LowerCtx, st: StateV, fields: Seq<(SrcNode<Ident>, SrcNode<Binding>)>) -> (Seq<(Seq<char>, BindingV)>, StateV)
    decreases fields, 0nat,
{
    if fields.len() == 0 {
        (Seq::empty(), st)
    } else {
        let (fs, s1) = s_lower_bfields(ctx, st, fields.drop_last());
        let (bv, s2) = s_lower_binding(ctx, s1, fields.last().1);
        (fs.push(((*fields.last().0.inner)@, bv)), s2)
    }
}

/// Lowering the patterns of a branch, taken together as one tuple pattern
/// written at the span of the group.
pub open spec fn s_tupleify_binding(ctx: LowerCtx, st: StateV, items: SrcNode<Vec<SrcNode<Binding>>>) -> (BindingV, StateV) {
    let (bs, s1) = s_lower_bindings(ctx, st, (*items.inner)@, None);
    let (t, s2) = s_insert(s1, items.span, TyInfoV::Tuple(bs.map_values(|x: BindingV| x.meta.ty)));
    (BindingV { pat: PatV::Tuple(bs), pat_span: items.span, name: None, meta: Meta { span: items.span, ty: t } }, s2)
}

fn copy_name(n: &Option<SrcNode<Ident>>) -> (r: Option<SrcNode<Ident>>)
    ensures
        bname_v(r) == bname_v(*n),
{
    match n {
        Some(n) => Some(SrcNode::new(n.inner().clone(), n.span)),
        None => None,
    }
}

/// The types of lowered bindings, in order.
pub(crate) fn binding_tys(bs: &Vec<hir::Binding>) -> (r: Vec<TyVar>)
    ensures
        r@ == crate::hir::hbindings_v(bs@).map_values(|x: BindingV| x.meta.ty),
{
    let mut r: Vec<TyVar> = Vec::new();
    let mut i: usize = 0;
    while i < bs.len()
        invariant
            i <= bs@.len(),
            r@ == crate::hir::hbindings_v(bs@).map_values(|x: BindingV| x.meta.ty).take(i as int),
        decreases bs.len() - i,
    {
        r.push(bs[i].meta.ty);
        i = i + 1;
        assert(r@ =~= crate::hir::hbindings_v(bs@).map_values(|x: BindingV| x.meta.ty).take(i as int));
    }
    assert(crate::hir::hbindings_v(bs@).map_values(|x: BindingV| x.meta.ty).take(i as int)
        =~= crate::hir::hbindings_v(bs@).map_values(|x: BindingV| x.meta.ty));
    r
}

/// The field names and types of lowered record fields, in order.
fn bfield_tys(fs: &Vec<(Ident, hir::Binding)>) -> (r: Vec<(Ident, TyVar)>)
    ensures
        r@.map_values(|f: (Ident, TyVar)| (f.0@, f.1)) == fs@.map_values(|f: (Ident, hir::Binding)| (f.0@, hbinding_v(f.1))).map_values(
            |f: (Seq<char>, BindingV)| (f.0, f.1.meta.ty),
        ),
{
    let ghost want = fs@.map_values(|f: (Ident, hir::Binding)| (f.0@, hbinding_v(f.1))).map_values(
        |f: (Seq<char>, BindingV)| (f.0, f.1.meta.ty),
    );
    let mut r: Vec<(Ident, TyVar)> = Vec::new();
    let mut i: usize = 0;
    while i < fs.len()
        invariant
            i <= fs@.len(),
            want.len() == fs@.len(),
            want == fs@.map_values(|f: (Ident, hir::Binding)| (f.0@, hbinding_v(f.1))).map_values(
                |f: (Seq<char>, BindingV)| (f.0, f.1.meta.ty),
            ),
            r@.map_values(|f: (Ident, TyVar)| (f.0@, f.1)) == want.take(i as int),
        decreases fs.len() - i,
    {
        let ghost before = r@;
        let name = fs[i].0.clone();
        r.push((name, fs[i].1.meta.ty));
        proof {
            assert(want[i as int] == (fs@[i as int].0@, hbinding_v(fs@[i as int].1).meta.ty));
            assert(hbinding_v(fs@[i as int].1).meta == fs@[i as int].1.meta);
            assert(r@.map_values(|f: (Ident, TyVar)| (f.0@, f.1)) =~= before.map_values(|f: (Ident, TyVar)| (f.0@, f.1)).push(want[i as int]));
        }
        i = i + 1;
        assert(r@.map_values(|f: (Ident, TyVar)| (f.0@, f.1)) =~= want.take(i as int));
    }
    assert(want.take(i as int) =~= want);
    r
}

/// The patterns matching the characters of `text`, as `char_pats` says.
fn lower_chars(text: &String, span: Span, c: TyVar) -> (r: Vec<hir::Binding>)
    ensures
        crate::hir::hbindings_v(r@) == char_pats(text@, span, c),
{
    let n = text.as_str().unicode_len();
    let mut r: Vec<hir::Binding> = Vec::new();
    let mut i: usize = 0;
    while i < n
        invariant
            n == text@.len(),
            i <= n,
            crate::hir::hbindings_v(r@) == char_pats(text@, span, c).take(i as int),
        decreases n - i,
    {
        let ch = text.as_str().get_char(i);
        let b = hir::Binding { pat: SrcNode::new(hir::Pat::Literal(Literal::Char(ch)), span), name: None, meta: Meta { span, ty: c } };
        let ghost before = r@;
        r.push(b);
        i = i + 1;
        proof {
            let k = i - 1;
            assert(k < char_pats(text@, span, c).len());
            assert(crate::hir::hpat_v(*b.pat.inner) == PatV::Literal(LiteralV::Char(ch)));
            assert(hbinding_v(b) == char_pats(text@, span, c)[k]);
            assert(crate::hir::hbindings_v(r@) =~= crate::hir::hbindings_v(before).push(hbinding_v(b)));
            assert(crate::hir::hbindings_v(r@) =~= char_pats(text@, span, c).take(i as int));
        }
    }
    assert(char_pats(text@, span, c).take(i as int) =~= char_pats(text@, span, c));
    r
}

/// New variables for the generic parameters `params`, as `s_fresh_generics` says.
pub(crate) fn fresh_generics(st: &mut LowerState, span: Span, params: &Vec<GenericParam>) -> (r: Vec<TyVar>)
    ensures
        (r@, final(st)@) == s_fresh_generics(old(st)@, span, params@),
        r@.len() == params@.len(),
{
    let ghost st0 = st@;
    let mut r: Vec<TyVar> = Vec::new();
    let mut i: usize = 0;
    while i < params.len()
        invariant
            i <= params@.len(),
            r@.len() == i,
            (r@, st@) == s_fresh_generics(st0, span, params@.take(i as int)),
        decreases params.len() - i,
    {
        proof {
            assert(params@.take(i + 1).drop_last() =~= params@.take(i as int));
        }
        let v = st.insert(span, TyInfo::Unknown(Some(params[i].name.span)));
        r.push(v);
        i = i + 1;
    }
    assert(params@.take(i as int) =~= params@);
    r
}

/// Lowers the pattern of the binding `b`, as `s_lower_pat` says.
fn lower_pat(ctx: &LowerCtx, st: &mut LowerState, b: &SrcNode<Binding>) -> (r: (TyInfo, hir::Pat))
    requires
        ctx.wf(),
    ensures
        (r.0@, crate::hir::hpat_v(r.1), final(st)@) == s_lower_pat(*ctx, old(st)@, *b),
    decreases b, 0nat,
{
    let span = b.span;
    let pat_span = b.inner.pat.span;
    match &*b.inner.pat.inner {
        Pat::Error => (TyInfo::Error(ErrorReason::Unknown), hir::Pat::Error),
        Pat::Wildcard => (TyInfo::Unknown(None), hir::Pat::Wildcard),
        Pat::Literal(l) => {
            let info = litr_ty_info(l, st, pat_span);
            let v = st.insert(span, info);
            match l {
                Literal::Str(text) => {
                    let c = st.insert(span, TyInfo::Prim(Prim::Char));
                    let items = lower_chars(text, span, c);
                    proof {
                        crate::hir::lemma_hir_views(hir::Pat::ListExact(items), hir::Expr::Error);
                    }
                    (TyInfo::Ref(v), hir::Pat::ListExact(items))
                },
                _ => (TyInfo::Ref(v), hir::Pat::Literal(l.clone())),
            }
        },
        Pat::Single(inner) => {
            let bv = lower_binding(ctx, st, inner);
            (TyInfo::Ref(bv.meta.ty), hir::Pat::Single(Box::new(bv)))
        },
        Pat::Tuple(items) => {
            let bs = lower_bindings(ctx, st, items, None);
            let tys = binding_tys(&bs);
            proof {
                crate::hir::lemma_hir_views(hir::Pat::Tuple(bs), hir::Expr::Error);
            }
            (TyInfo::Tuple(tys), hir::Pat::Tuple(bs))
        },
        Pat::Record(fields) => {
            let fs = record_fields(lower_bfields(ctx, st, fields));
            let tys = bfield_tys(&fs);
            proof {
                crate::hir::lemma_hir_views(hir::Pat::Record(fs), hir::Expr::Error);
            }
            (TyInfo::Record(tys), hir::Pat::Record(fs))
        },
        Pat::ListExact(items) => {
            let item_ty = st.insert(pat_span, TyInfo::Unknown(None));
            let bs = lower_bindings(ctx, st, items, Some(item_ty));
            proof {
                crate::hir::lemma_hir_views(hir::Pat::ListExact(bs), hir::Expr::Error);
            }
            (TyInfo::List(item_ty), hir::Pat::ListExact(bs))
        },
        Pat::ListFront(items, tail) => {
            let item_ty = st.insert(pat_span, TyInfo::Unknown(None));
            let bs = lower_bindings(ctx, st, items, Some(item_ty));
            match tail {
                Some(t) => {
                    let tv = lower_binding(ctx, st, t);
                    let lt = st.insert(tv.meta.span, TyInfo::List(item_ty));
                    st.flow(tv.meta.ty, lt);
                    let p = hir::Pat::ListFront(bs, Some(Box::new(tv)));
                    proof {
                        crate::hir::lemma_hir_views(p, hir::Expr::Error);
                    }
                    (TyInfo::List(item_ty), p)
                },
                None => {
                    let p = hir::Pat::ListFront(bs, None);
                    proof {
                        crate::hir::lemma_hir_views(p, hir::Expr::Error);
                    }
                    (TyInfo::List(item_ty), p)
                },
            }
        },
        Pat::Deconstruct(name, inner) => match position(&ctx.conses, name.inner()) {
            Some(c) => {
                let cons = &ctx.conses[c];
                assert(cons.data.id() < ctx.datas@.len());
                let decl = &ctx.datas[cons.data.index()];
                let gens = fresh_generics(st, span, &decl.generics.params);
                match enforce_generic_obligations(&decl.generics, gens.as_slice(), span, decl.span) {
                    Ok(reqs) => st.require(reqs),
                    Err(_) => {},
                }
                let gens2 = copy_vars(&gens);
                let actual = st.insert(inner.span, TyInfo::Instance(cons.ty, gens));
                let inner_ty = st.insert(span, TyInfo::Unknown(None));
                st.flow(actual, inner_ty);
                let iv = lower_binding(ctx, st, inner);
                st.flow(inner_ty, iv.meta.ty);
                (TyInfo::Data(cons.data, gens2), hir::Pat::Decons(cons.data, span, name.inner().clone(), Box::new(iv)))
            },
            None => {
                st.error(LowerError::NoSuchCons(crate::lower::copy_name(name)));
                (TyInfo::Error(ErrorReason::Unknown), hir::Pat::Error)
            },
        },
        Pat::Binary(op, lhs, rhs) => {
            let lv = lower_binding(ctx, st, lhs);
            match (&*rhs.inner, *op.inner) {
                (Literal::Nat(n), BinaryOp::Add) => {
                    let nt = st.insert(rhs.span, TyInfo::Prim(Prim::Nat));
                    st.flow(lv.meta.ty, nt);
                    (TyInfo::Ref(nt), hir::Pat::Add(Box::new(lv), SrcNode::new(*n, rhs.span)))
                },
                _ => {
                    let info = litr_ty_info(&rhs.inner, st, pat_span);
                    let rt = st.insert(rhs.span, info);
                    st.error(LowerError::PatternNotSupported(lv.meta.ty, SrcNode::new(*op.inner, op.span), rt, span));
                    (TyInfo::Error(ErrorReason::Unknown), hir::Pat::Error)
                },
            }
        },
    }
}

/// Lowers a binding: its pattern, then its type hint if it has one, as
/// `s_lower_binding` says.
pub fn lower_binding(ctx: &LowerCtx, st: &mut LowerState, b: &SrcNode<Binding>) -> (r: hir::Binding)
    requires
        ctx.wf(),
    ensures
        (r@, final(st)@) == s_lower_binding(*ctx, old(st)@, *b),
    decreases b, 1nat,
{
    let (info, pat) = lower_pat(ctx, st, b);
    let ty = st.insert(b.span, info);
    if let Some(h) = &b.inner.ty {
        let hv = lower_type(ctx, st, h);
        st.flow(ty, hv);
    }
    hir::Binding { pat: SrcNode::new(pat, b.inner.pat.span), name: copy_name(&b.inner.name), meta: Meta { span: b.span, ty } }
}

/// Lowers bindings in order, as `s_lower_bindings` says.
pub fn lower_bindings(ctx: &LowerCtx, st: &mut LowerState, items: &Vec<SrcNode<Binding>>, into: Option<TyVar>) -> (r: Vec<hir::Binding>)
    requires
        ctx.wf(),
    ensures
        (crate::hir::hbindings_v(r@), final(st)@) == s_lower_bindings(*ctx, old(st)@, items@, into),
    decreases items, 0nat,
{
    let ghost st0 = st@;
    let mut bs: Vec<hir::Binding> = Vec::new();
    let mut i: usize = 0;
    while i < items.len()
        invariant
            ctx.wf(),
            i <= items@.len(),
            (crate::hir::hbindings_v(bs@), st@) == s_lower_bindings(*ctx, st0, items@.take(i as int), into),
        decreases items.len() - i,
    {
        proof {
            assert(items@.take(i + 1).drop_last() =~= items@.take(i as int));
        }
        let bv = lower_binding(ctx, st, &items[i]);
        if let Some(t) = into {
            st.flow(bv.meta.ty, t);
        }
        let ghost before = bs@;
        bs.push(bv);
        proof {
            assert(crate::hir::hbindings_v(bs@) =~= crate::hir::hbindings_v(before).push(hbinding_v(bv)));
        }
        i = i + 1;
    }
    assert(items@.take(i as int) =~= items@);
    bs
}

/// Lowers the fields of a record pattern in order, as `s_lower_bfields` says.
fn lower_bfields(ctx: &LowerCtx, st: &mut LowerState, fields: &Vec<(SrcNode<Ident>, SrcNode<Binding>)>) -> (r: Vec<(Ident, hir::Binding)>)
    requires
        ctx.wf(),
    ensures
        (r@.map_values(|f: (Ident, hir::Binding)| (f.0@, hbinding_v(f.1))), final(st)@) == s_lower_bfields(*ctx, old(st)@, fields@),
    decreases fields, 0nat,
{
    let ghost st0 = st@;
    let mut fs: Vec<(Ident, hir::Binding)> = Vec::new();
    let mut i: usize = 0;
    while i < fields.len()
        invariant
            ctx.wf(),
            i <= fields@.len(),
            (fs@.map_values(|f: (Ident, hir::Binding)| (f.0@, hbinding_v(f.1))), st@) == s_lower_bfields(*ctx, st0, fields@.take(i as int)),
        decreases fields.len() - i,
    {
        proof {
            assert(fields@.take(i + 1).drop_last() =~= fields@.take(i as int));
        }
        let bv = lower_binding(ctx, st, &fields[i].1);
        let ghost before = fs@;
        fs.push((fields[i].0.inner().clone(), bv));
        proof {
            assert(fs@.map_values(|f: (Ident, hir::Binding)| (f.0@, hbinding_v(f.1))) =~= before.map_values(
                |f: (Ident, hir::Binding)| (f.0@, hbinding_v(f.1)),
            ).push(((*fields@[i as int].0.inner)@, hbinding_v(bv))));
        }
        i = i + 1;
    }
    assert(fields@.take(i as int) =~= fields@);
    fs
}

/// Lowers the patterns of a branch together, as one tuple pattern, as
/// `s_tupleify_binding` says.
pub fn tupleify_binding(ctx: &LowerCtx, st: &mut LowerState, items: &SrcNode<Vec<SrcNode<Binding>>>) -> (r: hir::Binding)
    requires
        ctx.wf(),
    ensures
        (r@, final(st)@) == s_tupleify_binding(*ctx, old(st)@, *items),
{
    let bs = lower_bindings(ctx, st, &items.inner, None);
    let tys = binding_tys(&bs);
    let t = st.insert(items.span, TyInfo::Tuple(tys));
    let p = hir::Pat::Tuple(bs);
    proof {
        crate::hir::lemma_hir_views(p, hir::Expr::Error);
    }
    hir::Binding { pat: SrcNode::new(p, items.span), name: None, meta: Meta { span: items.span, ty: t } }
}

/// The names that a lowered binding binds, with their types: its own name
/// first, then those bound in its pattern, from left to right.
pub open spec fn binding_locals(b: BindingV) -> Seq<(Seq<char>, TyVar)>
    decreases b, 1nat,
{
    let own = match b.name {
        Some((n, _)) => seq![(n, b.meta.ty)],
        None => Seq::empty(),
    };
    own + pat_locals(b.pat)
}

/// The names that a lowered pattern binds, with their types, from left to right.
pub open spec fn pat_locals(p: PatV) -> Seq<(Seq<char>, TyVar)>
    decreases p, 0nat,
{
    match p {
        PatV::Single(b) => binding_locals(*b),
        PatV::Tuple(bs) => locals_of(bs),
        PatV::Record(fs) => field_locals_of(fs),
        PatV::ListExact(bs) => locals_of(bs),
        PatV::ListFront(bs, tail) => locals_of(bs) + match tail {
            Some(t) => binding_locals(*t),
            None => Seq::empty(),
        },
        PatV::Decons(_, _, _, b) => binding_locals(*b),
        PatV::Add(b, _) => binding_locals(*b),
        _ => Seq::empty(),
    }
}

/// The names that lowered bindings bind, in order.
pub open spec fn locals_of(bs: Seq<BindingV>) -> Seq<(Seq<char>, TyVar)>
    decreases bs, 0nat,
{
    if bs.len() == 0 {
        Seq::empty()
    } else {
        locals_of(bs.drop_last()) + binding_locals(bs.last())
    }
}

/// The names that the fields of a lowered record pattern bind, in order.
pub open spec fn field_locals_of(fs: Seq<(Seq<char>, BindingV)>) -> Seq<(Seq<char>, TyVar)>
    decreases fs, 0nat,
{
    if fs.len() == 0 {
        Seq::empty()
    } else {
        field_locals_of(fs.drop_last()) + binding_locals(fs.last().1)
    }
}

/// Adds the names that `b` binds, with their types, to `out`, as `binding_locals` says.
pub fn collect_locals(b: &hir::Binding, out: &mut Vec<(SrcNode<Ident>, TyVar)>)
    ensures
        crate::lower::frame_of(final(out)@) == crate::lower::frame_of(old(out)@) + binding_locals(b@),
    decreases b, 1nat,
{
    let ghost start = out@;
    if let Some(n) = &b.name {
        out.push((SrcNode::new(n.inner().clone(), n.span), b.meta.ty));
    }
    proof {
        assert(crate::lower::frame_of(out@) =~= crate::lower::frame_of(start) + match b@.name {
            Some((n, _)) => seq![(n, b.meta.ty)],
            None => Seq::<(Seq<char>, TyVar)>::empty(),
        });
    }
    let ghost mid = out@;
    collect_pat_locals(&b.pat.inner, out);
    assert(crate::lower::frame_of(out@) =~= crate::lower::frame_of(start) + binding_locals(b@));
}

fn collect_pat_locals(p: &hir::Pat, out: &mut Vec<(SrcNode<Ident>, TyVar)>)
    ensures
        crate::lower::frame_of(final(out)@) == crate::lower::frame_of(old(out)@) + pat_locals(crate::hir::hpat_v(*p)),
    decreases p, 0nat,
{
    let ghost start = out@;
    proof {
        crate::hir::lemma_hir_views(*p, hir::Expr::Error);
    }
    match p {
        hir::Pat::Single(b) => collect_locals(b, out),
        hir::Pat::Tuple(bs) => collect_all(bs, out),
        hir::Pat::ListExact(bs) => collect_all(bs, out),
        hir::Pat::ListFront(bs, tail) => {
            collect_all(bs, out);
            let ghost mid = out@;
            if let Some(t) = tail {
                collect_locals(t, out);
            }
            assert(crate::lower::frame_of(out@) =~= crate::lower::frame_of(start) + pat_locals(crate::hir::hpat_v(*p)));
        },
        hir::Pat::Record(fs) => collect_fields(fs, out),
        hir::Pat::Decons(_, _, _, b) => collect_locals(b, out),
        hir::Pat::Add(b, _) => collect_locals(b, out),
        _ => {
            assert(crate::lower::frame_of(out@) =~= crate::lower::frame_of(start) + pat_locals(crate::hir::hpat_v(*p)));
        },
    }
}

fn collect_fields(fs: &Vec<(Ident, hir::Binding)>, out: &mut Vec<(SrcNode<Ident>, TyVar)>)
    ensures
        crate::lower::frame_of(final(out)@) == crate::lower::frame_of(old(out)@) + field_locals_of(
            fs@.map_values(|f: (Ident, hir::Binding)| (f.0@, hbinding_v(f.1))),
        ),
    decreases fs, 0nat,
{
    let ghost start = out@;
    let ghost fv = fs@.map_values(|f: (Ident, hir::Binding)| (f.0@, hbinding_v(f.1)));
    let mut i: usize = 0;
    while i < fs.len()
        invariant
            i <= fs@.len(),
            fv == fs@.map_values(|f: (Ident, hir::Binding)| (f.0@, hbinding_v(f.1))),
            crate::lower::frame_of(out@) == crate::lower::frame_of(start) + field_locals_of(fv.take(i as int)),
        decreases fs.len() - i,
    {
        collect_locals(&fs[i].1, out);
        proof {
            assert(fv.take(i + 1).drop_last() =~= fv.take(i as int));
            assert(crate::lower::frame_of(out@) =~= crate::lower::frame_of(start) + field_locals_of(fv.take(i + 1)));
        }
        i = i + 1;
    }
    assert(fv.take(i as int) =~= fv);
}

fn collect_all(bs: &Vec<hir::Binding>, out: &mut Vec<(SrcNode<Ident>, TyVar)>)
    ensures
        crate::lower::frame_of(final(out)@) == crate::lower::frame_of(old(out)@) + locals_of(crate::hir::hbindings_v(bs@)),
    decreases bs, 0nat,
{
    let ghost start = out@;
    let ghost bv = crate::hir::hbindings_v(bs@);
    let mut i: usize = 0;
    while i < bs.len()
        invariant
            i <= bs@.len(),
            bv == crate::hir::hbindings_v(bs@),
            crate::lower::frame_of(out@) == crate::lower::frame_of(start) + locals_of(bv.take(i as int)),
        decreases bs.len() - i,
    {
        collect_locals(&bs[i], out);
        proof {
            assert(bv.take(i + 1).drop_last() =~= bv.take(i as int));
            assert(crate::lower::frame_of(out@) =~= crate::lower::frame_of(start) + locals_of(bv.take(i + 1)));
        }
        i = i + 1;
    }
    assert(bv.take(i as int) =~= bv);
}

/// The names that `b` binds, with their types, as `binding_locals` says.
pub fn locals(b: &hir::Binding) -> (r: Vec<(SrcNode<Ident>, TyVar)>)
    ensures
        crate::lower::frame_of(r@) == binding_locals(b@),
{
    let mut out: Vec<(SrcNode<Ident>, TyVar)> = Vec::new();
    collect_locals(b, &mut out);
    assert(crate::lower::frame_of(out@) =~= binding_locals(b@));
    out
}

} // verus!
