use vstd::prelude::*;

use crate::ast::{BinaryOp, Literal, LiteralV};
use crate::ident::Ident;
use crate::lower::{ClassId, DefId, EffectVar, TyVar};
use crate::span::{Span, SrcNode};
use crate::ty::DataId;

verus! {

/// Where a node of the lowered tree came from, and the type variable of its value.
#[derive(Copy, Clone, Debug)]
pub struct Meta {
    pub span: Span,
    pub ty: TyVar,
}

/// A lowered pattern.
#[derive(Debug)]
pub enum Pat {
    Error,
    Wildcard,
    Literal(Literal),
    Single(Box<Binding>),
    Tuple(Vec<Binding>),
    Record(Vec<(Ident, Binding)>),
    ListExact(Vec<Binding>),
    ListFront(Vec<Binding>, Option<Box<Binding>>),
    /// A value of the data type made by the named constructor (written at the span).
    Decons(DataId, Span, Ident, Box<Binding>),
    /// A natural number at least the literal, with what the pattern matches the rest.
    Add(Box<Binding>, SrcNode<u64>),
}

/// A built-in operation.
#[derive(Copy, Clone, Debug, PartialEq, Eq, Structural)]
pub enum Intrinsic {
    TypeName,
    NegNat,
    NegInt,
    NegReal,
    EqChar,
    EqNat,
    Go,
    Print,
    Input,
    LenList,
    SkipList,
    TrimList,
    Propagate,
}

/// A lowered binding: a pattern, the name it binds if any, and its meta.
#[derive(Debug)]
pub struct Binding {
    pub pat: SrcNode<Pat>,
    pub name: Option<SrcNode<Ident>>,
    pub meta: Meta,
}

/// A lowered expression.
#[derive(Debug)]
pub enum Expr {
    Error,
    Literal(Literal),
    Local(Ident),
    /// A definition, with the types given for its generic parameters.
    Global(DefId, Vec<(Span, TyVar)>),
    Tuple(Vec<ExprNode>),
    /// A list of items, followed by lists whose items come after them.
    List(Vec<ExprNode>, Vec<ExprNode>),
    Record(Vec<(SrcNode<Ident>, ExprNode)>),
    Access(Box<ExprNode>, SrcNode<Ident>),
    Apply(Box<ExprNode>, Box<ExprNode>),
    /// The named field of a class, for the type of the given meta; the class
    /// is given where it is known, else left to inference.
    ClassAccess(Meta, Option<ClassId>, SrcNode<Ident>),
    Binary(SrcNode<BinaryOp>, Box<ExprNode>, Box<ExprNode>),
    /// A match of a value against branches; the flag says whether the branches
    /// must cover every value.
    Match(bool, Box<ExprNode>, Vec<(Binding, ExprNode)>),
    /// A function of one parameter, with the parameter's meta.
    Func(Ident, Meta, Box<ExprNode>),
    /// A value of the data type made by the named constructor (written at the span).
    Cons(DataId, Span, Ident, Box<ExprNode>),
    Intrinsic(SrcNode<Intrinsic>, Vec<ExprNode>),
    /// Sends the value to the handler of the effect and gives what comes back.
    Suspend(EffectVar, Box<ExprNode>),
    Update(Box<ExprNode>, Vec<(SrcNode<Ident>, ExprNode)>),
    /// A block whose effects go to the effect variable.
    Basin(EffectVar, Box<ExprNode>),
    /// The expression, whose effect is handled: each value sent is bound to
    /// the named local, and `recv` gives what is sent back.
    Handle { expr: Box<ExprNode>, eff: EffectVar, send: (Ident, Meta), recv: Box<ExprNode> },
}

/// A lowered expression with its meta.
#[derive(Debug)]
pub struct ExprNode {
    pub expr: Expr,
    pub meta: Meta,
}

// ----- Mathematical values -----

pub enum PatV {
    Error,
    Wildcard,
    Literal(LiteralV),
    Single(Box<BindingV>),
    Tuple(Seq<BindingV>),
    Record(Seq<(Seq<char>, BindingV)>),
    ListExact(Seq<BindingV>),
    ListFront(Seq<BindingV>, Option<Box<BindingV>>),
    Decons(DataId, Span, Seq<char>, Box<BindingV>),
    Add(Box<BindingV>, (u64, Span)),
}

pub struct BindingV {
    pub pat: PatV,
    pub pat_span: Span,
    pub name: Option<(Seq<char>, Span)>,
    pub meta: Meta,
}

pub enum ExprV {
    Error,
    Literal(LiteralV),
    Local(Seq<char>),
    Global(DefId, Seq<(Span, TyVar)>),
    Tuple(Seq<ENodeV>),
    List(Seq<ENodeV>, Seq<ENodeV>),
    Record(Seq<((Seq<char>, Span), ENodeV)>),
    Access(Box<ENodeV>, (Seq<char>, Span)),
    Apply(Box<ENodeV>, Box<ENodeV>),
    ClassAccess(Meta, Option<ClassId>, (Seq<char>, Span)),
    Binary((BinaryOp, Span), Box<ENodeV>, Box<ENodeV>),
    Match(bool, Box<ENodeV>, Seq<(BindingV, ENodeV)>),
    Func(Seq<char>, Meta, Box<ENodeV>),
    Cons(DataId, Span, Seq<char>, Box<ENodeV>),
    Intrinsic((Intrinsic, Span), Seq<ENodeV>),
    Suspend(EffectVar, Box<ENodeV>),
    Update(Box<ENodeV>, Seq<((Seq<char>, Span), ENodeV)>),
    Basin(EffectVar, Box<ENodeV>),
    Handle(Box<ENodeV>, EffectVar, (Seq<char>, Meta), Box<ENodeV>),
}

pub struct ENodeV {
    pub expr: ExprV,
    pub meta: Meta,
}

pub open spec fn sname_v(n: SrcNode<Ident>) -> (Seq<char>, Span) {
    ((*n.inner)@, n.span)
}

pub open spec fn default_binding_v() -> BindingV {
    BindingV { pat: PatV::Error, pat_span: Span { start: 0, end: 0 }, name: None, meta: Meta { span: Span { start: 0, end: 0 }, ty: TyVar(0) } }
}

pub open spec fn default_enode_v() -> ENodeV {
    ENodeV { expr: ExprV::Error, meta: Meta { span: Span { start: 0, end: 0 }, ty: TyVar(0) } }
}

pub open spec fn hpat_v(p: Pat) -> PatV
    decreases p,
{
    match p {
        Pat::Error => PatV::Error,
        Pat::Wildcard => PatV::Wildcard,
        Pat::Literal(l) => PatV::Literal(l@),
        Pat::Single(b) => PatV::Single(Box::new(hbinding_v(*b))),
        Pat::Tuple(items) => PatV::Tuple(
            Seq::new(items@.len(), |i: int| if 0 <= i < items@.len() { hbinding_v(items@[i]) } else { default_binding_v() }),
        ),
        Pat::Record(fields) => PatV::Record(
            Seq::new(fields@.len(), |i: int| if 0 <= i < fields@.len() {
                (fields@[i].0@, hbinding_v(fields@[i].1))
            } else {
                (Seq::empty(), default_binding_v())
            }),
        ),
        Pat::ListExact(items) => PatV::ListExact(
            Seq::new(items@.len(), |i: int| if 0 <= i < items@.len() { hbinding_v(items@[i]) } else { default_binding_v() }),
        ),
        Pat::ListFront(items, tail) => PatV::ListFront(
            Seq::new(items@.len(), |i: int| if 0 <= i < items@.len() { hbinding_v(items@[i]) } else { default_binding_v() }),
            match tail {
                Some(t) => Some(Box::new(hbinding_v(*t))),
                None => None,
            },
        ),
        Pat::Decons(d, s, n, b) => PatV::Decons(d, s, n@, Box::new(hbinding_v(*b))),
        Pat::Add(b, n) => PatV::Add(Box::new(hbinding_v(*b)), (*n.inner, n.span)),
    }
}

pub open spec fn hbinding_v(b: Binding) -> BindingV
    decreases b,
{
    BindingV {
        pat: hpat_v(*b.pat.inner),
        pat_span: b.pat.span,
        name: match b.name {
            Some(n) => Some(sname_v(n)),
            None => None,
        },
        meta: b.meta,
    }
}

impl View for Binding {
    type V = BindingV;

    open spec fn view(&self) -> BindingV {
        hbinding_v(*self)
    }
}

/// The mathematical values of a sequence of lowered bindings.
pub open spec fn hbindings_v(s: Seq<Binding>) -> Seq<BindingV> {
    Seq::new(s.len(), |i: int| hbinding_v(s[i]))
}

pub open spec fn hexpr_v(e: Expr) -> ExprV
    decreases e,
{
    match e {
        Expr::Error => ExprV::Error,
        Expr::Literal(l) => ExprV::Literal(l@),
        Expr::Local(x) => ExprV::Local(x@),
        Expr::Global(d, gens) => ExprV::Global(d, gens@),
        Expr::Tuple(items) => ExprV::Tuple(
            Seq::new(items@.len(), |i: int| if 0 <= i < items@.len() { henode_v(items@[i]) } else { default_enode_v() }),
        ),
        Expr::List(items, tails) => ExprV::List(
            Seq::new(items@.len(), |i: int| if 0 <= i < items@.len() { henode_v(items@[i]) } else { default_enode_v() }),
            Seq::new(tails@.len(), |i: int| if 0 <= i < tails@.len() { henode_v(tails@[i]) } else { default_enode_v() }),
        ),
        Expr::Record(fields) => ExprV::Record(
            Seq::new(fields@.len(), |i: int| if 0 <= i < fields@.len() {
                (sname_v(fields@[i].0), henode_v(fields@[i].1))
            } else {
                ((Seq::empty(), Span { start: 0, end: 0 }), default_enode_v())
            }),
        ),
        Expr::Access(r, f) => ExprV::Access(Box::new(henode_v(*r)), sname_v(f)),
        Expr::Apply(f, a) => ExprV::Apply(Box::new(henode_v(*f)), Box::new(henode_v(*a))),
        Expr::ClassAccess(m, c, f) => ExprV::ClassAccess(m, c, sname_v(f)),
        Expr::Binary(op, a, b) => ExprV::Binary((*op.inner, op.span), Box::new(henode_v(*a)), Box::new(henode_v(*b))),
        Expr::Match(total, pred, arms) => ExprV::Match(
            total,
            Box::new(henode_v(*pred)),
            Seq::new(arms@.len(), |i: int| if 0 <= i < arms@.len() {
                (hbinding_v(arms@[i].0), henode_v(arms@[i].1))
            } else {
                (default_binding_v(), default_enode_v())
            }),
        ),
        Expr::Func(x, m, body) => ExprV::Func(x@, m, Box::new(henode_v(*body))),
        Expr::Cons(d, s, n, inner) => ExprV::Cons(d, s, n@, Box::new(henode_v(*inner))),
        Expr::Intrinsic(i, args) => ExprV::Intrinsic(
            (*i.inner, i.span),
            Seq::new(args@.len(), |k: int| if 0 <= k < args@.len() { henode_v(args@[k]) } else { default_enode_v() }),
        ),
        Expr::Suspend(eff, x) => ExprV::Suspend(eff, Box::new(henode_v(*x))),
        Expr::Update(r, fields) => ExprV::Update(
            Box::new(henode_v(*r)),
            Seq::new(fields@.len(), |i: int| if 0 <= i < fields@.len() {
                (sname_v(fields@[i].0), henode_v(fields@[i].1))
            } else {
                ((Seq::empty(), Span { start: 0, end: 0 }), default_enode_v())
            }),
        ),
        Expr::Basin(eff, x) => ExprV::Basin(eff, Box::new(henode_v(*x))),
        Expr::Handle { expr, eff, send, recv } => ExprV::Handle(
            Box::new(henode_v(*expr)),
            eff,
            (send.0@, send.1),
            Box::new(henode_v(*recv)),
        ),
    }
}

pub open spec fn henode_v(n: ExprNode) -> ENodeV
    decreases n,
{
    ENodeV { expr: hexpr_v(n.expr), meta: n.meta }
}

impl View for ExprNode {
    type V = ENodeV;

    open spec fn view(&self) -> ENodeV {
        henode_v(*self)
    }
}

/// The mathematical values of a sequence of lowered expressions.
pub open spec fn henodes_v(s: Seq<ExprNode>) -> Seq<ENodeV> {
    Seq::new(s.len(), |i: int| henode_v(s[i]))
}

/// The views of the collections that lowered nodes hold.
pub proof fn lemma_hir_views(p: Pat, e: Expr)
    ensures
        p matches Pat::Tuple(items) ==> hpat_v(p) == PatV::Tuple(hbindings_v(items@)),
        p matches Pat::ListExact(items) ==> hpat_v(p) == PatV::ListExact(hbindings_v(items@)),
        p matches Pat::ListFront(items, tail) ==> hpat_v(p)->ListFront_0 == hbindings_v(items@),
        p matches Pat::Record(fields) ==> hpat_v(p) == PatV::Record(
            fields@.map_values(|f: (Ident, Binding)| (f.0@, hbinding_v(f.1))),
        ),
        e matches Expr::Tuple(items) ==> hexpr_v(e) == ExprV::Tuple(henodes_v(items@)),
        e matches Expr::List(items, tails) ==> hexpr_v(e) == ExprV::List(henodes_v(items@), henodes_v(tails@)),
        e matches Expr::Intrinsic(i, args) ==> hexpr_v(e) == ExprV::Intrinsic((*i.inner, i.span), henodes_v(args@)),
        e matches Expr::Update(r, fields) ==> hexpr_v(e) == ExprV::Update(
            Box::new(henode_v(*r)),
            fields@.map_values(|f: (SrcNode<Ident>, ExprNode)| (sname_v(f.0), henode_v(f.1))),
        ),
        e matches Expr::Record(fields) ==> hexpr_v(e) == ExprV::Record(
            fields@.map_values(|f: (SrcNode<Ident>, ExprNode)| (sname_v(f.0), henode_v(f.1))),
        ),
        e matches Expr::Match(t, pred, arms) ==> hexpr_v(e) == ExprV::Match(
            t,
            Box::new(henode_v(*pred)),
            arms@.map_values(|a: (Binding, ExprNode)| (hbinding_v(a.0), henode_v(a.1))),
        ),
{
    match p {
        Pat::Tuple(items) => {
            assert(hpat_v(p)->Tuple_0 =~= hbindings_v(items@));
        },
        Pat::ListExact(items) => {
            assert(hpat_v(p)->ListExact_0 =~= hbindings_v(items@));
        },
        Pat::ListFront(items, _) => {
            assert(hpat_v(p)->ListFront_0 =~= hbindings_v(items@));
        },
        Pat::Record(fields) => {
            assert(hpat_v(p)->Record_0 =~= fields@.map_values(|f: (Ident, Binding)| (f.0@, hbinding_v(f.1))));
        },
        _ => {},
    }
    match e {
        Expr::Tuple(items) => {
            assert(hexpr_v(e)->Tuple_0 =~= henodes_v(items@));
        },
        Expr::List(items, tails) => {
            assert(hexpr_v(e)->List_0 =~= henodes_v(items@));
            assert(hexpr_v(e)->List_1 =~= henodes_v(tails@));
        },
        Expr::Intrinsic(_, args) => {
            assert(hexpr_v(e)->Intrinsic_1 =~= henodes_v(args@));
        },
        Expr::Update(_, fields) => {
            assert(hexpr_v(e)->Update_1 =~= fields@.map_values(|f: (SrcNode<Ident>, ExprNode)| (sname_v(f.0), henode_v(f.1))));
        },
        Expr::Record(fields) => {
            assert(hexpr_v(e)->Record_0 =~= fields@.map_values(|f: (SrcNode<Ident>, ExprNode)| (sname_v(f.0), henode_v(f.1))));
        },
        Expr::Match(t, pred, arms) => {
            assert(hexpr_v(e)->Match_2 =~= arms@.map_values(|a: (Binding, ExprNode)| (hbinding_v(a.0), henode_v(a.1))));
        },
        _ => {},
    }
}

} // verus!
