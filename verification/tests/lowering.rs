use tao::ast::{BinaryOp, Binding, Expr, Literal, Pat, Type};
use tao::hir;
use tao::ident::Ident;
use tao::infer::{ErrorReason, LangItems, AliasDecl, ConsDecl, DataDecl, DefDecl, Demand, LangClasses, LowerCtx, LowerState, TyInfo};
use tao::lower::bindings::{lower_binding, tupleify_binding};
use tao::lower::exprs::{instantiate_def, lower_expr, tupleify_expr, ToHir};
use tao::lower::types::lower_type;
use tao::lower::{ClassId, DefId, GenericParam, GenericsScope, ImplRequest, LowerError, Obligation, Scope, TyVar};
use tao::span::{Span, SrcNode};
use tao::ty::{DataId, Prim, Ty, TyId, Types};

fn sp(a: usize) -> Span {
    Span::new(a, a + 1)
}

fn node<T>(t: T, a: usize) -> SrcNode<T> {
    SrcNode::new(t, sp(a))
}

fn name(s: &str, a: usize) -> SrcNode<Ident> {
    node(Ident::new(s), a)
}

fn arena_ids() -> (TyId, TyId) {
    let mut types = Types::new();
    let a = types.insert(sp(0), Ty::Prim(Prim::Nat));
    let b = types.insert(sp(0), Ty::Prim(Prim::Bool));
    (a, b)
}

fn ctx() -> LowerCtx {
    let (nat, boolean) = arena_ids();
    LowerCtx {
        datas: vec![DataDecl {
            name: name("Maybe", 40),
            span: sp(40),
            generics: GenericsScope {
                span: sp(41),
                params: vec![GenericParam {
                    name: name("A", 42),
                    obligations: vec![node(Obligation::MemberOf(ClassId(9)), 43)],
                }],
            },
        }],
        conses: vec![ConsDecl { name: Ident::new("Just"), data: DataId::new(0), ty: nat }],
        aliases: vec![
            AliasDecl { name: Ident::new("Flag"), body: Some((GenericsScope { span: sp(50), params: Vec::new() }, boolean)) },
            AliasDecl { name: Ident::new("Loop"), body: None },
        ],
        defs: vec![
            DefDecl { name: name("one", 60), generics: GenericsScope { span: sp(61), params: Vec::new() }, ty: Some(nat) },
            DefDecl { name: name("hole", 62), generics: GenericsScope { span: sp(63), params: Vec::new() }, ty: None },
        ],
        effects: Vec::new(),
        lang: LangItems { io_unit: DefId(0), io_bind: DefId(0), go: None },
        gen_scope: Some(GenericsScope { span: sp(70), params: vec![GenericParam { name: name("T", 71), obligations: Vec::new() }] }),
        self_ty: None,
        classes: LangClasses { not: ClassId(1), neg: ClassId(2), eq: ClassId(3) },
    }
}

fn data_ty(n: &str, params: Vec<SrcNode<Type>>, a: usize) -> SrcNode<Type> {
    node(Type::Data(name(n, a), params), a)
}

#[test]
fn primitive_and_structural_types() {
    let c = ctx();
    let mut st = LowerState::new();
    let nat = lower_type(&c, &mut st, &data_ty("Nat", Vec::new(), 1));
    assert_eq!(nat, TyVar(0));
    assert!(matches!(st.vars[0].1, TyInfo::Prim(Prim::Nat)));
    let list = lower_type(&c, &mut st, &node(Type::List(data_ty("Char", Vec::new(), 2)), 3));
    assert_eq!(list, TyVar(2));
    assert!(matches!(st.vars[2].1, TyInfo::List(TyVar(1))));
    assert_eq!(st.vars[2].0, sp(3));
    let f = lower_type(&c, &mut st, &node(Type::Func(node(Type::Unknown, 4), node(Type::Error, 5)), 6));
    assert!(matches!(st.vars[f.0].1, TyInfo::Func(TyVar(3), TyVar(4))));
    assert!(st.errors.is_empty());
}

#[test]
fn named_types() {
    let c = ctx();
    let mut st = LowerState::new();
    let g = lower_type(&c, &mut st, &data_ty("T", Vec::new(), 1));
    assert!(matches!(st.vars[g.0].1, TyInfo::Gen(0, s) if s == sp(71)));
    let a = lower_type(&c, &mut st, &data_ty("Flag", Vec::new(), 2));
    assert!(matches!(st.vars[a.0].1, TyInfo::Ref(TyVar(2))));
    assert!(matches!(st.vars[1].1, TyInfo::Instance(_, _)));
    assert_eq!(st.flows, vec![(TyVar(1), TyVar(2))]);
    let m = lower_type(&c, &mut st, &data_ty("Maybe", vec![data_ty("Nat", Vec::new(), 5)], 4));
    match &st.vars[m.0].1 {
        TyInfo::Data(d, ps) => {
            assert_eq!(*d, DataId::new(0));
            assert_eq!(ps.len(), 1);
        },
        _ => panic!("a data type"),
    }
    assert_eq!(st.impls.len(), 1);
    assert_eq!(st.impls[0].class, ClassId(9));
    assert_eq!(st.impls[0].use_span, sp(4));
    assert!(st.errors.is_empty());
}

#[test]
fn type_errors() {
    let c = ctx();
    let mut st = LowerState::new();
    let s = lower_type(&c, &mut st, &data_ty("Self", Vec::new(), 1));
    assert!(matches!(st.vars[s.0].1, TyInfo::Error(ErrorReason::Invalid)));
    let n = lower_type(&c, &mut st, &data_ty("Nope", Vec::new(), 2));
    assert!(matches!(st.vars[n.0].1, TyInfo::Error(ErrorReason::Invalid)));
    let m = lower_type(&c, &mut st, &data_ty("Maybe", Vec::new(), 3));
    assert!(matches!(st.vars[m.0].1, TyInfo::Error(ErrorReason::Unknown)));
    let l = lower_type(&c, &mut st, &data_ty("Loop", Vec::new(), 4));
    assert!(matches!(st.vars[l.0].1, TyInfo::Ref(_)));
    assert!(matches!(st.vars[l.0 - 1].1, TyInfo::Error(ErrorReason::Unknown)));
    assert_eq!(
        st.errors,
        vec![
            LowerError::SelfNotValidHere(sp(1)),
            LowerError::NoSuchData(name("Nope", 2)),
            LowerError::WrongNumberOfGenerics(sp(3), 0, sp(41), 1),
            LowerError::RecursiveAlias(sp(4)),
        ]
    );
}

fn bind(p: Pat, a: usize) -> SrcNode<Binding> {
    node(Binding { pat: node(p, a), name: None, ty: None }, a)
}

#[test]
fn string_pattern_is_a_list_of_characters() {
    let c = ctx();
    let mut st = LowerState::new();
    let b = lower_binding(&c, &mut st, &bind(Pat::Literal(Literal::Str("ab".to_string())), 1));
    match &*b.pat.inner {
        hir::Pat::ListExact(items) => {
            assert_eq!(items.len(), 2);
            assert!(matches!(&*items[0].pat.inner, hir::Pat::Literal(Literal::Char('a'))));
            assert!(matches!(&*items[1].pat.inner, hir::Pat::Literal(Literal::Char('b'))));
        },
        _ => panic!("a list pattern"),
    }
    assert!(matches!(st.vars[0].1, TyInfo::Prim(Prim::Char)));
    assert!(matches!(st.vars[1].1, TyInfo::List(TyVar(0))));
    assert!(matches!(st.vars[b.meta.ty.0].1, TyInfo::Ref(TyVar(1))));
}

#[test]
fn binding_errors_and_hints() {
    let c = ctx();
    let mut st = LowerState::new();
    let b = lower_binding(&c, &mut st, &bind(Pat::Deconstruct(name("Nope", 2), bind(Pat::Wildcard, 3)), 1));
    assert!(matches!(&*b.pat.inner, hir::Pat::Error));
    assert_eq!(st.errors, vec![LowerError::NoSuchCons(name("Nope", 2))]);
    let hinted = node(Binding { pat: node(Pat::Wildcard, 5), name: Some(name("x", 6)), ty: Some(data_ty("Nat", Vec::new(), 7)) }, 4);
    let h = lower_binding(&c, &mut st, &hinted);
    assert_eq!(st.flows.last(), Some(&(h.meta.ty, TyVar(h.meta.ty.0 + 1))));
}

fn lit(n: u64, a: usize) -> SrcNode<Expr> {
    node(Expr::Literal(Literal::Nat(n)), a)
}

#[test]
fn if_is_a_match_on_booleans() {
    let c = ctx();
    let mut st = LowerState::new();
    let root = Scope::empty();
    let e = node(Expr::If(node(Expr::Literal(Literal::Bool(true)), 1), lit(1, 2), lit(2, 3)), 4);
    let n = lower_expr(&c, &mut st, &root, &e);
    match &n.expr {
        hir::Expr::Match(false, _, arms) => {
            assert_eq!(arms.len(), 2);
            assert!(matches!(&*arms[0].0.pat.inner, hir::Pat::Literal(Literal::Bool(true))));
            assert!(matches!(&*arms[1].0.pat.inner, hir::Pat::Literal(Literal::Bool(false))));
        },
        _ => panic!("a match"),
    }
    assert!(matches!(st.vars[0].1, TyInfo::Prim(Prim::Bool)));
    assert!(st.errors.is_empty());
}

#[test]
fn lowering_errors() {
    let c = ctx();
    let mut st = LowerState::new();
    let root = Scope::empty();
    lower_expr(&c, &mut st, &root, &node(Expr::Local(Ident::new("nope")), 1));
    lower_expr(&c, &mut st, &root, &node(Expr::Func(Vec::new()), 2));
    lower_expr(&c, &mut st, &root, &node(Expr::Local(Ident::new("hole")), 3));
    let arms = vec![(node(vec![bind(Pat::Wildcard, 5), bind(Pat::Wildcard, 6)], 7), lit(0, 8))];
    let m = lower_expr(&c, &mut st, &root, &node(Expr::Match(node(vec![lit(1, 9)], 10), arms), 11));
    assert!(matches!(m.expr, hir::Expr::Error));
    assert!(matches!(st.vars[m.meta.ty.0].1, TyInfo::Error(ErrorReason::Unknown)));
    lower_expr(&c, &mut st, &root, &node(Expr::Cons(name("Nope", 12), lit(0, 13)), 14));
    assert_eq!(
        st.errors,
        vec![
            LowerError::NoSuchLocal(name("nope", 1)),
            LowerError::NoBranches(sp(2)),
            LowerError::DefTypeNotSpecified(sp(62), sp(3), Ident::new("hole")),
            LowerError::WrongNumberOfParams(sp(7), 2, sp(10), 1),
            LowerError::NoSuchCons(name("Nope", 12)),
        ]
    );
}

#[test]
fn let_binds_in_its_body() {
    let c = ctx();
    let mut st = LowerState::new();
    let root = Scope::empty();
    let x = node(Binding { pat: node(Pat::Wildcard, 1), name: Some(name("x", 2)), ty: None }, 3);
    let e = node(Expr::Let(vec![(x, lit(5, 4))], node(Expr::Local(Ident::new("x")), 5)), 6);
    let n = lower_expr(&c, &mut st, &root, &e);
    match &n.expr {
        hir::Expr::Match(false, _, arms) => match &arms[0].1.expr {
            hir::Expr::Local(v) => assert_eq!(v.as_str(), "x"),
            _ => panic!("the local"),
        },
        _ => panic!("a match"),
    }
    assert!(st.errors.is_empty());
}

#[test]
fn equality_uses_its_class() {
    let c = ctx();
    let mut st = LowerState::new();
    let root = Scope::empty();
    let e = node(Expr::Binary(node(BinaryOp::Eq, 1), lit(1, 2), lit(2, 3)), 4);
    let n = lower_expr(&c, &mut st, &root, &e);
    match &n.expr {
        hir::Expr::Apply(f, _) => match &f.expr {
            hir::Expr::Apply(g, _) => assert!(matches!(g.expr, hir::Expr::ClassAccess(_, Some(ClassId(3)), _))),
            _ => panic!("a partial application"),
        },
        _ => panic!("an application"),
    }
    assert!(matches!(st.demands[0], Demand::ClassField(_, _, ClassId(3), _)));
    let add = node(Expr::Binary(node(BinaryOp::Add, 5), lit(1, 6), lit(2, 7)), 8);
    let m = lower_expr(&c, &mut st, &root, &add);
    assert!(matches!(m.expr, hir::Expr::Binary(_, _, _)));
    assert!(matches!(st.demands[1], Demand::Binary(BinaryOp::Add, _, _, _)));
}

#[test]
fn function_of_two_parameters() {
    let c = ctx();
    let mut st = LowerState::new();
    let root = Scope::empty();
    let arms = vec![(node(vec![bind(Pat::Wildcard, 1), bind(Pat::Wildcard, 2)], 3), lit(0, 4))];
    let n = lower_expr(&c, &mut st, &root, &node(Expr::Func(arms), 5));
    match &n.expr {
        hir::Expr::Func(p0, _, body) => {
            assert_eq!(p0.as_str(), "0");
            match &body.expr {
                hir::Expr::Func(p1, _, inner) => {
                    assert_eq!(p1.as_str(), "1");
                    assert!(matches!(inner.expr, hir::Expr::Match(true, _, _)));
                },
                _ => panic!("the second parameter"),
            }
        },
        _ => panic!("a function"),
    }
    assert!(st.errors.is_empty());
}

#[test]
fn definitions_and_constructors() {
    let c = ctx();
    let mut st = LowerState::new();
    let (info, e) = instantiate_def(&c, &mut st, DefId(0), sp(1));
    assert!(matches!(info, TyInfo::Ref(TyVar(1))));
    assert!(matches!(e, hir::Expr::Global(DefId(0), _)));
    assert_eq!(st.flows, vec![(TyVar(0), TyVar(1))]);
    let root = Scope::empty();
    let n = lower_expr(&c, &mut st, &root, &node(Expr::Cons(name("Just", 2), lit(3, 3)), 4));
    assert!(matches!(n.expr, hir::Expr::Cons(_, _, _, _)));
    assert_eq!(st.impls, vec![ImplRequest { ty: TyVar(2), class: ClassId(9), use_span: sp(4), obligation_span: sp(43) }]);
}

#[test]
fn tuples_of_branches() {
    let c = ctx();
    let mut st = LowerState::new();
    let root = Scope::empty();
    let e = tupleify_expr(&c, &mut st, &root, &node(vec![lit(1, 1), lit(2, 2)], 3));
    assert!(matches!(&st.vars[e.meta.ty.0].1, TyInfo::Tuple(ts) if ts.len() == 2));
    let b = tupleify_binding(&c, &mut st, &node(vec![bind(Pat::Wildcard, 4)], 5));
    assert!(matches!(&*b.pat.inner, hir::Pat::Tuple(items) if items.len() == 1));
    assert_eq!(b.meta.span, sp(5));
}

#[test]
fn lowering_through_the_trait() {
    let c = ctx();
    let mut st = LowerState::new();
    let root = Scope::empty();
    let t = Type::to_hir(&data_ty("Bool", Vec::new(), 1), &c, &mut st, &root);
    assert!(matches!(st.vars[t.0].1, TyInfo::Prim(Prim::Bool)));
    let b = Binding::to_hir(&bind(Pat::Wildcard, 2), &c, &mut st, &root);
    assert!(matches!(st.vars[b.meta.ty.0].1, TyInfo::Unknown(None)));
    let e = Expr::to_hir(&lit(4, 3), &c, &mut st, &root);
    assert!(matches!(e.expr, hir::Expr::Literal(Literal::Nat(4))));
}

#[test]
fn lowering_keeps_what_was_recorded() {
    let c = ctx();
    let mut st = LowerState::new();
    let root = Scope::empty();
    lower_type(&c, &mut st, &data_ty("Nope", Vec::new(), 1));
    let first = st.vars.len();
    let e = node(Expr::Apply(node(Expr::Local(Ident::new("one")), 2), lit(3, 3)), 4);
    lower_expr(&c, &mut st, &root, &e);
    assert!(st.vars.len() > first);
    assert!(matches!(st.vars[0].1, TyInfo::Error(ErrorReason::Invalid)));
    assert_eq!(st.vars[0].0, sp(1));
    assert_eq!(st.errors[0], LowerError::NoSuchData(name("Nope", 1)));
}

#[test]
fn record_patterns_are_maps_from_names() {
    let c = ctx();
    let mut st = LowerState::new();
    let fields = vec![
        (name("b", 1), bind(Pat::Wildcard, 2)),
        (name("a", 3), bind(Pat::Wildcard, 4)),
        (name("b", 5), bind(Pat::Wildcard, 6)),
    ];
    let b = lower_binding(&c, &mut st, &bind(Pat::Record(fields), 7));
    match &*b.pat.inner {
        hir::Pat::Record(fs) => {
            assert_eq!(fs.len(), 2);
            assert_eq!(fs[0].0.as_str(), "a");
            assert_eq!(fs[1].0.as_str(), "b");
            assert_eq!(fs[1].1.meta.span, sp(6));
            assert_eq!(fs[0].1.meta.span, sp(4));
        },
        _ => panic!("a record pattern"),
    }
    // All three fields were lowered, in the order written.
    assert_eq!(st.vars.len(), 4);
}

#[test]
fn intrinsics_and_blocks() {
    let c = ctx();
    let mut st = LowerState::new();
    let root = Scope::empty();
    let e = node(Expr::Intrinsic(name("neg_nat", 1), vec![lit(2, 2)]), 3);
    let n = lower_expr(&c, &mut st, &root, &e);
    assert!(matches!(n.expr, hir::Expr::Intrinsic(_, _)));
    let bad = node(Expr::Intrinsic(name("nope", 4), Vec::new()), 5);
    let b = lower_expr(&c, &mut st, &root, &bad);
    assert!(matches!(st.vars[b.meta.ty.0].1, TyInfo::Error(ErrorReason::Invalid)));
    assert_eq!(st.errors, vec![LowerError::InvalidIntrinsic(name("nope", 4))]);
    let prop = node(Expr::Unary(node(tao::ast::UnaryOp::Propagate, 6), lit(1, 7)), 8);
    lower_expr(&c, &mut st, &root, &prop);
    assert_eq!(st.errors[1], LowerError::NoBasin(sp(6)));
    let block = node(Expr::Block(vec![lit(1, 9)], node(Expr::Unary(node(tao::ast::UnaryOp::Propagate, 10), lit(1, 11)), 12)), 13);
    let k = lower_expr(&c, &mut st, &root, &block);
    assert!(matches!(k.expr, hir::Expr::Basin(_, _)));
    assert_eq!(st.errors.len(), 2);
}
