use tao::ident::Ident;
use tao::lower::{
    enforce_generic_obligations, ClassId, DefId, EffectVar, GenericParam, GenericsScope, ImplRequest, LowerError,
    Obligation, Scope, TyVar,
};
use tao::span::{Span, SrcNode};
use tao::infer::{LowerState, TyInfo};
use tao::ast::Literal;
use tao::ty::Prim;
use tao::lower::litr_ty_info;

fn sp(a: usize) -> Span {
    Span::new(a, a + 1)
}

fn name(s: &str) -> SrcNode<Ident> {
    SrcNode::new(Ident::new(s), sp(0))
}

#[test]
fn find_innermost() {
    let mut st = LowerState::new();
    let root = Scope::empty();
    assert!(root.find(&mut st, sp(0), &Ident::new("x")).is_none());
    assert!(root.last_basin().is_none());
    let s1 = root.with(name("x"), TyVar(1));
    let s2 = s1.with(name("y"), TyVar(2));
    let s3 = s2.with(name("x"), TyVar(3));
    assert_eq!(s3.find(&mut st, sp(0), &Ident::new("x")).map(|(t, r)| (t, r.is_none())), Some((TyVar(3), true)));
    assert_eq!(s3.find(&mut st, sp(0), &Ident::new("y")).map(|(t, _)| t), Some(TyVar(2)));
    assert_eq!(s2.find(&mut st, sp(0), &Ident::new("x")).map(|(t, _)| t), Some(TyVar(1)));
    assert!(s3.find(&mut st, sp(0), &Ident::new("z")).is_none());
}

#[test]
fn find_many_and_recursive() {
    let mut st = LowerState::new();
    let rec = Scope::Recursive(name("f"), TyVar(10), DefId(4), vec![(sp(1), TyVar(11))]);
    let locals = vec![(name("a"), TyVar(20)), (name("b"), TyVar(21)), (name("a"), TyVar(22))];
    let many = rec.with_many(&locals);
    assert_eq!(many.find(&mut st, sp(0), &Ident::new("a")).map(|(t, _)| t), Some(TyVar(20)));
    assert_eq!(many.find(&mut st, sp(0), &Ident::new("b")).map(|(t, _)| t), Some(TyVar(21)));
    let (t, r) = many.find(&mut st, sp(5), &Ident::new("f")).unwrap();
    assert_eq!(t, TyVar(0));
    assert_eq!(st.vars.len(), 1);
    assert_eq!(st.vars[0].0, sp(5));
    assert!(matches!(st.vars[0].1, TyInfo::Fresh(TyVar(10))));
    let (d, g) = r.unwrap();
    assert_eq!(d, DefId(4));
    assert_eq!(g, vec![(sp(1), TyVar(11))]);
    assert!(many.find(&mut st, sp(0), &Ident::new("g")).is_none());
}

#[test]
fn basins() {
    let mut st = LowerState::new();
    let root = Scope::empty();
    let b1 = root.with_basin(EffectVar(1));
    let x = b1.with(name("x"), TyVar(0));
    assert_eq!(x.last_basin(), Some(EffectVar(1)));
    let b2 = x.with_basin(EffectVar(2));
    assert_eq!(b2.last_basin(), Some(EffectVar(2)));
    assert_eq!(b2.find(&mut st, sp(0), &Ident::new("x")).map(|(t, _)| t), Some(TyVar(0)));
    let rec = Scope::Recursive(name("f"), TyVar(1), DefId(0), Vec::new());
    assert_eq!(rec.with(name("y"), TyVar(2)).last_basin(), None);
}

fn scope_two() -> GenericsScope {
    GenericsScope {
        span: sp(9),
        params: vec![
            GenericParam {
                name: name("A"),
                obligations: vec![
                    SrcNode::new(Obligation::MemberOf(ClassId(1)), sp(3)),
                    SrcNode::new(Obligation::MemberOf(ClassId(2)), sp(4)),
                ],
            },
            GenericParam { name: name("B"), obligations: Vec::new() },
        ],
    }
}

#[test]
fn generics_count_mismatch() {
    let r = enforce_generic_obligations(&scope_two(), &[TyVar(1)], sp(20), sp(30));
    assert_eq!(r, Err(LowerError::WrongNumberOfGenerics(sp(20), 1, sp(9), 2)));
    let none = GenericsScope { span: sp(9), params: Vec::new() };
    let r = enforce_generic_obligations(&none, &[TyVar(1)], sp(20), sp(30));
    assert_eq!(r, Err(LowerError::WrongNumberOfGenerics(sp(20), 1, sp(30), 0)));
}

#[test]
fn generics_obligations() {
    let r = enforce_generic_obligations(&scope_two(), &[TyVar(7), TyVar(8)], sp(20), sp(30)).unwrap();
    assert_eq!(
        r,
        vec![
            ImplRequest { ty: TyVar(7), class: ClassId(1), use_span: sp(20), obligation_span: sp(3) },
            ImplRequest { ty: TyVar(7), class: ClassId(2), use_span: sp(20), obligation_span: sp(4) },
        ]
    );
    let none = GenericsScope { span: sp(9), params: Vec::new() };
    assert_eq!(enforce_generic_obligations(&none, &[], sp(20), sp(30)), Ok(Vec::new()));
}

#[test]
fn literal_types() {
    let mut st = LowerState::new();
    assert!(matches!(litr_ty_info(&Literal::Nat(3), &mut st, sp(0)), TyInfo::Prim(Prim::Nat)));
    assert!(matches!(litr_ty_info(&Literal::Num("1.5".to_string()), &mut st, sp(0)), TyInfo::Prim(Prim::Num)));
    assert!(matches!(litr_ty_info(&Literal::Bool(true), &mut st, sp(0)), TyInfo::Prim(Prim::Bool)));
    assert!(matches!(litr_ty_info(&Literal::Char('c'), &mut st, sp(0)), TyInfo::Prim(Prim::Char)));
    assert!(st.vars.is_empty());
    let s = litr_ty_info(&Literal::Str("hi".to_string()), &mut st, sp(7));
    assert!(matches!(s, TyInfo::List(TyVar(0))));
    assert_eq!(st.vars[0].0, sp(7));
    assert!(matches!(st.vars[0].1, TyInfo::Prim(Prim::Char)));
}
