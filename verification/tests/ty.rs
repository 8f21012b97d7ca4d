use tao::ast::Generics;
use tao::ident::Ident;
use tao::ast::Literal;
use tao::span::{Span, SrcNode};
use tao::ty::{Datas, GenScope, Prim, Ty, Types};

fn sp(a: usize) -> Span {
    Span::new(a, a + 1)
}

#[test]
fn prim_names() {
    assert_eq!(Prim::Nat.name(), "Nat");
    assert_eq!(Prim::Int.name(), "Int");
    assert_eq!(Prim::Num.name(), "Num");
    assert_eq!(Prim::Bool.name(), "Bool");
    assert_eq!(Prim::Char.name(), "Char");
}

#[test]
fn insert_then_get() {
    let mut types = Types::new();
    let a = types.insert(sp(1), Ty::Prim(Prim::Nat));
    let b = types.insert(sp(2), Ty::List(a));
    assert_ne!(a, b);
    assert!(matches!(types.get(a), Ty::Prim(Prim::Nat)));
    assert!(matches!(types.get(b), Ty::List(x) if x == a));
    assert_eq!(types.get_span(a), sp(1));
    assert_eq!(types.get_span(b), sp(2));
}

#[test]
fn gen_scopes() {
    let mut types = Types::new();
    let generics = Generics {
        tys: vec![
            SrcNode::new(Ident::new("A"), sp(0)),
            SrcNode::new(Ident::new("B"), sp(2)),
            SrcNode::new(Ident::new("A"), sp(4)),
        ],
    };
    let scope = GenScope::from_ast(&generics);
    assert_eq!(scope.len(), 3);
    assert_eq!(scope.index(Ident::new("A")), Some(0));
    assert_eq!(scope.index(Ident::new("B")), Some(1));
    assert_eq!(scope.index(Ident::new("C")), None);
    let id = types.insert_gen_scope(scope);
    let empty = types.insert_gen_scope(GenScope::from_ast(&Generics { tys: Vec::new() }));
    assert_eq!(types.get_gen_scope(id).len(), 3);
    assert_eq!(types.get_gen_scope(empty).len(), 0);
    assert_eq!(types.get_gen_scope(id).index(Ident::new("B")), Some(1));
}

#[test]
fn display_primitives_and_lists() {
    let datas = Datas::new();
    let mut types = Types::new();
    let nat = types.insert(sp(0), Ty::Prim(Prim::Nat));
    let err = types.insert(sp(0), Ty::Error);
    let list = types.insert(sp(0), Ty::List(nat));
    let nested = types.insert(sp(0), Ty::List(list));
    assert_eq!(types.display(&datas, nat), "Nat");
    assert_eq!(types.display(&datas, err), "?");
    assert_eq!(types.display(&datas, list), "[Nat]");
    assert_eq!(types.display(&datas, nested), "[[Nat]]");
}

#[test]
fn display_tuples_and_records() {
    let datas = Datas::new();
    let mut types = Types::new();
    let nat = types.insert(sp(0), Ty::Prim(Prim::Nat));
    let b = types.insert(sp(0), Ty::Prim(Prim::Bool));
    let unit = types.insert(sp(0), Ty::Tuple(Vec::new()));
    let one = types.insert(sp(0), Ty::Tuple(vec![nat]));
    let two = types.insert(sp(0), Ty::Tuple(vec![nat, b]));
    let rec = types.insert(sp(0), Ty::Record(vec![(Ident::new("x"), nat), (Ident::new("y"), b)]));
    let empty_rec = types.insert(sp(0), Ty::Record(Vec::new()));
    assert_eq!(types.display(&datas, unit), "()");
    assert_eq!(types.display(&datas, one), "(Nat,)");
    assert_eq!(types.display(&datas, two), "(Nat, Bool)");
    assert_eq!(types.display(&datas, rec), "{ x: Nat, y: Bool }");
    assert_eq!(types.display(&datas, empty_rec), "{  }");
}

#[test]
fn display_functions() {
    let datas = Datas::new();
    let mut types = Types::new();
    let nat = types.insert(sp(0), Ty::Prim(Prim::Nat));
    let b = types.insert(sp(0), Ty::Prim(Prim::Bool));
    let c = types.insert(sp(0), Ty::Prim(Prim::Char));
    let bc = types.insert(sp(0), Ty::Func(b, c));
    let right = types.insert(sp(0), Ty::Func(nat, bc));
    let nb = types.insert(sp(0), Ty::Func(nat, b));
    let left = types.insert(sp(0), Ty::Func(nb, c));
    let list_fn = types.insert(sp(0), Ty::List(nb));
    assert_eq!(types.display(&datas, right), "Nat -> Bool -> Char");
    assert_eq!(types.display(&datas, left), "(Nat -> Bool) -> Char");
    assert_eq!(types.display(&datas, list_fn), "[Nat -> Bool]");
}

#[test]
fn display_data_and_generics() {
    let mut datas = Datas::new();
    let maybe = datas.insert(Ident::new("Maybe"));
    let unit_d = datas.insert(Ident::new("Unit"));
    assert_eq!(datas.get_name(maybe).as_str(), "Maybe");
    let mut types = Types::new();
    let scope = types.insert_gen_scope(GenScope::from_ast(&Generics { tys: vec![SrcNode::new(Ident::new("A"), sp(0))] }));
    let a = types.insert(sp(0), Ty::Gen(Ident::new("A"), scope));
    let nat = types.insert(sp(0), Ty::Prim(Prim::Nat));
    let unit = types.insert(sp(0), Ty::Data(unit_d, Vec::new()));
    let m_nat = types.insert(sp(0), Ty::Data(maybe, vec![nat]));
    let m_m = types.insert(sp(0), Ty::Data(maybe, vec![m_nat]));
    let m_unit = types.insert(sp(0), Ty::Data(maybe, vec![unit]));
    let m_a = types.insert(sp(0), Ty::Data(maybe, vec![a]));
    let f = types.insert(sp(0), Ty::Func(m_nat, a));
    let m_f = types.insert(sp(0), Ty::Data(maybe, vec![f]));
    assert_eq!(types.display(&datas, a), "A");
    assert_eq!(types.display(&datas, unit), "Unit");
    assert_eq!(types.display(&datas, m_nat), "Maybe Nat");
    assert_eq!(types.display(&datas, m_m), "Maybe (Maybe Nat)");
    assert_eq!(types.display(&datas, m_unit), "Maybe Unit");
    assert_eq!(types.display(&datas, m_a), "Maybe A");
    assert_eq!(types.display(&datas, f), "(Maybe Nat) -> A");
    assert_eq!(types.display(&datas, m_f), "Maybe ((Maybe Nat) -> A)");
}

#[test]
fn display_unchanged_by_insert() {
    let datas = Datas::new();
    let mut types = Types::new();
    let nat = types.insert(sp(0), Ty::Prim(Prim::Nat));
    let pair = types.insert(sp(0), Ty::Tuple(vec![nat, nat]));
    let before = types.display(&datas, pair);
    types.insert(sp(3), Ty::List(pair));
    assert_eq!(types.display(&datas, pair), before);
}

#[test]
fn display_needs_only_what_it_reaches() {
    let mut datas = Datas::new();
    let unit = datas.insert(Ident::new("Unit"));
    let mut types = Types::new();
    let nat = types.insert(sp(0), Ty::Prim(Prim::Nat));
    // A data type that no table declares, which the type shown does not reach.
    types.insert(sp(1), Ty::Data(tao::ty::DataId::new(7), Vec::new()));
    let list = types.insert(sp(2), Ty::List(nat));
    assert_eq!(types.display(&datas, list), "[Nat]");
    let u = types.insert(sp(3), Ty::Data(unit, Vec::new()));
    assert_eq!(types.display(&datas, u), "Unit");
}
