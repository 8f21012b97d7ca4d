use vstd::prelude::*;
use vstd::string::*;

use crate::ident::Ident;
use crate::span::Span;

verus! {

/// The primitive types of the language.
#[derive(Copy, Clone, Debug, PartialEq, Eq, Structural)]
pub enum Prim {
    Nat,
    Int,
    Num,
    Bool,
    Char,
    /// The type of all types.
    Universe,
}

/// How a primitive type is written.
pub open spec fn prim_name(p: Prim) -> Seq<char> {
    match p {
        Prim::Nat => "Nat"@,
        Prim::Int => "Int"@,
        Prim::Num => "Num"@,
        Prim::Bool => "Bool"@,
        Prim::Char => "Char"@,
        Prim::Universe => "Universe"@,
    }
}

impl Prim {
    /// How this primitive type is written.
    pub fn name(&self) -> (r: &'static str)
        ensures
            r@ == prim_name(*self),
    {
        match self {
            Prim::Nat => "Nat",
            Prim::Int => "Int",
            Prim::Num => "Num",
            Prim::Bool => "Bool",
            Prim::Char => "Char",
            Prim::Universe => "Universe",
        }
    }
}

/// The handle of a type stored in a `Types` arena.
#[derive(Copy, Clone, Debug, PartialEq, Eq, Hash, Structural)]
pub struct TyId(usize);

/// The handle of a generic scope stored in a `Types` arena.
#[derive(Copy, Clone, Debug, PartialEq, Eq, Hash, Structural)]
pub struct GenScopeId(usize);

/// The handle of a data type declared in a `Datas` table.
#[derive(Copy, Clone, Debug, PartialEq, Eq, Hash, Structural)]
pub struct DataId(usize);

impl TyId {
    /// The position of the type in its arena.
    pub closed spec fn id(self) -> nat {
        self.0 as nat
    }
}

impl GenScopeId {
    /// The position of the scope in its arena.
    pub closed spec fn id(self) -> nat {
        self.0 as nat
    }
}

impl DataId {
    /// The position of the data type in its table.
    pub closed spec fn id(self) -> nat {
        self.0 as nat
    }

    /// The handle of the data type at position `i`.
    pub closed spec fn spec_new(i: nat) -> DataId {
        DataId(i as usize)
    }

    /// The position of the data type in its table.
    pub fn index(&self) -> (r: usize)
        ensures
            r == self.id(),
    {
        self.0
    }

    /// The handle of the data type at position `i`.
    pub fn new(i: usize) -> (r: DataId)
        ensures
            r == DataId::spec_new(i as nat),
            r.id() == i,
    {
        DataId(i)
    }
}

/// A type, whose components are other types of the same arena.
/// The fields of a record are kept in the order in which they were given.
#[derive(Debug)]
pub enum Ty {
    Error,
    Prim(Prim),
    List(TyId),
    Tuple(Vec<TyId>),
    Record(Vec<(Ident, TyId)>),
    Func(TyId, TyId),
    Data(DataId, Vec<TyId>),
    Gen(Ident, GenScopeId),
}

/// The mathematical value of a `Ty`.
pub enum TyView {
    Error,
    Prim(Prim),
    List(TyId),
    Tuple(Seq<TyId>),
    Record(Seq<(Seq<char>, TyId)>),
    Func(TyId, TyId),
    Data(DataId, Seq<TyId>),
    Gen(Seq<char>, GenScopeId),
}

impl View for Ty {
    type V = TyView;

    open spec fn view(&self) -> TyView {
        match self {
            Ty::Error => TyView::Error,
            Ty::Prim(p) => TyView::Prim(*p),
            Ty::List(t) => TyView::List(*t),
            Ty::Tuple(items) => TyView::Tuple(items@),
            Ty::Record(fields) => TyView::Record(fields@.map_values(|f: (Ident, TyId)| (f.0@, f.1))),
            Ty::Func(i, o) => TyView::Func(*i, *o),
            Ty::Data(d, params) => TyView::Data(*d, params@),
            Ty::Gen(name, scope) => TyView::Gen(name@, *scope),
        }
    }
}

fn copy_ids(ids: &Vec<TyId>) -> (r: Vec<TyId>)
    ensures
        r@ == ids@,
{
    let mut r: Vec<TyId> = Vec::new();
    let mut i: usize = 0;
    while i < ids.len()
        invariant
            i <= ids.len(),
            r@ == ids@.take(i as int),
        decreases ids.len() - i,
    {
        r.push(ids[i]);
        i = i + 1;
        assert(r@ =~= ids@.take(i as int));
    }
    assert(ids@.take(i as int) =~= ids@);
    r
}

fn clone_fields(fields: &Vec<(Ident, TyId)>) -> (r: Vec<(Ident, TyId)>)
    ensures
        r@.map_values(|f: (Ident, TyId)| (f.0@, f.1)) == fields@.map_values(
            |f: (Ident, TyId)| (f.0@, f.1),
        ),
{
    let mut r: Vec<(Ident, TyId)> = Vec::new();
    let mut i: usize = 0;
    while i < fields.len()
        invariant
            i <= fields.len(),
            r@.len() == i,
            forall|j: int| 0 <= j < i ==> (#[trigger] r@[j]).0@ == fields@[j].0@ && r@[j].1 == fields@[j].1,
        decreases fields.len() - i,
    {
        let f = &fields[i];
        let ghost old_r = r@;
        r.push((f.0.clone(), f.1));
        assert(r@[i as int].0 == f.0);
        assert(r@[i as int].0@ == fields@[i as int].0@);
        assert(forall|j: int| 0 <= j < i ==> r@[j] == old_r[j]);
        assert(r@[i as int].1 == fields@[i as int].1);
        i = i + 1;
    }
    assert(r@.map_values(|f: (Ident, TyId)| (f.0@, f.1)) =~= fields@.map_values(
        |f: (Ident, TyId)| (f.0@, f.1),
    ));
    r
}

impl Clone for Ty {
    fn clone(&self) -> (r: Ty)
        ensures
            r@ == self@,
    {
        match self {
            Ty::Error => Ty::Error,
            Ty::Prim(p) => Ty::Prim(*p),
            Ty::List(t) => Ty::List(*t),
            Ty::Tuple(items) => Ty::Tuple(copy_ids(items)),
            Ty::Record(fields) => Ty::Record(clone_fields(fields)),
            Ty::Func(i, o) => Ty::Func(*i, *o),
            Ty::Data(d, params) => Ty::Data(*d, copy_ids(params)),
            Ty::Gen(name, scope) => Ty::Gen(name.clone(), *scope),
        }
    }
}

/// Every type that `t` names is stored below position `n`.
pub open spec fn refs_below(t: TyView, n: nat) -> bool {
    match t {
        TyView::Error => true,
        TyView::Prim(_) => true,
        TyView::List(item) => item.id() < n,
        TyView::Tuple(items) => forall|k: int| 0 <= k < items.len() ==> (#[trigger] items[k]).id() < n,
        TyView::Record(fields) => forall|k: int| 0 <= k < fields.len() ==> (#[trigger] fields[k]).1.id() < n,
        TyView::Func(i, o) => i.id() < n && o.id() < n,
        TyView::Data(_, params) => forall|k: int| 0 <= k < params.len() ==> (#[trigger] params[k]).id() < n,
        TyView::Gen(_, _) => true,
    }
}

/// No two fields of a record type have the same name.
pub open spec fn fields_distinct(t: TyView) -> bool {
    match t {
        TyView::Record(fields) => forall|a: int, b: int|
            0 <= a < b < fields.len() ==> (#[trigger] fields[a]).0 != (#[trigger] fields[b]).0,
        _ => true,
    }
}

/// Every data type that `t` names is declared among the first `n` data types.
pub open spec fn datas_below(t: TyView, n: nat) -> bool {
    match t {
        TyView::Data(d, _) => d.id() < n,
        _ => true,
    }
}


/// The type `ty` can be written: it and every type it reaches are in the
/// arena, each names only types stored before it, and every data type among
/// them is declared among the first `n` data types.
pub open spec fn shows_ok(tys: Seq<(Span, TyView)>, n: nat, ty: TyId) -> bool
    decreases ty.id(),
{
    ty.id() < tys.len() && refs_below(tys[ty.id() as int].1, ty.id()) && datas_below(tys[ty.id() as int].1, n) && match tys[ty.id() as int].1 {
        TyView::List(item) => item.id() < ty.id() && shows_ok(tys, n, item),
        TyView::Tuple(items) => forall|k: int| 0 <= k < items.len() && (#[trigger] items[k]).id() < ty.id() ==> shows_ok(tys, n, items[k]),
        TyView::Record(fields) => forall|k: int|
            0 <= k < fields.len() && (#[trigger] fields[k]).1.id() < ty.id() ==> shows_ok(tys, n, fields[k].1),
        TyView::Func(i, o) => i.id() < ty.id() && o.id() < ty.id() && shows_ok(tys, n, i) && shows_ok(tys, n, o),
        TyView::Data(_, params) => forall|k: int| 0 <= k < params.len() && (#[trigger] params[k]).id() < ty.id() ==> shows_ok(tys, n, params[k]),
        _ => true,
    }
}

/// How the type `ty` of the arena `tys` is written. `lhs` is set where the type
/// stands on the left of an arrow or as a parameter of a data type, where a
/// function type, or a data type with parameters, needs parentheses.
pub open spec fn show(tys: Seq<(Span, TyView)>, datas: Seq<Seq<char>>, ty: TyId, lhs: bool) -> Seq<char>
    decreases ty.id(), 1nat, 0nat,
{
    if ty.id() >= tys.len() {
        Seq::empty()
    } else {
        match tys[ty.id() as int].1 {
            TyView::Error => "?"@,
            TyView::Prim(p) => prim_name(p),
            TyView::List(item) => if item.id() < ty.id() {
                "["@ + show(tys, datas, item, false) + "]"@
            } else {
                Seq::empty()
            },
            TyView::Tuple(items) => "("@ + show_items(tys, datas, items, ty) + (if items.len() == 1 {
                ","@
            } else {
                Seq::empty()
            }) + ")"@,
            TyView::Record(fields) => "{ "@ + show_fields(tys, datas, fields, ty) + " }"@,
            TyView::Func(i, o) => if i.id() < ty.id() && o.id() < ty.id() {
                if lhs {
                    "("@ + show(tys, datas, i, true) + " -> "@ + show(tys, datas, o, true) + ")"@
                } else {
                    show(tys, datas, i, true) + " -> "@ + show(tys, datas, o, false)
                }
            } else {
                Seq::empty()
            },
            TyView::Data(d, params) => if lhs && params.len() > 0 {
                "("@ + data_name(datas, d) + show_params(tys, datas, params, ty) + ")"@
            } else {
                data_name(datas, d) + show_params(tys, datas, params, ty)
            },
            TyView::Gen(name, _) => name,
        }
    }
}

/// The types `items`, each written as an operand, separated by commas.
pub open spec fn show_items(tys: Seq<(Span, TyView)>, datas: Seq<Seq<char>>, items: Seq<TyId>, bound: TyId) -> Seq<char>
    decreases bound.id(), 0nat, items.len(),
{
    if items.len() == 0 {
        Seq::empty()
    } else {
        let last = items.last();
        let shown = if last.id() < bound.id() {
            show(tys, datas, last, false)
        } else {
            Seq::empty()
        };
        if items.len() == 1 {
            shown
        } else {
            show_items(tys, datas, items.drop_last(), bound) + ", "@ + shown
        }
    }
}

/// The fields `fields`, each written as `name: type`, separated by commas.
pub open spec fn show_fields(tys: Seq<(Span, TyView)>, datas: Seq<Seq<char>>, fields: Seq<(Seq<char>, TyId)>, bound: TyId) -> Seq<char>
    decreases bound.id(), 0nat, fields.len(),
{
    if fields.len() == 0 {
        Seq::empty()
    } else {
        let last = fields.last();
        let shown = last.0 + ": "@ + if last.1.id() < bound.id() {
            show(tys, datas, last.1, false)
        } else {
            Seq::empty()
        };
        if fields.len() == 1 {
            shown
        } else {
            show_fields(tys, datas, fields.drop_last(), bound) + ", "@ + shown
        }
    }
}

/// The parameters `params` of a data type, each preceded by a space.
pub open spec fn show_params(tys: Seq<(Span, TyView)>, datas: Seq<Seq<char>>, params: Seq<TyId>, bound: TyId) -> Seq<char>
    decreases bound.id(), 0nat, params.len(),
{
    if params.len() == 0 {
        Seq::empty()
    } else {
        let last = params.last();
        show_params(tys, datas, params.drop_last(), bound) + " "@ + if last.id() < bound.id() {
            show(tys, datas, last, true)
        } else {
            Seq::empty()
        }
    }
}

/// The generic parameters introduced by one item, in the order in which they were declared.
pub struct GenScope {
    types: Vec<Ident>,
}

impl View for GenScope {
    type V = Seq<Seq<char>>;

    closed spec fn view(&self) -> Seq<Seq<char>> {
        self.types@.map_values(|t: Ident| t@)
    }
}

/// The position of the first occurrence of `name` in `names`, if there is one.
pub open spec fn first_index(names: Seq<Seq<char>>, name: Seq<char>) -> Option<nat>
    decreases names.len(),
{
    if names.len() == 0 {
        None
    } else if names[0] == name {
        Some(0)
    } else {
        match first_index(names.drop_first(), name) {
            Some(i) => Some(i + 1),
            None => None,
        }
    }
}

/// `first_index` finds an occurrence, and it is the first one.
pub proof fn lemma_first_index(names: Seq<Seq<char>>, name: Seq<char>)
    ensures
        match first_index(names, name) {
            Some(i) => i < names.len() && names[i as int] == name && forall|j: int|
                0 <= j < i ==> names[j] != name,
            None => forall|j: int| 0 <= j < names.len() ==> names[j] != name,
        },
    decreases names.len(),
{
    if names.len() > 0 && names[0] != name {
        lemma_first_index(names.drop_first(), name);
        assert forall|j: int| 0 < j < names.len() implies names[j] == names.drop_first()[j - 1] by {}
    }
}

impl GenScope {
    /// The scope of the generic type parameters of an item, in the order in which it declares them.
    pub fn from_ast(generics: &crate::ast::Generics) -> (r: GenScope)
        ensures
            r@ == generics@.tys.map_values(|n: crate::ast::NodeV<Seq<char>>| *n.inner),
    {
        let mut types: Vec<Ident> = Vec::new();
        let mut i: usize = 0;
        while i < generics.tys.len()
            invariant
                i <= generics.tys@.len(),
                types@.len() == i,
                forall|j: int| 0 <= j < i ==> (#[trigger] types@[j])@ == (*generics.tys@[j].inner)@,
            decreases generics.tys.len() - i,
        {
            types.push(generics.tys[i].inner().clone());
            i = i + 1;
        }
        let r = GenScope { types };
        assert(r@ =~= generics@.tys.map_values(|n: crate::ast::NodeV<Seq<char>>| *n.inner));
        r
    }

    /// How many generic types the scope declares.
    pub fn len(&self) -> (r: usize)
        ensures
            r == self@.len(),
    {
        self.types.len()
    }

    /// The position of the first generic type called `name`, if the scope declares one.
    pub fn index(&self, name: Ident) -> (r: Option<usize>)
        ensures
            r matches Some(i) ==> first_index(self@, name@) == Some(i as nat),
            r is None ==> first_index(self@, name@) is None,
    {
        let mut i: usize = 0;
        while i < self.types.len()
            invariant
                i <= self.types@.len(),
                forall|j: int| 0 <= j < i ==> self@[j] != name@,
            decreases self.types.len() - i,
        {
            if self.types[i].same(&name) {
                proof {
                    assert(self@[i as int] == self.types@[i as int]@);
                    lemma_first_index(self@, name@);
                }
                return Some(i);
            }
            assert(self@[i as int] == self.types@[i as int]@);
            i = i + 1;
        }
        proof {
            lemma_first_index(self@, name@);
        }
        None
    }
}

/// The names of the data types that the program declares, indexed by `DataId`.
pub struct Datas {
    names: Vec<Ident>,
}

impl View for Datas {
    type V = Seq<Seq<char>>;

    closed spec fn view(&self) -> Seq<Seq<char>> {
        self.names@.map_values(|t: Ident| t@)
    }
}

/// The name of the data type with the given handle.
pub open spec fn data_name(datas: Seq<Seq<char>>, d: DataId) -> Seq<char> {
    datas[d.id() as int]
}

impl Datas {
    /// A table that declares no data type.
    pub fn new() -> (r: Datas)
        ensures
            r@ == Seq::<Seq<char>>::empty(),
    {
        Datas { names: Vec::new() }
    }

    /// Declares a data type called `name` and returns its handle.
    pub fn insert(&mut self, name: Ident) -> (r: DataId)
        ensures
            r.id() == old(self)@.len(),
            final(self)@ == old(self)@.push(name@),
    {
        let id = DataId(self.names.len());
        self.names.push(name);
        proof {
            assert(final(self)@ =~= old(self)@.push(name@));
        }
        id
    }

    /// The name of the data type with the handle `d`.
    pub fn get_name(&self, d: DataId) -> (r: &Ident)
        requires
            d.id() < self@.len(),
        ensures
            r@ == data_name(self@, d),
    {
        &self.names[d.0]
    }
}

/// An arena of types and of generic scopes. A type is added once and is then
/// reached through its handle.
pub struct Types {
    tys: Vec<(Span, Ty)>,
    scopes: Vec<GenScope>,
}

impl Types {
    /// The types of the arena with their spans, in order of insertion.
    pub closed spec fn tys(&self) -> Seq<(Span, TyView)> {
        self.tys@.map_values(|e: (Span, Ty)| (e.0, e.1@))
    }

    /// The generic scopes of the arena, in order of insertion.
    pub closed spec fn scopes(&self) -> Seq<Seq<Seq<char>>> {
        self.scopes@.map_values(|s: GenScope| s@)
    }

    /// Each type names only types inserted before it, so that no type contains
    /// itself, and no record type has two fields of the same name.
    pub open spec fn wf(&self) -> bool {
        forall|i: int| 0 <= i < self.tys().len() ==> refs_below(#[trigger] self.tys()[i].1, i as nat) && fields_distinct(self.tys()[i].1)
    }

    /// An arena with no types and no scopes.
    pub fn new() -> (r: Types)
        ensures
            r.tys() == Seq::<(Span, TyView)>::empty(),
            r.scopes() == Seq::<Seq<Seq<char>>>::empty(),
    {
        let r = Types { tys: Vec::new(), scopes: Vec::new() };
        assert(r.tys() =~= Seq::<(Span, TyView)>::empty());
        assert(r.scopes() =~= Seq::<Seq<Seq<char>>>::empty());
        r
    }

    /// The generic scope with the handle `scope`.
    pub fn get_gen_scope(&self, scope: GenScopeId) -> (r: &GenScope)
        requires
            scope.id() < self.scopes().len(),
        ensures
            r@ == self.scopes()[scope.id() as int],
    {
        &self.scopes[scope.0]
    }

    /// Adds a generic scope and returns its handle.
    pub fn insert_gen_scope(&mut self, gen_scope: GenScope) -> (r: GenScopeId)
        ensures
            r.id() == old(self).scopes().len(),
            final(self).scopes() == old(self).scopes().push(gen_scope@),
            final(self).tys() == old(self).tys(),
    {
        let id = GenScopeId(self.scopes.len());
        let ghost g = gen_scope@;
        self.scopes.push(gen_scope);
        proof {
            assert(final(self).scopes() =~= old(self).scopes().push(g));
            assert(final(self).tys() =~= old(self).tys());
        }
        id
    }

    /// The type with the handle `ty`.
    pub fn get(&self, ty: TyId) -> (r: Ty)
        requires
            ty.id() < self.tys().len(),
        ensures
            r@ == self.tys()[ty.id() as int].1,
    {
        self.tys[ty.0].1.clone()
    }

    /// The span of the type with the handle `ty`.
    pub fn get_span(&self, ty: TyId) -> (r: Span)
        requires
            ty.id() < self.tys().len(),
        ensures
            r == self.tys()[ty.id() as int].0,
    {
        self.tys[ty.0].0
    }

    /// Adds a type with its span and returns its handle.
    pub fn insert(&mut self, span: Span, ty: Ty) -> (r: TyId)
        ensures
            r.id() == old(self).tys().len(),
            final(self).tys() == old(self).tys().push((span, ty@)),
            final(self).scopes() == old(self).scopes(),
            old(self).wf() && refs_below(ty@, old(self).tys().len()) && fields_distinct(ty@) ==> final(self).wf(),
    {
        let id = TyId(self.tys.len());
        let ghost t = ty@;
        self.tys.push((span, ty));
        proof {
            assert(final(self).tys() =~= old(self).tys().push((span, t)));
            assert(final(self).scopes() =~= old(self).scopes());
        }
        id
    }
    /// Writes the type `ty` at the end of `out`, as `show` says.
    fn write_ty(&self, datas: &Datas, ty: TyId, lhs: bool, out: &mut String)
        requires
            shows_ok(self.tys(), datas@.len(), ty),
        ensures
            final(out)@ == old(out)@ + show(self.tys(), datas@, ty, lhs),
        decreases ty.id(),
    {
        let ghost tys = self.tys();
        let ghost start = out@;
        assert(refs_below(tys[ty.id() as int].1, ty.id()));
        assert(datas_below(tys[ty.id() as int].1, datas@.len()));
        match &self.tys[ty.0].1 {
            Ty::Error => {
                out.append("?");
            },
            Ty::Prim(p) => {
                out.append(p.name());
            },
            Ty::List(item) => {
                out.append("[");
                self.write_ty(datas, *item, false, out);
                out.append("]");
                assert(out@ =~= start + show(tys, datas@, ty, lhs));
            },
            Ty::Tuple(items) => {
                out.append("(");
                let mut i: usize = 0;
                while i < items.len()
                    invariant
                        shows_ok(self.tys(), datas@.len(), ty),
                        tys == self.tys(),
                        ty.id() < tys.len(),
                        refs_below(tys[ty.id() as int].1, ty.id()),
                        tys[ty.id() as int].1 == TyView::Tuple(items@),
                        i <= items@.len(),
                        out@ == start + "("@ + show_items(tys, datas@, items@.take(i as int), ty),
                    decreases items.len() - i,
                {
                    let ghost before = out@;
                    if i > 0 {
                        out.append(", ");
                    }
                    assert(items@[i as int].id() < ty.id());
                    self.write_ty(datas, items[i], false, out);
                    proof {
                        let t = items@.take(i + 1);
                        assert(t.drop_last() =~= items@.take(i as int));
                        assert(t.last() == items@[i as int]);
                        assert(out@ =~= start + "("@ + show_items(tys, datas@, t, ty));
                    }
                    i = i + 1;
                }
                assert(items@.take(i as int) =~= items@);
                if items.len() == 1 {
                    out.append(",");
                }
                out.append(")");
                assert(out@ =~= start + show(tys, datas@, ty, lhs));
            },
            Ty::Record(fields) => {
                let ghost fs = fields@.map_values(|f: (Ident, TyId)| (f.0@, f.1));
                out.append("{ ");
                let mut i: usize = 0;
                while i < fields.len()
                    invariant
                        shows_ok(self.tys(), datas@.len(), ty),
                        tys == self.tys(),
                        ty.id() < tys.len(),
                        fs == fields@.map_values(|f: (Ident, TyId)| (f.0@, f.1)),
                        tys[ty.id() as int].1 == TyView::Record(fs),
                        i <= fields@.len(),
                        out@ == start + "{ "@ + show_fields(tys, datas@, fs.take(i as int), ty),
                    decreases fields.len() - i,
                {
                    if i > 0 {
                        out.append(", ");
                    }
                    assert(refs_below(TyView::Record(fs), ty.id()));
                    assert(fs[i as int].1.id() < ty.id());
                    out.append(fields[i].0.as_str());
                    out.append(": ");
                    self.write_ty(datas, fields[i].1, false, out);
                    proof {
                        let t = fs.take(i + 1);
                        assert(t.drop_last() =~= fs.take(i as int));
                        assert(t.last() == fs[i as int]);
                        assert(out@ =~= start + "{ "@ + show_fields(tys, datas@, t, ty));
                    }
                    i = i + 1;
                }
                assert(fs.take(i as int) =~= fs);
                out.append(" }");
                assert(out@ =~= start + show(tys, datas@, ty, lhs));
            },
            Ty::Func(i, o) => {
                if lhs {
                    out.append("(");
                    self.write_ty(datas, *i, true, out);
                    out.append(" -> ");
                    self.write_ty(datas, *o, true, out);
                    out.append(")");
                } else {
                    self.write_ty(datas, *i, true, out);
                    out.append(" -> ");
                    self.write_ty(datas, *o, false, out);
                }
                assert(out@ =~= start + show(tys, datas@, ty, lhs));
            },
            Ty::Data(d, params) => {
                let parens = lhs && params.len() > 0;
                if parens {
                    out.append("(");
                }
                let ghost mid = out@;
                out.append(datas.get_name(*d).as_str());
                let mut i: usize = 0;
                while i < params.len()
                    invariant
                        shows_ok(self.tys(), datas@.len(), ty),
                        tys == self.tys(),
                        ty.id() < tys.len(),
                        refs_below(tys[ty.id() as int].1, ty.id()),
                        tys[ty.id() as int].1 == TyView::Data(*d, params@),
                        i <= params@.len(),
                        out@ == mid + data_name(datas@, *d) + show_params(tys, datas@, params@.take(i as int), ty),
                    decreases params.len() - i,
                {
                    out.append(" ");
                    assert(params@[i as int].id() < ty.id());
                    self.write_ty(datas, params[i], true, out);
                    proof {
                        let t = params@.take(i + 1);
                        assert(t.drop_last() =~= params@.take(i as int));
                        assert(t.last() == params@[i as int]);
                        assert(out@ =~= mid + data_name(datas@, *d) + show_params(tys, datas@, t, ty));
                    }
                    i = i + 1;
                }
                assert(params@.take(i as int) =~= params@);
                if parens {
                    out.append(")");
                }
                assert(out@ =~= start + show(tys, datas@, ty, lhs));
            },
            Ty::Gen(name, _) => {
                out.append(name.as_str());
            },
        }
    }

    /// How the type `ty` is written: primitive types by name, `?` for an
    /// erroneous type, lists in brackets, tuples in parentheses (with a
    /// trailing comma when they have one element), records in braces, and
    /// function types and data types with parentheses where they stand as an
    /// operand of an arrow or of a data type.
    pub fn display(&self, datas: &Datas, ty: TyId) -> (r: String)
        requires
            shows_ok(self.tys(), datas@.len(), ty),
        ensures
            r@ == show(self.tys(), datas@, ty, false),
    {
        let mut out = String::new();
        self.write_ty(datas, ty, false, &mut out);
        assert(out@ =~= show(self.tys(), datas@, ty, false));
        out
    }
}

} // verus!

verus! {

impl Default for Types {
    fn default() -> (r: Types)
        ensures
            r.tys() == Seq::<(Span, TyView)>::empty(),
            r.scopes() == Seq::<Seq<Seq<char>>>::empty(),
    {
        Types::new()
    }
}

/// A type inserted into an arena is what `get` and `get_span` then give under
/// the handle that `insert` returned; every type inserted before it keeps its
/// handle and its value.
pub proof fn lemma_insert_then_get(before: Types, after: Types, span: Span, t: TyView, id: TyId)
    requires
        after.tys() == before.tys().push((span, t)),
        id.id() == before.tys().len(),
    ensures
        id.id() < after.tys().len(),
        after.tys()[id.id() as int] == (span, t),
        forall|k: int| 0 <= k < before.tys().len() ==> after.tys()[k] == before.tys()[k],
{
}

/// A generic scope inserted into an arena is what `get_gen_scope` then gives
/// under the handle that `insert_gen_scope` returned; the scopes inserted
/// before it keep their handles.
pub proof fn lemma_insert_then_get_gen_scope(before: Types, after: Types, g: Seq<Seq<char>>, id: GenScopeId)
    requires
        after.scopes() == before.scopes().push(g),
        id.id() == before.scopes().len(),
    ensures
        id.id() < after.scopes().len(),
        after.scopes()[id.id() as int] == g,
        forall|k: int| 0 <= k < before.scopes().len() ==> after.scopes()[k] == before.scopes()[k],
{
}

/// `ext` holds the types of `tys` at the same positions (and perhaps more after them).
pub open spec fn extends(ext: Seq<(Span, TyView)>, tys: Seq<(Span, TyView)>) -> bool {
    tys.len() <= ext.len() && forall|i: int| 0 <= i < tys.len() ==> ext[i] == tys[i]
}

/// How a type of an arena is written does not change when more types are
/// added to the arena.
pub proof fn lemma_show_stable(ext: Seq<(Span, TyView)>, tys: Seq<(Span, TyView)>, datas: Seq<Seq<char>>, ty: TyId, lhs: bool)
    requires
        extends(ext, tys),
        ty.id() < tys.len(),
    ensures
        show(ext, datas, ty, lhs) == show(tys, datas, ty, lhs),
    decreases ty.id(), 1nat, 0nat,
{
    match tys[ty.id() as int].1 {
        TyView::List(item) => if item.id() < ty.id() {
            lemma_show_stable(ext, tys, datas, item, false);
        },
        TyView::Tuple(items) => lemma_items_stable(ext, tys, datas, items, ty),
        TyView::Record(fields) => lemma_fields_stable(ext, tys, datas, fields, ty),
        TyView::Func(i, o) => if i.id() < ty.id() && o.id() < ty.id() {
            lemma_show_stable(ext, tys, datas, i, true);
            lemma_show_stable(ext, tys, datas, o, true);
            lemma_show_stable(ext, tys, datas, o, false);
        },
        TyView::Data(_, params) => lemma_params_stable(ext, tys, datas, params, ty),
        _ => {},
    }
}

proof fn lemma_items_stable(
    ext: Seq<(Span, TyView)>,
    tys: Seq<(Span, TyView)>,
    datas: Seq<Seq<char>>,
    items: Seq<TyId>,
    bound: TyId,
)
    requires
        extends(ext, tys),
        bound.id() < tys.len(),
    ensures
        show_items(ext, datas, items, bound) == show_items(tys, datas, items, bound),
    decreases bound.id(), 0nat, items.len(),
{
    if items.len() > 0 {
        if items.last().id() < bound.id() {
            lemma_show_stable(ext, tys, datas, items.last(), false);
        }
        lemma_items_stable(ext, tys, datas, items.drop_last(), bound);
    }
}

proof fn lemma_fields_stable(
    ext: Seq<(Span, TyView)>,
    tys: Seq<(Span, TyView)>,
    datas: Seq<Seq<char>>,
    fields: Seq<(Seq<char>, TyId)>,
    bound: TyId,
)
    requires
        extends(ext, tys),
        bound.id() < tys.len(),
    ensures
        show_fields(ext, datas, fields, bound) == show_fields(tys, datas, fields, bound),
    decreases bound.id(), 0nat, fields.len(),
{
    if fields.len() > 0 {
        if fields.last().1.id() < bound.id() {
            lemma_show_stable(ext, tys, datas, fields.last().1, false);
        }
        lemma_fields_stable(ext, tys, datas, fields.drop_last(), bound);
    }
}

proof fn lemma_params_stable(
    ext: Seq<(Span, TyView)>,
    tys: Seq<(Span, TyView)>,
    datas: Seq<Seq<char>>,
    params: Seq<TyId>,
    bound: TyId,
)
    requires
        extends(ext, tys),
        bound.id() < tys.len(),
    ensures
        show_params(ext, datas, params, bound) == show_params(tys, datas, params, bound),
    decreases bound.id(), 0nat, params.len(),
{
    if params.len() > 0 {
        if params.last().id() < bound.id() {
            lemma_show_stable(ext, tys, datas, params.last(), true);
        }
        lemma_params_stable(ext, tys, datas, params.drop_last(), bound);
    }
}

/// Inserting a type into an arena leaves how every type already in it is written unchanged.
pub proof fn lemma_insert_keeps_display(before: Types, after: Types, span: Span, t: TyView, datas: Seq<Seq<char>>, ty: TyId, lhs: bool)
    requires
        after.tys() == before.tys().push((span, t)),
        ty.id() < before.tys().len(),
    ensures
        show(after.tys(), datas, ty, lhs) == show(before.tys(), datas, ty, lhs),
{
    lemma_show_stable(after.tys(), before.tys(), datas, ty, lhs);
}

/// One call of `insert` or `insert_gen_scope`: how `a` becomes `b`.
pub open spec fn types_step(a: Types, b: Types) -> bool {
    ||| (exists|e: (Span, TyView)| #[trigger] a.tys().push(e) == b.tys()) && b.scopes() == a.scopes()
    ||| (exists|g: Seq<Seq<char>>| #[trigger] a.scopes().push(g) == b.scopes()) && b.tys() == a.tys()
}

/// Each arena of `run` comes from the one before it by one such call.
pub open spec fn types_run(run: Seq<Types>) -> bool {
    forall|k: int| 0 <= k < run.len() - 1 ==> #[trigger] types_step(run[k], run[k + 1])
}

/// A type that an arena holds under `id`, with its span, and a generic scope
/// it holds under `scope`, stay there through any later calls of `insert` and
/// `insert_gen_scope`: `get`, `get_span` and `get_gen_scope` keep giving them.
/// The arena never shrinks, so a handle given out later is a new one.
pub proof fn lemma_inserted_stays(run: Seq<Types>, id: TyId, scope: GenScopeId)
    requires
        run.len() > 0,
        types_run(run),
    ensures
        run[0].tys().len() <= run.last().tys().len(),
        run[0].scopes().len() <= run.last().scopes().len(),
        id.id() < run[0].tys().len() ==> id.id() < run.last().tys().len() && run.last().tys()[id.id() as int]
            == run[0].tys()[id.id() as int],
        scope.id() < run[0].scopes().len() ==> scope.id() < run.last().scopes().len()
            && run.last().scopes()[scope.id() as int] == run[0].scopes()[scope.id() as int],
    decreases run.len(),
{
    if run.len() > 1 {
        let rest = run.drop_first();
        assert forall|k: int| 0 <= k < rest.len() - 1 implies #[trigger] types_step(rest[k], rest[k + 1]) by {
            let j = k + 1;
            assert(types_step(run[j], run[j + 1]));
            assert(rest[k] == run[j] && rest[k + 1] == run[j + 1]);
        }
        lemma_inserted_stays(rest, id, scope);
        assert(types_step(run[0], run[1]));
        assert(rest.last() == run.last());
    }
}

/// Distinct primitive types are written differently.
pub proof fn lemma_prim_names_differ(a: Prim, b: Prim)
    requires
        a != b,
    ensures
        prim_name(a) != prim_name(b),
{
    reveal_strlit("Nat");
    reveal_strlit("Int");
    reveal_strlit("Num");
    reveal_strlit("Bool");
    reveal_strlit("Char");
    reveal_strlit("Universe");
    let ka = (prim_name(a).len(), prim_name(a)[0], prim_name(a)[1]);
    let kb = (prim_name(b).len(), prim_name(b)[0], prim_name(b)[1]);
    assert(ka != kb);
}

} // verus!
