use vstd::prelude::*;

use crate::ast::BinaryOp;
use crate::ident::Ident;
pub use crate::lower::GenericParam;
use crate::lower::{ClassId, DefId, EffectVar, GenericsScope, ImplRequest, LowerError, TyVar};
use crate::span::{Span, SrcNode};
use crate::ty::{first_index, lemma_first_index, DataId, Prim, TyId};

verus! {

/// Why a type is erroneous: a name or construct that is not valid, or an
/// error found elsewhere, which this type only carries on.
#[derive(Copy, Clone, Debug, PartialEq, Eq, Structural)]
pub enum ErrorReason {
    Unknown,
    Invalid,
}

/// What is known of a type variable when it is created.
pub enum TyInfo {
    /// Nothing yet; where it stands for a generic parameter, the span of that parameter.
    Unknown(Option<Span>),
    Error(ErrorReason),
    Prim(Prim),
    List(TyVar),
    Tuple(Vec<TyVar>),
    /// A record, with its fields in the order in which they were written.
    Record(Vec<(Ident, TyVar)>),
    Func(TyVar, TyVar),
    Data(DataId, Vec<TyVar>),
    /// The generic parameter at the given position of the enclosing item.
    Gen(usize, Span),
    /// The same type as another variable.
    Ref(TyVar),
    /// The declared type of the arena with its generic parameters replaced, in order, by these variables.
    Instance(TyId, Vec<TyVar>),
    /// A fresh instance of the type of another variable.
    Fresh(TyVar),
    /// A computation that performs the effect and gives a value of the type.
    Effect(EffectVar, TyVar),
}

/// The mathematical value of a `TyInfo`.
pub enum TyInfoV {
    Unknown(Option<Span>),
    Error(ErrorReason),
    Prim(Prim),
    List(TyVar),
    Tuple(Seq<TyVar>),
    Record(Seq<(Seq<char>, TyVar)>),
    Func(TyVar, TyVar),
    Data(DataId, Seq<TyVar>),
    Gen(usize, Span),
    Ref(TyVar),
    Instance(TyId, Seq<TyVar>),
    Fresh(TyVar),
    Effect(EffectVar, TyVar),
}

impl View for TyInfo {
    type V = TyInfoV;

    open spec fn view(&self) -> TyInfoV {
        match self {
            TyInfo::Unknown(o) => TyInfoV::Unknown(*o),
            TyInfo::Error(r) => TyInfoV::Error(*r),
            TyInfo::Prim(p) => TyInfoV::Prim(*p),
            TyInfo::List(t) => TyInfoV::List(*t),
            TyInfo::Tuple(ts) => TyInfoV::Tuple(ts@),
            TyInfo::Record(fs) => TyInfoV::Record(fs@.map_values(|f: (Ident, TyVar)| (f.0@, f.1))),
            TyInfo::Func(i, o) => TyInfoV::Func(*i, *o),
            TyInfo::Data(d, ps) => TyInfoV::Data(*d, ps@),
            TyInfo::Gen(i, s) => TyInfoV::Gen(*i, *s),
            TyInfo::Ref(t) => TyInfoV::Ref(*t),
            TyInfo::Instance(t, ps) => TyInfoV::Instance(*t, ps@),
            TyInfo::Fresh(t) => TyInfoV::Fresh(*t),
            TyInfo::Effect(e, t) => TyInfoV::Effect(*e, *t),
        }
    }
}

/// A demand on types, other than equality, that lowering makes of inference.
pub enum Demand {
    /// The first type is a record with the named field, of the second type.
    Access(TyVar, Ident, TyVar),
    /// The operator applies to operands of the first two types and gives the third.
    Binary(BinaryOp, TyVar, TyVar, TyVar),
    /// The first type is a member of the class, whose named field has the last type.
    ClassField(TyVar, Ident, ClassId, TyVar),
    /// The first type is a member of some class whose named field has the last type.
    ClassMember(TyVar, Ident, TyVar),
    /// The first type is a member of some class whose named associated type is the last type.
    ClassAssoc(TyVar, Ident, TyVar),
    /// The first type is a record whose named field may be replaced by a value of the last type.
    Update(TyVar, Ident, TyVar),
    /// The effect sends values of the first type and receives values of the second.
    SendRecv(EffectVar, TyVar, TyVar),
}

/// The mathematical value of a `Demand`.
pub enum DemandV {
    Access(TyVar, Seq<char>, TyVar),
    Binary(BinaryOp, TyVar, TyVar, TyVar),
    ClassField(TyVar, Seq<char>, ClassId, TyVar),
    ClassMember(TyVar, Seq<char>, TyVar),
    ClassAssoc(TyVar, Seq<char>, TyVar),
    Update(TyVar, Seq<char>, TyVar),
    SendRecv(EffectVar, TyVar, TyVar),
}

impl View for Demand {
    type V = DemandV;

    open spec fn view(&self) -> DemandV {
        match self {
            Demand::Access(r, f, t) => DemandV::Access(*r, f@, *t),
            Demand::Binary(op, a, b, o) => DemandV::Binary(*op, *a, *b, *o),
            Demand::ClassField(t, f, c, g) => DemandV::ClassField(*t, f@, *c, *g),
            Demand::ClassMember(t, f, g) => DemandV::ClassMember(*t, f@, *g),
            Demand::ClassAssoc(t, f, g) => DemandV::ClassAssoc(*t, f@, *g),
            Demand::Update(t, f, g) => DemandV::Update(*t, f@, *g),
            Demand::SendRecv(e, a, b) => DemandV::SendRecv(*e, *a, *b),
        }
    }
}

/// The handle of a declared effect.
#[derive(Copy, Clone, Debug, PartialEq, Eq, Hash, Structural)]
pub struct EffectId(pub usize);

/// What is known of an effect variable when it is created.
pub enum EffectInfo {
    Unknown,
    /// The declared effect, with the types given for its generic parameters.
    Known(EffectId, Vec<TyVar>),
}

/// The mathematical value of an `EffectInfo`.
pub enum EffectInfoV {
    Unknown,
    Known(EffectId, Seq<TyVar>),
}

impl View for EffectInfo {
    type V = EffectInfoV;

    open spec fn view(&self) -> EffectInfoV {
        match self {
            EffectInfo::Unknown => EffectInfoV::Unknown,
            EffectInfo::Known(e, ps) => EffectInfoV::Known(*e, ps@),
        }
    }
}

/// What lowering hands to type inference: the type variables it created, each
/// with its span and what is known of it, the flows between them (the first
/// type must fit where the second is expected), the other demands, the class
/// memberships required by generic items, the errors found, and the effect
/// variables it created, each with its span and what is known of it.
pub struct LowerState {
    pub vars: Vec<(Span, TyInfo)>,
    pub effects: Vec<(Span, EffectInfo)>,
    pub flows: Vec<(TyVar, TyVar)>,
    pub demands: Vec<Demand>,
    pub impls: Vec<ImplRequest>,
    pub errors: Vec<LowerError>,
}

/// The mathematical value of a `LowerState`.
pub struct StateV {
    pub vars: Seq<(Span, TyInfoV)>,
    pub effects: Seq<(Span, EffectInfoV)>,
    pub flows: Seq<(TyVar, TyVar)>,
    pub demands: Seq<DemandV>,
    pub impls: Seq<ImplRequest>,
    pub errors: Seq<LowerError>,
}

impl View for LowerState {
    type V = StateV;

    open spec fn view(&self) -> StateV {
        StateV {
            vars: self.vars@.map_values(|v: (Span, TyInfo)| (v.0, v.1@)),
            effects: self.effects@.map_values(|v: (Span, EffectInfo)| (v.0, v.1@)),
            flows: self.flows@,
            demands: self.demands@.map_values(|d: Demand| d@),
            impls: self.impls@,
            errors: self.errors@,
        }
    }
}

/// A new variable with the given span and information: the variable, and the state that has it.
pub open spec fn s_insert(st: StateV, span: Span, info: TyInfoV) -> (TyVar, StateV) {
    (TyVar(st.vars.len() as usize), StateV { vars: st.vars.push((span, info)), ..st })
}

/// A new effect variable with the given span and information: the variable, and the state that has it.
pub open spec fn s_insert_effect(st: StateV, span: Span, info: EffectInfoV) -> (EffectVar, StateV) {
    (EffectVar(st.effects.len() as usize), StateV { effects: st.effects.push((span, info)), ..st })
}

/// The state with the flow of `a` into `b` added.
pub open spec fn s_flow(st: StateV, a: TyVar, b: TyVar) -> StateV {
    StateV { flows: st.flows.push((a, b)), ..st }
}

/// The state with a demand added.
pub open spec fn s_demand(st: StateV, d: DemandV) -> StateV {
    StateV { demands: st.demands.push(d), ..st }
}

/// The state with an error added.
pub open spec fn s_error(st: StateV, e: LowerError) -> StateV {
    StateV { errors: st.errors.push(e), ..st }
}

/// The state with class memberships added, in order.
pub open spec fn s_impls(st: StateV, reqs: Seq<ImplRequest>) -> StateV {
    StateV { impls: st.impls + reqs, ..st }
}

impl LowerState {
    /// A state with nothing in it.
    pub fn new() -> (r: LowerState)
        ensures
            r@ == (StateV {
                vars: Seq::empty(),
                effects: Seq::empty(),
                flows: Seq::empty(),
                demands: Seq::empty(),
                impls: Seq::empty(),
                errors: Seq::empty(),
            }),
    {
        let r = LowerState { vars: Vec::new(), effects: Vec::new(), flows: Vec::new(), demands: Vec::new(), impls: Vec::new(), errors: Vec::new() };
        assert(r@.vars =~= Seq::empty());
        assert(r@.effects =~= Seq::empty());
        assert(r@.demands =~= Seq::empty());
        r
    }

    /// Creates a type variable.
    pub fn insert(&mut self, span: Span, info: TyInfo) -> (r: TyVar)
        ensures
            (r, final(self)@) == s_insert(old(self)@, span, info@),
    {
        let v = TyVar(self.vars.len());
        let ghost i = info@;
        self.vars.push((span, info));
        proof {
            assert(final(self)@.vars =~= old(self)@.vars.push((span, i)));
            assert(final(self)@.effects =~= old(self)@.effects);
        }
        v
    }

    /// Creates an effect variable.
    pub fn insert_effect(&mut self, span: Span, info: EffectInfo) -> (r: EffectVar)
        ensures
            (r, final(self)@) == s_insert_effect(old(self)@, span, info@),
    {
        let v = EffectVar(self.effects.len());
        let ghost i = info@;
        self.effects.push((span, info));
        proof {
            assert(final(self)@.vars =~= old(self)@.vars);
            assert(final(self)@.effects =~= old(self)@.effects.push((span, i)));
        }
        v
    }

    /// Creates a type variable of which nothing is known yet.
    pub fn unknown(&mut self, span: Span) -> (r: TyVar)
        ensures
            (r, final(self)@) == s_insert(old(self)@, span, TyInfoV::Unknown(None)),
    {
        self.insert(span, TyInfo::Unknown(None))
    }

    /// Demands that `a` fit where `b` is expected.
    pub fn flow(&mut self, a: TyVar, b: TyVar)
        ensures
            final(self)@ == s_flow(old(self)@, a, b),
    {
        self.flows.push((a, b));
        proof {
            assert(final(self)@.vars =~= old(self)@.vars);
            assert(final(self)@.effects =~= old(self)@.effects);
            assert(final(self)@.demands =~= old(self)@.demands);
        }
    }

    /// Adds a demand.
    pub fn demand(&mut self, d: Demand)
        ensures
            final(self)@ == s_demand(old(self)@, d@),
    {
        let ghost dv = d@;
        self.demands.push(d);
        proof {
            assert(final(self)@.vars =~= old(self)@.vars);
            assert(final(self)@.effects =~= old(self)@.effects);
            assert(final(self)@.demands =~= old(self)@.demands.push(dv));
        }
    }

    /// Records an error.
    pub fn error(&mut self, e: LowerError)
        ensures
            final(self)@ == s_error(old(self)@, e),
    {
        self.errors.push(e);
        proof {
            assert(final(self)@.vars =~= old(self)@.vars);
            assert(final(self)@.effects =~= old(self)@.effects);
            assert(final(self)@.demands =~= old(self)@.demands);
        }
    }

    /// Adds class memberships, in order.
    pub fn require(&mut self, reqs: Vec<ImplRequest>)
        ensures
            final(self)@ == s_impls(old(self)@, reqs@),
    {
        let mut reqs = reqs;
        let ghost all = reqs@;
        self.impls.append(&mut reqs);
        proof {
            assert(final(self)@.vars =~= old(self)@.vars);
            assert(final(self)@.effects =~= old(self)@.effects);
            assert(final(self)@.demands =~= old(self)@.demands);
        }
    }
}

// ----- What lowering reads -----

/// A declared data type: its name, where it was declared, and its generic parameters.
pub struct DataDecl {
    pub name: SrcNode<Ident>,
    pub span: Span,
    pub generics: GenericsScope,
}

/// A constructor of a data type and the type it wraps.
pub struct ConsDecl {
    pub name: Ident,
    pub data: DataId,
    pub ty: TyId,
}

/// A type alias; while it is itself being declared, its body is not known yet.
pub struct AliasDecl {
    pub name: Ident,
    pub body: Option<(GenericsScope, TyId)>,
}

/// A definition: its name, its generic parameters, and its type where it is
/// given by a hint or known from its body.
pub struct DefDecl {
    pub name: SrcNode<Ident>,
    pub generics: GenericsScope,
    pub ty: Option<TyId>,
}

/// A declared effect: its name and its generic parameters.
pub struct EffectDecl {
    pub name: SrcNode<Ident>,
    pub generics: GenericsScope,
}

/// The definitions and data type that the language itself relies on.
#[derive(Copy, Clone)]
pub struct LangItems {
    pub io_unit: DefId,
    pub io_bind: DefId,
    pub go: Option<DataId>,
}

/// The classes behind the operators `!`, `-` and `==`.
#[derive(Copy, Clone)]
pub struct LangClasses {
    pub not: ClassId,
    pub neg: ClassId,
    pub eq: ClassId,
}

/// What lowering reads: the declared items, the generic parameters of the item
/// being lowered, and the type that `Self` stands for there.
pub struct LowerCtx {
    pub datas: Vec<DataDecl>,
    pub conses: Vec<ConsDecl>,
    pub aliases: Vec<AliasDecl>,
    pub defs: Vec<DefDecl>,
    pub effects: Vec<EffectDecl>,
    pub lang: LangItems,
    pub gen_scope: Option<GenericsScope>,
    pub self_ty: Option<TyVar>,
    pub classes: LangClasses,
}

impl LowerCtx {
    /// Every constructor belongs to a declared data type, and the definitions
    /// the language relies on are declared.
    pub open spec fn wf(&self) -> bool {
        &&& forall|c: int| 0 <= c < self.conses@.len() ==> (#[trigger] self.conses@[c]).data.id() < self.datas@.len()
        &&& self.lang.io_unit.0 < self.defs@.len()
        &&& self.lang.io_bind.0 < self.defs@.len()
    }
}

/// A copy of a sequence of type variables.
pub fn copy_vars(v: &Vec<TyVar>) -> (r: Vec<TyVar>)
    ensures
        r@ == v@,
{
    let mut r: Vec<TyVar> = Vec::new();
    let mut i: usize = 0;
    while i < v.len()
        invariant
            i <= v@.len(),
            r@ == v@.take(i as int),
        decreases v.len() - i,
    {
        r.push(v[i]);
        i = i + 1;
        assert(r@ =~= v@.take(i as int));
    }
    assert(v@.take(i as int) =~= v@);
    r
}

/// Something with a name, by which it is looked up.
pub trait Named {
    spec fn name_of(&self) -> Seq<char>;

    fn name(&self) -> (r: &Ident)
        ensures
            r@ == self.name_of(),
    ;
}

impl Named for DataDecl {
    open spec fn name_of(&self) -> Seq<char> {
        (*self.name.inner)@
    }

    fn name(&self) -> (r: &Ident) {
        self.name.inner()
    }
}

impl Named for ConsDecl {
    open spec fn name_of(&self) -> Seq<char> {
        self.name@
    }

    fn name(&self) -> (r: &Ident) {
        &self.name
    }
}

impl Named for AliasDecl {
    open spec fn name_of(&self) -> Seq<char> {
        self.name@
    }

    fn name(&self) -> (r: &Ident) {
        &self.name
    }
}

impl Named for DefDecl {
    open spec fn name_of(&self) -> Seq<char> {
        (*self.name.inner)@
    }

    fn name(&self) -> (r: &Ident) {
        self.name.inner()
    }
}

impl Named for EffectDecl {
    open spec fn name_of(&self) -> Seq<char> {
        (*self.name.inner)@
    }

    fn name(&self) -> (r: &Ident) {
        self.name.inner()
    }
}

impl Named for GenericParam {
    open spec fn name_of(&self) -> Seq<char> {
        (*self.name.inner)@
    }

    fn name(&self) -> (r: &Ident) {
        self.name.inner()
    }
}

/// The names of a table, in order.
pub open spec fn names_of<T: Named>(v: Seq<T>) -> Seq<Seq<char>> {
    v.map_values(|x: T| x.name_of())
}

/// Where the first entry called `name` stands in the table, if there is one.
pub open spec fn lookup<T: Named>(v: Seq<T>, name: Seq<char>) -> Option<nat> {
    first_index(names_of(v), name)
}

/// Finds the first entry called `name`.
pub fn position<T: Named>(v: &Vec<T>, name: &Ident) -> (r: Option<usize>)
    ensures
        r matches Some(i) ==> lookup(v@, name@) == Some(i as nat) && i < v@.len() && v@[i as int].name_of() == name@,
        r is None ==> lookup(v@, name@) is None,
{
    let ghost names = names_of(v@);
    let mut i: usize = 0;
    while i < v.len()
        invariant
            i <= v@.len(),
            names == names_of(v@),
            forall|j: int| 0 <= j < i ==> names[j] != name@,
        decreases v.len() - i,
    {
        assert(names[i as int] == v@[i as int].name_of());
        if v[i].name().same(name) {
            proof {
                lemma_first_index(names, name@);
            }
            return Some(i);
        }
        i = i + 1;
    }
    proof {
        lemma_first_index(names, name@);
    }
    None
}

} // verus!
