use vstd::prelude::*;

pub mod types;
pub mod bindings;
pub mod exprs;
pub mod laws;

use crate::ident::Ident;
use crate::span::{Span, SrcNode};
use crate::ast::{BinaryOp, Literal, LiteralV};
use crate::ty::{first_index, Prim};
use crate::infer::{s_insert, LowerState, StateV, TyInfo, TyInfoV};

verus! {

/// A type variable of type inference.
#[derive(Copy, Clone, Debug, PartialEq, Eq, Hash, Structural)]
pub struct TyVar(pub usize);

/// An effect variable of type inference.
#[derive(Copy, Clone, Debug, PartialEq, Eq, Hash, Structural)]
pub struct EffectVar(pub usize);

/// The handle of a top-level definition.
#[derive(Copy, Clone, Debug, PartialEq, Eq, Hash, Structural)]
pub struct DefId(pub usize);

/// The local names visible at a point of a definition, innermost first.
pub enum Scope<'a> {
    Empty,
    /// The definition being lowered, which may refer to itself.
    Recursive(SrcNode<Ident>, TyVar, DefId, Vec<(Span, TyVar)>),
    Binding(&'a Scope<'a>, SrcNode<Ident>, TyVar),
    Many(&'a Scope<'a>, &'a [(SrcNode<Ident>, TyVar)]),
    /// A block that collects the effects performed inside it.
    Basin(&'a Scope<'a>, EffectVar),
}

/// What a name resolves to in a scope.
pub enum Found {
    /// A local variable of the given type.
    Local(TyVar),
    /// The recursive definition itself, with its type and its generic parameters.
    Recursive(TyVar, DefId, Seq<(Span, TyVar)>),
}

/// The names of a group of locals, in order.
pub open spec fn local_names(locals: Seq<(SrcNode<Ident>, TyVar)>) -> Seq<Seq<char>> {
    locals.map_values(|l: (SrcNode<Ident>, TyVar)| (*l.0.inner)@)
}

/// What `name` resolves to in `scope`: the innermost binding of that name.
/// Within a group of locals the first one with that name counts.
pub open spec fn resolve<'a>(scope: Scope<'a>, name: Seq<char>) -> Option<Found>
    decreases scope,
{
    match scope {
        Scope::Empty => None,
        Scope::Recursive(def, ty, def_id, tys) => if (*def.inner)@ == name {
            Some(Found::Recursive(ty, def_id, tys@))
        } else {
            None
        },
        Scope::Binding(parent, local, ty) => if (*local.inner)@ == name {
            Some(Found::Local(ty))
        } else {
            resolve(*parent, name)
        },
        Scope::Many(parent, locals) => match first_index(local_names(locals@), name) {
            Some(k) => Some(Found::Local(locals@[k as int].1)),
            None => resolve(*parent, name),
        },
        Scope::Basin(parent, _) => resolve(*parent, name),
    }
}

/// The effect variable of the innermost block that encloses the point, if any
/// does before the scope of a definition is reached.
pub open spec fn innermost_basin<'a>(scope: Scope<'a>) -> Option<EffectVar>
    decreases scope,
{
    match scope {
        Scope::Empty => None,
        Scope::Recursive(_, _, _, _) => None,
        Scope::Binding(parent, _, _) => innermost_basin(*parent),
        Scope::Many(parent, _) => innermost_basin(*parent),
        Scope::Basin(_, eff) => Some(eff),
    }
}

/// The names that a scope binds, as lowering sees them: the definition being
/// lowered, if any, and the groups of locals bound within it, innermost last.
pub struct ScopeV {
    pub root: Option<(Seq<char>, TyVar, DefId, Seq<(Span, TyVar)>)>,
    pub frames: Seq<Seq<(Seq<char>, TyVar)>>,
    /// The effect variable of the innermost enclosing block, if any.
    pub basin: Option<EffectVar>,
}

/// A group of locals as lowering sees it.
pub open spec fn frame_of(locals: Seq<(SrcNode<Ident>, TyVar)>) -> Seq<(Seq<char>, TyVar)> {
    locals.map_values(|l: (SrcNode<Ident>, TyVar)| ((*l.0.inner)@, l.1))
}

/// The names of a group of locals as lowering sees it.
pub open spec fn frame_names(f: Seq<(Seq<char>, TyVar)>) -> Seq<Seq<char>> {
    f.map_values(|l: (Seq<char>, TyVar)| l.0)
}

/// How lowering sees a scope.
pub open spec fn scope_v<'a>(scope: Scope<'a>) -> ScopeV
    decreases scope,
{
    match scope {
        Scope::Empty => ScopeV { root: None, frames: Seq::empty(), basin: None },
        Scope::Recursive(def, ty, def_id, tys) => ScopeV { root: Some(((*def.inner)@, ty, def_id, tys@)), frames: Seq::empty(), basin: None },
        Scope::Binding(parent, local, ty) => {
            let p = scope_v(*parent);
            ScopeV { frames: p.frames.push(seq![((*local.inner)@, ty)]), ..p }
        },
        Scope::Many(parent, locals) => {
            let p = scope_v(*parent);
            ScopeV { frames: p.frames.push(frame_of(locals@)), ..p }
        },
        Scope::Basin(parent, eff) => ScopeV { basin: Some(eff), ..scope_v(*parent) },
    }
}

/// The scope seen by lowering, within a block whose effects go to `eff`.
pub open spec fn with_basin_v(sv: ScopeV, eff: EffectVar) -> ScopeV {
    ScopeV { basin: Some(eff), ..sv }
}

/// The scope seen by lowering, with a group of locals bound within it.
pub open spec fn push_frame(sv: ScopeV, f: Seq<(Seq<char>, TyVar)>) -> ScopeV {
    ScopeV { frames: sv.frames.push(f), ..sv }
}

/// What `name` resolves to in the scope seen by lowering: the first local of
/// that name in the innermost group that has one, else the definition being lowered.
pub open spec fn resolve_v(sv: ScopeV, name: Seq<char>) -> Option<Found> {
    resolve_in(sv.root, sv.frames, name)
}

/// What `name` resolves to among the groups `frames` (innermost last) within `root`.
pub open spec fn resolve_in(
    root: Option<(Seq<char>, TyVar, DefId, Seq<(Span, TyVar)>)>,
    frames: Seq<Seq<(Seq<char>, TyVar)>>,
    name: Seq<char>,
) -> Option<Found>
    decreases frames.len(),
{
    if frames.len() == 0 {
        match root {
            Some((n, ty, d, g)) => if n == name {
                Some(Found::Recursive(ty, d, g))
            } else {
                None
            },
            None => None,
        }
    } else {
        let f = frames.last();
        match first_index(frame_names(f), name) {
            Some(k) => Some(Found::Local(f[k as int].1)),
            None => resolve_in(root, frames.drop_last(), name),
        }
    }
}

/// A name resolves in a scope as it does in what lowering sees of it.
pub proof fn lemma_resolve_v<'a>(scope: Scope<'a>, name: Seq<char>)
    ensures
        resolve(scope, name) == resolve_v(scope_v(scope), name),
    decreases scope,
{
    match scope {
        Scope::Binding(parent, local, ty) => {
            lemma_resolve_v(*parent, name);
            let f = seq![((*local.inner)@, ty)];
            assert(frame_names(f) =~= seq![(*local.inner)@]);
            assert(scope_v(scope).frames.drop_last() =~= scope_v(*parent).frames);
            let n = frame_names(f);
            assert(n.drop_first() =~= Seq::<Seq<char>>::empty());
            assert(first_index(n.drop_first(), name) is None);
            assert(f[0].1 == ty);

        },
        Scope::Many(parent, locals) => {
            lemma_resolve_v(*parent, name);
            assert(frame_names(frame_of(locals@)) =~= local_names(locals@));
            assert(scope_v(scope).frames.drop_last() =~= scope_v(*parent).frames);
            crate::ty::lemma_first_index(local_names(locals@), name);
        },
        Scope::Basin(parent, _) => {
            lemma_resolve_v(*parent, name);
        },
        _ => {},
    }
}

/// The innermost block of a scope is what lowering sees as its basin.
pub proof fn lemma_basin_v<'a>(scope: Scope<'a>)
    ensures
        innermost_basin(scope) == scope_v(scope).basin,
    decreases scope,
{
    match scope {
        Scope::Binding(parent, _, _) => lemma_basin_v(*parent),
        Scope::Many(parent, _) => lemma_basin_v(*parent),
        _ => {},
    }
}

/// What finding `name` at `span` gives in the scope seen by lowering, and the
/// state after: a local's type, or a fresh instance of the recursive
/// definition's type with its generic parameters.
pub open spec fn s_find(sv: ScopeV, st: StateV, span: Span, name: Seq<char>) -> (Option<(TyVar, Option<(DefId, Seq<(Span, TyVar)>)>)>, StateV) {
    match resolve_v(sv, name) {
        None => (None, st),
        Some(Found::Local(ty)) => (Some((ty, None)), st),
        Some(Found::Recursive(ty, d, g)) => {
            let (v, s) = s_insert(st, span, TyInfoV::Fresh(ty));
            (Some((v, Some((d, g)))), s)
        },
    }
}

/// A copy of a name with its span.
pub fn copy_name(n: &SrcNode<Ident>) -> (r: SrcNode<Ident>)
    ensures
        r == *n,
{
    SrcNode::new(n.inner().clone(), n.span)
}

fn copy_generics(tys: &Vec<(Span, TyVar)>) -> (r: Vec<(Span, TyVar)>)
    ensures
        r@ == tys@,
{
    let mut r: Vec<(Span, TyVar)> = Vec::new();
    let mut i: usize = 0;
    while i < tys.len()
        invariant
            i <= tys.len(),
            r@ == tys@.take(i as int),
        decreases tys.len() - i,
    {
        r.push(tys[i]);
        i = i + 1;
        assert(r@ =~= tys@.take(i as int));
    }
    assert(tys@.take(i as int) =~= tys@);
    r
}

impl<'a> Scope<'a> {
    /// The scope in which nothing is bound.
    pub fn empty() -> (r: Scope<'a>)
        ensures
            r is Empty,
    {
        Scope::Empty
    }

    /// This scope, with `name` bound to a local of type `ty`.
    pub fn with(&self, name: SrcNode<Ident>, ty: TyVar) -> (r: Scope<'_>)
        ensures
            r == Scope::Binding(self, name, ty),
    {
        Scope::Binding(self, name, ty)
    }

    /// This scope, with a group of locals bound.
    pub fn with_many<'b>(&'b self, many: &'b [(SrcNode<Ident>, TyVar)]) -> (r: Scope<'b>)
        ensures
            r == Scope::Many(self, many),
    {
        Scope::Many(self, many)
    }

    /// This scope, inside a block whose effects are collected in `basin`.
    pub fn with_basin<'b>(&'b self, basin: EffectVar) -> (r: Scope<'b>)
        ensures
            r == Scope::Basin(self, basin),
    {
        Scope::Basin(self, basin)
    }

    /// What `name` resolves to: the type of the innermost local of that name,
    /// or, for the recursive definition, a fresh instance (made at `span`) of
    /// its type, with its generic parameters.
    pub fn find(&self, st: &mut LowerState, span: Span, name: &Ident) -> (r: Option<(TyVar, Option<(DefId, Vec<(Span, TyVar)>)>)>)
        ensures
            match resolve(*self, name@) {
                None => r is None && final(st)@ == old(st)@,
                Some(Found::Local(ty)) => r == Some((ty, None::<(DefId, Vec<(Span, TyVar)>)>)) && final(st)@ == old(st)@,
                Some(Found::Recursive(ty, def_id, tys)) => r matches Some((t, Some((d, g)))) && (t, final(st)@)
                    == s_insert(old(st)@, span, TyInfoV::Fresh(ty)) && d == def_id && g@ == tys,
            },
        decreases self,
    {
        match self {
            Scope::Empty => None,
            Scope::Recursive(def, ty, def_id, tys) => if def.inner().same(name) {
                let v = st.insert(span, TyInfo::Fresh(*ty));
                Some((v, Some((*def_id, copy_generics(tys)))))
            } else {
                None
            },
            Scope::Binding(parent, local, ty) => if local.inner().same(name) {
                Some((*ty, None))
            } else {
                parent.find(st, span, name)
            },
            Scope::Many(parent, locals) => {
                let mut i: usize = 0;
                while i < locals.len()
                    invariant
                        *self == Scope::Many(*parent, *locals),
                        i <= locals@.len(),
                        forall|j: int| 0 <= j < i ==> local_names(locals@)[j] != name@,
                    decreases locals.len() - i,
                {
                    assert(local_names(locals@)[i as int] == (*locals@[i as int].0.inner)@);
                    if locals[i].0.inner().same(name) {
                        proof {
                            crate::ty::lemma_first_index(local_names(locals@), name@);
                            assert(local_names(locals@)[i as int] == name@);
                            assert(first_index(local_names(locals@), name@) == Some(i as nat));
                            assert(resolve(*self, name@) == Some(Found::Local(locals@[i as int].1)));
                        }
                        return Some((locals[i].1, None));
                    }
                    i = i + 1;
                }
                proof {
                    crate::ty::lemma_first_index(local_names(locals@), name@);
                }
                parent.find(st, span, name)
            },
            Scope::Basin(parent, _) => parent.find(st, span, name),
        }
    }

    /// The effect variable of the innermost enclosing block, if there is one.
    pub fn last_basin(&self) -> (r: Option<EffectVar>)
        ensures
            r == innermost_basin(*self),
        decreases self,
    {
        match self {
            Scope::Empty => None,
            Scope::Recursive(_, _, _, _) => None,
            Scope::Binding(parent, _, _) => parent.last_basin(),
            Scope::Many(parent, _) => parent.last_basin(),
            Scope::Basin(_, eff) => Some(*eff),
        }
    }
}

} // verus!

verus! {

/// The handle of a type class.
#[derive(Copy, Clone, Debug, PartialEq, Eq, Hash, Structural)]
pub struct ClassId(pub usize);

/// What a generic type parameter demands of the types it stands for.
#[derive(Copy, Clone, Debug, PartialEq, Eq, Structural)]
pub enum Obligation {
    /// The type must be a member of the class.
    MemberOf(ClassId),
}

/// A generic type parameter of an item, with its obligations.
pub struct GenericParam {
    pub name: SrcNode<Ident>,
    pub obligations: Vec<SrcNode<Obligation>>,
}

/// The generic type parameters of an item, with the span where they are declared.
pub struct GenericsScope {
    pub span: Span,
    pub params: Vec<GenericParam>,
}

/// A demand that a type be a member of a class, made where a generic item is used.
#[derive(Copy, Clone, Debug, PartialEq, Eq, Structural)]
pub struct ImplRequest {
    pub ty: TyVar,
    pub class: ClassId,
    pub use_span: Span,
    pub obligation_span: Span,
}

/// An error found while lowering.
#[derive(Debug, PartialEq)]
pub enum LowerError {
    /// An item was used with a number of generic parameters (at the first
    /// span, how many) other than it declares (at the second span, how many).
    WrongNumberOfGenerics(Span, usize, Span, usize),
    /// `Self` was written where no type stands for it.
    SelfNotValidHere(Span),
    /// No data type, alias or generic parameter has the name written here.
    NoSuchData(SrcNode<Ident>),
    /// An alias was used within its own declaration.
    RecursiveAlias(Span),
    /// No constructor has the name written here.
    NoSuchCons(SrcNode<Ident>),
    /// No local or definition has the name written here.
    NoSuchLocal(SrcNode<Ident>),
    /// No effect has the name written here.
    NoSuchEffect(SrcNode<Ident>),
    /// An effect is performed (at the span) outside of any block.
    NoBasin(Span),
    /// No built-in operation has this name and number of arguments.
    InvalidIntrinsic(SrcNode<Ident>),
    /// A pattern with an operator applies to values of the first type with a
    /// literal of the second, which patterns do not support (at the span).
    PatternNotSupported(TyVar, SrcNode<BinaryOp>, TyVar, Span),
    /// A branch has a number of patterns (at the first span, how many) other
    /// than expected (at the second span, how many).
    WrongNumberOfParams(Span, usize, Span, usize),
    /// A function was written with no branch.
    NoBranches(Span),
    /// A definition (named at the first span) whose type is not known was
    /// used (at the second span); the last field is its name.
    DefTypeNotSpecified(Span, Span, Ident),
}

/// The obligations of each generic parameter of `scope`, in order: the class
/// and where the obligation was written.
pub open spec fn obligations_of(scope: GenericsScope) -> Seq<Seq<(ClassId, Span)>> {
    Seq::new(
        scope.params@.len(),
        |i: int|
            Seq::new(
                scope.params@[i].obligations@.len(),
                |j: int|
                    match *scope.params@[i].obligations@[j].inner {
                        Obligation::MemberOf(c) => (c, scope.params@[i].obligations@[j].span),
                    },
            ),
    )
}

/// The demands, in order, that the obligations `obls` of the generic parameters
/// make of the types `params` given for them at `use_span`.
pub open spec fn requests(params: Seq<TyVar>, obls: Seq<Seq<(ClassId, Span)>>, use_span: Span) -> Seq<ImplRequest>
    decreases obls.len(),
{
    if obls.len() == 0 {
        Seq::empty()
    } else {
        let i = obls.len() - 1;
        requests(params, obls.drop_last(), use_span) + obls.last().map_values(
            |o: (ClassId, Span)| ImplRequest { ty: params[i], class: o.0, use_span, obligation_span: o.1 },
        )
    }
}

/// Checks the types `params` given for the generic parameters of an item used
/// at `use_span` (declared at `item_span`). Where their number differs from the
/// number of generic parameters, the error says so, pointing at the declared
/// parameters, or at the item where it declares none. Otherwise the result is
/// what the parameters' obligations demand of the given types.
pub fn enforce_generic_obligations(
    gen_scope: &GenericsScope,
    params: &[TyVar],
    use_span: Span,
    item_span: Span,
) -> (r: Result<Vec<ImplRequest>, LowerError>)
    ensures
        params@.len() != gen_scope.params@.len() ==> r == Err::<Vec<ImplRequest>, LowerError>(
            LowerError::WrongNumberOfGenerics(
                use_span,
                params@.len() as usize,
                if gen_scope.params@.len() == 0 {
                    item_span
                } else {
                    gen_scope.span
                },
                gen_scope.params@.len() as usize,
            ),
        ),
        params@.len() == gen_scope.params@.len() ==> (r matches Ok(reqs) && reqs@ == requests(
            params@,
            obligations_of(*gen_scope),
            use_span,
        )),
{
    let n = gen_scope.params.len();
    if n != params.len() {
        let at = if n == 0 {
            item_span
        } else {
            gen_scope.span
        };
        return Err(LowerError::WrongNumberOfGenerics(use_span, params.len(), at, n));
    }
    let ghost obls = obligations_of(*gen_scope);
    let mut reqs: Vec<ImplRequest> = Vec::new();
    let mut idx: usize = 0;
    while idx < n
        invariant
            n == gen_scope.params@.len(),
            n == params@.len(),
            obls == obligations_of(*gen_scope),
            idx <= n,
            reqs@ == requests(params@, obls.take(idx as int), use_span),
        decreases n - idx,
    {
        let param = &gen_scope.params[idx];
        let m = param.obligations.len();
        let ghost before = reqs@;
        let ghost row = obls[idx as int];
        let mut j: usize = 0;
        while j < m
            invariant
                n == gen_scope.params@.len(),
                n == params@.len(),
                obls == obligations_of(*gen_scope),
                idx < n,
                *param == gen_scope.params@[idx as int],
                m == param.obligations@.len(),
                row == obls[idx as int],
                j <= m,
                reqs@ == before + row.take(j as int).map_values(
                    |o: (ClassId, Span)| ImplRequest { ty: params@[idx as int], class: o.0, use_span, obligation_span: o.1 },
                ),
            decreases m - j,
        {
            let obl = &param.obligations[j];
            match *obl.inner {
                Obligation::MemberOf(class) => {
                    reqs.push(ImplRequest { ty: params[idx], class, use_span, obligation_span: obl.span });
                },
            }
            proof {
                assert(row.take(j + 1) =~= row.take(j as int).push(row[j as int]));
            }
            j = j + 1;
        }
        proof {
            assert(row.take(m as int) =~= row);
            let t = obls.take(idx + 1);
            assert(t.drop_last() =~= obls.take(idx as int));
        }
        idx = idx + 1;
    }
    proof {
        assert(obls.take(n as int) =~= obls);
    }
    Ok(reqs)
}

} // verus!

verus! {

/// The primitive type of a literal; for a string, that of its characters.
pub open spec fn literal_prim(l: LiteralV) -> Prim {
    match l {
        LiteralV::Nat(_) => Prim::Nat,
        LiteralV::Num(_) => Prim::Num,
        LiteralV::Bool(_) => Prim::Bool,
        LiteralV::Char(_) => Prim::Char,
        LiteralV::Str(_) => Prim::Char,
    }
}

/// The type of a literal written at `span`: its primitive type, or for a
/// string a list of a new variable of the character type.
pub open spec fn s_litr_ty_info(st: StateV, l: LiteralV, span: Span) -> (TyInfoV, StateV) {
    match l {
        LiteralV::Str(_) => {
            let (c, s) = s_insert(st, span, TyInfoV::Prim(Prim::Char));
            (TyInfoV::List(c), s)
        },
        _ => (TyInfoV::Prim(literal_prim(l)), st),
    }
}

/// The type of the literal `litr` written at `span`, as `s_litr_ty_info` says.
pub fn litr_ty_info(litr: &Literal, st: &mut LowerState, span: Span) -> (r: TyInfo)
    ensures
        (r@, final(st)@) == s_litr_ty_info(old(st)@, litr@, span),
{
    match litr {
        Literal::Nat(_) => TyInfo::Prim(Prim::Nat),
        Literal::Num(_) => TyInfo::Prim(Prim::Num),
        Literal::Bool(_) => TyInfo::Prim(Prim::Bool),
        Literal::Char(_) => TyInfo::Prim(Prim::Char),
        Literal::Str(_) => TyInfo::List(st.insert(span, TyInfo::Prim(Prim::Char))),
    }
}

} // verus!

verus! {

/// A name bound by the innermost binding resolves to it, hiding any outer
/// binding of that name; a binding of another name, and a block, change
/// nothing of how a name resolves.
pub proof fn lemma_innermost_binding_wins<'a>(s: Scope<'a>, name: Seq<char>)
    ensures
        s matches Scope::Binding(parent, local, ty) ==> resolve(s, name) == if (*local.inner)@ == name {
            Some(Found::Local(ty))
        } else {
            resolve(*parent, name)
        },
        s matches Scope::Basin(parent, _) ==> resolve(s, name) == resolve(*parent, name),
{
}

/// The innermost block of a block's scope is that block; bindings within it do
/// not change which block is innermost.
pub proof fn lemma_innermost_basin<'a>(s: Scope<'a>)
    ensures
        s matches Scope::Basin(_, eff) ==> innermost_basin(s) == Some(eff),
        s matches Scope::Binding(parent, _, _) ==> innermost_basin(s) == innermost_basin(*parent),
        s matches Scope::Many(parent, _) ==> innermost_basin(s) == innermost_basin(*parent),
{
}

} // verus!
