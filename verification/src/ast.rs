use vstd::prelude::*;

use crate::ident::Ident;
use crate::span::{Span, SrcNode};

verus! {

/// A literal value written in the source.
#[derive(Debug, PartialEq)]
pub enum Literal {
    Nat(u64),
    /// A number with a fractional part, as written in the source.
    Num(String),
    Bool(bool),
    Char(char),
    Str(String),
}

impl Clone for Literal {
    fn clone(&self) -> (r: Self)
        ensures
            r == *self,
    {
        match self {
            Literal::Nat(x) => Literal::Nat(*x),
            Literal::Num(x) => Literal::Num(x.clone()),
            Literal::Bool(x) => Literal::Bool(*x),
            Literal::Char(x) => Literal::Char(*x),
            Literal::Str(x) => Literal::Str(x.clone()),
        }
    }
}

/// The mathematical value of a `Literal`.
pub enum LiteralV {
    Nat(u64),
    Num(Seq<char>),
    Bool(bool),
    Char(char),
    Str(Seq<char>),
}

impl View for Literal {
    type V = LiteralV;

    open spec fn view(&self) -> LiteralV {
        match self {
            Literal::Nat(x) => LiteralV::Nat(*x),
            Literal::Num(x) => LiteralV::Num(x@),
            Literal::Bool(x) => LiteralV::Bool(*x),
            Literal::Char(x) => LiteralV::Char(*x),
            Literal::Str(x) => LiteralV::Str(x@),
        }
    }
}

/// A prefix operator.
#[derive(Copy, Clone, Debug, PartialEq, Eq, Structural)]
pub enum UnaryOp {
    Neg,
    Not,
    /// Performs the effect of its operand within the enclosing block.
    Propagate,
}

/// A definition that the language itself relies on.
#[derive(Copy, Clone, Debug, PartialEq, Eq, Structural)]
pub enum LangDef {
    IoUnit,
    IoBind,
}

/// An infix operator.
#[derive(Copy, Clone, Debug, PartialEq, Eq, Structural)]
pub enum BinaryOp {
    Add,
    Sub,
    Mul,
    Div,
    Rem,
    Join,
    Less,
    LessEq,
    More,
    MoreEq,
    Eq,
    NotEq,
    And,
    Or,
    Xor,
}

/// A written type.
#[derive(Debug, PartialEq)]
pub enum Type {
    Error,
    Unknown,
    List(SrcNode<Type>),
    Tuple(Vec<SrcNode<Type>>),
    Record(Vec<(SrcNode<Ident>, SrcNode<Type>)>),
    Func(SrcNode<Type>, SrcNode<Type>),
    Data(SrcNode<Ident>, Vec<SrcNode<Type>>),
    /// The type of all types.
    Universe,
    /// The named associated type of a type's class.
    Assoc(SrcNode<Type>, SrcNode<Ident>),
    /// An effect, with its parameters, that gives the last type.
    Effect(SrcNode<Ident>, Vec<SrcNode<Type>>, SrcNode<Type>),
}

/// A pattern.
#[derive(Debug, PartialEq)]
pub enum Pat {
    Error,
    Wildcard,
    Literal(Literal),
    Single(SrcNode<Binding>),
    Tuple(Vec<SrcNode<Binding>>),
    Record(Vec<(SrcNode<Ident>, SrcNode<Binding>)>),
    ListExact(Vec<SrcNode<Binding>>),
    ListFront(Vec<SrcNode<Binding>>, Option<SrcNode<Binding>>),
    Deconstruct(SrcNode<Ident>, SrcNode<Binding>),
    /// A pattern with an operator and a literal, such as `n + 1`.
    Binary(SrcNode<BinaryOp>, SrcNode<Binding>, SrcNode<Literal>),
}

/// A pattern, the name it binds if any, and its type hint if any.
#[derive(Debug, PartialEq)]
pub struct Binding {
    pub pat: SrcNode<Pat>,
    pub name: Option<SrcNode<Ident>>,
    pub ty: Option<SrcNode<Type>>,
}

/// The patterns of one branch of a function or a `match`, and its body.
pub type Branch = (SrcNode<Vec<SrcNode<Binding>>>, SrcNode<Expr>);

/// An expression.
#[derive(Debug, PartialEq)]
pub enum Expr {
    Error,
    Literal(Literal),
    Local(Ident),
    Tuple(Vec<SrcNode<Expr>>),
    Record(Vec<(SrcNode<Ident>, SrcNode<Expr>)>),
    /// A list of items, followed by lists whose items come after them.
    List(Vec<SrcNode<Expr>>, Vec<SrcNode<Expr>>),
    Access(SrcNode<Expr>, SrcNode<Ident>),
    Unary(SrcNode<UnaryOp>, SrcNode<Expr>),
    Binary(SrcNode<BinaryOp>, SrcNode<Expr>, SrcNode<Expr>),
    Let(Vec<(SrcNode<Binding>, SrcNode<Expr>)>, SrcNode<Expr>),
    If(SrcNode<Expr>, SrcNode<Expr>, SrcNode<Expr>),
    Match(SrcNode<Vec<SrcNode<Expr>>>, Vec<Branch>),
    Func(Vec<Branch>),
    Apply(SrcNode<Expr>, SrcNode<Expr>),
    Cons(SrcNode<Ident>, SrcNode<Expr>),
    LangDef(LangDef),
    /// The named field of the class of a type.
    ClassAccess(SrcNode<Type>, SrcNode<Ident>),
    /// A built-in operation, by name, applied to arguments.
    Intrinsic(SrcNode<Ident>, Vec<SrcNode<Expr>>),
    /// A record with some of its fields replaced.
    Update(SrcNode<Expr>, Vec<(SrcNode<Ident>, SrcNode<Expr>)>),
    /// Statements run in order, then the last expression; the effects
    /// performed within are collected by the block.
    Block(Vec<SrcNode<Expr>>, SrcNode<Expr>),
    /// An expression whose effect is handled: each value it sends is bound by
    /// `send`, and `recv` gives what is sent back.
    Handle {
        expr: SrcNode<Expr>,
        eff_name: SrcNode<Ident>,
        eff_args: Vec<SrcNode<Type>>,
        send: SrcNode<Binding>,
        recv: SrcNode<Expr>,
    },
}

/// The generic type parameters of an item.
#[derive(Debug, PartialEq)]
pub struct Generics {
    pub tys: Vec<SrcNode<Ident>>,
}

/// A data type declaration with its variants.
#[derive(Debug, PartialEq)]
pub struct Data {
    pub name: SrcNode<Ident>,
    pub generics: Generics,
    pub variants: Vec<(SrcNode<Ident>, SrcNode<Type>)>,
}

/// A type alias.
#[derive(Debug, PartialEq)]
pub struct Alias {
    pub name: SrcNode<Ident>,
    pub generics: Generics,
    pub ty: SrcNode<Type>,
}

/// A definition of a value.
#[derive(Debug, PartialEq)]
pub struct Def {
    pub name: SrcNode<Ident>,
    pub generics: Generics,
    pub ty_hint: SrcNode<Type>,
    pub body: SrcNode<Expr>,
}

/// A top-level item.
#[derive(Debug, PartialEq)]
pub enum Item {
    Def(Def),
    Data(Data),
    Alias(Alias),
}

/// A module: a sequence of items.
#[derive(Debug, PartialEq)]
pub struct Module {
    pub items: Vec<Item>,
}

// ----- The mathematical values of the syntax tree -----

/// A node of the mathematical syntax tree with its span.
pub struct NodeV<A> {
    pub inner: Box<A>,
    pub span: Span,
}

pub open spec fn nodev<A>(inner: A, span: Span) -> NodeV<A> {
    NodeV { inner: Box::new(inner), span }
}

pub enum TypeV {
    Error,
    Unknown,
    List(NodeV<TypeV>),
    Tuple(Seq<NodeV<TypeV>>),
    Record(Seq<(NodeV<Seq<char>>, NodeV<TypeV>)>),
    Func(NodeV<TypeV>, NodeV<TypeV>),
    Data(NodeV<Seq<char>>, Seq<NodeV<TypeV>>),
    Universe,
    Assoc(NodeV<TypeV>, NodeV<Seq<char>>),
    Effect(NodeV<Seq<char>>, Seq<NodeV<TypeV>>, NodeV<TypeV>),
}

pub enum PatV {
    Error,
    Wildcard,
    Literal(LiteralV),
    Single(NodeV<BindingV>),
    Tuple(Seq<NodeV<BindingV>>),
    Record(Seq<(NodeV<Seq<char>>, NodeV<BindingV>)>),
    ListExact(Seq<NodeV<BindingV>>),
    ListFront(Seq<NodeV<BindingV>>, Option<NodeV<BindingV>>),
    Deconstruct(NodeV<Seq<char>>, NodeV<BindingV>),
    Binary(NodeV<BinaryOp>, NodeV<BindingV>, NodeV<LiteralV>),
}

pub struct BindingV {
    pub pat: NodeV<PatV>,
    pub name: Option<NodeV<Seq<char>>>,
    pub ty: Option<NodeV<TypeV>>,
}

pub type BranchV = (NodeV<Seq<NodeV<BindingV>>>, NodeV<ExprV>);

pub enum ExprV {
    Error,
    Literal(LiteralV),
    Local(Seq<char>),
    Tuple(Seq<NodeV<ExprV>>),
    Record(Seq<(NodeV<Seq<char>>, NodeV<ExprV>)>),
    List(Seq<NodeV<ExprV>>, Seq<NodeV<ExprV>>),
    Access(NodeV<ExprV>, NodeV<Seq<char>>),
    Unary(NodeV<UnaryOp>, NodeV<ExprV>),
    Binary(NodeV<BinaryOp>, NodeV<ExprV>, NodeV<ExprV>),
    Let(Seq<(NodeV<BindingV>, NodeV<ExprV>)>, NodeV<ExprV>),
    If(NodeV<ExprV>, NodeV<ExprV>, NodeV<ExprV>),
    Match(NodeV<Seq<NodeV<ExprV>>>, Seq<BranchV>),
    Func(Seq<BranchV>),
    Apply(NodeV<ExprV>, NodeV<ExprV>),
    Cons(NodeV<Seq<char>>, NodeV<ExprV>),
    LangDef(LangDef),
    ClassAccess(NodeV<TypeV>, NodeV<Seq<char>>),
    Intrinsic(NodeV<Seq<char>>, Seq<NodeV<ExprV>>),
    Update(NodeV<ExprV>, Seq<(NodeV<Seq<char>>, NodeV<ExprV>)>),
    Block(Seq<NodeV<ExprV>>, NodeV<ExprV>),
    Handle(NodeV<ExprV>, NodeV<Seq<char>>, Seq<NodeV<TypeV>>, NodeV<BindingV>, NodeV<ExprV>),
}

pub struct GenericsV {
    pub tys: Seq<NodeV<Seq<char>>>,
}

pub struct DefV {
    pub name: NodeV<Seq<char>>,
    pub generics: GenericsV,
    pub ty_hint: NodeV<TypeV>,
    pub body: NodeV<ExprV>,
}

pub struct DataV {
    pub name: NodeV<Seq<char>>,
    pub generics: GenericsV,
    pub variants: Seq<(NodeV<Seq<char>>, NodeV<TypeV>)>,
}

pub struct AliasV {
    pub name: NodeV<Seq<char>>,
    pub generics: GenericsV,
    pub ty: NodeV<TypeV>,
}

pub enum ItemV {
    Def(DefV),
    Data(DataV),
    Alias(AliasV),
}

// ----- Views -----

pub open spec fn name_v(n: SrcNode<Ident>) -> NodeV<Seq<char>> {
    nodev((*n.inner)@, n.span)
}

pub open spec fn op_v<T>(n: SrcNode<T>) -> NodeV<T> {
    nodev(*n.inner, n.span)
}

pub open spec fn type_v(t: Type) -> TypeV
    decreases t,
{
    match t {
        Type::Error => TypeV::Error,
        Type::Unknown => TypeV::Unknown,
        Type::List(item) => TypeV::List(tnode_v(item)),
        Type::Tuple(items) => TypeV::Tuple(
            Seq::new(items@.len(), |i: int| if 0 <= i < items@.len() { tnode_v(items@[i]) } else { nodev(TypeV::Error, Span { start: 0, end: 0 }) }),
        ),
        Type::Record(fields) => TypeV::Record(
            Seq::new(fields@.len(), |i: int| if 0 <= i < fields@.len() {
                (name_v(fields@[i].0), tnode_v(fields@[i].1))
            } else {
                (nodev(Seq::empty(), Span { start: 0, end: 0 }), nodev(TypeV::Error, Span { start: 0, end: 0 }))
            }),
        ),
        Type::Func(i, o) => TypeV::Func(tnode_v(i), tnode_v(o)),
        Type::Data(name, params) => TypeV::Data(
            name_v(name),
            Seq::new(params@.len(), |i: int| if 0 <= i < params@.len() { tnode_v(params@[i]) } else { nodev(TypeV::Error, Span { start: 0, end: 0 }) }),
        ),
        Type::Universe => TypeV::Universe,
        Type::Assoc(inner, assoc) => TypeV::Assoc(tnode_v(inner), name_v(assoc)),
        Type::Effect(name, params, out) => TypeV::Effect(
            name_v(name),
            Seq::new(params@.len(), |i: int| if 0 <= i < params@.len() { tnode_v(params@[i]) } else { nodev(TypeV::Error, Span { start: 0, end: 0 }) }),
            tnode_v(out),
        ),
    }
}

pub open spec fn tnode_v(n: SrcNode<Type>) -> NodeV<TypeV>
    decreases n,
{
    nodev(type_v(*n.inner), n.span)
}

impl View for Type {
    type V = TypeV;

    open spec fn view(&self) -> TypeV {
        type_v(*self)
    }
}

pub open spec fn default_bnode() -> NodeV<BindingV> {
    nodev(
        BindingV { pat: nodev(PatV::Error, Span { start: 0, end: 0 }), name: None, ty: None },
        Span { start: 0, end: 0 },
    )
}

pub open spec fn pat_v(p: Pat) -> PatV
    decreases p,
{
    match p {
        Pat::Error => PatV::Error,
        Pat::Wildcard => PatV::Wildcard,
        Pat::Literal(l) => PatV::Literal(l@),
        Pat::Single(b) => PatV::Single(bnode_v(b)),
        Pat::Tuple(items) => PatV::Tuple(
            Seq::new(items@.len(), |i: int| if 0 <= i < items@.len() { bnode_v(items@[i]) } else { default_bnode() }),
        ),
        Pat::Record(fields) => PatV::Record(
            Seq::new(fields@.len(), |i: int| if 0 <= i < fields@.len() {
                (name_v(fields@[i].0), bnode_v(fields@[i].1))
            } else {
                (nodev(Seq::empty(), Span { start: 0, end: 0 }), default_bnode())
            }),
        ),
        Pat::ListExact(items) => PatV::ListExact(
            Seq::new(items@.len(), |i: int| if 0 <= i < items@.len() { bnode_v(items@[i]) } else { default_bnode() }),
        ),
        Pat::ListFront(items, tail) => PatV::ListFront(
            Seq::new(items@.len(), |i: int| if 0 <= i < items@.len() { bnode_v(items@[i]) } else { default_bnode() }),
            match tail {
                Some(t) => Some(bnode_v(t)),
                None => None,
            },
        ),
        Pat::Deconstruct(name, inner) => PatV::Deconstruct(name_v(name), bnode_v(inner)),
        Pat::Binary(op, lhs, rhs) => PatV::Binary(op_v(op), bnode_v(lhs), nodev((*rhs.inner)@, rhs.span)),
    }
}

pub open spec fn binding_v(b: Binding) -> BindingV
    decreases b,
{
    BindingV {
        pat: nodev(pat_v(*b.pat.inner), b.pat.span),
        name: match b.name {
            Some(n) => Some(name_v(n)),
            None => None,
        },
        ty: match b.ty {
            Some(t) => Some(tnode_v(t)),
            None => None,
        },
    }
}

pub open spec fn bnode_v(n: SrcNode<Binding>) -> NodeV<BindingV>
    decreases n,
{
    nodev(binding_v(*n.inner), n.span)
}

impl View for Pat {
    type V = PatV;

    open spec fn view(&self) -> PatV {
        pat_v(*self)
    }
}

impl View for Binding {
    type V = BindingV;

    open spec fn view(&self) -> BindingV {
        binding_v(*self)
    }
}

pub open spec fn default_enode() -> NodeV<ExprV> {
    nodev(ExprV::Error, Span { start: 0, end: 0 })
}

pub open spec fn bnodes_v(items: Seq<SrcNode<Binding>>) -> Seq<NodeV<BindingV>> {
    Seq::new(items.len(), |i: int| bnode_v(items[i]))
}

pub open spec fn expr_v(e: Expr) -> ExprV
    decreases e,
{
    match e {
        Expr::Error => ExprV::Error,
        Expr::Literal(l) => ExprV::Literal(l@),
        Expr::Local(x) => ExprV::Local(x@),
        Expr::Tuple(items) => ExprV::Tuple(
            Seq::new(items@.len(), |i: int| if 0 <= i < items@.len() { enode_v(items@[i]) } else { default_enode() }),
        ),
        Expr::Record(fields) => ExprV::Record(
            Seq::new(fields@.len(), |i: int| if 0 <= i < fields@.len() {
                (name_v(fields@[i].0), enode_v(fields@[i].1))
            } else {
                (nodev(Seq::empty(), Span { start: 0, end: 0 }), default_enode())
            }),
        ),
        Expr::List(items, tails) => ExprV::List(
            Seq::new(items@.len(), |i: int| if 0 <= i < items@.len() { enode_v(items@[i]) } else { default_enode() }),
            Seq::new(tails@.len(), |i: int| if 0 <= i < tails@.len() { enode_v(tails@[i]) } else { default_enode() }),
        ),
        Expr::Access(r, f) => ExprV::Access(enode_v(r), name_v(f)),
        Expr::Unary(op, a) => ExprV::Unary(op_v(op), enode_v(a)),
        Expr::Binary(op, a, b) => ExprV::Binary(op_v(op), enode_v(a), enode_v(b)),
        Expr::Let(bindings, then) => ExprV::Let(
            Seq::new(bindings@.len(), |i: int| if 0 <= i < bindings@.len() {
                (bnode_v(bindings@[i].0), enode_v(bindings@[i].1))
            } else {
                (default_bnode(), default_enode())
            }),
            enode_v(then),
        ),
        Expr::If(p, a, b) => ExprV::If(enode_v(p), enode_v(a), enode_v(b)),
        Expr::Match(preds, arms) => ExprV::Match(
            nodev(
                Seq::new((*preds.inner)@.len(), |i: int| if 0 <= i < (*preds.inner)@.len() {
                    enode_v((*preds.inner)@[i])
                } else {
                    default_enode()
                }),
                preds.span,
            ),
            Seq::new(arms@.len(), |i: int| if 0 <= i < arms@.len() {
                (nodev(bnodes_v((*arms@[i].0.inner)@), arms@[i].0.span), enode_v(arms@[i].1))
            } else {
                (nodev(Seq::empty(), Span { start: 0, end: 0 }), default_enode())
            }),
        ),
        Expr::Func(arms) => ExprV::Func(
            Seq::new(arms@.len(), |i: int| if 0 <= i < arms@.len() {
                (nodev(bnodes_v((*arms@[i].0.inner)@), arms@[i].0.span), enode_v(arms@[i].1))
            } else {
                (nodev(Seq::empty(), Span { start: 0, end: 0 }), default_enode())
            }),
        ),
        Expr::Apply(f, a) => ExprV::Apply(enode_v(f), enode_v(a)),
        Expr::Cons(name, inner) => ExprV::Cons(name_v(name), enode_v(inner)),
        Expr::LangDef(d) => ExprV::LangDef(d),
        Expr::ClassAccess(t, f) => ExprV::ClassAccess(tnode_v(t), name_v(f)),
        Expr::Intrinsic(name, args) => ExprV::Intrinsic(
            name_v(name),
            Seq::new(args@.len(), |i: int| if 0 <= i < args@.len() { enode_v(args@[i]) } else { default_enode() }),
        ),
        Expr::Update(r, fields) => ExprV::Update(
            enode_v(r),
            Seq::new(fields@.len(), |i: int| if 0 <= i < fields@.len() {
                (name_v(fields@[i].0), enode_v(fields@[i].1))
            } else {
                (nodev(Seq::empty(), Span { start: 0, end: 0 }), default_enode())
            }),
        ),
        Expr::Block(init, last) => ExprV::Block(
            Seq::new(init@.len(), |i: int| if 0 <= i < init@.len() { enode_v(init@[i]) } else { default_enode() }),
            enode_v(last),
        ),
        Expr::Handle { expr, eff_name, eff_args, send, recv } => ExprV::Handle(
            enode_v(expr),
            name_v(eff_name),
            Seq::new(eff_args@.len(), |i: int| if 0 <= i < eff_args@.len() { tnode_v(eff_args@[i]) } else { nodev(TypeV::Error, Span { start: 0, end: 0 }) }),
            bnode_v(send),
            enode_v(recv),
        ),
    }
}

pub open spec fn enode_v(n: SrcNode<Expr>) -> NodeV<ExprV>
    decreases n,
{
    nodev(expr_v(*n.inner), n.span)
}

impl View for Expr {
    type V = ExprV;

    open spec fn view(&self) -> ExprV {
        expr_v(*self)
    }
}

pub open spec fn generics_v(g: Generics) -> GenericsV {
    GenericsV { tys: Seq::new(g.tys@.len(), |i: int| name_v(g.tys@[i])) }
}

impl View for Generics {
    type V = GenericsV;

    open spec fn view(&self) -> GenericsV {
        generics_v(*self)
    }
}

impl View for Def {
    type V = DefV;

    open spec fn view(&self) -> DefV {
        DefV { name: name_v(self.name), generics: generics_v(self.generics), ty_hint: tnode_v(self.ty_hint), body: enode_v(self.body) }
    }
}

impl View for Data {
    type V = DataV;

    open spec fn view(&self) -> DataV {
        DataV {
            name: name_v(self.name),
            generics: generics_v(self.generics),
            variants: Seq::new(self.variants@.len(), |i: int| (name_v(self.variants@[i].0), tnode_v(self.variants@[i].1))),
        }
    }
}

impl View for Alias {
    type V = AliasV;

    open spec fn view(&self) -> AliasV {
        AliasV { name: name_v(self.name), generics: generics_v(self.generics), ty: tnode_v(self.ty) }
    }
}

impl View for Item {
    type V = ItemV;

    open spec fn view(&self) -> ItemV {
        match self {
            Item::Def(d) => ItemV::Def(d@),
            Item::Data(d) => ItemV::Data(d@),
            Item::Alias(a) => ItemV::Alias(a@),
        }
    }
}

impl View for Module {
    type V = Seq<ItemV>;

    open spec fn view(&self) -> Seq<ItemV> {
        Seq::new(self.items@.len(), |i: int| self.items@[i]@)
    }
}

} // verus!

verus! {

impl View for SrcNode<Type> {
    type V = NodeV<TypeV>;

    open spec fn view(&self) -> NodeV<TypeV> {
        tnode_v(*self)
    }
}

impl View for SrcNode<Binding> {
    type V = NodeV<BindingV>;

    open spec fn view(&self) -> NodeV<BindingV> {
        bnode_v(*self)
    }
}

impl View for SrcNode<Expr> {
    type V = NodeV<ExprV>;

    open spec fn view(&self) -> NodeV<ExprV> {
        enode_v(*self)
    }
}

impl View for SrcNode<Ident> {
    type V = NodeV<Seq<char>>;

    open spec fn view(&self) -> NodeV<Seq<char>> {
        name_v(*self)
    }
}

/// The mathematical values of a sequence of type nodes.
pub open spec fn tnodes_v(s: Seq<SrcNode<Type>>) -> Seq<NodeV<TypeV>> {
    Seq::new(s.len(), |i: int| tnode_v(s[i]))
}

/// The mathematical values of a sequence of record fields of types.
pub open spec fn tfields_v(s: Seq<(SrcNode<Ident>, SrcNode<Type>)>) -> Seq<(NodeV<Seq<char>>, NodeV<TypeV>)> {
    Seq::new(s.len(), |i: int| (name_v(s[i].0), tnode_v(s[i].1)))
}

pub proof fn lemma_type_views(t: Type)
    ensures
        t matches Type::Tuple(items) ==> type_v(t) == TypeV::Tuple(tnodes_v(items@)),
        t matches Type::Record(fields) ==> type_v(t) == TypeV::Record(tfields_v(fields@)),
        t matches Type::Data(name, params) ==> type_v(t) == TypeV::Data(name_v(name), tnodes_v(params@)),
{
    match t {
        Type::Tuple(items) => {
            assert(type_v(t)->Tuple_0 =~= tnodes_v(items@));
        },
        Type::Record(fields) => {
            assert(type_v(t)->Record_0 =~= tfields_v(fields@));
        },
        Type::Data(name, params) => {
            assert(type_v(t)->Data_1 =~= tnodes_v(params@));
        },
        _ => {},
    }
}

} // verus!

verus! {

impl View for SrcNode<Pat> {
    type V = NodeV<PatV>;

    open spec fn view(&self) -> NodeV<PatV> {
        nodev(pat_v(*self.inner), self.span)
    }
}

/// The mathematical values of a sequence of pattern fields.
pub open spec fn bfields_v(s: Seq<(SrcNode<Ident>, SrcNode<Binding>)>) -> Seq<(NodeV<Seq<char>>, NodeV<BindingV>)> {
    Seq::new(s.len(), |i: int| (name_v(s[i].0), bnode_v(s[i].1)))
}

pub proof fn lemma_pat_views(p: Pat)
    ensures
        p matches Pat::Tuple(items) ==> pat_v(p) == PatV::Tuple(bnodes_v(items@)),
        p matches Pat::Record(fields) ==> pat_v(p) == PatV::Record(bfields_v(fields@)),
        p matches Pat::ListExact(items) ==> pat_v(p) == PatV::ListExact(bnodes_v(items@)),
        p matches Pat::ListFront(items, tail) ==> pat_v(p) == PatV::ListFront(
            bnodes_v(items@),
            match tail {
                Some(t) => Some(bnode_v(t)),
                None => None,
            },
        ),
{
    match p {
        Pat::Tuple(items) => {
            assert(pat_v(p)->Tuple_0 =~= bnodes_v(items@));
        },
        Pat::Record(fields) => {
            assert(pat_v(p)->Record_0 =~= bfields_v(fields@));
        },
        Pat::ListExact(items) => {
            assert(pat_v(p)->ListExact_0 =~= bnodes_v(items@));
        },
        Pat::ListFront(items, tail) => {
            assert(pat_v(p)->ListFront_0 =~= bnodes_v(items@));
        },
        _ => {},
    }
}

} // verus!

verus! {

pub open spec fn enodes_v(s: Seq<SrcNode<Expr>>) -> Seq<NodeV<ExprV>> {
    Seq::new(s.len(), |i: int| enode_v(s[i]))
}

pub open spec fn efields_v(s: Seq<(SrcNode<Ident>, SrcNode<Expr>)>) -> Seq<(NodeV<Seq<char>>, NodeV<ExprV>)> {
    Seq::new(s.len(), |i: int| (name_v(s[i].0), enode_v(s[i].1)))
}

pub open spec fn lets_v(s: Seq<(SrcNode<Binding>, SrcNode<Expr>)>) -> Seq<(NodeV<BindingV>, NodeV<ExprV>)> {
    Seq::new(s.len(), |i: int| (bnode_v(s[i].0), enode_v(s[i].1)))
}

pub open spec fn branch_v(b: Branch) -> BranchV {
    (nodev(bnodes_v((*b.0.inner)@), b.0.span), enode_v(b.1))
}

pub open spec fn branches_v(s: Seq<Branch>) -> Seq<BranchV> {
    Seq::new(s.len(), |i: int| branch_v(s[i]))
}

pub proof fn lemma_expr_views(e: Expr)
    ensures
        e matches Expr::Tuple(items) ==> expr_v(e) == ExprV::Tuple(enodes_v(items@)),
        e matches Expr::List(items, tails) ==> expr_v(e) == ExprV::List(enodes_v(items@), enodes_v(tails@)),
        e matches Expr::Record(fields) ==> expr_v(e) == ExprV::Record(efields_v(fields@)),
        e matches Expr::Let(bindings, then) ==> expr_v(e) == ExprV::Let(lets_v(bindings@), enode_v(then)),
        e matches Expr::Match(preds, arms) ==> expr_v(e) == ExprV::Match(
            nodev(enodes_v((*preds.inner)@), preds.span),
            branches_v(arms@),
        ),
        e matches Expr::Func(arms) ==> expr_v(e) == ExprV::Func(branches_v(arms@)),
{
    match e {
        Expr::Tuple(items) => {
            assert(expr_v(e)->Tuple_0 =~= enodes_v(items@));
        },
        Expr::List(items, tails) => {
            assert(expr_v(e)->List_0 =~= enodes_v(items@));
            assert(expr_v(e)->List_1 =~= enodes_v(tails@));
        },
        Expr::Record(fields) => {
            assert(expr_v(e)->Record_0 =~= efields_v(fields@));
        },
        Expr::Let(bindings, then) => {
            assert(expr_v(e)->Let_0 =~= lets_v(bindings@));
        },
        Expr::Match(preds, arms) => {
            assert(*expr_v(e)->Match_0.inner =~= enodes_v((*preds.inner)@));
            assert(expr_v(e)->Match_1 =~= branches_v(arms@));
        },
        Expr::Func(arms) => {
            assert(expr_v(e)->Func_0 =~= branches_v(arms@));
        },
        _ => {},
    }
}

} // verus!

verus! {

/// The type holds no erroneous node.
pub open spec fn type_ok(t: TypeV) -> bool
    decreases t,
{
    match t {
        TypeV::Error => false,
        TypeV::Unknown => true,
        TypeV::List(item) => type_ok(*item.inner),
        TypeV::Tuple(items) => forall|i: int| 0 <= i < items.len() ==> type_ok(*(#[trigger] items[i]).inner),
        TypeV::Record(fields) => forall|i: int| 0 <= i < fields.len() ==> type_ok(*(#[trigger] fields[i]).1.inner),
        TypeV::Func(a, b) => type_ok(*a.inner) && type_ok(*b.inner),
        TypeV::Data(_, params) => forall|i: int| 0 <= i < params.len() ==> type_ok(*(#[trigger] params[i]).inner),
        TypeV::Universe => true,
        TypeV::Assoc(inner, _) => type_ok(*inner.inner),
        TypeV::Effect(_, params, out) => (forall|i: int| 0 <= i < params.len() ==> type_ok(*(#[trigger] params[i]).inner))
            && type_ok(*out.inner),
    }
}

} // verus!

verus! {

/// The pattern holds no erroneous node.
pub open spec fn pat_ok(p: PatV) -> bool
    decreases p,
{
    match p {
        PatV::Error => false,
        PatV::Wildcard => true,
        PatV::Literal(_) => true,
        PatV::Single(b) => binding_ok(*b.inner),
        PatV::Tuple(items) => forall|i: int| 0 <= i < items.len() ==> binding_ok(*(#[trigger] items[i]).inner),
        PatV::Record(fields) => forall|i: int| 0 <= i < fields.len() ==> binding_ok(*(#[trigger] fields[i]).1.inner),
        PatV::ListExact(items) => forall|i: int| 0 <= i < items.len() ==> binding_ok(*(#[trigger] items[i]).inner),
        PatV::ListFront(items, tail) => (forall|i: int| 0 <= i < items.len() ==> binding_ok(*(#[trigger] items[i]).inner))
            && match tail {
            Some(t) => binding_ok(*t.inner),
            None => true,
        },
        PatV::Deconstruct(_, b) => binding_ok(*b.inner),
        PatV::Binary(_, b, _) => binding_ok(*b.inner),
    }
}

/// The binding holds no erroneous node.
pub open spec fn binding_ok(b: BindingV) -> bool
    decreases b,
{
    pat_ok(*b.pat.inner) && match b.ty {
        Some(t) => type_ok(*t.inner),
        None => true,
    }
}

/// The branch holds no erroneous node.
pub open spec fn branch_ok(b: BranchV) -> bool
    decreases b,
{
    (forall|j: int| 0 <= j < (*b.0.inner).len() ==> binding_ok(*(#[trigger] (*b.0.inner)[j]).inner)) && expr_ok(*b.1.inner)
}

/// The expression holds no erroneous node.
pub open spec fn expr_ok(e: ExprV) -> bool
    decreases e,
{
    match e {
        ExprV::Error => false,
        ExprV::Literal(_) => true,
        ExprV::Local(_) => true,
        ExprV::Tuple(items) => forall|i: int| 0 <= i < items.len() ==> expr_ok(*(#[trigger] items[i]).inner),
        ExprV::Record(fields) => forall|i: int| 0 <= i < fields.len() ==> expr_ok(*(#[trigger] fields[i]).1.inner),
        ExprV::List(items, tails) => (forall|i: int| 0 <= i < items.len() ==> expr_ok(*(#[trigger] items[i]).inner))
            && (forall|i: int| 0 <= i < tails.len() ==> expr_ok(*(#[trigger] tails[i]).inner)),
        ExprV::Access(r, _) => expr_ok(*r.inner),
        ExprV::Unary(_, a) => expr_ok(*a.inner),
        ExprV::Binary(_, a, b) => expr_ok(*a.inner) && expr_ok(*b.inner),
        ExprV::Let(bs, then) => (forall|i: int| 0 <= i < bs.len() ==> binding_ok(*(#[trigger] bs[i]).0.inner) && expr_ok(*bs[i].1.inner))
            && expr_ok(*then.inner),
        ExprV::If(c, a, b) => expr_ok(*c.inner) && expr_ok(*a.inner) && expr_ok(*b.inner),
        ExprV::Match(preds, arms) => (forall|i: int| 0 <= i < (*preds.inner).len() ==> expr_ok(*(#[trigger] (*preds.inner)[i]).inner))
            && (forall|i: int| 0 <= i < arms.len() ==> branch_ok(#[trigger] arms[i])),
        ExprV::Func(arms) => forall|i: int| 0 <= i < arms.len() ==> branch_ok(#[trigger] arms[i]),
        ExprV::Apply(f, a) => expr_ok(*f.inner) && expr_ok(*a.inner),
        ExprV::Cons(_, inner) => expr_ok(*inner.inner),
        ExprV::LangDef(_) => true,
        ExprV::ClassAccess(t, _) => type_ok(*t.inner),
        ExprV::Intrinsic(_, args) => forall|i: int| 0 <= i < args.len() ==> expr_ok(*(#[trigger] args[i]).inner),
        ExprV::Update(r, fields) => expr_ok(*r.inner) && forall|i: int| 0 <= i < fields.len() ==> expr_ok(*(#[trigger] fields[i]).1.inner),
        ExprV::Block(init, last) => (forall|i: int| 0 <= i < init.len() ==> expr_ok(*(#[trigger] init[i]).inner)) && expr_ok(*last.inner),
        ExprV::Handle(x, _, args, send, recv) => expr_ok(*x.inner) && (forall|i: int| 0 <= i < args.len() ==> type_ok(*(#[trigger] args[i]).inner))
            && binding_ok(*send.inner) && expr_ok(*recv.inner),
    }
}

/// The item holds no erroneous node.
pub open spec fn item_ok(i: ItemV) -> bool {
    match i {
        ItemV::Def(d) => type_ok(*d.ty_hint.inner) && expr_ok(*d.body.inner),
        ItemV::Data(d) => forall|k: int| 0 <= k < d.variants.len() ==> type_ok(*(#[trigger] d.variants[k]).1.inner),
        ItemV::Alias(a) => type_ok(*a.ty.inner),
    }
}

} // verus!
