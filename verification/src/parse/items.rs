use vstd::prelude::*;

use crate::ast::{
    enode_v, lemma_type_views, name_v, nodev, tnode_v, Alias, AliasV, Data, DataV, Def, DefV, Generics,
    GenericsV, Item, ItemV, Module, NodeV, Type, TypeV,
};
use crate::ident::Ident;
use crate::parse::exprs::{expr_parser, s_expr};
use crate::parse::types::{s_ty, s_ty_hint, ty_hint_parser, type_parser};
use crate::parse::{
    alt, append_errs, err_at, err_here, is, is_clean, is_tok, pick, progress, res_v, span_between, span_of,
    Error, PResult, SRes,
};
use crate::span::SrcNode;
use crate::token::{Op, Spanned, Token};

verus! {

// ----- The grammar of items -----

/// Names of types separated by commas (possibly none, possibly with a trailing comma).
pub open spec fn s_generics(toks: Seq<Spanned>, p: int) -> (Seq<NodeV<Seq<char>>>, int) {
    if 0 <= p < toks.len() && toks[p].token is TypeIdent {
        s_generics_rest(toks, seq![nodev(toks[p].token->TypeIdent_0@, toks[p].span)], p + 1)
    } else {
        (Seq::empty(), p)
    }
}

pub open spec fn s_generics_rest(toks: Seq<Spanned>, acc: Seq<NodeV<Seq<char>>>, p: int) -> (Seq<NodeV<Seq<char>>>, int)
    decreases toks.len() - p,
{
    if 0 <= p && is(toks, p, Token::Comma) {
        if p + 1 < toks.len() && toks[p + 1].token is TypeIdent {
            s_generics_rest(toks, acc.push(nodev(toks[p + 1].token->TypeIdent_0@, toks[p + 1].span)), p + 2)
        } else {
            (acc, p + 1)
        }
    } else {
        (acc, p)
    }
}

/// `Name type?`, a variant of a data type; without a type it holds the empty tuple.
pub open spec fn s_variant(toks: Seq<Spanned>, p: int) -> SRes<(NodeV<Seq<char>>, NodeV<TypeV>)> {
    if 0 <= p < toks.len() && toks[p].token is TypeIdent {
        let name = nodev(toks[p].token->TypeIdent_0@, toks[p].span);
        match s_ty(toks, p + 1) {
            Ok((t, q, es)) => Ok(((name, nodev(t, span_of(toks, p + 1, q))), q, es)),
            Err(_) => Ok(((name, nodev(TypeV::Tuple(Seq::empty()), toks[p].span)), p + 1, Seq::empty())),
        }
    } else {
        Err(err_at(toks, p))
    }
}

/// Variants separated by `|`, with an optional leading `|` (possibly none).
pub open spec fn s_variants(toks: Seq<Spanned>, p: int) -> (Seq<(NodeV<Seq<char>>, NodeV<TypeV>)>, int, Seq<Error>) {
    if p < 0 || p > toks.len() {
        (Seq::empty(), p, Seq::empty())
    } else {
        let p0 = if is(toks, p, Token::Pipe) {
            p + 1
        } else {
            p
        };
        match s_variant(toks, p0) {
            Ok((v, p1, e1)) => if p0 < p1 <= toks.len() {
                s_variants_rest(toks, seq![v], p1, e1)
            } else {
                (Seq::empty(), p0, Seq::empty())
            },
            Err(_) => (Seq::empty(), p0, Seq::empty()),
        }
    }
}

pub open spec fn s_variants_rest(
    toks: Seq<Spanned>,
    acc: Seq<(NodeV<Seq<char>>, NodeV<TypeV>)>,
    p: int,
    errs: Seq<Error>,
) -> (Seq<(NodeV<Seq<char>>, NodeV<TypeV>)>, int, Seq<Error>)
    decreases toks.len() - p,
{
    if 0 <= p && is(toks, p, Token::Pipe) {
        match s_variant(toks, p + 1) {
            Ok((v, p2, e2)) => if p + 1 < p2 <= toks.len() {
                s_variants_rest(toks, acc.push(v), p2, errs + e2)
            } else {
                (acc, p, errs)
            },
            Err(_) => (acc, p, errs),
        }
    } else {
        (acc, p, errs)
    }
}

/// `data Name generics = type` (a data type with one variant, named after it),
/// or `data Name generics = variants`; the first form wherever a type follows.
pub open spec fn s_data_item(toks: Seq<Spanned>, pos: int) -> SRes<DataV> {
    if 0 <= pos && is(toks, pos, Token::Data) {
        if pos + 1 < toks.len() && toks[pos + 1].token is TypeIdent {
            let name = nodev(toks[pos + 1].token->TypeIdent_0@, toks[pos + 1].span);
            let (gens, p2) = s_generics(toks, pos + 2);
            if pos < p2 && is(toks, p2, Token::Op(Op::Eq)) {
                let single = match s_ty(toks, p2 + 1) {
                    Ok((t, q, es)) => Ok((seq![(name, nodev(t, span_of(toks, p2 + 1, q)))], q, es)),
                    Err(e) => Err(e),
                };
                let (vs, q, es) = s_variants(toks, p2 + 1);
                match alt(single, Ok((vs, q, es))) {
                    Ok((variants, q, es)) => Ok((DataV { name, generics: GenericsV { tys: gens }, variants }, q, es)),
                    Err(e) => Err(e),
                }
            } else {
                Err(err_at(toks, p2))
            }
        } else {
            Err(err_at(toks, pos + 1))
        }
    } else {
        Err(err_at(toks, pos))
    }
}

/// `type Name generics = type`
pub open spec fn s_alias(toks: Seq<Spanned>, pos: int) -> SRes<AliasV> {
    if 0 <= pos && is(toks, pos, Token::Type) {
        if pos + 1 < toks.len() && toks[pos + 1].token is TypeIdent {
            let name = nodev(toks[pos + 1].token->TypeIdent_0@, toks[pos + 1].span);
            let (gens, p2) = s_generics(toks, pos + 2);
            if pos < p2 && is(toks, p2, Token::Op(Op::Eq)) {
                match s_ty(toks, p2 + 1) {
                    Ok((t, q, es)) => Ok((
                        AliasV { name, generics: GenericsV { tys: gens }, ty: nodev(t, span_of(toks, p2 + 1, q)) },
                        q,
                        es,
                    )),
                    Err(e) => Err(e),
                }
            } else {
                Err(err_at(toks, p2))
            }
        } else {
            Err(err_at(toks, pos + 1))
        }
    } else {
        Err(err_at(toks, pos))
    }
}

/// `def name generics (: type)? = expr`; without a type hint the type is left to inference.
pub open spec fn s_def(toks: Seq<Spanned>, pos: int) -> SRes<DefV> {
    if 0 <= pos && is(toks, pos, Token::Def) {
        if pos + 1 < toks.len() && toks[pos + 1].token is TermIdent {
            let name = nodev(toks[pos + 1].token->TermIdent_0@, toks[pos + 1].span);
            let (gens, p2) = s_generics(toks, pos + 2);
            let (hint, p3, e3) = s_ty_hint(toks, p2);
            if pos < p3 && is(toks, p3, Token::Op(Op::Eq)) {
                match s_expr(toks, p3 + 1) {
                    Ok((body, q, es)) => Ok((
                        DefV {
                            name,
                            generics: GenericsV { tys: gens },
                            ty_hint: match hint {
                                Some(h) => h,
                                None => nodev(TypeV::Unknown, name.span),
                            },
                            body: nodev(body, span_of(toks, p3 + 1, q)),
                        },
                        q,
                        e3 + es,
                    )),
                    Err(e) => Err(e),
                }
            } else {
                Err(err_at(toks, p3))
            }
        } else {
            Err(err_at(toks, pos + 1))
        }
    } else {
        Err(err_at(toks, pos))
    }
}

/// A definition, a data type or an alias; the first that applies.
pub open spec fn s_item(toks: Seq<Spanned>, pos: int) -> SRes<ItemV> {
    let d = match s_def(toks, pos) {
        Ok((x, q, es)) => Ok((ItemV::Def(x), q, es)),
        Err(e) => Err(e),
    };
    let t = match s_data_item(toks, pos) {
        Ok((x, q, es)) => Ok((ItemV::Data(x), q, es)),
        Err(e) => Err(e),
    };
    let a = match s_alias(toks, pos) {
        Ok((x, q, es)) => Ok((ItemV::Alias(x), q, es)),
        Err(e) => Err(e),
    };
    alt(alt(d, t), a)
}

/// The items that follow at `p`, appended to `acc`.
pub open spec fn s_items(toks: Seq<Spanned>, p: int, acc: Seq<ItemV>, errs: Seq<Error>) -> (Seq<ItemV>, int, Seq<Error>)
    decreases toks.len() - p,
{
    if p < 0 || p > toks.len() {
        (acc, p, errs)
    } else {
        match s_item(toks, p) {
            Ok((it, q, es)) => if p < q <= toks.len() {
                s_items(toks, q, acc.push(it), errs + es)
            } else {
                (acc, p, errs)
            },
            Err(_) => (acc, p, errs),
        }
    }
}

/// A module: items up to the end of the input.
pub open spec fn s_module(toks: Seq<Spanned>, pos: int) -> SRes<Seq<ItemV>> {
    let (items, q, es) = s_items(toks, pos, Seq::empty(), Seq::empty());
    if q == toks.len() {
        Ok((items, q, es))
    } else {
        Err(err_at(toks, q))
    }
}

/// The outcome of parsing a whole module: the module where it parsed with no
/// error at all; otherwise the errors (those recovered from, or the one that
/// stopped the parse).
pub open spec fn s_parse_module(toks: Seq<Spanned>) -> Result<Seq<ItemV>, Seq<Error>> {
    match s_module(toks, 0) {
        Ok((items, _, es)) => if es.len() == 0 {
            Ok(items)
        } else {
            Err(es)
        },
        Err(e) => Err(seq![e]),
    }
}

// ----- The parsers -----

fn generics_rest(toks: &Vec<Spanned>, acc: Vec<SrcNode<Ident>>, p: usize) -> (r: (Vec<SrcNode<Ident>>, usize))
    requires
        p <= toks@.len(),
    ensures
        s_generics_rest(toks@, Seq::new(acc@.len(), |i: int| name_v(acc@[i])), p as int) == (
            Seq::new(r.0@.len(), |i: int| name_v(r.0@[i])),
            r.1 as int,
        ),
        p <= r.1 <= toks@.len(),
    decreases toks@.len() - p,
{
    if is_tok(toks, p, &Token::Comma) {
        if p + 1 < toks.len() {
            match &toks[p + 1].token {
                Token::TypeIdent(x) => {
                    let mut acc = acc;
                    let ghost old_acc = acc@;
                    acc.push(SrcNode::new(x.clone(), toks[p + 1].span));
                    proof {
                        assert(Seq::new(acc@.len(), |i: int| name_v(acc@[i])) =~= Seq::new(
                            old_acc.len(),
                            |i: int| name_v(old_acc[i]),
                        ).push(nodev(toks@[p + 1].token->TypeIdent_0@, toks@[p + 1].span)));
                    }
                    return generics_rest(toks, acc, p + 2);
                },
                _ => {},
            }
        }
        (acc, p + 1)
    } else {
        (acc, p)
    }
}

/// Reads the names of generic type parameters, separated by commas.
pub fn generics_parser(toks: &Vec<Spanned>, pos: usize) -> (r: (Generics, usize))
    requires
        pos <= toks@.len(),
    ensures
        s_generics(toks@, pos as int) == (r.0@.tys, r.1 as int),
        pos <= r.1 <= toks@.len(),
{
    if pos < toks.len() {
        match &toks[pos].token {
            Token::TypeIdent(x) => {
                let mut acc: Vec<SrcNode<Ident>> = Vec::new();
                acc.push(SrcNode::new(x.clone(), toks[pos].span));
                proof {
                    assert(Seq::new(acc@.len(), |i: int| name_v(acc@[i])) =~= seq![
                        nodev(toks@[pos as int].token->TypeIdent_0@, toks@[pos as int].span),
                    ]);
                }
                let (tys, q) = generics_rest(toks, acc, pos + 1);
                return (Generics { tys }, q);
            },
            _ => {},
        }
    }
    let g = Generics { tys: Vec::new() };
    assert(g@.tys =~= Seq::empty());
    (g, pos)
}

fn variant(toks: &Vec<Spanned>, p: usize) -> (r: PResult<(SrcNode<Ident>, SrcNode<Type>)>)
    requires
        p <= toks@.len(),
    ensures
        match (r, s_variant(toks@, p as int)) {
            (Ok((v, q, es)), Ok((sv, sq, ses))) => (name_v(v.0), tnode_v(v.1)) == sv && q == sq && es@ == ses,
            (Err(e), Err(se)) => e == se,
            _ => false,
        },
        r matches Ok((_, q, _)) ==> p < q <= toks@.len(),
{
    if p < toks.len() {
        match &toks[p].token {
            Token::TypeIdent(x) => {
                let name = SrcNode::new(x.clone(), toks[p].span);
                match type_parser(toks, p + 1) {
                    Ok((t, q, es)) => {
                        let span = span_between(toks, p + 1, q);
                        Ok(((name, SrcNode::new(t, span)), q, es))
                    },
                    Err(_) => {
                        let unit = Type::Tuple(Vec::new());
                        proof {
                            lemma_type_views(unit);
                            assert(crate::ast::tnodes_v(Seq::<SrcNode<Type>>::empty()) =~= Seq::empty());
                        }
                        Ok(((name, SrcNode::new(unit, toks[p].span)), p + 1, Vec::new()))
                    },
                }
            },
            _ => Err(err_here(toks, p)),
        }
    } else {
        Err(err_here(toks, p))
    }
}

/// The mathematical values of the variants of a data type.
pub open spec fn variants_v(s: Seq<(SrcNode<Ident>, SrcNode<Type>)>) -> Seq<(NodeV<Seq<char>>, NodeV<TypeV>)> {
    Seq::new(s.len(), |i: int| (name_v(s[i].0), tnode_v(s[i].1)))
}

fn variants_rest(toks: &Vec<Spanned>, acc: Vec<(SrcNode<Ident>, SrcNode<Type>)>, p: usize, errs: Vec<Error>) -> (r: (
    Vec<(SrcNode<Ident>, SrcNode<Type>)>,
    usize,
    Vec<Error>,
))
    requires
        p <= toks@.len(),
    ensures
        s_variants_rest(toks@, variants_v(acc@), p as int, errs@) == (variants_v(r.0@), r.1 as int, r.2@),
        p <= r.1 <= toks@.len(),
    decreases toks@.len() - p,
{
    if is_tok(toks, p, &Token::Pipe) {
        match variant(toks, p + 1) {
            Ok((v, p2, e2)) => {
                let mut acc = acc;
                let ghost old_acc = acc@;
                acc.push(v);
                proof {
                    assert(variants_v(acc@) =~= variants_v(old_acc).push((name_v(acc@.last().0), tnode_v(acc@.last().1))));
                }
                variants_rest(toks, acc, p2, append_errs(errs, e2))
            },
            Err(_) => (acc, p, errs),
        }
    } else {
        (acc, p, errs)
    }
}

fn variants(toks: &Vec<Spanned>, p: usize) -> (r: (Vec<(SrcNode<Ident>, SrcNode<Type>)>, usize, Vec<Error>))
    requires
        p <= toks@.len(),
    ensures
        s_variants(toks@, p as int) == (variants_v(r.0@), r.1 as int, r.2@),
        p <= r.1 <= toks@.len(),
{
    let p0 = if is_tok(toks, p, &Token::Pipe) {
        p + 1
    } else {
        p
    };
    match variant(toks, p0) {
        Ok((v, p1, e1)) => {
            let mut acc: Vec<(SrcNode<Ident>, SrcNode<Type>)> = Vec::new();
            acc.push(v);
            proof {
                assert(variants_v(acc@) =~= seq![(name_v(acc@[0].0), tnode_v(acc@[0].1))]);
            }
            variants_rest(toks, acc, p1, e1)
        },
        Err(_) => {
            proof {
                assert(variants_v(Seq::<(SrcNode<Ident>, SrcNode<Type>)>::empty()) =~= Seq::empty());
            }
            (Vec::new(), p0, Vec::new())
        },
    }
}

/// A list of variants, whose mathematical value is that of each variant.
pub struct Variants(pub Vec<(SrcNode<Ident>, SrcNode<Type>)>);

impl View for Variants {
    type V = Seq<(NodeV<Seq<char>>, NodeV<TypeV>)>;

    open spec fn view(&self) -> Seq<(NodeV<Seq<char>>, NodeV<TypeV>)> {
        variants_v(self.0@)
    }
}

/// Reads a data type declaration.
pub fn data_parser(toks: &Vec<Spanned>, pos: usize) -> (r: PResult<Data>)
    requires
        pos <= toks@.len(),
    ensures
        res_v(r) == s_data_item(toks@, pos as int),
        progress(res_v(r), pos as int, toks@.len() as int),
{
    if !is_tok(toks, pos, &Token::Data) {
        return Err(err_here(toks, pos));
    }
    let x = if pos + 1 < toks.len() {
        match &toks[pos + 1].token {
            Token::TypeIdent(x) => x,
            _ => {
                return Err(err_here(toks, pos + 1));
            },
        }
    } else {
        return Err(err_here(toks, pos + 1));
    };
    let (generics, p2) = generics_parser(toks, pos + 2);
    if !is_tok(toks, p2, &Token::Op(Op::Eq)) {
        return Err(err_here(toks, p2));
    }
    let single: PResult<Variants> = match type_parser(toks, p2 + 1) {
        Ok((t, q, es)) => {
            let span = span_between(toks, p2 + 1, q);
            let mut vs: Vec<(SrcNode<Ident>, SrcNode<Type>)> = Vec::new();
            vs.push((SrcNode::new(x.clone(), toks[pos + 1].span), SrcNode::new(t, span)));
            proof {
                assert(variants_v(vs@) =~= seq![(name_v(vs@[0].0), tnode_v(vs@[0].1))]);
            }
            Ok((Variants(vs), q, es))
        },
        Err(e) => Err(e),
    };
    let chosen = if is_clean(&single) {
        single
    } else {
        let (vs, q, es) = variants(toks, p2 + 1);
        pick(single, Ok((Variants(vs), q, es)))
    };
    match chosen {
        Ok((vs, q, es)) => {
            let name = SrcNode::new(x.clone(), toks[pos + 1].span);
            let d = Data { name, generics, variants: vs.0 };
            proof {
                assert(d@.variants =~= vs@);
            }
            Ok((d, q, es))
        },
        Err(e) => Err(e),
    }
}

/// Reads a type alias.
pub fn alias_parser(toks: &Vec<Spanned>, pos: usize) -> (r: PResult<Alias>)
    requires
        pos <= toks@.len(),
    ensures
        res_v(r) == s_alias(toks@, pos as int),
        progress(res_v(r), pos as int, toks@.len() as int),
{
    if !is_tok(toks, pos, &Token::Type) {
        return Err(err_here(toks, pos));
    }
    let x = if pos + 1 < toks.len() {
        match &toks[pos + 1].token {
            Token::TypeIdent(x) => x,
            _ => {
                return Err(err_here(toks, pos + 1));
            },
        }
    } else {
        return Err(err_here(toks, pos + 1));
    };
    let (generics, p2) = generics_parser(toks, pos + 2);
    if !is_tok(toks, p2, &Token::Op(Op::Eq)) {
        return Err(err_here(toks, p2));
    }
    match type_parser(toks, p2 + 1) {
        Ok((t, q, es)) => {
            let span = span_between(toks, p2 + 1, q);
            let name = SrcNode::new(x.clone(), toks[pos + 1].span);
            Ok((Alias { name, generics, ty: SrcNode::new(t, span) }, q, es))
        },
        Err(e) => Err(e),
    }
}

/// Reads a definition.
pub fn def_parser(toks: &Vec<Spanned>, pos: usize) -> (r: PResult<Def>)
    requires
        pos <= toks@.len(),
    ensures
        res_v(r) == s_def(toks@, pos as int),
        progress(res_v(r), pos as int, toks@.len() as int),
{
    if !is_tok(toks, pos, &Token::Def) {
        return Err(err_here(toks, pos));
    }
    let x = if pos + 1 < toks.len() {
        match &toks[pos + 1].token {
            Token::TermIdent(x) => x,
            _ => {
                return Err(err_here(toks, pos + 1));
            },
        }
    } else {
        return Err(err_here(toks, pos + 1));
    };
    let (generics, p2) = generics_parser(toks, pos + 2);
    let (hint, p3, e3) = ty_hint_parser(toks, p2);
    if !is_tok(toks, p3, &Token::Op(Op::Eq)) {
        return Err(err_here(toks, p3));
    }
    match expr_parser(toks, p3 + 1) {
        Ok((body, q, es)) => {
            let span = span_between(toks, p3 + 1, q);
            let name_span = toks[pos + 1].span;
            let ty_hint = match hint {
                Some(h) => h,
                None => SrcNode::new(Type::Unknown, name_span),
            };
            let name = SrcNode::new(x.clone(), name_span);
            Ok((Def { name, generics, ty_hint, body: SrcNode::new(body, span) }, q, append_errs(e3, es)))
        },
        Err(e) => Err(e),
    }
}

/// Reads an item: a definition, a data type or an alias.
pub fn item_parser(toks: &Vec<Spanned>, pos: usize) -> (r: PResult<Item>)
    requires
        pos <= toks@.len(),
    ensures
        res_v(r) == s_item(toks@, pos as int),
        progress(res_v(r), pos as int, toks@.len() as int),
{
    let d: PResult<Item> = match def_parser(toks, pos) {
        Ok((x, q, es)) => Ok((Item::Def(x), q, es)),
        Err(e) => Err(e),
    };
    if is_clean(&d) {
        return d;
    }
    let t: PResult<Item> = match data_parser(toks, pos) {
        Ok((x, q, es)) => Ok((Item::Data(x), q, es)),
        Err(e) => Err(e),
    };
    let r = pick(d, t);
    if is_clean(&r) {
        return r;
    }
    let a: PResult<Item> = match alias_parser(toks, pos) {
        Ok((x, q, es)) => Ok((Item::Alias(x), q, es)),
        Err(e) => Err(e),
    };
    pick(r, a)
}

fn items_rest(toks: &Vec<Spanned>, p: usize, acc: Vec<Item>, errs: Vec<Error>) -> (r: (Vec<Item>, usize, Vec<Error>))
    requires
        p <= toks@.len(),
    ensures
        s_items(toks@, p as int, acc@.map_values(|i: Item| i@), errs@) == (r.0@.map_values(|i: Item| i@), r.1 as int, r.2@),
        p <= r.1 <= toks@.len(),
    decreases toks@.len() - p,
{
    match item_parser(toks, p) {
        Ok((it, q, es)) => {
            let mut acc = acc;
            let ghost old_acc = acc@;
            acc.push(it);
            proof {
                assert(acc@.map_values(|i: Item| i@) =~= old_acc.map_values(|i: Item| i@).push(acc@.last()@));
            }
            items_rest(toks, q, acc, append_errs(errs, es))
        },
        Err(_) => (acc, p, errs),
    }
}

/// Reads a module: items up to the end of the input.
pub fn module_parser(toks: &Vec<Spanned>, pos: usize) -> (r: PResult<Module>)
    requires
        pos <= toks@.len(),
    ensures
        res_v(r) == s_module(toks@, pos as int),
{
    proof {
        assert(Seq::<Item>::empty().map_values(|i: Item| i@) =~= Seq::empty());
    }
    let (items, q, es) = items_rest(toks, pos, Vec::new(), Vec::new());
    if q == toks.len() {
        let m = Module { items };
        assert(m@ =~= m.items@.map_values(|i: Item| i@));
        Ok((m, q, es))
    } else {
        Err(err_here(toks, q))
    }
}

/// Parses a whole module: the module where the input parsed with no error at
/// all; otherwise the errors, those recovered from or the one that stopped it.
pub fn parse_module(toks: &Vec<Spanned>) -> (r: Result<Module, Vec<Error>>)
    ensures
        match r {
            Ok(m) => s_parse_module(toks@) == Ok::<Seq<ItemV>, Seq<Error>>(m@),
            Err(es) => s_parse_module(toks@) == Err::<Seq<ItemV>, Seq<Error>>(es@),
        },
{
    match module_parser(toks, 0) {
        Ok((m, _, es)) => if es.len() == 0 {
            Ok(m)
        } else {
            Err(es)
        },
        Err(e) => {
            let mut es: Vec<Error> = Vec::new();
            es.push(e);
            assert(es@ =~= seq![e]);
            Err(es)
        },
    }
}

} // verus!
