use vstd::prelude::*;

use crate::ast::{
    bnode_v, bnodes_v, branch_v, branches_v, efields_v, enode_v, enodes_v, lemma_expr_views, lets_v, name_v,
    nodev, BinaryOp, Binding, BindingV, Branch, BranchV, Expr, ExprV, NodeV, UnaryOp,
};
use crate::ident::Ident;
use crate::parse::bindings::{binding_parser, bindings_sep, bres_v, s_binding, s_bindings};
use crate::parse::{
    alt, append_errs, err_at, err_here, is, is_clean, is_tok, literal_parser, nested_parser, pick,
    progress, res_v, s_literal, s_nested, span_between, span_of, Error, PResult, SRes,
};
use crate::span::{spec_union, Span, SrcNode};
use crate::token::{Delimiter, Op, Spanned, Token};

verus! {

// ----- The grammar of expressions -----

/// An expression: operands joined by infix operators, which group to the left
/// and bind, from loosest to tightest: `and or xor`; comparisons; `++`;
/// `+ -`; `* / %`.
pub open spec fn s_expr(toks: Seq<Spanned>, pos: int) -> SRes<ExprV>
    decreases toks.len() - pos, 30nat,
{
    match s_bin(toks, pos, 4) {
        Ok((n, q, es)) => Ok((*n.inner, q, es)),
        Err(e) => Err(e),
    }
}

/// The infix operator of precedence level `k` (0 binds tightest) at `p`, if there is one.
pub open spec fn op_at(toks: Seq<Spanned>, p: int, k: nat) -> Option<BinaryOp> {
    if 0 <= p < toks.len() {
        match toks[p].token {
            Token::Op(op) => if k == 0 {
                match op {
                    Op::Mul => Some(BinaryOp::Mul),
                    Op::Div => Some(BinaryOp::Div),
                    Op::Rem => Some(BinaryOp::Rem),
                    _ => None,
                }
            } else if k == 1 {
                match op {
                    Op::Add => Some(BinaryOp::Add),
                    Op::Sub => Some(BinaryOp::Sub),
                    _ => None,
                }
            } else if k == 2 {
                match op {
                    Op::Join => Some(BinaryOp::Join),
                    _ => None,
                }
            } else if k == 3 {
                match op {
                    Op::Less => Some(BinaryOp::Less),
                    Op::LessEq => Some(BinaryOp::LessEq),
                    Op::More => Some(BinaryOp::More),
                    Op::MoreEq => Some(BinaryOp::MoreEq),
                    Op::Eq => Some(BinaryOp::Eq),
                    Op::NotEq => Some(BinaryOp::NotEq),
                    _ => None,
                }
            } else if k == 4 {
                match op {
                    Op::And => Some(BinaryOp::And),
                    Op::Or => Some(BinaryOp::Or),
                    Op::Xor => Some(BinaryOp::Xor),
                    _ => None,
                }
            } else {
                None
            },
            _ => None,
        }
    } else {
        None
    }
}

/// An operand of the operators of level `k`: an expression of the level below,
/// or a prefix expression for the tightest level.
pub open spec fn s_operand(toks: Seq<Spanned>, pos: int, k: nat) -> SRes<NodeV<ExprV>>
    decreases toks.len() - pos, 11 + 2 * k,
{
    if k == 0 {
        s_unary(toks, pos)
    } else {
        s_bin(toks, pos, (k - 1) as nat)
    }
}

/// Operands of level `k` joined by its operators, grouped to the left.
pub open spec fn s_bin(toks: Seq<Spanned>, pos: int, k: nat) -> SRes<NodeV<ExprV>>
    decreases toks.len() - pos, 12 + 2 * k,
{
    if pos < 0 || pos > toks.len() || k > 4 {
        Err(err_at(toks, pos))
    } else {
        match s_operand(toks, pos, k) {
            Ok((a, p1, e1)) => if pos < p1 <= toks.len() {
                s_bin_rest(toks, a, p1, e1, k)
            } else {
                Err(err_at(toks, pos))
            },
            Err(e) => Err(e),
        }
    }
}

pub open spec fn s_bin_rest(toks: Seq<Spanned>, acc: NodeV<ExprV>, p: int, errs: Seq<Error>, k: nat) -> SRes<NodeV<ExprV>>
    decreases toks.len() - p, 13 + 2 * k,
{
    match op_at(toks, p, k) {
        Some(op) => match s_operand(toks, p + 1, k) {
            Ok((b, p2, e2)) => if p + 1 < p2 <= toks.len() {
                let node = nodev(ExprV::Binary(nodev(op, toks[p].span), acc, b), spec_union(acc.span, b.span));
                s_bin_rest(toks, node, p2, errs + e2, k)
            } else {
                Err(err_at(toks, p))
            },
            Err(_) => Ok((acc, p, errs)),
        },
        None => Ok((acc, p, errs)),
    }
}

/// The prefix operator at `p`, if there is one.
pub open spec fn prefix_at(toks: Seq<Spanned>, p: int) -> Option<UnaryOp> {
    if 0 <= p && is(toks, p, Token::Op(Op::Sub)) {
        Some(UnaryOp::Neg)
    } else if 0 <= p && is(toks, p, Token::Op(Op::Not)) {
        Some(UnaryOp::Not)
    } else {
        None
    }
}

/// Any number of prefix operators `-` and `!`, then a chained expression.
pub open spec fn s_unary(toks: Seq<Spanned>, pos: int) -> SRes<NodeV<ExprV>>
    decreases toks.len() - pos, 10nat,
{
    match prefix_at(toks, pos) {
        Some(op) => match s_unary(toks, pos + 1) {
            Ok((e, q, es)) => Ok((
                nodev(ExprV::Unary(nodev(op, toks[pos].span), e), spec_union(toks[pos].span, e.span)),
                q,
                es,
            )),
            Err(e) => Err(e),
        },
        None => s_chained(toks, pos),
    }
}

/// What may follow an expression to extend it.
pub enum ChainV {
    /// `.field`
    Field(NodeV<Seq<char>>),
    /// `: f`, applying `f` to the expression
    Infix(NodeV<ExprV>),
    /// `(args)`, with the span of the arguments (`None` where they were recovered from)
    Apply(Option<Seq<NodeV<ExprV>>>, Span),
}

/// `f` applied to the arguments `args[i..]` in turn. The last application
/// spans `outer`; the others span the function and the argument.
pub open spec fn s_fold_args(f: NodeV<ExprV>, args: Seq<NodeV<ExprV>>, i: int, outer: Span) -> NodeV<ExprV>
    decreases args.len() - i,
{
    if i < 0 || i >= args.len() {
        f
    } else {
        let span = if i == args.len() - 1 {
            outer
        } else {
            spec_union(f.span, args[i].span)
        };
        s_fold_args(nodev(ExprV::Apply(f, args[i]), span), args, i + 1, outer)
    }
}

/// The expression `acc` extended by `c`.
pub open spec fn apply_chain(acc: NodeV<ExprV>, c: ChainV) -> NodeV<ExprV> {
    match c {
        ChainV::Field(f) => nodev(ExprV::Access(acc, f), spec_union(acc.span, f.span)),
        ChainV::Infix(f) => nodev(ExprV::Apply(f, acc), spec_union(acc.span, f.span)),
        ChainV::Apply(None, _) => nodev(ExprV::Error, acc.span),
        ChainV::Apply(Some(args), outer) => s_fold_args(acc, args, 0, outer),
    }
}

/// A direct expression followed by any number of field accesses, infix
/// applications and argument lists.
pub open spec fn s_chained(toks: Seq<Spanned>, pos: int) -> SRes<NodeV<ExprV>>
    decreases toks.len() - pos, 8nat,
{
    match s_direct(toks, pos) {
        Ok((d, p1, e1)) => if pos < p1 <= toks.len() {
            s_chain_rest(toks, d, p1, e1)
        } else {
            Err(err_at(toks, pos))
        },
        Err(e) => Err(e),
    }
}

/// `.field`, `: direct` or `(args)` at `p`; the first that applies.
pub open spec fn s_chain(toks: Seq<Spanned>, p: int) -> SRes<ChainV>
    decreases toks.len() - p, 7nat,
{
    if p < 0 || p > toks.len() {
        Err(err_at(toks, p))
    } else {
        let field = if is(toks, p, Token::Op(Op::Dot)) {
            if p + 1 < toks.len() && toks[p + 1].token is TermIdent {
                Ok((ChainV::Field(nodev(toks[p + 1].token->TermIdent_0@, toks[p + 1].span)), p + 2, Seq::empty()))
            } else {
                Err(err_at(toks, p + 1))
            }
        } else {
            Err(err_at(toks, p))
        };
        let infix = if is(toks, p, Token::Colon) {
            match s_direct(toks, p + 1) {
                Ok((f, q, es)) => Ok((ChainV::Infix(f), q, es)),
                Err(e) => Err(e),
            }
        } else {
            Err(err_at(toks, p))
        };
        let apply = match s_paren_list(toks, p) {
            Ok((args, q, es)) => Ok((ChainV::Apply(args, span_of(toks, p, q)), q, es)),
            Err(e) => Err(e),
        };
        alt(alt(field, infix), apply)
    }
}

pub open spec fn s_chain_rest(toks: Seq<Spanned>, acc: NodeV<ExprV>, p: int, errs: Seq<Error>) -> SRes<NodeV<ExprV>>
    decreases toks.len() - p, 9nat,
{
    match s_chain(toks, p) {
        Ok((c, q, es)) => if p < q <= toks.len() {
            s_chain_rest(toks, apply_chain(acc, c), q, errs + es)
        } else {
            Err(err_at(toks, p))
        },
        Err(_) => Ok((acc, p, errs)),
    }
}

/// An atom, applied directly to an argument list that follows it.
pub open spec fn s_direct(toks: Seq<Spanned>, pos: int) -> SRes<NodeV<ExprV>>
    decreases toks.len() - pos, 6nat,
{
    match s_atom(toks, pos) {
        Ok((a, p1, e1)) => if pos < p1 <= toks.len() {
            match s_paren_list(toks, p1) {
                Ok((Some(args), q, es)) => Ok((s_fold_args(a, args, 0, span_of(toks, pos, q)), q, e1 + es)),
                Ok((None, q, es)) => Ok((nodev(ExprV::Error, span_of(toks, pos, q)), q, e1 + es)),
                Err(_) => Ok((a, p1, e1)),
            }
        } else {
            Err(err_at(toks, pos))
        },
        Err(e) => Err(e),
    }
}

/// `( expr, ... )`; `None` where the contents were recovered from.
pub open spec fn s_paren_list(toks: Seq<Spanned>, pos: int) -> SRes<Option<Seq<NodeV<ExprV>>>>
    decreases toks.len() - pos, 2nat,
{
    if 0 <= pos && is(toks, pos, Token::Open(Delimiter::Paren)) {
        let (items, q, es) = s_exprs(toks, pos + 1);
        s_nested(toks, pos, Delimiter::Paren, Ok((Some(items), q, es)), None)
    } else {
        Err(err_at(toks, pos))
    }
}

/// Expressions separated by commas (possibly none, possibly with a trailing comma).
pub open spec fn s_exprs(toks: Seq<Spanned>, p: int) -> (Seq<NodeV<ExprV>>, int, Seq<Error>)
    decreases toks.len() - p, 32nat,
{
    if p < 0 || p > toks.len() {
        (Seq::empty(), p, Seq::empty())
    } else {
        match s_expr(toks, p) {
            Ok((e, p1, e1)) => if p < p1 <= toks.len() {
                s_exprs_rest(toks, seq![nodev(e, span_of(toks, p, p1))], p1, e1)
            } else {
                (Seq::empty(), p, Seq::empty())
            },
            Err(_) => (Seq::empty(), p, Seq::empty()),
        }
    }
}

pub open spec fn s_exprs_rest(toks: Seq<Spanned>, acc: Seq<NodeV<ExprV>>, p: int, errs: Seq<Error>) -> (Seq<NodeV<ExprV>>, int, Seq<Error>)
    decreases toks.len() - p, 32nat,
{
    if 0 <= p && is(toks, p, Token::Comma) {
        match s_expr(toks, p + 1) {
            Ok((e, p2, e2)) => if p + 1 < p2 <= toks.len() {
                s_exprs_rest(toks, acc.push(nodev(e, span_of(toks, p + 1, p2))), p2, errs + e2)
            } else {
                (acc, p + 1, errs)
            },
            Err(_) => (acc, p + 1, errs),
        }
    } else {
        (acc, p, errs)
    }
}

/// A literal, a local, an expression in parentheses, a tuple, a record, a
/// list, `let`, `if`, `match`, `fn`, or a constructor; the first that applies.
pub open spec fn s_atom(toks: Seq<Spanned>, pos: int) -> SRes<NodeV<ExprV>>
    decreases toks.len() - pos, 4nat,
{
    if pos < 0 || pos > toks.len() {
        Err(err_at(toks, pos))
    } else {
        let r = alt(
            alt(
                alt(
                    alt(
                        alt(
                            alt(
                                alt(
                                    alt(
                                        alt(alt(s_litr(toks, pos), s_local(toks, pos)), s_paren(toks, pos)),
                                        s_tuple(toks, pos),
                                    ),
                                    s_record(toks, pos),
                                ),
                                s_list(toks, pos),
                            ),
                            s_let(toks, pos),
                        ),
                        s_if(toks, pos),
                    ),
                    s_match(toks, pos),
                ),
                s_func(toks, pos),
            ),
            s_cons(toks, pos),
        );
        match r {
            Ok((e, q, es)) => Ok((nodev(e, span_of(toks, pos, q)), q, es)),
            Err(e) => Err(e),
        }
    }
}

pub open spec fn s_litr(toks: Seq<Spanned>, pos: int) -> SRes<ExprV> {
    match s_literal(toks, pos) {
        Ok((l, q)) => Ok((ExprV::Literal(l), q, Seq::empty())),
        Err(e) => Err(e),
    }
}

pub open spec fn s_local(toks: Seq<Spanned>, pos: int) -> SRes<ExprV> {
    if 0 <= pos < toks.len() && toks[pos].token is TermIdent {
        Ok((ExprV::Local(toks[pos].token->TermIdent_0@), pos + 1, Seq::empty()))
    } else {
        Err(err_at(toks, pos))
    }
}

/// `( expr )`
pub open spec fn s_paren(toks: Seq<Spanned>, pos: int) -> SRes<ExprV>
    decreases toks.len() - pos, 3nat,
{
    if 0 <= pos && is(toks, pos, Token::Open(Delimiter::Paren)) {
        s_nested(toks, pos, Delimiter::Paren, s_expr(toks, pos + 1), ExprV::Error)
    } else {
        Err(err_at(toks, pos))
    }
}

/// `( expr, ... )` as a tuple.
pub open spec fn s_tuple(toks: Seq<Spanned>, pos: int) -> SRes<ExprV>
    decreases toks.len() - pos, 3nat,
{
    match s_paren_list(toks, pos) {
        Ok((Some(items), q, es)) => Ok((ExprV::Tuple(items), q, es)),
        Ok((None, q, es)) => Ok((ExprV::Error, q, es)),
        Err(e) => Err(e),
    }
}

/// `{ field, ... }` where a field is `name` or `name: expr`.
pub open spec fn s_record(toks: Seq<Spanned>, pos: int) -> SRes<ExprV>
    decreases toks.len() - pos, 3nat,
{
    if 0 <= pos && is(toks, pos, Token::Open(Delimiter::Brace)) {
        let (fields, q, es) = s_efields(toks, pos + 1);
        s_nested(toks, pos, Delimiter::Brace, Ok((ExprV::Record(fields), q, es)), ExprV::Error)
    } else {
        Err(err_at(toks, pos))
    }
}

/// A field of a record: `name: expr`, or `name` alone, which stands for the local of that name.
pub open spec fn s_efield(toks: Seq<Spanned>, p: int) -> SRes<(NodeV<Seq<char>>, NodeV<ExprV>)>
    decreases toks.len() - p, 1nat,
{
    if 0 <= p < toks.len() && toks[p].token is TermIdent {
        let name = toks[p].token->TermIdent_0@;
        let field = nodev(name, toks[p].span);
        let given = if is(toks, p + 1, Token::Colon) {
            match s_expr(toks, p + 2) {
                Ok((e, q, es)) => Some((nodev(e, span_of(toks, p + 1, q)), q, es)),
                Err(_) => None,
            }
        } else {
            None
        };
        match given {
            Some((v, q, es)) => Ok(((field, v), q, es)),
            None => Ok(((field, nodev(ExprV::Local(name), toks[p].span)), p + 1, Seq::empty())),
        }
    } else {
        Err(err_at(toks, p))
    }
}

pub open spec fn s_efields(toks: Seq<Spanned>, p: int) -> (Seq<(NodeV<Seq<char>>, NodeV<ExprV>)>, int, Seq<Error>)
    decreases toks.len() - p, 32nat,
{
    if p < 0 || p > toks.len() {
        (Seq::empty(), p, Seq::empty())
    } else {
        match s_efield(toks, p) {
            Ok((f, p1, e1)) => if p < p1 <= toks.len() {
                s_efields_rest(toks, seq![f], p1, e1)
            } else {
                (Seq::empty(), p, Seq::empty())
            },
            Err(_) => (Seq::empty(), p, Seq::empty()),
        }
    }
}

pub open spec fn s_efields_rest(
    toks: Seq<Spanned>,
    acc: Seq<(NodeV<Seq<char>>, NodeV<ExprV>)>,
    p: int,
    errs: Seq<Error>,
) -> (Seq<(NodeV<Seq<char>>, NodeV<ExprV>)>, int, Seq<Error>)
    decreases toks.len() - p, 32nat,
{
    if 0 <= p && is(toks, p, Token::Comma) {
        match s_efield(toks, p + 1) {
            Ok((f, p2, e2)) => if p + 1 < p2 <= toks.len() {
                s_efields_rest(toks, acc.push(f), p2, errs + e2)
            } else {
                (acc, p + 1, errs)
            },
            Err(_) => (acc, p + 1, errs),
        }
    } else {
        (acc, p, errs)
    }
}

/// `[ expr, ... ]`
pub open spec fn s_list(toks: Seq<Spanned>, pos: int) -> SRes<ExprV>
    decreases toks.len() - pos, 3nat,
{
    if 0 <= pos && is(toks, pos, Token::Open(Delimiter::Brack)) {
        let (items, q, es) = s_exprs(toks, pos + 1);
        s_nested(toks, pos, Delimiter::Brack, Ok((ExprV::List(items, Seq::empty()), q, es)), ExprV::Error)
    } else {
        Err(err_at(toks, pos))
    }
}

/// `let binding = expr, ... in expr`
pub open spec fn s_let(toks: Seq<Spanned>, pos: int) -> SRes<ExprV>
    decreases toks.len() - pos, 3nat,
{
    if 0 <= pos && is(toks, pos, Token::Let) {
        let (bs, q, es) = s_lets(toks, pos + 1);
        if pos < q && is(toks, q, Token::In) {
            match s_expr(toks, q + 1) {
                Ok((t, q2, es2)) => Ok((ExprV::Let(bs, nodev(t, span_of(toks, q + 1, q2))), q2, es + es2)),
                Err(e) => Err(e),
            }
        } else {
            Err(err_at(toks, q))
        }
    } else {
        Err(err_at(toks, pos))
    }
}

/// `binding = expr`
pub open spec fn s_let_item(toks: Seq<Spanned>, p: int) -> SRes<(NodeV<BindingV>, NodeV<ExprV>)>
    decreases toks.len() - p, 1nat,
{
    match s_binding(toks, p) {
        Ok((b, q, es)) => if p < q && is(toks, q, Token::Op(Op::Eq)) {
            match s_expr(toks, q + 1) {
                Ok((e, q2, es2)) => Ok(((b, nodev(e, span_of(toks, q + 1, q2))), q2, es + es2)),
                Err(e) => Err(e),
            }
        } else {
            Err(err_at(toks, q))
        },
        Err(e) => Err(e),
    }
}

pub open spec fn s_lets(toks: Seq<Spanned>, p: int) -> (Seq<(NodeV<BindingV>, NodeV<ExprV>)>, int, Seq<Error>)
    decreases toks.len() - p, 32nat,
{
    if p < 0 || p > toks.len() {
        (Seq::empty(), p, Seq::empty())
    } else {
        match s_let_item(toks, p) {
            Ok((f, p1, e1)) => if p < p1 <= toks.len() {
                s_lets_rest(toks, seq![f], p1, e1)
            } else {
                (Seq::empty(), p, Seq::empty())
            },
            Err(_) => (Seq::empty(), p, Seq::empty()),
        }
    }
}

pub open spec fn s_lets_rest(
    toks: Seq<Spanned>,
    acc: Seq<(NodeV<BindingV>, NodeV<ExprV>)>,
    p: int,
    errs: Seq<Error>,
) -> (Seq<(NodeV<BindingV>, NodeV<ExprV>)>, int, Seq<Error>)
    decreases toks.len() - p, 32nat,
{
    if 0 <= p && is(toks, p, Token::Comma) {
        match s_let_item(toks, p + 1) {
            Ok((f, p2, e2)) => if p + 1 < p2 <= toks.len() {
                s_lets_rest(toks, acc.push(f), p2, errs + e2)
            } else {
                (acc, p + 1, errs)
            },
            Err(_) => (acc, p + 1, errs),
        }
    } else {
        (acc, p, errs)
    }
}

/// `if expr then expr else expr`
pub open spec fn s_if(toks: Seq<Spanned>, pos: int) -> SRes<ExprV>
    decreases toks.len() - pos, 3nat,
{
    if 0 <= pos && is(toks, pos, Token::If) {
        match s_expr(toks, pos + 1) {
            Ok((c, q1, e1)) => if pos < q1 && is(toks, q1, Token::Then) {
                match s_expr(toks, q1 + 1) {
                    Ok((a, q2, e2)) => if q1 < q2 && is(toks, q2, Token::Else) {
                        match s_expr(toks, q2 + 1) {
                            Ok((b, q3, e3)) => Ok((
                                ExprV::If(
                                    nodev(c, span_of(toks, pos + 1, q1)),
                                    nodev(a, span_of(toks, q1 + 1, q2)),
                                    nodev(b, span_of(toks, q2 + 1, q3)),
                                ),
                                q3,
                                e1 + e2 + e3,
                            )),
                            Err(e) => Err(e),
                        }
                    } else {
                        Err(err_at(toks, q2))
                    },
                    Err(e) => Err(e),
                }
            } else {
                Err(err_at(toks, q1))
            },
            Err(e) => Err(e),
        }
    } else {
        Err(err_at(toks, pos))
    }
}

/// `match expr, ... in branches`
pub open spec fn s_match(toks: Seq<Spanned>, pos: int) -> SRes<ExprV>
    decreases toks.len() - pos, 3nat,
{
    if 0 <= pos && is(toks, pos, Token::Match) {
        let (preds, q, es) = s_exprs(toks, pos + 1);
        if pos < q && is(toks, q, Token::In) {
            let (arms, q2, es2) = s_branches(toks, q + 1);
            Ok((ExprV::Match(nodev(preds, span_of(toks, pos + 1, q)), arms), q2, es + es2))
        } else {
            Err(err_at(toks, q))
        }
    } else {
        Err(err_at(toks, pos))
    }
}

/// `fn branches`
pub open spec fn s_func(toks: Seq<Spanned>, pos: int) -> SRes<ExprV>
    decreases toks.len() - pos, 3nat,
{
    if 0 <= pos && is(toks, pos, Token::Fn) {
        let (arms, q, es) = s_branches(toks, pos + 1);
        Ok((ExprV::Func(arms), q, es))
    } else {
        Err(err_at(toks, pos))
    }
}

/// `Name expr?`; without an argument the constructor takes the empty tuple.
pub open spec fn s_cons(toks: Seq<Spanned>, pos: int) -> SRes<ExprV>
    decreases toks.len() - pos, 3nat,
{
    if 0 <= pos < toks.len() && toks[pos].token is TypeIdent {
        let name = nodev(toks[pos].token->TypeIdent_0@, toks[pos].span);
        match s_expr(toks, pos + 1) {
            Ok((e, q, es)) => Ok((ExprV::Cons(name, nodev(e, span_of(toks, pos + 1, q))), q, es)),
            Err(_) => Ok((ExprV::Cons(name, nodev(ExprV::Tuple(Seq::empty()), toks[pos].span)), pos + 1, Seq::empty())),
        }
    } else {
        Err(err_at(toks, pos))
    }
}

/// `bindings => expr`, one branch of a function or of a `match`.
pub open spec fn s_branch(toks: Seq<Spanned>, p: int) -> SRes<BranchV>
    decreases toks.len() - p, 1nat,
{
    if p < 0 || p > toks.len() {
        Err(err_at(toks, p))
    } else {
        let (bs, q, es) = s_bindings(toks, p);
        if p <= q && is(toks, q, Token::Op(Op::RFlow)) {
            match s_expr(toks, q + 1) {
                Ok((e, q2, es2)) => Ok(((nodev(bs, span_of(toks, p, q)), nodev(e, span_of(toks, q + 1, q2))), q2, es + es2)),
                Err(e) => Err(e),
            }
        } else {
            Err(err_at(toks, q))
        }
    }
}

/// Branches separated by `|`, with an optional leading `|` (possibly none).
pub open spec fn s_branches(toks: Seq<Spanned>, p: int) -> (Seq<BranchV>, int, Seq<Error>)
    decreases toks.len() - p, 32nat,
{
    if p < 0 || p > toks.len() {
        (Seq::empty(), p, Seq::empty())
    } else {
        let p0 = if is(toks, p, Token::Pipe) {
            p + 1
        } else {
            p
        };
        match s_branch(toks, p0) {
            Ok((b, p1, e1)) => if p0 < p1 <= toks.len() {
                s_branches_rest(toks, seq![b], p1, e1)
            } else {
                (Seq::empty(), p0, Seq::empty())
            },
            Err(_) => (Seq::empty(), p0, Seq::empty()),
        }
    }
}

pub open spec fn s_branches_rest(toks: Seq<Spanned>, acc: Seq<BranchV>, p: int, errs: Seq<Error>) -> (Seq<BranchV>, int, Seq<Error>)
    decreases toks.len() - p, 32nat,
{
    if 0 <= p && is(toks, p, Token::Pipe) {
        match s_branch(toks, p + 1) {
            Ok((b, p2, e2)) => if p + 1 < p2 <= toks.len() {
                s_branches_rest(toks, acc.push(b), p2, errs + e2)
            } else {
                (acc, p, errs)
            },
            Err(_) => (acc, p, errs),
        }
    } else {
        (acc, p, errs)
    }
}


// ----- The parsers -----

/// The arguments in an argument list; `None` where they were recovered from.
pub struct ParenArgs(pub Option<Vec<SrcNode<Expr>>>);

impl View for ParenArgs {
    type V = Option<Seq<NodeV<ExprV>>>;

    open spec fn view(&self) -> Option<Seq<NodeV<ExprV>>> {
        match self.0 {
            Some(a) => Some(enodes_v(a@)),
            None => None,
        }
    }
}

/// What may follow an expression to extend it.
pub enum Chain {
    Field(SrcNode<Ident>),
    Infix(SrcNode<Expr>),
    Apply(ParenArgs, Span),
}

impl View for Chain {
    type V = ChainV;

    open spec fn view(&self) -> ChainV {
        match self {
            Chain::Field(f) => ChainV::Field(name_v(*f)),
            Chain::Infix(f) => ChainV::Infix(enode_v(*f)),
            Chain::Apply(args, span) => ChainV::Apply(args@, *span),
        }
    }
}

/// Reads an expression.
pub fn expr_parser(toks: &Vec<Spanned>, pos: usize) -> (r: PResult<Expr>)
    requires
        pos <= toks@.len(),
    ensures
        res_v(r) == s_expr(toks@, pos as int),
        progress(res_v(r), pos as int, toks@.len() as int),
    decreases toks@.len() - pos, 30nat,
{
    match bin_level(toks, pos, 4) {
        Ok((n, q, es)) => {
            assert(*n@.inner == (*n.inner)@);
            Ok((n.into_inner(), q, es))
        },
        Err(e) => Err(e),
    }
}

fn operand(toks: &Vec<Spanned>, pos: usize, k: u8) -> (r: PResult<SrcNode<Expr>>)
    requires
        pos <= toks@.len(),
        k <= 4,
    ensures
        res_v(r) == s_operand(toks@, pos as int, k as nat),
        progress(res_v(r), pos as int, toks@.len() as int),
    decreases toks@.len() - pos, 11 + 2 * (k as nat),
{
    if k == 0 {
        unary_expr(toks, pos)
    } else {
        bin_level(toks, pos, k - 1)
    }
}

fn bin_level(toks: &Vec<Spanned>, pos: usize, k: u8) -> (r: PResult<SrcNode<Expr>>)
    requires
        pos <= toks@.len(),
        k <= 4,
    ensures
        res_v(r) == s_bin(toks@, pos as int, k as nat),
        progress(res_v(r), pos as int, toks@.len() as int),
    decreases toks@.len() - pos, 12 + 2 * (k as nat),
{
    match operand(toks, pos, k) {
        Ok((a, p1, e1)) => bin_rest(toks, a, p1, e1, k),
        Err(e) => Err(e),
    }
}

fn op_here(toks: &Vec<Spanned>, p: usize, k: u8) -> (r: Option<BinaryOp>)
    ensures
        r == op_at(toks@, p as int, k as nat),
        r is Some ==> p < toks@.len() <= usize::MAX,
{
    if p >= toks.len() {
        return None;
    }
    match &toks[p].token {
        Token::Op(op) => if k == 0 {
            match op {
                Op::Mul => Some(BinaryOp::Mul),
                Op::Div => Some(BinaryOp::Div),
                Op::Rem => Some(BinaryOp::Rem),
                _ => None,
            }
        } else if k == 1 {
            match op {
                Op::Add => Some(BinaryOp::Add),
                Op::Sub => Some(BinaryOp::Sub),
                _ => None,
            }
        } else if k == 2 {
            match op {
                Op::Join => Some(BinaryOp::Join),
                _ => None,
            }
        } else if k == 3 {
            match op {
                Op::Less => Some(BinaryOp::Less),
                Op::LessEq => Some(BinaryOp::LessEq),
                Op::More => Some(BinaryOp::More),
                Op::MoreEq => Some(BinaryOp::MoreEq),
                Op::Eq => Some(BinaryOp::Eq),
                Op::NotEq => Some(BinaryOp::NotEq),
                _ => None,
            }
        } else if k == 4 {
            match op {
                Op::And => Some(BinaryOp::And),
                Op::Or => Some(BinaryOp::Or),
                Op::Xor => Some(BinaryOp::Xor),
                _ => None,
            }
        } else {
            None
        },
        _ => None,
    }
}

fn bin_rest(toks: &Vec<Spanned>, acc: SrcNode<Expr>, p: usize, errs: Vec<Error>, k: u8) -> (r: PResult<SrcNode<Expr>>)
    requires
        p <= toks@.len(),
        k <= 4,
    ensures
        res_v(r) == s_bin_rest(toks@, acc@, p as int, errs@, k as nat),
        res_v(r) matches Ok((_, q, _)) ==> p <= q <= toks@.len(),
    decreases toks@.len() - p, 13 + 2 * (k as nat),
{
    match op_here(toks, p, k) {
        Some(op) => match operand(toks, p + 1, k) {
            Ok((b, p2, e2)) => {
                let span = acc.span.union(b.span);
                let node = SrcNode::new(Expr::Binary(SrcNode::new(op, toks[p].span), acc, b), span);
                bin_rest(toks, node, p2, append_errs(errs, e2), k)
            },
            Err(_) => Ok((acc, p, errs)),
        },
        None => Ok((acc, p, errs)),
    }
}

fn prefix_here(toks: &Vec<Spanned>, p: usize) -> (r: Option<UnaryOp>)
    ensures
        r == prefix_at(toks@, p as int),
        r is Some ==> p < toks@.len() <= usize::MAX,
{
    if is_tok(toks, p, &Token::Op(Op::Sub)) {
        Some(UnaryOp::Neg)
    } else if is_tok(toks, p, &Token::Op(Op::Not)) {
        Some(UnaryOp::Not)
    } else {
        None
    }
}

fn unary_expr(toks: &Vec<Spanned>, pos: usize) -> (r: PResult<SrcNode<Expr>>)
    requires
        pos <= toks@.len(),
    ensures
        res_v(r) == s_unary(toks@, pos as int),
        progress(res_v(r), pos as int, toks@.len() as int),
    decreases toks@.len() - pos, 10nat,
{
    match prefix_here(toks, pos) {
        Some(op) => match unary_expr(toks, pos + 1) {
            Ok((e, q, es)) => {
                let span = toks[pos].span.union(e.span);
                Ok((SrcNode::new(Expr::Unary(SrcNode::new(op, toks[pos].span), e), span), q, es))
            },
            Err(e) => Err(e),
        },
        None => chained_expr(toks, pos),
    }
}

fn fold_args(f: SrcNode<Expr>, args: Vec<SrcNode<Expr>>, outer: Span) -> (r: SrcNode<Expr>)
    ensures
        enode_v(r) == s_fold_args(enode_v(f), enodes_v(args@), 0, outer),
{
    let ghost all = enodes_v(args@);
    let mut rest = args;
    let n = rest.len();
    let mut acc = f;
    let mut i: usize = 0;
    while rest.len() > 0
        invariant
            all.len() == n,
            i <= n,
            rest@.len() == n - i,
            forall|j: int| 0 <= j < rest@.len() ==> enode_v(#[trigger] rest@[j]) == all[i + j],
            s_fold_args(enode_v(acc), all, i as int, outer) == s_fold_args(enode_v(f), all, 0, outer),
        decreases rest@.len(),
    {
        let ghost old_rest = rest@;
        let a = rest.remove(0);
        assert(enode_v(a) == all[i as int]);
        let span = if i == n - 1 {
            outer
        } else {
            acc.span.union(a.span)
        };
        acc = SrcNode::new(Expr::Apply(acc, a), span);
        proof {
            assert forall|j: int| 0 <= j < rest@.len() implies enode_v(#[trigger] rest@[j]) == all[i + 1 + j] by {
                assert(rest@[j] == old_rest[j + 1]);
            }
        }
        i = i + 1;
    }
    acc
}

fn apply_chain_exec(acc: SrcNode<Expr>, c: Chain) -> (r: SrcNode<Expr>)
    ensures
        enode_v(r) == apply_chain(enode_v(acc), c@),
{
    match c {
        Chain::Field(f) => {
            let span = acc.span.union(f.span);
            SrcNode::new(Expr::Access(acc, f), span)
        },
        Chain::Infix(f) => {
            let span = acc.span.union(f.span);
            SrcNode::new(Expr::Apply(f, acc), span)
        },
        Chain::Apply(ParenArgs(None), _) => {
            let span = acc.span;
            SrcNode::new(Expr::Error, span)
        },
        Chain::Apply(ParenArgs(Some(args)), outer) => fold_args(acc, args, outer),
    }
}

fn chained_expr(toks: &Vec<Spanned>, pos: usize) -> (r: PResult<SrcNode<Expr>>)
    requires
        pos <= toks@.len(),
    ensures
        res_v(r) == s_chained(toks@, pos as int),
        progress(res_v(r), pos as int, toks@.len() as int),
    decreases toks@.len() - pos, 8nat,
{
    match direct_expr(toks, pos) {
        Ok((d, p1, e1)) => chain_rest(toks, d, p1, e1),
        Err(e) => Err(e),
    }
}

fn chain_item(toks: &Vec<Spanned>, p: usize) -> (r: PResult<Chain>)
    requires
        p <= toks@.len(),
    ensures
        res_v(r) == s_chain(toks@, p as int),
        progress(res_v(r), p as int, toks@.len() as int),
    decreases toks@.len() - p, 7nat,
{
    let field: PResult<Chain> = if is_tok(toks, p, &Token::Op(Op::Dot)) {
        if p + 1 < toks.len() {
            match &toks[p + 1].token {
                Token::TermIdent(x) => Ok((Chain::Field(SrcNode::new(x.clone(), toks[p + 1].span)), p + 2, Vec::new())),
                _ => Err(err_here(toks, p + 1)),
            }
        } else {
            Err(err_here(toks, p + 1))
        }
    } else {
        Err(err_here(toks, p))
    };
    if is_clean(&field) {
        return field;
    }
    let infix: PResult<Chain> = if is_tok(toks, p, &Token::Colon) {
        match direct_expr(toks, p + 1) {
            Ok((f, q, es)) => Ok((Chain::Infix(f), q, es)),
            Err(e) => Err(e),
        }
    } else {
        Err(err_here(toks, p))
    };
    let r = pick(field, infix);
    if is_clean(&r) {
        return r;
    }
    let apply: PResult<Chain> = match paren_list(toks, p) {
        Ok((args, q, es)) => {
            let span = span_between(toks, p, q);
            Ok((Chain::Apply(args, span), q, es))
        },
        Err(e) => Err(e),
    };
    pick(r, apply)
}

fn chain_rest(toks: &Vec<Spanned>, acc: SrcNode<Expr>, p: usize, errs: Vec<Error>) -> (r: PResult<SrcNode<Expr>>)
    requires
        p <= toks@.len(),
    ensures
        res_v(r) == s_chain_rest(toks@, acc@, p as int, errs@),
        res_v(r) matches Ok((_, q, _)) ==> p <= q <= toks@.len(),
    decreases toks@.len() - p, 9nat,
{
    match chain_item(toks, p) {
        Ok((c, q, es)) => chain_rest(toks, apply_chain_exec(acc, c), q, append_errs(errs, es)),
        Err(_) => Ok((acc, p, errs)),
    }
}

fn direct_expr(toks: &Vec<Spanned>, pos: usize) -> (r: PResult<SrcNode<Expr>>)
    requires
        pos <= toks@.len(),
    ensures
        res_v(r) == s_direct(toks@, pos as int),
        progress(res_v(r), pos as int, toks@.len() as int),
    decreases toks@.len() - pos, 6nat,
{
    match atom_expr(toks, pos) {
        Ok((a, p1, e1)) => match paren_list(toks, p1) {
            Ok((ParenArgs(Some(args)), q, es)) => {
                let span = span_between(toks, pos, q);
                Ok((fold_args(a, args, span), q, append_errs(e1, es)))
            },
            Ok((ParenArgs(None), q, es)) => {
                let span = span_between(toks, pos, q);
                Ok((SrcNode::new(Expr::Error, span), q, append_errs(e1, es)))
            },
            Err(_) => Ok((a, p1, e1)),
        },
        Err(e) => Err(e),
    }
}

fn paren_list(toks: &Vec<Spanned>, pos: usize) -> (r: PResult<ParenArgs>)
    requires
        pos <= toks@.len(),
    ensures
        res_v(r) == s_paren_list(toks@, pos as int),
        progress(res_v(r), pos as int, toks@.len() as int),
    decreases toks@.len() - pos, 2nat,
{
    if is_tok(toks, pos, &Token::Open(Delimiter::Paren)) {
        let (items, q, es) = exprs_sep(toks, pos + 1);
        nested_parser(toks, pos, Delimiter::Paren, Ok((ParenArgs(Some(items)), q, es)), ParenArgs(None))
    } else {
        Err(err_here(toks, pos))
    }
}

/// Reads expressions separated by commas, with an optional trailing comma.
pub(crate) fn exprs_sep(toks: &Vec<Spanned>, p: usize) -> (r: (Vec<SrcNode<Expr>>, usize, Vec<Error>))
    requires
        p <= toks@.len(),
    ensures
        s_exprs(toks@, p as int) == (enodes_v(r.0@), r.1 as int, r.2@),
        p <= r.1 <= toks@.len(),
    decreases toks@.len() - p, 32nat,
{
    match expr_parser(toks, p) {
        Ok((e, p1, e1)) => {
            let span = span_between(toks, p, p1);
            let mut acc: Vec<SrcNode<Expr>> = Vec::new();
            acc.push(SrcNode::new(e, span));
            proof {
                assert(enodes_v(acc@) =~= seq![enode_v(acc@[0])]);
            }
            exprs_sep_rest(toks, acc, p1, e1)
        },
        Err(_) => {
            proof {
                assert(enodes_v(Seq::<SrcNode<Expr>>::empty()) =~= Seq::empty());
            }
            (Vec::new(), p, Vec::new())
        },
    }
}

fn exprs_sep_rest(toks: &Vec<Spanned>, acc: Vec<SrcNode<Expr>>, p: usize, errs: Vec<Error>) -> (r: (
    Vec<SrcNode<Expr>>,
    usize,
    Vec<Error>,
))
    requires
        p <= toks@.len(),
    ensures
        s_exprs_rest(toks@, enodes_v(acc@), p as int, errs@) == (enodes_v(r.0@), r.1 as int, r.2@),
        p <= r.1 <= toks@.len(),
    decreases toks@.len() - p, 32nat,
{
    if is_tok(toks, p, &Token::Comma) {
        match expr_parser(toks, p + 1) {
            Ok((e, p2, e2)) => {
                let span = span_between(toks, p + 1, p2);
                let mut acc = acc;
                let ghost old_acc = acc@;
                acc.push(SrcNode::new(e, span));
                proof {
                    assert(enodes_v(acc@) =~= enodes_v(old_acc).push(enode_v(acc@.last())));
                }
                exprs_sep_rest(toks, acc, p2, append_errs(errs, e2))
            },
            Err(_) => (acc, p + 1, errs),
        }
    } else {
        (acc, p, errs)
    }
}

fn atom_expr(toks: &Vec<Spanned>, pos: usize) -> (r: PResult<SrcNode<Expr>>)
    requires
        pos <= toks@.len(),
    ensures
        res_v(r) == s_atom(toks@, pos as int),
        progress(res_v(r), pos as int, toks@.len() as int),
    decreases toks@.len() - pos, 4nat,
{
    let r = litr_expr(toks, pos);
    let r = if is_clean(&r) {
        r
    } else {
        pick(r, local_expr(toks, pos))
    };
    let r = if is_clean(&r) {
        r
    } else {
        pick(r, paren_expr(toks, pos))
    };
    let r = if is_clean(&r) {
        r
    } else {
        pick(r, tuple_expr(toks, pos))
    };
    let r = if is_clean(&r) {
        r
    } else {
        pick(r, record_expr(toks, pos))
    };
    let r = if is_clean(&r) {
        r
    } else {
        pick(r, list_expr(toks, pos))
    };
    let r = if is_clean(&r) {
        r
    } else {
        pick(r, let_expr(toks, pos))
    };
    let r = if is_clean(&r) {
        r
    } else {
        pick(r, if_expr(toks, pos))
    };
    let r = if is_clean(&r) {
        r
    } else {
        pick(r, match_expr(toks, pos))
    };
    let r = if is_clean(&r) {
        r
    } else {
        pick(r, func_expr(toks, pos))
    };
    let r = if is_clean(&r) {
        r
    } else {
        pick(r, cons_expr(toks, pos))
    };
    match r {
        Ok((e, q, es)) => {
            let span = span_between(toks, pos, q);
            Ok((SrcNode::new(e, span), q, es))
        },
        Err(e) => Err(e),
    }
}

fn litr_expr(toks: &Vec<Spanned>, pos: usize) -> (r: PResult<Expr>)
    requires
        pos <= toks@.len(),
    ensures
        res_v(r) == s_litr(toks@, pos as int),
        progress(res_v(r), pos as int, toks@.len() as int),
{
    match literal_parser(toks, pos) {
        Ok((l, q)) => Ok((Expr::Literal(l), q, Vec::new())),
        Err(e) => Err(e),
    }
}

fn local_expr(toks: &Vec<Spanned>, pos: usize) -> (r: PResult<Expr>)
    requires
        pos <= toks@.len(),
    ensures
        res_v(r) == s_local(toks@, pos as int),
        progress(res_v(r), pos as int, toks@.len() as int),
{
    if pos < toks.len() {
        match &toks[pos].token {
            Token::TermIdent(x) => Ok((Expr::Local(x.clone()), pos + 1, Vec::new())),
            _ => Err(err_here(toks, pos)),
        }
    } else {
        Err(err_here(toks, pos))
    }
}

fn paren_expr(toks: &Vec<Spanned>, pos: usize) -> (r: PResult<Expr>)
    requires
        pos <= toks@.len(),
    ensures
        res_v(r) == s_paren(toks@, pos as int),
        progress(res_v(r), pos as int, toks@.len() as int),
    decreases toks@.len() - pos, 3nat,
{
    if is_tok(toks, pos, &Token::Open(Delimiter::Paren)) {
        let inner = expr_parser(toks, pos + 1);
        nested_parser(toks, pos, Delimiter::Paren, inner, Expr::Error)
    } else {
        Err(err_here(toks, pos))
    }
}

fn tuple_expr(toks: &Vec<Spanned>, pos: usize) -> (r: PResult<Expr>)
    requires
        pos <= toks@.len(),
    ensures
        res_v(r) == s_tuple(toks@, pos as int),
        progress(res_v(r), pos as int, toks@.len() as int),
    decreases toks@.len() - pos, 3nat,
{
    match paren_list(toks, pos) {
        Ok((ParenArgs(Some(items)), q, es)) => {
            let e = Expr::Tuple(items);
            proof {
                lemma_expr_views(e);
            }
            Ok((e, q, es))
        },
        Ok((ParenArgs(None), q, es)) => Ok((Expr::Error, q, es)),
        Err(e) => Err(e),
    }
}

fn record_expr(toks: &Vec<Spanned>, pos: usize) -> (r: PResult<Expr>)
    requires
        pos <= toks@.len(),
    ensures
        res_v(r) == s_record(toks@, pos as int),
        progress(res_v(r), pos as int, toks@.len() as int),
    decreases toks@.len() - pos, 3nat,
{
    if is_tok(toks, pos, &Token::Open(Delimiter::Brace)) {
        let (fields, q, es) = efields_sep(toks, pos + 1);
        let e = Expr::Record(fields);
        proof {
            lemma_expr_views(e);
        }
        nested_parser(toks, pos, Delimiter::Brace, Ok((e, q, es)), Expr::Error)
    } else {
        Err(err_here(toks, pos))
    }
}

fn efield(toks: &Vec<Spanned>, p: usize) -> (r: PResult<(SrcNode<Ident>, SrcNode<Expr>)>)
    requires
        p <= toks@.len(),
    ensures
        match (r, s_efield(toks@, p as int)) {
            (Ok((f, q, es)), Ok((sf, sq, ses))) => (name_v(f.0), enode_v(f.1)) == sf && q == sq && es@ == ses,
            (Err(e), Err(se)) => e == se,
            _ => false,
        },
        r matches Ok((_, q, _)) ==> p < q <= toks@.len(),
    decreases toks@.len() - p, 1nat,
{
    if p < toks.len() {
        match &toks[p].token {
            Token::TermIdent(x) => {
                let field = SrcNode::new(x.clone(), toks[p].span);
                if is_tok(toks, p + 1, &Token::Colon) {
                    match expr_parser(toks, p + 2) {
                        Ok((e, q, es)) => {
                            let span = span_between(toks, p + 1, q);
                            return Ok(((field, SrcNode::new(e, span)), q, es));
                        },
                        Err(_) => {},
                    }
                }
                let local = SrcNode::new(Expr::Local(x.clone()), toks[p].span);
                Ok(((field, local), p + 1, Vec::new()))
            },
            _ => Err(err_here(toks, p)),
        }
    } else {
        Err(err_here(toks, p))
    }
}

fn efields_sep(toks: &Vec<Spanned>, p: usize) -> (r: (Vec<(SrcNode<Ident>, SrcNode<Expr>)>, usize, Vec<Error>))
    requires
        p <= toks@.len(),
    ensures
        s_efields(toks@, p as int) == (efields_v(r.0@), r.1 as int, r.2@),
        p <= r.1 <= toks@.len(),
    decreases toks@.len() - p, 32nat,
{
    match efield(toks, p) {
        Ok((f, p1, e1)) => {
            let mut acc: Vec<(SrcNode<Ident>, SrcNode<Expr>)> = Vec::new();
            acc.push(f);
            proof {
                assert(efields_v(acc@) =~= seq![(name_v(acc@[0].0), enode_v(acc@[0].1))]);
            }
            efields_sep_rest(toks, acc, p1, e1)
        },
        Err(_) => {
            proof {
                assert(efields_v(Seq::<(SrcNode<Ident>, SrcNode<Expr>)>::empty()) =~= Seq::empty());
            }
            (Vec::new(), p, Vec::new())
        },
    }
}

fn efields_sep_rest(
    toks: &Vec<Spanned>,
    acc: Vec<(SrcNode<Ident>, SrcNode<Expr>)>,
    p: usize,
    errs: Vec<Error>,
) -> (r: (Vec<(SrcNode<Ident>, SrcNode<Expr>)>, usize, Vec<Error>))
    requires
        p <= toks@.len(),
    ensures
        s_efields_rest(toks@, efields_v(acc@), p as int, errs@) == (efields_v(r.0@), r.1 as int, r.2@),
        p <= r.1 <= toks@.len(),
    decreases toks@.len() - p, 32nat,
{
    if is_tok(toks, p, &Token::Comma) {
        match efield(toks, p + 1) {
            Ok((f, p2, e2)) => {
                let mut acc = acc;
                let ghost old_acc = acc@;
                acc.push(f);
                proof {
                    assert(efields_v(acc@) =~= efields_v(old_acc).push((name_v(acc@.last().0), enode_v(acc@.last().1))));
                }
                efields_sep_rest(toks, acc, p2, append_errs(errs, e2))
            },
            Err(_) => (acc, p + 1, errs),
        }
    } else {
        (acc, p, errs)
    }
}

fn list_expr(toks: &Vec<Spanned>, pos: usize) -> (r: PResult<Expr>)
    requires
        pos <= toks@.len(),
    ensures
        res_v(r) == s_list(toks@, pos as int),
        progress(res_v(r), pos as int, toks@.len() as int),
    decreases toks@.len() - pos, 3nat,
{
    if is_tok(toks, pos, &Token::Open(Delimiter::Brack)) {
        let (items, q, es) = exprs_sep(toks, pos + 1);
        let tails: Vec<SrcNode<Expr>> = Vec::new();
        proof {
            assert(crate::ast::enodes_v(tails@) =~= Seq::<crate::ast::NodeV<ExprV>>::empty());
        }
        let e = Expr::List(items, tails);
        proof {
            lemma_expr_views(e);
        }
        nested_parser(toks, pos, Delimiter::Brack, Ok((e, q, es)), Expr::Error)
    } else {
        Err(err_here(toks, pos))
    }
}

fn let_expr(toks: &Vec<Spanned>, pos: usize) -> (r: PResult<Expr>)
    requires
        pos <= toks@.len(),
    ensures
        res_v(r) == s_let(toks@, pos as int),
        progress(res_v(r), pos as int, toks@.len() as int),
    decreases toks@.len() - pos, 3nat,
{
    if is_tok(toks, pos, &Token::Let) {
        let (bs, q, es) = lets_sep(toks, pos + 1);
        if is_tok(toks, q, &Token::In) {
            match expr_parser(toks, q + 1) {
                Ok((t, q2, es2)) => {
                    let span = span_between(toks, q + 1, q2);
                    let e = Expr::Let(bs, SrcNode::new(t, span));
                    proof {
                        lemma_expr_views(e);
                    }
                    Ok((e, q2, append_errs(es, es2)))
                },
                Err(e) => Err(e),
            }
        } else {
            Err(err_here(toks, q))
        }
    } else {
        Err(err_here(toks, pos))
    }
}

fn let_item(toks: &Vec<Spanned>, p: usize) -> (r: PResult<(SrcNode<Binding>, SrcNode<Expr>)>)
    requires
        p <= toks@.len(),
    ensures
        match (r, s_let_item(toks@, p as int)) {
            (Ok((f, q, es)), Ok((sf, sq, ses))) => (bnode_v(f.0), enode_v(f.1)) == sf && q == sq && es@ == ses,
            (Err(e), Err(se)) => e == se,
            _ => false,
        },
        r matches Ok((_, q, _)) ==> p < q <= toks@.len(),
    decreases toks@.len() - p, 1nat,
{
    match binding_parser(toks, p) {
        Ok((b, q, es)) => if is_tok(toks, q, &Token::Op(Op::Eq)) {
            match expr_parser(toks, q + 1) {
                Ok((e, q2, es2)) => {
                    let span = span_between(toks, q + 1, q2);
                    Ok(((b, SrcNode::new(e, span)), q2, append_errs(es, es2)))
                },
                Err(e) => Err(e),
            }
        } else {
            Err(err_here(toks, q))
        },
        Err(e) => Err(e),
    }
}

fn lets_sep(toks: &Vec<Spanned>, p: usize) -> (r: (Vec<(SrcNode<Binding>, SrcNode<Expr>)>, usize, Vec<Error>))
    requires
        p <= toks@.len(),
    ensures
        s_lets(toks@, p as int) == (lets_v(r.0@), r.1 as int, r.2@),
        p <= r.1 <= toks@.len(),
    decreases toks@.len() - p, 32nat,
{
    match let_item(toks, p) {
        Ok((f, p1, e1)) => {
            let mut acc: Vec<(SrcNode<Binding>, SrcNode<Expr>)> = Vec::new();
            acc.push(f);
            proof {
                assert(lets_v(acc@) =~= seq![(bnode_v(acc@[0].0), enode_v(acc@[0].1))]);
            }
            lets_sep_rest(toks, acc, p1, e1)
        },
        Err(_) => {
            proof {
                assert(lets_v(Seq::<(SrcNode<Binding>, SrcNode<Expr>)>::empty()) =~= Seq::empty());
            }
            (Vec::new(), p, Vec::new())
        },
    }
}

fn lets_sep_rest(
    toks: &Vec<Spanned>,
    acc: Vec<(SrcNode<Binding>, SrcNode<Expr>)>,
    p: usize,
    errs: Vec<Error>,
) -> (r: (Vec<(SrcNode<Binding>, SrcNode<Expr>)>, usize, Vec<Error>))
    requires
        p <= toks@.len(),
    ensures
        s_lets_rest(toks@, lets_v(acc@), p as int, errs@) == (lets_v(r.0@), r.1 as int, r.2@),
        p <= r.1 <= toks@.len(),
    decreases toks@.len() - p, 32nat,
{
    if is_tok(toks, p, &Token::Comma) {
        match let_item(toks, p + 1) {
            Ok((f, p2, e2)) => {
                let mut acc = acc;
                let ghost old_acc = acc@;
                acc.push(f);
                proof {
                    assert(lets_v(acc@) =~= lets_v(old_acc).push((bnode_v(acc@.last().0), enode_v(acc@.last().1))));
                }
                lets_sep_rest(toks, acc, p2, append_errs(errs, e2))
            },
            Err(_) => (acc, p + 1, errs),
        }
    } else {
        (acc, p, errs)
    }
}

fn if_expr(toks: &Vec<Spanned>, pos: usize) -> (r: PResult<Expr>)
    requires
        pos <= toks@.len(),
    ensures
        res_v(r) == s_if(toks@, pos as int),
        progress(res_v(r), pos as int, toks@.len() as int),
    decreases toks@.len() - pos, 3nat,
{
    if !is_tok(toks, pos, &Token::If) {
        return Err(err_here(toks, pos));
    }
    let (c, q1, e1) = match expr_parser(toks, pos + 1) {
        Ok(x) => x,
        Err(e) => {
            return Err(e);
        },
    };
    if !is_tok(toks, q1, &Token::Then) {
        return Err(err_here(toks, q1));
    }
    let (a, q2, e2) = match expr_parser(toks, q1 + 1) {
        Ok(x) => x,
        Err(e) => {
            return Err(e);
        },
    };
    if !is_tok(toks, q2, &Token::Else) {
        return Err(err_here(toks, q2));
    }
    let (b, q3, e3) = match expr_parser(toks, q2 + 1) {
        Ok(x) => x,
        Err(e) => {
            return Err(e);
        },
    };
    let cs = span_between(toks, pos + 1, q1);
    let a_s = span_between(toks, q1 + 1, q2);
    let bs = span_between(toks, q2 + 1, q3);
    let e = Expr::If(SrcNode::new(c, cs), SrcNode::new(a, a_s), SrcNode::new(b, bs));
    Ok((e, q3, append_errs(append_errs(e1, e2), e3)))
}

fn match_expr(toks: &Vec<Spanned>, pos: usize) -> (r: PResult<Expr>)
    requires
        pos <= toks@.len(),
    ensures
        res_v(r) == s_match(toks@, pos as int),
        progress(res_v(r), pos as int, toks@.len() as int),
    decreases toks@.len() - pos, 3nat,
{
    if is_tok(toks, pos, &Token::Match) {
        let (preds, q, es) = exprs_sep(toks, pos + 1);
        if is_tok(toks, q, &Token::In) {
            let span = span_between(toks, pos + 1, q);
            let (arms, q2, es2) = branches_sep(toks, q + 1);
            let e = Expr::Match(SrcNode::new(preds, span), arms);
            proof {
                lemma_expr_views(e);
            }
            Ok((e, q2, append_errs(es, es2)))
        } else {
            Err(err_here(toks, q))
        }
    } else {
        Err(err_here(toks, pos))
    }
}

fn func_expr(toks: &Vec<Spanned>, pos: usize) -> (r: PResult<Expr>)
    requires
        pos <= toks@.len(),
    ensures
        res_v(r) == s_func(toks@, pos as int),
        progress(res_v(r), pos as int, toks@.len() as int),
    decreases toks@.len() - pos, 3nat,
{
    if is_tok(toks, pos, &Token::Fn) {
        let (arms, q, es) = branches_sep(toks, pos + 1);
        let e = Expr::Func(arms);
        proof {
            lemma_expr_views(e);
        }
        Ok((e, q, es))
    } else {
        Err(err_here(toks, pos))
    }
}

fn cons_expr(toks: &Vec<Spanned>, pos: usize) -> (r: PResult<Expr>)
    requires
        pos <= toks@.len(),
    ensures
        res_v(r) == s_cons(toks@, pos as int),
        progress(res_v(r), pos as int, toks@.len() as int),
    decreases toks@.len() - pos, 3nat,
{
    if pos < toks.len() {
        match &toks[pos].token {
            Token::TypeIdent(x) => {
                let name = SrcNode::new(x.clone(), toks[pos].span);
                match expr_parser(toks, pos + 1) {
                    Ok((e, q, es)) => {
                        let span = span_between(toks, pos + 1, q);
                        Ok((Expr::Cons(name, SrcNode::new(e, span)), q, es))
                    },
                    Err(_) => {
                        let unit = Expr::Tuple(Vec::new());
                        proof {
                            lemma_expr_views(unit);
                            assert(enodes_v(Seq::<SrcNode<Expr>>::empty()) =~= Seq::empty());
                        }
                        Ok((Expr::Cons(name, SrcNode::new(unit, toks[pos].span)), pos + 1, Vec::new()))
                    },
                }
            },
            _ => Err(err_here(toks, pos)),
        }
    } else {
        Err(err_here(toks, pos))
    }
}

fn branch(toks: &Vec<Spanned>, p: usize) -> (r: PResult<Branch>)
    requires
        p <= toks@.len(),
    ensures
        match (r, s_branch(toks@, p as int)) {
            (Ok((b, q, es)), Ok((sb, sq, ses))) => branch_v(b) == sb && q == sq && es@ == ses,
            (Err(e), Err(se)) => e == se,
            _ => false,
        },
        r matches Ok((_, q, _)) ==> p < q <= toks@.len(),
    decreases toks@.len() - p, 1nat,
{
    let (bs, q, es) = bindings_sep(toks, p);
    if is_tok(toks, q, &Token::Op(Op::RFlow)) {
        match expr_parser(toks, q + 1) {
            Ok((e, q2, es2)) => {
                let bspan = span_between(toks, p, q);
                let espan = span_between(toks, q + 1, q2);
                Ok(((SrcNode::new(bs, bspan), SrcNode::new(e, espan)), q2, append_errs(es, es2)))
            },
            Err(e) => Err(e),
        }
    } else {
        Err(err_here(toks, q))
    }
}

/// Reads branches separated by `|`, with an optional leading `|`.
pub(crate) fn branches_sep(toks: &Vec<Spanned>, p: usize) -> (r: (Vec<Branch>, usize, Vec<Error>))
    requires
        p <= toks@.len(),
    ensures
        s_branches(toks@, p as int) == (branches_v(r.0@), r.1 as int, r.2@),
        p <= r.1 <= toks@.len(),
    decreases toks@.len() - p, 32nat,
{
    let p0 = if is_tok(toks, p, &Token::Pipe) {
        p + 1
    } else {
        p
    };
    match branch(toks, p0) {
        Ok((b, p1, e1)) => {
            let mut acc: Vec<Branch> = Vec::new();
            acc.push(b);
            proof {
                assert(branches_v(acc@) =~= seq![branch_v(acc@[0])]);
            }
            branches_sep_rest(toks, acc, p1, e1)
        },
        Err(_) => {
            proof {
                assert(branches_v(Seq::<Branch>::empty()) =~= Seq::empty());
            }
            (Vec::new(), p0, Vec::new())
        },
    }
}

fn branches_sep_rest(toks: &Vec<Spanned>, acc: Vec<Branch>, p: usize, errs: Vec<Error>) -> (r: (
    Vec<Branch>,
    usize,
    Vec<Error>,
))
    requires
        p <= toks@.len(),
    ensures
        s_branches_rest(toks@, branches_v(acc@), p as int, errs@) == (branches_v(r.0@), r.1 as int, r.2@),
        p <= r.1 <= toks@.len(),
    decreases toks@.len() - p, 32nat,
{
    if is_tok(toks, p, &Token::Pipe) {
        match branch(toks, p + 1) {
            Ok((b, p2, e2)) => {
                let mut acc = acc;
                let ghost old_acc = acc@;
                acc.push(b);
                proof {
                    assert(branches_v(acc@) =~= branches_v(old_acc).push(branch_v(acc@.last())));
                }
                branches_sep_rest(toks, acc, p2, append_errs(errs, e2))
            },
            Err(_) => (acc, p, errs),
        }
    } else {
        (acc, p, errs)
    }
}

} // verus!
