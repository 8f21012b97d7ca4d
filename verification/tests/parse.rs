use tao::ast::{Alias, BinaryOp, Binding, Data, Def, Expr, Generics, Item, Literal, Pat, Type, UnaryOp};
use tao::ident::Ident;
use tao::parse::bindings::binding_parser;
use tao::parse::exprs::expr_parser;
use tao::parse::items::{alias_parser, data_parser, def_parser, generics_parser, item_parser, module_parser, parse_module};
use tao::parse::types::{ty_hint_parser, type_parser};
use tao::parse::{
    bool_parser, literal_parser, nat_parser, nested_parser, term_ident_parser, type_ident_parser, Error, PResult,
};
use tao::span::{Span, SrcNode};
use tao::token::{Delimiter, Op, Spanned, Token};

/// The tokens of `code`, each with the span of its characters.
fn lex(code: &str) -> Vec<Spanned> {
    let chars: Vec<char> = code.chars().collect();
    let mut toks = Vec::new();
    let mut i = 0;
    while i < chars.len() {
        let c = chars[i];
        let start = i;
        if c.is_whitespace() {
            i += 1;
            continue;
        }
        let token = if c.is_ascii_digit() {
            let mut n: u64 = 0;
            while i < chars.len() && chars[i].is_ascii_digit() {
                n = n * 10 + chars[i].to_digit(10).unwrap() as u64;
                i += 1;
            }
            Token::Nat(n)
        } else if c.is_ascii_alphabetic() || c == '_' {
            let mut s = String::new();
            while i < chars.len() && (chars[i].is_ascii_alphanumeric() || chars[i] == '_') {
                s.push(chars[i]);
                i += 1;
            }
            match s.as_str() {
                "_" => Token::Wildcard,
                "fn" => Token::Fn,
                "let" => Token::Let,
                "in" => Token::In,
                "if" => Token::If,
                "then" => Token::Then,
                "else" => Token::Else,
                "match" => Token::Match,
                "data" => Token::Data,
                "type" => Token::Type,
                "def" => Token::Def,
                "true" => Token::Bool(true),
                "false" => Token::Bool(false),
                "and" => Token::Op(Op::And),
                "or" => Token::Op(Op::Or),
                "xor" => Token::Op(Op::Xor),
                _ if s.chars().next().unwrap().is_ascii_uppercase() => Token::TypeIdent(Ident::new(&s)),
                _ => Token::TermIdent(Ident::new(&s)),
            }
        } else {
            let two: String = chars[i..(i + 2).min(chars.len())].iter().collect();
            let t2 = match two.as_str() {
                "->" => Some(Token::Op(Op::RArrow)),
                "=>" => Some(Token::Op(Op::RFlow)),
                "==" => Some(Token::Op(Op::Eq)),
                "!=" => Some(Token::Op(Op::NotEq)),
                "<=" => Some(Token::Op(Op::LessEq)),
                ">=" => Some(Token::Op(Op::MoreEq)),
                "++" => Some(Token::Op(Op::Join)),
                ".." => Some(Token::Op(Op::Ellipsis)),
                _ => None,
            };
            match t2 {
                Some(t) => {
                    i += 2;
                    t
                },
                None => {
                    i += 1;
                    match c {
                        '*' => Token::Op(Op::Mul),
                        '+' => Token::Op(Op::Add),
                        '-' => Token::Op(Op::Sub),
                        '/' => Token::Op(Op::Div),
                        '%' => Token::Op(Op::Rem),
                        '!' => Token::Op(Op::Not),
                        '<' => Token::Op(Op::Less),
                        '>' => Token::Op(Op::More),
                        '=' => Token::Op(Op::Eq),
                        '.' => Token::Op(Op::Dot),
                        '(' => Token::Open(Delimiter::Paren),
                        ')' => Token::Close(Delimiter::Paren),
                        '[' => Token::Open(Delimiter::Brack),
                        ']' => Token::Close(Delimiter::Brack),
                        '{' => Token::Open(Delimiter::Brace),
                        '}' => Token::Close(Delimiter::Brace),
                        ',' => Token::Comma,
                        ':' => Token::Colon,
                        '?' => Token::Question,
                        '~' => Token::Tilde,
                        '|' => Token::Pipe,
                        _ => panic!("unexpected character {}", c),
                    }
                },
            }
        };
        toks.push(Spanned::new(token, Span::new(start, i)));
    }
    toks
}

fn e() -> Span {
    Span::empty()
}

fn n<T>(x: T) -> SrcNode<T> {
    SrcNode::new(x, e())
}

fn id(s: &str) -> Ident {
    Ident::new(s)
}

fn local(s: &str) -> SrcNode<Expr> {
    n(Expr::Local(id(s)))
}

fn lit(x: u64) -> SrcNode<Expr> {
    n(Expr::Literal(Literal::Nat(x)))
}

fn data_ty(s: &str, params: Vec<SrcNode<Type>>) -> SrcNode<Type> {
    n(Type::Data(n(id(s)), params))
}

fn bind_name(s: &str) -> SrcNode<Binding> {
    n(Binding { pat: n(Pat::Wildcard), name: Some(n(id(s))), ty: None })
}

/// Parses the whole of `code` with `parser`, which must succeed without recovering from any error.
fn whole<T>(code: &str, parser: fn(&Vec<Spanned>, usize) -> PResult<T>) -> T {
    let toks = lex(code);
    let (v, end, errs) = parser(&toks, 0).unwrap_or_else(|e| panic!("parse error {:?}", e));
    assert_eq!(end, toks.len(), "not all of {:?} was parsed", code);
    assert!(errs.is_empty(), "errors recovered from: {:?}", errs);
    v
}

#[test]
fn simple() {
    let code = r#"
            4 * 5 + (3 - 2) / foo(3, 4)
        "#;
    let tokens = lex(code);

    let (res, end, errs) = expr_parser(&tokens, 0).unwrap();
    assert_eq!(end, tokens.len());
    assert!(errs.is_empty());

    assert_eq!(
        res,
        Expr::Binary(
            SrcNode::new(BinaryOp::Add, Span::empty()),
            SrcNode::new(Expr::Binary(
                SrcNode::new(BinaryOp::Mul, Span::empty()),
                SrcNode::new(Expr::Literal(Literal::Nat(4)), Span::empty()),
                SrcNode::new(Expr::Literal(Literal::Nat(5)), Span::empty()),
            ), Span::empty()),
            SrcNode::new(Expr::Binary(
                SrcNode::new(BinaryOp::Div, Span::empty()),
                SrcNode::new(Expr::Binary(
                    SrcNode::new(BinaryOp::Sub, Span::empty()),
                    SrcNode::new(Expr::Literal(Literal::Nat(3)), Span::empty()),
                    SrcNode::new(Expr::Literal(Literal::Nat(2)), Span::empty()),
                ), Span::empty()),
                SrcNode::new(Expr::Apply(
                    SrcNode::new(Expr::Apply(
                        SrcNode::new(Expr::Local(Ident::new("foo")), Span::empty()),
                        SrcNode::new(Expr::Literal(Literal::Nat(3)), Span::empty()),
                    ), Span::empty()),
                    SrcNode::new(Expr::Literal(Literal::Nat(4)), Span::empty()),
                ), Span::empty()),
            ), Span::empty()),
        ),
        "{:#?}", res,
    );
}

#[test]
fn single_tokens() {
    let toks = lex("42 true x Foo ?");
    assert_eq!(nat_parser(&toks, 0), Ok((42, 1)));
    assert_eq!(bool_parser(&toks, 1), Ok((true, 2)));
    assert_eq!(term_ident_parser(&toks, 2), Ok((id("x"), 3)));
    assert_eq!(type_ident_parser(&toks, 3), Ok((id("Foo"), 4)));
    assert_eq!(literal_parser(&toks, 0), Ok((Literal::Nat(42), 1)));
    assert_eq!(literal_parser(&toks, 1), Ok((Literal::Bool(true), 2)));
    let err = nat_parser(&toks, 1).unwrap_err();
    assert_eq!(err, Error { pos: 1, span: Span::new(3, 7), found: Some(Token::Bool(true)) });
    assert_eq!(bool_parser(&toks, 0).unwrap_err().found, Some(Token::Nat(42)));
    assert_eq!(term_ident_parser(&toks, 3).unwrap_err().pos, 3);
    assert_eq!(type_ident_parser(&toks, 2).unwrap_err().pos, 2);
    let end = literal_parser(&toks, 5).unwrap_err();
    assert_eq!(end, Error { pos: 5, span: Span::new(15, 15), found: None });
    let others = vec![
        Spanned::new(Token::Num("1.5".to_string()), Span::new(0, 3)),
        Spanned::new(Token::Char('c'), Span::new(4, 7)),
        Spanned::new(Token::Str("hi".to_string()), Span::new(8, 12)),
    ];
    assert_eq!(literal_parser(&others, 0), Ok((Literal::Num("1.5".to_string()), 1)));
    assert_eq!(literal_parser(&others, 1), Ok((Literal::Char('c'), 2)));
    assert_eq!(literal_parser(&others, 2), Ok((Literal::Str("hi".to_string()), 3)));
}

#[test]
fn types_group_arrows_to_the_right() {
    let t = whole("A -> B -> C", type_parser);
    assert_eq!(
        t,
        Type::Func(data_ty("A", vec![]), n(Type::Func(data_ty("B", vec![]), data_ty("C", vec![]))))
    );
    let t = whole("(A -> B) -> C", type_parser);
    assert_eq!(
        t,
        Type::Func(n(Type::Func(data_ty("A", vec![]), data_ty("B", vec![]))), data_ty("C", vec![]))
    );
}

#[test]
fn types_of_every_form() {
    assert_eq!(whole("[Nat]", type_parser), Type::List(data_ty("Nat", vec![])));
    assert_eq!(whole("?", type_parser), Type::Unknown);
    assert_eq!(whole("()", type_parser), Type::Tuple(vec![]));
    assert_eq!(
        whole("(A, B,)", type_parser),
        Type::Tuple(vec![data_ty("A", vec![]), data_ty("B", vec![])])
    );
    assert_eq!(whole("(A)", type_parser), Type::Data(n(id("A")), vec![]));
    assert_eq!(
        whole("{ x = Nat, y = [Bool] }", type_parser),
        Type::Record(vec![
            (n(id("x")), data_ty("Nat", vec![])),
            (n(id("y")), n(Type::List(data_ty("Bool", vec![])))),
        ])
    );
    assert_eq!(
        whole("Maybe Nat (List A)", type_parser),
        Type::Data(n(id("Maybe")), vec![data_ty("Nat", vec![]), data_ty("List", vec![data_ty("A", vec![])])])
    );
}

#[test]
fn type_spans() {
    let toks = lex("Maybe Nat -> A");
    let (t, end, _) = type_parser(&toks, 0).unwrap();
    assert_eq!(end, 4);
    match t {
        Type::Func(i, o) => {
            assert_eq!(i.span(), Span::new(0, 9));
            assert_eq!(o.span(), Span::new(13, 14));
        },
        _ => panic!("expected a function type"),
    }
}

#[test]
fn type_hints() {
    let toks = lex(": Nat =");
    let (hint, end, errs) = ty_hint_parser(&toks, 0);
    assert_eq!(hint, Some(data_ty("Nat", vec![])));
    assert_eq!(end, 2);
    assert!(errs.is_empty());
    let (hint, end, _) = ty_hint_parser(&toks, 2);
    assert_eq!(hint, None);
    assert_eq!(end, 2);
}

#[test]
fn recovery_inside_brackets() {
    // `[A B ->]`: the type inside the brackets stops before `->`, where `]` is
    // expected; the group is skipped and stands for an erroneous type.
    let toks = lex("[A B ->] -> C");
    let (t, end, errs) = type_parser(&toks, 0).unwrap();
    assert_eq!(end, 7);
    assert_eq!(t, Type::Func(n(Type::Error), data_ty("C", vec![])));
    assert_eq!(errs.len(), 1);
    assert_eq!(errs[0].pos, 3);
    assert_eq!(errs[0].found, Some(Token::Op(Op::RArrow)));
    // An unclosed group cannot be recovered from.
    let toks = lex("[A B");
    assert!(type_parser(&toks, 0).is_err());
}

#[test]
fn nested_groups() {
    let toks = lex("( x [ ) ] )");
    let inner: PResult<u8> = Err(Error { pos: 1, span: Span::new(2, 3), found: None });
    let r = nested_parser(&toks, 0, Delimiter::Paren, inner, 0u8);
    // The bracket `)` inside `[ ]` closes the wrong kind of group.
    assert!(r.is_err());
    let toks = lex("( x [ ( ) ] ) y");
    let inner: PResult<u8> = Err(Error { pos: 1, span: Span::new(2, 3), found: None });
    let (v, end, errs) = nested_parser(&toks, 0, Delimiter::Paren, inner, 9u8).unwrap();
    assert_eq!((v, end), (9, 7));
    assert_eq!(errs, vec![Error { pos: 1, span: Span::new(2, 3), found: None }]);
    let inner: PResult<u8> = Ok((5, 6, Vec::new()));
    assert_eq!(nested_parser(&toks, 0, Delimiter::Paren, inner, 9u8).unwrap(), (5, 7, Vec::new()));
}

#[test]
fn nested_needs_its_opening_bracket() {
    let toks = lex("x )");
    let inner: PResult<u8> = Ok((5, 1, Vec::new()));
    let e = nested_parser(&toks, 0, Delimiter::Paren, inner, 9u8).unwrap_err();
    assert_eq!(e.pos, 0);
    let toks = lex("[ x ]");
    let inner: PResult<u8> = Ok((5, 2, Vec::new()));
    assert!(nested_parser(&toks, 0, Delimiter::Paren, inner, 9u8).is_err());
}

#[test]
fn bindings_of_every_form() {
    assert_eq!(whole("x", binding_parser).into_inner(), *bind_name("x").inner);
    assert_eq!(
        whole("_ : Nat", binding_parser).into_inner(),
        Binding { pat: n(Pat::Wildcard), name: None, ty: Some(data_ty("Nat", vec![])) }
    );
    assert_eq!(
        whole("p ~ (a, b)", binding_parser).into_inner(),
        Binding { pat: n(Pat::Tuple(vec![bind_name("a"), bind_name("b")])), name: Some(n(id("p"))), ty: None }
    );
    assert_eq!(
        whole("(a)", binding_parser).into_inner(),
        Binding { pat: n(Pat::Single(bind_name("a"))), name: None, ty: None }
    );
    assert_eq!(
        whole("Just x", binding_parser).into_inner(),
        Binding { pat: n(Pat::Deconstruct(n(id("Just")), bind_name("x"))), name: None, ty: None }
    );
    assert_eq!(
        whole("Nothing", binding_parser).into_inner(),
        Binding {
            pat: n(Pat::Deconstruct(n(id("Nothing")), n(Binding { pat: n(Pat::Tuple(vec![])), name: None, ty: None }))),
            name: None,
            ty: None,
        }
    );
    assert_eq!(
        whole("3", binding_parser).into_inner(),
        Binding { pat: n(Pat::Literal(Literal::Nat(3))), name: None, ty: None }
    );
}

#[test]
fn record_and_list_patterns() {
    assert_eq!(
        whole("{ x : Nat, y = z }", binding_parser).into_inner(),
        Binding {
            pat: n(Pat::Record(vec![
                (n(id("x")), n(Binding { pat: n(Pat::Wildcard), name: Some(n(id("x"))), ty: Some(data_ty("Nat", vec![])) })),
                (n(id("y")), bind_name("z")),
            ])),
            name: None,
            ty: None,
        }
    );
    assert_eq!(
        whole("[a, b .. rest]", binding_parser).into_inner(),
        Binding { pat: n(Pat::ListFront(vec![bind_name("a"), bind_name("b")], Some(bind_name("rest")))), name: None, ty: None }
    );
    assert_eq!(
        whole("[a ..]", binding_parser).into_inner(),
        Binding { pat: n(Pat::ListFront(vec![bind_name("a")], None)), name: None, ty: None }
    );
    assert_eq!(
        whole("[a, b]", binding_parser).into_inner(),
        Binding { pat: n(Pat::ListExact(vec![bind_name("a"), bind_name("b")])), name: None, ty: None }
    );
}

#[test]
fn operator_precedence() {
    let bin = |op, a, b| n(Expr::Binary(n(op), a, b));
    assert_eq!(
        n(whole("a + 1 == b and c", expr_parser)),
        bin(BinaryOp::And, bin(BinaryOp::Eq, bin(BinaryOp::Add, local("a"), lit(1)), local("b")), local("c"))
    );
    assert_eq!(
        n(whole("a - b - c", expr_parser)),
        bin(BinaryOp::Sub, bin(BinaryOp::Sub, local("a"), local("b")), local("c"))
    );
    assert_eq!(
        n(whole("a ++ b * c < d", expr_parser)),
        bin(BinaryOp::Less, bin(BinaryOp::Join, local("a"), bin(BinaryOp::Mul, local("b"), local("c"))), local("d"))
    );
    assert_eq!(
        whole("- !x", expr_parser),
        Expr::Unary(n(UnaryOp::Neg), n(Expr::Unary(n(UnaryOp::Not), local("x"))))
    );
}

#[test]
fn chains() {
    assert_eq!(whole("x.y", expr_parser), Expr::Access(local("x"), n(id("y"))));
    assert_eq!(whole("x:f", expr_parser), Expr::Apply(local("f"), local("x")));
    assert_eq!(
        whole("f(a)(b)", expr_parser),
        Expr::Apply(n(Expr::Apply(local("f"), local("a"))), local("b"))
    );
    assert_eq!(
        whole("x.y(a, b)", expr_parser),
        Expr::Apply(n(Expr::Apply(n(Expr::Access(local("x"), n(id("y")))), local("a"))), local("b"))
    );
}

#[test]
fn compound_expressions() {
    assert_eq!(whole("(1, 2)", expr_parser), Expr::Tuple(vec![lit(1), lit(2)]));
    assert_eq!(whole("()", expr_parser), Expr::Tuple(vec![]));
    assert_eq!(whole("(1)", expr_parser), Expr::Literal(Literal::Nat(1)));
    assert_eq!(whole("[1, 2,]", expr_parser), Expr::List(vec![lit(1), lit(2)], Vec::new()));
    assert_eq!(
        whole("{ a, b: 2 }", expr_parser),
        Expr::Record(vec![(n(id("a")), local("a")), (n(id("b")), lit(2))])
    );
    assert_eq!(
        whole("let x = 1, y = x in y", expr_parser),
        Expr::Let(vec![(bind_name("x"), lit(1)), (bind_name("y"), local("x"))], local("y"))
    );
    assert_eq!(
        whole("if true then 1 else 2", expr_parser),
        Expr::If(n(Expr::Literal(Literal::Bool(true))), lit(1), lit(2))
    );
    assert_eq!(
        whole("fn x => x", expr_parser),
        Expr::Func(vec![(n(vec![bind_name("x")]), local("x"))])
    );
    assert_eq!(
        whole("match x, y in | 1, _ => 2 | _, _ => 3", expr_parser),
        Expr::Match(
            n(vec![local("x"), local("y")]),
            vec![
                (n(vec![n(Binding { pat: n(Pat::Literal(Literal::Nat(1))), name: None, ty: None }), n(Binding { pat: n(Pat::Wildcard), name: None, ty: None })]), lit(2)),
                (n(vec![n(Binding { pat: n(Pat::Wildcard), name: None, ty: None }), n(Binding { pat: n(Pat::Wildcard), name: None, ty: None })]), lit(3)),
            ],
        )
    );
    assert_eq!(whole("Just 1", expr_parser), Expr::Cons(n(id("Just")), lit(1)));
    assert_eq!(whole("None", expr_parser), Expr::Cons(n(id("None")), n(Expr::Tuple(vec![]))));
}

#[test]
fn expression_errors() {
    let toks = lex("1 +");
    let (e, end, _) = expr_parser(&toks, 0).unwrap();
    assert_eq!((e, end), (Expr::Literal(Literal::Nat(1)), 1));
    let toks = lex(")");
    assert_eq!(expr_parser(&toks, 0).unwrap_err().pos, 0);
    let toks = lex("(1 2)");
    let (e, end, errs) = expr_parser(&toks, 0).unwrap();
    assert_eq!((e, end), (Expr::Error, 4));
    assert_eq!(errs.len(), 1);
    assert_eq!(errs[0].pos, 2);
}

#[test]
fn items() {
    let (g, end) = generics_parser(&lex("A, B, ="), 0);
    assert_eq!(g, Generics { tys: vec![n(id("A")), n(id("B"))] });
    assert_eq!(end, 4);
    assert_eq!(
        whole("def x = 1", def_parser),
        Def { name: n(id("x")), generics: Generics { tys: vec![] }, ty_hint: n(Type::Unknown), body: lit(1) }
    );
    assert_eq!(
        whole("def id A : A -> A = fn x => x", def_parser),
        Def {
            name: n(id("id")),
            generics: Generics { tys: vec![n(id("A"))] },
            ty_hint: n(Type::Func(data_ty("A", vec![]), data_ty("A", vec![]))),
            body: n(Expr::Func(vec![(n(vec![bind_name("x")]), local("x"))])),
        }
    );
    assert_eq!(
        whole("type Pair A = (A, A)", alias_parser),
        Alias {
            name: n(id("Pair")),
            generics: Generics { tys: vec![n(id("A"))] },
            ty: n(Type::Tuple(vec![data_ty("A", vec![]), data_ty("A", vec![])])),
        }
    );
    assert_eq!(
        whole("data Unit = | Unit | Other Nat", data_parser),
        Data {
            name: n(id("Unit")),
            generics: Generics { tys: vec![] },
            variants: vec![(n(id("Unit")), n(Type::Tuple(vec![]))), (n(id("Other")), data_ty("Nat", vec![]))],
        }
    );
    assert_eq!(
        whole("data Wrap = [Nat]", data_parser),
        Data {
            name: n(id("Wrap")),
            generics: Generics { tys: vec![] },
            variants: vec![(n(id("Wrap")), n(Type::List(data_ty("Nat", vec![]))))],
        }
    );
}

#[test]
fn data_with_a_type_first() {
    // Where a type follows `=`, the declaration is read as a single variant
    // holding that type, and parsing stops before the first `|`.
    let toks = lex("data Maybe A = Just A | Nothing");
    let (d, end, errs) = data_parser(&toks, 0).unwrap();
    assert_eq!(end, 6);
    assert!(errs.is_empty());
    assert_eq!(d.variants, vec![(n(id("Maybe")), data_ty("Just", vec![data_ty("A", vec![])]))]);
    let errs = parse_module(&toks).unwrap_err();
    assert_eq!(errs.len(), 1);
    assert_eq!(errs[0].pos, 6);
}

#[test]
fn modules() {
    let toks = lex("def a = 1 type T = Nat def b = a");
    let m = parse_module(&toks).unwrap();
    assert_eq!(m.items.len(), 3);
    assert!(matches!(&m.items[0], Item::Def(d) if d.name == n(id("a"))));
    assert!(matches!(&m.items[1], Item::Alias(a) if a.name == n(id("T"))));
    assert!(matches!(&m.items[2], Item::Def(d) if d.body == local("a")));
    let (m2, end, errs) = module_parser(&toks, 0).unwrap();
    assert_eq!(m2, m);
    assert_eq!(end, toks.len());
    assert!(errs.is_empty());
    let (it, end, _) = item_parser(&toks, 4).unwrap();
    assert!(matches!(it, Item::Alias(_)));
    assert_eq!(end, 8);
    let bad = lex("def a = 1 )");
    let errs = parse_module(&bad).unwrap_err();
    assert_eq!(errs, vec![Error { pos: 4, span: Span::new(10, 11), found: Some(Token::Close(Delimiter::Paren)) }]);
    assert_eq!(parse_module(&lex("")).unwrap().items.len(), 0);
}
