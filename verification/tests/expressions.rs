use austral_lib::ast::{
    ArithExpr, AtomicExpr, CastExpr, CmpExpr, CompoundExpr, Expression, FnCallArgs, FnCallExpr,
    Ident, IntrinExpr, LogicExpr, NamedArg, PathExpr, PathSegment, SelectExpr, TypeSpec,
};
use austral_lib::lexer::{Token, TokenKind};

fn ident(name: &str) -> Token {
    Token::Ident(name.to_string())
}

fn variable(name: &str) -> AtomicExpr {
    AtomicExpr::Path(PathExpr { first: Ident::new(name), extra: vec![] })
}

#[test]
fn test_const_expressions() {
    let nil = vec![Token::Nil];
    assert_eq!(AtomicExpr::parser(&nil).unwrap(), AtomicExpr::ConstNil);

    let true_ = vec![Token::True];
    assert_eq!(AtomicExpr::parser(&true_).unwrap(), AtomicExpr::ConstBool(true));

    let false_ = vec![Token::False];
    assert_eq!(AtomicExpr::parser(&false_).unwrap(), AtomicExpr::ConstBool(false));

    let char_ = vec![Token::Char('a')];
    assert_eq!(AtomicExpr::parser(&char_).unwrap(), AtomicExpr::ConstChar('a'));

    let int_ = vec![Token::Decimal(10)];
    assert_eq!(AtomicExpr::parser(&int_).unwrap(), AtomicExpr::ConstInt(10));

    let float_ = vec![Token::Float("10.0".to_string())];
    let parsed = AtomicExpr::parser(&float_).unwrap();
    assert_eq!(parsed, AtomicExpr::ConstFloat("10.0".to_string()));
    match parsed {
        AtomicExpr::ConstFloat(text) => assert_eq!(text.parse::<f64>().unwrap(), 10.0),
        _ => panic!("not a float constant"),
    }

    let str_ = vec![Token::String("hello world".to_string())];
    assert_eq!(
        AtomicExpr::parser(&str_).unwrap(),
        AtomicExpr::ConstStr("hello world".to_string())
    );
}

#[test]
fn test_fn_call_expression() {
    let fn_call_noargs = vec![ident("foo"), Token::LParen, Token::RParen];

    assert_eq!(
        FnCallExpr::parser(&fn_call_noargs).unwrap(),
        FnCallExpr { target: Ident::new("foo"), args: FnCallArgs::Empty }
    );

    let fn_call = vec![ident("foo"), Token::LParen, ident("bar"), Token::RParen];
    assert_eq!(
        FnCallExpr::parser(&fn_call).unwrap(),
        FnCallExpr {
            target: Ident::new("foo"),
            args: FnCallArgs::Positional(vec![Expression::Atomic(AtomicExpr::Path(PathExpr {
                first: Ident::new("bar"),
                extra: vec![]
            }))])
        }
    );
}

#[test]
fn test_path_expression() {
    let path = vec![ident("foo"), Token::Period, ident("bar")];
    assert_eq!(
        PathExpr::parser(&path).unwrap(),
        PathExpr {
            first: Ident::new("foo"),
            extra: vec![PathSegment::SlotAccess(Ident::new("bar"))]
        }
    );
}

#[test]
fn test_arith_expression() {
    let add_expr = vec![Token::Decimal(10), Token::Add, Token::Decimal(10)];

    assert_eq!(
        ArithExpr::parser(&add_expr).unwrap(),
        ArithExpr::Add(AtomicExpr::ConstInt(10), AtomicExpr::ConstInt(10))
    );

    let sub_expr = vec![Token::Decimal(10), Token::Sub, Token::Decimal(10)];

    assert_eq!(
        ArithExpr::parser(&sub_expr).unwrap(),
        ArithExpr::Sub(AtomicExpr::ConstInt(10), AtomicExpr::ConstInt(10))
    );

    let mul_expr = vec![Token::Decimal(10), Token::Mul, Token::Decimal(10)];

    assert_eq!(
        ArithExpr::parser(&mul_expr).unwrap(),
        ArithExpr::Mul(AtomicExpr::ConstInt(10), AtomicExpr::ConstInt(10))
    );

    let div_expr = vec![Token::Decimal(10), Token::Div, Token::Decimal(10)];

    assert_eq!(
        ArithExpr::parser(&div_expr).unwrap(),
        ArithExpr::Div(AtomicExpr::ConstInt(10), AtomicExpr::ConstInt(10))
    );
}

#[test]
fn test_logical_expressions() {
    let and_expr = vec![Token::True, Token::And, Token::False];

    assert_eq!(
        LogicExpr::parser(&and_expr).unwrap(),
        LogicExpr::And(AtomicExpr::ConstBool(true), AtomicExpr::ConstBool(false))
    );

    let or_expr = vec![Token::True, Token::Or, Token::False];

    assert_eq!(
        LogicExpr::parser(&or_expr).unwrap(),
        LogicExpr::Or(AtomicExpr::ConstBool(true), AtomicExpr::ConstBool(false))
    );

    let not_expr = vec![Token::Not, Token::True];

    assert_eq!(
        LogicExpr::parser(&not_expr).unwrap(),
        LogicExpr::Not(AtomicExpr::ConstBool(true))
    );
}

#[test]
fn comparison_operators_give_their_variants() {
    let cases = vec![
        (Token::Eq, CmpExpr::Eq(AtomicExpr::ConstInt(1), AtomicExpr::ConstInt(2))),
        (Token::NotEq, CmpExpr::NotEq(AtomicExpr::ConstInt(1), AtomicExpr::ConstInt(2))),
        (Token::Lt, CmpExpr::Lt(AtomicExpr::ConstInt(1), AtomicExpr::ConstInt(2))),
        (Token::LtEq, CmpExpr::LtEq(AtomicExpr::ConstInt(1), AtomicExpr::ConstInt(2))),
        (Token::Gt, CmpExpr::Gt(AtomicExpr::ConstInt(1), AtomicExpr::ConstInt(2))),
        (Token::GtEq, CmpExpr::GtEq(AtomicExpr::ConstInt(1), AtomicExpr::ConstInt(2))),
    ];
    for (op, expected) in cases {
        let tokens = vec![Token::Decimal(1), op, Token::Decimal(2)];
        assert_eq!(CmpExpr::parser(&tokens).unwrap(), expected);
    }
}

#[test]
fn expression_with_operator_is_compound() {
    let tokens = vec![ident("a"), Token::Add, Token::Decimal(1)];
    assert_eq!(
        Expression::parser(&tokens).unwrap(),
        Expression::Compound(CompoundExpr::Arith(ArithExpr::Add(
            variable("a"),
            AtomicExpr::ConstInt(1)
        )))
    );
    let tokens = vec![ident("a")];
    assert_eq!(Expression::parser(&tokens).unwrap(), Expression::Atomic(variable("a")));
}

#[test]
fn unary_minus_and_not_are_compound() {
    let tokens = vec![Token::Sub, ident("a")];
    assert_eq!(
        Expression::parser(&tokens).unwrap(),
        Expression::Compound(CompoundExpr::Arith(ArithExpr::Neg(variable("a"))))
    );
    let tokens = vec![Token::Not, ident("a")];
    assert_eq!(
        Expression::parser(&tokens).unwrap(),
        Expression::Compound(CompoundExpr::Logic(LogicExpr::Not(variable("a"))))
    );
}

#[test]
fn parentheses_make_an_operand() {
    // (a + 1) * 2
    let tokens = vec![
        Token::LParen,
        ident("a"),
        Token::Add,
        Token::Decimal(1),
        Token::RParen,
        Token::Mul,
        Token::Decimal(2),
    ];
    let inner = Expression::Compound(CompoundExpr::Arith(ArithExpr::Add(
        variable("a"),
        AtomicExpr::ConstInt(1),
    )));
    assert_eq!(
        Expression::parser(&tokens).unwrap(),
        Expression::Compound(CompoundExpr::Arith(ArithExpr::Mul(
            AtomicExpr::Paren(Box::new(inner)),
            AtomicExpr::ConstInt(2)
        )))
    );
}

#[test]
fn postfix_colon_is_a_cast() {
    let tokens = vec![ident("x"), Token::Colon, ident("Int64")];
    assert_eq!(
        Expression::parser(&tokens).unwrap(),
        Expression::Compound(CompoundExpr::Cast(CastExpr {
            value: variable("x"),
            ty: TypeSpec::Simple { name: Ident::new("Int64") },
        }))
    );
}

#[test]
fn conditional_expression() {
    let tokens = vec![Token::If, ident("c"), Token::Then, Token::Decimal(1), Token::Else, Token::Decimal(2)];
    assert_eq!(
        Expression::parser(&tokens).unwrap(),
        Expression::Compound(CompoundExpr::Select(SelectExpr {
            condition: Box::new(Expression::Atomic(variable("c"))),
            value_true: Box::new(Expression::Atomic(AtomicExpr::ConstInt(1))),
            value_false: Box::new(Expression::Atomic(AtomicExpr::ConstInt(2))),
        }))
    );
}

#[test]
fn path_and_variable() {
    let bare = PathExpr::parser(&[ident("x")]).unwrap();
    assert!(bare.is_variable());
    let path = PathExpr::parser(&[
        ident("x"),
        Token::HypenRight,
        ident("f"),
        Token::LBracket,
        Token::Decimal(0),
        Token::RBracket,
    ])
    .unwrap();
    assert!(!path.is_variable());
    assert_eq!(
        path.extra,
        vec![
            PathSegment::PtrSlotAccess(Ident::new("f")),
            PathSegment::ArrayIndex(Box::new(Expression::Atomic(AtomicExpr::ConstInt(0)))),
        ]
    );
}

#[test]
fn reference_path_and_borrows() {
    let tokens = vec![Token::RefTransform, ident("x"), Token::Period, ident("f"), Token::RParen];
    assert_eq!(
        AtomicExpr::parser(&tokens).unwrap(),
        AtomicExpr::RefPath(PathExpr {
            first: Ident::new("x"),
            extra: vec![PathSegment::SlotAccess(Ident::new("f"))]
        })
    );
    assert_eq!(
        AtomicExpr::parser(&[Token::BorrowRead, ident("x")]).unwrap(),
        AtomicExpr::BorrowRead(Ident::new("x"))
    );
    assert_eq!(
        AtomicExpr::parser(&[Token::BorrowWrite, ident("x")]).unwrap(),
        AtomicExpr::BorrowWrite(Ident::new("x"))
    );
    assert_eq!(
        AtomicExpr::parser(&[Token::ReBorrow, ident("x")]).unwrap(),
        AtomicExpr::ReBorrow(Ident::new("x"))
    );
    assert_eq!(
        AtomicExpr::parser(&[Token::Deref, ident("x")]).unwrap(),
        AtomicExpr::Deref(Box::new(variable("x")))
    );
}

#[test]
fn sizeof_and_embed() {
    let tokens = vec![Token::SizeOf, Token::LParen, ident("T"), Token::RParen];
    assert_eq!(
        AtomicExpr::parser(&tokens).unwrap(),
        AtomicExpr::SizeOf(TypeSpec::Simple { name: Ident::new("T") })
    );
    let tokens = vec![
        Token::Embed,
        Token::LParen,
        ident("T"),
        Token::Comma,
        Token::String("$1 + 1".to_string()),
        Token::Comma,
        ident("x"),
        Token::RParen,
    ];
    assert_eq!(
        IntrinExpr::parser(&tokens).unwrap(),
        IntrinExpr::Embed {
            ty: TypeSpec::Simple { name: Ident::new("T") },
            exp: "$1 + 1".to_string(),
            args: vec![Expression::Atomic(variable("x"))],
        }
    );
}

#[test]
fn empty_argument_list_is_empty_not_positional() {
    assert_eq!(FnCallArgs::parser(&[]).unwrap(), FnCallArgs::Empty);
    assert_ne!(FnCallArgs::parser(&[]).unwrap(), FnCallArgs::Positional(vec![]));
    let call = FnCallExpr::parser(&[ident("f"), Token::LParen, Token::RParen]).unwrap();
    assert_eq!(call.args, FnCallArgs::Empty);
    assert_eq!(FnCallArgs::default(), FnCallArgs::Empty);
}

#[test]
fn named_arguments() {
    // f(a => 1, b => 2)
    let tokens = vec![
        ident("f"),
        Token::LParen,
        ident("a"),
        Token::ArrowRight,
        Token::Decimal(1),
        Token::Comma,
        ident("b"),
        Token::ArrowRight,
        Token::Decimal(2),
        Token::RParen,
    ];
    assert_eq!(
        FnCallExpr::parser(&tokens).unwrap(),
        FnCallExpr {
            target: Ident::new("f"),
            args: FnCallArgs::Named(vec![
                NamedArg { name: Ident::new("a"), value: Expression::Atomic(AtomicExpr::ConstInt(1)) },
                NamedArg { name: Ident::new("b"), value: Expression::Atomic(AtomicExpr::ConstInt(2)) },
            ])
        }
    );
}

#[test]
fn mixed_argument_styles_are_rejected() {
    // f(a => 1, 2, 3)
    let named_first = vec![
        ident("f"),
        Token::LParen,
        ident("a"),
        Token::ArrowRight,
        Token::Decimal(1),
        Token::Comma,
        Token::Decimal(2),
        Token::Comma,
        Token::Decimal(3),
        Token::RParen,
    ];
    let err = FnCallExpr::parser(&named_first).unwrap_err();
    assert_eq!(err.position, 6);
    assert_eq!(err.expected, vec![TokenKind::Ident, TokenKind::RParen]);
    // f(1, a => 2)
    let positional_first = vec![
        ident("f"),
        Token::LParen,
        Token::Decimal(1),
        Token::Comma,
        ident("a"),
        Token::ArrowRight,
        Token::Decimal(2),
        Token::RParen,
    ];
    let err = FnCallExpr::parser(&positional_first).unwrap_err();
    assert_eq!(err.position, 5);
}

#[test]
fn trailing_comma_in_arguments() {
    let tokens = vec![ident("f"), Token::LParen, ident("x"), Token::Comma, Token::RParen];
    assert_eq!(
        FnCallExpr::parser(&tokens).unwrap(),
        FnCallExpr {
            target: Ident::new("f"),
            args: FnCallArgs::Positional(vec![Expression::Atomic(variable("x"))])
        }
    );
}

#[test]
fn failure_names_position_and_expected_kinds() {
    // x +
    let err = Expression::parser(&[ident("x"), Token::Add]).unwrap_err();
    assert_eq!(err.position, 2);
    assert!(err.expected.contains(&TokenKind::Ident));
    // tokens left over
    let err = AtomicExpr::parser(&[Token::Nil, Token::Nil]).unwrap_err();
    assert_eq!(err.position, 1);
    assert_eq!(err.expected, vec![TokenKind::EndOfInput]);
    // ( x
    let err = AtomicExpr::parser(&[Token::LParen, ident("x")]).unwrap_err();
    assert_eq!(err.position, 2);
    assert_eq!(err.expected, vec![TokenKind::RParen]);
}

#[test]
fn exit_codes_go_by_name() {
    let parse = |source: &str| {
        let tokens = austral_lib::lexer::tokens_only(austral_lib::lexer::lex(source).unwrap());
        Expression::parser(&tokens).unwrap()
    };
    assert_eq!(austral_lib::lowering::exit_code(&parse("ExitSuccess()")), Some(0));
    assert_eq!(austral_lib::lowering::exit_code(&parse("ExitFailure()")), Some(1));
    assert_eq!(austral_lib::lowering::exit_code(&parse("ExitFailure(3)")), Some(1));
    assert_eq!(austral_lib::lowering::exit_code(&parse("Exit()")), None);
    assert_eq!(austral_lib::lowering::exit_code(&parse("ExitSuccess")), None);
    assert_eq!(austral_lib::lowering::exit_code(&parse("0")), None);
    assert_eq!(austral_lib::lowering::exit_code(&parse("(ExitSuccess())")), None);
}
