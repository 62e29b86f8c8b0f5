use austral_lib::ast::{
    AssignStmt, AtomicExpr, Binding, BorrowMode, BorrowMutMode, BorrowStmt, CaseStmt, CaseWhen,
    Expression, ForStmt, Ident, IfStmt, LetStmt, LetStmtTarget, PathExpr, Statement, TypeSpec,
    WhileStmt,
};
use austral_lib::lexer::{lex, tokens_only, Token};

fn ident(name: &str) -> Token {
    Token::Ident(name.to_string())
}

fn variable(name: &str) -> Expression {
    Expression::Atomic(AtomicExpr::Path(PathExpr { first: Ident::new(name), extra: vec![] }))
}

fn statement(source: &str) -> Statement {
    let tokens = tokens_only(lex(source).unwrap());
    Statement::parser(&tokens).unwrap()
}

#[test]
fn test_assign_stmt() {
    let input = vec![ident("foo"), Token::Assign, ident("bar"), Token::Semi];

    let expected = Statement::Assign(AssignStmt {
        target: PathExpr { first: Ident::new("foo"), extra: vec![] },
        value: Expression::Atomic(AtomicExpr::Path(PathExpr {
            first: Ident::new("bar"),
            extra: vec![],
        })),
    });

    let actual = Statement::parser(&input).unwrap();

    assert_eq!(actual, expected);
}

#[test]
fn test_return_stmt() {
    let input = vec![Token::Return, ident("foo"), Token::Semi];

    let expected = Statement::Return(Expression::Atomic(AtomicExpr::Path(PathExpr {
        first: Ident::new("foo"),
        extra: vec![],
    })));

    let actual = Statement::parser(&input).unwrap();

    assert_eq!(actual, expected);
}

#[test]
fn test_discard_stmt() {
    let input = vec![ident("foo"), Token::Semi];

    let expected = Statement::Discard(Expression::Atomic(AtomicExpr::Path(PathExpr {
        first: Ident::new("foo"),
        extra: vec![],
    })));

    let actual = Statement::parser(&input).unwrap();

    assert_eq!(actual, expected);
}

#[test]
fn test_let_stmt() {
    let input = vec![
        Token::Let,
        ident("foo"),
        Token::Colon,
        ident("bar"),
        Token::Assign,
        ident("baz"),
        Token::Semi,
    ];

    let expected = Statement::Let(LetStmt {
        is_mutable: false,
        target: LetStmtTarget::Simple {
            name: Ident::new("foo"),
            ty: TypeSpec::Simple { name: Ident::new("bar") },
        },
        value: Expression::Atomic(AtomicExpr::Path(PathExpr {
            first: Ident::new("baz"),
            extra: vec![],
        })),
    });

    let actual = Statement::parser(&input).unwrap();

    assert_eq!(actual, expected);
}

#[test]
fn var_and_destructuring() {
    assert_eq!(
        statement("var n : Int32 := 0;"),
        Statement::Let(LetStmt {
            is_mutable: true,
            target: LetStmtTarget::Simple {
                name: Ident::new("n"),
                ty: TypeSpec::Simple { name: Ident::new("Int32") }
            },
            value: Expression::Atomic(AtomicExpr::ConstInt(0)),
        })
    );
    assert_eq!(
        statement("let {a : T, b as c : U} := r;"),
        Statement::Let(LetStmt {
            is_mutable: false,
            target: LetStmtTarget::Destructure(vec![
                Binding {
                    name: Ident::new("a"),
                    rename: None,
                    ty: TypeSpec::Simple { name: Ident::new("T") }
                },
                Binding {
                    name: Ident::new("b"),
                    rename: Some(Ident::new("c")),
                    ty: TypeSpec::Simple { name: Ident::new("U") }
                },
            ]),
            value: variable("r"),
        })
    );
}

#[test]
fn if_statement_with_and_without_else() {
    assert_eq!(
        statement("if c then is x; end if;"),
        Statement::If(IfStmt {
            value: variable("c"),
            contents: vec![Statement::Discard(variable("x"))],
            otherwise: None,
        })
    );
    assert_eq!(
        statement("if c then is consume(x); end else is end if;"),
        Statement::If(IfStmt {
            value: variable("c"),
            contents: vec![statement("consume(x);")],
            otherwise: Some(vec![]),
        })
    );
}

#[test]
fn while_for_and_case() {
    assert_eq!(
        statement("while c do is x; end while;"),
        Statement::While(WhileStmt {
            value: variable("c"),
            contents: vec![Statement::Discard(variable("x"))],
        })
    );
    assert_eq!(
        statement("for i from a to b do is end for;"),
        Statement::For(ForStmt {
            name: Ident::new("i"),
            start: variable("a"),
            end: variable("b"),
            contents: vec![],
        })
    );
    assert_eq!(
        statement("case o of when Some value : T do is return value; end when None do is return d; end end case;"),
        Statement::Case(CaseStmt {
            value: variable("o"),
            variants: vec![
                CaseWhen {
                    ident: Ident::new("Some"),
                    bindings: vec![Binding {
                        name: Ident::new("value"),
                        rename: None,
                        ty: TypeSpec::Simple { name: Ident::new("T") }
                    }],
                    block: vec![Statement::Return(variable("value"))],
                },
                CaseWhen {
                    ident: Ident::new("None"),
                    bindings: vec![],
                    block: vec![Statement::Return(variable("d"))],
                },
            ],
        })
    );
}

#[test]
fn borrow_statement() {
    assert_eq!(
        statement("borrow y : &[R, rho] := &x is consume(y); end"),
        Statement::Borrow(BorrowStmt {
            name: Ident::new("y"),
            mut_mode: BorrowMutMode::Read,
            ty: TypeSpec::Simple { name: Ident::new("R") },
            reg: Ident::new("rho"),
            mode: BorrowMode::Read,
            orig: Ident::new("x"),
            body: vec![statement("consume(y);")],
        })
    );
    match statement("borrow y : &![R, rho] := &~x is end") {
        Statement::Borrow(b) => {
            assert_eq!(b.mut_mode, BorrowMutMode::Write);
            assert_eq!(b.mode, BorrowMode::ReBorrow);
        }
        _ => panic!("not a borrow statement"),
    }
}

#[test]
fn failure_inside_a_block_is_reported_where_it_is() {
    // the second statement of the body lacks its operand
    let tokens = tokens_only(lex("while c do is x; y + ; end while;").unwrap());
    let err = Statement::parser(&tokens).unwrap_err();
    assert_eq!(err.position, 8);
}
