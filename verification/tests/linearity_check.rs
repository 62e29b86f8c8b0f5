use austral_lib::common::{BorrowingMode, DeclId, Identifier, ModuleName, Mutability, QIdent};
use austral_lib::linearity_check::{
    check_expression, check_statement, check_var_in_expr, count, linearity_check, next_state,
    walk_statement, Appearances, LinearityErrorKind, Partitions, StateTable, VarState,
};
use austral_lib::span::{Span, SpanContext, SpanLocation};
use austral_lib::stages::{BorrowStmtKind, CaseRef, TExpr, TStmt, TypedBinding, TypedWhen, ValueParameter};
use austral_lib::ty::{IntegerWidth, Region, Signedness, Ty};

fn linear() -> Ty {
    Ty::SpanMut(Box::new(Ty::Boolean), Box::new(Ty::RegionTy(Region { id: 0 })))
}

fn int32() -> Ty {
    Ty::Integer(Signedness::Signed, IntegerWidth::Width32)
}

fn var(name: &str) -> Box<TExpr> {
    Box::new(TExpr::TLocalVar(Identifier::new(name), linear()))
}

fn zero() -> Box<TExpr> {
    Box::new(TExpr::TIntConstant("0".to_string()))
}

fn qident(name: &str) -> QIdent {
    QIdent {
        source: ModuleName("Test".to_string()),
        original: Identifier::new(name),
        local: Identifier::new(name),
    }
}

fn call(name: &str, args: Vec<Box<TExpr>>) -> Box<TExpr> {
    Box::new(TExpr::TFuncall(DeclId(1), qident(name), args, Ty::Unit))
}

fn at(line: usize) -> Span {
    Span {
        context: SpanContext { path: None },
        range: SpanLocation { line, column: 1 }..SpanLocation { line, column: 9 },
    }
}

fn consume(name: &str, line: usize) -> Box<TStmt> {
    Box::new(TStmt::TDiscarding(at(line), call("consume", vec![var(name)])))
}

fn seq(first: Box<TStmt>, second: Box<TStmt>) -> Box<TStmt> {
    Box::new(TStmt::TBlock(Span::default(), first, second))
}

fn ret0(line: usize) -> Box<TStmt> {
    Box::new(TStmt::TReturn(at(line), zero()))
}

fn param(name: &str) -> Vec<ValueParameter> {
    vec![ValueParameter { name: Identifier::new(name), ty: linear() }]
}

#[test]
fn test_let() {
    let mut state_table = StateTable::new();
    let stmt = TStmt::TLet(
        Span::default(),
        Identifier::new("x"),
        Box::new(TExpr::TIntConstant("1".to_string())),
        Mutability::Immutable,
        Ty::SpanMut(Box::new(Ty::Boolean), Box::new(Ty::Boolean)),
        Box::new(TStmt::TReturn(
            Span::default(),
            Box::new(TExpr::TIntConstant("1".to_string())),
        )),
    );
    let result = check_statement(&mut state_table, &stmt, 0);
    assert!(!result);
}

#[test]
fn test_let_and_consumed() {
    let mut state_table = StateTable::new();
    let stmt = TStmt::TLet(
        Span::default(),
        Identifier::new("x"),
        Box::new(TExpr::TIntConstant("1".to_string())),
        Mutability::Immutable,
        Ty::SpanMut(Box::new(Ty::Boolean), Box::new(Ty::Boolean)),
        Box::new(TStmt::TReturn(
            Span::default(),
            Box::new(TExpr::TLocalVar(Identifier(String::from("x")), Ty::Boolean)),
        )),
    );
    let result = check_statement(&mut state_table, &stmt, 0);
    assert!(result);
}

#[test]
fn redeclared_name_hides_the_outer_variable() {
    let mut state_table = StateTable::new();
    state_table.insert(Identifier(String::from("x")), 0_i32, VarState::default());
    state_table.insert(Identifier(String::from("y")), 0_i32, VarState::default());
    let stmt = TStmt::TLet(
        Span::default(),
        Identifier::new("x"),
        Box::new(TExpr::TIntConstant("1".to_string())),
        Mutability::Immutable,
        Ty::SpanMut(Box::new(Ty::Boolean), Box::new(Ty::Boolean)),
        Box::new(TStmt::TSkip(Span::default())),
    );
    // the inner x is dropped at the end of its scope
    assert!(!check_statement(&mut state_table, &stmt, 0));
    assert_eq!(state_table.len(), 2);
    assert_eq!(state_table.get(&Identifier::new("x")), Some((0, VarState::Unconsumed)));
}

#[test]
fn linear_consumption_is_accepted() {
    // function f(x : R) : ExitCode is let y : R := x; consume(y); return 0; end;
    let body = TStmt::TLet(
        at(1),
        Identifier::new("y"),
        Box::new(TExpr::TParamVar(Identifier::new("x"), linear())),
        Mutability::Immutable,
        linear(),
        seq(consume("y", 2), ret0(3)),
    );
    assert!(linearity_check(&param("x"), &body).is_ok());
}

#[test]
fn double_consumption_is_use_after_consume() {
    // consume(x); consume(x); return 0;
    let body = seq(consume("x", 1), seq(consume("x", 2), ret0(3)));
    let err = linearity_check(&param("x"), &body).unwrap_err();
    assert_eq!(err.kind, LinearityErrorKind::UseAfterConsume);
    assert_eq!(err.name, Identifier::new("x"));
    assert_eq!(err.span.start(), SpanLocation { line: 2, column: 1 });
    assert_eq!(err.message(), "x used after consume");
}

#[test]
fn branch_state_divergence_is_rejected() {
    // if c then is consume(x); end else is end if; return 0;
    let body = seq(
        Box::new(TStmt::TIf(
            at(1),
            Box::new(TExpr::TBoolConstant(true)),
            consume("x", 2),
            Box::new(TStmt::TSkip(at(3))),
        )),
        ret0(4),
    );
    let err = linearity_check(&param("x"), &body).unwrap_err();
    assert_eq!(err.kind, LinearityErrorKind::BranchStateMismatch);
    assert_eq!(err.span.start().line, 1);
}

#[test]
fn consuming_while_borrowed_is_a_borrow_conflict() {
    // borrow y : &[R, rho] := &x is consume(x); end
    let body = TStmt::TBorrow {
        span: at(1),
        original: Identifier::new("x"),
        rename: Identifier::new("y"),
        region: Identifier::new("rho"),
        orig_type: linear(),
        ref_type: Ty::ReadRef(Box::new(linear()), Box::new(Ty::RegionTy(Region { id: 1 }))),
        body: consume("x", 2),
        mode: BorrowStmtKind::Read,
    };
    let err = linearity_check(&param("x"), &body).unwrap_err();
    assert_eq!(err.kind, LinearityErrorKind::BorrowConflict);
    assert_eq!(err.message(), "borrow alias of x conflicts with live write borrow");
}

#[test]
fn borrowed_variable_is_unconsumed_again_after_the_borrow() {
    let mut table = StateTable::new();
    table.insert(Identifier::new("x"), 0, VarState::Unconsumed);
    let borrow = TStmt::TBorrow {
        span: at(1),
        original: Identifier::new("x"),
        rename: Identifier::new("y"),
        region: Identifier::new("rho"),
        orig_type: linear(),
        ref_type: Ty::ReadRef(Box::new(linear()), Box::new(Ty::RegionTy(Region { id: 1 }))),
        body: Box::new(TStmt::TDiscarding(
            at(2),
            call("peek", vec![Box::new(TExpr::TLocalVar(Identifier::new("y"), int32()))]),
        )),
        mode: BorrowStmtKind::Read,
    };
    assert!(check_statement(&mut table, &borrow, 0));
    assert_eq!(table.get(&Identifier::new("x")), Some((0, VarState::Unconsumed)));
    assert_eq!(table.get(&Identifier::new("y")), None);
    // and can then be consumed
    assert!(check_statement(&mut table, &consume("x", 3), 0));
    assert_eq!(table.get(&Identifier::new("x")), Some((0, VarState::Consumed)));
}

#[test]
fn write_reference_must_be_consumed_in_the_borrow() {
    let borrow = |body: Box<TStmt>| TStmt::TBorrow {
        span: at(1),
        original: Identifier::new("x"),
        rename: Identifier::new("y"),
        region: Identifier::new("rho"),
        orig_type: linear(),
        ref_type: Ty::WriteRef(Box::new(linear()), Box::new(Ty::RegionTy(Region { id: 1 }))),
        body,
        mode: BorrowStmtKind::Write,
    };
    let mut table = StateTable::new();
    table.insert(Identifier::new("x"), 0, VarState::Unconsumed);
    assert!(!check_statement(&mut table, &borrow(Box::new(TStmt::TSkip(at(2)))), 0));
    assert!(check_statement(&mut table, &borrow(consume("y", 2)), 0));
}

#[test]
fn return_in_both_branches_is_accepted_whatever_the_states() {
    // if c then is consume(x); return 0; end else is consume(x); consume(y); return 0; end if;
    let stmt = TStmt::TLet(
        at(1),
        Identifier::new("y"),
        zero(),
        Mutability::Immutable,
        linear(),
        Box::new(TStmt::TIf(
            at(2),
            Box::new(TExpr::TBoolConstant(true)),
            seq(consume("x", 3), seq(consume("y", 4), ret0(5))),
            seq(consume("y", 6), seq(consume("x", 7), ret0(8))),
        )),
    );
    assert!(linearity_check(&param("x"), &stmt).is_ok());
    // a branch that returns does not take part in the comparison
    let mut table = StateTable::new();
    table.insert(Identifier::new("x"), 0, VarState::Unconsumed);
    let one_returns = TStmt::TIf(
        at(1),
        Box::new(TExpr::TBoolConstant(true)),
        seq(consume("x", 2), ret0(3)),
        Box::new(TStmt::TSkip(at(4))),
    );
    assert!(check_statement(&mut table, &one_returns, 0));
    assert_eq!(table.get(&Identifier::new("x")), Some((0, VarState::Unconsumed)));
}

#[test]
fn for_loop_with_any_bounds_is_checked_like_any_other() {
    // for i from 10 to 0 do is end for; consume(x); return 0;
    let body = seq(
        Box::new(TStmt::TFor(
            at(1),
            Identifier::new("i"),
            Box::new(TExpr::TIntConstant("10".to_string())),
            Box::new(TExpr::TIntConstant("0".to_string())),
            Box::new(TStmt::TSkip(at(2))),
        )),
        seq(consume("x", 3), ret0(4)),
    );
    assert!(linearity_check(&param("x"), &body).is_ok());
}

#[test]
fn loops_must_leave_the_states_as_they_found_them() {
    let consuming_body = |span| TStmt::TWhile(span, Box::new(TExpr::TBoolConstant(true)), consume("x", 2));
    let err = linearity_check(&param("x"), &seq(Box::new(consuming_body(at(1))), ret0(3))).unwrap_err();
    assert_eq!(err.kind, LinearityErrorKind::LoopStateMismatch);
    let for_loop = TStmt::TFor(at(1), Identifier::new("i"), zero(), zero(), consume("x", 2));
    let err = linearity_check(&param("x"), &seq(Box::new(for_loop), ret0(3))).unwrap_err();
    assert_eq!(err.kind, LinearityErrorKind::LoopStateMismatch);
    // a variable declared and consumed inside the body is fine
    let inner = TStmt::TWhile(
        at(1),
        Box::new(TExpr::TBoolConstant(true)),
        Box::new(TStmt::TLet(at(2), Identifier::new("t"), zero(), Mutability::Immutable, linear(), consume("t", 3))),
    );
    assert!(linearity_check(&vec![], &seq(Box::new(inner), ret0(4))).is_ok());
}

#[test]
fn unconsumed_on_return() {
    let err = linearity_check(&param("x"), &ret0(1)).unwrap_err();
    assert_eq!(err.kind, LinearityErrorKind::UnconsumedOnReturn);
    assert_eq!(err.message(), "linear value x dropped without consumption");
    // falling off the end of the body without consuming is the same
    let err = linearity_check(&param("x"), &TStmt::TSkip(at(1))).unwrap_err();
    assert_eq!(err.kind, LinearityErrorKind::UnconsumedOnReturn);
}

#[test]
fn multiple_uses_in_one_expression() {
    let body = seq(
        Box::new(TStmt::TDiscarding(at(1), call("pair", vec![var("x"), var("x")]))),
        ret0(2),
    );
    let err = linearity_check(&param("x"), &body).unwrap_err();
    assert_eq!(err.kind, LinearityErrorKind::MultipleConsumption);
}

#[test]
fn case_branches_must_agree() {
    let when = |name: &str, body: Box<TStmt>| TypedWhen(Identifier::new(name), vec![], body);
    let agree = TStmt::TCase(
        at(1),
        zero(),
        vec![when("A", consume("x", 2)), when("B", consume("x", 3))],
        CaseRef::CasePlain,
    );
    assert!(linearity_check(&param("x"), &seq(Box::new(agree), ret0(4))).is_ok());
    let differ = TStmt::TCase(
        at(1),
        zero(),
        vec![when("A", consume("x", 2)), when("B", Box::new(TStmt::TSkip(at(3))))],
        CaseRef::CasePlain,
    );
    let err = linearity_check(&param("x"), &seq(Box::new(differ), ret0(4))).unwrap_err();
    assert_eq!(err.kind, LinearityErrorKind::BranchStateMismatch);
    // a linear binding of a clause lives in that clause only
    let binds = TStmt::TCase(
        at(1),
        zero(),
        vec![TypedWhen(
            Identifier::new("A"),
            vec![TypedBinding { name: Identifier::new("v"), ty: linear(), rename: Identifier::new("w") }],
            consume("w", 2),
        )],
        CaseRef::CasePlain,
    );
    assert!(linearity_check(&vec![], &seq(Box::new(binds), ret0(3))).is_ok());
}

#[test]
fn counting_appearances() {
    let x = Identifier::new("x");
    let apps = count(&x, &call("f", vec![var("x"), var("y"), var("x")]));
    assert_eq!((apps.consumed, apps.read, apps.write, apps.path), (2, 0, 0, 0));
    let read = TExpr::TBorrowExpr(BorrowingMode::ReadBorrow, Identifier::new("x"), Region { id: 0 }, int32());
    let apps = count(&x, &read);
    assert_eq!((apps.consumed, apps.read, apps.write, apps.path), (0, 1, 0, 0));
    let write = TExpr::TBorrowExpr(BorrowingMode::WriteBorrow, Identifier::new("x"), Region { id: 0 }, int32());
    let apps = count(&x, &write);
    assert_eq!((apps.consumed, apps.read, apps.write, apps.path), (0, 0, 1, 0));
    let slot = TExpr::TSlotAccessor(var("x"), Identifier::new("f"), int32());
    let apps = count(&x, &slot);
    assert_eq!((apps.consumed, apps.read, apps.write, apps.path), (0, 0, 0, 1));
    let index = TExpr::TArrayIndex(var("a"), var("x"), int32());
    let apps = count(&x, &index);
    assert_eq!((apps.consumed, apps.read, apps.write, apps.path), (1, 0, 0, 0));
    let ref_path = TExpr::TRefPath(Box::new(slot_of("x")), int32());
    let apps = count(&x, &ref_path);
    assert_eq!((apps.consumed, apps.read, apps.write, apps.path), (0, 1, 0, 0));
}

fn slot_of(name: &str) -> TExpr {
    TExpr::TSlotAccessor(var(name), Identifier::new("f"), int32())
}

#[test]
fn transition_table() {
    let apps = |consumed, read, write, path| Appearances { consumed, read, write, path };
    assert_eq!(next_state(VarState::Unconsumed, &apps(1, 0, 0, 0)), Ok(VarState::Consumed));
    assert_eq!(next_state(VarState::Unconsumed, &apps(0, 0, 0, 0)), Ok(VarState::Unconsumed));
    assert_eq!(next_state(VarState::Unconsumed, &apps(0, 2, 0, 1)), Ok(VarState::Unconsumed));
    assert_eq!(next_state(VarState::Unconsumed, &apps(0, 0, 1, 3)), Ok(VarState::Unconsumed));
    assert_eq!(next_state(VarState::Unconsumed, &apps(0, 0, 0, 2)), Ok(VarState::Unconsumed));
    assert_eq!(next_state(VarState::Unconsumed, &apps(2, 0, 0, 0)), Err(LinearityErrorKind::MultipleConsumption));
    assert_eq!(next_state(VarState::Unconsumed, &apps(1, 0, 0, 1)), Err(LinearityErrorKind::MultipleConsumption));
    assert_eq!(next_state(VarState::Unconsumed, &apps(0, 1, 1, 0)), Err(LinearityErrorKind::BorrowConflict));
    assert_eq!(next_state(VarState::BorrowedRead, &apps(0, 3, 0, 2)), Ok(VarState::BorrowedRead));
    assert_eq!(next_state(VarState::BorrowedRead, &apps(1, 0, 0, 0)), Err(LinearityErrorKind::BorrowConflict));
    assert_eq!(next_state(VarState::BorrowedRead, &apps(0, 0, 1, 0)), Err(LinearityErrorKind::BorrowConflict));
    assert_eq!(next_state(VarState::BorrowedWrite, &apps(0, 0, 0, 5)), Ok(VarState::BorrowedWrite));
    assert_eq!(next_state(VarState::BorrowedWrite, &apps(0, 1, 0, 0)), Err(LinearityErrorKind::BorrowConflict));
    assert_eq!(next_state(VarState::BorrowedWrite, &apps(0, 0, 1, 0)), Err(LinearityErrorKind::BorrowConflict));
    assert_eq!(next_state(VarState::Consumed, &apps(0, 0, 0, 0)), Ok(VarState::Consumed));
    assert_eq!(next_state(VarState::Consumed, &apps(0, 0, 0, 1)), Err(LinearityErrorKind::UseAfterConsume));
    assert_eq!(next_state(VarState::Consumed, &apps(1, 0, 0, 0)), Err(LinearityErrorKind::UseAfterConsume));
}

#[test]
fn partitions() {
    assert_eq!(Partitions::partition(0), Partitions::Zero);
    assert_eq!(Partitions::partition(1), Partitions::One);
    assert_eq!(Partitions::partition(2), Partitions::MoreThanOne);
    assert_eq!(Partitions::partition(i32::MAX), Partitions::MoreThanOne);
}

#[test]
fn checking_an_expression_changes_the_table_only_when_it_is_accepted() {
    let mut table = StateTable::new();
    table.insert(Identifier::new("x"), 0, VarState::Consumed);
    table.insert(Identifier::new("y"), 0, VarState::Unconsumed);
    // y is consumed, but x is used after it was consumed
    assert!(!check_expression(&mut table, 0, &call("f", vec![var("y"), var("x")])));
    assert_eq!(table.get(&Identifier::new("y")), Some((0, VarState::Unconsumed)));
    assert!(check_expression(&mut table, 0, &call("f", vec![var("y")])));
    assert_eq!(table.get(&Identifier::new("y")), Some((0, VarState::Consumed)));
    let fault = check_var_in_expr(&mut table, 1, &var("y")).unwrap_err();
    assert_eq!(fault.0, LinearityErrorKind::UseAfterConsume);
}

#[test]
fn walking_a_statement_gives_the_table_after_it() {
    let mut table = StateTable::new();
    table.insert(Identifier::new("x"), 0, VarState::Unconsumed);
    let after = walk_statement(table.clone(), &consume("x", 1), 0).unwrap().unwrap();
    assert_eq!(after.get(&Identifier::new("x")), Some((0, VarState::Consumed)));
    assert!(walk_statement(after, &ret0(2), 0).unwrap().is_none());
    assert_eq!(VarState::Unconsumed.describe(), "not yet consumed");
    assert_eq!(VarState::BorrowedRead.describe(), "borrowed (read-only)");
    assert_eq!(VarState::BorrowedWrite.describe(), "borrowed (read-write)");
    assert_eq!(VarState::Consumed.describe(), "consumed");
}

#[test]
fn after_a_return_every_variable_of_the_table_is_consumed() {
    // table {x: unconsumed}; if true then is return x; end else is return x; end if;
    let returns_x = || Box::new(TStmt::TReturn(Span::default(), var("x")));
    let stmt = TStmt::TIf(
        Span::default(),
        Box::new(TExpr::TBoolConstant(true)),
        returns_x(),
        returns_x(),
    );
    let mut table = StateTable::new();
    table.insert(Identifier::new("x"), 0, VarState::Unconsumed);
    assert!(check_statement(&mut table, &stmt, 0));
    assert_eq!(table.len(), 1);
    assert_eq!(table.get(&Identifier::new("x")), Some((0, VarState::Consumed)));
    // a statement that breaks a rule leaves the table as it was
    let mut table = StateTable::new();
    table.insert(Identifier::new("x"), 0, VarState::Unconsumed);
    assert!(!check_statement(&mut table, &ret0(1), 0));
    assert_eq!(table.get(&Identifier::new("x")), Some((0, VarState::Unconsumed)));
    // a variable declared inside what returns is not in the table afterwards
    let mut table = StateTable::new();
    table.insert(Identifier::new("x"), 0, VarState::Unconsumed);
    let inner = TStmt::TLet(
        at(1),
        Identifier::new("y"),
        zero(),
        Mutability::Immutable,
        linear(),
        seq(consume("y", 2), Box::new(TStmt::TReturn(at(3), var("x")))),
    );
    assert!(check_statement(&mut table, &inner, 0));
    assert_eq!(table.len(), 1);
    assert_eq!(table.get(&Identifier::new("x")), Some((0, VarState::Consumed)));
}
