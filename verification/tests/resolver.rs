use austral_lib::ast::{Expression, ModuleDecl, ModuleDef, Statement};
use austral_lib::common::{ArithmeticOperator, Identifier, ModuleName, Mutability};
use austral_lib::lexer::{lex, tokens_only, Token};
use austral_lib::linearity_check::{linearity_check_module, LinearityErrorKind};
use austral_lib::resolver::modules::{environment, type_check};
use austral_lib::resolver::statements::{type_block, type_statement};
use austral_lib::render::decimal_text;
use austral_lib::resolver::type_expression;
use austral_lib::span::Span;
use austral_lib::stages::{BorrowStmtKind, TExpr, TStmt};
use austral_lib::ty::{IntegerWidth, Region, Signedness, Ty, TypeVariable, Universe};
use austral_lib::type_system::substitute;
use austral_lib::type_check::{TypeError, TypeErrorKind};
use austral_lib::type_env::{Env, Scope, TypedModule, Variable, VariableKind};

fn tokens(source: &str) -> Vec<Token> {
    tokens_only(lex(source).unwrap())
}

fn body(source: &str) -> ModuleDef {
    ModuleDef::parser(&tokens(source)).unwrap()
}

fn interface(source: &str) -> ModuleDecl {
    ModuleDecl::parser(&tokens(source)).unwrap()
}

fn check(source: &str) -> Result<TypedModule, TypeError> {
    type_check(&body(source), &vec![])
}

fn kind_of(source: &str) -> TypeErrorKind {
    check(source).unwrap_err().kind
}

fn int32() -> Ty {
    Ty::Integer(Signedness::Signed, IntegerWidth::Width32)
}

fn int64() -> Ty {
    Ty::Integer(Signedness::Signed, IntegerWidth::Width64)
}

fn empty_env() -> Env {
    Env {
        module: ModuleName("M".to_string()),
        types: vec![],
        records: vec![],
        unions: vec![],
        constants: vec![],
        functions: vec![],
        methods: vec![],
        instances: vec![],
    }
}

fn local(name: &str, ty: Ty, mutability: Mutability) -> Variable {
    Variable { name: Identifier::new(name), ty, mutability, kind: VariableKind::Local }
}

fn scope(variables: Vec<Variable>, ret: Ty) -> Scope {
    Scope { types: vec![], variables, regions: vec![], ret }
}

fn expression(source: &str) -> Expression {
    Expression::parser(&tokens(source)).unwrap()
}

fn statement(source: &str) -> Statement {
    Statement::parser(&tokens(source)).unwrap()
}

#[test]
fn a_function_is_typed_with_its_parameters_in_scope() {
    let typed = check(
        "module body M is
            function add(a : Int32, b : Int32) : Int32 is
                let c : Int32 := a + b;
                return c;
            end;",
    )
    .unwrap();
    assert_eq!(typed.name, Identifier::new("M"));
    assert_eq!(typed.functions.len(), 1);
    let f = &typed.functions[0];
    assert_eq!(f.name, Identifier::new("add"));
    assert_eq!(f.params.len(), 2);
    assert!(f.ret.equals(&int32()));
    match &f.body {
        TStmt::TLet(_, name, value, Mutability::Immutable, ty, rest) => {
            assert_eq!(name, &Identifier::new("c"));
            assert!(ty.equals(&int32()));
            match &**value {
                TExpr::TArithmetic(ArithmeticOperator::Add, a, b) => {
                    assert!(matches!(&**a, TExpr::TParamVar(n, _) if n == &Identifier::new("a")));
                    assert!(matches!(&**b, TExpr::TParamVar(n, _) if n == &Identifier::new("b")));
                }
                other => panic!("not a sum: {:?}", other),
            }
            match &**rest {
                TStmt::TReturn(_, e) => {
                    assert!(matches!(&**e, TExpr::TLocalVar(n, _) if n == &Identifier::new("c")))
                }
                other => panic!("not a return: {:?}", other),
            }
        }
        other => panic!("not a let: {:?}", other),
    }
    assert_eq!(typed.exports.len(), 1);
    assert_eq!(typed.exports[0].name, Identifier::new("add"));
    assert!(typed.exports[0].ty.equals(&Ty::FnPtr(vec![int32(), int32()], Box::new(int32()))));
}

#[test]
fn a_literal_takes_the_type_it_is_asked_for() {
    let env = empty_env();
    let s = scope(vec![], Ty::Unit);
    let (e, t) = type_expression(&env, &s, &expression("1"), Some(&int64())).unwrap();
    assert!(t.equals(&int64()));
    match e {
        TExpr::TCast(inner, ty) => {
            assert!(ty.equals(&int64()));
            assert!(matches!(*inner, TExpr::TIntConstant(ref text) if text == "1"));
        }
        other => panic!("not retyped: {:?}", other),
    }
    let (e, t) = type_expression(&env, &s, &expression("1"), None).unwrap();
    assert!(t.equals(&int32()));
    assert!(matches!(e, TExpr::TIntConstant(ref text) if text == "1"));
    let (_, t) = type_expression(&env, &s, &expression("1.5"), None).unwrap();
    assert!(t.equals(&Ty::DoubleFloat));
    let (_, t) = type_expression(&env, &s, &expression("nil"), None).unwrap();
    assert!(t.equals(&Ty::Unit));
    let (_, t) = type_expression(&env, &s, &expression("true"), None).unwrap();
    assert!(t.equals(&Ty::Boolean));
    let (_, t) = type_expression(&env, &s, &expression("'a'"), None).unwrap();
    assert!(t.equals(&Ty::Integer(Signedness::Unsigned, IntegerWidth::Width8)));
}

#[test]
fn let_retypes_its_literal() {
    let typed = check(
        "module body M is
            function f() : Int64 is
                let x : Int64 := 1;
                return x;
            end;",
    )
    .unwrap();
    match &typed.functions[0].body {
        TStmt::TLet(_, _, value, _, ty, _) => {
            assert!(ty.equals(&int64()));
            assert!(matches!(&**value, TExpr::TCast(_, t) if t.equals(&int64())));
        }
        other => panic!("not a let: {:?}", other),
    }
}

#[test]
fn decimal_text_of_numbers() {
    assert_eq!(decimal_text(0), "0");
    assert_eq!(decimal_text(7), "7");
    assert_eq!(decimal_text(1234567890), "1234567890");
    assert_eq!(decimal_text(u64::MAX), "18446744073709551615");
}

#[test]
fn operators_ask_for_one_type_on_both_sides() {
    let env = empty_env();
    let s = scope(
        vec![
            local("a", int32(), Mutability::Immutable),
            local("b", int64(), Mutability::Immutable),
            local("c", Ty::Boolean, Mutability::Immutable),
        ],
        Ty::Unit,
    );
    let (_, t) = type_expression(&env, &s, &expression("a + a"), None).unwrap();
    assert!(t.equals(&int32()));
    let (_, t) = type_expression(&env, &s, &expression("a < a"), None).unwrap();
    assert!(t.equals(&Ty::Boolean));
    let (_, t) = type_expression(&env, &s, &expression("c and c"), None).unwrap();
    assert!(t.equals(&Ty::Boolean));
    let (_, t) = type_expression(&env, &s, &expression("not c"), None).unwrap();
    assert!(t.equals(&Ty::Boolean));
    assert_eq!(
        type_expression(&env, &s, &expression("a + b"), None).unwrap_err(),
        TypeErrorKind::TypeMismatch
    );
    assert_eq!(
        type_expression(&env, &s, &expression("a and c"), None).unwrap_err(),
        TypeErrorKind::TypeMismatch
    );
    assert_eq!(
        type_expression(&env, &s, &expression("c < c"), None).unwrap_err(),
        TypeErrorKind::TypeMismatch
    );
    assert_eq!(
        type_expression(&env, &s, &expression("d"), None).unwrap_err(),
        TypeErrorKind::UndefinedSymbol
    );
    // a literal beside a variable takes the variable's type
    let (_, t) = type_expression(&env, &s, &expression("b + 1"), None).unwrap();
    assert!(t.equals(&int64()));
}

#[test]
fn casts_between_numbers_only() {
    let env = empty_env();
    let s = scope(
        vec![local("a", int32(), Mutability::Immutable), local("c", Ty::Boolean, Mutability::Immutable)],
        Ty::Unit,
    );
    let (e, t) = type_expression(&env, &s, &expression("a : Int64"), None).unwrap();
    assert!(t.equals(&int64()));
    assert!(matches!(e, TExpr::TCast(_, _)));
    let (_, t) = type_expression(&env, &s, &expression("a : Float64"), None).unwrap();
    assert!(t.equals(&Ty::DoubleFloat));
    assert_eq!(
        type_expression(&env, &s, &expression("c : Int64"), None).unwrap_err(),
        TypeErrorKind::BadCast
    );
}

#[test]
fn sizeof_is_a_size() {
    let env = empty_env();
    let s = scope(vec![], Ty::Unit);
    let (e, t) = type_expression(&env, &s, &expression("sizeof(Int32)"), None).unwrap();
    assert!(t.equals(&Ty::Integer(Signedness::Unsigned, IntegerWidth::WidthByteSize)));
    assert!(matches!(e, TExpr::TSizeOf(ref ty) if ty.equals(&int32())));
}

#[test]
fn return_must_be_of_the_type_the_function_returns() {
    assert_eq!(
        kind_of("module body M is function f() : Bool is return 1; end;"),
        TypeErrorKind::TypeMismatch
    );
    assert!(check("module body M is function f() : Bool is return true; end;").is_ok());
    assert!(check("module body M is function f() : Nat8 is return 200; end;").is_ok());
}

#[test]
fn only_var_can_be_assigned() {
    assert!(check(
        "module body M is
            function f() : Int32 is
                var x : Int32 := 1;
                x := 2;
                return x;
            end;"
    )
    .is_ok());
    assert_eq!(
        kind_of(
            "module body M is
                function f() : Int32 is
                    let x : Int32 := 1;
                    x := 2;
                    return x;
                end;"
        ),
        TypeErrorKind::TypeMismatch
    );
    assert_eq!(
        kind_of(
            "module body M is
                function f() : Int32 is
                    var x : Int32 := 1;
                    x := true;
                    return x;
                end;"
        ),
        TypeErrorKind::TypeMismatch
    );
}

#[test]
fn a_let_is_in_scope_in_what_follows_it_only() {
    assert_eq!(
        kind_of(
            "module body M is
                function f(c : Bool) : Int32 is
                    if c then is
                        let x : Int32 := 1;
                    end if;
                    return x;
                end;"
        ),
        TypeErrorKind::UndefinedSymbol
    );
    let env = empty_env();
    let s = scope(vec![], int32());
    let stmts = vec![statement("let x : Int32 := 1;"), statement("x;"), statement("return x;")];
    match type_block(&env, &s, &stmts, 0).unwrap() {
        TStmt::TLet(_, _, _, _, _, rest) => match *rest {
            TStmt::TBlock(_, first, second) => {
                assert!(matches!(*first, TStmt::TDiscarding(_, _)));
                assert!(matches!(*second, TStmt::TReturn(_, _)));
            }
            other => panic!("not a block: {:?}", other),
        },
        other => panic!("not a let: {:?}", other),
    }
    assert!(matches!(type_block(&env, &s, &stmts, 3).unwrap(), TStmt::TSkip(_)));
    assert!(matches!(type_block(&env, &s, &vec![], 0).unwrap(), TStmt::TSkip(_)));
    // from the second statement on, the variable has not been bound
    assert_eq!(type_block(&env, &s, &stmts, 1).unwrap_err(), TypeErrorKind::UndefinedSymbol);
}

#[test]
fn conditions_are_boolean() {
    let env = empty_env();
    let s = scope(vec![local("n", int32(), Mutability::Immutable)], Ty::Unit);
    assert_eq!(
        type_statement(&env, &s, &statement("if n then is end if;")).unwrap_err(),
        TypeErrorKind::TypeMismatch
    );
    assert_eq!(
        type_statement(&env, &s, &statement("while n do is end while;")).unwrap_err(),
        TypeErrorKind::TypeMismatch
    );
    match type_statement(&env, &s, &statement("if n < 1 then is n; end if;")).unwrap() {
        TStmt::TIf(_, _, then, otherwise) => {
            assert!(matches!(*then, TStmt::TDiscarding(_, _)));
            assert!(matches!(*otherwise, TStmt::TSkip(_)));
        }
        other => panic!("not an if: {:?}", other),
    }
}

#[test]
fn the_variable_of_a_for_is_of_the_type_of_its_bounds() {
    let env = empty_env();
    let s = scope(vec![local("n", int64(), Mutability::Immutable)], Ty::Unit);
    match type_statement(&env, &s, &statement("for i from n to 10 do is i + n; end for;")).unwrap() {
        TStmt::TFor(_, name, _, to, body) => {
            assert_eq!(name, Identifier::new("i"));
            assert!(matches!(*to, TExpr::TCast(_, ref t) if t.equals(&int64())));
            assert!(matches!(*body, TStmt::TDiscarding(_, _)));
        }
        other => panic!("not a for: {:?}", other),
    }
    assert_eq!(
        type_statement(&env, &s, &statement("for i from true to false do is end for;")).unwrap_err(),
        TypeErrorKind::TypeMismatch
    );
    // the variable of the loop cannot be assigned
    assert_eq!(
        type_statement(&env, &s, &statement("for i from n to n do is i := n; end for;")).unwrap_err(),
        TypeErrorKind::TypeMismatch
    );
}

const POINTS: &str = "module body M is
    record Point : Free is
        x : Int32;
        y : Int32;
    end;
    record Handle : Linear is
        fd : Int32;
    end;
    union Shape is
        case Dot;
        case Circle is radius : Int32;
    end;
    constant origin : Int32 := 0;
";

fn with_points(functions: &str) -> String {
    format!("{}{}", POINTS, functions)
}

#[test]
fn records_are_built_and_read() {
    let typed = check(&with_points(
        "function f() : Int32 is
            let p : Point := Point(x => 1, y => 2);
            return p.x;
        end;",
    ))
    .unwrap();
    match &typed.functions[0].body {
        TStmt::TLet(_, _, value, _, ty, rest) => {
            assert!(matches!(ty, Ty::NamedType(q, args, Universe::FreeUniverse)
                if q.local == Identifier::new("Point") && args.is_empty()));
            match &**value {
                TExpr::TRecordConstructor(_, slots) => {
                    assert_eq!(slots.len(), 2);
                    assert_eq!(slots[0].0, Identifier::new("x"));
                    assert_eq!(slots[1].0, Identifier::new("y"));
                }
                other => panic!("not a record: {:?}", other),
            }
            match &**rest {
                TStmt::TReturn(_, e) => assert!(
                    matches!(&**e, TExpr::TSlotAccessor(_, slot, t) if slot == &Identifier::new("x") && t.equals(&int32()))
                ),
                other => panic!("not a return: {:?}", other),
            }
        }
        other => panic!("not a let: {:?}", other),
    }
    // arguments by position fill the slots in their order
    assert!(check(&with_points(
        "function f() : Point is
            return Point(1, 2);
        end;",
    ))
    .is_ok());
}

#[test]
fn errors_in_calls() {
    assert_eq!(
        kind_of(&with_points("function f() : Point is return Point(1); end;")),
        TypeErrorKind::ArityMismatch
    );
    assert_eq!(
        kind_of(&with_points("function f() : Point is return Point(x => 1, z => 2); end;")),
        TypeErrorKind::ArityMismatch
    );
    assert_eq!(
        kind_of(&with_points("function f() : Point is return Point(true, 2); end;")),
        TypeErrorKind::TypeMismatch
    );
    assert_eq!(
        kind_of(&with_points("function f() : Point is return Nothing(1, 2); end;")),
        TypeErrorKind::UndefinedSymbol
    );
    assert_eq!(
        kind_of(&with_points("function f() : Int32 is return p.x; end;")),
        TypeErrorKind::UndefinedSymbol
    );
    assert_eq!(
        kind_of(&with_points(
            "function f() : Int32 is
                let p : Point := Point(1, 2);
                return p.z;
            end;"
        )),
        TypeErrorKind::UndefinedSymbol
    );
}

#[test]
fn functions_call_each_other() {
    let typed = check(
        "module body M is
            function double(n : Int64) : Int64 is
                return n + n;
            end;
            function f() : Int64 is
                return double(21);
            end;
            function g() : Int64 is
                return double(n => 21);
            end;",
    )
    .unwrap();
    match &typed.functions[1].body {
        TStmt::TReturn(_, e) => match &**e {
            TExpr::TFuncall(_, name, args, ret) => {
                assert_eq!(name.local, Identifier::new("double"));
                assert_eq!(name.source.0, "M");
                assert_eq!(args.len(), 1);
                assert!(matches!(&*args[0], TExpr::TCast(_, t) if t.equals(&int64())));
                assert!(ret.equals(&int64()));
            }
            other => panic!("not a call: {:?}", other),
        },
        other => panic!("not a return: {:?}", other),
    }
    assert_eq!(
        kind_of(
            "module body M is
                function double(n : Int64) : Int64 is return n + n; end;
                function f() : Int64 is return double(); end;"
        ),
        TypeErrorKind::ArityMismatch
    );
}

#[test]
fn destructuring_binds_every_slot() {
    let typed = check(&with_points(
        "function f(p : Point) : Int32 is
            let {x : Int32, y as other : Int32} := p;
            return x + other;
        end;",
    ))
    .unwrap();
    match &typed.functions[0].body {
        TStmt::TDestructure(_, Mutability::Immutable, bindings, _, rest) => {
            assert_eq!(bindings.len(), 2);
            assert_eq!(bindings[0].name, Identifier::new("x"));
            assert_eq!(bindings[0].rename, Identifier::new("x"));
            assert_eq!(bindings[1].name, Identifier::new("y"));
            assert_eq!(bindings[1].rename, Identifier::new("other"));
            assert!(matches!(&**rest, TStmt::TReturn(_, _)));
        }
        other => panic!("not a destructuring: {:?}", other),
    }
    assert_eq!(
        kind_of(&with_points(
            "function f(p : Point) : Int32 is
                let {x : Int32} := p;
                return x;
            end;"
        )),
        TypeErrorKind::NonExhaustiveDestructure
    );
    assert_eq!(
        kind_of(&with_points(
            "function f(p : Point) : Int32 is
                let {x : Int32, z : Int32} := p;
                return x;
            end;"
        )),
        TypeErrorKind::UndefinedSymbol
    );
    assert_eq!(
        kind_of(&with_points(
            "function f(p : Point) : Int32 is
                let {x : Int32, y : Bool} := p;
                return x;
            end;"
        )),
        TypeErrorKind::TypeMismatch
    );
    assert_eq!(
        kind_of(&with_points(
            "function f(n : Int32) : Int32 is
                let {x : Int32} := n;
                return x;
            end;"
        )),
        TypeErrorKind::TypeMismatch
    );
}

#[test]
fn case_goes_by_the_cases_of_the_union() {
    let typed = check(&with_points(
        "function f(s : Shape) : Int32 is
            case s of
                when Dot do is return 0; end
                when Circle radius : Int32 do is return radius; end
            end case;
            return 1;
        end;",
    ))
    .unwrap();
    match &typed.functions[0].body {
        TStmt::TBlock(_, first, _) => match &**first {
            TStmt::TCase(_, _, whens, _) => {
                assert_eq!(whens.len(), 2);
                assert_eq!(whens[0].0, Identifier::new("Dot"));
                assert_eq!(whens[1].0, Identifier::new("Circle"));
                assert_eq!(whens[1].1.len(), 1);
            }
            other => panic!("not a case: {:?}", other),
        },
        other => panic!("not a block: {:?}", other),
    }
    assert_eq!(
        kind_of(&with_points(
            "function f(s : Shape) : Int32 is
                case s of when Square do is return 0; end end case;
                return 1;
            end;"
        )),
        TypeErrorKind::UndefinedSymbol
    );
    assert_eq!(
        kind_of(&with_points(
            "function f(n : Int32) : Int32 is
                case n of when Dot do is return 0; end end case;
                return 1;
            end;"
        )),
        TypeErrorKind::TypeMismatch
    );
}

#[test]
fn constants_are_typed_and_in_scope() {
    let typed = check(&with_points("function f() : Int32 is return origin; end;")).unwrap();
    assert_eq!(typed.constants.len(), 1);
    assert_eq!(typed.constants[0].name, Identifier::new("origin"));
    assert!(typed.constants[0].ty.equals(&int32()));
    assert!(matches!(typed.constants[0].value, TExpr::TIntConstant(ref text) if text == "0"));
    assert_eq!(typed.exports.len(), 2);
    assert_eq!(typed.exports[0].name, Identifier::new("origin"));
    assert_eq!(typed.exports[1].name, Identifier::new("f"));
    match &typed.functions[0].body {
        TStmt::TReturn(_, e) => assert!(matches!(&**e, TExpr::TConstVar(q, _) if q.local == Identifier::new("origin"))),
        other => panic!("not a return: {:?}", other),
    }
    assert_eq!(
        kind_of("module body M is constant c : Bool := 1;"),
        TypeErrorKind::TypeMismatch
    );
}

#[test]
fn slots_must_be_of_a_universe_below_the_record() {
    assert_eq!(
        kind_of(
            "module body M is
                record Handle : Linear is fd : Int32; end;
                record Pair : Free is first : Handle; end;"
        ),
        TypeErrorKind::UniverseMismatch
    );
    assert!(check(
        "module body M is
            record Handle : Linear is fd : Int32; end;
            record Pair : Linear is first : Handle; second : Int32; end;"
    )
    .is_ok());
    // a declaration may name a type that is declared after it
    assert!(check(
        "module body M is
            record Pair : Linear is first : Handle; end;
            record Handle : Linear is fd : Int32; end;"
    )
    .is_ok());
    assert_eq!(
        kind_of("module body M is record Pair : Free is first : Missing; end;"),
        TypeErrorKind::UndefinedSymbol
    );
    assert_eq!(
        kind_of(
            "module body M is
                record Handle : Linear is fd : Int32; end;
                union Held is case Some is h : Handle; end;"
        ),
        TypeErrorKind::UniverseMismatch
    );
}

#[test]
fn a_name_is_declared_once() {
    assert_eq!(
        kind_of(
            "module body M is
                function f() : Unit is return nil; end;
                function f() : Unit is return nil; end;"
        ),
        TypeErrorKind::TypeMismatch
    );
    assert_eq!(
        kind_of(
            "module body M is
                record f : Free is x : Int32; end;
                function f() : Unit is return nil; end;"
        ),
        TypeErrorKind::TypeMismatch
    );
}

#[test]
fn imports_bring_the_declarations_of_interfaces() {
    let lib = interface(
        "module Lib is
            type Handle : Linear;
            constant limit : Int64;
            function open(n : Int64) : Handle;
            function close(h : Handle) : Unit;",
    );
    let user = body(
        "import Lib (Handle, open as start, close, limit);
        module body M is
            function f() : Unit is
                let h : Handle := start(limit);
                return close(h);
            end;",
    );
    let interfaces = vec![lib];
    let env = environment(&user, &interfaces).unwrap();
    assert_eq!(env.types.len(), 1);
    assert_eq!(env.functions.len(), 3);
    assert_eq!(env.functions[0].name.source.0, "Lib");
    assert_eq!(env.functions[0].name.original, Identifier::new("open"));
    assert_eq!(env.functions[0].name.local, Identifier::new("start"));
    assert_eq!(env.functions[0].id.0, 0);
    assert_eq!(env.functions[2].name.source.0, "M");
    assert_eq!(env.functions[2].id.0, 2);
    assert_eq!(env.constants.len(), 1);
    let typed = type_check(&user, &interfaces).unwrap();
    assert_eq!(typed.functions.len(), 1);
    assert!(linearity_check_module(&typed).is_ok());

    let unknown_module = body("import Other (x); module body M is ");
    assert_eq!(type_check(&unknown_module, &interfaces).unwrap_err().kind, TypeErrorKind::UndefinedSymbol);
    let unknown_symbol = body("import Lib (shut); module body M is ");
    assert_eq!(type_check(&unknown_symbol, &interfaces).unwrap_err().kind, TypeErrorKind::UndefinedSymbol);
    let twice = body("import Lib (open, close as open); module body M is ");
    assert_eq!(type_check(&twice, &interfaces).unwrap_err().kind, TypeErrorKind::TypeMismatch);
    // without the import the name is not in scope
    let not_imported = body(
        "import Lib (Handle);
        module body M is
            function f(h : Handle) : Unit is return close(h); end;",
    );
    assert_eq!(type_check(&not_imported, &interfaces).unwrap_err().kind, TypeErrorKind::UndefinedSymbol);
}

#[test]
fn a_body_agrees_with_its_interface() {
    let own = interface(
        "module M is
            constant limit : Int64;
            function f(n : Int32) : Int32;
            function later(n : Int32) : Int32;",
    );
    let interfaces = vec![own];
    let agrees = body(
        "module body M is
            constant limit : Int64 := 10;
            function f(n : Int32) : Int32 is return n; end;",
    );
    assert!(type_check(&agrees, &interfaces).is_ok());
    let other_parameter = body("module body M is function f(n : Int64) : Int32 is return 1; end;");
    assert_eq!(type_check(&other_parameter, &interfaces).unwrap_err().kind, TypeErrorKind::TypeMismatch);
    let other_name = body("module body M is function f(m : Int32) : Int32 is return m; end;");
    assert_eq!(type_check(&other_name, &interfaces).unwrap_err().kind, TypeErrorKind::TypeMismatch);
    let other_result = body("module body M is function f(n : Int32) : Int64 is return 1; end;");
    assert_eq!(type_check(&other_result, &interfaces).unwrap_err().kind, TypeErrorKind::TypeMismatch);
    let other_constant = body("module body M is constant limit : Int32 := 10;");
    assert_eq!(type_check(&other_constant, &interfaces).unwrap_err().kind, TypeErrorKind::TypeMismatch);
}

#[test]
fn a_type_error_says_its_kind() {
    let e = check("module body M is function f() : Bool is return 1; end;").unwrap_err();
    assert_eq!(e.kind, TypeErrorKind::TypeMismatch);
    assert_eq!(e.detail, "a value is not of the type asked for");
    assert_eq!(format!("{:?}", e.span), format!("{:?}", Span::default()));
    let e = check("module body M is function f() : Bool is return x; end;").unwrap_err();
    assert_eq!(e.kind, TypeErrorKind::UndefinedSymbol);
    assert_eq!(e.detail, "a name is not declared");
}

#[test]
fn borrow_statement_opens_a_region() {
    let typed = check(&with_points(
        "function length(h : &[Handle, rho]) : Int32 is
            return 0;
        end;
        function f(h : Handle) : Handle is
            borrow r : &[Handle, rho] := &h is
                let n : Int32 := 0;
            end
            return h;
        end;",
    ));
    // a parameter cannot name a region: no borrow statement is around it
    assert_eq!(typed.unwrap_err().kind, TypeErrorKind::UndefinedSymbol);

    let typed = check(&with_points(
        "function close(h : Handle) : Unit is
            let {fd : Int32} := h;
            return nil;
        end;
        function f(h : Handle, g : Handle) : Handle is
            borrow r : &[Handle, rho] := &h is
                borrow s : &[Handle, sigma] := &g is
                    let t : &[Handle, rho] := r;
                end
            end
            close(g);
            return h;
        end;",
    ))
    .unwrap();
    match &typed.functions[1].body {
        TStmt::TBlock(_, first, _) => match &**first {
            TStmt::TBorrow { original, rename, region, orig_type, ref_type, body, mode, .. } => {
                assert_eq!(original, &Identifier::new("h"));
                assert_eq!(rename, &Identifier::new("r"));
                assert_eq!(region, &Identifier::new("rho"));
                assert!(matches!(orig_type, Ty::NamedType(q, _, Universe::LinearUniverse) if q.local == Identifier::new("Handle")));
                assert!(ref_type.equals(&Ty::ReadRef(
                    Box::new(orig_type.clone()),
                    Box::new(Ty::RegionTy(Region { id: 0 }))
                )));
                assert_eq!(*mode, BorrowStmtKind::Read);
                match &**body {
                    TStmt::TBorrow { ref_type, .. } => assert!(ref_type.equals(&Ty::ReadRef(
                        Box::new(orig_type.clone()),
                        Box::new(Ty::RegionTy(Region { id: 1 }))
                    ))),
                    other => panic!("not a borrow: {:?}", other),
                }
            }
            other => panic!("not a borrow: {:?}", other),
        },
        other => panic!("not a block: {:?}", other),
    }
    assert!(linearity_check_module(&typed).is_ok());
    // the mode of the reference must be the mode of the borrow
    assert_eq!(
        kind_of(&with_points(
            "function f(h : Handle) : Handle is
                borrow r : &![Handle, rho] := &h is end
                return h;
            end;"
        )),
        TypeErrorKind::TypeMismatch
    );
    assert_eq!(
        kind_of(&with_points(
            "function f(h : Handle) : Handle is
                borrow r : &[Point, rho] := &h is end
                return h;
            end;"
        )),
        TypeErrorKind::TypeMismatch
    );
    // outside the borrow statement its region is not in scope
    assert_eq!(
        kind_of(&with_points(
            "function f(h : Handle) : Handle is
                borrow r : &[Handle, rho] := &h is end
                borrow s : &[Handle, sigma] := &h is
                    let t : &[Handle, rho] := s;
                end
                return h;
            end;"
        )),
        TypeErrorKind::UndefinedSymbol
    );
}

#[test]
fn typed_bodies_go_on_to_the_linearity_checker() {
    let consumed_once = check(&with_points(
        "function close(h : Handle) : Unit is
            let {fd : Int32} := h;
            return nil;
        end;
        function f(h : Handle) : Unit is
            return close(h);
        end;",
    ))
    .unwrap();
    assert!(linearity_check_module(&consumed_once).is_ok());

    let consumed_twice = check(&with_points(
        "function close(h : Handle) : Unit is
            let {fd : Int32} := h;
            return nil;
        end;
        function f(h : Handle) : Unit is
            close(h);
            return close(h);
        end;",
    ))
    .unwrap();
    let e = linearity_check_module(&consumed_twice).unwrap_err();
    assert_eq!(e.kind, LinearityErrorKind::UseAfterConsume);
    assert_eq!(e.name, Identifier::new("h"));

    let dropped = check(&with_points(
        "function f(h : Handle) : Unit is
            return nil;
        end;",
    ))
    .unwrap();
    let e = linearity_check_module(&dropped).unwrap_err();
    assert_eq!(e.kind, LinearityErrorKind::UnconsumedOnReturn);

    let in_one_branch = check(&with_points(
        "function close(h : Handle) : Unit is
            let {fd : Int32} := h;
            return nil;
        end;
        function f(h : Handle, c : Bool) : Unit is
            if c then is
                close(h);
            end if;
            return nil;
        end;",
    ))
    .unwrap();
    let e = linearity_check_module(&in_one_branch).unwrap_err();
    assert_eq!(e.kind, LinearityErrorKind::BranchStateMismatch);
}

const SHOWN: &str = "module body M is
    record Handle : Linear is
        fd : Int32;
    end;
    typeclass Printable(T : Type) is
        method show(t : T) : Int32 is
            return 0;
        end;
        method pick(n : Int32, t : T) : T is
            return t;
        end;
    end;
    instance Printable(Int32) is
        method show(t : Int32) : Int32 is
            return t;
        end;
        method pick(n : Int32, t : Int32) : Int32 is
            return n + t;
        end;
    end;
    instance Printable(Bool) is
        method show(t : Bool) : Int32 is
            return 0;
        end;
    end;
";

fn with_shown(functions: &str) -> String {
    format!("{}{}", SHOWN, functions)
}

fn returned(typed: &TypedModule, function: usize) -> &TExpr {
    match &typed.functions[function].body {
        TStmt::TReturn(_, e) => &**e,
        other => panic!("not a return: {:?}", other),
    }
}

#[test]
fn a_method_call_goes_to_the_instance_for_the_type_of_its_argument() {
    let typed = check(&with_shown(
        "function f(n : Int32) : Int32 is return show(n); end;
        function g(b : Bool) : Int32 is return show(b); end;
        function h(n : Int32) : Int32 is return pick(1, n); end;
        function k(n : Int32) : Int32 is return pick(t => n, n => 2); end;",
    ))
    .unwrap();
    match returned(&typed, 0) {
        TExpr::TMethodCall(id, name, args, ret) => {
            assert_eq!(id.0, 0);
            assert_eq!(name.source.0, "Printable");
            assert_eq!(name.local, Identifier::new("show"));
            assert_eq!(args.len(), 1);
            assert!(ret.equals(&int32()));
        }
        other => panic!("not a method call: {:?}", other),
    }
    assert!(matches!(returned(&typed, 1), TExpr::TMethodCall(id, _, _, _) if id.0 == 1));
    match returned(&typed, 2) {
        TExpr::TMethodCall(id, name, args, ret) => {
            assert_eq!(id.0, 0);
            assert_eq!(name.local, Identifier::new("pick"));
            assert_eq!(args.len(), 2);
            // the result is of the type put for the type variable
            assert!(ret.equals(&int32()));
        }
        other => panic!("not a method call: {:?}", other),
    }
    match returned(&typed, 3) {
        TExpr::TMethodCall(_, _, args, _) => {
            // the arguments stand in the order of the parameters
            assert!(matches!(&*args[0], TExpr::TIntConstant(text) if text == "2"));
            assert!(matches!(&*args[1], TExpr::TParamVar(name, _) if name == &Identifier::new("n")));
        }
        other => panic!("not a method call: {:?}", other),
    }
    assert!(linearity_check_module(&typed).is_ok());
}

#[test]
fn the_methods_of_instances_are_typed() {
    let typed = check(SHOWN).unwrap();
    assert_eq!(typed.instances.len(), 2);
    assert_eq!(typed.instances[0].typeclass, Identifier::new("Printable"));
    assert!(typed.instances[0].arg.equals(&int32()));
    assert_eq!(typed.instances[0].methods.len(), 2);
    assert_eq!(typed.instances[0].methods[1].name, Identifier::new("pick"));
    assert!(typed.instances[0].methods[1].ret.equals(&int32()));
    assert!(matches!(typed.instances[0].methods[1].body, TStmt::TReturn(_, _)));
    assert!(typed.instances[1].arg.equals(&Ty::Boolean));
    let env = environment(&body(SHOWN), &vec![]).unwrap();
    assert_eq!(env.methods.len(), 2);
    assert_eq!(env.methods[1].name, Identifier::new("pick"));
    assert_eq!(env.methods[1].variable, 0);
    assert!(matches!(&env.methods[1].ret, Ty::TyVar(v) if v.id == 0 && v.universe == Universe::TypeUniverse));
    assert_eq!(env.instances.len(), 2);
    assert_eq!(env.instances[1].id.0, 1);
    // the bodies that the typeclass gives its methods are typed too
    assert_eq!(typed.defaults.len(), 2);
    assert_eq!(typed.defaults[1].name, Identifier::new("pick"));
    assert!(matches!(&typed.defaults[1].ret, Ty::TyVar(v) if v.id == 0));
    assert!(linearity_check_module(&typed).is_ok());
    assert_eq!(
        kind_of(
            "module body M is
                typeclass Printable(T : Type) is
                    method show(t : T) : Int32 is return t; end;
                end;"
        ),
        TypeErrorKind::TypeMismatch
    );
}

#[test]
fn a_method_call_needs_one_instance() {
    assert_eq!(
        kind_of(&with_shown("function f() : Int32 is return show(1.5); end;")),
        TypeErrorKind::MissingInstance
    );
    assert_eq!(
        kind_of(&with_shown("function f() : Int32 is return show(); end;")),
        TypeErrorKind::ArityMismatch
    );
    assert_eq!(
        kind_of(&with_shown("function f(n : Int32) : Int32 is return pick(true, n); end;")),
        TypeErrorKind::TypeMismatch
    );
    assert_eq!(
        kind_of(&with_shown("function f(n : Int32) : Int32 is return show(n, n); end;")),
        TypeErrorKind::ArityMismatch
    );
    assert_eq!(
        kind_of(
            "module body M is
                typeclass Printable(T : Type) is
                    method show(t : T) : Int32 is return 0; end;
                end;
                instance Printable(Int32) is
                    method show(t : Int32) : Int32 is return t; end;
                end;
                instance Printable(Int32) is
                    method show(t : Int32) : Int32 is return 0; end;
                end;"
        ),
        TypeErrorKind::OverlappingInstance
    );
}

#[test]
fn a_type_variable_stands_for_a_type_of_its_universe() {
    let source = "module body M is
        record Handle : Linear is fd : Int32; end;
        typeclass Plain(T : Free) is
            method weigh(t : T) : Int32 is return 0; end;
        end;
        instance Plain(Int32) is
            method weigh(t : Int32) : Int32 is return t; end;
        end;
        instance Plain(Handle) is
            method weigh(t : Handle) : Int32 is
                let {fd : Int32} := t;
                return fd;
            end;
        end;
    ";
    assert!(check(&format!("{}function f(n : Int32) : Int32 is return weigh(n); end;", source)).is_ok());
    assert_eq!(
        kind_of(&format!("{}function f(h : Handle) : Int32 is return weigh(h); end;", source)),
        TypeErrorKind::UniverseMismatch
    );
}

#[test]
fn an_instance_writes_the_signatures_of_its_typeclass() {
    assert_eq!(
        kind_of(
            "module body M is
                typeclass Printable(T : Type) is
                    method show(t : T) : Int32 is return 0; end;
                end;
                instance Printable(Int32) is
                    method show(t : Bool) : Int32 is return 0; end;
                end;"
        ),
        TypeErrorKind::TypeMismatch
    );
    assert_eq!(
        kind_of(
            "module body M is
                typeclass Printable(T : Type) is
                    method show(t : T) : Int32 is return 0; end;
                end;
                instance Printable(Int32) is
                    method tell(t : Int32) : Int32 is return 0; end;
                end;"
        ),
        TypeErrorKind::UndefinedSymbol
    );
    assert_eq!(
        kind_of(
            "module body M is
                typeclass Printable(T : Type) is
                    method show(t : T) : Int32 is return 0; end;
                end;
                instance Printable(Int32) is
                    method show(t : Int32) : Int32 is return true; end;
                end;"
        ),
        TypeErrorKind::TypeMismatch
    );
}

#[test]
fn instances_of_interfaces_are_in_scope() {
    let lib = interface(
        "module Lib is
            type Hidden : Free;
            typeclass Printable(T : Type) is
                method show(t : T) : Int32;
            end;
            instance Printable(Int32) is
                method show(t : Int32) : Int32;
            end;
            instance Printable(Hidden) is
                method show(t : Hidden) : Int32;
            end;",
    );
    let interfaces = vec![lib];
    let user = body(
        "import Lib (Printable);
        module body M is
            function f(n : Int32) : Int32 is return show(n); end;",
    );
    let env = environment(&user, &interfaces).unwrap();
    assert_eq!(env.methods.len(), 1);
    assert_eq!(env.methods[0].typeclass, Identifier::new("Printable"));
    // the instance for a type that is not in scope is not in scope
    assert_eq!(env.instances.len(), 1);
    assert!(env.instances[0].arg.equals(&int32()));
    let typed = type_check(&user, &interfaces).unwrap();
    assert!(matches!(returned(&typed, 0), TExpr::TMethodCall(id, _, _, _) if id.0 == 0));
    // without the typeclass its methods are not in scope
    let other = body("module body M is function f(n : Int32) : Int32 is return show(n); end;");
    assert_eq!(type_check(&other, &interfaces).unwrap_err().kind, TypeErrorKind::UndefinedSymbol);
}

#[test]
fn a_type_is_put_for_a_type_variable() {
    let variable = |id: u64, universe: Universe| {
        Ty::TyVar(TypeVariable { id, universe, constraints: vec![Identifier::new("C")] })
    };
    let t = variable(0, Universe::TypeUniverse);
    assert!(substitute(&t, 0, &int32()).equals(&int32()));
    assert!(substitute(&t, 1, &int32()).equals(&t));
    assert!(substitute(&Ty::Boolean, 0, &int32()).equals(&Ty::Boolean));
    let pointer = Ty::Pointer(Box::new(variable(0, Universe::FreeUniverse)));
    assert!(substitute(&pointer, 0, &int64()).equals(&Ty::Pointer(Box::new(int64()))));
    let function = Ty::FnPtr(
        vec![variable(0, Universe::TypeUniverse), Ty::Boolean],
        Box::new(variable(0, Universe::TypeUniverse)),
    );
    assert!(substitute(&function, 0, &int32())
        .equals(&Ty::FnPtr(vec![int32(), Ty::Boolean], Box::new(int32()))));
    // a variable of the region universe stands for a region and stays
    let reference = Ty::ReadRef(
        Box::new(variable(0, Universe::TypeUniverse)),
        Box::new(variable(0, Universe::RegionUniverse)),
    );
    assert!(substitute(&reference, 0, &int32()).equals(&Ty::ReadRef(
        Box::new(int32()),
        Box::new(variable(0, Universe::RegionUniverse))
    )));
}

#[test]
fn the_methods_of_instances_go_on_to_the_linearity_checker() {
    let typed = check(
        "module body M is
            record Handle : Linear is fd : Int32; end;
            typeclass Closable(T : Linear) is
                method close(t : T) : Int32 is return 0; end;
            end;
            instance Closable(Handle) is
                method close(t : Handle) : Int32 is
                    return 0;
                end;
            end;",
    )
    .unwrap();
    let e = linearity_check_module(&typed).unwrap_err();
    assert_eq!(e.kind, LinearityErrorKind::UnconsumedOnReturn);
    assert_eq!(e.name, Identifier::new("t"));
}

#[test]
fn a_for_whose_bounds_are_out_of_order_is_accepted() {
    let typed = check(
        "module body M is
            function f() : Int32 is
                var n : Int32 := 0;
                for i from 10 to 1 do is
                    n := n + i;
                end for;
                return n;
            end;",
    )
    .unwrap();
    assert!(linearity_check_module(&typed).is_ok());
}

#[test]
fn return_in_both_branches_needs_no_agreement() {
    let typed = check(
        "module body M is
            record Handle : Linear is fd : Int32; end;
            function close(h : Handle) : Int32 is
                let {fd : Int32} := h;
                return fd;
            end;
            function f(h : Handle, g : Handle, c : Bool) : Int32 is
                if c then is
                    close(g);
                    return close(h);
                end else is
                    close(h);
                    return close(g);
                end if;
            end;",
    )
    .unwrap();
    assert!(linearity_check_module(&typed).is_ok());
}

const GENERIC: &str = "module body M is
    record Handle : Linear is
        fd : Int32;
    end;
    generic [T : Type]
    function identity(x : T) : T is
        let y : T := x;
        return y;
    end;
    generic [T : Type, U : Free]
    function first(a : T, b : U) : T is
        return a;
    end;
    generic [T : Free, U : Free]
    function second(a : T, b : U) : U is
        return first(b, a);
    end;
    generic [T : Free]
    function plain(x : T) : T is
        return x;
    end;
    generic [T : Type]
    function made() : Int32 is
        return 0;
    end;
";

fn with_generic(functions: &str) -> String {
    format!("{}{}", GENERIC, functions)
}

#[test]
fn the_types_of_a_call_are_put_for_the_type_variables() {
    let typed = check(&with_generic(
        "function f(n : Int32, b : Bool) : Int32 is return identity(n); end;
        function g(n : Int32, b : Bool) : Bool is return first(b, n); end;
        function h(n : Int64) : Int64 is return identity(n); end;
        function k(n : Int32, b : Bool) : Bool is return first(b => n, a => b); end;",
    ))
    .unwrap();
    assert_eq!(typed.functions.len(), 9);
    match returned(&typed, 5) {
        TExpr::TFuncall(_, name, args, ret) => {
            assert_eq!(name.local, Identifier::new("identity"));
            assert_eq!(args.len(), 1);
            assert!(ret.equals(&int32()));
        }
        other => panic!("not a call: {:?}", other),
    }
    assert!(matches!(returned(&typed, 6), TExpr::TFuncall(_, _, _, ret) if ret.equals(&Ty::Boolean)));
    assert!(matches!(returned(&typed, 8), TExpr::TFuncall(_, _, _, ret) if ret.equals(&Ty::Boolean)));
    // the body of a generic function is typed once, with its type variables
    match &typed.functions[0].body {
        TStmt::TLet(_, _, _, _, ty, _) => assert!(matches!(ty, Ty::TyVar(v) if v.id == 0)),
        other => panic!("not a let: {:?}", other),
    }
    // inside `second` the variables of `first` stand for those of `second`, crossed over
    match returned(&typed, 2) {
        TExpr::TFuncall(_, _, args, ret) => {
            assert!(matches!(ret, Ty::TyVar(v) if v.id == 1));
            assert!(matches!(&*args[0], TExpr::TParamVar(name, Ty::TyVar(v)) if name == &Identifier::new("b") && v.id == 1));
            assert!(matches!(&*args[1], TExpr::TParamVar(name, Ty::TyVar(v)) if name == &Identifier::new("a") && v.id == 0));
        }
        other => panic!("not a call: {:?}", other),
    }
    assert!(linearity_check_module(&typed).is_ok());
    let env = environment(&body(GENERIC), &vec![]).unwrap();
    assert_eq!(env.functions[1].variables.len(), 2);
    assert_eq!(env.functions[1].variables[1].name, Identifier::new("U"));
    assert_eq!(env.functions[1].variables[1].id, 1);
    assert!(matches!(&env.functions[1].params[0].ty, Ty::TyVar(v) if v.id == 0 && v.universe == Universe::TypeUniverse));
}

#[test]
fn a_generic_call_that_cannot_be_typed() {
    // the literal takes its own type, which is not the type asked for
    assert_eq!(
        kind_of(&with_generic("function f() : Int64 is return identity(1); end;")),
        TypeErrorKind::TypeMismatch
    );
    assert_eq!(
        kind_of(&with_generic("function f() : Int32 is return identity(); end;")),
        TypeErrorKind::ArityMismatch
    );
    // no argument decides the type variable
    assert_eq!(
        kind_of(&with_generic("function f() : Int32 is return made(); end;")),
        TypeErrorKind::TypeMismatch
    );
    assert_eq!(
        kind_of(&with_generic("function f(h : Handle) : Handle is return plain(h); end;")),
        TypeErrorKind::UniverseMismatch
    );
    assert!(check(&with_generic("function f(h : Handle) : Handle is return identity(h); end;")).is_ok());
    // outside a generic function its type parameter is no type
    assert_eq!(
        kind_of(&with_generic("function f(x : T) : Int32 is return 0; end;")),
        TypeErrorKind::UndefinedSymbol
    );
}

#[test]
fn a_method_call_through_a_type_variable_needs_the_constraint() {
    let typed = check(&with_shown(
        "generic [T : Type(Printable)]
        function shown(x : T) : Int32 is
            return show(x);
        end;
        function f(n : Int32) : Int32 is
            return shown(n);
        end;",
    ))
    .unwrap();
    match returned(&typed, 0) {
        TExpr::TVarMethodCall { source_module_name, typeclass_id, params, method_name, args, dispatch_ty, rt } => {
            assert_eq!(source_module_name.0, "Printable");
            assert_eq!(typeclass_id.0, 0);
            assert_eq!(params.len(), 1);
            assert!(matches!(&params[0].ty, Ty::TyVar(v) if v.id == 0));
            assert_eq!(method_name.local, Identifier::new("show"));
            assert_eq!(args.len(), 1);
            assert!(matches!(dispatch_ty, Ty::TyVar(v) if v.constraints == vec![Identifier::new("Printable")]));
            assert!(rt.equals(&int32()));
        }
        other => panic!("not a call through a type variable: {:?}", other),
    }
    assert!(matches!(returned(&typed, 1), TExpr::TFuncall(_, _, _, ret) if ret.equals(&int32())));
    assert_eq!(
        kind_of(&with_shown(
            "generic [T : Type]
            function hidden(x : T) : Int32 is
                return show(x);
            end;"
        )),
        TypeErrorKind::MissingInstance
    );
}

#[test]
fn no_name_is_given_two_arguments() {
    let source = "module body M is
        function one(a : Int32) : Int32 is return a; end;
        function two(a : Int32, b : Int32) : Int32 is return a; end;
        function same(a : Int32, a : Int32) : Int32 is return 0; end;
    ";
    let call = |text: &str| format!("{}function f() : Int32 is return {}; end;", source, text);
    assert!(check(&call("two(b => 2, a => 1)")).is_ok());
    assert_eq!(kind_of(&call("one(a => 1, a => 2)")), TypeErrorKind::ArityMismatch);
    assert_eq!(kind_of(&call("two(a => 1, a => 2)")), TypeErrorKind::ArityMismatch);
    assert_eq!(kind_of(&call("same(a => 1, a => 2)")), TypeErrorKind::ArityMismatch);
    // the tree keeps what was written
    let tokens = tokens_only(lex("f(a => 1, a => 2)").unwrap());
    match Expression::parser(&tokens).unwrap() {
        Expression::Atomic(austral_lib::ast::AtomicExpr::FnCall(call)) => match call.args {
            austral_lib::ast::FnCallArgs::Named(pairs) => assert_eq!(pairs.len(), 2),
            other => panic!("not named: {:?}", other),
        },
        other => panic!("not a call: {:?}", other),
    }
}
