use austral_lib::ast::{
    parse_module, AtomicExpr, Case, ConstantDecl, ConstantDef, DocString, Expression, FnCallArgs,
    FunctionDecl, FunctionDef, Ident, ImportStmt, InstanceDecl, MethodDecl, Module, ModuleDecl,
    ModuleDeclItem, ModuleDef, ModuleDefItem, Param, Pragma, RecordDecl, Slot, Statement,
    TypeClassDecl, TypeDecl, TypeParam, TypeSpec, UnionDecl, Universe,
};
use austral_lib::lexer::{lex, tokens_only, Token, TokenKind};

fn tokens(source: &str) -> Vec<Token> {
    tokens_only(lex(source).unwrap())
}

fn simple(name: &str) -> TypeSpec {
    TypeSpec::Simple { name: Ident::new(name) }
}

#[test]
fn minimal_hello_world() {
    let source = "module body Hello is function main() : ExitCode is return 0; end;";
    let module = parse_module(&tokens(source)).unwrap();
    assert_eq!(
        module,
        Module::Def(ModuleDef {
            doc_string: None,
            imports: vec![],
            name: Ident::new("Hello"),
            contents: vec![ModuleDefItem::Function(FunctionDef {
                decl: FunctionDecl {
                    doc_string: None,
                    pragmas: vec![],
                    type_params: vec![],
                    name: Ident::new("main"),
                    params: vec![],
                    ret_type: simple("ExitCode"),
                },
                body: vec![Statement::Return(Expression::Atomic(AtomicExpr::ConstInt(0)))],
            })],
        })
    );
    assert_eq!(ModuleDef::parser(&tokens(source)).map(Module::Def), Ok(module));
}

#[test]
fn module_interface() {
    let source = r#"
        """The interface."""
        import Austral.Memory (Pointer);
        module Example is
            constant pi : Float64;
            type Opaque : Linear;
            """Adds."""
            pragma Foreign_Import(External_Name => "add");
            generic [T : Type(Printable, Ord), U : Free]
            function add(a : T, b : U,) : T;
            record Point[T : Free] : Free is
                x : T;
                """The second."""
                y : T;
            end;
            union Option[T : Type] is
                case None;
                case Some is value : T;
            end;
            typeclass Printable(T : Type) is
                method print(t : T) : Unit;
            end;
            instance Printable(Int32) is
                method print(t : Int32) : Unit;
            end;
    "#;
    let module = match parse_module(&tokens(source)).unwrap() {
        Module::Decl(m) => m,
        Module::Def(_) => panic!("not an interface"),
    };
    assert_eq!(module.doc_string, Some(DocString::new("The interface.")));
    assert_eq!(module.imports.len(), 1);
    assert_eq!(module.name, Ident::new("Example"));
    assert_eq!(module.contents.len(), 7);
    assert_eq!(
        module.contents[0],
        ModuleDeclItem::Constant(ConstantDecl {
            doc_string: None,
            pragmas: vec![],
            name: Ident::new("pi"),
            ty: simple("Float64"),
        })
    );
    assert_eq!(
        module.contents[1],
        ModuleDeclItem::Type(TypeDecl {
            doc_string: None,
            pragmas: vec![],
            name: Ident::new("Opaque"),
            universe: Universe(austral_lib::lexer::Universe::Linear),
        })
    );
    match &module.contents[2] {
        ModuleDeclItem::Function(f) => {
            assert_eq!(f.doc_string, Some(DocString::new("Adds.")));
            assert_eq!(f.pragmas.len(), 1);
            assert_eq!(f.pragmas[0].name, Ident::new("Foreign_Import"));
            assert!(matches!(f.pragmas[0].args, FnCallArgs::Named(_)));
            assert_eq!(
                f.type_params,
                vec![
                    TypeParam {
                        name: Ident::new("T"),
                        universe: Universe(austral_lib::lexer::Universe::Type),
                        params: vec![Ident::new("Printable"), Ident::new("Ord")],
                    },
                    TypeParam {
                        name: Ident::new("U"),
                        universe: Universe(austral_lib::lexer::Universe::Free),
                        params: vec![],
                    },
                ]
            );
            assert_eq!(
                f.params,
                vec![
                    Param { name: Ident::new("a"), ty: simple("T") },
                    Param { name: Ident::new("b"), ty: simple("U") },
                ]
            );
        }
        other => panic!("not a function: {:?}", other),
    }
    match &module.contents[3] {
        ModuleDeclItem::Record(r) => {
            assert_eq!(r.name, Ident::new("Point"));
            assert_eq!(
                r.slots,
                vec![
                    Slot { doc_string: None, name: Ident::new("x"), ty: simple("T") },
                    Slot { doc_string: Some(DocString::new("The second.")), name: Ident::new("y"), ty: simple("T") },
                ]
            );
        }
        other => panic!("not a record: {:?}", other),
    }
    match &module.contents[4] {
        ModuleDeclItem::Union(u) => {
            assert_eq!(
                u.cases,
                vec![
                    Case { doc_string: None, name: Ident::new("None"), fields: vec![] },
                    Case {
                        doc_string: None,
                        name: Ident::new("Some"),
                        fields: vec![Slot { doc_string: None, name: Ident::new("value"), ty: simple("T") }],
                    },
                ]
            );
        }
        other => panic!("not a union: {:?}", other),
    }
    match &module.contents[5] {
        ModuleDeclItem::TypeClass(c) => {
            assert_eq!(c.name, Ident::new("Printable"));
            assert_eq!(c.methods.len(), 1);
            assert_eq!(c.methods[0].name, Ident::new("print"));
        }
        other => panic!("not a typeclass: {:?}", other),
    }
    match &module.contents[6] {
        ModuleDeclItem::Instance(i) => {
            assert_eq!(i.name, Ident::new("Printable"));
            assert_eq!(i.arg, simple("Int32"));
        }
        other => panic!("not an instance: {:?}", other),
    }
}

#[test]
fn items_on_their_own() {
    assert!(ConstantDef::parser(&tokens("constant n : Int32 := 3;")).is_ok());
    assert!(ConstantDecl::parser(&tokens("constant n : Int32;")).is_ok());
    assert!(FunctionDecl::parser(&tokens("function f() : Unit;")).is_ok());
    assert!(MethodDecl::parser(&tokens("method m(x : T) : Unit;")).is_ok());
    assert!(RecordDecl::parser(&tokens("record R : Linear is end;")).is_ok());
    assert!(UnionDecl::parser(&tokens("union U is end;")).is_ok());
    assert!(TypeClassDecl::parser(&tokens("typeclass C(T : Type) is end;")).is_ok());
    assert!(InstanceDecl::parser(&tokens("generic [T : Free] instance C(Box[T]) is end;")).is_ok());
    assert!(ImportStmt::parser(&tokens("import A (b);")).is_ok());
    assert!(Pragma::parser(&tokens("pragma Unsafe_Module;")).is_ok());
    assert_eq!(
        TypeSpec::parser(&tokens("&![Span[T, R], S]")),
        Ok(TypeSpec::BorrowWrite {
            lhs: Box::new(TypeSpec::SpanRead { lhs: Box::new(simple("T")), rhs: Box::new(simple("R")) }),
            rhs: Box::new(simple("S")),
        })
    );
    assert_eq!(
        TypeSpec::parser(&tokens("Map[K, V,]")),
        Ok(TypeSpec::Generic { name: Ident::new("Map"), type_params: vec![simple("K"), simple("V")] })
    );
}

#[test]
fn failure_inside_an_item_is_reported_where_it_is() {
    //           0      1    2 3  4        5 6 7 8 9        10 11     12 13
    let source = "module body M is function f ( ) : ExitCode is return ; end ;";
    let err = parse_module(&tokens(source)).unwrap_err();
    assert_eq!(err.position, 12);
    assert!(err.expected.contains(&TokenKind::Ident));
    // an interface holds no definitions
    let err = parse_module(&tokens("module M is function f() : Unit is end;")).unwrap_err();
    assert_eq!(err.position, 9);
    assert_eq!(err.expected, vec![TokenKind::Semi]);
    // something must name the module
    let err = ModuleDecl::parser(&tokens("function f() : Unit;")).unwrap_err();
    assert_eq!(err.position, 0);
    assert_eq!(err.expected, vec![TokenKind::Module]);
}
