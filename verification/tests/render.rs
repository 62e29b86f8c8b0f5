use austral_lib::ast::printer::print;
use austral_lib::ast::parse_module;
use austral_lib::lexer::{lex, tokens_only, Token, Universe};
use austral_lib::render::{decimal_text, pretty, render_tokens, spell};

fn tokens(source: &str) -> Vec<Token> {
    tokens_only(lex(source).unwrap())
}

fn spelled(token: Token) -> String {
    let mut out = String::new();
    spell(&token, &mut out);
    out
}

#[test]
fn tokens_are_spelled_as_the_lexer_reads_them() {
    assert_eq!(spelled(Token::LParen), "(");
    assert_eq!(spelled(Token::NotEq), "/=");
    assert_eq!(spelled(Token::HypenRight), "->");
    assert_eq!(spelled(Token::ArrowRight), "=>");
    assert_eq!(spelled(Token::Assign), ":=");
    assert_eq!(spelled(Token::BorrowWrite), "&!");
    assert_eq!(spelled(Token::ReBorrow), "&~");
    assert_eq!(spelled(Token::RefTransform), "&(");
    assert_eq!(spelled(Token::SpanRead), "Span");
    assert_eq!(spelled(Token::SpanWrite), "Span!");
    assert_eq!(spelled(Token::TypeClass), "typeclass");
    assert_eq!(spelled(Token::Embed), "@embed");
    assert_eq!(spelled(Token::Universe(Universe::Linear)), "Linear");
    assert_eq!(spelled(Token::Ident("x_1".to_string())), "x_1");
    assert_eq!(spelled(Token::Decimal(0)), "0");
    assert_eq!(spelled(Token::Decimal(18446744073709551615)), "18446744073709551615");
    assert_eq!(spelled(Token::Float("-1.5e+10".to_string())), "-1.5e+10");
    assert_eq!(spelled(Token::Char('a')), "'a'");
    assert_eq!(spelled(Token::Char('\'')), "'\\''");
    assert_eq!(spelled(Token::Char('\\')), "'\\'");
    assert_eq!(spelled(Token::String("say \"hi\" \\ bye".to_string())), "\"say \\\"hi\\\" \\\\ bye\"");
    assert_eq!(spelled(Token::String(String::new())), "\"\"");
    assert_eq!(spelled(Token::TripleString("a \"\"\" b\nc".to_string())), "\"\"\"a \\\"\\\"\\\" b\nc\"\"\"");
}

#[test]
fn a_token_is_written_after_what_is_there() {
    let mut out = String::from("x ");
    spell(&Token::Assign, &mut out);
    assert_eq!(out, "x :=");
}

#[test]
fn tokens_are_rendered_with_a_space_after_each() {
    assert_eq!(render_tokens(&vec![]), "");
    assert_eq!(
        render_tokens(&vec![Token::Return, Token::Decimal(7), Token::Semi]),
        "return 7 ; "
    );
}

const SOURCE: &str = r#"
    """The module."""
    import Austral.Memory (Pointer, load as get);
    module body Example is
        pragma Foreign_Import(External_Name => "puts");
        constant greeting : Span[Nat8, Static] := "say \"hi\" \\ twice";
        record Pair : Linear is
            first : Int32;
            second : Float64;
        end;
        function f(p : Pair, c : Bool) : Int32 is
            let {first : Int32, second as s : Float64} := p;
            var n : Int32 := 007;
            let x : Float64 := -1.5e+3;
            let q : Nat8 := '\'';
            let r : Nat8 := 'a';
            if c and (not (n /= 1)) then is
                n := n + (first * 2);
            end else is
                n := @embed(Int32, "$1 - $2", n, first);
            end if;
            borrow w : &![Int32, rho] := &!n is
                store(&~w, !w);
            end
            while n <= 10 do is
                n := n + 1;
            end while;
            for i from 0 to n do is
                g(a => i, b => &(p.first));
            end for;
            return (n : Int32);
        end;
"#;

#[test]
fn the_lexer_reads_rendered_tokens_as_the_same_tokens() {
    let first = tokens(SOURCE);
    let text = render_tokens(&first);
    let second = tokens(&text);
    assert_eq!(first, second);
    // rendering is the same from then on
    assert_eq!(render_tokens(&second), text);
}

#[test]
fn a_rendered_module_parses_as_the_same_module() {
    let first = tokens(SOURCE);
    let module = parse_module(&first).unwrap();
    let again = parse_module(&tokens(&render_tokens(&first))).unwrap();
    assert_eq!(module, again);
}

#[test]
fn leading_zeros_are_not_kept() {
    let first = tokens("007");
    assert_eq!(first, vec![Token::Decimal(7)]);
    assert_eq!(render_tokens(&first), "7 ");
    assert_eq!(decimal_text(70), "70");
}

#[test]
fn escapes_are_put_back() {
    let first = tokens(r#""a\"b" "c\\" "\d""#);
    assert_eq!(
        first,
        vec![
            Token::String("a\"b".to_string()),
            Token::String("c\\".to_string()),
            Token::String("\\d".to_string()),
        ]
    );
    let text = render_tokens(&first);
    assert_eq!(text, r#""a\"b" "c\\" "\\d" "#);
    assert_eq!(tokens(&text), first);
}

#[test]
fn a_module_prints_as_the_tokens_it_was_read_from() {
    let first = tokens(SOURCE);
    let module = parse_module(&first).unwrap();
    assert_eq!(print(&module), first);
    // and the text of the printed module lexes as the tokens of the source
    assert_eq!(tokens(&pretty(&module)), first);
}

#[test]
fn an_interface_prints_as_the_tokens_it_was_read_from() {
    let source = r#"
        """The interface."""
        import Austral.Memory (Pointer);
        module Example is
            constant pi : Float64;
            type Opaque : Linear;
            """Adds."""
            pragma Foreign_Import(External_Name => "add");
            generic [T : Type(Printable, Ord), U : Free]
            function add(a : T, b : U) : T;
            record Point[T : Free] : Free is
                x : T;
                """The second."""
                y : T;
            end;
            union Option[T : Type] is
                case None;
                case Some is value : T;
            end;
            typeclass Printable(T : Type) is
                method print(t : T) : Unit;
            end;
            instance Printable(Int32) is
                method print(t : Int32) : Unit;
            end;
    "#;
    let first = tokens(source);
    let module = parse_module(&first).unwrap();
    assert_eq!(print(&module), first);
    assert_eq!(tokens(&pretty(&module)), first);
}

#[test]
fn a_comma_after_the_last_item_is_not_printed() {
    let with = tokens("module body M is function f(a : Int32, b : Int32,) : Int32 is return g(a, b,); end;");
    let without = tokens("module body M is function f(a : Int32, b : Int32) : Int32 is return g(a, b); end;");
    let module = parse_module(&with).unwrap();
    assert_eq!(module, parse_module(&without).unwrap());
    let printed = print(&module);
    assert_eq!(printed, without);
    assert!(printed.len() < with.len());
    // what is printed is read as the same module
    assert_eq!(parse_module(&tokens(&pretty(&module))).unwrap(), module);
}

#[test]
fn a_printed_expression_is_read_again() {
    let source = "module body M is constant c : Int32 := if a < b then (x.y[1]->z) else f(p => !q, r => &!s);";
    let first = tokens(source);
    let module = parse_module(&first).unwrap();
    assert_eq!(
        pretty(&module),
        "module body M is constant c : Int32 := if a < b then ( x . y [ 1 ] -> z ) else f ( p => ! q , r => &! s ) ; "
    );
    assert_eq!(tokens(&pretty(&module)), first);
}

#[test]
fn a_copy_of_a_tree_is_the_same_tree() {
    let first = tokens(SOURCE);
    assert_eq!(first.clone(), first);
    let module = parse_module(&first).unwrap();
    let copy = module.clone();
    assert_eq!(copy, module);
    assert_eq!(print(&copy), first);
    match (&module, &copy) {
        (austral_lib::ast::Module::Def(a), austral_lib::ast::Module::Def(b)) => {
            assert_eq!(a.contents.len(), b.contents.len());
            assert_eq!(a.contents[0].copy(), b.contents[0]);
            assert_eq!(a.imports[0].clone(), b.imports[0]);
        }
        _ => panic!("not a body"),
    }
}
