use austral_lib::error::lexer::Error;
use austral_lib::lexer::{
    chars_of, lex, read_string, read_triple_string, tokens_only, unescape_string, Token, Unescaped,
    Universe,
};
use austral_lib::span::SpanLocation;

fn tokens(source: &str) -> Vec<Token> {
    tokens_only(lex(source).unwrap())
}

fn ident(name: &str) -> Token {
    Token::Ident(name.to_string())
}

#[test]
fn lexing_is_a_function_of_the_source() {
    let source = "module body Hello is function main() : ExitCode is return 0; end;";
    assert_eq!(tokens(source), tokens(source));
    let first = lex(source).unwrap();
    let second = lex(source).unwrap();
    assert_eq!(first.len(), second.len());
    for (a, b) in first.iter().zip(second.iter()) {
        assert_eq!(a.0, b.0);
        assert_eq!(a.1.start(), b.1.start());
        assert_eq!(a.1.end(), b.1.end());
    }
}

#[test]
fn hello_world_tokens() {
    assert_eq!(
        tokens("module body Hello is function main() : ExitCode is return 0; end;"),
        vec![
            Token::Module,
            Token::Body,
            ident("Hello"),
            Token::Is,
            Token::Function,
            ident("main"),
            Token::LParen,
            Token::RParen,
            Token::Colon,
            ident("ExitCode"),
            Token::Is,
            Token::Return,
            Token::Decimal(0),
            Token::Semi,
            Token::End,
            Token::Semi,
        ]
    );
}

#[test]
fn longest_operator_wins() {
    assert_eq!(tokens(":= :"), vec![Token::Assign, Token::Colon]);
    assert_eq!(tokens("&! & &~ &("), vec![Token::BorrowWrite, Token::BorrowRead, Token::ReBorrow, Token::RefTransform]);
    assert_eq!(tokens("-> -"), vec![Token::HypenRight, Token::Sub]);
    assert_eq!(tokens("=> ="), vec![Token::ArrowRight, Token::Eq]);
    assert_eq!(tokens("/= /"), vec![Token::NotEq, Token::Div]);
    assert_eq!(tokens("<= < >= >"), vec![Token::LtEq, Token::Lt, Token::GtEq, Token::Gt]);
    assert_eq!(
        tokens("()[]{}+*;,.!"),
        vec![
            Token::LParen,
            Token::RParen,
            Token::LBracket,
            Token::RBracket,
            Token::LBrace,
            Token::RBrace,
            Token::Add,
            Token::Mul,
            Token::Semi,
            Token::Comma,
            Token::Period,
            Token::Deref,
        ]
    );
}

#[test]
fn reserved_words_only_at_word_boundaries() {
    assert_eq!(tokens("module modules"), vec![Token::Module, ident("modules")]);
    assert_eq!(tokens("end endif if"), vec![Token::End, ident("endif"), Token::If]);
    assert_eq!(tokens("Span Span! Spanner"), vec![Token::SpanRead, Token::SpanWrite, ident("Spanner")]);
    assert_eq!(tokens("_x x1 X_y"), vec![ident("_x"), ident("x1"), ident("X_y")]);
    assert_eq!(
        tokens("Free Linear Type Region Typed"),
        vec![
            Token::Universe(Universe::Free),
            Token::Universe(Universe::Linear),
            Token::Universe(Universe::Type),
            Token::Universe(Universe::Region),
            ident("Typed"),
        ]
    );
    assert_eq!(tokens("@embed"), vec![Token::Embed]);
}

#[test]
fn every_reserved_word() {
    let words = "module is body import as end constant type function generic record union case of \
                 when typeclass instance method if then else let var while for do from to borrow \
                 return skip pragma sizeof nil true false and or not";
    assert_eq!(
        tokens(words),
        vec![
            Token::Module,
            Token::Is,
            Token::Body,
            Token::Import,
            Token::As,
            Token::End,
            Token::Constant,
            Token::Type,
            Token::Function,
            Token::Generic,
            Token::Record,
            Token::Union,
            Token::Case,
            Token::Of,
            Token::When,
            Token::TypeClass,
            Token::Instance,
            Token::Method,
            Token::If,
            Token::Then,
            Token::Else,
            Token::Let,
            Token::Var,
            Token::While,
            Token::For,
            Token::Do,
            Token::From,
            Token::To,
            Token::Borrow,
            Token::Return,
            Token::Skip,
            Token::Pragma,
            Token::SizeOf,
            Token::Nil,
            Token::True,
            Token::False,
            Token::And,
            Token::Or,
            Token::Not,
        ]
    );
}

#[test]
fn numbers() {
    assert_eq!(tokens("0 12 18446744073709551615"), vec![Token::Decimal(0), Token::Decimal(12), Token::Decimal(u64::MAX)]);
    assert_eq!(tokens("1.5"), vec![Token::Float("1.5".to_string())]);
    assert_eq!(tokens("12."), vec![Token::Float("12.".to_string())]);
    assert_eq!(tokens("-1.0"), vec![Token::Float("-1.0".to_string())]);
    assert_eq!(tokens("+2.5e10"), vec![Token::Float("+2.5e10".to_string())]);
    assert_eq!(tokens("2.5E-3"), vec![Token::Float("2.5E-3".to_string())]);
    // an exponent needs a digit
    assert_eq!(tokens("2.5e"), vec![Token::Float("2.5".to_string()), ident("e")]);
    // a sign belongs to a float only
    assert_eq!(tokens("-1"), vec![Token::Sub, Token::Decimal(1)]);
    assert_eq!(tokens("a - 1"), vec![ident("a"), Token::Sub, Token::Decimal(1)]);
    let value = match &tokens("10.0")[0] {
        Token::Float(text) => text.parse::<f64>().unwrap(),
        _ => panic!("not a float"),
    };
    assert_eq!(value, 10.0);
}

#[test]
fn decimal_beyond_u64_is_no_token() {
    match lex("18446744073709551616").unwrap_err() {
        Error::UnexpectedInput(text, range) => {
            assert_eq!(text, "1");
            assert_eq!(range, 0..1);
        }
    }
}

#[test]
fn character_literals() {
    assert_eq!(tokens("'a'"), vec![Token::Char('a')]);
    assert_eq!(tokens(r"'\''"), vec![Token::Char('\'')]);
    assert_eq!(tokens(r"'\'"), vec![Token::Char('\\')]);
    assert_eq!(tokens("'é'"), vec![Token::Char('é')]);
    assert!(lex("''").is_err());
    assert!(lex("'ab'").is_err());
}

#[test]
fn strings() {
    assert_eq!(tokens(r#""hello world""#), vec![Token::String("hello world".to_string())]);
    assert_eq!(tokens(r#""""#), vec![Token::String("".to_string())]);
    assert_eq!(tokens(r#""a\"b""#), vec![Token::String("a\"b".to_string())]);
    assert_eq!(tokens(r#""a\\""#), vec![Token::String("a\\".to_string())]);
    assert_eq!(tokens(r#""a\nb""#), vec![Token::String("a\\nb".to_string())]);
    // a string does not run over the end of a line
    assert!(lex("\"abc\ndef\"").is_err());
    assert!(lex("\"abc").is_err());
}

#[test]
fn triple_quoted_strings() {
    assert_eq!(tokens("\"\"\"doc\"\"\""), vec![Token::TripleString("doc".to_string())]);
    assert_eq!(
        tokens("\"\"\"two\nlines\"\"\" x"),
        vec![Token::TripleString("two\nlines".to_string()), ident("x")]
    );
    assert_eq!(tokens("\"\"\"a \"quoted\" word\"\"\""), vec![Token::TripleString("a \"quoted\" word".to_string())]);
    assert!(lex("\"\"\"never closed\"\"").is_err());
}

#[test]
fn unescaping() {
    assert_eq!(unescape_string(r"plain").text(), "plain");
    assert_eq!(unescape_string(r"a\\b").text(), r"a\b");
    assert_eq!(unescape_string(r#"a\"b"#).text(), "a\"b");
    assert_eq!(unescape_string(r"a\nb").text(), r"a\nb");
    assert_eq!(unescape_string(r"tail\").text(), r"tail\");
    assert_eq!(unescape_string(r"\\\\").text(), r"\\");
    assert_eq!(unescape_string("").text(), "");
}

#[test]
fn unexpected_input_names_the_character_and_its_bytes() {
    match lex("let x := #;").unwrap_err() {
        Error::UnexpectedInput(text, range) => {
            assert_eq!(text, "#");
            assert_eq!(range, 9..10);
        }
    }
    // bytes, not characters: é takes two
    match lex("'é' ?").unwrap_err() {
        Error::UnexpectedInput(text, range) => {
            assert_eq!(text, "?");
            assert_eq!(range, 5..6);
        }
    }
    match lex("€").unwrap_err() {
        Error::UnexpectedInput(text, range) => {
            assert_eq!(text, "€");
            assert_eq!(range, 0..3);
        }
    }
    assert!(lex("@embe").is_err());
}

#[test]
fn spans_count_lines_and_columns_from_one() {
    let lexed = lex("let x\n  := 10;").unwrap();
    let spans: Vec<(SpanLocation, SpanLocation)> = lexed.iter().map(|(_, s)| (s.start(), s.end())).collect();
    let at = |line, column| SpanLocation { line, column };
    assert_eq!(
        spans,
        vec![
            (at(1, 1), at(1, 4)),
            (at(1, 5), at(1, 6)),
            (at(2, 3), at(2, 5)),
            (at(2, 6), at(2, 8)),
            (at(2, 8), at(2, 9)),
        ]
    );
    assert!(lex("").unwrap().is_empty());
    assert!(lex(" \t\r\n").unwrap().is_empty());
}

#[test]
fn a_text_without_escapes_comes_back_borrowed() {
    let plain = "hello world";
    assert_eq!(unescape_string(plain), Unescaped::Borrowed("hello world"));
    match unescape_string(plain) {
        Unescaped::Borrowed(same) => assert!(std::ptr::eq(same, plain)),
        Unescaped::Owned(_) => panic!("written anew"),
    }
    // a backslash that escapes nothing is no escape
    assert_eq!(unescape_string(r"a\nb"), Unescaped::Borrowed(r"a\nb"));
    assert_eq!(unescape_string(r"tail\"), Unescaped::Borrowed(r"tail\"));
    assert_eq!(unescape_string(""), Unescaped::Borrowed(""));
    assert_eq!(unescape_string(r#"a\"b"#), Unescaped::Owned("a\"b".to_string()));
    assert_eq!(unescape_string(r"a\\b"), Unescaped::Owned(r"a\b".to_string()));
}

#[test]
fn a_string_is_read_from_the_text_after_its_opening_quote() {
    let rest = chars_of("hello world\" and more");
    let once = read_string(&rest, 0);
    assert_eq!(once, Some(("hello world".to_string(), 12)));
    // what is read is a function of the text: a second reading gives the same
    assert_eq!(read_string(&rest, 0), once);
    assert_eq!(read_string(&rest, 6), Some(("world".to_string(), 12)));
    assert_eq!(read_string(&chars_of(r#"a\"b" c"#), 0), Some(("a\"b".to_string(), 5)));
    assert_eq!(read_string(&chars_of("no end"), 0), None);
    assert_eq!(read_string(&chars_of("line\nends\""), 0), None);
    assert_eq!(read_string(&rest, 100), None);
    let doc = chars_of("two\nlines \\\"quoted\\\"\"\"\" rest");
    assert_eq!(read_triple_string(&doc, 0), Some(("two\nlines \"quoted\"".to_string(), 23)));
    assert_eq!(read_triple_string(&doc, 0), read_triple_string(&doc, 0));
    assert_eq!(read_triple_string(&chars_of("open \"\" only"), 0), None);
}
