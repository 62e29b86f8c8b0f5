use austral_lib::ast::{literal_bool, literal_char, literal_f64, literal_nil, literal_str, literal_u64};
use austral_lib::lexer::{Token, TokenKind};

#[test]
fn test_literal_str() {
    let hello_world_str = vec![Token::String("hello world".to_string())];
    assert_eq!(literal_str(&hello_world_str).unwrap(), "hello world");

    let empty_str = vec![Token::String("".to_string())];
    assert_eq!(literal_str(&empty_str).unwrap(), "");
}

#[test]
fn test_literal_u64() {
    assert_eq!(literal_u64(&[Token::Decimal(10)]).unwrap(), 10);
    assert_eq!(literal_u64(&[Token::Decimal(0)]).unwrap(), 0);
    assert_eq!(literal_u64(&[Token::Decimal(1)]).unwrap(), 1);
}

#[test]
fn test_literal_f64() {
    let value = |text: &str| -> f64 {
        literal_f64(&[Token::Float(text.to_string())]).unwrap().parse::<f64>().unwrap()
    };
    assert_eq!(value("10.0"), 10.0);
    assert_eq!(value("0.0"), 0.0);
    assert_eq!(value("1.0"), 1.0);
    assert_eq!(value("-1.0"), -1.0);
}

#[test]
fn test_literal_char() {
    assert_eq!(literal_char(&[Token::Char('a')]).unwrap(), 'a');
}

#[test]
fn test_literal_bool() {
    assert!(literal_bool(&[Token::True]).unwrap());
    assert!(!literal_bool(&[Token::False]).unwrap());
}

#[test]
fn test_literal_nil() {
    literal_nil(&[Token::Nil]).unwrap();
}

#[test]
fn literals_reject_other_tokens() {
    let err = literal_nil(&[Token::True]).unwrap_err();
    assert_eq!((err.position, err.expected), (0, vec![TokenKind::Nil]));
    let err = literal_bool(&[Token::Nil]).unwrap_err();
    assert_eq!((err.position, err.expected), (0, vec![TokenKind::True, TokenKind::False]));
    let err = literal_u64(&[]).unwrap_err();
    assert_eq!((err.position, err.expected), (0, vec![TokenKind::Decimal]));
    let err = literal_char(&[Token::Char('a'), Token::Char('b')]).unwrap_err();
    assert_eq!((err.position, err.expected), (1, vec![TokenKind::EndOfInput]));
    assert!(literal_f64(&[Token::Decimal(1)]).is_err());
    assert!(literal_str(&[Token::TripleString("doc".to_string())]).is_err());
}
