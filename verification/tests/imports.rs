use austral_lib::ast::{Ident, ImportStmt, ImportedSymbol};
use austral_lib::lexer::Token;

fn ident(name: &str) -> Token {
    Token::Ident(name.to_string())
}

#[test]
fn parse_import_stmt() {
    let tokens = [
        Token::Import,
        ident("A"),
        Token::Period,
        ident("B"),
        Token::Period,
        ident("C"),
        Token::LParen,
        Token::RParen,
        Token::Semi,
    ];

    assert_eq!(
        ImportStmt::parser(&tokens),
        Ok(ImportStmt {
            module: vec![Ident::new("A"), Ident::new("B"), Ident::new("C")],
            symbols: Vec::new(),
        })
    );
}

#[test]
fn parse_imported_symbol() {
    assert_eq!(
        ImportedSymbol::parser(&[ident("a")]),
        Ok(ImportedSymbol { import_name: Ident::new("a"), rename_into: None }),
    );
    assert_eq!(
        ImportedSymbol::parser(&[ident("a"), Token::As, ident("b")]),
        Ok(ImportedSymbol { import_name: Ident::new("a"), rename_into: Some(Ident::new("b")) }),
    );
}

#[test]
fn import_with_symbols() {
    let tokens = [
        Token::Import,
        ident("Austral"),
        Token::Period,
        ident("Memory"),
        Token::LParen,
        ident("Pointer"),
        Token::Comma,
        ident("load"),
        Token::As,
        ident("read"),
        Token::Comma,
        Token::RParen,
        Token::Semi,
    ];
    assert_eq!(
        ImportStmt::parser(&tokens),
        Ok(ImportStmt {
            module: vec![Ident::new("Austral"), Ident::new("Memory")],
            symbols: vec![
                ImportedSymbol { import_name: Ident::new("Pointer"), rename_into: None },
                ImportedSymbol { import_name: Ident::new("load"), rename_into: Some(Ident::new("read")) },
            ],
        })
    );
}

#[test]
fn import_needs_a_module_name() {
    let err = ImportStmt::parser(&[Token::Import, Token::LParen, Token::RParen, Token::Semi]).unwrap_err();
    assert_eq!(err.position, 1);
    let err = ImportStmt::parser(&[Token::Import, ident("A"), Token::Period, Token::LParen]).unwrap_err();
    assert_eq!(err.position, 3);
}
