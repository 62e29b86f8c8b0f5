//! Import statements.

use crate::ast::common::{Ident, ident_at, ident_tokens, lemma_ident_spelled, parse_ident};
use crate::ast::grammar::{
    close, closing, complete, expect, fail, kind_at, lemma_spelled_more, lemma_spelled_nothing,
    lemma_spelled_then, lemma_spelled_token, Listed, listed, missing, Parsed, parsed,
    parsed_whole, ParseError, ParseFailure, peek, plain, spelled, whole,
};
use crate::ast::statements::{lemma_rename_spelled, parse_rename, rename_at, rename_tokens};
use crate::lexer::{Token, TokenKind, TokenView};
use vstd::prelude::*;

verus! {

/// An import: the path of the module, which has at least one name, and the symbols taken from it.
#[derive(Debug, PartialEq, Eq, Hash)]
pub struct ImportStmt {
    pub module: Vec<Ident>,
    pub symbols: Vec<ImportedSymbol>,
}

/// A value of `ImportStmt` as plain data.
pub struct ImportStmtView {
    pub module: Seq<Seq<char>>,
    pub symbols: Seq<ImportedSymbolView>,
}

impl DeepView for ImportStmt {
    type V = ImportStmtView;

    open spec fn deep_view(&self) -> ImportStmtView {
        ImportStmtView {
            module: self.module.deep_view(),
            symbols: self.symbols.deep_view(),
        }
    }
}

/// An imported symbol: its name in the module, and the name it goes by here if that is another.
#[derive(Debug, PartialEq, Eq, Hash)]
pub struct ImportedSymbol {
    pub import_name: Ident,
    pub rename_into: Option<Ident>,
}

/// A value of `ImportedSymbol` as plain data.
pub struct ImportedSymbolView {
    pub import_name: Seq<char>,
    pub rename_into: Option<Seq<char>>,
}

impl DeepView for ImportedSymbol {
    type V = ImportedSymbolView;

    open spec fn deep_view(&self) -> ImportedSymbolView {
        ImportedSymbolView {
            import_name: self.import_name.deep_view(),
            rename_into: self.rename_into.deep_view(),
        }
    }
}

/// The rule of imported symbols: `name` or `name as other`.
#[verifier::opaque]
pub open spec fn imported_symbol_at(ts: Seq<Token>, pos: int) -> Parsed<ImportedSymbolView>
{
    match ident_at(ts, pos) {
        Err(f) => Err(f),
        Ok((import_name, n1)) => {
            match rename_at(ts, pos + n1) {
                Err(f) => Err(f),
                Ok((rename_into, n2)) => {
                    Ok((ImportedSymbolView { import_name, rename_into }, n1 + n2))
                },
            }
        },
    }
}

/// Parses by the rule `imported_symbol_at` at a position: the value and the
/// position after it, or the failure.
pub fn parse_imported_symbol(
    ts: &[Token],
    pos: usize,
) -> (r: Result<(ImportedSymbol, usize), ParseError>)
    requires
        pos <= ts.len(),
    ensures
        parsed(r, pos, ts.len(), imported_symbol_at(ts@, pos as int)),
        r is Ok ==> r->Ok_0.1 > pos,
{
    proof {
        reveal(imported_symbol_at);
    }
    let (import_name, p1) = parse_ident(ts, pos)?;
    let (rename_into, p2) = parse_rename(ts, p1)?;
    Ok((ImportedSymbol { import_name, rename_into }, p2))
}

/// What the rule `imported_symbol_at` gives, as tokens.
pub open spec fn imported_symbol_tokens(v: ImportedSymbolView) -> Seq<TokenView>
{
    ident_tokens(v.import_name) + rename_tokens(v.rename_into)
}

/// The tokens that the rule `imported_symbol_at` read are the tokens that its value prints
/// as, unless it read a token that the value does not show.
pub proof fn lemma_imported_symbol_spelled(ts: Seq<Token>, pos: int)
    requires
        0 <= pos <= ts.len(),
        imported_symbol_at(ts, pos) is Ok,
    ensures
        spelled(
            ts,
            pos,
            imported_symbol_at(ts, pos)->Ok_0.1,
            imported_symbol_tokens(imported_symbol_at(ts, pos)->Ok_0.0),
        ),
{
    reveal(imported_symbol_at);
    let (import_name, n1) = ident_at(ts, pos)->Ok_0;
    lemma_ident_spelled(ts, pos);
    let (rename_into, n2) = rename_at(ts, pos + n1)->Ok_0;
    lemma_rename_spelled(ts, pos + n1);
    lemma_spelled_then(ts, pos, n1, ident_tokens(import_name), n2, rename_tokens(rename_into));
}

/// Imported symbols separated by commas, where a comma may follow the last.
#[verifier::opaque]
pub open spec fn imported_symbols_at(
    ts: Seq<Token>,
    pos: int,
    acc: Seq<ImportedSymbolView>,
) -> Listed<ImportedSymbolView>
    decreases ts.len() - pos,
{
    match imported_symbol_at(ts, pos) {
        Err(f) => Listed { items: acc, taken: 0, stopped: f },
        Ok((item, n)) => if kind_at(ts, pos + n) == TokenKind::Comma {
            imported_symbols_at(ts, pos + n + 1, acc.push(item)).advance(n + 1)
        } else {
            Listed {
                items: acc.push(item),
                taken: n,
                stopped: ParseFailure { at: pos + n, expected: seq![TokenKind::Comma] },
            }
        },
    }
}

/// Parses the items of a list from a position by the rule
/// `imported_symbols_at`: the items, the position after them, and the failure
/// that ended the list.
pub fn parse_imported_symbols(
    ts: &[Token],
    pos: usize,
) -> (r: (Vec<ImportedSymbol>, usize, ParseError))
    requires
        pos <= ts.len(),
    ensures
        listed(r, pos, ts.len(), imported_symbols_at(ts@, pos as int, Seq::empty())),
{
    let mut items: Vec<ImportedSymbol> = Vec::new();
    let mut cur: usize = pos;
    let mut stopped: Option<ParseError> = None;
    assert(items.deep_view() =~= Seq::empty());
    while stopped.is_none()
        invariant
            pos <= cur <= ts.len(),
            stopped is None ==> imported_symbols_at(ts@, pos as int, Seq::empty()) == imported_symbols_at(
                ts@,
                cur as int,
                items.deep_view(),
            ).advance((cur - pos) as nat),
            stopped is Some ==> imported_symbols_at(ts@, pos as int, Seq::empty()) == (Listed {
                items: items.deep_view(),
                taken: (cur - pos) as nat,
                stopped: stopped->0@,
            }),
        decreases ts.len() - cur + (if stopped is None { 1int } else { 0int }),
    {
        proof {
            reveal(imported_symbols_at);
        }
        match parse_imported_symbol(ts, cur) {
            Err(e) => {
                stopped = Some(e);
            },
            Ok((item, p)) => {
                let ghost before = items.deep_view();
                let ghost added = item.deep_view();
                items.push(item);
                assert(items.deep_view() =~= before.push(added));
                if peek(ts, p) == TokenKind::Comma {
                    cur = p + 1;
                } else {
                    cur = p;
                    stopped = Some(missing(p, TokenKind::Comma));
                }
            },
        }
    }
    (items, cur, stopped.unwrap())
}

/// The items of a list that the rule `imported_symbols_at` gives, from index `from` on, as
/// tokens, with commas between them.
pub open spec fn imported_symbols_tokens(
    items: Seq<ImportedSymbolView>,
    from: nat,
) -> Seq<TokenView>
    decreases items.len() - from,
{
    if from >= items.len() {
        Seq::empty()
    } else if from + 1 == items.len() {
        imported_symbol_tokens(items[from as int])
    } else {
        imported_symbol_tokens(items[from as int])
            + plain(TokenKind::Comma)
            + imported_symbols_tokens(
            items,
            from + 1,
        )
    }
}

/// The tokens that the list rule `imported_symbols_at` read are the tokens that the
/// items it added print as, unless it read a token that they do not show.
/// The list keeps the items it started from.
pub proof fn lemma_imported_symbols_spelled(ts: Seq<Token>, pos: int, acc: Seq<ImportedSymbolView>)
    requires
        0 <= pos <= ts.len(),
    ensures
        imported_symbols_at(ts, pos, acc).items.len() >= acc.len(),
        imported_symbols_at(
            ts,
            pos,
            acc,
        ).items.len() == acc.len() ==> imported_symbols_at(ts, pos, acc).taken == 0,
        forall|i: int| 0 <= i < acc.len() ==> imported_symbols_at(ts, pos, acc).items[i] == acc[i],
        spelled(
            ts,
            pos,
            imported_symbols_at(ts, pos, acc).taken,
            imported_symbols_tokens(imported_symbols_at(ts, pos, acc).items, acc.len()),
        ),
    decreases ts.len() - pos,
{
    reveal(imported_symbols_at);
    match imported_symbol_at(ts, pos) {
        Err(_) => {
            lemma_spelled_nothing(ts, pos, 0);
        },
        Ok((item, n)) => {
            let pushed = acc.push(item);
            assert forall|i: int| 0 <= i < acc.len() implies pushed[i] == acc[i] by {}
            lemma_imported_symbol_spelled(ts, pos);
            if kind_at(ts, pos + n) == TokenKind::Comma {
                let rest = imported_symbols_at(ts, pos + n + 1, pushed);
                lemma_imported_symbols_spelled(ts, pos + n + 1, pushed);
                assert(pushed[acc.len() as int] == item);
                assert(rest.items[acc.len() as int] == pushed[acc.len() as int]);
                if rest.items.len() == pushed.len() {
                    lemma_spelled_more(ts, pos, n, imported_symbol_tokens(item), 1);
                } else {
                    lemma_spelled_token(ts, pos + n, TokenKind::Comma);
                    lemma_spelled_then(
                        ts,
                        pos,
                        n,
                        imported_symbol_tokens(item),
                        1,
                        plain(TokenKind::Comma),
                    );
                    lemma_spelled_then(
                        ts,
                        pos,
                        n + 1,
                        imported_symbol_tokens(item) + plain(TokenKind::Comma),
                        rest.taken,
                        imported_symbols_tokens(rest.items, pushed.len()),
                    );
                }
            } else {
                assert(pushed[acc.len() as int] == item);
            }
        },
    }
}

/// The path of a module: identifiers separated by `.`, at least one, added
/// to those read before.
#[verifier::opaque]
pub open spec fn module_path_at(
    ts: Seq<Token>,
    pos: int,
    acc: Seq<Seq<char>>,
) -> Parsed<Seq<Seq<char>>>
    decreases ts.len() - pos,
{
    match ident_at(ts, pos) {
        Err(f) => Err(f),
        Ok((name, n)) => if kind_at(ts, pos + n) == TokenKind::Period {
            match module_path_at(ts, pos + n + 1, acc.push(name)) {
                Ok((path, m)) => Ok((path, n + m + 1)),
                Err(f) => Err(f),
            }
        } else {
            Ok((acc.push(name), n))
        },
    }
}

/// The path of a module from its first name.
pub open spec fn whole_module_path_at(ts: Seq<Token>, pos: int) -> Parsed<Seq<Seq<char>>> {
    module_path_at(ts, pos, Seq::empty())
}

/// The path of a module as tokens: its names from index `from` on, with
/// `.` between them.
pub open spec fn module_path_tokens(names: Seq<Seq<char>>, from: nat) -> Seq<TokenView>
    decreases names.len() - from,
{
    if from >= names.len() {
        Seq::empty()
    } else if from + 1 == names.len() {
        ident_tokens(names[from as int])
    } else {
        ident_tokens(names[from as int]) + plain(TokenKind::Period) + module_path_tokens(
            names,
            from + 1,
        )
    }
}

/// The path of a module as tokens.
pub open spec fn whole_module_path_tokens(v: Seq<Seq<char>>) -> Seq<TokenView> {
    module_path_tokens(v, 0)
}

/// The tokens that a module path was read from are the tokens that the
/// names it added print as. The path keeps the names it started from.
pub proof fn lemma_module_path_spelled(ts: Seq<Token>, pos: int, acc: Seq<Seq<char>>)
    requires
        0 <= pos <= ts.len(),
        module_path_at(ts, pos, acc) is Ok,
    ensures
        module_path_at(ts, pos, acc)->Ok_0.0.len() > acc.len(),
        forall|i: int| 0 <= i < acc.len() ==> module_path_at(ts, pos, acc)->Ok_0.0[i] == acc[i],
        spelled(
            ts,
            pos,
            module_path_at(ts, pos, acc)->Ok_0.1,
            module_path_tokens(module_path_at(ts, pos, acc)->Ok_0.0, acc.len()),
        ),
    decreases ts.len() - pos,
{
    reveal(module_path_at);
    let (name, n) = ident_at(ts, pos)->Ok_0;
    let pushed = acc.push(name);
    assert forall|i: int| 0 <= i < acc.len() implies pushed[i] == acc[i] by {}
    assert(pushed[acc.len() as int] == name);
    lemma_ident_spelled(ts, pos);
    if kind_at(ts, pos + n) == TokenKind::Period {
        let (path, m) = module_path_at(ts, pos + n + 1, pushed)->Ok_0;
        lemma_module_path_spelled(ts, pos + n + 1, pushed);
        assert(path[acc.len() as int] == pushed[acc.len() as int]);
        lemma_spelled_token(ts, pos + n, TokenKind::Period);
        lemma_spelled_then(ts, pos, n, ident_tokens(name), 1, plain(TokenKind::Period));
        lemma_spelled_then(
            ts,
            pos,
            n + 1,
            ident_tokens(name) + plain(TokenKind::Period),
            m,
            module_path_tokens(path, pushed.len()),
        );
    }
}

/// What the rule `whole_module_path_at` read prints as the tokens that it read.
pub proof fn lemma_whole_module_path_spelled(ts: Seq<Token>, pos: int)
    requires
        0 <= pos <= ts.len(),
        whole_module_path_at(ts, pos) is Ok,
    ensures
        spelled(
            ts,
            pos,
            whole_module_path_at(ts, pos)->Ok_0.1,
            whole_module_path_tokens(whole_module_path_at(ts, pos)->Ok_0.0),
        ),
{
    lemma_module_path_spelled(ts, pos, Seq::empty());
}

/// Parses by the rule `whole_module_path_at` at a position: the value and the
/// position after it, or the failure.
pub fn parse_whole_module_path(
    ts: &[Token],
    pos: usize,
) -> (r: Result<(Vec<Ident>, usize), ParseError>)
    requires
        pos <= ts.len(),
    ensures
        parsed(r, pos, ts.len(), whole_module_path_at(ts@, pos as int)),
        r is Ok ==> r->Ok_0.1 > pos,
{
    let mut names: Vec<Ident> = Vec::new();
    let mut cur: usize = pos;
    assert(names.deep_view() =~= Seq::empty());
    loop
        invariant
            pos <= cur <= ts.len(),
            cur > pos || names.len() == 0,
            match module_path_at(ts@, cur as int, names.deep_view()) {
                Ok((path, m)) => whole_module_path_at(ts@, pos as int) == Ok::<
                    (Seq<Seq<char>>, nat),
                    ParseFailure,
                >((path, (m + cur - pos) as nat)),
                Err(f) => whole_module_path_at(ts@, pos as int) == Err::<
                    (Seq<Seq<char>>, nat),
                    ParseFailure,
                >(f),
            },
        decreases ts.len() - cur + 1,
    {
        proof {
            reveal(module_path_at);
        }
        let (name, p) = parse_ident(ts, cur)?;
        let ghost before = names.deep_view();
        let ghost added = name.deep_view();
        names.push(name);
        assert(names.deep_view() =~= before.push(added));
        if peek(ts, p) == TokenKind::Period {
            cur = p + 1;
        } else {
            return Ok((names, p));
        }
    }
}

/// The rule of imports: `import A.B.C (symbols);`.
#[verifier::opaque]
pub open spec fn import_stmt_at(ts: Seq<Token>, pos: int) -> Parsed<ImportStmtView>
{
    if kind_at(ts, pos) != TokenKind::Import {
        fail(pos, seq![TokenKind::Import])
    } else {
        match whole_module_path_at(ts, pos + 1) {
            Err(f) => Err(f),
            Ok((module, n1)) => {
                if kind_at(ts, pos + n1 + 1) != TokenKind::LParen {
                    fail(pos + n1 + 1, seq![TokenKind::LParen])
                } else {
                    let symbols_list = imported_symbols_at(ts, pos + n1 + 2, Seq::empty());
                    let symbols = symbols_list.items;
                    let n2 = symbols_list.taken;
                    match closing(ts, pos + n1 + n2 + 2, TokenKind::RParen, symbols_list.stopped) {
                        Some(f) => Err(f),
                        None => {
                            if kind_at(ts, pos + n1 + n2 + 3) != TokenKind::Semi {
                                fail(pos + n1 + n2 + 3, seq![TokenKind::Semi])
                            } else {
                                Ok((ImportStmtView { module, symbols }, n1 + n2 + 4))
                            }
                        },
                    }
                }
            },
        }
    }
}

/// Parses by the rule `import_stmt_at` at a position: the value and the
/// position after it, or the failure.
pub fn parse_import_stmt(ts: &[Token], pos: usize) -> (r: Result<(ImportStmt, usize), ParseError>)
    requires
        pos <= ts.len(),
    ensures
        parsed(r, pos, ts.len(), import_stmt_at(ts@, pos as int)),
        r is Ok ==> r->Ok_0.1 > pos,
{
    proof {
        reveal(import_stmt_at);
    }
    let p1 = expect(ts, pos, TokenKind::Import)?;
    let (module, p2) = parse_whole_module_path(ts, p1)?;
    let p3 = expect(ts, p2, TokenKind::LParen)?;
    let (symbols, symbols_end, symbols_stopped) = parse_imported_symbols(ts, p3);
    let p4 = close(ts, symbols_end, TokenKind::RParen, symbols_stopped)?;
    let p5 = expect(ts, p4, TokenKind::Semi)?;
    Ok((ImportStmt { module, symbols }, p5))
}

/// What the rule `import_stmt_at` gives, as tokens.
pub open spec fn import_stmt_tokens(v: ImportStmtView) -> Seq<TokenView>
{
    plain(TokenKind::Import)
        + whole_module_path_tokens(v.module)
        + plain(TokenKind::LParen)
        + imported_symbols_tokens(v.symbols, 0)
        + plain(TokenKind::RParen)
        + plain(TokenKind::Semi)
}

/// The tokens that the rule `import_stmt_at` read are the tokens that its value prints
/// as, unless it read a token that the value does not show.
pub proof fn lemma_import_stmt_spelled(ts: Seq<Token>, pos: int)
    requires
        0 <= pos <= ts.len(),
        import_stmt_at(ts, pos) is Ok,
    ensures
        spelled(
            ts,
            pos,
            import_stmt_at(ts, pos)->Ok_0.1,
            import_stmt_tokens(import_stmt_at(ts, pos)->Ok_0.0),
        ),
{
    reveal(import_stmt_at);
    lemma_spelled_token(ts, pos, TokenKind::Import);
    let (module, n1) = whole_module_path_at(ts, pos + 1)->Ok_0;
    lemma_whole_module_path_spelled(ts, pos + 1);
    lemma_spelled_token(ts, pos + n1 + 1, TokenKind::LParen);
    let symbols_list = imported_symbols_at(ts, pos + n1 + 2, Seq::empty());
    let symbols = symbols_list.items;
    let n2 = symbols_list.taken;
    lemma_imported_symbols_spelled(ts, pos + n1 + 2, Seq::empty());
    lemma_spelled_token(ts, pos + n1 + n2 + 2, TokenKind::RParen);
    lemma_spelled_token(ts, pos + n1 + n2 + 3, TokenKind::Semi);
    lemma_spelled_then(ts, pos, 1, plain(TokenKind::Import), n1, whole_module_path_tokens(module));
    lemma_spelled_then(
        ts,
        pos,
        1 + n1,
        plain(TokenKind::Import) + whole_module_path_tokens(module),
        1,
        plain(TokenKind::LParen),
    );
    lemma_spelled_then(
        ts,
        pos,
        1 + n1 + 1,
        plain(TokenKind::Import) + whole_module_path_tokens(module) + plain(TokenKind::LParen),
        n2,
        imported_symbols_tokens(symbols, 0),
    );
    lemma_spelled_then(
        ts,
        pos,
        1 + n1 + 1 + n2,
        plain(TokenKind::Import)
            + whole_module_path_tokens(module)
            + plain(TokenKind::LParen)
            + imported_symbols_tokens(symbols, 0),
        1,
        plain(TokenKind::RParen),
    );
    lemma_spelled_then(
        ts,
        pos,
        1 + n1 + 1 + n2 + 1,
        plain(TokenKind::Import)
            + whole_module_path_tokens(module)
            + plain(TokenKind::LParen)
            + imported_symbols_tokens(symbols, 0)
            + plain(TokenKind::RParen),
        1,
        plain(TokenKind::Semi),
    );
}

/// Imports: as many as can be read.
#[verifier::opaque]
pub open spec fn imports_at(
    ts: Seq<Token>,
    pos: int,
    acc: Seq<ImportStmtView>,
) -> Listed<ImportStmtView>
    decreases ts.len() - pos,
{
    match import_stmt_at(ts, pos) {
        Err(f) => Listed { items: acc, taken: 0, stopped: f },
        Ok((item, n)) => if 0 < n && pos + n <= ts.len() {
            imports_at(ts, pos + n, acc.push(item)).advance(n)
        } else {
            Listed { items: acc, taken: 0, stopped: ParseFailure { at: pos, expected: seq![] } }
        },
    }
}

/// Parses the items of a list from a position by the rule `imports_at`: the
/// items, the position after them, and the failure that ended the list.
pub fn parse_imports(ts: &[Token], pos: usize) -> (r: (Vec<ImportStmt>, usize, ParseError))
    requires
        pos <= ts.len(),
    ensures
        listed(r, pos, ts.len(), imports_at(ts@, pos as int, Seq::empty())),
{
    let mut items: Vec<ImportStmt> = Vec::new();
    let mut cur: usize = pos;
    let mut stopped: Option<ParseError> = None;
    assert(items.deep_view() =~= Seq::empty());
    while stopped.is_none()
        invariant
            pos <= cur <= ts.len(),
            stopped is None ==> imports_at(ts@, pos as int, Seq::empty()) == imports_at(
                ts@,
                cur as int,
                items.deep_view(),
            ).advance((cur - pos) as nat),
            stopped is Some ==> imports_at(ts@, pos as int, Seq::empty()) == (Listed {
                items: items.deep_view(),
                taken: (cur - pos) as nat,
                stopped: stopped->0@,
            }),
        decreases ts.len() - cur + (if stopped is None { 1int } else { 0int }),
    {
        proof {
            reveal(imports_at);
        }
        match parse_import_stmt(ts, cur) {
            Err(e) => {
                stopped = Some(e);
            },
            Ok((item, p)) => {
                let ghost before = items.deep_view();
                let ghost added = item.deep_view();
                items.push(item);
                assert(items.deep_view() =~= before.push(added));
                cur = p;
            },
        }
    }
    (items, cur, stopped.unwrap())
}

/// The items of a list that the rule `imports_at` gives, from index `from` on, as
/// tokens, one after the other.
pub open spec fn imports_tokens(items: Seq<ImportStmtView>, from: nat) -> Seq<TokenView>
    decreases items.len() - from,
{
    if from >= items.len() {
        Seq::empty()
    } else {
        import_stmt_tokens(items[from as int]) + imports_tokens(items, from + 1)
    }
}

/// The tokens that the list rule `imports_at` read are the tokens that the
/// items it added print as, unless it read a token that they do not show.
/// The list keeps the items it started from.
pub proof fn lemma_imports_spelled(ts: Seq<Token>, pos: int, acc: Seq<ImportStmtView>)
    requires
        0 <= pos <= ts.len(),
    ensures
        imports_at(ts, pos, acc).items.len() >= acc.len(),
        imports_at(ts, pos, acc).items.len() == acc.len() ==> imports_at(ts, pos, acc).taken == 0,
        forall|i: int| 0 <= i < acc.len() ==> imports_at(ts, pos, acc).items[i] == acc[i],
        spelled(
            ts,
            pos,
            imports_at(ts, pos, acc).taken,
            imports_tokens(imports_at(ts, pos, acc).items, acc.len()),
        ),
    decreases ts.len() - pos,
{
    reveal(imports_at);
    match import_stmt_at(ts, pos) {
        Err(_) => {
            lemma_spelled_nothing(ts, pos, 0);
        },
        Ok((item, n)) => {
            let pushed = acc.push(item);
            assert forall|i: int| 0 <= i < acc.len() implies pushed[i] == acc[i] by {}
            lemma_import_stmt_spelled(ts, pos);
            if 0 < n && pos + n <= ts.len() {
                let rest = imports_at(ts, pos + n, pushed);
                lemma_imports_spelled(ts, pos + n, pushed);
                assert(pushed[acc.len() as int] == item);
                assert(rest.items[acc.len() as int] == pushed[acc.len() as int]);
                lemma_spelled_then(
                    ts,
                    pos,
                    n,
                    import_stmt_tokens(item),
                    rest.taken,
                    imports_tokens(rest.items, pushed.len()),
                );
            } else {
                lemma_spelled_nothing(ts, pos, 0);
            }
        },
    }
}

impl ImportStmt {
    /// Parses the whole of `tokens` by the rule `import_stmt_at`.
    pub fn parser(tokens: &[Token]) -> (r: Result<ImportStmt, ParseError>)
        ensures
            parsed_whole(r, whole(import_stmt_at(tokens@, 0), tokens@.len())),
    {
        complete(parse_import_stmt(tokens, 0), tokens.len(), Ghost(import_stmt_at(tokens@, 0)))
    }
}

impl ImportedSymbol {
    /// Parses the whole of `tokens` by the rule `imported_symbol_at`.
    pub fn parser(tokens: &[Token]) -> (r: Result<ImportedSymbol, ParseError>)
        ensures
            parsed_whole(r, whole(imported_symbol_at(tokens@, 0), tokens@.len())),
    {
        complete(
            parse_imported_symbol(tokens, 0),
            tokens.len(),
            Ghost(imported_symbol_at(tokens@, 0)),
        )
    }
}

} // verus!
