//! Functions and methods: their declarations and their definitions.

use crate::ast::common::{
    DocString, generic_clause_at, generic_clause_tokens, Ident, ident_at, ident_tokens,
    lemma_generic_clause_spelled, lemma_ident_spelled, lemma_opt_doc_string_spelled,
    lemma_pragmas_spelled, opt_doc_string_at, opt_doc_string_tokens, parse_generic_clause,
    parse_ident, parse_opt_doc_string, parse_pragmas, Pragma, pragmas_at, pragmas_tokens,
    PragmaView, TypeParam, TypeParamView,
};
use crate::ast::grammar::{
    close, closing, complete, expect, fail, kind_at, lemma_spelled_more, lemma_spelled_nothing,
    lemma_spelled_then, lemma_spelled_token, Listed, listed, missing, Parsed, parsed,
    parsed_whole, ParseError, ParseFailure, peek, plain, spelled, whole,
};
use crate::ast::statements::{
    block_at, block_tokens, lemma_block_spelled, parse_block, Statement, StatementView,
};
use crate::ast::types::{
    lemma_type_spec_spelled, parse_type_spec, type_spec_at, type_spec_tokens, TypeSpec,
    TypeSpecView,
};
use crate::lexer::{Token, TokenKind, TokenView};
use vstd::prelude::*;

verus! {

/// A parameter: its name and its type.
#[derive(Debug, PartialEq, Eq, Hash)]
pub struct Param {
    pub name: Ident,
    pub ty: TypeSpec,
}

/// A value of `Param` as plain data.
pub struct ParamView {
    pub name: Seq<char>,
    pub ty: TypeSpecView,
}

impl DeepView for Param {
    type V = ParamView;

    open spec fn deep_view(&self) -> ParamView {
        ParamView {
            name: self.name.deep_view(),
            ty: self.ty.deep_view(),
        }
    }
}

/// The declaration of a function: what an interface says of it.
#[derive(Debug, PartialEq)]
pub struct FunctionDecl {
    pub doc_string: Option<DocString>,
    pub pragmas: Vec<Pragma>,
    pub type_params: Vec<TypeParam>,
    pub name: Ident,
    pub params: Vec<Param>,
    pub ret_type: TypeSpec,
}

/// A value of `FunctionDecl` as plain data.
pub struct FunctionDeclView {
    pub doc_string: Option<Seq<char>>,
    pub pragmas: Seq<PragmaView>,
    pub type_params: Seq<TypeParamView>,
    pub name: Seq<char>,
    pub params: Seq<ParamView>,
    pub ret_type: TypeSpecView,
}

impl DeepView for FunctionDecl {
    type V = FunctionDeclView;

    open spec fn deep_view(&self) -> FunctionDeclView {
        FunctionDeclView {
            doc_string: self.doc_string.deep_view(),
            pragmas: self.pragmas.deep_view(),
            type_params: self.type_params.deep_view(),
            name: self.name.deep_view(),
            params: self.params.deep_view(),
            ret_type: self.ret_type.deep_view(),
        }
    }
}

/// The definition of a function: its declaration and its body.
#[derive(Debug, PartialEq)]
pub struct FunctionDef {
    pub decl: FunctionDecl,
    pub body: Vec<Statement>,
}

/// A value of `FunctionDef` as plain data.
pub struct FunctionDefView {
    pub decl: FunctionDeclView,
    pub body: Seq<StatementView>,
}

impl DeepView for FunctionDef {
    type V = FunctionDefView;

    open spec fn deep_view(&self) -> FunctionDefView {
        FunctionDefView {
            decl: self.decl.deep_view(),
            body: self.body.deep_view(),
        }
    }
}

/// The declaration of a method of a typeclass or an instance.
#[derive(Debug, PartialEq)]
pub struct MethodDecl {
    pub doc_string: Option<DocString>,
    pub type_params: Vec<TypeParam>,
    pub name: Ident,
    pub params: Vec<Param>,
    pub ret_ty: TypeSpec,
}

/// A value of `MethodDecl` as plain data.
pub struct MethodDeclView {
    pub doc_string: Option<Seq<char>>,
    pub type_params: Seq<TypeParamView>,
    pub name: Seq<char>,
    pub params: Seq<ParamView>,
    pub ret_ty: TypeSpecView,
}

impl DeepView for MethodDecl {
    type V = MethodDeclView;

    open spec fn deep_view(&self) -> MethodDeclView {
        MethodDeclView {
            doc_string: self.doc_string.deep_view(),
            type_params: self.type_params.deep_view(),
            name: self.name.deep_view(),
            params: self.params.deep_view(),
            ret_ty: self.ret_ty.deep_view(),
        }
    }
}

/// The definition of a method: its declaration and its body.
#[derive(Debug, PartialEq)]
pub struct MethodDef {
    pub decl: MethodDecl,
    pub body: Vec<Statement>,
}

/// A value of `MethodDef` as plain data.
pub struct MethodDefView {
    pub decl: MethodDeclView,
    pub body: Seq<StatementView>,
}

impl DeepView for MethodDef {
    type V = MethodDefView;

    open spec fn deep_view(&self) -> MethodDefView {
        MethodDefView {
            decl: self.decl.deep_view(),
            body: self.body.deep_view(),
        }
    }
}

/// The rule of parameters: `name : T`.
#[verifier::opaque]
pub open spec fn param_at(ts: Seq<Token>, pos: int) -> Parsed<ParamView>
{
    match ident_at(ts, pos) {
        Err(f) => Err(f),
        Ok((name, n1)) => {
            if kind_at(ts, pos + n1) != TokenKind::Colon {
                fail(pos + n1, seq![TokenKind::Colon])
            } else {
                match type_spec_at(ts, pos + n1 + 1) {
                    Err(f) => Err(f),
                    Ok((ty, n2)) => {
                        Ok((ParamView { name, ty }, n1 + n2 + 1))
                    },
                }
            }
        },
    }
}

/// Parses by the rule `param_at` at a position: the value and the position
/// after it, or the failure.
pub fn parse_param(ts: &[Token], pos: usize) -> (r: Result<(Param, usize), ParseError>)
    requires
        pos <= ts.len(),
    ensures
        parsed(r, pos, ts.len(), param_at(ts@, pos as int)),
        r is Ok ==> r->Ok_0.1 > pos,
{
    proof {
        reveal(param_at);
    }
    let (name, p1) = parse_ident(ts, pos)?;
    let p2 = expect(ts, p1, TokenKind::Colon)?;
    let (ty, p3) = parse_type_spec(ts, p2)?;
    Ok((Param { name, ty }, p3))
}

/// What the rule `param_at` gives, as tokens.
pub open spec fn param_tokens(v: ParamView) -> Seq<TokenView>
{
    ident_tokens(v.name)
        + plain(TokenKind::Colon)
        + type_spec_tokens(v.ty)
}

/// The tokens that the rule `param_at` read are the tokens that its value prints
/// as, unless it read a token that the value does not show.
pub proof fn lemma_param_spelled(ts: Seq<Token>, pos: int)
    requires
        0 <= pos <= ts.len(),
        param_at(ts, pos) is Ok,
    ensures
        spelled(ts, pos, param_at(ts, pos)->Ok_0.1, param_tokens(param_at(ts, pos)->Ok_0.0)),
{
    reveal(param_at);
    let (name, n1) = ident_at(ts, pos)->Ok_0;
    lemma_ident_spelled(ts, pos);
    lemma_spelled_token(ts, pos + n1, TokenKind::Colon);
    let (ty, n2) = type_spec_at(ts, pos + n1 + 1)->Ok_0;
    lemma_type_spec_spelled(ts, pos + n1 + 1);
    lemma_spelled_then(ts, pos, n1, ident_tokens(name), 1, plain(TokenKind::Colon));
    lemma_spelled_then(
        ts,
        pos,
        n1 + 1,
        ident_tokens(name) + plain(TokenKind::Colon),
        n2,
        type_spec_tokens(ty),
    );
}

/// Parameters separated by commas, where a comma may follow the last.
#[verifier::opaque]
pub open spec fn params_at(ts: Seq<Token>, pos: int, acc: Seq<ParamView>) -> Listed<ParamView>
    decreases ts.len() - pos,
{
    match param_at(ts, pos) {
        Err(f) => Listed { items: acc, taken: 0, stopped: f },
        Ok((item, n)) => if kind_at(ts, pos + n) == TokenKind::Comma {
            params_at(ts, pos + n + 1, acc.push(item)).advance(n + 1)
        } else {
            Listed {
                items: acc.push(item),
                taken: n,
                stopped: ParseFailure { at: pos + n, expected: seq![TokenKind::Comma] },
            }
        },
    }
}

/// Parses the items of a list from a position by the rule `params_at`: the
/// items, the position after them, and the failure that ended the list.
pub fn parse_params(ts: &[Token], pos: usize) -> (r: (Vec<Param>, usize, ParseError))
    requires
        pos <= ts.len(),
    ensures
        listed(r, pos, ts.len(), params_at(ts@, pos as int, Seq::empty())),
{
    let mut items: Vec<Param> = Vec::new();
    let mut cur: usize = pos;
    let mut stopped: Option<ParseError> = None;
    assert(items.deep_view() =~= Seq::empty());
    while stopped.is_none()
        invariant
            pos <= cur <= ts.len(),
            stopped is None ==> params_at(ts@, pos as int, Seq::empty()) == params_at(
                ts@,
                cur as int,
                items.deep_view(),
            ).advance((cur - pos) as nat),
            stopped is Some ==> params_at(ts@, pos as int, Seq::empty()) == (Listed {
                items: items.deep_view(),
                taken: (cur - pos) as nat,
                stopped: stopped->0@,
            }),
        decreases ts.len() - cur + (if stopped is None { 1int } else { 0int }),
    {
        proof {
            reveal(params_at);
        }
        match parse_param(ts, cur) {
            Err(e) => {
                stopped = Some(e);
            },
            Ok((item, p)) => {
                let ghost before = items.deep_view();
                let ghost added = item.deep_view();
                items.push(item);
                assert(items.deep_view() =~= before.push(added));
                if peek(ts, p) == TokenKind::Comma {
                    cur = p + 1;
                } else {
                    cur = p;
                    stopped = Some(missing(p, TokenKind::Comma));
                }
            },
        }
    }
    (items, cur, stopped.unwrap())
}

/// The items of a list that the rule `params_at` gives, from index `from` on, as
/// tokens, with commas between them.
pub open spec fn params_tokens(items: Seq<ParamView>, from: nat) -> Seq<TokenView>
    decreases items.len() - from,
{
    if from >= items.len() {
        Seq::empty()
    } else if from + 1 == items.len() {
        param_tokens(items[from as int])
    } else {
        param_tokens(items[from as int]) + plain(TokenKind::Comma) + params_tokens(
            items,
            from + 1,
        )
    }
}

/// The tokens that the list rule `params_at` read are the tokens that the
/// items it added print as, unless it read a token that they do not show.
/// The list keeps the items it started from.
pub proof fn lemma_params_spelled(ts: Seq<Token>, pos: int, acc: Seq<ParamView>)
    requires
        0 <= pos <= ts.len(),
    ensures
        params_at(ts, pos, acc).items.len() >= acc.len(),
        params_at(ts, pos, acc).items.len() == acc.len() ==> params_at(ts, pos, acc).taken == 0,
        forall|i: int| 0 <= i < acc.len() ==> params_at(ts, pos, acc).items[i] == acc[i],
        spelled(
            ts,
            pos,
            params_at(ts, pos, acc).taken,
            params_tokens(params_at(ts, pos, acc).items, acc.len()),
        ),
    decreases ts.len() - pos,
{
    reveal(params_at);
    match param_at(ts, pos) {
        Err(_) => {
            lemma_spelled_nothing(ts, pos, 0);
        },
        Ok((item, n)) => {
            let pushed = acc.push(item);
            assert forall|i: int| 0 <= i < acc.len() implies pushed[i] == acc[i] by {}
            lemma_param_spelled(ts, pos);
            if kind_at(ts, pos + n) == TokenKind::Comma {
                let rest = params_at(ts, pos + n + 1, pushed);
                lemma_params_spelled(ts, pos + n + 1, pushed);
                assert(pushed[acc.len() as int] == item);
                assert(rest.items[acc.len() as int] == pushed[acc.len() as int]);
                if rest.items.len() == pushed.len() {
                    lemma_spelled_more(ts, pos, n, param_tokens(item), 1);
                } else {
                    lemma_spelled_token(ts, pos + n, TokenKind::Comma);
                    lemma_spelled_then(ts, pos, n, param_tokens(item), 1, plain(TokenKind::Comma));
                    lemma_spelled_then(
                        ts,
                        pos,
                        n + 1,
                        param_tokens(item) + plain(TokenKind::Comma),
                        rest.taken,
                        params_tokens(rest.items, pushed.len()),
                    );
                }
            } else {
                assert(pushed[acc.len() as int] == item);
            }
        },
    }
}

/// The rule of function declarations: a docstring and pragmas if there are any, the type parameters if there are any, then `function name(parameters) : T;`.
#[verifier::opaque]
pub open spec fn function_decl_at(ts: Seq<Token>, pos: int) -> Parsed<FunctionDeclView>
{
    let (doc_string, n1) = opt_doc_string_at(ts, pos);
    let pragmas_list = pragmas_at(ts, pos + n1, Seq::empty());
    let pragmas = pragmas_list.items;
    let n2 = pragmas_list.taken;
    match generic_clause_at(ts, pos + n1 + n2) {
        Err(f) => Err(f),
        Ok((type_params, n3)) => {
            if kind_at(ts, pos + n1 + n2 + n3) != TokenKind::Function {
                fail(pos + n1 + n2 + n3, seq![TokenKind::Function])
            } else {
                match ident_at(ts, pos + n1 + n2 + n3 + 1) {
                    Err(f) => Err(f),
                    Ok((name, n4)) => {
                        if kind_at(ts, pos + n1 + n2 + n3 + n4 + 1) != TokenKind::LParen {
                            fail(pos + n1 + n2 + n3 + n4 + 1, seq![TokenKind::LParen])
                        } else {
                            let params_list = params_at(
                                ts,
                                pos + n1 + n2 + n3 + n4 + 2,
                                Seq::empty(),
                            );
                            let params = params_list.items;
                            let n5 = params_list.taken;
                            match closing(
                                ts,
                                pos + n1 + n2 + n3 + n4 + n5 + 2,
                                TokenKind::RParen,
                                params_list.stopped,
                            ) {
                                Some(f) => Err(f),
                                None => {
                                    if kind_at(
                                        ts,
                                        pos + n1 + n2 + n3 + n4 + n5 + 3,
                                    ) != TokenKind::Colon {
                                        fail(
                                            pos + n1 + n2 + n3 + n4 + n5 + 3,
                                            seq![TokenKind::Colon],
                                        )
                                    } else {
                                        match type_spec_at(ts, pos + n1 + n2 + n3 + n4 + n5 + 4) {
                                            Err(f) => Err(f),
                                            Ok((ret_type, n6)) => {
                                                if kind_at(
                                                    ts,
                                                    pos + n1 + n2 + n3 + n4 + n5 + n6 + 4,
                                                ) != TokenKind::Semi {
                                                    fail(
                                                        pos + n1 + n2 + n3 + n4 + n5 + n6 + 4,
                                                        seq![TokenKind::Semi],
                                                    )
                                                } else {
                                                    Ok((FunctionDeclView { doc_string, pragmas, type_params, name, params, ret_type }, n1 + n2 + n3 + n4 + n5 + n6 + 5))
                                                }
                                            },
                                        }
                                    }
                                },
                            }
                        }
                    },
                }
            }
        },
    }
}

/// Parses by the rule `function_decl_at` at a position: the value and the
/// position after it, or the failure.
pub fn parse_function_decl(
    ts: &[Token],
    pos: usize,
) -> (r: Result<(FunctionDecl, usize), ParseError>)
    requires
        pos <= ts.len(),
    ensures
        parsed(r, pos, ts.len(), function_decl_at(ts@, pos as int)),
        r is Ok ==> r->Ok_0.1 > pos,
{
    proof {
        reveal(function_decl_at);
    }
    let (doc_string, p1) = parse_opt_doc_string(ts, pos);
    let (pragmas, p2, _) = parse_pragmas(ts, p1);
    let (type_params, p3) = parse_generic_clause(ts, p2)?;
    let p4 = expect(ts, p3, TokenKind::Function)?;
    let (name, p5) = parse_ident(ts, p4)?;
    let p6 = expect(ts, p5, TokenKind::LParen)?;
    let (params, params_end, params_stopped) = parse_params(ts, p6);
    let p7 = close(ts, params_end, TokenKind::RParen, params_stopped)?;
    let p8 = expect(ts, p7, TokenKind::Colon)?;
    let (ret_type, p9) = parse_type_spec(ts, p8)?;
    let p10 = expect(ts, p9, TokenKind::Semi)?;
    Ok((FunctionDecl { doc_string, pragmas, type_params, name, params, ret_type }, p10))
}

/// What the rule `function_decl_at` gives, as tokens.
pub open spec fn function_decl_tokens(v: FunctionDeclView) -> Seq<TokenView>
{
    opt_doc_string_tokens(v.doc_string)
        + pragmas_tokens(v.pragmas, 0)
        + generic_clause_tokens(v.type_params)
        + plain(TokenKind::Function)
        + ident_tokens(v.name)
        + plain(TokenKind::LParen)
        + params_tokens(v.params, 0)
        + plain(TokenKind::RParen)
        + plain(TokenKind::Colon)
        + type_spec_tokens(v.ret_type)
        + plain(TokenKind::Semi)
}

/// The tokens that the rule `function_decl_at` read are the tokens that its value prints
/// as, unless it read a token that the value does not show.
pub proof fn lemma_function_decl_spelled(ts: Seq<Token>, pos: int)
    requires
        0 <= pos <= ts.len(),
        function_decl_at(ts, pos) is Ok,
    ensures
        spelled(
            ts,
            pos,
            function_decl_at(ts, pos)->Ok_0.1,
            function_decl_tokens(function_decl_at(ts, pos)->Ok_0.0),
        ),
{
    reveal(function_decl_at);
    let (doc_string, n1) = opt_doc_string_at(ts, pos);
    lemma_opt_doc_string_spelled(ts, pos);
    let pragmas_list = pragmas_at(ts, pos + n1, Seq::empty());
    let pragmas = pragmas_list.items;
    let n2 = pragmas_list.taken;
    lemma_pragmas_spelled(ts, pos + n1, Seq::empty());
    let (type_params, n3) = generic_clause_at(ts, pos + n1 + n2)->Ok_0;
    lemma_generic_clause_spelled(ts, pos + n1 + n2);
    lemma_spelled_token(ts, pos + n1 + n2 + n3, TokenKind::Function);
    let (name, n4) = ident_at(ts, pos + n1 + n2 + n3 + 1)->Ok_0;
    lemma_ident_spelled(ts, pos + n1 + n2 + n3 + 1);
    lemma_spelled_token(ts, pos + n1 + n2 + n3 + n4 + 1, TokenKind::LParen);
    let params_list = params_at(ts, pos + n1 + n2 + n3 + n4 + 2, Seq::empty());
    let params = params_list.items;
    let n5 = params_list.taken;
    lemma_params_spelled(ts, pos + n1 + n2 + n3 + n4 + 2, Seq::empty());
    lemma_spelled_token(ts, pos + n1 + n2 + n3 + n4 + n5 + 2, TokenKind::RParen);
    lemma_spelled_token(ts, pos + n1 + n2 + n3 + n4 + n5 + 3, TokenKind::Colon);
    let (ret_type, n6) = type_spec_at(ts, pos + n1 + n2 + n3 + n4 + n5 + 4)->Ok_0;
    lemma_type_spec_spelled(ts, pos + n1 + n2 + n3 + n4 + n5 + 4);
    lemma_spelled_token(ts, pos + n1 + n2 + n3 + n4 + n5 + n6 + 4, TokenKind::Semi);
    lemma_spelled_then(
        ts,
        pos,
        n1,
        opt_doc_string_tokens(doc_string),
        n2,
        pragmas_tokens(pragmas, 0),
    );
    lemma_spelled_then(
        ts,
        pos,
        n1 + n2,
        opt_doc_string_tokens(doc_string) + pragmas_tokens(pragmas, 0),
        n3,
        generic_clause_tokens(type_params),
    );
    lemma_spelled_then(
        ts,
        pos,
        n1 + n2 + n3,
        opt_doc_string_tokens(doc_string)
            + pragmas_tokens(pragmas, 0)
            + generic_clause_tokens(type_params),
        1,
        plain(TokenKind::Function),
    );
    lemma_spelled_then(
        ts,
        pos,
        n1 + n2 + n3 + 1,
        opt_doc_string_tokens(doc_string)
            + pragmas_tokens(pragmas, 0)
            + generic_clause_tokens(type_params)
            + plain(TokenKind::Function),
        n4,
        ident_tokens(name),
    );
    lemma_spelled_then(
        ts,
        pos,
        n1 + n2 + n3 + 1 + n4,
        opt_doc_string_tokens(doc_string)
            + pragmas_tokens(pragmas, 0)
            + generic_clause_tokens(type_params)
            + plain(TokenKind::Function)
            + ident_tokens(name),
        1,
        plain(TokenKind::LParen),
    );
    lemma_spelled_then(
        ts,
        pos,
        n1 + n2 + n3 + 1 + n4 + 1,
        opt_doc_string_tokens(doc_string)
            + pragmas_tokens(pragmas, 0)
            + generic_clause_tokens(type_params)
            + plain(TokenKind::Function)
            + ident_tokens(name)
            + plain(TokenKind::LParen),
        n5,
        params_tokens(params, 0),
    );
    lemma_spelled_then(
        ts,
        pos,
        n1 + n2 + n3 + 1 + n4 + 1 + n5,
        opt_doc_string_tokens(doc_string)
            + pragmas_tokens(pragmas, 0)
            + generic_clause_tokens(type_params)
            + plain(TokenKind::Function)
            + ident_tokens(name)
            + plain(TokenKind::LParen)
            + params_tokens(params, 0),
        1,
        plain(TokenKind::RParen),
    );
    lemma_spelled_then(
        ts,
        pos,
        n1 + n2 + n3 + 1 + n4 + 1 + n5 + 1,
        opt_doc_string_tokens(doc_string)
            + pragmas_tokens(pragmas, 0)
            + generic_clause_tokens(type_params)
            + plain(TokenKind::Function)
            + ident_tokens(name)
            + plain(TokenKind::LParen)
            + params_tokens(params, 0)
            + plain(TokenKind::RParen),
        1,
        plain(TokenKind::Colon),
    );
    lemma_spelled_then(
        ts,
        pos,
        n1 + n2 + n3 + 1 + n4 + 1 + n5 + 1 + 1,
        opt_doc_string_tokens(doc_string)
            + pragmas_tokens(pragmas, 0)
            + generic_clause_tokens(type_params)
            + plain(TokenKind::Function)
            + ident_tokens(name)
            + plain(TokenKind::LParen)
            + params_tokens(params, 0)
            + plain(TokenKind::RParen)
            + plain(TokenKind::Colon),
        n6,
        type_spec_tokens(ret_type),
    );
    lemma_spelled_then(
        ts,
        pos,
        n1 + n2 + n3 + 1 + n4 + 1 + n5 + 1 + 1 + n6,
        opt_doc_string_tokens(doc_string)
            + pragmas_tokens(pragmas, 0)
            + generic_clause_tokens(type_params)
            + plain(TokenKind::Function)
            + ident_tokens(name)
            + plain(TokenKind::LParen)
            + params_tokens(params, 0)
            + plain(TokenKind::RParen)
            + plain(TokenKind::Colon)
            + type_spec_tokens(ret_type),
        1,
        plain(TokenKind::Semi),
    );
}

/// The rule of function definitions: as a declaration up to the return type, then `is ... end;`.
#[verifier::opaque]
pub open spec fn function_def_at(ts: Seq<Token>, pos: int) -> Parsed<FunctionDefView>
{
    let (doc_string, n1) = opt_doc_string_at(ts, pos);
    let pragmas_list = pragmas_at(ts, pos + n1, Seq::empty());
    let pragmas = pragmas_list.items;
    let n2 = pragmas_list.taken;
    match generic_clause_at(ts, pos + n1 + n2) {
        Err(f) => Err(f),
        Ok((type_params, n3)) => {
            if kind_at(ts, pos + n1 + n2 + n3) != TokenKind::Function {
                fail(pos + n1 + n2 + n3, seq![TokenKind::Function])
            } else {
                match ident_at(ts, pos + n1 + n2 + n3 + 1) {
                    Err(f) => Err(f),
                    Ok((name, n4)) => {
                        if kind_at(ts, pos + n1 + n2 + n3 + n4 + 1) != TokenKind::LParen {
                            fail(pos + n1 + n2 + n3 + n4 + 1, seq![TokenKind::LParen])
                        } else {
                            let params_list = params_at(
                                ts,
                                pos + n1 + n2 + n3 + n4 + 2,
                                Seq::empty(),
                            );
                            let params = params_list.items;
                            let n5 = params_list.taken;
                            match closing(
                                ts,
                                pos + n1 + n2 + n3 + n4 + n5 + 2,
                                TokenKind::RParen,
                                params_list.stopped,
                            ) {
                                Some(f) => Err(f),
                                None => {
                                    if kind_at(
                                        ts,
                                        pos + n1 + n2 + n3 + n4 + n5 + 3,
                                    ) != TokenKind::Colon {
                                        fail(
                                            pos + n1 + n2 + n3 + n4 + n5 + 3,
                                            seq![TokenKind::Colon],
                                        )
                                    } else {
                                        match type_spec_at(ts, pos + n1 + n2 + n3 + n4 + n5 + 4) {
                                            Err(f) => Err(f),
                                            Ok((ret_type, n6)) => {
                                                if kind_at(
                                                    ts,
                                                    pos + n1 + n2 + n3 + n4 + n5 + n6 + 4,
                                                ) != TokenKind::Is {
                                                    fail(
                                                        pos + n1 + n2 + n3 + n4 + n5 + n6 + 4,
                                                        seq![TokenKind::Is],
                                                    )
                                                } else {
                                                    let body_list = block_at(
                                                        ts,
                                                        pos + n1 + n2 + n3 + n4 + n5 + n6 + 5,
                                                        Seq::empty(),
                                                    );
                                                    let body = body_list.items;
                                                    let n7 = body_list.taken;
                                                    match closing(
                                                        ts,
                                                        pos + n1 + n2 + n3 + n4 + n5 + n6 + n7 + 5,
                                                        TokenKind::End,
                                                        body_list.stopped,
                                                    ) {
                                                        Some(f) => Err(f),
                                                        None => {
                                                            if kind_at(
                                                                ts,
                                                                pos
                                                                    + n1
                                                                    + n2
                                                                    + n3
                                                                    + n4
                                                                    + n5
                                                                    + n6
                                                                    + n7
                                                                    + 6,
                                                            ) != TokenKind::Semi {
                                                                fail(
                                                                    pos
                                                                        + n1
                                                                        + n2
                                                                        + n3
                                                                        + n4
                                                                        + n5
                                                                        + n6
                                                                        + n7
                                                                        + 6,
                                                                    seq![TokenKind::Semi],
                                                                )
                                                            } else {
                                                                Ok((FunctionDefView { decl: FunctionDeclView { doc_string, pragmas, type_params, name, params, ret_type }, body }, n1 + n2 + n3 + n4 + n5 + n6 + n7 + 7))
                                                            }
                                                        },
                                                    }
                                                }
                                            },
                                        }
                                    }
                                },
                            }
                        }
                    },
                }
            }
        },
    }
}

/// Parses by the rule `function_def_at` at a position: the value and the
/// position after it, or the failure.
pub fn parse_function_def(ts: &[Token], pos: usize) -> (r: Result<(FunctionDef, usize), ParseError>)
    requires
        pos <= ts.len(),
    ensures
        parsed(r, pos, ts.len(), function_def_at(ts@, pos as int)),
        r is Ok ==> r->Ok_0.1 > pos,
{
    proof {
        reveal(function_def_at);
    }
    let (doc_string, p1) = parse_opt_doc_string(ts, pos);
    let (pragmas, p2, _) = parse_pragmas(ts, p1);
    let (type_params, p3) = parse_generic_clause(ts, p2)?;
    let p4 = expect(ts, p3, TokenKind::Function)?;
    let (name, p5) = parse_ident(ts, p4)?;
    let p6 = expect(ts, p5, TokenKind::LParen)?;
    let (params, params_end, params_stopped) = parse_params(ts, p6);
    let p7 = close(ts, params_end, TokenKind::RParen, params_stopped)?;
    let p8 = expect(ts, p7, TokenKind::Colon)?;
    let (ret_type, p9) = parse_type_spec(ts, p8)?;
    let p10 = expect(ts, p9, TokenKind::Is)?;
    let (body, body_end, body_stopped) = parse_block(ts, p10);
    let p11 = close(ts, body_end, TokenKind::End, body_stopped)?;
    let p12 = expect(ts, p11, TokenKind::Semi)?;
    Ok((FunctionDef { decl: FunctionDecl { doc_string, pragmas, type_params, name, params, ret_type }, body }, p12))
}

/// What the rule `function_def_at` gives, as tokens.
pub open spec fn function_def_tokens(v: FunctionDefView) -> Seq<TokenView>
{
    opt_doc_string_tokens(v.decl.doc_string)
        + pragmas_tokens(v.decl.pragmas, 0)
        + generic_clause_tokens(v.decl.type_params)
        + plain(TokenKind::Function)
        + ident_tokens(v.decl.name)
        + plain(TokenKind::LParen)
        + params_tokens(v.decl.params, 0)
        + plain(TokenKind::RParen)
        + plain(TokenKind::Colon)
        + type_spec_tokens(v.decl.ret_type)
        + plain(TokenKind::Is)
        + block_tokens(v.body, 0)
        + plain(TokenKind::End)
        + plain(TokenKind::Semi)
}

/// The tokens that the rule `function_def_at` read are the tokens that its value prints
/// as, unless it read a token that the value does not show.
pub proof fn lemma_function_def_spelled(ts: Seq<Token>, pos: int)
    requires
        0 <= pos <= ts.len(),
        function_def_at(ts, pos) is Ok,
    ensures
        spelled(
            ts,
            pos,
            function_def_at(ts, pos)->Ok_0.1,
            function_def_tokens(function_def_at(ts, pos)->Ok_0.0),
        ),
{
    reveal(function_def_at);
    let (doc_string, n1) = opt_doc_string_at(ts, pos);
    lemma_opt_doc_string_spelled(ts, pos);
    let pragmas_list = pragmas_at(ts, pos + n1, Seq::empty());
    let pragmas = pragmas_list.items;
    let n2 = pragmas_list.taken;
    lemma_pragmas_spelled(ts, pos + n1, Seq::empty());
    let (type_params, n3) = generic_clause_at(ts, pos + n1 + n2)->Ok_0;
    lemma_generic_clause_spelled(ts, pos + n1 + n2);
    lemma_spelled_token(ts, pos + n1 + n2 + n3, TokenKind::Function);
    let (name, n4) = ident_at(ts, pos + n1 + n2 + n3 + 1)->Ok_0;
    lemma_ident_spelled(ts, pos + n1 + n2 + n3 + 1);
    lemma_spelled_token(ts, pos + n1 + n2 + n3 + n4 + 1, TokenKind::LParen);
    let params_list = params_at(ts, pos + n1 + n2 + n3 + n4 + 2, Seq::empty());
    let params = params_list.items;
    let n5 = params_list.taken;
    lemma_params_spelled(ts, pos + n1 + n2 + n3 + n4 + 2, Seq::empty());
    lemma_spelled_token(ts, pos + n1 + n2 + n3 + n4 + n5 + 2, TokenKind::RParen);
    lemma_spelled_token(ts, pos + n1 + n2 + n3 + n4 + n5 + 3, TokenKind::Colon);
    let (ret_type, n6) = type_spec_at(ts, pos + n1 + n2 + n3 + n4 + n5 + 4)->Ok_0;
    lemma_type_spec_spelled(ts, pos + n1 + n2 + n3 + n4 + n5 + 4);
    lemma_spelled_token(ts, pos + n1 + n2 + n3 + n4 + n5 + n6 + 4, TokenKind::Is);
    let body_list = block_at(ts, pos + n1 + n2 + n3 + n4 + n5 + n6 + 5, Seq::empty());
    let body = body_list.items;
    let n7 = body_list.taken;
    lemma_block_spelled(ts, pos + n1 + n2 + n3 + n4 + n5 + n6 + 5, Seq::empty());
    lemma_spelled_token(ts, pos + n1 + n2 + n3 + n4 + n5 + n6 + n7 + 5, TokenKind::End);
    lemma_spelled_token(ts, pos + n1 + n2 + n3 + n4 + n5 + n6 + n7 + 6, TokenKind::Semi);
    lemma_spelled_then(
        ts,
        pos,
        n1,
        opt_doc_string_tokens(doc_string),
        n2,
        pragmas_tokens(pragmas, 0),
    );
    lemma_spelled_then(
        ts,
        pos,
        n1 + n2,
        opt_doc_string_tokens(doc_string) + pragmas_tokens(pragmas, 0),
        n3,
        generic_clause_tokens(type_params),
    );
    lemma_spelled_then(
        ts,
        pos,
        n1 + n2 + n3,
        opt_doc_string_tokens(doc_string)
            + pragmas_tokens(pragmas, 0)
            + generic_clause_tokens(type_params),
        1,
        plain(TokenKind::Function),
    );
    lemma_spelled_then(
        ts,
        pos,
        n1 + n2 + n3 + 1,
        opt_doc_string_tokens(doc_string)
            + pragmas_tokens(pragmas, 0)
            + generic_clause_tokens(type_params)
            + plain(TokenKind::Function),
        n4,
        ident_tokens(name),
    );
    lemma_spelled_then(
        ts,
        pos,
        n1 + n2 + n3 + 1 + n4,
        opt_doc_string_tokens(doc_string)
            + pragmas_tokens(pragmas, 0)
            + generic_clause_tokens(type_params)
            + plain(TokenKind::Function)
            + ident_tokens(name),
        1,
        plain(TokenKind::LParen),
    );
    lemma_spelled_then(
        ts,
        pos,
        n1 + n2 + n3 + 1 + n4 + 1,
        opt_doc_string_tokens(doc_string)
            + pragmas_tokens(pragmas, 0)
            + generic_clause_tokens(type_params)
            + plain(TokenKind::Function)
            + ident_tokens(name)
            + plain(TokenKind::LParen),
        n5,
        params_tokens(params, 0),
    );
    lemma_spelled_then(
        ts,
        pos,
        n1 + n2 + n3 + 1 + n4 + 1 + n5,
        opt_doc_string_tokens(doc_string)
            + pragmas_tokens(pragmas, 0)
            + generic_clause_tokens(type_params)
            + plain(TokenKind::Function)
            + ident_tokens(name)
            + plain(TokenKind::LParen)
            + params_tokens(params, 0),
        1,
        plain(TokenKind::RParen),
    );
    lemma_spelled_then(
        ts,
        pos,
        n1 + n2 + n3 + 1 + n4 + 1 + n5 + 1,
        opt_doc_string_tokens(doc_string)
            + pragmas_tokens(pragmas, 0)
            + generic_clause_tokens(type_params)
            + plain(TokenKind::Function)
            + ident_tokens(name)
            + plain(TokenKind::LParen)
            + params_tokens(params, 0)
            + plain(TokenKind::RParen),
        1,
        plain(TokenKind::Colon),
    );
    lemma_spelled_then(
        ts,
        pos,
        n1 + n2 + n3 + 1 + n4 + 1 + n5 + 1 + 1,
        opt_doc_string_tokens(doc_string)
            + pragmas_tokens(pragmas, 0)
            + generic_clause_tokens(type_params)
            + plain(TokenKind::Function)
            + ident_tokens(name)
            + plain(TokenKind::LParen)
            + params_tokens(params, 0)
            + plain(TokenKind::RParen)
            + plain(TokenKind::Colon),
        n6,
        type_spec_tokens(ret_type),
    );
    lemma_spelled_then(
        ts,
        pos,
        n1 + n2 + n3 + 1 + n4 + 1 + n5 + 1 + 1 + n6,
        opt_doc_string_tokens(doc_string)
            + pragmas_tokens(pragmas, 0)
            + generic_clause_tokens(type_params)
            + plain(TokenKind::Function)
            + ident_tokens(name)
            + plain(TokenKind::LParen)
            + params_tokens(params, 0)
            + plain(TokenKind::RParen)
            + plain(TokenKind::Colon)
            + type_spec_tokens(ret_type),
        1,
        plain(TokenKind::Is),
    );
    lemma_spelled_then(
        ts,
        pos,
        n1 + n2 + n3 + 1 + n4 + 1 + n5 + 1 + 1 + n6 + 1,
        opt_doc_string_tokens(doc_string)
            + pragmas_tokens(pragmas, 0)
            + generic_clause_tokens(type_params)
            + plain(TokenKind::Function)
            + ident_tokens(name)
            + plain(TokenKind::LParen)
            + params_tokens(params, 0)
            + plain(TokenKind::RParen)
            + plain(TokenKind::Colon)
            + type_spec_tokens(ret_type)
            + plain(TokenKind::Is),
        n7,
        block_tokens(body, 0),
    );
    lemma_spelled_then(
        ts,
        pos,
        n1 + n2 + n3 + 1 + n4 + 1 + n5 + 1 + 1 + n6 + 1 + n7,
        opt_doc_string_tokens(doc_string)
            + pragmas_tokens(pragmas, 0)
            + generic_clause_tokens(type_params)
            + plain(TokenKind::Function)
            + ident_tokens(name)
            + plain(TokenKind::LParen)
            + params_tokens(params, 0)
            + plain(TokenKind::RParen)
            + plain(TokenKind::Colon)
            + type_spec_tokens(ret_type)
            + plain(TokenKind::Is)
            + block_tokens(body, 0),
        1,
        plain(TokenKind::End),
    );
    lemma_spelled_then(
        ts,
        pos,
        n1 + n2 + n3 + 1 + n4 + 1 + n5 + 1 + 1 + n6 + 1 + n7 + 1,
        opt_doc_string_tokens(doc_string)
            + pragmas_tokens(pragmas, 0)
            + generic_clause_tokens(type_params)
            + plain(TokenKind::Function)
            + ident_tokens(name)
            + plain(TokenKind::LParen)
            + params_tokens(params, 0)
            + plain(TokenKind::RParen)
            + plain(TokenKind::Colon)
            + type_spec_tokens(ret_type)
            + plain(TokenKind::Is)
            + block_tokens(body, 0)
            + plain(TokenKind::End),
        1,
        plain(TokenKind::Semi),
    );
}

/// The rule of method declarations: a docstring if there is one, the type parameters if there are any, then `method name(parameters) : T;`.
#[verifier::opaque]
pub open spec fn method_decl_at(ts: Seq<Token>, pos: int) -> Parsed<MethodDeclView>
{
    let (doc_string, n1) = opt_doc_string_at(ts, pos);
    match generic_clause_at(ts, pos + n1) {
        Err(f) => Err(f),
        Ok((type_params, n2)) => {
            if kind_at(ts, pos + n1 + n2) != TokenKind::Method {
                fail(pos + n1 + n2, seq![TokenKind::Method])
            } else {
                match ident_at(ts, pos + n1 + n2 + 1) {
                    Err(f) => Err(f),
                    Ok((name, n3)) => {
                        if kind_at(ts, pos + n1 + n2 + n3 + 1) != TokenKind::LParen {
                            fail(pos + n1 + n2 + n3 + 1, seq![TokenKind::LParen])
                        } else {
                            let params_list = params_at(ts, pos + n1 + n2 + n3 + 2, Seq::empty());
                            let params = params_list.items;
                            let n4 = params_list.taken;
                            match closing(
                                ts,
                                pos + n1 + n2 + n3 + n4 + 2,
                                TokenKind::RParen,
                                params_list.stopped,
                            ) {
                                Some(f) => Err(f),
                                None => {
                                    if kind_at(
                                        ts,
                                        pos + n1 + n2 + n3 + n4 + 3,
                                    ) != TokenKind::Colon {
                                        fail(pos + n1 + n2 + n3 + n4 + 3, seq![TokenKind::Colon])
                                    } else {
                                        match type_spec_at(ts, pos + n1 + n2 + n3 + n4 + 4) {
                                            Err(f) => Err(f),
                                            Ok((ret_ty, n5)) => {
                                                if kind_at(
                                                    ts,
                                                    pos + n1 + n2 + n3 + n4 + n5 + 4,
                                                ) != TokenKind::Semi {
                                                    fail(
                                                        pos + n1 + n2 + n3 + n4 + n5 + 4,
                                                        seq![TokenKind::Semi],
                                                    )
                                                } else {
                                                    Ok((MethodDeclView { doc_string, type_params, name, params, ret_ty }, n1 + n2 + n3 + n4 + n5 + 5))
                                                }
                                            },
                                        }
                                    }
                                },
                            }
                        }
                    },
                }
            }
        },
    }
}

/// Parses by the rule `method_decl_at` at a position: the value and the
/// position after it, or the failure.
pub fn parse_method_decl(ts: &[Token], pos: usize) -> (r: Result<(MethodDecl, usize), ParseError>)
    requires
        pos <= ts.len(),
    ensures
        parsed(r, pos, ts.len(), method_decl_at(ts@, pos as int)),
        r is Ok ==> r->Ok_0.1 > pos,
{
    proof {
        reveal(method_decl_at);
    }
    let (doc_string, p1) = parse_opt_doc_string(ts, pos);
    let (type_params, p2) = parse_generic_clause(ts, p1)?;
    let p3 = expect(ts, p2, TokenKind::Method)?;
    let (name, p4) = parse_ident(ts, p3)?;
    let p5 = expect(ts, p4, TokenKind::LParen)?;
    let (params, params_end, params_stopped) = parse_params(ts, p5);
    let p6 = close(ts, params_end, TokenKind::RParen, params_stopped)?;
    let p7 = expect(ts, p6, TokenKind::Colon)?;
    let (ret_ty, p8) = parse_type_spec(ts, p7)?;
    let p9 = expect(ts, p8, TokenKind::Semi)?;
    Ok((MethodDecl { doc_string, type_params, name, params, ret_ty }, p9))
}

/// What the rule `method_decl_at` gives, as tokens.
pub open spec fn method_decl_tokens(v: MethodDeclView) -> Seq<TokenView>
{
    opt_doc_string_tokens(v.doc_string)
        + generic_clause_tokens(v.type_params)
        + plain(TokenKind::Method)
        + ident_tokens(v.name)
        + plain(TokenKind::LParen)
        + params_tokens(v.params, 0)
        + plain(TokenKind::RParen)
        + plain(TokenKind::Colon)
        + type_spec_tokens(v.ret_ty)
        + plain(TokenKind::Semi)
}

/// The tokens that the rule `method_decl_at` read are the tokens that its value prints
/// as, unless it read a token that the value does not show.
pub proof fn lemma_method_decl_spelled(ts: Seq<Token>, pos: int)
    requires
        0 <= pos <= ts.len(),
        method_decl_at(ts, pos) is Ok,
    ensures
        spelled(
            ts,
            pos,
            method_decl_at(ts, pos)->Ok_0.1,
            method_decl_tokens(method_decl_at(ts, pos)->Ok_0.0),
        ),
{
    reveal(method_decl_at);
    let (doc_string, n1) = opt_doc_string_at(ts, pos);
    lemma_opt_doc_string_spelled(ts, pos);
    let (type_params, n2) = generic_clause_at(ts, pos + n1)->Ok_0;
    lemma_generic_clause_spelled(ts, pos + n1);
    lemma_spelled_token(ts, pos + n1 + n2, TokenKind::Method);
    let (name, n3) = ident_at(ts, pos + n1 + n2 + 1)->Ok_0;
    lemma_ident_spelled(ts, pos + n1 + n2 + 1);
    lemma_spelled_token(ts, pos + n1 + n2 + n3 + 1, TokenKind::LParen);
    let params_list = params_at(ts, pos + n1 + n2 + n3 + 2, Seq::empty());
    let params = params_list.items;
    let n4 = params_list.taken;
    lemma_params_spelled(ts, pos + n1 + n2 + n3 + 2, Seq::empty());
    lemma_spelled_token(ts, pos + n1 + n2 + n3 + n4 + 2, TokenKind::RParen);
    lemma_spelled_token(ts, pos + n1 + n2 + n3 + n4 + 3, TokenKind::Colon);
    let (ret_ty, n5) = type_spec_at(ts, pos + n1 + n2 + n3 + n4 + 4)->Ok_0;
    lemma_type_spec_spelled(ts, pos + n1 + n2 + n3 + n4 + 4);
    lemma_spelled_token(ts, pos + n1 + n2 + n3 + n4 + n5 + 4, TokenKind::Semi);
    lemma_spelled_then(
        ts,
        pos,
        n1,
        opt_doc_string_tokens(doc_string),
        n2,
        generic_clause_tokens(type_params),
    );
    lemma_spelled_then(
        ts,
        pos,
        n1 + n2,
        opt_doc_string_tokens(doc_string) + generic_clause_tokens(type_params),
        1,
        plain(TokenKind::Method),
    );
    lemma_spelled_then(
        ts,
        pos,
        n1 + n2 + 1,
        opt_doc_string_tokens(doc_string)
            + generic_clause_tokens(type_params)
            + plain(TokenKind::Method),
        n3,
        ident_tokens(name),
    );
    lemma_spelled_then(
        ts,
        pos,
        n1 + n2 + 1 + n3,
        opt_doc_string_tokens(doc_string)
            + generic_clause_tokens(type_params)
            + plain(TokenKind::Method)
            + ident_tokens(name),
        1,
        plain(TokenKind::LParen),
    );
    lemma_spelled_then(
        ts,
        pos,
        n1 + n2 + 1 + n3 + 1,
        opt_doc_string_tokens(doc_string)
            + generic_clause_tokens(type_params)
            + plain(TokenKind::Method)
            + ident_tokens(name)
            + plain(TokenKind::LParen),
        n4,
        params_tokens(params, 0),
    );
    lemma_spelled_then(
        ts,
        pos,
        n1 + n2 + 1 + n3 + 1 + n4,
        opt_doc_string_tokens(doc_string)
            + generic_clause_tokens(type_params)
            + plain(TokenKind::Method)
            + ident_tokens(name)
            + plain(TokenKind::LParen)
            + params_tokens(params, 0),
        1,
        plain(TokenKind::RParen),
    );
    lemma_spelled_then(
        ts,
        pos,
        n1 + n2 + 1 + n3 + 1 + n4 + 1,
        opt_doc_string_tokens(doc_string)
            + generic_clause_tokens(type_params)
            + plain(TokenKind::Method)
            + ident_tokens(name)
            + plain(TokenKind::LParen)
            + params_tokens(params, 0)
            + plain(TokenKind::RParen),
        1,
        plain(TokenKind::Colon),
    );
    lemma_spelled_then(
        ts,
        pos,
        n1 + n2 + 1 + n3 + 1 + n4 + 1 + 1,
        opt_doc_string_tokens(doc_string)
            + generic_clause_tokens(type_params)
            + plain(TokenKind::Method)
            + ident_tokens(name)
            + plain(TokenKind::LParen)
            + params_tokens(params, 0)
            + plain(TokenKind::RParen)
            + plain(TokenKind::Colon),
        n5,
        type_spec_tokens(ret_ty),
    );
    lemma_spelled_then(
        ts,
        pos,
        n1 + n2 + 1 + n3 + 1 + n4 + 1 + 1 + n5,
        opt_doc_string_tokens(doc_string)
            + generic_clause_tokens(type_params)
            + plain(TokenKind::Method)
            + ident_tokens(name)
            + plain(TokenKind::LParen)
            + params_tokens(params, 0)
            + plain(TokenKind::RParen)
            + plain(TokenKind::Colon)
            + type_spec_tokens(ret_ty),
        1,
        plain(TokenKind::Semi),
    );
}

/// The rule of method definitions: as a declaration up to the return type, then `is ... end;`.
#[verifier::opaque]
pub open spec fn method_def_at(ts: Seq<Token>, pos: int) -> Parsed<MethodDefView>
{
    let (doc_string, n1) = opt_doc_string_at(ts, pos);
    match generic_clause_at(ts, pos + n1) {
        Err(f) => Err(f),
        Ok((type_params, n2)) => {
            if kind_at(ts, pos + n1 + n2) != TokenKind::Method {
                fail(pos + n1 + n2, seq![TokenKind::Method])
            } else {
                match ident_at(ts, pos + n1 + n2 + 1) {
                    Err(f) => Err(f),
                    Ok((name, n3)) => {
                        if kind_at(ts, pos + n1 + n2 + n3 + 1) != TokenKind::LParen {
                            fail(pos + n1 + n2 + n3 + 1, seq![TokenKind::LParen])
                        } else {
                            let params_list = params_at(ts, pos + n1 + n2 + n3 + 2, Seq::empty());
                            let params = params_list.items;
                            let n4 = params_list.taken;
                            match closing(
                                ts,
                                pos + n1 + n2 + n3 + n4 + 2,
                                TokenKind::RParen,
                                params_list.stopped,
                            ) {
                                Some(f) => Err(f),
                                None => {
                                    if kind_at(
                                        ts,
                                        pos + n1 + n2 + n3 + n4 + 3,
                                    ) != TokenKind::Colon {
                                        fail(pos + n1 + n2 + n3 + n4 + 3, seq![TokenKind::Colon])
                                    } else {
                                        match type_spec_at(ts, pos + n1 + n2 + n3 + n4 + 4) {
                                            Err(f) => Err(f),
                                            Ok((ret_ty, n5)) => {
                                                if kind_at(
                                                    ts,
                                                    pos + n1 + n2 + n3 + n4 + n5 + 4,
                                                ) != TokenKind::Is {
                                                    fail(
                                                        pos + n1 + n2 + n3 + n4 + n5 + 4,
                                                        seq![TokenKind::Is],
                                                    )
                                                } else {
                                                    let body_list = block_at(
                                                        ts,
                                                        pos + n1 + n2 + n3 + n4 + n5 + 5,
                                                        Seq::empty(),
                                                    );
                                                    let body = body_list.items;
                                                    let n6 = body_list.taken;
                                                    match closing(
                                                        ts,
                                                        pos + n1 + n2 + n3 + n4 + n5 + n6 + 5,
                                                        TokenKind::End,
                                                        body_list.stopped,
                                                    ) {
                                                        Some(f) => Err(f),
                                                        None => {
                                                            if kind_at(
                                                                ts,
                                                                pos
                                                                    + n1
                                                                    + n2
                                                                    + n3
                                                                    + n4
                                                                    + n5
                                                                    + n6
                                                                    + 6,
                                                            ) != TokenKind::Semi {
                                                                fail(
                                                                    pos
                                                                        + n1
                                                                        + n2
                                                                        + n3
                                                                        + n4
                                                                        + n5
                                                                        + n6
                                                                        + 6,
                                                                    seq![TokenKind::Semi],
                                                                )
                                                            } else {
                                                                Ok((MethodDefView { decl: MethodDeclView { doc_string, type_params, name, params, ret_ty }, body }, n1 + n2 + n3 + n4 + n5 + n6 + 7))
                                                            }
                                                        },
                                                    }
                                                }
                                            },
                                        }
                                    }
                                },
                            }
                        }
                    },
                }
            }
        },
    }
}

/// Parses by the rule `method_def_at` at a position: the value and the position
/// after it, or the failure.
pub fn parse_method_def(ts: &[Token], pos: usize) -> (r: Result<(MethodDef, usize), ParseError>)
    requires
        pos <= ts.len(),
    ensures
        parsed(r, pos, ts.len(), method_def_at(ts@, pos as int)),
        r is Ok ==> r->Ok_0.1 > pos,
{
    proof {
        reveal(method_def_at);
    }
    let (doc_string, p1) = parse_opt_doc_string(ts, pos);
    let (type_params, p2) = parse_generic_clause(ts, p1)?;
    let p3 = expect(ts, p2, TokenKind::Method)?;
    let (name, p4) = parse_ident(ts, p3)?;
    let p5 = expect(ts, p4, TokenKind::LParen)?;
    let (params, params_end, params_stopped) = parse_params(ts, p5);
    let p6 = close(ts, params_end, TokenKind::RParen, params_stopped)?;
    let p7 = expect(ts, p6, TokenKind::Colon)?;
    let (ret_ty, p8) = parse_type_spec(ts, p7)?;
    let p9 = expect(ts, p8, TokenKind::Is)?;
    let (body, body_end, body_stopped) = parse_block(ts, p9);
    let p10 = close(ts, body_end, TokenKind::End, body_stopped)?;
    let p11 = expect(ts, p10, TokenKind::Semi)?;
    Ok((MethodDef { decl: MethodDecl { doc_string, type_params, name, params, ret_ty }, body }, p11))
}

/// What the rule `method_def_at` gives, as tokens.
pub open spec fn method_def_tokens(v: MethodDefView) -> Seq<TokenView>
{
    opt_doc_string_tokens(v.decl.doc_string)
        + generic_clause_tokens(v.decl.type_params)
        + plain(TokenKind::Method)
        + ident_tokens(v.decl.name)
        + plain(TokenKind::LParen)
        + params_tokens(v.decl.params, 0)
        + plain(TokenKind::RParen)
        + plain(TokenKind::Colon)
        + type_spec_tokens(v.decl.ret_ty)
        + plain(TokenKind::Is)
        + block_tokens(v.body, 0)
        + plain(TokenKind::End)
        + plain(TokenKind::Semi)
}

/// The tokens that the rule `method_def_at` read are the tokens that its value prints
/// as, unless it read a token that the value does not show.
pub proof fn lemma_method_def_spelled(ts: Seq<Token>, pos: int)
    requires
        0 <= pos <= ts.len(),
        method_def_at(ts, pos) is Ok,
    ensures
        spelled(
            ts,
            pos,
            method_def_at(ts, pos)->Ok_0.1,
            method_def_tokens(method_def_at(ts, pos)->Ok_0.0),
        ),
{
    reveal(method_def_at);
    let (doc_string, n1) = opt_doc_string_at(ts, pos);
    lemma_opt_doc_string_spelled(ts, pos);
    let (type_params, n2) = generic_clause_at(ts, pos + n1)->Ok_0;
    lemma_generic_clause_spelled(ts, pos + n1);
    lemma_spelled_token(ts, pos + n1 + n2, TokenKind::Method);
    let (name, n3) = ident_at(ts, pos + n1 + n2 + 1)->Ok_0;
    lemma_ident_spelled(ts, pos + n1 + n2 + 1);
    lemma_spelled_token(ts, pos + n1 + n2 + n3 + 1, TokenKind::LParen);
    let params_list = params_at(ts, pos + n1 + n2 + n3 + 2, Seq::empty());
    let params = params_list.items;
    let n4 = params_list.taken;
    lemma_params_spelled(ts, pos + n1 + n2 + n3 + 2, Seq::empty());
    lemma_spelled_token(ts, pos + n1 + n2 + n3 + n4 + 2, TokenKind::RParen);
    lemma_spelled_token(ts, pos + n1 + n2 + n3 + n4 + 3, TokenKind::Colon);
    let (ret_ty, n5) = type_spec_at(ts, pos + n1 + n2 + n3 + n4 + 4)->Ok_0;
    lemma_type_spec_spelled(ts, pos + n1 + n2 + n3 + n4 + 4);
    lemma_spelled_token(ts, pos + n1 + n2 + n3 + n4 + n5 + 4, TokenKind::Is);
    let body_list = block_at(ts, pos + n1 + n2 + n3 + n4 + n5 + 5, Seq::empty());
    let body = body_list.items;
    let n6 = body_list.taken;
    lemma_block_spelled(ts, pos + n1 + n2 + n3 + n4 + n5 + 5, Seq::empty());
    lemma_spelled_token(ts, pos + n1 + n2 + n3 + n4 + n5 + n6 + 5, TokenKind::End);
    lemma_spelled_token(ts, pos + n1 + n2 + n3 + n4 + n5 + n6 + 6, TokenKind::Semi);
    lemma_spelled_then(
        ts,
        pos,
        n1,
        opt_doc_string_tokens(doc_string),
        n2,
        generic_clause_tokens(type_params),
    );
    lemma_spelled_then(
        ts,
        pos,
        n1 + n2,
        opt_doc_string_tokens(doc_string) + generic_clause_tokens(type_params),
        1,
        plain(TokenKind::Method),
    );
    lemma_spelled_then(
        ts,
        pos,
        n1 + n2 + 1,
        opt_doc_string_tokens(doc_string)
            + generic_clause_tokens(type_params)
            + plain(TokenKind::Method),
        n3,
        ident_tokens(name),
    );
    lemma_spelled_then(
        ts,
        pos,
        n1 + n2 + 1 + n3,
        opt_doc_string_tokens(doc_string)
            + generic_clause_tokens(type_params)
            + plain(TokenKind::Method)
            + ident_tokens(name),
        1,
        plain(TokenKind::LParen),
    );
    lemma_spelled_then(
        ts,
        pos,
        n1 + n2 + 1 + n3 + 1,
        opt_doc_string_tokens(doc_string)
            + generic_clause_tokens(type_params)
            + plain(TokenKind::Method)
            + ident_tokens(name)
            + plain(TokenKind::LParen),
        n4,
        params_tokens(params, 0),
    );
    lemma_spelled_then(
        ts,
        pos,
        n1 + n2 + 1 + n3 + 1 + n4,
        opt_doc_string_tokens(doc_string)
            + generic_clause_tokens(type_params)
            + plain(TokenKind::Method)
            + ident_tokens(name)
            + plain(TokenKind::LParen)
            + params_tokens(params, 0),
        1,
        plain(TokenKind::RParen),
    );
    lemma_spelled_then(
        ts,
        pos,
        n1 + n2 + 1 + n3 + 1 + n4 + 1,
        opt_doc_string_tokens(doc_string)
            + generic_clause_tokens(type_params)
            + plain(TokenKind::Method)
            + ident_tokens(name)
            + plain(TokenKind::LParen)
            + params_tokens(params, 0)
            + plain(TokenKind::RParen),
        1,
        plain(TokenKind::Colon),
    );
    lemma_spelled_then(
        ts,
        pos,
        n1 + n2 + 1 + n3 + 1 + n4 + 1 + 1,
        opt_doc_string_tokens(doc_string)
            + generic_clause_tokens(type_params)
            + plain(TokenKind::Method)
            + ident_tokens(name)
            + plain(TokenKind::LParen)
            + params_tokens(params, 0)
            + plain(TokenKind::RParen)
            + plain(TokenKind::Colon),
        n5,
        type_spec_tokens(ret_ty),
    );
    lemma_spelled_then(
        ts,
        pos,
        n1 + n2 + 1 + n3 + 1 + n4 + 1 + 1 + n5,
        opt_doc_string_tokens(doc_string)
            + generic_clause_tokens(type_params)
            + plain(TokenKind::Method)
            + ident_tokens(name)
            + plain(TokenKind::LParen)
            + params_tokens(params, 0)
            + plain(TokenKind::RParen)
            + plain(TokenKind::Colon)
            + type_spec_tokens(ret_ty),
        1,
        plain(TokenKind::Is),
    );
    lemma_spelled_then(
        ts,
        pos,
        n1 + n2 + 1 + n3 + 1 + n4 + 1 + 1 + n5 + 1,
        opt_doc_string_tokens(doc_string)
            + generic_clause_tokens(type_params)
            + plain(TokenKind::Method)
            + ident_tokens(name)
            + plain(TokenKind::LParen)
            + params_tokens(params, 0)
            + plain(TokenKind::RParen)
            + plain(TokenKind::Colon)
            + type_spec_tokens(ret_ty)
            + plain(TokenKind::Is),
        n6,
        block_tokens(body, 0),
    );
    lemma_spelled_then(
        ts,
        pos,
        n1 + n2 + 1 + n3 + 1 + n4 + 1 + 1 + n5 + 1 + n6,
        opt_doc_string_tokens(doc_string)
            + generic_clause_tokens(type_params)
            + plain(TokenKind::Method)
            + ident_tokens(name)
            + plain(TokenKind::LParen)
            + params_tokens(params, 0)
            + plain(TokenKind::RParen)
            + plain(TokenKind::Colon)
            + type_spec_tokens(ret_ty)
            + plain(TokenKind::Is)
            + block_tokens(body, 0),
        1,
        plain(TokenKind::End),
    );
    lemma_spelled_then(
        ts,
        pos,
        n1 + n2 + 1 + n3 + 1 + n4 + 1 + 1 + n5 + 1 + n6 + 1,
        opt_doc_string_tokens(doc_string)
            + generic_clause_tokens(type_params)
            + plain(TokenKind::Method)
            + ident_tokens(name)
            + plain(TokenKind::LParen)
            + params_tokens(params, 0)
            + plain(TokenKind::RParen)
            + plain(TokenKind::Colon)
            + type_spec_tokens(ret_ty)
            + plain(TokenKind::Is)
            + block_tokens(body, 0)
            + plain(TokenKind::End),
        1,
        plain(TokenKind::Semi),
    );
}

/// Method declarations: as many as can be read.
#[verifier::opaque]
pub open spec fn method_decls_at(
    ts: Seq<Token>,
    pos: int,
    acc: Seq<MethodDeclView>,
) -> Listed<MethodDeclView>
    decreases ts.len() - pos,
{
    match method_decl_at(ts, pos) {
        Err(f) => Listed { items: acc, taken: 0, stopped: f },
        Ok((item, n)) => if 0 < n && pos + n <= ts.len() {
            method_decls_at(ts, pos + n, acc.push(item)).advance(n)
        } else {
            Listed { items: acc, taken: 0, stopped: ParseFailure { at: pos, expected: seq![] } }
        },
    }
}

/// Parses the items of a list from a position by the rule `method_decls_at`:
/// the items, the position after them, and the failure that ended the list.
pub fn parse_method_decls(ts: &[Token], pos: usize) -> (r: (Vec<MethodDecl>, usize, ParseError))
    requires
        pos <= ts.len(),
    ensures
        listed(r, pos, ts.len(), method_decls_at(ts@, pos as int, Seq::empty())),
{
    let mut items: Vec<MethodDecl> = Vec::new();
    let mut cur: usize = pos;
    let mut stopped: Option<ParseError> = None;
    assert(items.deep_view() =~= Seq::empty());
    while stopped.is_none()
        invariant
            pos <= cur <= ts.len(),
            stopped is None ==> method_decls_at(ts@, pos as int, Seq::empty()) == method_decls_at(
                ts@,
                cur as int,
                items.deep_view(),
            ).advance((cur - pos) as nat),
            stopped is Some ==> method_decls_at(ts@, pos as int, Seq::empty()) == (Listed {
                items: items.deep_view(),
                taken: (cur - pos) as nat,
                stopped: stopped->0@,
            }),
        decreases ts.len() - cur + (if stopped is None { 1int } else { 0int }),
    {
        proof {
            reveal(method_decls_at);
        }
        match parse_method_decl(ts, cur) {
            Err(e) => {
                stopped = Some(e);
            },
            Ok((item, p)) => {
                let ghost before = items.deep_view();
                let ghost added = item.deep_view();
                items.push(item);
                assert(items.deep_view() =~= before.push(added));
                cur = p;
            },
        }
    }
    (items, cur, stopped.unwrap())
}

/// The items of a list that the rule `method_decls_at` gives, from index `from` on, as
/// tokens, one after the other.
pub open spec fn method_decls_tokens(items: Seq<MethodDeclView>, from: nat) -> Seq<TokenView>
    decreases items.len() - from,
{
    if from >= items.len() {
        Seq::empty()
    } else {
        method_decl_tokens(items[from as int]) + method_decls_tokens(items, from + 1)
    }
}

/// The tokens that the list rule `method_decls_at` read are the tokens that the
/// items it added print as, unless it read a token that they do not show.
/// The list keeps the items it started from.
pub proof fn lemma_method_decls_spelled(ts: Seq<Token>, pos: int, acc: Seq<MethodDeclView>)
    requires
        0 <= pos <= ts.len(),
    ensures
        method_decls_at(ts, pos, acc).items.len() >= acc.len(),
        method_decls_at(
            ts,
            pos,
            acc,
        ).items.len() == acc.len() ==> method_decls_at(ts, pos, acc).taken == 0,
        forall|i: int| 0 <= i < acc.len() ==> method_decls_at(ts, pos, acc).items[i] == acc[i],
        spelled(
            ts,
            pos,
            method_decls_at(ts, pos, acc).taken,
            method_decls_tokens(method_decls_at(ts, pos, acc).items, acc.len()),
        ),
    decreases ts.len() - pos,
{
    reveal(method_decls_at);
    match method_decl_at(ts, pos) {
        Err(_) => {
            lemma_spelled_nothing(ts, pos, 0);
        },
        Ok((item, n)) => {
            let pushed = acc.push(item);
            assert forall|i: int| 0 <= i < acc.len() implies pushed[i] == acc[i] by {}
            lemma_method_decl_spelled(ts, pos);
            if 0 < n && pos + n <= ts.len() {
                let rest = method_decls_at(ts, pos + n, pushed);
                lemma_method_decls_spelled(ts, pos + n, pushed);
                assert(pushed[acc.len() as int] == item);
                assert(rest.items[acc.len() as int] == pushed[acc.len() as int]);
                lemma_spelled_then(
                    ts,
                    pos,
                    n,
                    method_decl_tokens(item),
                    rest.taken,
                    method_decls_tokens(rest.items, pushed.len()),
                );
            } else {
                lemma_spelled_nothing(ts, pos, 0);
            }
        },
    }
}

/// Method definitions: as many as can be read.
#[verifier::opaque]
pub open spec fn method_defs_at(
    ts: Seq<Token>,
    pos: int,
    acc: Seq<MethodDefView>,
) -> Listed<MethodDefView>
    decreases ts.len() - pos,
{
    match method_def_at(ts, pos) {
        Err(f) => Listed { items: acc, taken: 0, stopped: f },
        Ok((item, n)) => if 0 < n && pos + n <= ts.len() {
            method_defs_at(ts, pos + n, acc.push(item)).advance(n)
        } else {
            Listed { items: acc, taken: 0, stopped: ParseFailure { at: pos, expected: seq![] } }
        },
    }
}

/// Parses the items of a list from a position by the rule `method_defs_at`: the
/// items, the position after them, and the failure that ended the list.
pub fn parse_method_defs(ts: &[Token], pos: usize) -> (r: (Vec<MethodDef>, usize, ParseError))
    requires
        pos <= ts.len(),
    ensures
        listed(r, pos, ts.len(), method_defs_at(ts@, pos as int, Seq::empty())),
{
    let mut items: Vec<MethodDef> = Vec::new();
    let mut cur: usize = pos;
    let mut stopped: Option<ParseError> = None;
    assert(items.deep_view() =~= Seq::empty());
    while stopped.is_none()
        invariant
            pos <= cur <= ts.len(),
            stopped is None ==> method_defs_at(ts@, pos as int, Seq::empty()) == method_defs_at(
                ts@,
                cur as int,
                items.deep_view(),
            ).advance((cur - pos) as nat),
            stopped is Some ==> method_defs_at(ts@, pos as int, Seq::empty()) == (Listed {
                items: items.deep_view(),
                taken: (cur - pos) as nat,
                stopped: stopped->0@,
            }),
        decreases ts.len() - cur + (if stopped is None { 1int } else { 0int }),
    {
        proof {
            reveal(method_defs_at);
        }
        match parse_method_def(ts, cur) {
            Err(e) => {
                stopped = Some(e);
            },
            Ok((item, p)) => {
                let ghost before = items.deep_view();
                let ghost added = item.deep_view();
                items.push(item);
                assert(items.deep_view() =~= before.push(added));
                cur = p;
            },
        }
    }
    (items, cur, stopped.unwrap())
}

/// The items of a list that the rule `method_defs_at` gives, from index `from` on, as
/// tokens, one after the other.
pub open spec fn method_defs_tokens(items: Seq<MethodDefView>, from: nat) -> Seq<TokenView>
    decreases items.len() - from,
{
    if from >= items.len() {
        Seq::empty()
    } else {
        method_def_tokens(items[from as int]) + method_defs_tokens(items, from + 1)
    }
}

/// The tokens that the list rule `method_defs_at` read are the tokens that the
/// items it added print as, unless it read a token that they do not show.
/// The list keeps the items it started from.
pub proof fn lemma_method_defs_spelled(ts: Seq<Token>, pos: int, acc: Seq<MethodDefView>)
    requires
        0 <= pos <= ts.len(),
    ensures
        method_defs_at(ts, pos, acc).items.len() >= acc.len(),
        method_defs_at(
            ts,
            pos,
            acc,
        ).items.len() == acc.len() ==> method_defs_at(ts, pos, acc).taken == 0,
        forall|i: int| 0 <= i < acc.len() ==> method_defs_at(ts, pos, acc).items[i] == acc[i],
        spelled(
            ts,
            pos,
            method_defs_at(ts, pos, acc).taken,
            method_defs_tokens(method_defs_at(ts, pos, acc).items, acc.len()),
        ),
    decreases ts.len() - pos,
{
    reveal(method_defs_at);
    match method_def_at(ts, pos) {
        Err(_) => {
            lemma_spelled_nothing(ts, pos, 0);
        },
        Ok((item, n)) => {
            let pushed = acc.push(item);
            assert forall|i: int| 0 <= i < acc.len() implies pushed[i] == acc[i] by {}
            lemma_method_def_spelled(ts, pos);
            if 0 < n && pos + n <= ts.len() {
                let rest = method_defs_at(ts, pos + n, pushed);
                lemma_method_defs_spelled(ts, pos + n, pushed);
                assert(pushed[acc.len() as int] == item);
                assert(rest.items[acc.len() as int] == pushed[acc.len() as int]);
                lemma_spelled_then(
                    ts,
                    pos,
                    n,
                    method_def_tokens(item),
                    rest.taken,
                    method_defs_tokens(rest.items, pushed.len()),
                );
            } else {
                lemma_spelled_nothing(ts, pos, 0);
            }
        },
    }
}

impl Param {
    /// Parses the whole of `tokens` by the rule `param_at`.
    pub fn parser(tokens: &[Token]) -> (r: Result<Param, ParseError>)
        ensures
            parsed_whole(r, whole(param_at(tokens@, 0), tokens@.len())),
    {
        complete(parse_param(tokens, 0), tokens.len(), Ghost(param_at(tokens@, 0)))
    }
}

impl FunctionDecl {
    /// Parses the whole of `tokens` by the rule `function_decl_at`.
    pub fn parser(tokens: &[Token]) -> (r: Result<FunctionDecl, ParseError>)
        ensures
            parsed_whole(r, whole(function_decl_at(tokens@, 0), tokens@.len())),
    {
        complete(parse_function_decl(tokens, 0), tokens.len(), Ghost(function_decl_at(tokens@, 0)))
    }
}

impl FunctionDef {
    /// Parses the whole of `tokens` by the rule `function_def_at`.
    pub fn parser(tokens: &[Token]) -> (r: Result<FunctionDef, ParseError>)
        ensures
            parsed_whole(r, whole(function_def_at(tokens@, 0), tokens@.len())),
    {
        complete(parse_function_def(tokens, 0), tokens.len(), Ghost(function_def_at(tokens@, 0)))
    }
}

impl MethodDecl {
    /// Parses the whole of `tokens` by the rule `method_decl_at`.
    pub fn parser(tokens: &[Token]) -> (r: Result<MethodDecl, ParseError>)
        ensures
            parsed_whole(r, whole(method_decl_at(tokens@, 0), tokens@.len())),
    {
        complete(parse_method_decl(tokens, 0), tokens.len(), Ghost(method_decl_at(tokens@, 0)))
    }
}

impl MethodDef {
    /// Parses the whole of `tokens` by the rule `method_def_at`.
    pub fn parser(tokens: &[Token]) -> (r: Result<MethodDef, ParseError>)
        ensures
            parsed_whole(r, whole(method_def_at(tokens@, 0), tokens@.len())),
    {
        complete(parse_method_def(tokens, 0), tokens.len(), Ghost(method_def_at(tokens@, 0)))
    }
}

} // verus!
