//! Constants: their declarations and their definitions.

use crate::ast::common::{
    DocString, Ident, ident_at, ident_tokens, lemma_ident_spelled, lemma_opt_doc_string_spelled,
    lemma_pragmas_spelled, opt_doc_string_at, opt_doc_string_tokens, parse_ident,
    parse_opt_doc_string, parse_pragmas, Pragma, pragmas_at, pragmas_tokens, PragmaView,
};
use crate::ast::expressions::{
    Expression, expression_at, expression_tokens, ExpressionView, lemma_expression_spelled,
    parse_expression,
};
use crate::ast::grammar::{
    complete, expect, fail, kind_at, lemma_spelled_then, lemma_spelled_token, Parsed, parsed,
    parsed_whole, ParseError, plain, spelled, whole,
};
use crate::ast::types::{
    lemma_type_spec_spelled, parse_type_spec, type_spec_at, type_spec_tokens, TypeSpec,
    TypeSpecView,
};
use crate::lexer::{Token, TokenKind, TokenView};
use vstd::prelude::*;

verus! {

/// The declaration of a constant: its name and its type.
#[derive(Debug, PartialEq)]
pub struct ConstantDecl {
    pub doc_string: Option<DocString>,
    pub pragmas: Vec<Pragma>,
    pub name: Ident,
    pub ty: TypeSpec,
}

/// A value of `ConstantDecl` as plain data.
pub struct ConstantDeclView {
    pub doc_string: Option<Seq<char>>,
    pub pragmas: Seq<PragmaView>,
    pub name: Seq<char>,
    pub ty: TypeSpecView,
}

impl DeepView for ConstantDecl {
    type V = ConstantDeclView;

    open spec fn deep_view(&self) -> ConstantDeclView {
        ConstantDeclView {
            doc_string: self.doc_string.deep_view(),
            pragmas: self.pragmas.deep_view(),
            name: self.name.deep_view(),
            ty: self.ty.deep_view(),
        }
    }
}

/// The definition of a constant: its declaration and its value.
#[derive(Debug, PartialEq)]
pub struct ConstantDef {
    pub decl: ConstantDecl,
    pub value: Expression,
}

/// A value of `ConstantDef` as plain data.
pub struct ConstantDefView {
    pub decl: ConstantDeclView,
    pub value: ExpressionView,
}

impl DeepView for ConstantDef {
    type V = ConstantDefView;

    open spec fn deep_view(&self) -> ConstantDefView {
        ConstantDefView {
            decl: self.decl.deep_view(),
            value: self.value.deep_view(),
        }
    }
}

/// The rule of constant declarations: a docstring and pragmas if there are any, then `constant name : T;`.
#[verifier::opaque]
pub open spec fn constant_decl_at(ts: Seq<Token>, pos: int) -> Parsed<ConstantDeclView>
{
    let (doc_string, n1) = opt_doc_string_at(ts, pos);
    let pragmas_list = pragmas_at(ts, pos + n1, Seq::empty());
    let pragmas = pragmas_list.items;
    let n2 = pragmas_list.taken;
    if kind_at(ts, pos + n1 + n2) != TokenKind::Constant {
        fail(pos + n1 + n2, seq![TokenKind::Constant])
    } else {
        match ident_at(ts, pos + n1 + n2 + 1) {
            Err(f) => Err(f),
            Ok((name, n3)) => {
                if kind_at(ts, pos + n1 + n2 + n3 + 1) != TokenKind::Colon {
                    fail(pos + n1 + n2 + n3 + 1, seq![TokenKind::Colon])
                } else {
                    match type_spec_at(ts, pos + n1 + n2 + n3 + 2) {
                        Err(f) => Err(f),
                        Ok((ty, n4)) => {
                            if kind_at(ts, pos + n1 + n2 + n3 + n4 + 2) != TokenKind::Semi {
                                fail(pos + n1 + n2 + n3 + n4 + 2, seq![TokenKind::Semi])
                            } else {
                                Ok((ConstantDeclView { doc_string, pragmas, name, ty }, n1 + n2 + n3 + n4 + 3))
                            }
                        },
                    }
                }
            },
        }
    }
}

/// Parses by the rule `constant_decl_at` at a position: the value and the
/// position after it, or the failure.
pub fn parse_constant_decl(
    ts: &[Token],
    pos: usize,
) -> (r: Result<(ConstantDecl, usize), ParseError>)
    requires
        pos <= ts.len(),
    ensures
        parsed(r, pos, ts.len(), constant_decl_at(ts@, pos as int)),
        r is Ok ==> r->Ok_0.1 > pos,
{
    proof {
        reveal(constant_decl_at);
    }
    let (doc_string, p1) = parse_opt_doc_string(ts, pos);
    let (pragmas, p2, _) = parse_pragmas(ts, p1);
    let p3 = expect(ts, p2, TokenKind::Constant)?;
    let (name, p4) = parse_ident(ts, p3)?;
    let p5 = expect(ts, p4, TokenKind::Colon)?;
    let (ty, p6) = parse_type_spec(ts, p5)?;
    let p7 = expect(ts, p6, TokenKind::Semi)?;
    Ok((ConstantDecl { doc_string, pragmas, name, ty }, p7))
}

/// What the rule `constant_decl_at` gives, as tokens.
pub open spec fn constant_decl_tokens(v: ConstantDeclView) -> Seq<TokenView>
{
    opt_doc_string_tokens(v.doc_string)
        + pragmas_tokens(v.pragmas, 0)
        + plain(TokenKind::Constant)
        + ident_tokens(v.name)
        + plain(TokenKind::Colon)
        + type_spec_tokens(v.ty)
        + plain(TokenKind::Semi)
}

/// The tokens that the rule `constant_decl_at` read are the tokens that its value prints
/// as, unless it read a token that the value does not show.
pub proof fn lemma_constant_decl_spelled(ts: Seq<Token>, pos: int)
    requires
        0 <= pos <= ts.len(),
        constant_decl_at(ts, pos) is Ok,
    ensures
        spelled(
            ts,
            pos,
            constant_decl_at(ts, pos)->Ok_0.1,
            constant_decl_tokens(constant_decl_at(ts, pos)->Ok_0.0),
        ),
{
    reveal(constant_decl_at);
    let (doc_string, n1) = opt_doc_string_at(ts, pos);
    lemma_opt_doc_string_spelled(ts, pos);
    let pragmas_list = pragmas_at(ts, pos + n1, Seq::empty());
    let pragmas = pragmas_list.items;
    let n2 = pragmas_list.taken;
    lemma_pragmas_spelled(ts, pos + n1, Seq::empty());
    lemma_spelled_token(ts, pos + n1 + n2, TokenKind::Constant);
    let (name, n3) = ident_at(ts, pos + n1 + n2 + 1)->Ok_0;
    lemma_ident_spelled(ts, pos + n1 + n2 + 1);
    lemma_spelled_token(ts, pos + n1 + n2 + n3 + 1, TokenKind::Colon);
    let (ty, n4) = type_spec_at(ts, pos + n1 + n2 + n3 + 2)->Ok_0;
    lemma_type_spec_spelled(ts, pos + n1 + n2 + n3 + 2);
    lemma_spelled_token(ts, pos + n1 + n2 + n3 + n4 + 2, TokenKind::Semi);
    lemma_spelled_then(
        ts,
        pos,
        n1,
        opt_doc_string_tokens(doc_string),
        n2,
        pragmas_tokens(pragmas, 0),
    );
    lemma_spelled_then(
        ts,
        pos,
        n1 + n2,
        opt_doc_string_tokens(doc_string) + pragmas_tokens(pragmas, 0),
        1,
        plain(TokenKind::Constant),
    );
    lemma_spelled_then(
        ts,
        pos,
        n1 + n2 + 1,
        opt_doc_string_tokens(doc_string) + pragmas_tokens(pragmas, 0) + plain(TokenKind::Constant),
        n3,
        ident_tokens(name),
    );
    lemma_spelled_then(
        ts,
        pos,
        n1 + n2 + 1 + n3,
        opt_doc_string_tokens(doc_string)
            + pragmas_tokens(pragmas, 0)
            + plain(TokenKind::Constant)
            + ident_tokens(name),
        1,
        plain(TokenKind::Colon),
    );
    lemma_spelled_then(
        ts,
        pos,
        n1 + n2 + 1 + n3 + 1,
        opt_doc_string_tokens(doc_string)
            + pragmas_tokens(pragmas, 0)
            + plain(TokenKind::Constant)
            + ident_tokens(name)
            + plain(TokenKind::Colon),
        n4,
        type_spec_tokens(ty),
    );
    lemma_spelled_then(
        ts,
        pos,
        n1 + n2 + 1 + n3 + 1 + n4,
        opt_doc_string_tokens(doc_string)
            + pragmas_tokens(pragmas, 0)
            + plain(TokenKind::Constant)
            + ident_tokens(name)
            + plain(TokenKind::Colon)
            + type_spec_tokens(ty),
        1,
        plain(TokenKind::Semi),
    );
}

/// The rule of constant definitions: as a declaration up to the type, then `:= value;`.
#[verifier::opaque]
pub open spec fn constant_def_at(ts: Seq<Token>, pos: int) -> Parsed<ConstantDefView>
{
    let (doc_string, n1) = opt_doc_string_at(ts, pos);
    let pragmas_list = pragmas_at(ts, pos + n1, Seq::empty());
    let pragmas = pragmas_list.items;
    let n2 = pragmas_list.taken;
    if kind_at(ts, pos + n1 + n2) != TokenKind::Constant {
        fail(pos + n1 + n2, seq![TokenKind::Constant])
    } else {
        match ident_at(ts, pos + n1 + n2 + 1) {
            Err(f) => Err(f),
            Ok((name, n3)) => {
                if kind_at(ts, pos + n1 + n2 + n3 + 1) != TokenKind::Colon {
                    fail(pos + n1 + n2 + n3 + 1, seq![TokenKind::Colon])
                } else {
                    match type_spec_at(ts, pos + n1 + n2 + n3 + 2) {
                        Err(f) => Err(f),
                        Ok((ty, n4)) => {
                            if kind_at(ts, pos + n1 + n2 + n3 + n4 + 2) != TokenKind::Assign {
                                fail(pos + n1 + n2 + n3 + n4 + 2, seq![TokenKind::Assign])
                            } else {
                                match expression_at(ts, pos + n1 + n2 + n3 + n4 + 3) {
                                    Err(f) => Err(f),
                                    Ok((value, n5)) => {
                                        if kind_at(
                                            ts,
                                            pos + n1 + n2 + n3 + n4 + n5 + 3,
                                        ) != TokenKind::Semi {
                                            fail(
                                                pos + n1 + n2 + n3 + n4 + n5 + 3,
                                                seq![TokenKind::Semi],
                                            )
                                        } else {
                                            Ok((ConstantDefView { decl: ConstantDeclView { doc_string, pragmas, name, ty }, value }, n1 + n2 + n3 + n4 + n5 + 4))
                                        }
                                    },
                                }
                            }
                        },
                    }
                }
            },
        }
    }
}

/// Parses by the rule `constant_def_at` at a position: the value and the
/// position after it, or the failure.
pub fn parse_constant_def(ts: &[Token], pos: usize) -> (r: Result<(ConstantDef, usize), ParseError>)
    requires
        pos <= ts.len(),
    ensures
        parsed(r, pos, ts.len(), constant_def_at(ts@, pos as int)),
        r is Ok ==> r->Ok_0.1 > pos,
{
    proof {
        reveal(constant_def_at);
    }
    let (doc_string, p1) = parse_opt_doc_string(ts, pos);
    let (pragmas, p2, _) = parse_pragmas(ts, p1);
    let p3 = expect(ts, p2, TokenKind::Constant)?;
    let (name, p4) = parse_ident(ts, p3)?;
    let p5 = expect(ts, p4, TokenKind::Colon)?;
    let (ty, p6) = parse_type_spec(ts, p5)?;
    let p7 = expect(ts, p6, TokenKind::Assign)?;
    let (value, p8) = parse_expression(ts, p7)?;
    let p9 = expect(ts, p8, TokenKind::Semi)?;
    Ok((ConstantDef { decl: ConstantDecl { doc_string, pragmas, name, ty }, value }, p9))
}

/// What the rule `constant_def_at` gives, as tokens.
pub open spec fn constant_def_tokens(v: ConstantDefView) -> Seq<TokenView>
{
    opt_doc_string_tokens(v.decl.doc_string)
        + pragmas_tokens(v.decl.pragmas, 0)
        + plain(TokenKind::Constant)
        + ident_tokens(v.decl.name)
        + plain(TokenKind::Colon)
        + type_spec_tokens(v.decl.ty)
        + plain(TokenKind::Assign)
        + expression_tokens(v.value)
        + plain(TokenKind::Semi)
}

/// The tokens that the rule `constant_def_at` read are the tokens that its value prints
/// as, unless it read a token that the value does not show.
pub proof fn lemma_constant_def_spelled(ts: Seq<Token>, pos: int)
    requires
        0 <= pos <= ts.len(),
        constant_def_at(ts, pos) is Ok,
    ensures
        spelled(
            ts,
            pos,
            constant_def_at(ts, pos)->Ok_0.1,
            constant_def_tokens(constant_def_at(ts, pos)->Ok_0.0),
        ),
{
    reveal(constant_def_at);
    let (doc_string, n1) = opt_doc_string_at(ts, pos);
    lemma_opt_doc_string_spelled(ts, pos);
    let pragmas_list = pragmas_at(ts, pos + n1, Seq::empty());
    let pragmas = pragmas_list.items;
    let n2 = pragmas_list.taken;
    lemma_pragmas_spelled(ts, pos + n1, Seq::empty());
    lemma_spelled_token(ts, pos + n1 + n2, TokenKind::Constant);
    let (name, n3) = ident_at(ts, pos + n1 + n2 + 1)->Ok_0;
    lemma_ident_spelled(ts, pos + n1 + n2 + 1);
    lemma_spelled_token(ts, pos + n1 + n2 + n3 + 1, TokenKind::Colon);
    let (ty, n4) = type_spec_at(ts, pos + n1 + n2 + n3 + 2)->Ok_0;
    lemma_type_spec_spelled(ts, pos + n1 + n2 + n3 + 2);
    lemma_spelled_token(ts, pos + n1 + n2 + n3 + n4 + 2, TokenKind::Assign);
    let (value, n5) = expression_at(ts, pos + n1 + n2 + n3 + n4 + 3)->Ok_0;
    lemma_expression_spelled(ts, pos + n1 + n2 + n3 + n4 + 3);
    lemma_spelled_token(ts, pos + n1 + n2 + n3 + n4 + n5 + 3, TokenKind::Semi);
    lemma_spelled_then(
        ts,
        pos,
        n1,
        opt_doc_string_tokens(doc_string),
        n2,
        pragmas_tokens(pragmas, 0),
    );
    lemma_spelled_then(
        ts,
        pos,
        n1 + n2,
        opt_doc_string_tokens(doc_string) + pragmas_tokens(pragmas, 0),
        1,
        plain(TokenKind::Constant),
    );
    lemma_spelled_then(
        ts,
        pos,
        n1 + n2 + 1,
        opt_doc_string_tokens(doc_string) + pragmas_tokens(pragmas, 0) + plain(TokenKind::Constant),
        n3,
        ident_tokens(name),
    );
    lemma_spelled_then(
        ts,
        pos,
        n1 + n2 + 1 + n3,
        opt_doc_string_tokens(doc_string)
            + pragmas_tokens(pragmas, 0)
            + plain(TokenKind::Constant)
            + ident_tokens(name),
        1,
        plain(TokenKind::Colon),
    );
    lemma_spelled_then(
        ts,
        pos,
        n1 + n2 + 1 + n3 + 1,
        opt_doc_string_tokens(doc_string)
            + pragmas_tokens(pragmas, 0)
            + plain(TokenKind::Constant)
            + ident_tokens(name)
            + plain(TokenKind::Colon),
        n4,
        type_spec_tokens(ty),
    );
    lemma_spelled_then(
        ts,
        pos,
        n1 + n2 + 1 + n3 + 1 + n4,
        opt_doc_string_tokens(doc_string)
            + pragmas_tokens(pragmas, 0)
            + plain(TokenKind::Constant)
            + ident_tokens(name)
            + plain(TokenKind::Colon)
            + type_spec_tokens(ty),
        1,
        plain(TokenKind::Assign),
    );
    lemma_spelled_then(
        ts,
        pos,
        n1 + n2 + 1 + n3 + 1 + n4 + 1,
        opt_doc_string_tokens(doc_string)
            + pragmas_tokens(pragmas, 0)
            + plain(TokenKind::Constant)
            + ident_tokens(name)
            + plain(TokenKind::Colon)
            + type_spec_tokens(ty)
            + plain(TokenKind::Assign),
        n5,
        expression_tokens(value),
    );
    lemma_spelled_then(
        ts,
        pos,
        n1 + n2 + 1 + n3 + 1 + n4 + 1 + n5,
        opt_doc_string_tokens(doc_string)
            + pragmas_tokens(pragmas, 0)
            + plain(TokenKind::Constant)
            + ident_tokens(name)
            + plain(TokenKind::Colon)
            + type_spec_tokens(ty)
            + plain(TokenKind::Assign)
            + expression_tokens(value),
        1,
        plain(TokenKind::Semi),
    );
}

impl ConstantDecl {
    /// Parses the whole of `tokens` by the rule `constant_decl_at`.
    pub fn parser(tokens: &[Token]) -> (r: Result<ConstantDecl, ParseError>)
        ensures
            parsed_whole(r, whole(constant_decl_at(tokens@, 0), tokens@.len())),
    {
        complete(parse_constant_decl(tokens, 0), tokens.len(), Ghost(constant_decl_at(tokens@, 0)))
    }
}

impl ConstantDef {
    /// Parses the whole of `tokens` by the rule `constant_def_at`.
    pub fn parser(tokens: &[Token]) -> (r: Result<ConstantDef, ParseError>)
        ensures
            parsed_whole(r, whole(constant_def_at(tokens@, 0), tokens@.len())),
    {
        complete(parse_constant_def(tokens, 0), tokens.len(), Ghost(constant_def_at(tokens@, 0)))
    }
}

} // verus!
