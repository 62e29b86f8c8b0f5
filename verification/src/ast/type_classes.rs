//! Typeclasses: their declarations, which hold method declarations, and
//! their definitions, which hold method definitions.

use crate::ast::common::{
    DocString, Ident, ident_at, ident_tokens, lemma_ident_spelled, lemma_opt_doc_string_spelled,
    lemma_pragmas_spelled, lemma_type_param_spelled, opt_doc_string_at, opt_doc_string_tokens,
    parse_ident, parse_opt_doc_string, parse_pragmas, parse_type_param, Pragma, pragmas_at,
    pragmas_tokens, PragmaView, type_param_at, type_param_tokens, TypeParam, TypeParamView,
};
use crate::ast::functions::{
    lemma_method_decls_spelled, lemma_method_defs_spelled, method_decls_at, method_decls_tokens,
    method_defs_at, method_defs_tokens, MethodDecl, MethodDeclView, MethodDef, MethodDefView,
    parse_method_decls, parse_method_defs,
};
use crate::ast::grammar::{
    close, closing, complete, expect, fail, kind_at, lemma_spelled_then, lemma_spelled_token,
    Parsed, parsed, parsed_whole, ParseError, plain, spelled, whole,
};
use crate::lexer::{Token, TokenKind, TokenView};
use vstd::prelude::*;

verus! {

/// A typeclass as an interface declares it.
pub type TypeClassDecl = TypeClassBase<MethodDecl>;

/// A typeclass as a body defines it.
pub type TypeClassDef = TypeClassBase<MethodDef>;

/// A typeclass: its name, its one type parameter and its methods.
#[derive(Debug, PartialEq)]
pub struct TypeClassBase<TMethod> {
    pub doc_string: Option<DocString>,
    pub pragmas: Vec<Pragma>,
    pub name: Ident,
    pub type_param: TypeParam,
    pub methods: Vec<TMethod>,
}

/// A value of `TypeClassBase` as plain data.
pub struct TypeClassBaseView<M> {
    pub doc_string: Option<Seq<char>>,
    pub pragmas: Seq<PragmaView>,
    pub name: Seq<char>,
    pub type_param: TypeParamView,
    pub methods: Seq<M>,
}

impl<TMethod: DeepView> DeepView for TypeClassBase<TMethod> {
    type V = TypeClassBaseView<TMethod::V>;

    open spec fn deep_view(&self) -> TypeClassBaseView<TMethod::V> {
        TypeClassBaseView {
            doc_string: self.doc_string.deep_view(),
            pragmas: self.pragmas.deep_view(),
            name: self.name.deep_view(),
            type_param: self.type_param.deep_view(),
            methods: self.methods.deep_view(),
        }
    }
}

/// The rule of typeclass declarations: a docstring and pragmas if there are any, then `typeclass Name(parameter) is method declarations end;`.
#[verifier::opaque]
pub open spec fn typeclass_decl_at(
    ts: Seq<Token>,
    pos: int,
) -> Parsed<TypeClassBaseView<MethodDeclView>>
{
    let (doc_string, n1) = opt_doc_string_at(ts, pos);
    let pragmas_list = pragmas_at(ts, pos + n1, Seq::empty());
    let pragmas = pragmas_list.items;
    let n2 = pragmas_list.taken;
    if kind_at(ts, pos + n1 + n2) != TokenKind::TypeClass {
        fail(pos + n1 + n2, seq![TokenKind::TypeClass])
    } else {
        match ident_at(ts, pos + n1 + n2 + 1) {
            Err(f) => Err(f),
            Ok((name, n3)) => {
                if kind_at(ts, pos + n1 + n2 + n3 + 1) != TokenKind::LParen {
                    fail(pos + n1 + n2 + n3 + 1, seq![TokenKind::LParen])
                } else {
                    match type_param_at(ts, pos + n1 + n2 + n3 + 2) {
                        Err(f) => Err(f),
                        Ok((type_param, n4)) => {
                            if kind_at(ts, pos + n1 + n2 + n3 + n4 + 2) != TokenKind::RParen {
                                fail(pos + n1 + n2 + n3 + n4 + 2, seq![TokenKind::RParen])
                            } else {
                                if kind_at(ts, pos + n1 + n2 + n3 + n4 + 3) != TokenKind::Is {
                                    fail(pos + n1 + n2 + n3 + n4 + 3, seq![TokenKind::Is])
                                } else {
                                    let methods_list = method_decls_at(
                                        ts,
                                        pos + n1 + n2 + n3 + n4 + 4,
                                        Seq::empty(),
                                    );
                                    let methods = methods_list.items;
                                    let n5 = methods_list.taken;
                                    match closing(
                                        ts,
                                        pos + n1 + n2 + n3 + n4 + n5 + 4,
                                        TokenKind::End,
                                        methods_list.stopped,
                                    ) {
                                        Some(f) => Err(f),
                                        None => {
                                            if kind_at(
                                                ts,
                                                pos + n1 + n2 + n3 + n4 + n5 + 5,
                                            ) != TokenKind::Semi {
                                                fail(
                                                    pos + n1 + n2 + n3 + n4 + n5 + 5,
                                                    seq![TokenKind::Semi],
                                                )
                                            } else {
                                                Ok((TypeClassBaseView { doc_string, pragmas, name, type_param, methods }, n1 + n2 + n3 + n4 + n5 + 6))
                                            }
                                        },
                                    }
                                }
                            }
                        },
                    }
                }
            },
        }
    }
}

/// Parses by the rule `typeclass_decl_at` at a position: the value and the
/// position after it, or the failure.
pub fn parse_typeclass_decl(
    ts: &[Token],
    pos: usize,
) -> (r: Result<(TypeClassBase<MethodDecl>, usize), ParseError>)
    requires
        pos <= ts.len(),
    ensures
        parsed(r, pos, ts.len(), typeclass_decl_at(ts@, pos as int)),
        r is Ok ==> r->Ok_0.1 > pos,
{
    proof {
        reveal(typeclass_decl_at);
    }
    let (doc_string, p1) = parse_opt_doc_string(ts, pos);
    let (pragmas, p2, _) = parse_pragmas(ts, p1);
    let p3 = expect(ts, p2, TokenKind::TypeClass)?;
    let (name, p4) = parse_ident(ts, p3)?;
    let p5 = expect(ts, p4, TokenKind::LParen)?;
    let (type_param, p6) = parse_type_param(ts, p5)?;
    let p7 = expect(ts, p6, TokenKind::RParen)?;
    let p8 = expect(ts, p7, TokenKind::Is)?;
    let (methods, methods_end, methods_stopped) = parse_method_decls(ts, p8);
    let p9 = close(ts, methods_end, TokenKind::End, methods_stopped)?;
    let p10 = expect(ts, p9, TokenKind::Semi)?;
    Ok((TypeClassBase { doc_string, pragmas, name, type_param, methods }, p10))
}

/// What the rule `typeclass_decl_at` gives, as tokens.
pub open spec fn typeclass_decl_tokens(v: TypeClassBaseView<MethodDeclView>) -> Seq<TokenView>
{
    opt_doc_string_tokens(v.doc_string)
        + pragmas_tokens(v.pragmas, 0)
        + plain(TokenKind::TypeClass)
        + ident_tokens(v.name)
        + plain(TokenKind::LParen)
        + type_param_tokens(v.type_param)
        + plain(TokenKind::RParen)
        + plain(TokenKind::Is)
        + method_decls_tokens(v.methods, 0)
        + plain(TokenKind::End)
        + plain(TokenKind::Semi)
}

/// The tokens that the rule `typeclass_decl_at` read are the tokens that its value prints
/// as, unless it read a token that the value does not show.
pub proof fn lemma_typeclass_decl_spelled(ts: Seq<Token>, pos: int)
    requires
        0 <= pos <= ts.len(),
        typeclass_decl_at(ts, pos) is Ok,
    ensures
        spelled(
            ts,
            pos,
            typeclass_decl_at(ts, pos)->Ok_0.1,
            typeclass_decl_tokens(typeclass_decl_at(ts, pos)->Ok_0.0),
        ),
{
    reveal(typeclass_decl_at);
    let (doc_string, n1) = opt_doc_string_at(ts, pos);
    lemma_opt_doc_string_spelled(ts, pos);
    let pragmas_list = pragmas_at(ts, pos + n1, Seq::empty());
    let pragmas = pragmas_list.items;
    let n2 = pragmas_list.taken;
    lemma_pragmas_spelled(ts, pos + n1, Seq::empty());
    lemma_spelled_token(ts, pos + n1 + n2, TokenKind::TypeClass);
    let (name, n3) = ident_at(ts, pos + n1 + n2 + 1)->Ok_0;
    lemma_ident_spelled(ts, pos + n1 + n2 + 1);
    lemma_spelled_token(ts, pos + n1 + n2 + n3 + 1, TokenKind::LParen);
    let (type_param, n4) = type_param_at(ts, pos + n1 + n2 + n3 + 2)->Ok_0;
    lemma_type_param_spelled(ts, pos + n1 + n2 + n3 + 2);
    lemma_spelled_token(ts, pos + n1 + n2 + n3 + n4 + 2, TokenKind::RParen);
    lemma_spelled_token(ts, pos + n1 + n2 + n3 + n4 + 3, TokenKind::Is);
    let methods_list = method_decls_at(ts, pos + n1 + n2 + n3 + n4 + 4, Seq::empty());
    let methods = methods_list.items;
    let n5 = methods_list.taken;
    lemma_method_decls_spelled(ts, pos + n1 + n2 + n3 + n4 + 4, Seq::empty());
    lemma_spelled_token(ts, pos + n1 + n2 + n3 + n4 + n5 + 4, TokenKind::End);
    lemma_spelled_token(ts, pos + n1 + n2 + n3 + n4 + n5 + 5, TokenKind::Semi);
    lemma_spelled_then(
        ts,
        pos,
        n1,
        opt_doc_string_tokens(doc_string),
        n2,
        pragmas_tokens(pragmas, 0),
    );
    lemma_spelled_then(
        ts,
        pos,
        n1 + n2,
        opt_doc_string_tokens(doc_string) + pragmas_tokens(pragmas, 0),
        1,
        plain(TokenKind::TypeClass),
    );
    lemma_spelled_then(
        ts,
        pos,
        n1 + n2 + 1,
        opt_doc_string_tokens(doc_string)
            + pragmas_tokens(pragmas, 0)
            + plain(TokenKind::TypeClass),
        n3,
        ident_tokens(name),
    );
    lemma_spelled_then(
        ts,
        pos,
        n1 + n2 + 1 + n3,
        opt_doc_string_tokens(doc_string)
            + pragmas_tokens(pragmas, 0)
            + plain(TokenKind::TypeClass)
            + ident_tokens(name),
        1,
        plain(TokenKind::LParen),
    );
    lemma_spelled_then(
        ts,
        pos,
        n1 + n2 + 1 + n3 + 1,
        opt_doc_string_tokens(doc_string)
            + pragmas_tokens(pragmas, 0)
            + plain(TokenKind::TypeClass)
            + ident_tokens(name)
            + plain(TokenKind::LParen),
        n4,
        type_param_tokens(type_param),
    );
    lemma_spelled_then(
        ts,
        pos,
        n1 + n2 + 1 + n3 + 1 + n4,
        opt_doc_string_tokens(doc_string)
            + pragmas_tokens(pragmas, 0)
            + plain(TokenKind::TypeClass)
            + ident_tokens(name)
            + plain(TokenKind::LParen)
            + type_param_tokens(type_param),
        1,
        plain(TokenKind::RParen),
    );
    lemma_spelled_then(
        ts,
        pos,
        n1 + n2 + 1 + n3 + 1 + n4 + 1,
        opt_doc_string_tokens(doc_string)
            + pragmas_tokens(pragmas, 0)
            + plain(TokenKind::TypeClass)
            + ident_tokens(name)
            + plain(TokenKind::LParen)
            + type_param_tokens(type_param)
            + plain(TokenKind::RParen),
        1,
        plain(TokenKind::Is),
    );
    lemma_spelled_then(
        ts,
        pos,
        n1 + n2 + 1 + n3 + 1 + n4 + 1 + 1,
        opt_doc_string_tokens(doc_string)
            + pragmas_tokens(pragmas, 0)
            + plain(TokenKind::TypeClass)
            + ident_tokens(name)
            + plain(TokenKind::LParen)
            + type_param_tokens(type_param)
            + plain(TokenKind::RParen)
            + plain(TokenKind::Is),
        n5,
        method_decls_tokens(methods, 0),
    );
    lemma_spelled_then(
        ts,
        pos,
        n1 + n2 + 1 + n3 + 1 + n4 + 1 + 1 + n5,
        opt_doc_string_tokens(doc_string)
            + pragmas_tokens(pragmas, 0)
            + plain(TokenKind::TypeClass)
            + ident_tokens(name)
            + plain(TokenKind::LParen)
            + type_param_tokens(type_param)
            + plain(TokenKind::RParen)
            + plain(TokenKind::Is)
            + method_decls_tokens(methods, 0),
        1,
        plain(TokenKind::End),
    );
    lemma_spelled_then(
        ts,
        pos,
        n1 + n2 + 1 + n3 + 1 + n4 + 1 + 1 + n5 + 1,
        opt_doc_string_tokens(doc_string)
            + pragmas_tokens(pragmas, 0)
            + plain(TokenKind::TypeClass)
            + ident_tokens(name)
            + plain(TokenKind::LParen)
            + type_param_tokens(type_param)
            + plain(TokenKind::RParen)
            + plain(TokenKind::Is)
            + method_decls_tokens(methods, 0)
            + plain(TokenKind::End),
        1,
        plain(TokenKind::Semi),
    );
}

/// The rule of typeclass definitions: as a declaration, with method definitions.
#[verifier::opaque]
pub open spec fn typeclass_def_at(
    ts: Seq<Token>,
    pos: int,
) -> Parsed<TypeClassBaseView<MethodDefView>>
{
    let (doc_string, n1) = opt_doc_string_at(ts, pos);
    let pragmas_list = pragmas_at(ts, pos + n1, Seq::empty());
    let pragmas = pragmas_list.items;
    let n2 = pragmas_list.taken;
    if kind_at(ts, pos + n1 + n2) != TokenKind::TypeClass {
        fail(pos + n1 + n2, seq![TokenKind::TypeClass])
    } else {
        match ident_at(ts, pos + n1 + n2 + 1) {
            Err(f) => Err(f),
            Ok((name, n3)) => {
                if kind_at(ts, pos + n1 + n2 + n3 + 1) != TokenKind::LParen {
                    fail(pos + n1 + n2 + n3 + 1, seq![TokenKind::LParen])
                } else {
                    match type_param_at(ts, pos + n1 + n2 + n3 + 2) {
                        Err(f) => Err(f),
                        Ok((type_param, n4)) => {
                            if kind_at(ts, pos + n1 + n2 + n3 + n4 + 2) != TokenKind::RParen {
                                fail(pos + n1 + n2 + n3 + n4 + 2, seq![TokenKind::RParen])
                            } else {
                                if kind_at(ts, pos + n1 + n2 + n3 + n4 + 3) != TokenKind::Is {
                                    fail(pos + n1 + n2 + n3 + n4 + 3, seq![TokenKind::Is])
                                } else {
                                    let methods_list = method_defs_at(
                                        ts,
                                        pos + n1 + n2 + n3 + n4 + 4,
                                        Seq::empty(),
                                    );
                                    let methods = methods_list.items;
                                    let n5 = methods_list.taken;
                                    match closing(
                                        ts,
                                        pos + n1 + n2 + n3 + n4 + n5 + 4,
                                        TokenKind::End,
                                        methods_list.stopped,
                                    ) {
                                        Some(f) => Err(f),
                                        None => {
                                            if kind_at(
                                                ts,
                                                pos + n1 + n2 + n3 + n4 + n5 + 5,
                                            ) != TokenKind::Semi {
                                                fail(
                                                    pos + n1 + n2 + n3 + n4 + n5 + 5,
                                                    seq![TokenKind::Semi],
                                                )
                                            } else {
                                                Ok((TypeClassBaseView { doc_string, pragmas, name, type_param, methods }, n1 + n2 + n3 + n4 + n5 + 6))
                                            }
                                        },
                                    }
                                }
                            }
                        },
                    }
                }
            },
        }
    }
}

/// Parses by the rule `typeclass_def_at` at a position: the value and the
/// position after it, or the failure.
pub fn parse_typeclass_def(
    ts: &[Token],
    pos: usize,
) -> (r: Result<(TypeClassBase<MethodDef>, usize), ParseError>)
    requires
        pos <= ts.len(),
    ensures
        parsed(r, pos, ts.len(), typeclass_def_at(ts@, pos as int)),
        r is Ok ==> r->Ok_0.1 > pos,
{
    proof {
        reveal(typeclass_def_at);
    }
    let (doc_string, p1) = parse_opt_doc_string(ts, pos);
    let (pragmas, p2, _) = parse_pragmas(ts, p1);
    let p3 = expect(ts, p2, TokenKind::TypeClass)?;
    let (name, p4) = parse_ident(ts, p3)?;
    let p5 = expect(ts, p4, TokenKind::LParen)?;
    let (type_param, p6) = parse_type_param(ts, p5)?;
    let p7 = expect(ts, p6, TokenKind::RParen)?;
    let p8 = expect(ts, p7, TokenKind::Is)?;
    let (methods, methods_end, methods_stopped) = parse_method_defs(ts, p8);
    let p9 = close(ts, methods_end, TokenKind::End, methods_stopped)?;
    let p10 = expect(ts, p9, TokenKind::Semi)?;
    Ok((TypeClassBase { doc_string, pragmas, name, type_param, methods }, p10))
}

/// What the rule `typeclass_def_at` gives, as tokens.
pub open spec fn typeclass_def_tokens(v: TypeClassBaseView<MethodDefView>) -> Seq<TokenView>
{
    opt_doc_string_tokens(v.doc_string)
        + pragmas_tokens(v.pragmas, 0)
        + plain(TokenKind::TypeClass)
        + ident_tokens(v.name)
        + plain(TokenKind::LParen)
        + type_param_tokens(v.type_param)
        + plain(TokenKind::RParen)
        + plain(TokenKind::Is)
        + method_defs_tokens(v.methods, 0)
        + plain(TokenKind::End)
        + plain(TokenKind::Semi)
}

/// The tokens that the rule `typeclass_def_at` read are the tokens that its value prints
/// as, unless it read a token that the value does not show.
pub proof fn lemma_typeclass_def_spelled(ts: Seq<Token>, pos: int)
    requires
        0 <= pos <= ts.len(),
        typeclass_def_at(ts, pos) is Ok,
    ensures
        spelled(
            ts,
            pos,
            typeclass_def_at(ts, pos)->Ok_0.1,
            typeclass_def_tokens(typeclass_def_at(ts, pos)->Ok_0.0),
        ),
{
    reveal(typeclass_def_at);
    let (doc_string, n1) = opt_doc_string_at(ts, pos);
    lemma_opt_doc_string_spelled(ts, pos);
    let pragmas_list = pragmas_at(ts, pos + n1, Seq::empty());
    let pragmas = pragmas_list.items;
    let n2 = pragmas_list.taken;
    lemma_pragmas_spelled(ts, pos + n1, Seq::empty());
    lemma_spelled_token(ts, pos + n1 + n2, TokenKind::TypeClass);
    let (name, n3) = ident_at(ts, pos + n1 + n2 + 1)->Ok_0;
    lemma_ident_spelled(ts, pos + n1 + n2 + 1);
    lemma_spelled_token(ts, pos + n1 + n2 + n3 + 1, TokenKind::LParen);
    let (type_param, n4) = type_param_at(ts, pos + n1 + n2 + n3 + 2)->Ok_0;
    lemma_type_param_spelled(ts, pos + n1 + n2 + n3 + 2);
    lemma_spelled_token(ts, pos + n1 + n2 + n3 + n4 + 2, TokenKind::RParen);
    lemma_spelled_token(ts, pos + n1 + n2 + n3 + n4 + 3, TokenKind::Is);
    let methods_list = method_defs_at(ts, pos + n1 + n2 + n3 + n4 + 4, Seq::empty());
    let methods = methods_list.items;
    let n5 = methods_list.taken;
    lemma_method_defs_spelled(ts, pos + n1 + n2 + n3 + n4 + 4, Seq::empty());
    lemma_spelled_token(ts, pos + n1 + n2 + n3 + n4 + n5 + 4, TokenKind::End);
    lemma_spelled_token(ts, pos + n1 + n2 + n3 + n4 + n5 + 5, TokenKind::Semi);
    lemma_spelled_then(
        ts,
        pos,
        n1,
        opt_doc_string_tokens(doc_string),
        n2,
        pragmas_tokens(pragmas, 0),
    );
    lemma_spelled_then(
        ts,
        pos,
        n1 + n2,
        opt_doc_string_tokens(doc_string) + pragmas_tokens(pragmas, 0),
        1,
        plain(TokenKind::TypeClass),
    );
    lemma_spelled_then(
        ts,
        pos,
        n1 + n2 + 1,
        opt_doc_string_tokens(doc_string)
            + pragmas_tokens(pragmas, 0)
            + plain(TokenKind::TypeClass),
        n3,
        ident_tokens(name),
    );
    lemma_spelled_then(
        ts,
        pos,
        n1 + n2 + 1 + n3,
        opt_doc_string_tokens(doc_string)
            + pragmas_tokens(pragmas, 0)
            + plain(TokenKind::TypeClass)
            + ident_tokens(name),
        1,
        plain(TokenKind::LParen),
    );
    lemma_spelled_then(
        ts,
        pos,
        n1 + n2 + 1 + n3 + 1,
        opt_doc_string_tokens(doc_string)
            + pragmas_tokens(pragmas, 0)
            + plain(TokenKind::TypeClass)
            + ident_tokens(name)
            + plain(TokenKind::LParen),
        n4,
        type_param_tokens(type_param),
    );
    lemma_spelled_then(
        ts,
        pos,
        n1 + n2 + 1 + n3 + 1 + n4,
        opt_doc_string_tokens(doc_string)
            + pragmas_tokens(pragmas, 0)
            + plain(TokenKind::TypeClass)
            + ident_tokens(name)
            + plain(TokenKind::LParen)
            + type_param_tokens(type_param),
        1,
        plain(TokenKind::RParen),
    );
    lemma_spelled_then(
        ts,
        pos,
        n1 + n2 + 1 + n3 + 1 + n4 + 1,
        opt_doc_string_tokens(doc_string)
            + pragmas_tokens(pragmas, 0)
            + plain(TokenKind::TypeClass)
            + ident_tokens(name)
            + plain(TokenKind::LParen)
            + type_param_tokens(type_param)
            + plain(TokenKind::RParen),
        1,
        plain(TokenKind::Is),
    );
    lemma_spelled_then(
        ts,
        pos,
        n1 + n2 + 1 + n3 + 1 + n4 + 1 + 1,
        opt_doc_string_tokens(doc_string)
            + pragmas_tokens(pragmas, 0)
            + plain(TokenKind::TypeClass)
            + ident_tokens(name)
            + plain(TokenKind::LParen)
            + type_param_tokens(type_param)
            + plain(TokenKind::RParen)
            + plain(TokenKind::Is),
        n5,
        method_defs_tokens(methods, 0),
    );
    lemma_spelled_then(
        ts,
        pos,
        n1 + n2 + 1 + n3 + 1 + n4 + 1 + 1 + n5,
        opt_doc_string_tokens(doc_string)
            + pragmas_tokens(pragmas, 0)
            + plain(TokenKind::TypeClass)
            + ident_tokens(name)
            + plain(TokenKind::LParen)
            + type_param_tokens(type_param)
            + plain(TokenKind::RParen)
            + plain(TokenKind::Is)
            + method_defs_tokens(methods, 0),
        1,
        plain(TokenKind::End),
    );
    lemma_spelled_then(
        ts,
        pos,
        n1 + n2 + 1 + n3 + 1 + n4 + 1 + 1 + n5 + 1,
        opt_doc_string_tokens(doc_string)
            + pragmas_tokens(pragmas, 0)
            + plain(TokenKind::TypeClass)
            + ident_tokens(name)
            + plain(TokenKind::LParen)
            + type_param_tokens(type_param)
            + plain(TokenKind::RParen)
            + plain(TokenKind::Is)
            + method_defs_tokens(methods, 0)
            + plain(TokenKind::End),
        1,
        plain(TokenKind::Semi),
    );
}

impl TypeClassBase<MethodDecl> {
    /// Parses the whole of `tokens` by the rule `typeclass_decl_at`.
    pub fn parser(tokens: &[Token]) -> (r: Result<TypeClassBase<MethodDecl>, ParseError>)
        ensures
            parsed_whole(r, whole(typeclass_decl_at(tokens@, 0), tokens@.len())),
    {
        complete(
            parse_typeclass_decl(tokens, 0),
            tokens.len(),
            Ghost(typeclass_decl_at(tokens@, 0)),
        )
    }
}

impl TypeClassBase<MethodDef> {
    /// Parses the whole of `tokens` by the rule `typeclass_def_at`.
    pub fn parser(tokens: &[Token]) -> (r: Result<TypeClassBase<MethodDef>, ParseError>)
        ensures
            parsed_whole(r, whole(typeclass_def_at(tokens@, 0), tokens@.len())),
    {
        complete(parse_typeclass_def(tokens, 0), tokens.len(), Ghost(typeclass_def_at(tokens@, 0)))
    }
}

} // verus!
