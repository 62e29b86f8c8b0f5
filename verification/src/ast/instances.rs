//! Instances of typeclasses: their declarations and their definitions.

use crate::ast::common::{
    DocString, generic_clause_at, generic_clause_tokens, Ident, ident_at, ident_tokens,
    lemma_generic_clause_spelled, lemma_ident_spelled, lemma_opt_doc_string_spelled,
    lemma_pragmas_spelled, opt_doc_string_at, opt_doc_string_tokens, parse_generic_clause,
    parse_ident, parse_opt_doc_string, parse_pragmas, Pragma, pragmas_at, pragmas_tokens,
    PragmaView, TypeParam, TypeParamView,
};
use crate::ast::functions::{
    lemma_method_decls_spelled, lemma_method_defs_spelled, method_decls_at, method_decls_tokens,
    method_defs_at, method_defs_tokens, MethodDecl, MethodDeclView, MethodDef, MethodDefView,
    parse_method_decls, parse_method_defs,
};
use crate::ast::grammar::{
    close, closing, complete, expect, fail, kind_at, lemma_spelled_then, lemma_spelled_token,
    Parsed, parsed, parsed_whole, ParseError, plain, spelled, whole,
};
use crate::ast::types::{
    lemma_type_spec_spelled, parse_type_spec, type_spec_at, type_spec_tokens, TypeSpec,
    TypeSpecView,
};
use crate::lexer::{Token, TokenKind, TokenView};
use vstd::prelude::*;

verus! {

/// An instance as an interface declares it.
pub type InstanceDecl = InstanceBase<MethodDecl>;

/// An instance as a body defines it.
pub type InstanceDef = InstanceBase<MethodDef>;

/// An instance: the typeclass it is an instance of, the type it is an instance for, and its methods.
#[derive(Debug, PartialEq)]
pub struct InstanceBase<TMethod> {
    pub doc_string: Option<DocString>,
    pub pragmas: Vec<Pragma>,
    pub type_params: Vec<TypeParam>,
    pub name: Ident,
    pub arg: TypeSpec,
    pub methods: Vec<TMethod>,
}

/// A value of `InstanceBase` as plain data.
pub struct InstanceBaseView<M> {
    pub doc_string: Option<Seq<char>>,
    pub pragmas: Seq<PragmaView>,
    pub type_params: Seq<TypeParamView>,
    pub name: Seq<char>,
    pub arg: TypeSpecView,
    pub methods: Seq<M>,
}

impl<TMethod: DeepView> DeepView for InstanceBase<TMethod> {
    type V = InstanceBaseView<TMethod::V>;

    open spec fn deep_view(&self) -> InstanceBaseView<TMethod::V> {
        InstanceBaseView {
            doc_string: self.doc_string.deep_view(),
            pragmas: self.pragmas.deep_view(),
            type_params: self.type_params.deep_view(),
            name: self.name.deep_view(),
            arg: self.arg.deep_view(),
            methods: self.methods.deep_view(),
        }
    }
}

/// The rule of instance declarations: a docstring and pragmas if there are any, the type parameters if there are any, then `instance Name(T) is method declarations end;`.
#[verifier::opaque]
pub open spec fn instance_decl_at(
    ts: Seq<Token>,
    pos: int,
) -> Parsed<InstanceBaseView<MethodDeclView>>
{
    let (doc_string, n1) = opt_doc_string_at(ts, pos);
    let pragmas_list = pragmas_at(ts, pos + n1, Seq::empty());
    let pragmas = pragmas_list.items;
    let n2 = pragmas_list.taken;
    match generic_clause_at(ts, pos + n1 + n2) {
        Err(f) => Err(f),
        Ok((type_params, n3)) => {
            if kind_at(ts, pos + n1 + n2 + n3) != TokenKind::Instance {
                fail(pos + n1 + n2 + n3, seq![TokenKind::Instance])
            } else {
                match ident_at(ts, pos + n1 + n2 + n3 + 1) {
                    Err(f) => Err(f),
                    Ok((name, n4)) => {
                        if kind_at(ts, pos + n1 + n2 + n3 + n4 + 1) != TokenKind::LParen {
                            fail(pos + n1 + n2 + n3 + n4 + 1, seq![TokenKind::LParen])
                        } else {
                            match type_spec_at(ts, pos + n1 + n2 + n3 + n4 + 2) {
                                Err(f) => Err(f),
                                Ok((arg, n5)) => {
                                    if kind_at(
                                        ts,
                                        pos + n1 + n2 + n3 + n4 + n5 + 2,
                                    ) != TokenKind::RParen {
                                        fail(
                                            pos + n1 + n2 + n3 + n4 + n5 + 2,
                                            seq![TokenKind::RParen],
                                        )
                                    } else {
                                        if kind_at(
                                            ts,
                                            pos + n1 + n2 + n3 + n4 + n5 + 3,
                                        ) != TokenKind::Is {
                                            fail(
                                                pos + n1 + n2 + n3 + n4 + n5 + 3,
                                                seq![TokenKind::Is],
                                            )
                                        } else {
                                            let methods_list = method_decls_at(
                                                ts,
                                                pos + n1 + n2 + n3 + n4 + n5 + 4,
                                                Seq::empty(),
                                            );
                                            let methods = methods_list.items;
                                            let n6 = methods_list.taken;
                                            match closing(
                                                ts,
                                                pos + n1 + n2 + n3 + n4 + n5 + n6 + 4,
                                                TokenKind::End,
                                                methods_list.stopped,
                                            ) {
                                                Some(f) => Err(f),
                                                None => {
                                                    if kind_at(
                                                        ts,
                                                        pos + n1 + n2 + n3 + n4 + n5 + n6 + 5,
                                                    ) != TokenKind::Semi {
                                                        fail(
                                                            pos + n1 + n2 + n3 + n4 + n5 + n6 + 5,
                                                            seq![TokenKind::Semi],
                                                        )
                                                    } else {
                                                        Ok((InstanceBaseView { doc_string, pragmas, type_params, name, arg, methods }, n1 + n2 + n3 + n4 + n5 + n6 + 6))
                                                    }
                                                },
                                            }
                                        }
                                    }
                                },
                            }
                        }
                    },
                }
            }
        },
    }
}

/// Parses by the rule `instance_decl_at` at a position: the value and the
/// position after it, or the failure.
pub fn parse_instance_decl(
    ts: &[Token],
    pos: usize,
) -> (r: Result<(InstanceBase<MethodDecl>, usize), ParseError>)
    requires
        pos <= ts.len(),
    ensures
        parsed(r, pos, ts.len(), instance_decl_at(ts@, pos as int)),
        r is Ok ==> r->Ok_0.1 > pos,
{
    proof {
        reveal(instance_decl_at);
    }
    let (doc_string, p1) = parse_opt_doc_string(ts, pos);
    let (pragmas, p2, _) = parse_pragmas(ts, p1);
    let (type_params, p3) = parse_generic_clause(ts, p2)?;
    let p4 = expect(ts, p3, TokenKind::Instance)?;
    let (name, p5) = parse_ident(ts, p4)?;
    let p6 = expect(ts, p5, TokenKind::LParen)?;
    let (arg, p7) = parse_type_spec(ts, p6)?;
    let p8 = expect(ts, p7, TokenKind::RParen)?;
    let p9 = expect(ts, p8, TokenKind::Is)?;
    let (methods, methods_end, methods_stopped) = parse_method_decls(ts, p9);
    let p10 = close(ts, methods_end, TokenKind::End, methods_stopped)?;
    let p11 = expect(ts, p10, TokenKind::Semi)?;
    Ok((InstanceBase { doc_string, pragmas, type_params, name, arg, methods }, p11))
}

/// What the rule `instance_decl_at` gives, as tokens.
pub open spec fn instance_decl_tokens(v: InstanceBaseView<MethodDeclView>) -> Seq<TokenView>
{
    opt_doc_string_tokens(v.doc_string)
        + pragmas_tokens(v.pragmas, 0)
        + generic_clause_tokens(v.type_params)
        + plain(TokenKind::Instance)
        + ident_tokens(v.name)
        + plain(TokenKind::LParen)
        + type_spec_tokens(v.arg)
        + plain(TokenKind::RParen)
        + plain(TokenKind::Is)
        + method_decls_tokens(v.methods, 0)
        + plain(TokenKind::End)
        + plain(TokenKind::Semi)
}

/// The tokens that the rule `instance_decl_at` read are the tokens that its value prints
/// as, unless it read a token that the value does not show.
pub proof fn lemma_instance_decl_spelled(ts: Seq<Token>, pos: int)
    requires
        0 <= pos <= ts.len(),
        instance_decl_at(ts, pos) is Ok,
    ensures
        spelled(
            ts,
            pos,
            instance_decl_at(ts, pos)->Ok_0.1,
            instance_decl_tokens(instance_decl_at(ts, pos)->Ok_0.0),
        ),
{
    reveal(instance_decl_at);
    let (doc_string, n1) = opt_doc_string_at(ts, pos);
    lemma_opt_doc_string_spelled(ts, pos);
    let pragmas_list = pragmas_at(ts, pos + n1, Seq::empty());
    let pragmas = pragmas_list.items;
    let n2 = pragmas_list.taken;
    lemma_pragmas_spelled(ts, pos + n1, Seq::empty());
    let (type_params, n3) = generic_clause_at(ts, pos + n1 + n2)->Ok_0;
    lemma_generic_clause_spelled(ts, pos + n1 + n2);
    lemma_spelled_token(ts, pos + n1 + n2 + n3, TokenKind::Instance);
    let (name, n4) = ident_at(ts, pos + n1 + n2 + n3 + 1)->Ok_0;
    lemma_ident_spelled(ts, pos + n1 + n2 + n3 + 1);
    lemma_spelled_token(ts, pos + n1 + n2 + n3 + n4 + 1, TokenKind::LParen);
    let (arg, n5) = type_spec_at(ts, pos + n1 + n2 + n3 + n4 + 2)->Ok_0;
    lemma_type_spec_spelled(ts, pos + n1 + n2 + n3 + n4 + 2);
    lemma_spelled_token(ts, pos + n1 + n2 + n3 + n4 + n5 + 2, TokenKind::RParen);
    lemma_spelled_token(ts, pos + n1 + n2 + n3 + n4 + n5 + 3, TokenKind::Is);
    let methods_list = method_decls_at(ts, pos + n1 + n2 + n3 + n4 + n5 + 4, Seq::empty());
    let methods = methods_list.items;
    let n6 = methods_list.taken;
    lemma_method_decls_spelled(ts, pos + n1 + n2 + n3 + n4 + n5 + 4, Seq::empty());
    lemma_spelled_token(ts, pos + n1 + n2 + n3 + n4 + n5 + n6 + 4, TokenKind::End);
    lemma_spelled_token(ts, pos + n1 + n2 + n3 + n4 + n5 + n6 + 5, TokenKind::Semi);
    lemma_spelled_then(
        ts,
        pos,
        n1,
        opt_doc_string_tokens(doc_string),
        n2,
        pragmas_tokens(pragmas, 0),
    );
    lemma_spelled_then(
        ts,
        pos,
        n1 + n2,
        opt_doc_string_tokens(doc_string) + pragmas_tokens(pragmas, 0),
        n3,
        generic_clause_tokens(type_params),
    );
    lemma_spelled_then(
        ts,
        pos,
        n1 + n2 + n3,
        opt_doc_string_tokens(doc_string)
            + pragmas_tokens(pragmas, 0)
            + generic_clause_tokens(type_params),
        1,
        plain(TokenKind::Instance),
    );
    lemma_spelled_then(
        ts,
        pos,
        n1 + n2 + n3 + 1,
        opt_doc_string_tokens(doc_string)
            + pragmas_tokens(pragmas, 0)
            + generic_clause_tokens(type_params)
            + plain(TokenKind::Instance),
        n4,
        ident_tokens(name),
    );
    lemma_spelled_then(
        ts,
        pos,
        n1 + n2 + n3 + 1 + n4,
        opt_doc_string_tokens(doc_string)
            + pragmas_tokens(pragmas, 0)
            + generic_clause_tokens(type_params)
            + plain(TokenKind::Instance)
            + ident_tokens(name),
        1,
        plain(TokenKind::LParen),
    );
    lemma_spelled_then(
        ts,
        pos,
        n1 + n2 + n3 + 1 + n4 + 1,
        opt_doc_string_tokens(doc_string)
            + pragmas_tokens(pragmas, 0)
            + generic_clause_tokens(type_params)
            + plain(TokenKind::Instance)
            + ident_tokens(name)
            + plain(TokenKind::LParen),
        n5,
        type_spec_tokens(arg),
    );
    lemma_spelled_then(
        ts,
        pos,
        n1 + n2 + n3 + 1 + n4 + 1 + n5,
        opt_doc_string_tokens(doc_string)
            + pragmas_tokens(pragmas, 0)
            + generic_clause_tokens(type_params)
            + plain(TokenKind::Instance)
            + ident_tokens(name)
            + plain(TokenKind::LParen)
            + type_spec_tokens(arg),
        1,
        plain(TokenKind::RParen),
    );
    lemma_spelled_then(
        ts,
        pos,
        n1 + n2 + n3 + 1 + n4 + 1 + n5 + 1,
        opt_doc_string_tokens(doc_string)
            + pragmas_tokens(pragmas, 0)
            + generic_clause_tokens(type_params)
            + plain(TokenKind::Instance)
            + ident_tokens(name)
            + plain(TokenKind::LParen)
            + type_spec_tokens(arg)
            + plain(TokenKind::RParen),
        1,
        plain(TokenKind::Is),
    );
    lemma_spelled_then(
        ts,
        pos,
        n1 + n2 + n3 + 1 + n4 + 1 + n5 + 1 + 1,
        opt_doc_string_tokens(doc_string)
            + pragmas_tokens(pragmas, 0)
            + generic_clause_tokens(type_params)
            + plain(TokenKind::Instance)
            + ident_tokens(name)
            + plain(TokenKind::LParen)
            + type_spec_tokens(arg)
            + plain(TokenKind::RParen)
            + plain(TokenKind::Is),
        n6,
        method_decls_tokens(methods, 0),
    );
    lemma_spelled_then(
        ts,
        pos,
        n1 + n2 + n3 + 1 + n4 + 1 + n5 + 1 + 1 + n6,
        opt_doc_string_tokens(doc_string)
            + pragmas_tokens(pragmas, 0)
            + generic_clause_tokens(type_params)
            + plain(TokenKind::Instance)
            + ident_tokens(name)
            + plain(TokenKind::LParen)
            + type_spec_tokens(arg)
            + plain(TokenKind::RParen)
            + plain(TokenKind::Is)
            + method_decls_tokens(methods, 0),
        1,
        plain(TokenKind::End),
    );
    lemma_spelled_then(
        ts,
        pos,
        n1 + n2 + n3 + 1 + n4 + 1 + n5 + 1 + 1 + n6 + 1,
        opt_doc_string_tokens(doc_string)
            + pragmas_tokens(pragmas, 0)
            + generic_clause_tokens(type_params)
            + plain(TokenKind::Instance)
            + ident_tokens(name)
            + plain(TokenKind::LParen)
            + type_spec_tokens(arg)
            + plain(TokenKind::RParen)
            + plain(TokenKind::Is)
            + method_decls_tokens(methods, 0)
            + plain(TokenKind::End),
        1,
        plain(TokenKind::Semi),
    );
}

/// The rule of instance definitions: as a declaration, with method definitions.
#[verifier::opaque]
pub open spec fn instance_def_at(
    ts: Seq<Token>,
    pos: int,
) -> Parsed<InstanceBaseView<MethodDefView>>
{
    let (doc_string, n1) = opt_doc_string_at(ts, pos);
    let pragmas_list = pragmas_at(ts, pos + n1, Seq::empty());
    let pragmas = pragmas_list.items;
    let n2 = pragmas_list.taken;
    match generic_clause_at(ts, pos + n1 + n2) {
        Err(f) => Err(f),
        Ok((type_params, n3)) => {
            if kind_at(ts, pos + n1 + n2 + n3) != TokenKind::Instance {
                fail(pos + n1 + n2 + n3, seq![TokenKind::Instance])
            } else {
                match ident_at(ts, pos + n1 + n2 + n3 + 1) {
                    Err(f) => Err(f),
                    Ok((name, n4)) => {
                        if kind_at(ts, pos + n1 + n2 + n3 + n4 + 1) != TokenKind::LParen {
                            fail(pos + n1 + n2 + n3 + n4 + 1, seq![TokenKind::LParen])
                        } else {
                            match type_spec_at(ts, pos + n1 + n2 + n3 + n4 + 2) {
                                Err(f) => Err(f),
                                Ok((arg, n5)) => {
                                    if kind_at(
                                        ts,
                                        pos + n1 + n2 + n3 + n4 + n5 + 2,
                                    ) != TokenKind::RParen {
                                        fail(
                                            pos + n1 + n2 + n3 + n4 + n5 + 2,
                                            seq![TokenKind::RParen],
                                        )
                                    } else {
                                        if kind_at(
                                            ts,
                                            pos + n1 + n2 + n3 + n4 + n5 + 3,
                                        ) != TokenKind::Is {
                                            fail(
                                                pos + n1 + n2 + n3 + n4 + n5 + 3,
                                                seq![TokenKind::Is],
                                            )
                                        } else {
                                            let methods_list = method_defs_at(
                                                ts,
                                                pos + n1 + n2 + n3 + n4 + n5 + 4,
                                                Seq::empty(),
                                            );
                                            let methods = methods_list.items;
                                            let n6 = methods_list.taken;
                                            match closing(
                                                ts,
                                                pos + n1 + n2 + n3 + n4 + n5 + n6 + 4,
                                                TokenKind::End,
                                                methods_list.stopped,
                                            ) {
                                                Some(f) => Err(f),
                                                None => {
                                                    if kind_at(
                                                        ts,
                                                        pos + n1 + n2 + n3 + n4 + n5 + n6 + 5,
                                                    ) != TokenKind::Semi {
                                                        fail(
                                                            pos + n1 + n2 + n3 + n4 + n5 + n6 + 5,
                                                            seq![TokenKind::Semi],
                                                        )
                                                    } else {
                                                        Ok((InstanceBaseView { doc_string, pragmas, type_params, name, arg, methods }, n1 + n2 + n3 + n4 + n5 + n6 + 6))
                                                    }
                                                },
                                            }
                                        }
                                    }
                                },
                            }
                        }
                    },
                }
            }
        },
    }
}

/// Parses by the rule `instance_def_at` at a position: the value and the
/// position after it, or the failure.
pub fn parse_instance_def(
    ts: &[Token],
    pos: usize,
) -> (r: Result<(InstanceBase<MethodDef>, usize), ParseError>)
    requires
        pos <= ts.len(),
    ensures
        parsed(r, pos, ts.len(), instance_def_at(ts@, pos as int)),
        r is Ok ==> r->Ok_0.1 > pos,
{
    proof {
        reveal(instance_def_at);
    }
    let (doc_string, p1) = parse_opt_doc_string(ts, pos);
    let (pragmas, p2, _) = parse_pragmas(ts, p1);
    let (type_params, p3) = parse_generic_clause(ts, p2)?;
    let p4 = expect(ts, p3, TokenKind::Instance)?;
    let (name, p5) = parse_ident(ts, p4)?;
    let p6 = expect(ts, p5, TokenKind::LParen)?;
    let (arg, p7) = parse_type_spec(ts, p6)?;
    let p8 = expect(ts, p7, TokenKind::RParen)?;
    let p9 = expect(ts, p8, TokenKind::Is)?;
    let (methods, methods_end, methods_stopped) = parse_method_defs(ts, p9);
    let p10 = close(ts, methods_end, TokenKind::End, methods_stopped)?;
    let p11 = expect(ts, p10, TokenKind::Semi)?;
    Ok((InstanceBase { doc_string, pragmas, type_params, name, arg, methods }, p11))
}

/// What the rule `instance_def_at` gives, as tokens.
pub open spec fn instance_def_tokens(v: InstanceBaseView<MethodDefView>) -> Seq<TokenView>
{
    opt_doc_string_tokens(v.doc_string)
        + pragmas_tokens(v.pragmas, 0)
        + generic_clause_tokens(v.type_params)
        + plain(TokenKind::Instance)
        + ident_tokens(v.name)
        + plain(TokenKind::LParen)
        + type_spec_tokens(v.arg)
        + plain(TokenKind::RParen)
        + plain(TokenKind::Is)
        + method_defs_tokens(v.methods, 0)
        + plain(TokenKind::End)
        + plain(TokenKind::Semi)
}

/// The tokens that the rule `instance_def_at` read are the tokens that its value prints
/// as, unless it read a token that the value does not show.
pub proof fn lemma_instance_def_spelled(ts: Seq<Token>, pos: int)
    requires
        0 <= pos <= ts.len(),
        instance_def_at(ts, pos) is Ok,
    ensures
        spelled(
            ts,
            pos,
            instance_def_at(ts, pos)->Ok_0.1,
            instance_def_tokens(instance_def_at(ts, pos)->Ok_0.0),
        ),
{
    reveal(instance_def_at);
    let (doc_string, n1) = opt_doc_string_at(ts, pos);
    lemma_opt_doc_string_spelled(ts, pos);
    let pragmas_list = pragmas_at(ts, pos + n1, Seq::empty());
    let pragmas = pragmas_list.items;
    let n2 = pragmas_list.taken;
    lemma_pragmas_spelled(ts, pos + n1, Seq::empty());
    let (type_params, n3) = generic_clause_at(ts, pos + n1 + n2)->Ok_0;
    lemma_generic_clause_spelled(ts, pos + n1 + n2);
    lemma_spelled_token(ts, pos + n1 + n2 + n3, TokenKind::Instance);
    let (name, n4) = ident_at(ts, pos + n1 + n2 + n3 + 1)->Ok_0;
    lemma_ident_spelled(ts, pos + n1 + n2 + n3 + 1);
    lemma_spelled_token(ts, pos + n1 + n2 + n3 + n4 + 1, TokenKind::LParen);
    let (arg, n5) = type_spec_at(ts, pos + n1 + n2 + n3 + n4 + 2)->Ok_0;
    lemma_type_spec_spelled(ts, pos + n1 + n2 + n3 + n4 + 2);
    lemma_spelled_token(ts, pos + n1 + n2 + n3 + n4 + n5 + 2, TokenKind::RParen);
    lemma_spelled_token(ts, pos + n1 + n2 + n3 + n4 + n5 + 3, TokenKind::Is);
    let methods_list = method_defs_at(ts, pos + n1 + n2 + n3 + n4 + n5 + 4, Seq::empty());
    let methods = methods_list.items;
    let n6 = methods_list.taken;
    lemma_method_defs_spelled(ts, pos + n1 + n2 + n3 + n4 + n5 + 4, Seq::empty());
    lemma_spelled_token(ts, pos + n1 + n2 + n3 + n4 + n5 + n6 + 4, TokenKind::End);
    lemma_spelled_token(ts, pos + n1 + n2 + n3 + n4 + n5 + n6 + 5, TokenKind::Semi);
    lemma_spelled_then(
        ts,
        pos,
        n1,
        opt_doc_string_tokens(doc_string),
        n2,
        pragmas_tokens(pragmas, 0),
    );
    lemma_spelled_then(
        ts,
        pos,
        n1 + n2,
        opt_doc_string_tokens(doc_string) + pragmas_tokens(pragmas, 0),
        n3,
        generic_clause_tokens(type_params),
    );
    lemma_spelled_then(
        ts,
        pos,
        n1 + n2 + n3,
        opt_doc_string_tokens(doc_string)
            + pragmas_tokens(pragmas, 0)
            + generic_clause_tokens(type_params),
        1,
        plain(TokenKind::Instance),
    );
    lemma_spelled_then(
        ts,
        pos,
        n1 + n2 + n3 + 1,
        opt_doc_string_tokens(doc_string)
            + pragmas_tokens(pragmas, 0)
            + generic_clause_tokens(type_params)
            + plain(TokenKind::Instance),
        n4,
        ident_tokens(name),
    );
    lemma_spelled_then(
        ts,
        pos,
        n1 + n2 + n3 + 1 + n4,
        opt_doc_string_tokens(doc_string)
            + pragmas_tokens(pragmas, 0)
            + generic_clause_tokens(type_params)
            + plain(TokenKind::Instance)
            + ident_tokens(name),
        1,
        plain(TokenKind::LParen),
    );
    lemma_spelled_then(
        ts,
        pos,
        n1 + n2 + n3 + 1 + n4 + 1,
        opt_doc_string_tokens(doc_string)
            + pragmas_tokens(pragmas, 0)
            + generic_clause_tokens(type_params)
            + plain(TokenKind::Instance)
            + ident_tokens(name)
            + plain(TokenKind::LParen),
        n5,
        type_spec_tokens(arg),
    );
    lemma_spelled_then(
        ts,
        pos,
        n1 + n2 + n3 + 1 + n4 + 1 + n5,
        opt_doc_string_tokens(doc_string)
            + pragmas_tokens(pragmas, 0)
            + generic_clause_tokens(type_params)
            + plain(TokenKind::Instance)
            + ident_tokens(name)
            + plain(TokenKind::LParen)
            + type_spec_tokens(arg),
        1,
        plain(TokenKind::RParen),
    );
    lemma_spelled_then(
        ts,
        pos,
        n1 + n2 + n3 + 1 + n4 + 1 + n5 + 1,
        opt_doc_string_tokens(doc_string)
            + pragmas_tokens(pragmas, 0)
            + generic_clause_tokens(type_params)
            + plain(TokenKind::Instance)
            + ident_tokens(name)
            + plain(TokenKind::LParen)
            + type_spec_tokens(arg)
            + plain(TokenKind::RParen),
        1,
        plain(TokenKind::Is),
    );
    lemma_spelled_then(
        ts,
        pos,
        n1 + n2 + n3 + 1 + n4 + 1 + n5 + 1 + 1,
        opt_doc_string_tokens(doc_string)
            + pragmas_tokens(pragmas, 0)
            + generic_clause_tokens(type_params)
            + plain(TokenKind::Instance)
            + ident_tokens(name)
            + plain(TokenKind::LParen)
            + type_spec_tokens(arg)
            + plain(TokenKind::RParen)
            + plain(TokenKind::Is),
        n6,
        method_defs_tokens(methods, 0),
    );
    lemma_spelled_then(
        ts,
        pos,
        n1 + n2 + n3 + 1 + n4 + 1 + n5 + 1 + 1 + n6,
        opt_doc_string_tokens(doc_string)
            + pragmas_tokens(pragmas, 0)
            + generic_clause_tokens(type_params)
            + plain(TokenKind::Instance)
            + ident_tokens(name)
            + plain(TokenKind::LParen)
            + type_spec_tokens(arg)
            + plain(TokenKind::RParen)
            + plain(TokenKind::Is)
            + method_defs_tokens(methods, 0),
        1,
        plain(TokenKind::End),
    );
    lemma_spelled_then(
        ts,
        pos,
        n1 + n2 + n3 + 1 + n4 + 1 + n5 + 1 + 1 + n6 + 1,
        opt_doc_string_tokens(doc_string)
            + pragmas_tokens(pragmas, 0)
            + generic_clause_tokens(type_params)
            + plain(TokenKind::Instance)
            + ident_tokens(name)
            + plain(TokenKind::LParen)
            + type_spec_tokens(arg)
            + plain(TokenKind::RParen)
            + plain(TokenKind::Is)
            + method_defs_tokens(methods, 0)
            + plain(TokenKind::End),
        1,
        plain(TokenKind::Semi),
    );
}

impl InstanceBase<MethodDecl> {
    /// Parses the whole of `tokens` by the rule `instance_decl_at`.
    pub fn parser(tokens: &[Token]) -> (r: Result<InstanceBase<MethodDecl>, ParseError>)
        ensures
            parsed_whole(r, whole(instance_decl_at(tokens@, 0), tokens@.len())),
    {
        complete(parse_instance_decl(tokens, 0), tokens.len(), Ghost(instance_decl_at(tokens@, 0)))
    }
}

impl InstanceBase<MethodDef> {
    /// Parses the whole of `tokens` by the rule `instance_def_at`.
    pub fn parser(tokens: &[Token]) -> (r: Result<InstanceBase<MethodDef>, ParseError>)
        ensures
            parsed_whole(r, whole(instance_def_at(tokens@, 0), tokens@.len())),
    {
        complete(parse_instance_def(tokens, 0), tokens.len(), Ghost(instance_def_at(tokens@, 0)))
    }
}

} // verus!
