//! The printer: it writes a syntax tree as the tokens that the parser
//! reads it from.

use crate::ast::common::{
    bracketed_type_params_tokens, constraints_tokens, doc_string_tokens, DocString,
    generic_clause_tokens, Ident, ident_tokens, idents_tokens, opt_doc_string_tokens, Pragma,
    pragma_args_tokens, pragma_tokens, pragmas_tokens, type_param_tokens, type_params_tokens,
    TypeParam, Universe, universe_tokens,
};
use crate::ast::constants::{constant_decl_tokens, constant_def_tokens, ConstantDecl, ConstantDef};
use crate::ast::expressions::{
    arith_tokens, ArithExpr, atomic_tokens, AtomicExpr, cast_tokens, CastExpr, CmpExpr,
    comparison_tokens, compound_tokens, CompoundExpr, Expression, expression_tokens,
    expressions_tokens, fn_call_args_tokens, fn_call_tokens, FnCallArgs, FnCallExpr,
    intrin_tokens, IntrinExpr, logic_tokens, LogicExpr, named_arg_tokens, named_args_tokens,
    NamedArg, path_segment_tokens, path_segments_tokens, path_tokens, PathExpr, PathSegment,
    select_tokens, SelectExpr,
};
use crate::ast::functions::{
    function_decl_tokens, function_def_tokens, FunctionDecl, FunctionDef, method_decl_tokens,
    method_decls_tokens, method_def_tokens, method_defs_tokens, MethodDecl, MethodDef, Param,
    param_tokens, params_tokens,
};
use crate::ast::grammar::plain;
use crate::ast::imports::{
    import_stmt_tokens, imported_symbol_tokens, imported_symbols_tokens, ImportedSymbol,
    imports_tokens, ImportStmt, module_path_tokens, whole_module_path_tokens,
};
use crate::ast::instances::{instance_decl_tokens, instance_def_tokens, InstanceBase};
use crate::ast::modules::{
    decl_item_tokens, decl_items_to_end_tokens, decl_items_tokens, def_item_tokens,
    def_items_to_end_tokens, def_items_tokens, Module, module_decl_tokens, module_def_tokens,
    module_tokens, ModuleBase, ModuleDeclItem, ModuleDefItem, token_views,
};
use crate::ast::records::{
    record_slot_tokens, record_slots_tokens, record_tokens, RecordDecl, Slot, slot_tokens,
    slots_tokens,
};
use crate::ast::statements::{
    assign_tokens, AssignStmt, Binding, binding_keyword_tokens, binding_tokens, bindings_tokens,
    block_tokens, borrow_mode_tokens, borrow_mut_mode_tokens, borrow_stmt_tokens, BorrowMode,
    BorrowMutMode, BorrowStmt, case_stmt_tokens, case_when_tokens, CaseStmt, CaseWhen,
    discard_tokens, else_branch_tokens, for_stmt_tokens, ForStmt, if_stmt_tokens, IfStmt,
    let_stmt_tokens, let_target_tokens, LetStmt, LetStmtTarget, rename_tokens,
    return_stmt_tokens, Statement, statement_tokens, whens_tokens, while_stmt_tokens, WhileStmt,
};
use crate::ast::type_classes::{typeclass_decl_tokens, typeclass_def_tokens, TypeClassBase};
use crate::ast::types::{type_decl_tokens, type_spec_tokens, type_specs_tokens, TypeDecl, TypeSpec};
use crate::ast::unions::{
    Case, case_fields_tokens, case_tokens, cases_tokens, union_tokens, UnionDecl,
};
use crate::lexer::{Token, TokenKind, TokenView};
use vstd::prelude::*;

verus! {

/// Writes a token at the end of the tokens.
pub fn emit(out: &mut Vec<Token>, token: Token)
    ensures
        token_views(final(out)@) == token_views(old(out)@) + seq![token@],
{
    let ghost start = token_views(out@);
    out.push(token);
    assert(token_views(out@) =~= start + seq![token@]);
}

/// What is written after two parts is the first part and then the second.
proof fn lemma_written(start: Seq<TokenView>, written: Seq<TokenView>, piece: Seq<TokenView>)
    ensures
        (start + written) + piece == start + (written + piece),
{
    assert((start + written) + piece =~= start + (written + piece));
}

/// Where nothing is written, what was there stays.
proof fn lemma_nothing_written(start: Seq<TokenView>)
    ensures
        start + Seq::<TokenView>::empty() == start,
{
    assert(start + Seq::<TokenView>::empty() =~= start);
}

/// Writes what `doc_string_tokens` gives at the end of the tokens.
pub fn print_doc_string(v: &DocString, out: &mut Vec<Token>)
    ensures
        token_views(final(out)@) == token_views(old(out)@) + doc_string_tokens(v.deep_view()),
{
    emit(out, Token::TripleString(v.contents.clone()));
}

/// Writes what `opt_doc_string_tokens` gives at the end of the tokens.
pub fn print_opt_doc_string(v: &Option<DocString>, out: &mut Vec<Token>)
    ensures
        token_views(final(out)@) == token_views(old(out)@) + opt_doc_string_tokens(v.deep_view()),
{
    let ghost start = token_views(out@);
    match v {
        Some(s) => print_doc_string(s, out),
        None => {},
    }
    assert(token_views(out@) =~= start + opt_doc_string_tokens(v.deep_view()));
}

/// Writes what `ident_tokens` gives at the end of the tokens.
pub fn print_ident(v: &Ident, out: &mut Vec<Token>)
    ensures
        token_views(final(out)@) == token_views(old(out)@) + ident_tokens(v.deep_view()),
{
    emit(out, Token::Ident(v.name.clone()));
}

/// Writes what `universe_tokens` gives at the end of the tokens.
pub fn print_universe(v: &Universe, out: &mut Vec<Token>)
    ensures
        token_views(final(out)@) == token_views(old(out)@) + universe_tokens(v.deep_view()),
{
    emit(out, Token::Universe(v.0));
}

/// Writes what `rename_tokens` gives at the end of the tokens.
pub fn print_rename(v: &Option<Ident>, out: &mut Vec<Token>)
    ensures
        token_views(final(out)@) == token_views(old(out)@) + rename_tokens(v.deep_view()),
{
    let ghost start = token_views(out@);
    match v {
        Some(name) => {
            emit(out, Token::As);
            print_ident(name, out);
        },
        None => {},
    }
    assert(token_views(out@) =~= start + rename_tokens(v.deep_view()));
}

/// Writes what `pragma_args_tokens` gives at the end of the tokens.
pub fn print_pragma_args(v: &FnCallArgs, out: &mut Vec<Token>)
    ensures
        token_views(final(out)@) == token_views(old(out)@) + pragma_args_tokens(v.deep_view()),
{
    let ghost start = token_views(out@);
    match v {
        FnCallArgs::Empty => {},
        _ => {
            emit(out, Token::LParen);
            print_fn_call_args(v, out);
            emit(out, Token::RParen);
        },
    }
    assert(token_views(out@) =~= start + pragma_args_tokens(v.deep_view()));
}

/// Writes what `type_spec_tokens` gives at the end of the tokens.
pub fn print_type_spec(v: &TypeSpec, out: &mut Vec<Token>)
    ensures
        token_views(final(out)@) == token_views(old(out)@) + type_spec_tokens(v.deep_view()),
    decreases v, 0nat,
{
    let ghost start = token_views(out@);
    match v {
        TypeSpec::Simple { name } => {
            emit(out, Token::Ident(name.name.clone()));
        },
        TypeSpec::Generic { name, type_params } => {
            emit(out, Token::Ident(name.name.clone()));
            emit(out, Token::LBracket);
            assert(v.deep_view()->Generic_type_params =~= type_params.deep_view());
            print_type_specs(type_params, 0, out);
            emit(out, Token::RBracket);
        },
        TypeSpec::BorrowRead { lhs, rhs } => {
            emit(out, Token::BorrowRead);
            emit(out, Token::LBracket);
            print_type_spec(&**lhs, out);
            emit(out, Token::Comma);
            print_type_spec(&**rhs, out);
            emit(out, Token::RBracket);
        },
        TypeSpec::BorrowWrite { lhs, rhs } => {
            emit(out, Token::BorrowWrite);
            emit(out, Token::LBracket);
            print_type_spec(&**lhs, out);
            emit(out, Token::Comma);
            print_type_spec(&**rhs, out);
            emit(out, Token::RBracket);
        },
        TypeSpec::SpanRead { lhs, rhs } => {
            emit(out, Token::SpanRead);
            emit(out, Token::LBracket);
            print_type_spec(&**lhs, out);
            emit(out, Token::Comma);
            print_type_spec(&**rhs, out);
            emit(out, Token::RBracket);
        },
        TypeSpec::SpanWrite { lhs, rhs } => {
            emit(out, Token::SpanWrite);
            emit(out, Token::LBracket);
            print_type_spec(&**lhs, out);
            emit(out, Token::Comma);
            print_type_spec(&**rhs, out);
            emit(out, Token::RBracket);
        },
    }
    assert(token_views(out@) =~= start + type_spec_tokens(v.deep_view()));
}

/// Writes what `intrin_tokens` gives at the end of the tokens.
pub fn print_intrin(v: &IntrinExpr, out: &mut Vec<Token>)
    ensures
        token_views(final(out)@) == token_views(old(out)@) + intrin_tokens(v.deep_view()),
    decreases v, 0nat,
{
    let ghost start = token_views(out@);
    match v {
        IntrinExpr::Embed { ty, exp, args } => {
            emit(out, Token::Embed);
            emit(out, Token::LParen);
            print_type_spec(ty, out);
            emit(out, Token::Comma);
            emit(out, Token::String(exp.clone()));
            assert(v.deep_view()->Embed_args =~= args.deep_view());
            if args.len() != 0 {
                emit(out, Token::Comma);
                print_expressions(args, 0, out);
            }
            emit(out, Token::RParen);
        },
    }
    assert(token_views(out@) =~= start + intrin_tokens(v.deep_view()));
}

/// Writes what `let_target_tokens` gives at the end of the tokens.
pub fn print_let_target(v: &LetStmtTarget, out: &mut Vec<Token>)
    ensures
        token_views(final(out)@) == token_views(old(out)@) + let_target_tokens(v.deep_view()),
{
    let ghost start = token_views(out@);
    match v {
        LetStmtTarget::Simple { name, ty } => {
            print_ident(name, out);
            emit(out, Token::Colon);
            print_type_spec(ty, out);
        },
        LetStmtTarget::Destructure(bindings) => {
            emit(out, Token::LBrace);
            print_bindings(bindings, 0, out);
            emit(out, Token::RBrace);
        },
    }
    assert(token_views(out@) =~= start + let_target_tokens(v.deep_view()));
}

/// Writes what `else_branch_tokens` gives at the end of the tokens.
pub fn print_else_branch(v: &Option<Vec<Statement>>, out: &mut Vec<Token>)
    ensures
        token_views(final(out)@) == token_views(old(out)@) + else_branch_tokens(v.deep_view()),
    decreases v, 0nat,
{
    let ghost start = token_views(out@);
    match v {
        Some(stmts) => {
            emit(out, Token::Else);
            emit(out, Token::Is);
            print_block(stmts, 0, out);
            emit(out, Token::End);
        },
        None => {},
    }
    assert(token_views(out@) =~= start + else_branch_tokens(v.deep_view()));
}

/// Prints a module: the tokens that the parser reads it from.
pub fn print(module: &Module) -> (tokens: Vec<Token>)
    ensures
        token_views(tokens@) == module_tokens(module.deep_view()),
{
    let mut out: Vec<Token> = Vec::new();
    assert(token_views(out@) =~= Seq::empty());
    print_module(module, &mut out);
    assert(token_views(out@) =~= module_tokens(module.deep_view()));
    out
}

/// Writes what `idents_tokens` gives at the end of the tokens.
pub fn print_idents(items: &Vec<Ident>, from: usize, out: &mut Vec<Token>)
    ensures
        token_views(final(out)@) == token_views(old(out)@) + idents_tokens(
            items.deep_view(),
            from as nat,
        ),
    decreases items, items.len() - from,
{
    let ghost start = token_views(out@);
    let ghost mut written: Seq<TokenView> = Seq::empty();
    if from >= items.len() {
        proof {
            lemma_nothing_written(start);
        }
    } else if from + 1 == items.len() {
        assert(items.deep_view()[from as int] == items[from as int].deep_view());
        print_ident(&items[from], out);
    } else {
        assert(items.deep_view()[from as int] == items[from as int].deep_view());
        print_ident(&items[from], out);
        proof {
            written = ident_tokens(items[from as int].deep_view());
        }
        emit(out, Token::Comma);
        proof {
            lemma_written(start, written, plain(TokenKind::Comma));
            written = written + plain(TokenKind::Comma);
        }
        print_idents(items, from + 1, out);
        proof {
            lemma_written(start, written, idents_tokens((*items).deep_view(), (from + 1) as nat));
            written = written + idents_tokens((*items).deep_view(), (from + 1) as nat);
        }
    }
}

/// Writes what `constraints_tokens` gives at the end of the tokens.
pub fn print_constraints(v: &Vec<Ident>, out: &mut Vec<Token>)
    ensures
        token_views(final(out)@) == token_views(old(out)@) + constraints_tokens(v.deep_view()),
{
    let ghost start = token_views(out@);
    let ghost mut written: Seq<TokenView> = Seq::empty();
    if v.len() == 0 {
        proof {
            lemma_nothing_written(start);
        }
    } else {
        emit(out, Token::LParen);
        proof {
            written = plain(TokenKind::LParen);
        }
        assert(v.deep_view() =~= (*v).deep_view());
        print_idents(v, 0, out);
        proof {
            lemma_written(start, written, idents_tokens((*v).deep_view(), (0) as nat));
            written = written + idents_tokens((*v).deep_view(), (0) as nat);
        }
        emit(out, Token::RParen);
        proof {
            lemma_written(start, written, plain(TokenKind::RParen));
            written = written + plain(TokenKind::RParen);
        }
    }
}

/// Writes what `type_param_tokens` gives at the end of the tokens.
pub fn print_type_param(v: &TypeParam, out: &mut Vec<Token>)
    ensures
        token_views(final(out)@) == token_views(old(out)@) + type_param_tokens(v.deep_view()),
{
    let ghost start = token_views(out@);
    let ghost mut written: Seq<TokenView> = Seq::empty();
    print_ident(&v.name, out);
    proof {
        written = ident_tokens(v.name.deep_view());
    }
    emit(out, Token::Colon);
    proof {
        lemma_written(start, written, plain(TokenKind::Colon));
        written = written + plain(TokenKind::Colon);
    }
    print_universe(&v.universe, out);
    proof {
        lemma_written(start, written, universe_tokens(v.universe.deep_view()));
        written = written + universe_tokens(v.universe.deep_view());
    }
    print_constraints(&v.params, out);
    proof {
        lemma_written(start, written, constraints_tokens(v.params.deep_view()));
        written = written + constraints_tokens(v.params.deep_view());
    }
}

/// Writes what `type_params_tokens` gives at the end of the tokens.
pub fn print_type_params(items: &Vec<TypeParam>, from: usize, out: &mut Vec<Token>)
    ensures
        token_views(final(out)@) == token_views(old(out)@) + type_params_tokens(
            items.deep_view(),
            from as nat,
        ),
    decreases items, items.len() - from,
{
    let ghost start = token_views(out@);
    let ghost mut written: Seq<TokenView> = Seq::empty();
    if from >= items.len() {
        proof {
            lemma_nothing_written(start);
        }
    } else if from + 1 == items.len() {
        assert(items.deep_view()[from as int] == items[from as int].deep_view());
        print_type_param(&items[from], out);
    } else {
        assert(items.deep_view()[from as int] == items[from as int].deep_view());
        print_type_param(&items[from], out);
        proof {
            written = type_param_tokens(items[from as int].deep_view());
        }
        emit(out, Token::Comma);
        proof {
            lemma_written(start, written, plain(TokenKind::Comma));
            written = written + plain(TokenKind::Comma);
        }
        print_type_params(items, from + 1, out);
        proof {
            lemma_written(
                start,
                written,
                type_params_tokens((*items).deep_view(), (from + 1) as nat),
            );
            written = written + type_params_tokens((*items).deep_view(), (from + 1) as nat);
        }
    }
}

/// Writes what `generic_clause_tokens` gives at the end of the tokens.
pub fn print_generic_clause(v: &Vec<TypeParam>, out: &mut Vec<Token>)
    ensures
        token_views(final(out)@) == token_views(old(out)@) + generic_clause_tokens(v.deep_view()),
{
    let ghost start = token_views(out@);
    let ghost mut written: Seq<TokenView> = Seq::empty();
    if v.len() == 0 {
        proof {
            lemma_nothing_written(start);
        }
    } else {
        emit(out, Token::Generic);
        proof {
            written = plain(TokenKind::Generic);
        }
        emit(out, Token::LBracket);
        proof {
            lemma_written(start, written, plain(TokenKind::LBracket));
            written = written + plain(TokenKind::LBracket);
        }
        assert(v.deep_view() =~= (*v).deep_view());
        print_type_params(v, 0, out);
        proof {
            lemma_written(start, written, type_params_tokens((*v).deep_view(), (0) as nat));
            written = written + type_params_tokens((*v).deep_view(), (0) as nat);
        }
        emit(out, Token::RBracket);
        proof {
            lemma_written(start, written, plain(TokenKind::RBracket));
            written = written + plain(TokenKind::RBracket);
        }
    }
}

/// Writes what `bracketed_type_params_tokens` gives at the end of the tokens.
pub fn print_bracketed_type_params(v: &Vec<TypeParam>, out: &mut Vec<Token>)
    ensures
        token_views(final(out)@) == token_views(old(out)@) + bracketed_type_params_tokens(v.deep_view()),
{
    let ghost start = token_views(out@);
    let ghost mut written: Seq<TokenView> = Seq::empty();
    if v.len() == 0 {
        proof {
            lemma_nothing_written(start);
        }
    } else {
        emit(out, Token::LBracket);
        proof {
            written = plain(TokenKind::LBracket);
        }
        assert(v.deep_view() =~= (*v).deep_view());
        print_type_params(v, 0, out);
        proof {
            lemma_written(start, written, type_params_tokens((*v).deep_view(), (0) as nat));
            written = written + type_params_tokens((*v).deep_view(), (0) as nat);
        }
        emit(out, Token::RBracket);
        proof {
            lemma_written(start, written, plain(TokenKind::RBracket));
            written = written + plain(TokenKind::RBracket);
        }
    }
}

/// Writes what `pragma_tokens` gives at the end of the tokens.
pub fn print_pragma(v: &Pragma, out: &mut Vec<Token>)
    ensures
        token_views(final(out)@) == token_views(old(out)@) + pragma_tokens(v.deep_view()),
{
    let ghost start = token_views(out@);
    let ghost mut written: Seq<TokenView> = Seq::empty();
    emit(out, Token::Pragma);
    proof {
        written = plain(TokenKind::Pragma);
    }
    print_ident(&v.name, out);
    proof {
        lemma_written(start, written, ident_tokens(v.name.deep_view()));
        written = written + ident_tokens(v.name.deep_view());
    }
    print_pragma_args(&v.args, out);
    proof {
        lemma_written(start, written, pragma_args_tokens(v.args.deep_view()));
        written = written + pragma_args_tokens(v.args.deep_view());
    }
    emit(out, Token::Semi);
    proof {
        lemma_written(start, written, plain(TokenKind::Semi));
        written = written + plain(TokenKind::Semi);
    }
}

/// Writes what `pragmas_tokens` gives at the end of the tokens.
pub fn print_pragmas(items: &Vec<Pragma>, from: usize, out: &mut Vec<Token>)
    ensures
        token_views(final(out)@) == token_views(old(out)@) + pragmas_tokens(
            items.deep_view(),
            from as nat,
        ),
    decreases items, items.len() - from,
{
    let ghost start = token_views(out@);
    let ghost mut written: Seq<TokenView> = Seq::empty();
    if from >= items.len() {
        proof {
            lemma_nothing_written(start);
        }
    } else {
        assert(items.deep_view()[from as int] == items[from as int].deep_view());
        print_pragma(&items[from], out);
        proof {
            written = pragma_tokens(items[from as int].deep_view());
        }
        print_pragmas(items, from + 1, out);
        proof {
            lemma_written(start, written, pragmas_tokens((*items).deep_view(), (from + 1) as nat));
            written = written + pragmas_tokens((*items).deep_view(), (from + 1) as nat);
        }
    }
}

/// Writes what `constant_decl_tokens` gives at the end of the tokens.
pub fn print_constant_decl(v: &ConstantDecl, out: &mut Vec<Token>)
    ensures
        token_views(final(out)@) == token_views(old(out)@) + constant_decl_tokens(v.deep_view()),
{
    let ghost start = token_views(out@);
    let ghost mut written: Seq<TokenView> = Seq::empty();
    print_opt_doc_string(&v.doc_string, out);
    proof {
        written = opt_doc_string_tokens(v.doc_string.deep_view());
    }
    assert(v.deep_view().pragmas =~= (v.pragmas).deep_view());
    print_pragmas(&v.pragmas, 0, out);
    proof {
        lemma_written(start, written, pragmas_tokens(v.pragmas.deep_view(), (0) as nat));
        written = written + pragmas_tokens(v.pragmas.deep_view(), (0) as nat);
    }
    emit(out, Token::Constant);
    proof {
        lemma_written(start, written, plain(TokenKind::Constant));
        written = written + plain(TokenKind::Constant);
    }
    print_ident(&v.name, out);
    proof {
        lemma_written(start, written, ident_tokens(v.name.deep_view()));
        written = written + ident_tokens(v.name.deep_view());
    }
    emit(out, Token::Colon);
    proof {
        lemma_written(start, written, plain(TokenKind::Colon));
        written = written + plain(TokenKind::Colon);
    }
    print_type_spec(&v.ty, out);
    proof {
        lemma_written(start, written, type_spec_tokens(v.ty.deep_view()));
        written = written + type_spec_tokens(v.ty.deep_view());
    }
    emit(out, Token::Semi);
    proof {
        lemma_written(start, written, plain(TokenKind::Semi));
        written = written + plain(TokenKind::Semi);
    }
}

/// Writes what `constant_def_tokens` gives at the end of the tokens.
pub fn print_constant_def(v: &ConstantDef, out: &mut Vec<Token>)
    ensures
        token_views(final(out)@) == token_views(old(out)@) + constant_def_tokens(v.deep_view()),
{
    let ghost start = token_views(out@);
    let ghost mut written: Seq<TokenView> = Seq::empty();
    print_opt_doc_string(&v.decl.doc_string, out);
    proof {
        written = opt_doc_string_tokens(v.decl.doc_string.deep_view());
    }
    assert(v.deep_view().decl.pragmas =~= (v.decl.pragmas).deep_view());
    print_pragmas(&v.decl.pragmas, 0, out);
    proof {
        lemma_written(start, written, pragmas_tokens(v.decl.pragmas.deep_view(), (0) as nat));
        written = written + pragmas_tokens(v.decl.pragmas.deep_view(), (0) as nat);
    }
    emit(out, Token::Constant);
    proof {
        lemma_written(start, written, plain(TokenKind::Constant));
        written = written + plain(TokenKind::Constant);
    }
    print_ident(&v.decl.name, out);
    proof {
        lemma_written(start, written, ident_tokens(v.decl.name.deep_view()));
        written = written + ident_tokens(v.decl.name.deep_view());
    }
    emit(out, Token::Colon);
    proof {
        lemma_written(start, written, plain(TokenKind::Colon));
        written = written + plain(TokenKind::Colon);
    }
    print_type_spec(&v.decl.ty, out);
    proof {
        lemma_written(start, written, type_spec_tokens(v.decl.ty.deep_view()));
        written = written + type_spec_tokens(v.decl.ty.deep_view());
    }
    emit(out, Token::Assign);
    proof {
        lemma_written(start, written, plain(TokenKind::Assign));
        written = written + plain(TokenKind::Assign);
    }
    print_expression(&v.value, out);
    proof {
        lemma_written(start, written, expression_tokens(v.value.deep_view()));
        written = written + expression_tokens(v.value.deep_view());
    }
    emit(out, Token::Semi);
    proof {
        lemma_written(start, written, plain(TokenKind::Semi));
        written = written + plain(TokenKind::Semi);
    }
}

/// Writes what `path_segments_tokens` gives at the end of the tokens.
pub fn print_path_segments(items: &Vec<PathSegment>, from: usize, out: &mut Vec<Token>)
    ensures
        token_views(final(out)@) == token_views(old(out)@) + path_segments_tokens(
            items.deep_view(),
            from as nat,
        ),
    decreases items, items.len() - from,
{
    let ghost start = token_views(out@);
    let ghost mut written: Seq<TokenView> = Seq::empty();
    if from >= items.len() {
        proof {
            lemma_nothing_written(start);
        }
    } else {
        assert(items.deep_view()[from as int] == items[from as int].deep_view());
        print_path_segment(&items[from], out);
        proof {
            written = path_segment_tokens(items[from as int].deep_view());
        }
        print_path_segments(items, from + 1, out);
        proof {
            lemma_written(
                start,
                written,
                path_segments_tokens((*items).deep_view(), (from + 1) as nat),
            );
            written = written + path_segments_tokens((*items).deep_view(), (from + 1) as nat);
        }
    }
}

/// Writes what `named_args_tokens` gives at the end of the tokens.
pub fn print_named_args(items: &Vec<NamedArg>, from: usize, out: &mut Vec<Token>)
    ensures
        token_views(final(out)@) == token_views(old(out)@) + named_args_tokens(
            items.deep_view(),
            from as nat,
        ),
    decreases items, items.len() - from,
{
    let ghost start = token_views(out@);
    let ghost mut written: Seq<TokenView> = Seq::empty();
    if from >= items.len() {
        proof {
            lemma_nothing_written(start);
        }
    } else if from + 1 == items.len() {
        assert(items.deep_view()[from as int] == items[from as int].deep_view());
        print_named_arg(&items[from], out);
    } else {
        assert(items.deep_view()[from as int] == items[from as int].deep_view());
        print_named_arg(&items[from], out);
        proof {
            written = named_arg_tokens(items[from as int].deep_view());
        }
        emit(out, Token::Comma);
        proof {
            lemma_written(start, written, plain(TokenKind::Comma));
            written = written + plain(TokenKind::Comma);
        }
        print_named_args(items, from + 1, out);
        proof {
            lemma_written(
                start,
                written,
                named_args_tokens((*items).deep_view(), (from + 1) as nat),
            );
            written = written + named_args_tokens((*items).deep_view(), (from + 1) as nat);
        }
    }
}

/// Writes what `expressions_tokens` gives at the end of the tokens.
pub fn print_expressions(items: &Vec<Expression>, from: usize, out: &mut Vec<Token>)
    ensures
        token_views(final(out)@) == token_views(old(out)@) + expressions_tokens(
            items.deep_view(),
            from as nat,
        ),
    decreases items, items.len() - from,
{
    let ghost start = token_views(out@);
    let ghost mut written: Seq<TokenView> = Seq::empty();
    if from >= items.len() {
        proof {
            lemma_nothing_written(start);
        }
    } else if from + 1 == items.len() {
        assert(items.deep_view()[from as int] == items[from as int].deep_view());
        print_expression(&items[from], out);
    } else {
        assert(items.deep_view()[from as int] == items[from as int].deep_view());
        print_expression(&items[from], out);
        proof {
            written = expression_tokens(items[from as int].deep_view());
        }
        emit(out, Token::Comma);
        proof {
            lemma_written(start, written, plain(TokenKind::Comma));
            written = written + plain(TokenKind::Comma);
        }
        print_expressions(items, from + 1, out);
        proof {
            lemma_written(
                start,
                written,
                expressions_tokens((*items).deep_view(), (from + 1) as nat),
            );
            written = written + expressions_tokens((*items).deep_view(), (from + 1) as nat);
        }
    }
}

/// Writes what `expression_tokens` gives at the end of the tokens.
pub fn print_expression(v: &Expression, out: &mut Vec<Token>)
    ensures
        token_views(final(out)@) == token_views(old(out)@) + expression_tokens(v.deep_view()),
    decreases v, 0nat,
{
    let ghost start = token_views(out@);
    match v {
        Expression::Atomic(a) => {
            print_atomic(a, out);
        },
        Expression::Compound(c) => {
            print_compound(c, out);
        },
    }
}

/// Writes what `atomic_tokens` gives at the end of the tokens.
pub fn print_atomic(v: &AtomicExpr, out: &mut Vec<Token>)
    ensures
        token_views(final(out)@) == token_views(old(out)@) + atomic_tokens(v.deep_view()),
    decreases v, 0nat,
{
    let ghost start = token_views(out@);
    let ghost mut written: Seq<TokenView> = Seq::empty();
    match v {
        AtomicExpr::ConstNil => {
            emit(out, Token::Nil);
        },
        AtomicExpr::ConstBool(b) => {
            if *b {
                emit(out, Token::True);
            } else {
                emit(out, Token::False);
            }
        },
        AtomicExpr::ConstChar(c) => {
            emit(out, Token::Char(*c));
        },
        AtomicExpr::ConstInt(n) => {
            emit(out, Token::Decimal(*n));
        },
        AtomicExpr::ConstFloat(s) => {
            emit(out, Token::Float(s.clone()));
        },
        AtomicExpr::ConstStr(s) => {
            emit(out, Token::String(s.clone()));
        },
        AtomicExpr::FnCall(call) => {
            print_fn_call(call, out);
        },
        AtomicExpr::Path(path) => {
            print_path(path, out);
        },
        AtomicExpr::RefPath(path) => {
            emit(out, Token::RefTransform);
            proof {
                written = plain(TokenKind::RefTransform);
            }
            print_path(path, out);
            proof {
                lemma_written(start, written, path_tokens((*path).deep_view()));
                written = written + path_tokens((*path).deep_view());
            }
            emit(out, Token::RParen);
            proof {
                lemma_written(start, written, plain(TokenKind::RParen));
                written = written + plain(TokenKind::RParen);
            }
        },
        AtomicExpr::Paren(e) => {
            emit(out, Token::LParen);
            proof {
                written = plain(TokenKind::LParen);
            }
            print_expression(&**e, out);
            proof {
                lemma_written(start, written, expression_tokens((**e).deep_view()));
                written = written + expression_tokens((**e).deep_view());
            }
            emit(out, Token::RParen);
            proof {
                lemma_written(start, written, plain(TokenKind::RParen));
                written = written + plain(TokenKind::RParen);
            }
        },
        AtomicExpr::Intrinsic(e) => {
            print_intrin(e, out);
        },
        AtomicExpr::SizeOf(ty) => {
            emit(out, Token::SizeOf);
            proof {
                written = plain(TokenKind::SizeOf);
            }
            emit(out, Token::LParen);
            proof {
                lemma_written(start, written, plain(TokenKind::LParen));
                written = written + plain(TokenKind::LParen);
            }
            print_type_spec(ty, out);
            proof {
                lemma_written(start, written, type_spec_tokens((*ty).deep_view()));
                written = written + type_spec_tokens((*ty).deep_view());
            }
            emit(out, Token::RParen);
            proof {
                lemma_written(start, written, plain(TokenKind::RParen));
                written = written + plain(TokenKind::RParen);
            }
        },
        AtomicExpr::BorrowRead(name) => {
            emit(out, Token::BorrowRead);
            proof {
                written = plain(TokenKind::BorrowRead);
            }
            print_ident(name, out);
            proof {
                lemma_written(start, written, ident_tokens((*name).deep_view()));
                written = written + ident_tokens((*name).deep_view());
            }
        },
        AtomicExpr::BorrowWrite(name) => {
            emit(out, Token::BorrowWrite);
            proof {
                written = plain(TokenKind::BorrowWrite);
            }
            print_ident(name, out);
            proof {
                lemma_written(start, written, ident_tokens((*name).deep_view()));
                written = written + ident_tokens((*name).deep_view());
            }
        },
        AtomicExpr::ReBorrow(name) => {
            emit(out, Token::ReBorrow);
            proof {
                written = plain(TokenKind::ReBorrow);
            }
            print_ident(name, out);
            proof {
                lemma_written(start, written, ident_tokens((*name).deep_view()));
                written = written + ident_tokens((*name).deep_view());
            }
        },
        AtomicExpr::Deref(a) => {
            emit(out, Token::Deref);
            proof {
                written = plain(TokenKind::Deref);
            }
            print_atomic(&**a, out);
            proof {
                lemma_written(start, written, atomic_tokens((**a).deep_view()));
                written = written + atomic_tokens((**a).deep_view());
            }
        },
    }
}

/// Writes what `compound_tokens` gives at the end of the tokens.
pub fn print_compound(v: &CompoundExpr, out: &mut Vec<Token>)
    ensures
        token_views(final(out)@) == token_views(old(out)@) + compound_tokens(v.deep_view()),
    decreases v, 0nat,
{
    let ghost start = token_views(out@);
    match v {
        CompoundExpr::Cmp(e) => {
            print_comparison(e, out);
        },
        CompoundExpr::Logic(e) => {
            print_logic(e, out);
        },
        CompoundExpr::Arith(e) => {
            print_arith(e, out);
        },
        CompoundExpr::Select(e) => {
            print_select(e, out);
        },
        CompoundExpr::Cast(e) => {
            print_cast(e, out);
        },
    }
}

/// Writes what `comparison_tokens` gives at the end of the tokens.
pub fn print_comparison(v: &CmpExpr, out: &mut Vec<Token>)
    ensures
        token_views(final(out)@) == token_views(old(out)@) + comparison_tokens(v.deep_view()),
    decreases v, 0nat,
{
    let ghost start = token_views(out@);
    let ghost mut written: Seq<TokenView> = Seq::empty();
    match v {
        CmpExpr::Eq(a, b) => {
            print_atomic(a, out);
            proof {
                written = atomic_tokens((*a).deep_view());
            }
            emit(out, Token::Eq);
            proof {
                lemma_written(start, written, plain(TokenKind::Eq));
                written = written + plain(TokenKind::Eq);
            }
            print_atomic(b, out);
            proof {
                lemma_written(start, written, atomic_tokens((*b).deep_view()));
                written = written + atomic_tokens((*b).deep_view());
            }
        },
        CmpExpr::NotEq(a, b) => {
            print_atomic(a, out);
            proof {
                written = atomic_tokens((*a).deep_view());
            }
            emit(out, Token::NotEq);
            proof {
                lemma_written(start, written, plain(TokenKind::NotEq));
                written = written + plain(TokenKind::NotEq);
            }
            print_atomic(b, out);
            proof {
                lemma_written(start, written, atomic_tokens((*b).deep_view()));
                written = written + atomic_tokens((*b).deep_view());
            }
        },
        CmpExpr::Lt(a, b) => {
            print_atomic(a, out);
            proof {
                written = atomic_tokens((*a).deep_view());
            }
            emit(out, Token::Lt);
            proof {
                lemma_written(start, written, plain(TokenKind::Lt));
                written = written + plain(TokenKind::Lt);
            }
            print_atomic(b, out);
            proof {
                lemma_written(start, written, atomic_tokens((*b).deep_view()));
                written = written + atomic_tokens((*b).deep_view());
            }
        },
        CmpExpr::LtEq(a, b) => {
            print_atomic(a, out);
            proof {
                written = atomic_tokens((*a).deep_view());
            }
            emit(out, Token::LtEq);
            proof {
                lemma_written(start, written, plain(TokenKind::LtEq));
                written = written + plain(TokenKind::LtEq);
            }
            print_atomic(b, out);
            proof {
                lemma_written(start, written, atomic_tokens((*b).deep_view()));
                written = written + atomic_tokens((*b).deep_view());
            }
        },
        CmpExpr::Gt(a, b) => {
            print_atomic(a, out);
            proof {
                written = atomic_tokens((*a).deep_view());
            }
            emit(out, Token::Gt);
            proof {
                lemma_written(start, written, plain(TokenKind::Gt));
                written = written + plain(TokenKind::Gt);
            }
            print_atomic(b, out);
            proof {
                lemma_written(start, written, atomic_tokens((*b).deep_view()));
                written = written + atomic_tokens((*b).deep_view());
            }
        },
        CmpExpr::GtEq(a, b) => {
            print_atomic(a, out);
            proof {
                written = atomic_tokens((*a).deep_view());
            }
            emit(out, Token::GtEq);
            proof {
                lemma_written(start, written, plain(TokenKind::GtEq));
                written = written + plain(TokenKind::GtEq);
            }
            print_atomic(b, out);
            proof {
                lemma_written(start, written, atomic_tokens((*b).deep_view()));
                written = written + atomic_tokens((*b).deep_view());
            }
        },
    }
}

/// Writes what `logic_tokens` gives at the end of the tokens.
pub fn print_logic(v: &LogicExpr, out: &mut Vec<Token>)
    ensures
        token_views(final(out)@) == token_views(old(out)@) + logic_tokens(v.deep_view()),
    decreases v, 0nat,
{
    let ghost start = token_views(out@);
    let ghost mut written: Seq<TokenView> = Seq::empty();
    match v {
        LogicExpr::And(a, b) => {
            print_atomic(a, out);
            proof {
                written = atomic_tokens((*a).deep_view());
            }
            emit(out, Token::And);
            proof {
                lemma_written(start, written, plain(TokenKind::And));
                written = written + plain(TokenKind::And);
            }
            print_atomic(b, out);
            proof {
                lemma_written(start, written, atomic_tokens((*b).deep_view()));
                written = written + atomic_tokens((*b).deep_view());
            }
        },
        LogicExpr::Or(a, b) => {
            print_atomic(a, out);
            proof {
                written = atomic_tokens((*a).deep_view());
            }
            emit(out, Token::Or);
            proof {
                lemma_written(start, written, plain(TokenKind::Or));
                written = written + plain(TokenKind::Or);
            }
            print_atomic(b, out);
            proof {
                lemma_written(start, written, atomic_tokens((*b).deep_view()));
                written = written + atomic_tokens((*b).deep_view());
            }
        },
        LogicExpr::Not(a) => {
            emit(out, Token::Not);
            proof {
                written = plain(TokenKind::Not);
            }
            print_atomic(a, out);
            proof {
                lemma_written(start, written, atomic_tokens((*a).deep_view()));
                written = written + atomic_tokens((*a).deep_view());
            }
        },
    }
}

/// Writes what `arith_tokens` gives at the end of the tokens.
pub fn print_arith(v: &ArithExpr, out: &mut Vec<Token>)
    ensures
        token_views(final(out)@) == token_views(old(out)@) + arith_tokens(v.deep_view()),
    decreases v, 0nat,
{
    let ghost start = token_views(out@);
    let ghost mut written: Seq<TokenView> = Seq::empty();
    match v {
        ArithExpr::Add(a, b) => {
            print_atomic(a, out);
            proof {
                written = atomic_tokens((*a).deep_view());
            }
            emit(out, Token::Add);
            proof {
                lemma_written(start, written, plain(TokenKind::Add));
                written = written + plain(TokenKind::Add);
            }
            print_atomic(b, out);
            proof {
                lemma_written(start, written, atomic_tokens((*b).deep_view()));
                written = written + atomic_tokens((*b).deep_view());
            }
        },
        ArithExpr::Sub(a, b) => {
            print_atomic(a, out);
            proof {
                written = atomic_tokens((*a).deep_view());
            }
            emit(out, Token::Sub);
            proof {
                lemma_written(start, written, plain(TokenKind::Sub));
                written = written + plain(TokenKind::Sub);
            }
            print_atomic(b, out);
            proof {
                lemma_written(start, written, atomic_tokens((*b).deep_view()));
                written = written + atomic_tokens((*b).deep_view());
            }
        },
        ArithExpr::Mul(a, b) => {
            print_atomic(a, out);
            proof {
                written = atomic_tokens((*a).deep_view());
            }
            emit(out, Token::Mul);
            proof {
                lemma_written(start, written, plain(TokenKind::Mul));
                written = written + plain(TokenKind::Mul);
            }
            print_atomic(b, out);
            proof {
                lemma_written(start, written, atomic_tokens((*b).deep_view()));
                written = written + atomic_tokens((*b).deep_view());
            }
        },
        ArithExpr::Div(a, b) => {
            print_atomic(a, out);
            proof {
                written = atomic_tokens((*a).deep_view());
            }
            emit(out, Token::Div);
            proof {
                lemma_written(start, written, plain(TokenKind::Div));
                written = written + plain(TokenKind::Div);
            }
            print_atomic(b, out);
            proof {
                lemma_written(start, written, atomic_tokens((*b).deep_view()));
                written = written + atomic_tokens((*b).deep_view());
            }
        },
        ArithExpr::Neg(a) => {
            emit(out, Token::Sub);
            proof {
                written = plain(TokenKind::Sub);
            }
            print_atomic(a, out);
            proof {
                lemma_written(start, written, atomic_tokens((*a).deep_view()));
                written = written + atomic_tokens((*a).deep_view());
            }
        },
    }
}

/// Writes what `select_tokens` gives at the end of the tokens.
pub fn print_select(v: &SelectExpr, out: &mut Vec<Token>)
    ensures
        token_views(final(out)@) == token_views(old(out)@) + select_tokens(v.deep_view()),
    decreases v, 0nat,
{
    let ghost start = token_views(out@);
    let ghost mut written: Seq<TokenView> = Seq::empty();
    emit(out, Token::If);
    proof {
        written = plain(TokenKind::If);
    }
    print_expression(&*v.condition, out);
    proof {
        lemma_written(start, written, expression_tokens((*v.condition).deep_view()));
        written = written + expression_tokens((*v.condition).deep_view());
    }
    emit(out, Token::Then);
    proof {
        lemma_written(start, written, plain(TokenKind::Then));
        written = written + plain(TokenKind::Then);
    }
    print_expression(&*v.value_true, out);
    proof {
        lemma_written(start, written, expression_tokens((*v.value_true).deep_view()));
        written = written + expression_tokens((*v.value_true).deep_view());
    }
    emit(out, Token::Else);
    proof {
        lemma_written(start, written, plain(TokenKind::Else));
        written = written + plain(TokenKind::Else);
    }
    print_expression(&*v.value_false, out);
    proof {
        lemma_written(start, written, expression_tokens((*v.value_false).deep_view()));
        written = written + expression_tokens((*v.value_false).deep_view());
    }
}

/// Writes what `cast_tokens` gives at the end of the tokens.
pub fn print_cast(v: &CastExpr, out: &mut Vec<Token>)
    ensures
        token_views(final(out)@) == token_views(old(out)@) + cast_tokens(v.deep_view()),
    decreases v, 0nat,
{
    let ghost start = token_views(out@);
    let ghost mut written: Seq<TokenView> = Seq::empty();
    print_atomic(&v.value, out);
    proof {
        written = atomic_tokens(v.value.deep_view());
    }
    emit(out, Token::Colon);
    proof {
        lemma_written(start, written, plain(TokenKind::Colon));
        written = written + plain(TokenKind::Colon);
    }
    print_type_spec(&v.ty, out);
    proof {
        lemma_written(start, written, type_spec_tokens(v.ty.deep_view()));
        written = written + type_spec_tokens(v.ty.deep_view());
    }
}

/// Writes what `path_tokens` gives at the end of the tokens.
pub fn print_path(v: &PathExpr, out: &mut Vec<Token>)
    ensures
        token_views(final(out)@) == token_views(old(out)@) + path_tokens(v.deep_view()),
    decreases v, 0nat,
{
    let ghost start = token_views(out@);
    let ghost mut written: Seq<TokenView> = Seq::empty();
    print_ident(&v.first, out);
    proof {
        written = ident_tokens(v.first.deep_view());
    }
    assert(v.deep_view().extra =~= (v.extra).deep_view());
    print_path_segments(&v.extra, 0, out);
    proof {
        lemma_written(start, written, path_segments_tokens(v.extra.deep_view(), (0) as nat));
        written = written + path_segments_tokens(v.extra.deep_view(), (0) as nat);
    }
}

/// Writes what `path_segment_tokens` gives at the end of the tokens.
pub fn print_path_segment(v: &PathSegment, out: &mut Vec<Token>)
    ensures
        token_views(final(out)@) == token_views(old(out)@) + path_segment_tokens(v.deep_view()),
    decreases v, 0nat,
{
    let ghost start = token_views(out@);
    let ghost mut written: Seq<TokenView> = Seq::empty();
    match v {
        PathSegment::SlotAccess(name) => {
            emit(out, Token::Period);
            proof {
                written = plain(TokenKind::Period);
            }
            print_ident(name, out);
            proof {
                lemma_written(start, written, ident_tokens((*name).deep_view()));
                written = written + ident_tokens((*name).deep_view());
            }
        },
        PathSegment::PtrSlotAccess(name) => {
            emit(out, Token::HypenRight);
            proof {
                written = plain(TokenKind::HypenRight);
            }
            print_ident(name, out);
            proof {
                lemma_written(start, written, ident_tokens((*name).deep_view()));
                written = written + ident_tokens((*name).deep_view());
            }
        },
        PathSegment::ArrayIndex(e) => {
            emit(out, Token::LBracket);
            proof {
                written = plain(TokenKind::LBracket);
            }
            print_expression(&**e, out);
            proof {
                lemma_written(start, written, expression_tokens((**e).deep_view()));
                written = written + expression_tokens((**e).deep_view());
            }
            emit(out, Token::RBracket);
            proof {
                lemma_written(start, written, plain(TokenKind::RBracket));
                written = written + plain(TokenKind::RBracket);
            }
        },
    }
}

/// Writes what `fn_call_tokens` gives at the end of the tokens.
pub fn print_fn_call(v: &FnCallExpr, out: &mut Vec<Token>)
    ensures
        token_views(final(out)@) == token_views(old(out)@) + fn_call_tokens(v.deep_view()),
    decreases v, 0nat,
{
    let ghost start = token_views(out@);
    let ghost mut written: Seq<TokenView> = Seq::empty();
    print_ident(&v.target, out);
    proof {
        written = ident_tokens(v.target.deep_view());
    }
    emit(out, Token::LParen);
    proof {
        lemma_written(start, written, plain(TokenKind::LParen));
        written = written + plain(TokenKind::LParen);
    }
    print_fn_call_args(&v.args, out);
    proof {
        lemma_written(start, written, fn_call_args_tokens(v.args.deep_view()));
        written = written + fn_call_args_tokens(v.args.deep_view());
    }
    emit(out, Token::RParen);
    proof {
        lemma_written(start, written, plain(TokenKind::RParen));
        written = written + plain(TokenKind::RParen);
    }
}

/// Writes what `fn_call_args_tokens` gives at the end of the tokens.
pub fn print_fn_call_args(v: &FnCallArgs, out: &mut Vec<Token>)
    ensures
        token_views(final(out)@) == token_views(old(out)@) + fn_call_args_tokens(v.deep_view()),
    decreases v, 0nat,
{
    let ghost start = token_views(out@);
    let ghost mut written: Seq<TokenView> = Seq::empty();
    match v {
        FnCallArgs::Empty => {
            proof {
                lemma_nothing_written(start);
            }
        },
        FnCallArgs::Positional(values) => {
            assert(v.deep_view()->Positional_0 =~= (*values).deep_view());
            print_expressions(values, 0, out);
        },
        FnCallArgs::Named(pairs) => {
            assert(v.deep_view()->Named_0 =~= (*pairs).deep_view());
            print_named_args(pairs, 0, out);
        },
    }
}

/// Writes what `named_arg_tokens` gives at the end of the tokens.
pub fn print_named_arg(v: &NamedArg, out: &mut Vec<Token>)
    ensures
        token_views(final(out)@) == token_views(old(out)@) + named_arg_tokens(v.deep_view()),
    decreases v, 0nat,
{
    let ghost start = token_views(out@);
    let ghost mut written: Seq<TokenView> = Seq::empty();
    print_ident(&v.name, out);
    proof {
        written = ident_tokens(v.name.deep_view());
    }
    emit(out, Token::ArrowRight);
    proof {
        lemma_written(start, written, plain(TokenKind::ArrowRight));
        written = written + plain(TokenKind::ArrowRight);
    }
    print_expression(&v.value, out);
    proof {
        lemma_written(start, written, expression_tokens(v.value.deep_view()));
        written = written + expression_tokens(v.value.deep_view());
    }
}

/// Writes what `param_tokens` gives at the end of the tokens.
pub fn print_param(v: &Param, out: &mut Vec<Token>)
    ensures
        token_views(final(out)@) == token_views(old(out)@) + param_tokens(v.deep_view()),
{
    let ghost start = token_views(out@);
    let ghost mut written: Seq<TokenView> = Seq::empty();
    print_ident(&v.name, out);
    proof {
        written = ident_tokens(v.name.deep_view());
    }
    emit(out, Token::Colon);
    proof {
        lemma_written(start, written, plain(TokenKind::Colon));
        written = written + plain(TokenKind::Colon);
    }
    print_type_spec(&v.ty, out);
    proof {
        lemma_written(start, written, type_spec_tokens(v.ty.deep_view()));
        written = written + type_spec_tokens(v.ty.deep_view());
    }
}

/// Writes what `params_tokens` gives at the end of the tokens.
pub fn print_params(items: &Vec<Param>, from: usize, out: &mut Vec<Token>)
    ensures
        token_views(final(out)@) == token_views(old(out)@) + params_tokens(
            items.deep_view(),
            from as nat,
        ),
    decreases items, items.len() - from,
{
    let ghost start = token_views(out@);
    let ghost mut written: Seq<TokenView> = Seq::empty();
    if from >= items.len() {
        proof {
            lemma_nothing_written(start);
        }
    } else if from + 1 == items.len() {
        assert(items.deep_view()[from as int] == items[from as int].deep_view());
        print_param(&items[from], out);
    } else {
        assert(items.deep_view()[from as int] == items[from as int].deep_view());
        print_param(&items[from], out);
        proof {
            written = param_tokens(items[from as int].deep_view());
        }
        emit(out, Token::Comma);
        proof {
            lemma_written(start, written, plain(TokenKind::Comma));
            written = written + plain(TokenKind::Comma);
        }
        print_params(items, from + 1, out);
        proof {
            lemma_written(start, written, params_tokens((*items).deep_view(), (from + 1) as nat));
            written = written + params_tokens((*items).deep_view(), (from + 1) as nat);
        }
    }
}

/// Writes what `function_decl_tokens` gives at the end of the tokens.
pub fn print_function_decl(v: &FunctionDecl, out: &mut Vec<Token>)
    ensures
        token_views(final(out)@) == token_views(old(out)@) + function_decl_tokens(v.deep_view()),
{
    let ghost start = token_views(out@);
    let ghost mut written: Seq<TokenView> = Seq::empty();
    print_opt_doc_string(&v.doc_string, out);
    proof {
        written = opt_doc_string_tokens(v.doc_string.deep_view());
    }
    assert(v.deep_view().pragmas =~= (v.pragmas).deep_view());
    print_pragmas(&v.pragmas, 0, out);
    proof {
        lemma_written(start, written, pragmas_tokens(v.pragmas.deep_view(), (0) as nat));
        written = written + pragmas_tokens(v.pragmas.deep_view(), (0) as nat);
    }
    print_generic_clause(&v.type_params, out);
    proof {
        lemma_written(start, written, generic_clause_tokens(v.type_params.deep_view()));
        written = written + generic_clause_tokens(v.type_params.deep_view());
    }
    emit(out, Token::Function);
    proof {
        lemma_written(start, written, plain(TokenKind::Function));
        written = written + plain(TokenKind::Function);
    }
    print_ident(&v.name, out);
    proof {
        lemma_written(start, written, ident_tokens(v.name.deep_view()));
        written = written + ident_tokens(v.name.deep_view());
    }
    emit(out, Token::LParen);
    proof {
        lemma_written(start, written, plain(TokenKind::LParen));
        written = written + plain(TokenKind::LParen);
    }
    assert(v.deep_view().params =~= (v.params).deep_view());
    print_params(&v.params, 0, out);
    proof {
        lemma_written(start, written, params_tokens(v.params.deep_view(), (0) as nat));
        written = written + params_tokens(v.params.deep_view(), (0) as nat);
    }
    emit(out, Token::RParen);
    proof {
        lemma_written(start, written, plain(TokenKind::RParen));
        written = written + plain(TokenKind::RParen);
    }
    emit(out, Token::Colon);
    proof {
        lemma_written(start, written, plain(TokenKind::Colon));
        written = written + plain(TokenKind::Colon);
    }
    print_type_spec(&v.ret_type, out);
    proof {
        lemma_written(start, written, type_spec_tokens(v.ret_type.deep_view()));
        written = written + type_spec_tokens(v.ret_type.deep_view());
    }
    emit(out, Token::Semi);
    proof {
        lemma_written(start, written, plain(TokenKind::Semi));
        written = written + plain(TokenKind::Semi);
    }
}

/// Writes what `function_def_tokens` gives at the end of the tokens.
pub fn print_function_def(v: &FunctionDef, out: &mut Vec<Token>)
    ensures
        token_views(final(out)@) == token_views(old(out)@) + function_def_tokens(v.deep_view()),
{
    let ghost start = token_views(out@);
    let ghost mut written: Seq<TokenView> = Seq::empty();
    print_opt_doc_string(&v.decl.doc_string, out);
    proof {
        written = opt_doc_string_tokens(v.decl.doc_string.deep_view());
    }
    assert(v.deep_view().decl.pragmas =~= (v.decl.pragmas).deep_view());
    print_pragmas(&v.decl.pragmas, 0, out);
    proof {
        lemma_written(start, written, pragmas_tokens(v.decl.pragmas.deep_view(), (0) as nat));
        written = written + pragmas_tokens(v.decl.pragmas.deep_view(), (0) as nat);
    }
    print_generic_clause(&v.decl.type_params, out);
    proof {
        lemma_written(start, written, generic_clause_tokens(v.decl.type_params.deep_view()));
        written = written + generic_clause_tokens(v.decl.type_params.deep_view());
    }
    emit(out, Token::Function);
    proof {
        lemma_written(start, written, plain(TokenKind::Function));
        written = written + plain(TokenKind::Function);
    }
    print_ident(&v.decl.name, out);
    proof {
        lemma_written(start, written, ident_tokens(v.decl.name.deep_view()));
        written = written + ident_tokens(v.decl.name.deep_view());
    }
    emit(out, Token::LParen);
    proof {
        lemma_written(start, written, plain(TokenKind::LParen));
        written = written + plain(TokenKind::LParen);
    }
    assert(v.deep_view().decl.params =~= (v.decl.params).deep_view());
    print_params(&v.decl.params, 0, out);
    proof {
        lemma_written(start, written, params_tokens(v.decl.params.deep_view(), (0) as nat));
        written = written + params_tokens(v.decl.params.deep_view(), (0) as nat);
    }
    emit(out, Token::RParen);
    proof {
        lemma_written(start, written, plain(TokenKind::RParen));
        written = written + plain(TokenKind::RParen);
    }
    emit(out, Token::Colon);
    proof {
        lemma_written(start, written, plain(TokenKind::Colon));
        written = written + plain(TokenKind::Colon);
    }
    print_type_spec(&v.decl.ret_type, out);
    proof {
        lemma_written(start, written, type_spec_tokens(v.decl.ret_type.deep_view()));
        written = written + type_spec_tokens(v.decl.ret_type.deep_view());
    }
    emit(out, Token::Is);
    proof {
        lemma_written(start, written, plain(TokenKind::Is));
        written = written + plain(TokenKind::Is);
    }
    assert(v.deep_view().body =~= (v.body).deep_view());
    print_block(&v.body, 0, out);
    proof {
        lemma_written(start, written, block_tokens(v.body.deep_view(), (0) as nat));
        written = written + block_tokens(v.body.deep_view(), (0) as nat);
    }
    emit(out, Token::End);
    proof {
        lemma_written(start, written, plain(TokenKind::End));
        written = written + plain(TokenKind::End);
    }
    emit(out, Token::Semi);
    proof {
        lemma_written(start, written, plain(TokenKind::Semi));
        written = written + plain(TokenKind::Semi);
    }
}

/// Writes what `method_decl_tokens` gives at the end of the tokens.
pub fn print_method_decl(v: &MethodDecl, out: &mut Vec<Token>)
    ensures
        token_views(final(out)@) == token_views(old(out)@) + method_decl_tokens(v.deep_view()),
{
    let ghost start = token_views(out@);
    let ghost mut written: Seq<TokenView> = Seq::empty();
    print_opt_doc_string(&v.doc_string, out);
    proof {
        written = opt_doc_string_tokens(v.doc_string.deep_view());
    }
    print_generic_clause(&v.type_params, out);
    proof {
        lemma_written(start, written, generic_clause_tokens(v.type_params.deep_view()));
        written = written + generic_clause_tokens(v.type_params.deep_view());
    }
    emit(out, Token::Method);
    proof {
        lemma_written(start, written, plain(TokenKind::Method));
        written = written + plain(TokenKind::Method);
    }
    print_ident(&v.name, out);
    proof {
        lemma_written(start, written, ident_tokens(v.name.deep_view()));
        written = written + ident_tokens(v.name.deep_view());
    }
    emit(out, Token::LParen);
    proof {
        lemma_written(start, written, plain(TokenKind::LParen));
        written = written + plain(TokenKind::LParen);
    }
    assert(v.deep_view().params =~= (v.params).deep_view());
    print_params(&v.params, 0, out);
    proof {
        lemma_written(start, written, params_tokens(v.params.deep_view(), (0) as nat));
        written = written + params_tokens(v.params.deep_view(), (0) as nat);
    }
    emit(out, Token::RParen);
    proof {
        lemma_written(start, written, plain(TokenKind::RParen));
        written = written + plain(TokenKind::RParen);
    }
    emit(out, Token::Colon);
    proof {
        lemma_written(start, written, plain(TokenKind::Colon));
        written = written + plain(TokenKind::Colon);
    }
    print_type_spec(&v.ret_ty, out);
    proof {
        lemma_written(start, written, type_spec_tokens(v.ret_ty.deep_view()));
        written = written + type_spec_tokens(v.ret_ty.deep_view());
    }
    emit(out, Token::Semi);
    proof {
        lemma_written(start, written, plain(TokenKind::Semi));
        written = written + plain(TokenKind::Semi);
    }
}

/// Writes what `method_def_tokens` gives at the end of the tokens.
pub fn print_method_def(v: &MethodDef, out: &mut Vec<Token>)
    ensures
        token_views(final(out)@) == token_views(old(out)@) + method_def_tokens(v.deep_view()),
{
    let ghost start = token_views(out@);
    let ghost mut written: Seq<TokenView> = Seq::empty();
    print_opt_doc_string(&v.decl.doc_string, out);
    proof {
        written = opt_doc_string_tokens(v.decl.doc_string.deep_view());
    }
    print_generic_clause(&v.decl.type_params, out);
    proof {
        lemma_written(start, written, generic_clause_tokens(v.decl.type_params.deep_view()));
        written = written + generic_clause_tokens(v.decl.type_params.deep_view());
    }
    emit(out, Token::Method);
    proof {
        lemma_written(start, written, plain(TokenKind::Method));
        written = written + plain(TokenKind::Method);
    }
    print_ident(&v.decl.name, out);
    proof {
        lemma_written(start, written, ident_tokens(v.decl.name.deep_view()));
        written = written + ident_tokens(v.decl.name.deep_view());
    }
    emit(out, Token::LParen);
    proof {
        lemma_written(start, written, plain(TokenKind::LParen));
        written = written + plain(TokenKind::LParen);
    }
    assert(v.deep_view().decl.params =~= (v.decl.params).deep_view());
    print_params(&v.decl.params, 0, out);
    proof {
        lemma_written(start, written, params_tokens(v.decl.params.deep_view(), (0) as nat));
        written = written + params_tokens(v.decl.params.deep_view(), (0) as nat);
    }
    emit(out, Token::RParen);
    proof {
        lemma_written(start, written, plain(TokenKind::RParen));
        written = written + plain(TokenKind::RParen);
    }
    emit(out, Token::Colon);
    proof {
        lemma_written(start, written, plain(TokenKind::Colon));
        written = written + plain(TokenKind::Colon);
    }
    print_type_spec(&v.decl.ret_ty, out);
    proof {
        lemma_written(start, written, type_spec_tokens(v.decl.ret_ty.deep_view()));
        written = written + type_spec_tokens(v.decl.ret_ty.deep_view());
    }
    emit(out, Token::Is);
    proof {
        lemma_written(start, written, plain(TokenKind::Is));
        written = written + plain(TokenKind::Is);
    }
    assert(v.deep_view().body =~= (v.body).deep_view());
    print_block(&v.body, 0, out);
    proof {
        lemma_written(start, written, block_tokens(v.body.deep_view(), (0) as nat));
        written = written + block_tokens(v.body.deep_view(), (0) as nat);
    }
    emit(out, Token::End);
    proof {
        lemma_written(start, written, plain(TokenKind::End));
        written = written + plain(TokenKind::End);
    }
    emit(out, Token::Semi);
    proof {
        lemma_written(start, written, plain(TokenKind::Semi));
        written = written + plain(TokenKind::Semi);
    }
}

/// Writes what `method_decls_tokens` gives at the end of the tokens.
pub fn print_method_decls(items: &Vec<MethodDecl>, from: usize, out: &mut Vec<Token>)
    ensures
        token_views(final(out)@) == token_views(old(out)@) + method_decls_tokens(
            items.deep_view(),
            from as nat,
        ),
    decreases items, items.len() - from,
{
    let ghost start = token_views(out@);
    let ghost mut written: Seq<TokenView> = Seq::empty();
    if from >= items.len() {
        proof {
            lemma_nothing_written(start);
        }
    } else {
        assert(items.deep_view()[from as int] == items[from as int].deep_view());
        print_method_decl(&items[from], out);
        proof {
            written = method_decl_tokens(items[from as int].deep_view());
        }
        print_method_decls(items, from + 1, out);
        proof {
            lemma_written(
                start,
                written,
                method_decls_tokens((*items).deep_view(), (from + 1) as nat),
            );
            written = written + method_decls_tokens((*items).deep_view(), (from + 1) as nat);
        }
    }
}

/// Writes what `method_defs_tokens` gives at the end of the tokens.
pub fn print_method_defs(items: &Vec<MethodDef>, from: usize, out: &mut Vec<Token>)
    ensures
        token_views(final(out)@) == token_views(old(out)@) + method_defs_tokens(
            items.deep_view(),
            from as nat,
        ),
    decreases items, items.len() - from,
{
    let ghost start = token_views(out@);
    let ghost mut written: Seq<TokenView> = Seq::empty();
    if from >= items.len() {
        proof {
            lemma_nothing_written(start);
        }
    } else {
        assert(items.deep_view()[from as int] == items[from as int].deep_view());
        print_method_def(&items[from], out);
        proof {
            written = method_def_tokens(items[from as int].deep_view());
        }
        print_method_defs(items, from + 1, out);
        proof {
            lemma_written(
                start,
                written,
                method_defs_tokens((*items).deep_view(), (from + 1) as nat),
            );
            written = written + method_defs_tokens((*items).deep_view(), (from + 1) as nat);
        }
    }
}

/// Writes what `imported_symbol_tokens` gives at the end of the tokens.
pub fn print_imported_symbol(v: &ImportedSymbol, out: &mut Vec<Token>)
    ensures
        token_views(final(out)@) == token_views(old(out)@) + imported_symbol_tokens(v.deep_view()),
{
    let ghost start = token_views(out@);
    let ghost mut written: Seq<TokenView> = Seq::empty();
    print_ident(&v.import_name, out);
    proof {
        written = ident_tokens(v.import_name.deep_view());
    }
    print_rename(&v.rename_into, out);
    proof {
        lemma_written(start, written, rename_tokens(v.rename_into.deep_view()));
        written = written + rename_tokens(v.rename_into.deep_view());
    }
}

/// Writes what `imported_symbols_tokens` gives at the end of the tokens.
pub fn print_imported_symbols(items: &Vec<ImportedSymbol>, from: usize, out: &mut Vec<Token>)
    ensures
        token_views(final(out)@) == token_views(old(out)@) + imported_symbols_tokens(
            items.deep_view(),
            from as nat,
        ),
    decreases items, items.len() - from,
{
    let ghost start = token_views(out@);
    let ghost mut written: Seq<TokenView> = Seq::empty();
    if from >= items.len() {
        proof {
            lemma_nothing_written(start);
        }
    } else if from + 1 == items.len() {
        assert(items.deep_view()[from as int] == items[from as int].deep_view());
        print_imported_symbol(&items[from], out);
    } else {
        assert(items.deep_view()[from as int] == items[from as int].deep_view());
        print_imported_symbol(&items[from], out);
        proof {
            written = imported_symbol_tokens(items[from as int].deep_view());
        }
        emit(out, Token::Comma);
        proof {
            lemma_written(start, written, plain(TokenKind::Comma));
            written = written + plain(TokenKind::Comma);
        }
        print_imported_symbols(items, from + 1, out);
        proof {
            lemma_written(
                start,
                written,
                imported_symbols_tokens((*items).deep_view(), (from + 1) as nat),
            );
            written = written + imported_symbols_tokens((*items).deep_view(), (from + 1) as nat);
        }
    }
}

/// Writes what `module_path_tokens` gives at the end of the tokens.
pub fn print_module_path(items: &Vec<Ident>, from: usize, out: &mut Vec<Token>)
    ensures
        token_views(final(out)@) == token_views(old(out)@) + module_path_tokens(
            items.deep_view(),
            from as nat,
        ),
    decreases items, items.len() - from,
{
    let ghost start = token_views(out@);
    let ghost mut written: Seq<TokenView> = Seq::empty();
    if from >= items.len() {
        proof {
            lemma_nothing_written(start);
        }
    } else if from + 1 == items.len() {
        assert(items.deep_view()[from as int] == items[from as int].deep_view());
        print_ident(&items[from], out);
    } else {
        assert(items.deep_view()[from as int] == items[from as int].deep_view());
        print_ident(&items[from], out);
        proof {
            written = ident_tokens(items[from as int].deep_view());
        }
        emit(out, Token::Period);
        proof {
            lemma_written(start, written, plain(TokenKind::Period));
            written = written + plain(TokenKind::Period);
        }
        print_module_path(items, from + 1, out);
        proof {
            lemma_written(
                start,
                written,
                module_path_tokens((*items).deep_view(), (from + 1) as nat),
            );
            written = written + module_path_tokens((*items).deep_view(), (from + 1) as nat);
        }
    }
}

/// Writes what `whole_module_path_tokens` gives at the end of the tokens.
pub fn print_whole_module_path(v: &Vec<Ident>, out: &mut Vec<Token>)
    ensures
        token_views(final(out)@) == token_views(old(out)@) + whole_module_path_tokens(v.deep_view()),
{
    let ghost start = token_views(out@);
    assert(v.deep_view() =~= (*v).deep_view());
    print_module_path(v, 0, out);
}

/// Writes what `import_stmt_tokens` gives at the end of the tokens.
pub fn print_import_stmt(v: &ImportStmt, out: &mut Vec<Token>)
    ensures
        token_views(final(out)@) == token_views(old(out)@) + import_stmt_tokens(v.deep_view()),
{
    let ghost start = token_views(out@);
    let ghost mut written: Seq<TokenView> = Seq::empty();
    emit(out, Token::Import);
    proof {
        written = plain(TokenKind::Import);
    }
    print_whole_module_path(&v.module, out);
    proof {
        lemma_written(start, written, whole_module_path_tokens(v.module.deep_view()));
        written = written + whole_module_path_tokens(v.module.deep_view());
    }
    emit(out, Token::LParen);
    proof {
        lemma_written(start, written, plain(TokenKind::LParen));
        written = written + plain(TokenKind::LParen);
    }
    assert(v.deep_view().symbols =~= (v.symbols).deep_view());
    print_imported_symbols(&v.symbols, 0, out);
    proof {
        lemma_written(start, written, imported_symbols_tokens(v.symbols.deep_view(), (0) as nat));
        written = written + imported_symbols_tokens(v.symbols.deep_view(), (0) as nat);
    }
    emit(out, Token::RParen);
    proof {
        lemma_written(start, written, plain(TokenKind::RParen));
        written = written + plain(TokenKind::RParen);
    }
    emit(out, Token::Semi);
    proof {
        lemma_written(start, written, plain(TokenKind::Semi));
        written = written + plain(TokenKind::Semi);
    }
}

/// Writes what `imports_tokens` gives at the end of the tokens.
pub fn print_imports(items: &Vec<ImportStmt>, from: usize, out: &mut Vec<Token>)
    ensures
        token_views(final(out)@) == token_views(old(out)@) + imports_tokens(
            items.deep_view(),
            from as nat,
        ),
    decreases items, items.len() - from,
{
    let ghost start = token_views(out@);
    let ghost mut written: Seq<TokenView> = Seq::empty();
    if from >= items.len() {
        proof {
            lemma_nothing_written(start);
        }
    } else {
        assert(items.deep_view()[from as int] == items[from as int].deep_view());
        print_import_stmt(&items[from], out);
        proof {
            written = import_stmt_tokens(items[from as int].deep_view());
        }
        print_imports(items, from + 1, out);
        proof {
            lemma_written(start, written, imports_tokens((*items).deep_view(), (from + 1) as nat));
            written = written + imports_tokens((*items).deep_view(), (from + 1) as nat);
        }
    }
}

/// Writes what `instance_decl_tokens` gives at the end of the tokens.
pub fn print_instance_decl(v: &InstanceBase<MethodDecl>, out: &mut Vec<Token>)
    ensures
        token_views(final(out)@) == token_views(old(out)@) + instance_decl_tokens(v.deep_view()),
{
    let ghost start = token_views(out@);
    let ghost mut written: Seq<TokenView> = Seq::empty();
    print_opt_doc_string(&v.doc_string, out);
    proof {
        written = opt_doc_string_tokens(v.doc_string.deep_view());
    }
    assert(v.deep_view().pragmas =~= (v.pragmas).deep_view());
    print_pragmas(&v.pragmas, 0, out);
    proof {
        lemma_written(start, written, pragmas_tokens(v.pragmas.deep_view(), (0) as nat));
        written = written + pragmas_tokens(v.pragmas.deep_view(), (0) as nat);
    }
    print_generic_clause(&v.type_params, out);
    proof {
        lemma_written(start, written, generic_clause_tokens(v.type_params.deep_view()));
        written = written + generic_clause_tokens(v.type_params.deep_view());
    }
    emit(out, Token::Instance);
    proof {
        lemma_written(start, written, plain(TokenKind::Instance));
        written = written + plain(TokenKind::Instance);
    }
    print_ident(&v.name, out);
    proof {
        lemma_written(start, written, ident_tokens(v.name.deep_view()));
        written = written + ident_tokens(v.name.deep_view());
    }
    emit(out, Token::LParen);
    proof {
        lemma_written(start, written, plain(TokenKind::LParen));
        written = written + plain(TokenKind::LParen);
    }
    print_type_spec(&v.arg, out);
    proof {
        lemma_written(start, written, type_spec_tokens(v.arg.deep_view()));
        written = written + type_spec_tokens(v.arg.deep_view());
    }
    emit(out, Token::RParen);
    proof {
        lemma_written(start, written, plain(TokenKind::RParen));
        written = written + plain(TokenKind::RParen);
    }
    emit(out, Token::Is);
    proof {
        lemma_written(start, written, plain(TokenKind::Is));
        written = written + plain(TokenKind::Is);
    }
    assert(v.deep_view().methods =~= (v.methods).deep_view());
    print_method_decls(&v.methods, 0, out);
    proof {
        lemma_written(start, written, method_decls_tokens(v.methods.deep_view(), (0) as nat));
        written = written + method_decls_tokens(v.methods.deep_view(), (0) as nat);
    }
    emit(out, Token::End);
    proof {
        lemma_written(start, written, plain(TokenKind::End));
        written = written + plain(TokenKind::End);
    }
    emit(out, Token::Semi);
    proof {
        lemma_written(start, written, plain(TokenKind::Semi));
        written = written + plain(TokenKind::Semi);
    }
}

/// Writes what `instance_def_tokens` gives at the end of the tokens.
pub fn print_instance_def(v: &InstanceBase<MethodDef>, out: &mut Vec<Token>)
    ensures
        token_views(final(out)@) == token_views(old(out)@) + instance_def_tokens(v.deep_view()),
{
    let ghost start = token_views(out@);
    let ghost mut written: Seq<TokenView> = Seq::empty();
    print_opt_doc_string(&v.doc_string, out);
    proof {
        written = opt_doc_string_tokens(v.doc_string.deep_view());
    }
    assert(v.deep_view().pragmas =~= (v.pragmas).deep_view());
    print_pragmas(&v.pragmas, 0, out);
    proof {
        lemma_written(start, written, pragmas_tokens(v.pragmas.deep_view(), (0) as nat));
        written = written + pragmas_tokens(v.pragmas.deep_view(), (0) as nat);
    }
    print_generic_clause(&v.type_params, out);
    proof {
        lemma_written(start, written, generic_clause_tokens(v.type_params.deep_view()));
        written = written + generic_clause_tokens(v.type_params.deep_view());
    }
    emit(out, Token::Instance);
    proof {
        lemma_written(start, written, plain(TokenKind::Instance));
        written = written + plain(TokenKind::Instance);
    }
    print_ident(&v.name, out);
    proof {
        lemma_written(start, written, ident_tokens(v.name.deep_view()));
        written = written + ident_tokens(v.name.deep_view());
    }
    emit(out, Token::LParen);
    proof {
        lemma_written(start, written, plain(TokenKind::LParen));
        written = written + plain(TokenKind::LParen);
    }
    print_type_spec(&v.arg, out);
    proof {
        lemma_written(start, written, type_spec_tokens(v.arg.deep_view()));
        written = written + type_spec_tokens(v.arg.deep_view());
    }
    emit(out, Token::RParen);
    proof {
        lemma_written(start, written, plain(TokenKind::RParen));
        written = written + plain(TokenKind::RParen);
    }
    emit(out, Token::Is);
    proof {
        lemma_written(start, written, plain(TokenKind::Is));
        written = written + plain(TokenKind::Is);
    }
    assert(v.deep_view().methods =~= (v.methods).deep_view());
    print_method_defs(&v.methods, 0, out);
    proof {
        lemma_written(start, written, method_defs_tokens(v.methods.deep_view(), (0) as nat));
        written = written + method_defs_tokens(v.methods.deep_view(), (0) as nat);
    }
    emit(out, Token::End);
    proof {
        lemma_written(start, written, plain(TokenKind::End));
        written = written + plain(TokenKind::End);
    }
    emit(out, Token::Semi);
    proof {
        lemma_written(start, written, plain(TokenKind::Semi));
        written = written + plain(TokenKind::Semi);
    }
}

/// Writes what `decl_item_tokens` gives at the end of the tokens.
#[verifier::rlimit(100)]
pub fn print_decl_item(v: &ModuleDeclItem, out: &mut Vec<Token>)
    ensures
        token_views(final(out)@) == token_views(old(out)@) + decl_item_tokens(v.deep_view()),
{
    let ghost start = token_views(out@);
    match v {
        ModuleDeclItem::Constant(item) => {
            print_constant_decl(item, out);
        },
        ModuleDeclItem::Function(item) => {
            print_function_decl(item, out);
        },
        ModuleDeclItem::Instance(item) => {
            print_instance_decl(item, out);
        },
        ModuleDeclItem::Record(item) => {
            print_record(item, out);
        },
        ModuleDeclItem::Type(item) => {
            print_type_decl(item, out);
        },
        ModuleDeclItem::TypeClass(item) => {
            print_typeclass_decl(item, out);
        },
        ModuleDeclItem::Union(item) => {
            print_union(item, out);
        },
    }
}

/// Writes what `def_item_tokens` gives at the end of the tokens.
#[verifier::rlimit(100)]
pub fn print_def_item(v: &ModuleDefItem, out: &mut Vec<Token>)
    ensures
        token_views(final(out)@) == token_views(old(out)@) + def_item_tokens(v.deep_view()),
{
    let ghost start = token_views(out@);
    match v {
        ModuleDefItem::Constant(item) => {
            print_constant_def(item, out);
        },
        ModuleDefItem::Function(item) => {
            print_function_def(item, out);
        },
        ModuleDefItem::Instance(item) => {
            print_instance_def(item, out);
        },
        ModuleDefItem::Record(item) => {
            print_record(item, out);
        },
        ModuleDefItem::Type(item) => {
            print_type_decl(item, out);
        },
        ModuleDefItem::TypeClass(item) => {
            print_typeclass_def(item, out);
        },
        ModuleDefItem::Union(item) => {
            print_union(item, out);
        },
    }
}

/// Writes what `decl_items_tokens` gives at the end of the tokens.
pub fn print_decl_items(items: &Vec<ModuleDeclItem>, from: usize, out: &mut Vec<Token>)
    ensures
        token_views(final(out)@) == token_views(old(out)@) + decl_items_tokens(
            items.deep_view(),
            from as nat,
        ),
    decreases items, items.len() - from,
{
    let ghost start = token_views(out@);
    let ghost mut written: Seq<TokenView> = Seq::empty();
    if from >= items.len() {
        proof {
            lemma_nothing_written(start);
        }
    } else {
        assert(items.deep_view()[from as int] == items[from as int].deep_view());
        print_decl_item(&items[from], out);
        proof {
            written = decl_item_tokens(items[from as int].deep_view());
        }
        print_decl_items(items, from + 1, out);
        proof {
            lemma_written(
                start,
                written,
                decl_items_tokens((*items).deep_view(), (from + 1) as nat),
            );
            written = written + decl_items_tokens((*items).deep_view(), (from + 1) as nat);
        }
    }
}

/// Writes what `def_items_tokens` gives at the end of the tokens.
pub fn print_def_items(items: &Vec<ModuleDefItem>, from: usize, out: &mut Vec<Token>)
    ensures
        token_views(final(out)@) == token_views(old(out)@) + def_items_tokens(
            items.deep_view(),
            from as nat,
        ),
    decreases items, items.len() - from,
{
    let ghost start = token_views(out@);
    let ghost mut written: Seq<TokenView> = Seq::empty();
    if from >= items.len() {
        proof {
            lemma_nothing_written(start);
        }
    } else {
        assert(items.deep_view()[from as int] == items[from as int].deep_view());
        print_def_item(&items[from], out);
        proof {
            written = def_item_tokens(items[from as int].deep_view());
        }
        print_def_items(items, from + 1, out);
        proof {
            lemma_written(
                start,
                written,
                def_items_tokens((*items).deep_view(), (from + 1) as nat),
            );
            written = written + def_items_tokens((*items).deep_view(), (from + 1) as nat);
        }
    }
}

/// Writes what `decl_items_to_end_tokens` gives at the end of the tokens.
pub fn print_decl_items_to_end(v: &Vec<ModuleDeclItem>, out: &mut Vec<Token>)
    ensures
        token_views(final(out)@) == token_views(old(out)@) + decl_items_to_end_tokens(v.deep_view()),
{
    let ghost start = token_views(out@);
    assert(v.deep_view() =~= (*v).deep_view());
    print_decl_items(v, 0, out);
}

/// Writes what `def_items_to_end_tokens` gives at the end of the tokens.
pub fn print_def_items_to_end(v: &Vec<ModuleDefItem>, out: &mut Vec<Token>)
    ensures
        token_views(final(out)@) == token_views(old(out)@) + def_items_to_end_tokens(v.deep_view()),
{
    let ghost start = token_views(out@);
    assert(v.deep_view() =~= (*v).deep_view());
    print_def_items(v, 0, out);
}

/// Writes what `module_decl_tokens` gives at the end of the tokens.
pub fn print_module_decl(v: &ModuleBase<ModuleDeclItem>, out: &mut Vec<Token>)
    ensures
        token_views(final(out)@) == token_views(old(out)@) + module_decl_tokens(v.deep_view()),
{
    let ghost start = token_views(out@);
    let ghost mut written: Seq<TokenView> = Seq::empty();
    print_opt_doc_string(&v.doc_string, out);
    proof {
        written = opt_doc_string_tokens(v.doc_string.deep_view());
    }
    assert(v.deep_view().imports =~= (v.imports).deep_view());
    print_imports(&v.imports, 0, out);
    proof {
        lemma_written(start, written, imports_tokens(v.imports.deep_view(), (0) as nat));
        written = written + imports_tokens(v.imports.deep_view(), (0) as nat);
    }
    emit(out, Token::Module);
    proof {
        lemma_written(start, written, plain(TokenKind::Module));
        written = written + plain(TokenKind::Module);
    }
    print_ident(&v.name, out);
    proof {
        lemma_written(start, written, ident_tokens(v.name.deep_view()));
        written = written + ident_tokens(v.name.deep_view());
    }
    emit(out, Token::Is);
    proof {
        lemma_written(start, written, plain(TokenKind::Is));
        written = written + plain(TokenKind::Is);
    }
    print_decl_items_to_end(&v.contents, out);
    proof {
        lemma_written(start, written, decl_items_to_end_tokens(v.contents.deep_view()));
        written = written + decl_items_to_end_tokens(v.contents.deep_view());
    }
}

/// Writes what `module_def_tokens` gives at the end of the tokens.
pub fn print_module_def(v: &ModuleBase<ModuleDefItem>, out: &mut Vec<Token>)
    ensures
        token_views(final(out)@) == token_views(old(out)@) + module_def_tokens(v.deep_view()),
{
    let ghost start = token_views(out@);
    let ghost mut written: Seq<TokenView> = Seq::empty();
    print_opt_doc_string(&v.doc_string, out);
    proof {
        written = opt_doc_string_tokens(v.doc_string.deep_view());
    }
    assert(v.deep_view().imports =~= (v.imports).deep_view());
    print_imports(&v.imports, 0, out);
    proof {
        lemma_written(start, written, imports_tokens(v.imports.deep_view(), (0) as nat));
        written = written + imports_tokens(v.imports.deep_view(), (0) as nat);
    }
    emit(out, Token::Module);
    proof {
        lemma_written(start, written, plain(TokenKind::Module));
        written = written + plain(TokenKind::Module);
    }
    emit(out, Token::Body);
    proof {
        lemma_written(start, written, plain(TokenKind::Body));
        written = written + plain(TokenKind::Body);
    }
    print_ident(&v.name, out);
    proof {
        lemma_written(start, written, ident_tokens(v.name.deep_view()));
        written = written + ident_tokens(v.name.deep_view());
    }
    emit(out, Token::Is);
    proof {
        lemma_written(start, written, plain(TokenKind::Is));
        written = written + plain(TokenKind::Is);
    }
    print_def_items_to_end(&v.contents, out);
    proof {
        lemma_written(start, written, def_items_to_end_tokens(v.contents.deep_view()));
        written = written + def_items_to_end_tokens(v.contents.deep_view());
    }
}

/// Writes what `module_tokens` gives at the end of the tokens.
pub fn print_module(v: &Module, out: &mut Vec<Token>)
    ensures
        token_views(final(out)@) == token_views(old(out)@) + module_tokens(v.deep_view()),
{
    let ghost start = token_views(out@);
    match v {
        Module::Decl(m) => {
            print_module_decl(m, out);
        },
        Module::Def(m) => {
            print_module_def(m, out);
        },
    }
}

/// Writes what `slot_tokens` gives at the end of the tokens.
pub fn print_slot(v: &Slot, out: &mut Vec<Token>)
    ensures
        token_views(final(out)@) == token_views(old(out)@) + slot_tokens(v.deep_view()),
{
    let ghost start = token_views(out@);
    let ghost mut written: Seq<TokenView> = Seq::empty();
    print_opt_doc_string(&v.doc_string, out);
    proof {
        written = opt_doc_string_tokens(v.doc_string.deep_view());
    }
    print_ident(&v.name, out);
    proof {
        lemma_written(start, written, ident_tokens(v.name.deep_view()));
        written = written + ident_tokens(v.name.deep_view());
    }
    emit(out, Token::Colon);
    proof {
        lemma_written(start, written, plain(TokenKind::Colon));
        written = written + plain(TokenKind::Colon);
    }
    print_type_spec(&v.ty, out);
    proof {
        lemma_written(start, written, type_spec_tokens(v.ty.deep_view()));
        written = written + type_spec_tokens(v.ty.deep_view());
    }
}

/// Writes what `slots_tokens` gives at the end of the tokens.
pub fn print_slots(items: &Vec<Slot>, from: usize, out: &mut Vec<Token>)
    ensures
        token_views(final(out)@) == token_views(old(out)@) + slots_tokens(
            items.deep_view(),
            from as nat,
        ),
    decreases items, items.len() - from,
{
    let ghost start = token_views(out@);
    let ghost mut written: Seq<TokenView> = Seq::empty();
    if from >= items.len() {
        proof {
            lemma_nothing_written(start);
        }
    } else {
        assert(items.deep_view()[from as int] == items[from as int].deep_view());
        print_slot(&items[from], out);
        proof {
            written = slot_tokens(items[from as int].deep_view());
        }
        print_slots(items, from + 1, out);
        proof {
            lemma_written(start, written, slots_tokens((*items).deep_view(), (from + 1) as nat));
            written = written + slots_tokens((*items).deep_view(), (from + 1) as nat);
        }
    }
}

/// Writes what `record_slot_tokens` gives at the end of the tokens.
pub fn print_record_slot(v: &Slot, out: &mut Vec<Token>)
    ensures
        token_views(final(out)@) == token_views(old(out)@) + record_slot_tokens(v.deep_view()),
{
    let ghost start = token_views(out@);
    let ghost mut written: Seq<TokenView> = Seq::empty();
    print_slot(v, out);
    proof {
        written = slot_tokens((*v).deep_view());
    }
    emit(out, Token::Semi);
    proof {
        lemma_written(start, written, plain(TokenKind::Semi));
        written = written + plain(TokenKind::Semi);
    }
}

/// Writes what `record_slots_tokens` gives at the end of the tokens.
pub fn print_record_slots(items: &Vec<Slot>, from: usize, out: &mut Vec<Token>)
    ensures
        token_views(final(out)@) == token_views(old(out)@) + record_slots_tokens(
            items.deep_view(),
            from as nat,
        ),
    decreases items, items.len() - from,
{
    let ghost start = token_views(out@);
    let ghost mut written: Seq<TokenView> = Seq::empty();
    if from >= items.len() {
        proof {
            lemma_nothing_written(start);
        }
    } else {
        assert(items.deep_view()[from as int] == items[from as int].deep_view());
        print_record_slot(&items[from], out);
        proof {
            written = record_slot_tokens(items[from as int].deep_view());
        }
        print_record_slots(items, from + 1, out);
        proof {
            lemma_written(
                start,
                written,
                record_slots_tokens((*items).deep_view(), (from + 1) as nat),
            );
            written = written + record_slots_tokens((*items).deep_view(), (from + 1) as nat);
        }
    }
}

/// Writes what `record_tokens` gives at the end of the tokens.
pub fn print_record(v: &RecordDecl, out: &mut Vec<Token>)
    ensures
        token_views(final(out)@) == token_views(old(out)@) + record_tokens(v.deep_view()),
{
    let ghost start = token_views(out@);
    let ghost mut written: Seq<TokenView> = Seq::empty();
    print_opt_doc_string(&v.doc_string, out);
    proof {
        written = opt_doc_string_tokens(v.doc_string.deep_view());
    }
    assert(v.deep_view().pragmas =~= (v.pragmas).deep_view());
    print_pragmas(&v.pragmas, 0, out);
    proof {
        lemma_written(start, written, pragmas_tokens(v.pragmas.deep_view(), (0) as nat));
        written = written + pragmas_tokens(v.pragmas.deep_view(), (0) as nat);
    }
    emit(out, Token::Record);
    proof {
        lemma_written(start, written, plain(TokenKind::Record));
        written = written + plain(TokenKind::Record);
    }
    print_ident(&v.name, out);
    proof {
        lemma_written(start, written, ident_tokens(v.name.deep_view()));
        written = written + ident_tokens(v.name.deep_view());
    }
    print_bracketed_type_params(&v.type_params, out);
    proof {
        lemma_written(start, written, bracketed_type_params_tokens(v.type_params.deep_view()));
        written = written + bracketed_type_params_tokens(v.type_params.deep_view());
    }
    emit(out, Token::Colon);
    proof {
        lemma_written(start, written, plain(TokenKind::Colon));
        written = written + plain(TokenKind::Colon);
    }
    print_universe(&v.universe, out);
    proof {
        lemma_written(start, written, universe_tokens(v.universe.deep_view()));
        written = written + universe_tokens(v.universe.deep_view());
    }
    emit(out, Token::Is);
    proof {
        lemma_written(start, written, plain(TokenKind::Is));
        written = written + plain(TokenKind::Is);
    }
    assert(v.deep_view().slots =~= (v.slots).deep_view());
    print_record_slots(&v.slots, 0, out);
    proof {
        lemma_written(start, written, record_slots_tokens(v.slots.deep_view(), (0) as nat));
        written = written + record_slots_tokens(v.slots.deep_view(), (0) as nat);
    }
    emit(out, Token::End);
    proof {
        lemma_written(start, written, plain(TokenKind::End));
        written = written + plain(TokenKind::End);
    }
    emit(out, Token::Semi);
    proof {
        lemma_written(start, written, plain(TokenKind::Semi));
        written = written + plain(TokenKind::Semi);
    }
}

/// Writes what `binding_keyword_tokens` gives at the end of the tokens.
pub fn print_binding_keyword(v: bool, out: &mut Vec<Token>)
    ensures
        token_views(final(out)@) == token_views(old(out)@) + binding_keyword_tokens(v),
{
    let ghost start = token_views(out@);
    if v {
        emit(out, Token::Var);
    } else {
        emit(out, Token::Let);
    }
}

/// Writes what `borrow_mut_mode_tokens` gives at the end of the tokens.
pub fn print_borrow_mut_mode(v: &BorrowMutMode, out: &mut Vec<Token>)
    ensures
        token_views(final(out)@) == token_views(old(out)@) + borrow_mut_mode_tokens(v.deep_view()),
{
    let ghost start = token_views(out@);
    match v {
        BorrowMutMode::Read => {
            emit(out, Token::BorrowRead);
        },
        BorrowMutMode::Write => {
            emit(out, Token::BorrowWrite);
        },
    }
}

/// Writes what `borrow_mode_tokens` gives at the end of the tokens.
pub fn print_borrow_mode(v: &BorrowMode, out: &mut Vec<Token>)
    ensures
        token_views(final(out)@) == token_views(old(out)@) + borrow_mode_tokens(v.deep_view()),
{
    let ghost start = token_views(out@);
    match v {
        BorrowMode::Read => {
            emit(out, Token::BorrowRead);
        },
        BorrowMode::Write => {
            emit(out, Token::BorrowWrite);
        },
        BorrowMode::ReBorrow => {
            emit(out, Token::ReBorrow);
        },
    }
}

/// Writes what `binding_tokens` gives at the end of the tokens.
pub fn print_binding(v: &Binding, out: &mut Vec<Token>)
    ensures
        token_views(final(out)@) == token_views(old(out)@) + binding_tokens(v.deep_view()),
{
    let ghost start = token_views(out@);
    let ghost mut written: Seq<TokenView> = Seq::empty();
    print_ident(&v.name, out);
    proof {
        written = ident_tokens(v.name.deep_view());
    }
    print_rename(&v.rename, out);
    proof {
        lemma_written(start, written, rename_tokens(v.rename.deep_view()));
        written = written + rename_tokens(v.rename.deep_view());
    }
    emit(out, Token::Colon);
    proof {
        lemma_written(start, written, plain(TokenKind::Colon));
        written = written + plain(TokenKind::Colon);
    }
    print_type_spec(&v.ty, out);
    proof {
        lemma_written(start, written, type_spec_tokens(v.ty.deep_view()));
        written = written + type_spec_tokens(v.ty.deep_view());
    }
}

/// Writes what `bindings_tokens` gives at the end of the tokens.
pub fn print_bindings(items: &Vec<Binding>, from: usize, out: &mut Vec<Token>)
    ensures
        token_views(final(out)@) == token_views(old(out)@) + bindings_tokens(
            items.deep_view(),
            from as nat,
        ),
    decreases items, items.len() - from,
{
    let ghost start = token_views(out@);
    let ghost mut written: Seq<TokenView> = Seq::empty();
    if from >= items.len() {
        proof {
            lemma_nothing_written(start);
        }
    } else if from + 1 == items.len() {
        assert(items.deep_view()[from as int] == items[from as int].deep_view());
        print_binding(&items[from], out);
    } else {
        assert(items.deep_view()[from as int] == items[from as int].deep_view());
        print_binding(&items[from], out);
        proof {
            written = binding_tokens(items[from as int].deep_view());
        }
        emit(out, Token::Comma);
        proof {
            lemma_written(start, written, plain(TokenKind::Comma));
            written = written + plain(TokenKind::Comma);
        }
        print_bindings(items, from + 1, out);
        proof {
            lemma_written(start, written, bindings_tokens((*items).deep_view(), (from + 1) as nat));
            written = written + bindings_tokens((*items).deep_view(), (from + 1) as nat);
        }
    }
}

/// Writes what `let_stmt_tokens` gives at the end of the tokens.
pub fn print_let_stmt(v: &LetStmt, out: &mut Vec<Token>)
    ensures
        token_views(final(out)@) == token_views(old(out)@) + let_stmt_tokens(v.deep_view()),
{
    let ghost start = token_views(out@);
    let ghost mut written: Seq<TokenView> = Seq::empty();
    print_binding_keyword(v.is_mutable, out);
    proof {
        written = binding_keyword_tokens(v.is_mutable);
    }
    print_let_target(&v.target, out);
    proof {
        lemma_written(start, written, let_target_tokens(v.target.deep_view()));
        written = written + let_target_tokens(v.target.deep_view());
    }
    emit(out, Token::Assign);
    proof {
        lemma_written(start, written, plain(TokenKind::Assign));
        written = written + plain(TokenKind::Assign);
    }
    print_expression(&v.value, out);
    proof {
        lemma_written(start, written, expression_tokens(v.value.deep_view()));
        written = written + expression_tokens(v.value.deep_view());
    }
    emit(out, Token::Semi);
    proof {
        lemma_written(start, written, plain(TokenKind::Semi));
        written = written + plain(TokenKind::Semi);
    }
}

/// Writes what `assign_tokens` gives at the end of the tokens.
pub fn print_assign(v: &AssignStmt, out: &mut Vec<Token>)
    ensures
        token_views(final(out)@) == token_views(old(out)@) + assign_tokens(v.deep_view()),
{
    let ghost start = token_views(out@);
    let ghost mut written: Seq<TokenView> = Seq::empty();
    print_path(&v.target, out);
    proof {
        written = path_tokens(v.target.deep_view());
    }
    emit(out, Token::Assign);
    proof {
        lemma_written(start, written, plain(TokenKind::Assign));
        written = written + plain(TokenKind::Assign);
    }
    print_expression(&v.value, out);
    proof {
        lemma_written(start, written, expression_tokens(v.value.deep_view()));
        written = written + expression_tokens(v.value.deep_view());
    }
    emit(out, Token::Semi);
    proof {
        lemma_written(start, written, plain(TokenKind::Semi));
        written = written + plain(TokenKind::Semi);
    }
}

/// Writes what `return_stmt_tokens` gives at the end of the tokens.
pub fn print_return_stmt(v: &Expression, out: &mut Vec<Token>)
    ensures
        token_views(final(out)@) == token_views(old(out)@) + return_stmt_tokens(v.deep_view()),
{
    let ghost start = token_views(out@);
    let ghost mut written: Seq<TokenView> = Seq::empty();
    emit(out, Token::Return);
    proof {
        written = plain(TokenKind::Return);
    }
    print_expression(v, out);
    proof {
        lemma_written(start, written, expression_tokens((*v).deep_view()));
        written = written + expression_tokens((*v).deep_view());
    }
    emit(out, Token::Semi);
    proof {
        lemma_written(start, written, plain(TokenKind::Semi));
        written = written + plain(TokenKind::Semi);
    }
}

/// Writes what `discard_tokens` gives at the end of the tokens.
pub fn print_discard(v: &Expression, out: &mut Vec<Token>)
    ensures
        token_views(final(out)@) == token_views(old(out)@) + discard_tokens(v.deep_view()),
{
    let ghost start = token_views(out@);
    let ghost mut written: Seq<TokenView> = Seq::empty();
    print_expression(v, out);
    proof {
        written = expression_tokens((*v).deep_view());
    }
    emit(out, Token::Semi);
    proof {
        lemma_written(start, written, plain(TokenKind::Semi));
        written = written + plain(TokenKind::Semi);
    }
}

/// Writes what `borrow_stmt_tokens` gives at the end of the tokens.
pub fn print_borrow_stmt(v: &BorrowStmt, out: &mut Vec<Token>)
    ensures
        token_views(final(out)@) == token_views(old(out)@) + borrow_stmt_tokens(v.deep_view()),
    decreases v, 0nat,
{
    let ghost start = token_views(out@);
    let ghost mut written: Seq<TokenView> = Seq::empty();
    emit(out, Token::Borrow);
    proof {
        written = plain(TokenKind::Borrow);
    }
    print_ident(&v.name, out);
    proof {
        lemma_written(start, written, ident_tokens(v.name.deep_view()));
        written = written + ident_tokens(v.name.deep_view());
    }
    emit(out, Token::Colon);
    proof {
        lemma_written(start, written, plain(TokenKind::Colon));
        written = written + plain(TokenKind::Colon);
    }
    print_borrow_mut_mode(&v.mut_mode, out);
    proof {
        lemma_written(start, written, borrow_mut_mode_tokens(v.mut_mode.deep_view()));
        written = written + borrow_mut_mode_tokens(v.mut_mode.deep_view());
    }
    emit(out, Token::LBracket);
    proof {
        lemma_written(start, written, plain(TokenKind::LBracket));
        written = written + plain(TokenKind::LBracket);
    }
    print_type_spec(&v.ty, out);
    proof {
        lemma_written(start, written, type_spec_tokens(v.ty.deep_view()));
        written = written + type_spec_tokens(v.ty.deep_view());
    }
    emit(out, Token::Comma);
    proof {
        lemma_written(start, written, plain(TokenKind::Comma));
        written = written + plain(TokenKind::Comma);
    }
    print_ident(&v.reg, out);
    proof {
        lemma_written(start, written, ident_tokens(v.reg.deep_view()));
        written = written + ident_tokens(v.reg.deep_view());
    }
    emit(out, Token::RBracket);
    proof {
        lemma_written(start, written, plain(TokenKind::RBracket));
        written = written + plain(TokenKind::RBracket);
    }
    emit(out, Token::Assign);
    proof {
        lemma_written(start, written, plain(TokenKind::Assign));
        written = written + plain(TokenKind::Assign);
    }
    print_borrow_mode(&v.mode, out);
    proof {
        lemma_written(start, written, borrow_mode_tokens(v.mode.deep_view()));
        written = written + borrow_mode_tokens(v.mode.deep_view());
    }
    print_ident(&v.orig, out);
    proof {
        lemma_written(start, written, ident_tokens(v.orig.deep_view()));
        written = written + ident_tokens(v.orig.deep_view());
    }
    emit(out, Token::Is);
    proof {
        lemma_written(start, written, plain(TokenKind::Is));
        written = written + plain(TokenKind::Is);
    }
    assert(v.deep_view().body =~= (v.body).deep_view());
    print_block(&v.body, 0, out);
    proof {
        lemma_written(start, written, block_tokens(v.body.deep_view(), (0) as nat));
        written = written + block_tokens(v.body.deep_view(), (0) as nat);
    }
    emit(out, Token::End);
    proof {
        lemma_written(start, written, plain(TokenKind::End));
        written = written + plain(TokenKind::End);
    }
}

/// Writes what `case_when_tokens` gives at the end of the tokens.
pub fn print_case_when(v: &CaseWhen, out: &mut Vec<Token>)
    ensures
        token_views(final(out)@) == token_views(old(out)@) + case_when_tokens(v.deep_view()),
    decreases v, 0nat,
{
    let ghost start = token_views(out@);
    let ghost mut written: Seq<TokenView> = Seq::empty();
    emit(out, Token::When);
    proof {
        written = plain(TokenKind::When);
    }
    print_ident(&v.ident, out);
    proof {
        lemma_written(start, written, ident_tokens(v.ident.deep_view()));
        written = written + ident_tokens(v.ident.deep_view());
    }
    assert(v.deep_view().bindings =~= (v.bindings).deep_view());
    print_bindings(&v.bindings, 0, out);
    proof {
        lemma_written(start, written, bindings_tokens(v.bindings.deep_view(), (0) as nat));
        written = written + bindings_tokens(v.bindings.deep_view(), (0) as nat);
    }
    emit(out, Token::Do);
    proof {
        lemma_written(start, written, plain(TokenKind::Do));
        written = written + plain(TokenKind::Do);
    }
    emit(out, Token::Is);
    proof {
        lemma_written(start, written, plain(TokenKind::Is));
        written = written + plain(TokenKind::Is);
    }
    assert(v.deep_view().block =~= (v.block).deep_view());
    print_block(&v.block, 0, out);
    proof {
        lemma_written(start, written, block_tokens(v.block.deep_view(), (0) as nat));
        written = written + block_tokens(v.block.deep_view(), (0) as nat);
    }
    emit(out, Token::End);
    proof {
        lemma_written(start, written, plain(TokenKind::End));
        written = written + plain(TokenKind::End);
    }
}

/// Writes what `whens_tokens` gives at the end of the tokens.
pub fn print_whens(items: &Vec<CaseWhen>, from: usize, out: &mut Vec<Token>)
    ensures
        token_views(final(out)@) == token_views(old(out)@) + whens_tokens(
            items.deep_view(),
            from as nat,
        ),
    decreases items, items.len() - from,
{
    let ghost start = token_views(out@);
    let ghost mut written: Seq<TokenView> = Seq::empty();
    if from >= items.len() {
        proof {
            lemma_nothing_written(start);
        }
    } else {
        assert(items.deep_view()[from as int] == items[from as int].deep_view());
        print_case_when(&items[from], out);
        proof {
            written = case_when_tokens(items[from as int].deep_view());
        }
        print_whens(items, from + 1, out);
        proof {
            lemma_written(start, written, whens_tokens((*items).deep_view(), (from + 1) as nat));
            written = written + whens_tokens((*items).deep_view(), (from + 1) as nat);
        }
    }
}

/// Writes what `case_stmt_tokens` gives at the end of the tokens.
pub fn print_case_stmt(v: &CaseStmt, out: &mut Vec<Token>)
    ensures
        token_views(final(out)@) == token_views(old(out)@) + case_stmt_tokens(v.deep_view()),
    decreases v, 0nat,
{
    let ghost start = token_views(out@);
    let ghost mut written: Seq<TokenView> = Seq::empty();
    emit(out, Token::Case);
    proof {
        written = plain(TokenKind::Case);
    }
    print_expression(&v.value, out);
    proof {
        lemma_written(start, written, expression_tokens(v.value.deep_view()));
        written = written + expression_tokens(v.value.deep_view());
    }
    emit(out, Token::Of);
    proof {
        lemma_written(start, written, plain(TokenKind::Of));
        written = written + plain(TokenKind::Of);
    }
    assert(v.deep_view().variants =~= (v.variants).deep_view());
    print_whens(&v.variants, 0, out);
    proof {
        lemma_written(start, written, whens_tokens(v.variants.deep_view(), (0) as nat));
        written = written + whens_tokens(v.variants.deep_view(), (0) as nat);
    }
    emit(out, Token::End);
    proof {
        lemma_written(start, written, plain(TokenKind::End));
        written = written + plain(TokenKind::End);
    }
    emit(out, Token::Case);
    proof {
        lemma_written(start, written, plain(TokenKind::Case));
        written = written + plain(TokenKind::Case);
    }
    emit(out, Token::Semi);
    proof {
        lemma_written(start, written, plain(TokenKind::Semi));
        written = written + plain(TokenKind::Semi);
    }
}

/// Writes what `for_stmt_tokens` gives at the end of the tokens.
pub fn print_for_stmt(v: &ForStmt, out: &mut Vec<Token>)
    ensures
        token_views(final(out)@) == token_views(old(out)@) + for_stmt_tokens(v.deep_view()),
    decreases v, 0nat,
{
    let ghost start = token_views(out@);
    let ghost mut written: Seq<TokenView> = Seq::empty();
    emit(out, Token::For);
    proof {
        written = plain(TokenKind::For);
    }
    print_ident(&v.name, out);
    proof {
        lemma_written(start, written, ident_tokens(v.name.deep_view()));
        written = written + ident_tokens(v.name.deep_view());
    }
    emit(out, Token::From);
    proof {
        lemma_written(start, written, plain(TokenKind::From));
        written = written + plain(TokenKind::From);
    }
    print_expression(&v.start, out);
    proof {
        lemma_written(start, written, expression_tokens(v.start.deep_view()));
        written = written + expression_tokens(v.start.deep_view());
    }
    emit(out, Token::To);
    proof {
        lemma_written(start, written, plain(TokenKind::To));
        written = written + plain(TokenKind::To);
    }
    print_expression(&v.end, out);
    proof {
        lemma_written(start, written, expression_tokens(v.end.deep_view()));
        written = written + expression_tokens(v.end.deep_view());
    }
    emit(out, Token::Do);
    proof {
        lemma_written(start, written, plain(TokenKind::Do));
        written = written + plain(TokenKind::Do);
    }
    emit(out, Token::Is);
    proof {
        lemma_written(start, written, plain(TokenKind::Is));
        written = written + plain(TokenKind::Is);
    }
    assert(v.deep_view().contents =~= (v.contents).deep_view());
    print_block(&v.contents, 0, out);
    proof {
        lemma_written(start, written, block_tokens(v.contents.deep_view(), (0) as nat));
        written = written + block_tokens(v.contents.deep_view(), (0) as nat);
    }
    emit(out, Token::End);
    proof {
        lemma_written(start, written, plain(TokenKind::End));
        written = written + plain(TokenKind::End);
    }
    emit(out, Token::For);
    proof {
        lemma_written(start, written, plain(TokenKind::For));
        written = written + plain(TokenKind::For);
    }
    emit(out, Token::Semi);
    proof {
        lemma_written(start, written, plain(TokenKind::Semi));
        written = written + plain(TokenKind::Semi);
    }
}

/// Writes what `while_stmt_tokens` gives at the end of the tokens.
pub fn print_while_stmt(v: &WhileStmt, out: &mut Vec<Token>)
    ensures
        token_views(final(out)@) == token_views(old(out)@) + while_stmt_tokens(v.deep_view()),
    decreases v, 0nat,
{
    let ghost start = token_views(out@);
    let ghost mut written: Seq<TokenView> = Seq::empty();
    emit(out, Token::While);
    proof {
        written = plain(TokenKind::While);
    }
    print_expression(&v.value, out);
    proof {
        lemma_written(start, written, expression_tokens(v.value.deep_view()));
        written = written + expression_tokens(v.value.deep_view());
    }
    emit(out, Token::Do);
    proof {
        lemma_written(start, written, plain(TokenKind::Do));
        written = written + plain(TokenKind::Do);
    }
    emit(out, Token::Is);
    proof {
        lemma_written(start, written, plain(TokenKind::Is));
        written = written + plain(TokenKind::Is);
    }
    assert(v.deep_view().contents =~= (v.contents).deep_view());
    print_block(&v.contents, 0, out);
    proof {
        lemma_written(start, written, block_tokens(v.contents.deep_view(), (0) as nat));
        written = written + block_tokens(v.contents.deep_view(), (0) as nat);
    }
    emit(out, Token::End);
    proof {
        lemma_written(start, written, plain(TokenKind::End));
        written = written + plain(TokenKind::End);
    }
    emit(out, Token::While);
    proof {
        lemma_written(start, written, plain(TokenKind::While));
        written = written + plain(TokenKind::While);
    }
    emit(out, Token::Semi);
    proof {
        lemma_written(start, written, plain(TokenKind::Semi));
        written = written + plain(TokenKind::Semi);
    }
}

/// Writes what `if_stmt_tokens` gives at the end of the tokens.
pub fn print_if_stmt(v: &IfStmt, out: &mut Vec<Token>)
    ensures
        token_views(final(out)@) == token_views(old(out)@) + if_stmt_tokens(v.deep_view()),
    decreases v, 0nat,
{
    let ghost start = token_views(out@);
    let ghost mut written: Seq<TokenView> = Seq::empty();
    emit(out, Token::If);
    proof {
        written = plain(TokenKind::If);
    }
    print_expression(&v.value, out);
    proof {
        lemma_written(start, written, expression_tokens(v.value.deep_view()));
        written = written + expression_tokens(v.value.deep_view());
    }
    emit(out, Token::Then);
    proof {
        lemma_written(start, written, plain(TokenKind::Then));
        written = written + plain(TokenKind::Then);
    }
    emit(out, Token::Is);
    proof {
        lemma_written(start, written, plain(TokenKind::Is));
        written = written + plain(TokenKind::Is);
    }
    assert(v.deep_view().contents =~= (v.contents).deep_view());
    print_block(&v.contents, 0, out);
    proof {
        lemma_written(start, written, block_tokens(v.contents.deep_view(), (0) as nat));
        written = written + block_tokens(v.contents.deep_view(), (0) as nat);
    }
    emit(out, Token::End);
    proof {
        lemma_written(start, written, plain(TokenKind::End));
        written = written + plain(TokenKind::End);
    }
    proof {
        match &v.otherwise {
            Some(stmts) => assert(v.deep_view().otherwise->Some_0 =~= stmts.deep_view()),
            None => {},
        }
    }
    print_else_branch(&v.otherwise, out);
    proof {
        lemma_written(start, written, else_branch_tokens(v.otherwise.deep_view()));
        written = written + else_branch_tokens(v.otherwise.deep_view());
    }
    emit(out, Token::If);
    proof {
        lemma_written(start, written, plain(TokenKind::If));
        written = written + plain(TokenKind::If);
    }
    emit(out, Token::Semi);
    proof {
        lemma_written(start, written, plain(TokenKind::Semi));
        written = written + plain(TokenKind::Semi);
    }
}

/// Writes what `statement_tokens` gives at the end of the tokens.
pub fn print_statement(v: &Statement, out: &mut Vec<Token>)
    ensures
        token_views(final(out)@) == token_views(old(out)@) + statement_tokens(v.deep_view()),
    decreases v, 0nat,
{
    let ghost start = token_views(out@);
    match v {
        Statement::Assign(s) => {
            print_assign(s, out);
        },
        Statement::Borrow(s) => {
            print_borrow_stmt(s, out);
        },
        Statement::Case(s) => {
            print_case_stmt(s, out);
        },
        Statement::Discard(e) => {
            print_discard(e, out);
        },
        Statement::For(s) => {
            print_for_stmt(s, out);
        },
        Statement::If(s) => {
            print_if_stmt(s, out);
        },
        Statement::Let(s) => {
            print_let_stmt(s, out);
        },
        Statement::Return(e) => {
            print_return_stmt(e, out);
        },
        Statement::While(s) => {
            print_while_stmt(s, out);
        },
    }
}

/// Writes what `block_tokens` gives at the end of the tokens.
pub fn print_block(items: &Vec<Statement>, from: usize, out: &mut Vec<Token>)
    ensures
        token_views(final(out)@) == token_views(old(out)@) + block_tokens(
            items.deep_view(),
            from as nat,
        ),
    decreases items, items.len() - from,
{
    let ghost start = token_views(out@);
    let ghost mut written: Seq<TokenView> = Seq::empty();
    if from >= items.len() {
        proof {
            lemma_nothing_written(start);
        }
    } else {
        assert(items.deep_view()[from as int] == items[from as int].deep_view());
        print_statement(&items[from], out);
        proof {
            written = statement_tokens(items[from as int].deep_view());
        }
        print_block(items, from + 1, out);
        proof {
            lemma_written(start, written, block_tokens((*items).deep_view(), (from + 1) as nat));
            written = written + block_tokens((*items).deep_view(), (from + 1) as nat);
        }
    }
}

/// Writes what `typeclass_decl_tokens` gives at the end of the tokens.
pub fn print_typeclass_decl(v: &TypeClassBase<MethodDecl>, out: &mut Vec<Token>)
    ensures
        token_views(final(out)@) == token_views(old(out)@) + typeclass_decl_tokens(v.deep_view()),
{
    let ghost start = token_views(out@);
    let ghost mut written: Seq<TokenView> = Seq::empty();
    print_opt_doc_string(&v.doc_string, out);
    proof {
        written = opt_doc_string_tokens(v.doc_string.deep_view());
    }
    assert(v.deep_view().pragmas =~= (v.pragmas).deep_view());
    print_pragmas(&v.pragmas, 0, out);
    proof {
        lemma_written(start, written, pragmas_tokens(v.pragmas.deep_view(), (0) as nat));
        written = written + pragmas_tokens(v.pragmas.deep_view(), (0) as nat);
    }
    emit(out, Token::TypeClass);
    proof {
        lemma_written(start, written, plain(TokenKind::TypeClass));
        written = written + plain(TokenKind::TypeClass);
    }
    print_ident(&v.name, out);
    proof {
        lemma_written(start, written, ident_tokens(v.name.deep_view()));
        written = written + ident_tokens(v.name.deep_view());
    }
    emit(out, Token::LParen);
    proof {
        lemma_written(start, written, plain(TokenKind::LParen));
        written = written + plain(TokenKind::LParen);
    }
    print_type_param(&v.type_param, out);
    proof {
        lemma_written(start, written, type_param_tokens(v.type_param.deep_view()));
        written = written + type_param_tokens(v.type_param.deep_view());
    }
    emit(out, Token::RParen);
    proof {
        lemma_written(start, written, plain(TokenKind::RParen));
        written = written + plain(TokenKind::RParen);
    }
    emit(out, Token::Is);
    proof {
        lemma_written(start, written, plain(TokenKind::Is));
        written = written + plain(TokenKind::Is);
    }
    assert(v.deep_view().methods =~= (v.methods).deep_view());
    print_method_decls(&v.methods, 0, out);
    proof {
        lemma_written(start, written, method_decls_tokens(v.methods.deep_view(), (0) as nat));
        written = written + method_decls_tokens(v.methods.deep_view(), (0) as nat);
    }
    emit(out, Token::End);
    proof {
        lemma_written(start, written, plain(TokenKind::End));
        written = written + plain(TokenKind::End);
    }
    emit(out, Token::Semi);
    proof {
        lemma_written(start, written, plain(TokenKind::Semi));
        written = written + plain(TokenKind::Semi);
    }
}

/// Writes what `typeclass_def_tokens` gives at the end of the tokens.
pub fn print_typeclass_def(v: &TypeClassBase<MethodDef>, out: &mut Vec<Token>)
    ensures
        token_views(final(out)@) == token_views(old(out)@) + typeclass_def_tokens(v.deep_view()),
{
    let ghost start = token_views(out@);
    let ghost mut written: Seq<TokenView> = Seq::empty();
    print_opt_doc_string(&v.doc_string, out);
    proof {
        written = opt_doc_string_tokens(v.doc_string.deep_view());
    }
    assert(v.deep_view().pragmas =~= (v.pragmas).deep_view());
    print_pragmas(&v.pragmas, 0, out);
    proof {
        lemma_written(start, written, pragmas_tokens(v.pragmas.deep_view(), (0) as nat));
        written = written + pragmas_tokens(v.pragmas.deep_view(), (0) as nat);
    }
    emit(out, Token::TypeClass);
    proof {
        lemma_written(start, written, plain(TokenKind::TypeClass));
        written = written + plain(TokenKind::TypeClass);
    }
    print_ident(&v.name, out);
    proof {
        lemma_written(start, written, ident_tokens(v.name.deep_view()));
        written = written + ident_tokens(v.name.deep_view());
    }
    emit(out, Token::LParen);
    proof {
        lemma_written(start, written, plain(TokenKind::LParen));
        written = written + plain(TokenKind::LParen);
    }
    print_type_param(&v.type_param, out);
    proof {
        lemma_written(start, written, type_param_tokens(v.type_param.deep_view()));
        written = written + type_param_tokens(v.type_param.deep_view());
    }
    emit(out, Token::RParen);
    proof {
        lemma_written(start, written, plain(TokenKind::RParen));
        written = written + plain(TokenKind::RParen);
    }
    emit(out, Token::Is);
    proof {
        lemma_written(start, written, plain(TokenKind::Is));
        written = written + plain(TokenKind::Is);
    }
    assert(v.deep_view().methods =~= (v.methods).deep_view());
    print_method_defs(&v.methods, 0, out);
    proof {
        lemma_written(start, written, method_defs_tokens(v.methods.deep_view(), (0) as nat));
        written = written + method_defs_tokens(v.methods.deep_view(), (0) as nat);
    }
    emit(out, Token::End);
    proof {
        lemma_written(start, written, plain(TokenKind::End));
        written = written + plain(TokenKind::End);
    }
    emit(out, Token::Semi);
    proof {
        lemma_written(start, written, plain(TokenKind::Semi));
        written = written + plain(TokenKind::Semi);
    }
}

/// Writes what `type_specs_tokens` gives at the end of the tokens.
pub fn print_type_specs(items: &Vec<TypeSpec>, from: usize, out: &mut Vec<Token>)
    ensures
        token_views(final(out)@) == token_views(old(out)@) + type_specs_tokens(
            items.deep_view(),
            from as nat,
        ),
    decreases items, items.len() - from,
{
    let ghost start = token_views(out@);
    let ghost mut written: Seq<TokenView> = Seq::empty();
    if from >= items.len() {
        proof {
            lemma_nothing_written(start);
        }
    } else if from + 1 == items.len() {
        assert(items.deep_view()[from as int] == items[from as int].deep_view());
        print_type_spec(&items[from], out);
    } else {
        assert(items.deep_view()[from as int] == items[from as int].deep_view());
        print_type_spec(&items[from], out);
        proof {
            written = type_spec_tokens(items[from as int].deep_view());
        }
        emit(out, Token::Comma);
        proof {
            lemma_written(start, written, plain(TokenKind::Comma));
            written = written + plain(TokenKind::Comma);
        }
        print_type_specs(items, from + 1, out);
        proof {
            lemma_written(
                start,
                written,
                type_specs_tokens((*items).deep_view(), (from + 1) as nat),
            );
            written = written + type_specs_tokens((*items).deep_view(), (from + 1) as nat);
        }
    }
}

/// Writes what `type_decl_tokens` gives at the end of the tokens.
pub fn print_type_decl(v: &TypeDecl, out: &mut Vec<Token>)
    ensures
        token_views(final(out)@) == token_views(old(out)@) + type_decl_tokens(v.deep_view()),
{
    let ghost start = token_views(out@);
    let ghost mut written: Seq<TokenView> = Seq::empty();
    print_opt_doc_string(&v.doc_string, out);
    proof {
        written = opt_doc_string_tokens(v.doc_string.deep_view());
    }
    assert(v.deep_view().pragmas =~= (v.pragmas).deep_view());
    print_pragmas(&v.pragmas, 0, out);
    proof {
        lemma_written(start, written, pragmas_tokens(v.pragmas.deep_view(), (0) as nat));
        written = written + pragmas_tokens(v.pragmas.deep_view(), (0) as nat);
    }
    emit(out, Token::Type);
    proof {
        lemma_written(start, written, plain(TokenKind::Type));
        written = written + plain(TokenKind::Type);
    }
    print_ident(&v.name, out);
    proof {
        lemma_written(start, written, ident_tokens(v.name.deep_view()));
        written = written + ident_tokens(v.name.deep_view());
    }
    emit(out, Token::Colon);
    proof {
        lemma_written(start, written, plain(TokenKind::Colon));
        written = written + plain(TokenKind::Colon);
    }
    print_universe(&v.universe, out);
    proof {
        lemma_written(start, written, universe_tokens(v.universe.deep_view()));
        written = written + universe_tokens(v.universe.deep_view());
    }
    emit(out, Token::Semi);
    proof {
        lemma_written(start, written, plain(TokenKind::Semi));
        written = written + plain(TokenKind::Semi);
    }
}

/// Writes what `case_fields_tokens` gives at the end of the tokens.
pub fn print_case_fields(v: &Vec<Slot>, out: &mut Vec<Token>)
    ensures
        token_views(final(out)@) == token_views(old(out)@) + case_fields_tokens(v.deep_view()),
{
    let ghost start = token_views(out@);
    let ghost mut written: Seq<TokenView> = Seq::empty();
    if v.len() == 0 {
        proof {
            lemma_nothing_written(start);
        }
    } else {
        emit(out, Token::Is);
        proof {
            written = plain(TokenKind::Is);
        }
        assert(v.deep_view() =~= (*v).deep_view());
        print_slots(v, 0, out);
        proof {
            lemma_written(start, written, slots_tokens((*v).deep_view(), (0) as nat));
            written = written + slots_tokens((*v).deep_view(), (0) as nat);
        }
    }
}

/// Writes what `case_tokens` gives at the end of the tokens.
pub fn print_case(v: &Case, out: &mut Vec<Token>)
    ensures
        token_views(final(out)@) == token_views(old(out)@) + case_tokens(v.deep_view()),
{
    let ghost start = token_views(out@);
    let ghost mut written: Seq<TokenView> = Seq::empty();
    print_opt_doc_string(&v.doc_string, out);
    proof {
        written = opt_doc_string_tokens(v.doc_string.deep_view());
    }
    emit(out, Token::Case);
    proof {
        lemma_written(start, written, plain(TokenKind::Case));
        written = written + plain(TokenKind::Case);
    }
    print_ident(&v.name, out);
    proof {
        lemma_written(start, written, ident_tokens(v.name.deep_view()));
        written = written + ident_tokens(v.name.deep_view());
    }
    print_case_fields(&v.fields, out);
    proof {
        lemma_written(start, written, case_fields_tokens(v.fields.deep_view()));
        written = written + case_fields_tokens(v.fields.deep_view());
    }
    emit(out, Token::Semi);
    proof {
        lemma_written(start, written, plain(TokenKind::Semi));
        written = written + plain(TokenKind::Semi);
    }
}

/// Writes what `cases_tokens` gives at the end of the tokens.
pub fn print_cases(items: &Vec<Case>, from: usize, out: &mut Vec<Token>)
    ensures
        token_views(final(out)@) == token_views(old(out)@) + cases_tokens(
            items.deep_view(),
            from as nat,
        ),
    decreases items, items.len() - from,
{
    let ghost start = token_views(out@);
    let ghost mut written: Seq<TokenView> = Seq::empty();
    if from >= items.len() {
        proof {
            lemma_nothing_written(start);
        }
    } else {
        assert(items.deep_view()[from as int] == items[from as int].deep_view());
        print_case(&items[from], out);
        proof {
            written = case_tokens(items[from as int].deep_view());
        }
        print_cases(items, from + 1, out);
        proof {
            lemma_written(start, written, cases_tokens((*items).deep_view(), (from + 1) as nat));
            written = written + cases_tokens((*items).deep_view(), (from + 1) as nat);
        }
    }
}

/// Writes what `union_tokens` gives at the end of the tokens.
pub fn print_union(v: &UnionDecl, out: &mut Vec<Token>)
    ensures
        token_views(final(out)@) == token_views(old(out)@) + union_tokens(v.deep_view()),
{
    let ghost start = token_views(out@);
    let ghost mut written: Seq<TokenView> = Seq::empty();
    print_opt_doc_string(&v.doc_string, out);
    proof {
        written = opt_doc_string_tokens(v.doc_string.deep_view());
    }
    assert(v.deep_view().pragmas =~= (v.pragmas).deep_view());
    print_pragmas(&v.pragmas, 0, out);
    proof {
        lemma_written(start, written, pragmas_tokens(v.pragmas.deep_view(), (0) as nat));
        written = written + pragmas_tokens(v.pragmas.deep_view(), (0) as nat);
    }
    emit(out, Token::Union);
    proof {
        lemma_written(start, written, plain(TokenKind::Union));
        written = written + plain(TokenKind::Union);
    }
    print_ident(&v.name, out);
    proof {
        lemma_written(start, written, ident_tokens(v.name.deep_view()));
        written = written + ident_tokens(v.name.deep_view());
    }
    print_bracketed_type_params(&v.type_params, out);
    proof {
        lemma_written(start, written, bracketed_type_params_tokens(v.type_params.deep_view()));
        written = written + bracketed_type_params_tokens(v.type_params.deep_view());
    }
    emit(out, Token::Is);
    proof {
        lemma_written(start, written, plain(TokenKind::Is));
        written = written + plain(TokenKind::Is);
    }
    assert(v.deep_view().cases =~= (v.cases).deep_view());
    print_cases(&v.cases, 0, out);
    proof {
        lemma_written(start, written, cases_tokens(v.cases.deep_view(), (0) as nat));
        written = written + cases_tokens(v.cases.deep_view(), (0) as nat);
    }
    emit(out, Token::End);
    proof {
        lemma_written(start, written, plain(TokenKind::End));
        written = written + plain(TokenKind::End);
    }
    emit(out, Token::Semi);
    proof {
        lemma_written(start, written, plain(TokenKind::Semi));
        written = written + plain(TokenKind::Semi);
    }
}

} // verus!
