//! Modules: an interface holds declarations, a body holds definitions.

use crate::ast::common::{
    DocString, generic_clause_at, Ident, ident_at, ident_tokens, lemma_ident_spelled,
    lemma_opt_doc_string_spelled, opt_doc_string_at, opt_doc_string_tokens,
    parse_generic_clause, parse_ident, parse_opt_doc_string, parse_pragmas, pragmas_at,
};
use crate::ast::constants::{
    constant_decl_at, constant_decl_tokens, constant_def_at, constant_def_tokens, ConstantDecl,
    ConstantDeclView, ConstantDef, ConstantDefView, lemma_constant_decl_spelled,
    lemma_constant_def_spelled, parse_constant_decl, parse_constant_def,
};
use crate::ast::functions::{
    function_decl_at, function_decl_tokens, function_def_at, function_def_tokens, FunctionDecl,
    FunctionDeclView, FunctionDef, FunctionDefView, lemma_function_decl_spelled,
    lemma_function_def_spelled, MethodDecl, MethodDeclView, MethodDef, MethodDefView,
    parse_function_decl, parse_function_def,
};
use crate::ast::grammar::{
    closing, complete, expect, fail, kind_at, later, lemma_spelled_nothing, lemma_spelled_then,
    lemma_spelled_token, Listed, listed, missing, Parsed, parsed, parsed_whole, ParseError,
    ParseFailure, peek, plain, spelled, unexpected, views, whole,
};
use crate::ast::imports::{
    imports_at, imports_tokens, ImportStmt, ImportStmtView, lemma_imports_spelled,
    parse_imports,
};
use crate::ast::instances::{
    instance_decl_at, instance_decl_tokens, instance_def_at, instance_def_tokens, InstanceBase,
    InstanceBaseView, lemma_instance_decl_spelled, lemma_instance_def_spelled,
    parse_instance_decl, parse_instance_def,
};
use crate::ast::records::{
    lemma_record_spelled, parse_record, record_at, record_tokens, RecordDecl, RecordDeclView,
};
use crate::ast::type_classes::{
    lemma_typeclass_decl_spelled, lemma_typeclass_def_spelled, parse_typeclass_decl,
    parse_typeclass_def, typeclass_decl_at, typeclass_decl_tokens, typeclass_def_at,
    typeclass_def_tokens, TypeClassBase, TypeClassBaseView,
};
use crate::ast::types::{
    lemma_type_decl_spelled, parse_type_decl, type_decl_at, type_decl_tokens, TypeDecl,
    TypeDeclView,
};
use crate::ast::unions::{
    lemma_union_spelled, parse_union, union_at, union_tokens, UnionDecl, UnionDeclView,
};
use crate::lexer::{Token, TokenKind, TokenView};
use vstd::prelude::*;

verus! {

/// An interface: a module of declarations.
pub type ModuleDecl = ModuleBase<ModuleDeclItem>;

/// A body: a module of definitions.
pub type ModuleDef = ModuleBase<ModuleDefItem>;

/// A module: an interface or a body.
#[derive(Debug, PartialEq)]
pub enum Module {
    Decl(ModuleBase<ModuleDeclItem>),
    Def(ModuleBase<ModuleDefItem>),
}

/// A value of `Module` as plain data.
pub enum ModuleView {
    Decl(ModuleBaseView<ModuleDeclItemView>),
    Def(ModuleBaseView<ModuleDefItemView>),
}

impl DeepView for Module {
    type V = ModuleView;

    open spec fn deep_view(&self) -> ModuleView {
        match self {
            Module::Decl(x0) => ModuleView::Decl(x0.deep_view()),
            Module::Def(x0) => ModuleView::Def(x0.deep_view()),
        }
    }
}

/// What an interface and a body have in common: a docstring, imports, a name and items.
#[derive(Debug, PartialEq)]
pub struct ModuleBase<TModuleItem> {
    pub doc_string: Option<DocString>,
    pub imports: Vec<ImportStmt>,
    pub name: Ident,
    pub contents: Vec<TModuleItem>,
}

/// A value of `ModuleBase` as plain data.
pub struct ModuleBaseView<M> {
    pub doc_string: Option<Seq<char>>,
    pub imports: Seq<ImportStmtView>,
    pub name: Seq<char>,
    pub contents: Seq<M>,
}

impl<TModuleItem: DeepView> DeepView for ModuleBase<TModuleItem> {
    type V = ModuleBaseView<TModuleItem::V>;

    open spec fn deep_view(&self) -> ModuleBaseView<TModuleItem::V> {
        ModuleBaseView {
            doc_string: self.doc_string.deep_view(),
            imports: self.imports.deep_view(),
            name: self.name.deep_view(),
            contents: self.contents.deep_view(),
        }
    }
}

/// An item of a module interface.
#[derive(Debug, PartialEq)]
pub enum ModuleDeclItem {
    Constant(ConstantDecl),
    Function(FunctionDecl),
    Instance(InstanceBase<MethodDecl>),
    Record(RecordDecl),
    Type(TypeDecl),
    TypeClass(TypeClassBase<MethodDecl>),
    Union(UnionDecl),
}

/// A value of `ModuleDeclItem` as plain data.
pub enum ModuleDeclItemView {
    Constant(ConstantDeclView),
    Function(FunctionDeclView),
    Instance(InstanceBaseView<MethodDeclView>),
    Record(RecordDeclView),
    Type(TypeDeclView),
    TypeClass(TypeClassBaseView<MethodDeclView>),
    Union(UnionDeclView),
}

impl DeepView for ModuleDeclItem {
    type V = ModuleDeclItemView;

    open spec fn deep_view(&self) -> ModuleDeclItemView {
        match self {
            ModuleDeclItem::Constant(x0) => ModuleDeclItemView::Constant(x0.deep_view()),
            ModuleDeclItem::Function(x0) => ModuleDeclItemView::Function(x0.deep_view()),
            ModuleDeclItem::Instance(x0) => ModuleDeclItemView::Instance(x0.deep_view()),
            ModuleDeclItem::Record(x0) => ModuleDeclItemView::Record(x0.deep_view()),
            ModuleDeclItem::Type(x0) => ModuleDeclItemView::Type(x0.deep_view()),
            ModuleDeclItem::TypeClass(x0) => ModuleDeclItemView::TypeClass(x0.deep_view()),
            ModuleDeclItem::Union(x0) => ModuleDeclItemView::Union(x0.deep_view()),
        }
    }
}

/// An item of a module body.
#[derive(Debug, PartialEq)]
pub enum ModuleDefItem {
    Constant(ConstantDef),
    Function(FunctionDef),
    Instance(InstanceBase<MethodDef>),
    Record(RecordDecl),
    Type(TypeDecl),
    TypeClass(TypeClassBase<MethodDef>),
    Union(UnionDecl),
}

/// A value of `ModuleDefItem` as plain data.
pub enum ModuleDefItemView {
    Constant(ConstantDefView),
    Function(FunctionDefView),
    Instance(InstanceBaseView<MethodDefView>),
    Record(RecordDeclView),
    Type(TypeDeclView),
    TypeClass(TypeClassBaseView<MethodDefView>),
    Union(UnionDeclView),
}

impl DeepView for ModuleDefItem {
    type V = ModuleDefItemView;

    open spec fn deep_view(&self) -> ModuleDefItemView {
        match self {
            ModuleDefItem::Constant(x0) => ModuleDefItemView::Constant(x0.deep_view()),
            ModuleDefItem::Function(x0) => ModuleDefItemView::Function(x0.deep_view()),
            ModuleDefItem::Instance(x0) => ModuleDefItemView::Instance(x0.deep_view()),
            ModuleDefItem::Record(x0) => ModuleDefItemView::Record(x0.deep_view()),
            ModuleDefItem::Type(x0) => ModuleDefItemView::Type(x0.deep_view()),
            ModuleDefItem::TypeClass(x0) => ModuleDefItemView::TypeClass(x0.deep_view()),
            ModuleDefItem::Union(x0) => ModuleDefItemView::Union(x0.deep_view()),
        }
    }
}

    /// The keywords that say which item of a module a declaration is.
    pub open spec fn item_keywords() -> Seq<TokenKind> {
        seq![
            TokenKind::Constant,
            TokenKind::Function,
            TokenKind::Instance,
            TokenKind::Record,
            TokenKind::Type,
            TokenKind::TypeClass,
            TokenKind::Union,
        ]
    }

    /// The keywords that say which item of a module a declaration is.
    pub fn item_keywords_list() -> (kinds: Vec<TokenKind>)
        ensures
            kinds@ == item_keywords(),
    {
        let mut kinds: Vec<TokenKind> = Vec::new();
        kinds.push(TokenKind::Constant);
        kinds.push(TokenKind::Function);
        kinds.push(TokenKind::Instance);
        kinds.push(TokenKind::Record);
        kinds.push(TokenKind::Type);
        kinds.push(TokenKind::TypeClass);
        kinds.push(TokenKind::Union);
        assert(kinds@ =~= item_keywords());
        kinds
    }

/// The keyword of the item that starts at `pos`: the kind of the token after
/// the item's docstring, pragmas and type parameters, and how many tokens
/// those take.
#[verifier::opaque]
pub open spec fn item_keyword_at(ts: Seq<Token>, pos: int) -> Parsed<TokenKind> {
    let (doc_string, n0) = opt_doc_string_at(ts, pos);
    let pragmas = pragmas_at(ts, pos + n0, Seq::empty());
    match generic_clause_at(ts, pos + n0 + pragmas.taken) {
        Err(f) => Err(f),
        Ok((type_params, n1)) => Ok(
            (kind_at(ts, pos + n0 + pragmas.taken + n1), n0 + pragmas.taken + n1),
        ),
    }
}

/// Parses by the rule `item_keyword_at` at a position: the value and the
/// position after it, or the failure.
pub fn parse_item_keyword(ts: &[Token], pos: usize) -> (r: Result<(TokenKind, usize), ParseError>)
    requires
        pos <= ts.len(),
    ensures
        parsed(r, pos, ts.len(), item_keyword_at(ts@, pos as int)),
{
    proof {
        reveal(item_keyword_at);
    }
    let (_, p0) = parse_opt_doc_string(ts, pos);
    let (_, p1, _) = parse_pragmas(ts, p0);
    let (_, p2) = parse_generic_clause(ts, p1)?;
    Ok((peek(ts, p2), p2))
}

/// The rule of the items of a module interface. The keyword after the docstring, the pragmas and the type parameters says which item it is.
#[verifier::opaque]
pub open spec fn decl_item_at(ts: Seq<Token>, pos: int) -> Parsed<ModuleDeclItemView> {
    match item_keyword_at(ts, pos) {
        Err(f) => Err(f),
        Ok((keyword, n)) => match keyword {
            TokenKind::Constant => match constant_decl_at(ts, pos) {
                Ok((item, m)) => Ok((ModuleDeclItemView::Constant(item), m)),
                Err(f) => Err(f),
            },
            TokenKind::Function => match function_decl_at(ts, pos) {
                Ok((item, m)) => Ok((ModuleDeclItemView::Function(item), m)),
                Err(f) => Err(f),
            },
            TokenKind::Instance => match instance_decl_at(ts, pos) {
                Ok((item, m)) => Ok((ModuleDeclItemView::Instance(item), m)),
                Err(f) => Err(f),
            },
            TokenKind::Record => match record_at(ts, pos) {
                Ok((item, m)) => Ok((ModuleDeclItemView::Record(item), m)),
                Err(f) => Err(f),
            },
            TokenKind::Type => match type_decl_at(ts, pos) {
                Ok((item, m)) => Ok((ModuleDeclItemView::Type(item), m)),
                Err(f) => Err(f),
            },
            TokenKind::TypeClass => match typeclass_decl_at(ts, pos) {
                Ok((item, m)) => Ok((ModuleDeclItemView::TypeClass(item), m)),
                Err(f) => Err(f),
            },
            TokenKind::Union => match union_at(ts, pos) {
                Ok((item, m)) => Ok((ModuleDeclItemView::Union(item), m)),
                Err(f) => Err(f),
            },
            _ => fail(pos + n, item_keywords()),
        },
    }
}

/// Parses by the rule `decl_item_at` at a position: the value and the position
/// after it, or the failure.
pub fn parse_decl_item(ts: &[Token], pos: usize) -> (r: Result<(ModuleDeclItem, usize), ParseError>)
    requires
        pos <= ts.len(),
    ensures
        parsed(r, pos, ts.len(), decl_item_at(ts@, pos as int)),
        r is Ok ==> r->Ok_0.1 > pos,
{
    proof {
        reveal(decl_item_at);
    }
    let (keyword, p) = parse_item_keyword(ts, pos)?;
    match keyword {
        TokenKind::Constant => {
            let (item, q) = parse_constant_decl(ts, pos)?;
            Ok((ModuleDeclItem::Constant(item), q))
        },
        TokenKind::Function => {
            let (item, q) = parse_function_decl(ts, pos)?;
            Ok((ModuleDeclItem::Function(item), q))
        },
        TokenKind::Instance => {
            let (item, q) = parse_instance_decl(ts, pos)?;
            Ok((ModuleDeclItem::Instance(item), q))
        },
        TokenKind::Record => {
            let (item, q) = parse_record(ts, pos)?;
            Ok((ModuleDeclItem::Record(item), q))
        },
        TokenKind::Type => {
            let (item, q) = parse_type_decl(ts, pos)?;
            Ok((ModuleDeclItem::Type(item), q))
        },
        TokenKind::TypeClass => {
            let (item, q) = parse_typeclass_decl(ts, pos)?;
            Ok((ModuleDeclItem::TypeClass(item), q))
        },
        TokenKind::Union => {
            let (item, q) = parse_union(ts, pos)?;
            Ok((ModuleDeclItem::Union(item), q))
        },
        _ => Err(unexpected(p, item_keywords_list())),
    }
}

/// An item of a module as tokens.
pub open spec fn decl_item_tokens(v: ModuleDeclItemView) -> Seq<TokenView> {
    match v {
        ModuleDeclItemView::Constant(item) => constant_decl_tokens(item),
        ModuleDeclItemView::Function(item) => function_decl_tokens(item),
        ModuleDeclItemView::Instance(item) => instance_decl_tokens(item),
        ModuleDeclItemView::Record(item) => record_tokens(item),
        ModuleDeclItemView::Type(item) => type_decl_tokens(item),
        ModuleDeclItemView::TypeClass(item) => typeclass_decl_tokens(item),
        ModuleDeclItemView::Union(item) => union_tokens(item),
    }
}

/// What the rule `decl_item_at` read prints as the tokens that it read.
pub proof fn lemma_decl_item_spelled(ts: Seq<Token>, pos: int)
    requires
        0 <= pos <= ts.len(),
        decl_item_at(ts, pos) is Ok,
    ensures
        spelled(
            ts,
            pos,
            decl_item_at(ts, pos)->Ok_0.1,
            decl_item_tokens(decl_item_at(ts, pos)->Ok_0.0),
        ),
{
    reveal(decl_item_at);
    match item_keyword_at(ts, pos)->Ok_0.0 {
        TokenKind::Constant => {
            lemma_constant_decl_spelled(ts, pos);
        },
        TokenKind::Function => {
            lemma_function_decl_spelled(ts, pos);
        },
        TokenKind::Instance => {
            lemma_instance_decl_spelled(ts, pos);
        },
        TokenKind::Record => {
            lemma_record_spelled(ts, pos);
        },
        TokenKind::Type => {
            lemma_type_decl_spelled(ts, pos);
        },
        TokenKind::TypeClass => {
            lemma_typeclass_decl_spelled(ts, pos);
        },
        TokenKind::Union => {
            lemma_union_spelled(ts, pos);
        },
        _ => {},
    }
}

/// The rule of the items of a module body. The keyword after the docstring, the pragmas and the type parameters says which item it is.
#[verifier::opaque]
pub open spec fn def_item_at(ts: Seq<Token>, pos: int) -> Parsed<ModuleDefItemView> {
    match item_keyword_at(ts, pos) {
        Err(f) => Err(f),
        Ok((keyword, n)) => match keyword {
            TokenKind::Constant => match constant_def_at(ts, pos) {
                Ok((item, m)) => Ok((ModuleDefItemView::Constant(item), m)),
                Err(f) => Err(f),
            },
            TokenKind::Function => match function_def_at(ts, pos) {
                Ok((item, m)) => Ok((ModuleDefItemView::Function(item), m)),
                Err(f) => Err(f),
            },
            TokenKind::Instance => match instance_def_at(ts, pos) {
                Ok((item, m)) => Ok((ModuleDefItemView::Instance(item), m)),
                Err(f) => Err(f),
            },
            TokenKind::Record => match record_at(ts, pos) {
                Ok((item, m)) => Ok((ModuleDefItemView::Record(item), m)),
                Err(f) => Err(f),
            },
            TokenKind::Type => match type_decl_at(ts, pos) {
                Ok((item, m)) => Ok((ModuleDefItemView::Type(item), m)),
                Err(f) => Err(f),
            },
            TokenKind::TypeClass => match typeclass_def_at(ts, pos) {
                Ok((item, m)) => Ok((ModuleDefItemView::TypeClass(item), m)),
                Err(f) => Err(f),
            },
            TokenKind::Union => match union_at(ts, pos) {
                Ok((item, m)) => Ok((ModuleDefItemView::Union(item), m)),
                Err(f) => Err(f),
            },
            _ => fail(pos + n, item_keywords()),
        },
    }
}

/// Parses by the rule `def_item_at` at a position: the value and the position
/// after it, or the failure.
pub fn parse_def_item(ts: &[Token], pos: usize) -> (r: Result<(ModuleDefItem, usize), ParseError>)
    requires
        pos <= ts.len(),
    ensures
        parsed(r, pos, ts.len(), def_item_at(ts@, pos as int)),
        r is Ok ==> r->Ok_0.1 > pos,
{
    proof {
        reveal(def_item_at);
    }
    let (keyword, p) = parse_item_keyword(ts, pos)?;
    match keyword {
        TokenKind::Constant => {
            let (item, q) = parse_constant_def(ts, pos)?;
            Ok((ModuleDefItem::Constant(item), q))
        },
        TokenKind::Function => {
            let (item, q) = parse_function_def(ts, pos)?;
            Ok((ModuleDefItem::Function(item), q))
        },
        TokenKind::Instance => {
            let (item, q) = parse_instance_def(ts, pos)?;
            Ok((ModuleDefItem::Instance(item), q))
        },
        TokenKind::Record => {
            let (item, q) = parse_record(ts, pos)?;
            Ok((ModuleDefItem::Record(item), q))
        },
        TokenKind::Type => {
            let (item, q) = parse_type_decl(ts, pos)?;
            Ok((ModuleDefItem::Type(item), q))
        },
        TokenKind::TypeClass => {
            let (item, q) = parse_typeclass_def(ts, pos)?;
            Ok((ModuleDefItem::TypeClass(item), q))
        },
        TokenKind::Union => {
            let (item, q) = parse_union(ts, pos)?;
            Ok((ModuleDefItem::Union(item), q))
        },
        _ => Err(unexpected(p, item_keywords_list())),
    }
}

/// An item of a module as tokens.
pub open spec fn def_item_tokens(v: ModuleDefItemView) -> Seq<TokenView> {
    match v {
        ModuleDefItemView::Constant(item) => constant_def_tokens(item),
        ModuleDefItemView::Function(item) => function_def_tokens(item),
        ModuleDefItemView::Instance(item) => instance_def_tokens(item),
        ModuleDefItemView::Record(item) => record_tokens(item),
        ModuleDefItemView::Type(item) => type_decl_tokens(item),
        ModuleDefItemView::TypeClass(item) => typeclass_def_tokens(item),
        ModuleDefItemView::Union(item) => union_tokens(item),
    }
}

/// What the rule `def_item_at` read prints as the tokens that it read.
pub proof fn lemma_def_item_spelled(ts: Seq<Token>, pos: int)
    requires
        0 <= pos <= ts.len(),
        def_item_at(ts, pos) is Ok,
    ensures
        spelled(
            ts,
            pos,
            def_item_at(ts, pos)->Ok_0.1,
            def_item_tokens(def_item_at(ts, pos)->Ok_0.0),
        ),
{
    reveal(def_item_at);
    match item_keyword_at(ts, pos)->Ok_0.0 {
        TokenKind::Constant => {
            lemma_constant_def_spelled(ts, pos);
        },
        TokenKind::Function => {
            lemma_function_def_spelled(ts, pos);
        },
        TokenKind::Instance => {
            lemma_instance_def_spelled(ts, pos);
        },
        TokenKind::Record => {
            lemma_record_spelled(ts, pos);
        },
        TokenKind::Type => {
            lemma_type_decl_spelled(ts, pos);
        },
        TokenKind::TypeClass => {
            lemma_typeclass_def_spelled(ts, pos);
        },
        TokenKind::Union => {
            lemma_union_spelled(ts, pos);
        },
        _ => {},
    }
}

/// The items of a module interface: as many as can be read.
#[verifier::opaque]
pub open spec fn decl_items_at(
    ts: Seq<Token>,
    pos: int,
    acc: Seq<ModuleDeclItemView>,
) -> Listed<ModuleDeclItemView>
    decreases ts.len() - pos,
{
    match decl_item_at(ts, pos) {
        Err(f) => Listed { items: acc, taken: 0, stopped: f },
        Ok((item, n)) => if 0 < n && pos + n <= ts.len() {
            decl_items_at(ts, pos + n, acc.push(item)).advance(n)
        } else {
            Listed { items: acc, taken: 0, stopped: ParseFailure { at: pos, expected: seq![] } }
        },
    }
}

/// Parses the items of a list from a position by the rule `decl_items_at`: the
/// items, the position after them, and the failure that ended the list.
pub fn parse_decl_items(ts: &[Token], pos: usize) -> (r: (Vec<ModuleDeclItem>, usize, ParseError))
    requires
        pos <= ts.len(),
    ensures
        listed(r, pos, ts.len(), decl_items_at(ts@, pos as int, Seq::empty())),
{
    let mut items: Vec<ModuleDeclItem> = Vec::new();
    let mut cur: usize = pos;
    let mut stopped: Option<ParseError> = None;
    assert(items.deep_view() =~= Seq::empty());
    while stopped.is_none()
        invariant
            pos <= cur <= ts.len(),
            stopped is None ==> decl_items_at(ts@, pos as int, Seq::empty()) == decl_items_at(
                ts@,
                cur as int,
                items.deep_view(),
            ).advance((cur - pos) as nat),
            stopped is Some ==> decl_items_at(ts@, pos as int, Seq::empty()) == (Listed {
                items: items.deep_view(),
                taken: (cur - pos) as nat,
                stopped: stopped->0@,
            }),
        decreases ts.len() - cur + (if stopped is None { 1int } else { 0int }),
    {
        proof {
            reveal(decl_items_at);
        }
        match parse_decl_item(ts, cur) {
            Err(e) => {
                stopped = Some(e);
            },
            Ok((item, p)) => {
                let ghost before = items.deep_view();
                let ghost added = item.deep_view();
                items.push(item);
                assert(items.deep_view() =~= before.push(added));
                cur = p;
            },
        }
    }
    (items, cur, stopped.unwrap())
}

/// The items of a list that the rule `decl_items_at` gives, from index `from` on, as
/// tokens, one after the other.
pub open spec fn decl_items_tokens(items: Seq<ModuleDeclItemView>, from: nat) -> Seq<TokenView>
    decreases items.len() - from,
{
    if from >= items.len() {
        Seq::empty()
    } else {
        decl_item_tokens(items[from as int]) + decl_items_tokens(items, from + 1)
    }
}

/// The tokens that the list rule `decl_items_at` read are the tokens that the
/// items it added print as, unless it read a token that they do not show.
/// The list keeps the items it started from.
pub proof fn lemma_decl_items_spelled(ts: Seq<Token>, pos: int, acc: Seq<ModuleDeclItemView>)
    requires
        0 <= pos <= ts.len(),
    ensures
        decl_items_at(ts, pos, acc).items.len() >= acc.len(),
        decl_items_at(
            ts,
            pos,
            acc,
        ).items.len() == acc.len() ==> decl_items_at(ts, pos, acc).taken == 0,
        forall|i: int| 0 <= i < acc.len() ==> decl_items_at(ts, pos, acc).items[i] == acc[i],
        spelled(
            ts,
            pos,
            decl_items_at(ts, pos, acc).taken,
            decl_items_tokens(decl_items_at(ts, pos, acc).items, acc.len()),
        ),
    decreases ts.len() - pos,
{
    reveal(decl_items_at);
    match decl_item_at(ts, pos) {
        Err(_) => {
            lemma_spelled_nothing(ts, pos, 0);
        },
        Ok((item, n)) => {
            let pushed = acc.push(item);
            assert forall|i: int| 0 <= i < acc.len() implies pushed[i] == acc[i] by {}
            lemma_decl_item_spelled(ts, pos);
            if 0 < n && pos + n <= ts.len() {
                let rest = decl_items_at(ts, pos + n, pushed);
                lemma_decl_items_spelled(ts, pos + n, pushed);
                assert(pushed[acc.len() as int] == item);
                assert(rest.items[acc.len() as int] == pushed[acc.len() as int]);
                lemma_spelled_then(
                    ts,
                    pos,
                    n,
                    decl_item_tokens(item),
                    rest.taken,
                    decl_items_tokens(rest.items, pushed.len()),
                );
            } else {
                lemma_spelled_nothing(ts, pos, 0);
            }
        },
    }
}

/// The items of a module body: as many as can be read.
#[verifier::opaque]
pub open spec fn def_items_at(
    ts: Seq<Token>,
    pos: int,
    acc: Seq<ModuleDefItemView>,
) -> Listed<ModuleDefItemView>
    decreases ts.len() - pos,
{
    match def_item_at(ts, pos) {
        Err(f) => Listed { items: acc, taken: 0, stopped: f },
        Ok((item, n)) => if 0 < n && pos + n <= ts.len() {
            def_items_at(ts, pos + n, acc.push(item)).advance(n)
        } else {
            Listed { items: acc, taken: 0, stopped: ParseFailure { at: pos, expected: seq![] } }
        },
    }
}

/// Parses the items of a list from a position by the rule `def_items_at`: the
/// items, the position after them, and the failure that ended the list.
pub fn parse_def_items(ts: &[Token], pos: usize) -> (r: (Vec<ModuleDefItem>, usize, ParseError))
    requires
        pos <= ts.len(),
    ensures
        listed(r, pos, ts.len(), def_items_at(ts@, pos as int, Seq::empty())),
{
    let mut items: Vec<ModuleDefItem> = Vec::new();
    let mut cur: usize = pos;
    let mut stopped: Option<ParseError> = None;
    assert(items.deep_view() =~= Seq::empty());
    while stopped.is_none()
        invariant
            pos <= cur <= ts.len(),
            stopped is None ==> def_items_at(ts@, pos as int, Seq::empty()) == def_items_at(
                ts@,
                cur as int,
                items.deep_view(),
            ).advance((cur - pos) as nat),
            stopped is Some ==> def_items_at(ts@, pos as int, Seq::empty()) == (Listed {
                items: items.deep_view(),
                taken: (cur - pos) as nat,
                stopped: stopped->0@,
            }),
        decreases ts.len() - cur + (if stopped is None { 1int } else { 0int }),
    {
        proof {
            reveal(def_items_at);
        }
        match parse_def_item(ts, cur) {
            Err(e) => {
                stopped = Some(e);
            },
            Ok((item, p)) => {
                let ghost before = items.deep_view();
                let ghost added = item.deep_view();
                items.push(item);
                assert(items.deep_view() =~= before.push(added));
                cur = p;
            },
        }
    }
    (items, cur, stopped.unwrap())
}

/// The items of a list that the rule `def_items_at` gives, from index `from` on, as
/// tokens, one after the other.
pub open spec fn def_items_tokens(items: Seq<ModuleDefItemView>, from: nat) -> Seq<TokenView>
    decreases items.len() - from,
{
    if from >= items.len() {
        Seq::empty()
    } else {
        def_item_tokens(items[from as int]) + def_items_tokens(items, from + 1)
    }
}

/// The tokens that the list rule `def_items_at` read are the tokens that the
/// items it added print as, unless it read a token that they do not show.
/// The list keeps the items it started from.
pub proof fn lemma_def_items_spelled(ts: Seq<Token>, pos: int, acc: Seq<ModuleDefItemView>)
    requires
        0 <= pos <= ts.len(),
    ensures
        def_items_at(ts, pos, acc).items.len() >= acc.len(),
        def_items_at(
            ts,
            pos,
            acc,
        ).items.len() == acc.len() ==> def_items_at(ts, pos, acc).taken == 0,
        forall|i: int| 0 <= i < acc.len() ==> def_items_at(ts, pos, acc).items[i] == acc[i],
        spelled(
            ts,
            pos,
            def_items_at(ts, pos, acc).taken,
            def_items_tokens(def_items_at(ts, pos, acc).items, acc.len()),
        ),
    decreases ts.len() - pos,
{
    reveal(def_items_at);
    match def_item_at(ts, pos) {
        Err(_) => {
            lemma_spelled_nothing(ts, pos, 0);
        },
        Ok((item, n)) => {
            let pushed = acc.push(item);
            assert forall|i: int| 0 <= i < acc.len() implies pushed[i] == acc[i] by {}
            lemma_def_item_spelled(ts, pos);
            if 0 < n && pos + n <= ts.len() {
                let rest = def_items_at(ts, pos + n, pushed);
                lemma_def_items_spelled(ts, pos + n, pushed);
                assert(pushed[acc.len() as int] == item);
                assert(rest.items[acc.len() as int] == pushed[acc.len() as int]);
                lemma_spelled_then(
                    ts,
                    pos,
                    n,
                    def_item_tokens(item),
                    rest.taken,
                    def_items_tokens(rest.items, pushed.len()),
                );
            } else {
                lemma_spelled_nothing(ts, pos, 0);
            }
        },
    }
}

/// The items of a module interface up to the end of the input: if tokens are
/// left where no item can be read, the failure is that of the item.
#[verifier::opaque]
pub open spec fn decl_items_to_end_at(ts: Seq<Token>, pos: int) -> Parsed<Seq<ModuleDeclItemView>> {
    let list = decl_items_at(ts, pos, Seq::empty());
    match closing(ts, pos + list.taken, TokenKind::EndOfInput, list.stopped) {
        Some(f) => Err(f),
        None => Ok((list.items, list.taken)),
    }
}

/// Parses by the rule `decl_items_to_end_at` at a position: the value and the
/// position after it, or the failure.
pub fn parse_decl_items_to_end(ts: &[Token], pos: usize) -> (r: Result<
    (Vec<ModuleDeclItem>, usize),
    ParseError,
>)
    requires
        pos <= ts.len(),
    ensures
        parsed(r, pos, ts.len(), decl_items_to_end_at(ts@, pos as int)),
{
    proof {
        reveal(decl_items_to_end_at);
    }
    let (items, p, stopped) = parse_decl_items(ts, pos);
    if p >= ts.len() {
        Ok((items, p))
    } else {
        Err(later(stopped, missing(p, TokenKind::EndOfInput)))
    }
}

/// The items of a module as tokens.
pub open spec fn decl_items_to_end_tokens(v: Seq<ModuleDeclItemView>) -> Seq<TokenView> {
    decl_items_tokens(v, 0)
}

/// What the rule `decl_items_to_end_at` read prints as the tokens that it read.
pub proof fn lemma_decl_items_to_end_spelled(ts: Seq<Token>, pos: int)
    requires
        0 <= pos <= ts.len(),
        decl_items_to_end_at(ts, pos) is Ok,
    ensures
        spelled(
            ts,
            pos,
            decl_items_to_end_at(ts, pos)->Ok_0.1,
            decl_items_to_end_tokens(decl_items_to_end_at(ts, pos)->Ok_0.0),
        ),
{
    reveal(decl_items_to_end_at);
    lemma_decl_items_spelled(ts, pos, Seq::empty());
}

/// The items of a module body up to the end of the input: if tokens are left
/// where no item can be read, the failure is that of the item.
#[verifier::opaque]
pub open spec fn def_items_to_end_at(ts: Seq<Token>, pos: int) -> Parsed<Seq<ModuleDefItemView>> {
    let list = def_items_at(ts, pos, Seq::empty());
    match closing(ts, pos + list.taken, TokenKind::EndOfInput, list.stopped) {
        Some(f) => Err(f),
        None => Ok((list.items, list.taken)),
    }
}

/// Parses by the rule `def_items_to_end_at` at a position: the value and the
/// position after it, or the failure.
pub fn parse_def_items_to_end(ts: &[Token], pos: usize) -> (r: Result<
    (Vec<ModuleDefItem>, usize),
    ParseError,
>)
    requires
        pos <= ts.len(),
    ensures
        parsed(r, pos, ts.len(), def_items_to_end_at(ts@, pos as int)),
{
    proof {
        reveal(def_items_to_end_at);
    }
    let (items, p, stopped) = parse_def_items(ts, pos);
    if p >= ts.len() {
        Ok((items, p))
    } else {
        Err(later(stopped, missing(p, TokenKind::EndOfInput)))
    }
}

/// The items of a module as tokens.
pub open spec fn def_items_to_end_tokens(v: Seq<ModuleDefItemView>) -> Seq<TokenView> {
    def_items_tokens(v, 0)
}

/// What the rule `def_items_to_end_at` read prints as the tokens that it read.
pub proof fn lemma_def_items_to_end_spelled(ts: Seq<Token>, pos: int)
    requires
        0 <= pos <= ts.len(),
        def_items_to_end_at(ts, pos) is Ok,
    ensures
        spelled(
            ts,
            pos,
            def_items_to_end_at(ts, pos)->Ok_0.1,
            def_items_to_end_tokens(def_items_to_end_at(ts, pos)->Ok_0.0),
        ),
{
    reveal(def_items_to_end_at);
    lemma_def_items_spelled(ts, pos, Seq::empty());
}

/// The rule of module interfaces: a docstring if there is one, imports, then `module Name is` and declarations to the end of the input.
#[verifier::opaque]
pub open spec fn module_decl_at(
    ts: Seq<Token>,
    pos: int,
) -> Parsed<ModuleBaseView<ModuleDeclItemView>>
{
    let (doc_string, n1) = opt_doc_string_at(ts, pos);
    let imports_list = imports_at(ts, pos + n1, Seq::empty());
    let imports = imports_list.items;
    let n2 = imports_list.taken;
    if kind_at(ts, pos + n1 + n2) != TokenKind::Module {
        fail(pos + n1 + n2, seq![TokenKind::Module])
    } else {
        match ident_at(ts, pos + n1 + n2 + 1) {
            Err(f) => Err(f),
            Ok((name, n3)) => {
                if kind_at(ts, pos + n1 + n2 + n3 + 1) != TokenKind::Is {
                    fail(pos + n1 + n2 + n3 + 1, seq![TokenKind::Is])
                } else {
                    match decl_items_to_end_at(ts, pos + n1 + n2 + n3 + 2) {
                        Err(f) => Err(f),
                        Ok((contents, n4)) => {
                            Ok((ModuleBaseView { doc_string, imports, name, contents }, n1 + n2 + n3 + n4 + 2))
                        },
                    }
                }
            },
        }
    }
}

/// Parses by the rule `module_decl_at` at a position: the value and the
/// position after it, or the failure.
pub fn parse_module_decl(
    ts: &[Token],
    pos: usize,
) -> (r: Result<(ModuleBase<ModuleDeclItem>, usize), ParseError>)
    requires
        pos <= ts.len(),
    ensures
        parsed(r, pos, ts.len(), module_decl_at(ts@, pos as int)),
        r is Ok ==> r->Ok_0.1 > pos,
{
    proof {
        reveal(module_decl_at);
    }
    let (doc_string, p1) = parse_opt_doc_string(ts, pos);
    let (imports, p2, _) = parse_imports(ts, p1);
    let p3 = expect(ts, p2, TokenKind::Module)?;
    let (name, p4) = parse_ident(ts, p3)?;
    let p5 = expect(ts, p4, TokenKind::Is)?;
    let (contents, p6) = parse_decl_items_to_end(ts, p5)?;
    Ok((ModuleBase { doc_string, imports, name, contents }, p6))
}

/// What the rule `module_decl_at` gives, as tokens.
pub open spec fn module_decl_tokens(v: ModuleBaseView<ModuleDeclItemView>) -> Seq<TokenView>
{
    opt_doc_string_tokens(v.doc_string)
        + imports_tokens(v.imports, 0)
        + plain(TokenKind::Module)
        + ident_tokens(v.name)
        + plain(TokenKind::Is)
        + decl_items_to_end_tokens(v.contents)
}

/// The tokens that the rule `module_decl_at` read are the tokens that its value prints
/// as, unless it read a token that the value does not show.
pub proof fn lemma_module_decl_spelled(ts: Seq<Token>, pos: int)
    requires
        0 <= pos <= ts.len(),
        module_decl_at(ts, pos) is Ok,
    ensures
        spelled(
            ts,
            pos,
            module_decl_at(ts, pos)->Ok_0.1,
            module_decl_tokens(module_decl_at(ts, pos)->Ok_0.0),
        ),
{
    reveal(module_decl_at);
    let (doc_string, n1) = opt_doc_string_at(ts, pos);
    lemma_opt_doc_string_spelled(ts, pos);
    let imports_list = imports_at(ts, pos + n1, Seq::empty());
    let imports = imports_list.items;
    let n2 = imports_list.taken;
    lemma_imports_spelled(ts, pos + n1, Seq::empty());
    lemma_spelled_token(ts, pos + n1 + n2, TokenKind::Module);
    let (name, n3) = ident_at(ts, pos + n1 + n2 + 1)->Ok_0;
    lemma_ident_spelled(ts, pos + n1 + n2 + 1);
    lemma_spelled_token(ts, pos + n1 + n2 + n3 + 1, TokenKind::Is);
    let (contents, n4) = decl_items_to_end_at(ts, pos + n1 + n2 + n3 + 2)->Ok_0;
    lemma_decl_items_to_end_spelled(ts, pos + n1 + n2 + n3 + 2);
    lemma_spelled_then(
        ts,
        pos,
        n1,
        opt_doc_string_tokens(doc_string),
        n2,
        imports_tokens(imports, 0),
    );
    lemma_spelled_then(
        ts,
        pos,
        n1 + n2,
        opt_doc_string_tokens(doc_string) + imports_tokens(imports, 0),
        1,
        plain(TokenKind::Module),
    );
    lemma_spelled_then(
        ts,
        pos,
        n1 + n2 + 1,
        opt_doc_string_tokens(doc_string) + imports_tokens(imports, 0) + plain(TokenKind::Module),
        n3,
        ident_tokens(name),
    );
    lemma_spelled_then(
        ts,
        pos,
        n1 + n2 + 1 + n3,
        opt_doc_string_tokens(doc_string)
            + imports_tokens(imports, 0)
            + plain(TokenKind::Module)
            + ident_tokens(name),
        1,
        plain(TokenKind::Is),
    );
    lemma_spelled_then(
        ts,
        pos,
        n1 + n2 + 1 + n3 + 1,
        opt_doc_string_tokens(doc_string)
            + imports_tokens(imports, 0)
            + plain(TokenKind::Module)
            + ident_tokens(name)
            + plain(TokenKind::Is),
        n4,
        decl_items_to_end_tokens(contents),
    );
}

/// The rule of module bodies: a docstring if there is one, imports, then `module body Name is` and definitions to the end of the input.
#[verifier::opaque]
pub open spec fn module_def_at(
    ts: Seq<Token>,
    pos: int,
) -> Parsed<ModuleBaseView<ModuleDefItemView>>
{
    let (doc_string, n1) = opt_doc_string_at(ts, pos);
    let imports_list = imports_at(ts, pos + n1, Seq::empty());
    let imports = imports_list.items;
    let n2 = imports_list.taken;
    if kind_at(ts, pos + n1 + n2) != TokenKind::Module {
        fail(pos + n1 + n2, seq![TokenKind::Module])
    } else {
        if kind_at(ts, pos + n1 + n2 + 1) != TokenKind::Body {
            fail(pos + n1 + n2 + 1, seq![TokenKind::Body])
        } else {
            match ident_at(ts, pos + n1 + n2 + 2) {
                Err(f) => Err(f),
                Ok((name, n3)) => {
                    if kind_at(ts, pos + n1 + n2 + n3 + 2) != TokenKind::Is {
                        fail(pos + n1 + n2 + n3 + 2, seq![TokenKind::Is])
                    } else {
                        match def_items_to_end_at(ts, pos + n1 + n2 + n3 + 3) {
                            Err(f) => Err(f),
                            Ok((contents, n4)) => {
                                Ok((ModuleBaseView { doc_string, imports, name, contents }, n1 + n2 + n3 + n4 + 3))
                            },
                        }
                    }
                },
            }
        }
    }
}

/// Parses by the rule `module_def_at` at a position: the value and the position
/// after it, or the failure.
pub fn parse_module_def(
    ts: &[Token],
    pos: usize,
) -> (r: Result<(ModuleBase<ModuleDefItem>, usize), ParseError>)
    requires
        pos <= ts.len(),
    ensures
        parsed(r, pos, ts.len(), module_def_at(ts@, pos as int)),
        r is Ok ==> r->Ok_0.1 > pos,
{
    proof {
        reveal(module_def_at);
    }
    let (doc_string, p1) = parse_opt_doc_string(ts, pos);
    let (imports, p2, _) = parse_imports(ts, p1);
    let p3 = expect(ts, p2, TokenKind::Module)?;
    let p4 = expect(ts, p3, TokenKind::Body)?;
    let (name, p5) = parse_ident(ts, p4)?;
    let p6 = expect(ts, p5, TokenKind::Is)?;
    let (contents, p7) = parse_def_items_to_end(ts, p6)?;
    Ok((ModuleBase { doc_string, imports, name, contents }, p7))
}

/// What the rule `module_def_at` gives, as tokens.
pub open spec fn module_def_tokens(v: ModuleBaseView<ModuleDefItemView>) -> Seq<TokenView>
{
    opt_doc_string_tokens(v.doc_string)
        + imports_tokens(v.imports, 0)
        + plain(TokenKind::Module)
        + plain(TokenKind::Body)
        + ident_tokens(v.name)
        + plain(TokenKind::Is)
        + def_items_to_end_tokens(v.contents)
}

/// The tokens that the rule `module_def_at` read are the tokens that its value prints
/// as, unless it read a token that the value does not show.
pub proof fn lemma_module_def_spelled(ts: Seq<Token>, pos: int)
    requires
        0 <= pos <= ts.len(),
        module_def_at(ts, pos) is Ok,
    ensures
        spelled(
            ts,
            pos,
            module_def_at(ts, pos)->Ok_0.1,
            module_def_tokens(module_def_at(ts, pos)->Ok_0.0),
        ),
{
    reveal(module_def_at);
    let (doc_string, n1) = opt_doc_string_at(ts, pos);
    lemma_opt_doc_string_spelled(ts, pos);
    let imports_list = imports_at(ts, pos + n1, Seq::empty());
    let imports = imports_list.items;
    let n2 = imports_list.taken;
    lemma_imports_spelled(ts, pos + n1, Seq::empty());
    lemma_spelled_token(ts, pos + n1 + n2, TokenKind::Module);
    lemma_spelled_token(ts, pos + n1 + n2 + 1, TokenKind::Body);
    let (name, n3) = ident_at(ts, pos + n1 + n2 + 2)->Ok_0;
    lemma_ident_spelled(ts, pos + n1 + n2 + 2);
    lemma_spelled_token(ts, pos + n1 + n2 + n3 + 2, TokenKind::Is);
    let (contents, n4) = def_items_to_end_at(ts, pos + n1 + n2 + n3 + 3)->Ok_0;
    lemma_def_items_to_end_spelled(ts, pos + n1 + n2 + n3 + 3);
    lemma_spelled_then(
        ts,
        pos,
        n1,
        opt_doc_string_tokens(doc_string),
        n2,
        imports_tokens(imports, 0),
    );
    lemma_spelled_then(
        ts,
        pos,
        n1 + n2,
        opt_doc_string_tokens(doc_string) + imports_tokens(imports, 0),
        1,
        plain(TokenKind::Module),
    );
    lemma_spelled_then(
        ts,
        pos,
        n1 + n2 + 1,
        opt_doc_string_tokens(doc_string) + imports_tokens(imports, 0) + plain(TokenKind::Module),
        1,
        plain(TokenKind::Body),
    );
    lemma_spelled_then(
        ts,
        pos,
        n1 + n2 + 1 + 1,
        opt_doc_string_tokens(doc_string)
            + imports_tokens(imports, 0)
            + plain(TokenKind::Module)
            + plain(TokenKind::Body),
        n3,
        ident_tokens(name),
    );
    lemma_spelled_then(
        ts,
        pos,
        n1 + n2 + 1 + 1 + n3,
        opt_doc_string_tokens(doc_string)
            + imports_tokens(imports, 0)
            + plain(TokenKind::Module)
            + plain(TokenKind::Body)
            + ident_tokens(name),
        1,
        plain(TokenKind::Is),
    );
    lemma_spelled_then(
        ts,
        pos,
        n1 + n2 + 1 + 1 + n3 + 1,
        opt_doc_string_tokens(doc_string)
            + imports_tokens(imports, 0)
            + plain(TokenKind::Module)
            + plain(TokenKind::Body)
            + ident_tokens(name)
            + plain(TokenKind::Is),
        n4,
        def_items_to_end_tokens(contents),
    );
}

/// Whether the module that starts at `pos` is a body: whether `module body`
/// follows its docstring and imports.
pub open spec fn starts_body(ts: Seq<Token>, pos: int) -> bool {
    let (doc_string, n0) = opt_doc_string_at(ts, pos);
    let imports = imports_at(ts, pos + n0, Seq::empty());
    kind_at(ts, pos + n0 + imports.taken) == TokenKind::Module && kind_at(
        ts,
        pos + n0 + imports.taken + 1,
    ) == TokenKind::Body
}

/// The rule of modules: a body if `module body` follows the docstring and
/// the imports, an interface otherwise.
#[verifier::opaque]
pub open spec fn module_at(ts: Seq<Token>, pos: int) -> Parsed<ModuleView> {
    if starts_body(ts, pos) {
        match module_def_at(ts, pos) {
            Ok((m, n)) => Ok((ModuleView::Def(m), n)),
            Err(f) => Err(f),
        }
    } else {
        match module_decl_at(ts, pos) {
            Ok((m, n)) => Ok((ModuleView::Decl(m), n)),
            Err(f) => Err(f),
        }
    }
}

/// Parses by the rule `module_at` at a position: the value and the position
/// after it, or the failure.
pub fn parse_module_at(ts: &[Token], pos: usize) -> (r: Result<(Module, usize), ParseError>)
    requires
        pos <= ts.len(),
    ensures
        parsed(r, pos, ts.len(), module_at(ts@, pos as int)),
{
    proof {
        reveal(module_at);
    }
    let (_, p0) = parse_opt_doc_string(ts, pos);
    let (_, p1, _) = parse_imports(ts, p0);
    if peek(ts, p1) == TokenKind::Module && peek(ts, p1 + 1) == TokenKind::Body {
        let (m, p) = parse_module_def(ts, pos)?;
        Ok((Module::Def(m), p))
    } else {
        let (m, p) = parse_module_decl(ts, pos)?;
        Ok((Module::Decl(m), p))
    }
}

/// A module as tokens.
pub open spec fn module_tokens(v: ModuleView) -> Seq<TokenView> {
    match v {
        ModuleView::Decl(m) => module_decl_tokens(m),
        ModuleView::Def(m) => module_def_tokens(m),
    }
}

/// What the rule `module_at` read prints as the tokens that it read.
pub proof fn lemma_module_spelled(ts: Seq<Token>, pos: int)
    requires
        0 <= pos <= ts.len(),
        module_at(ts, pos) is Ok,
    ensures
        spelled(ts, pos, module_at(ts, pos)->Ok_0.1, module_tokens(module_at(ts, pos)->Ok_0.0)),
{
    reveal(module_at);
    if starts_body(ts, pos) {
        lemma_module_def_spelled(ts, pos);
    } else {
        lemma_module_decl_spelled(ts, pos);
    }
}

/// The tokens of a token sequence as plain values.
pub open spec fn token_views(ts: Seq<Token>) -> Seq<TokenView> {
    ts.map_values(|t: Token| t@)
}

/// Round trip. A module that was parsed from a token sequence prints as
/// that token sequence, unless the parser read a token that the tree does
/// not show: a comma after the last item of a list, or brackets around
/// nothing where they may be left out. Then, and only then, the printed
/// form is shorter than what was read.
pub proof fn law_parse_then_print(ts: Seq<Token>)
    requires
        whole(module_at(ts, 0), ts.len()) is Ok,
    ensures
        module_tokens(whole(module_at(ts, 0), ts.len())->Ok_0).len() <= ts.len(),
        module_tokens(whole(module_at(ts, 0), ts.len())->Ok_0).len() == ts.len() ==> module_tokens(
            whole(module_at(ts, 0), ts.len())->Ok_0,
        ) == token_views(ts),
{
    lemma_module_spelled(ts, 0);
    assert(views(ts, 0, ts.len()) =~= token_views(ts));
}

impl ModuleBase<ModuleDeclItem> {
    /// Parses the whole of `tokens` by the rule `module_decl_at`.
    pub fn parser(tokens: &[Token]) -> (r: Result<ModuleBase<ModuleDeclItem>, ParseError>)
        ensures
            parsed_whole(r, whole(module_decl_at(tokens@, 0), tokens@.len())),
    {
        complete(parse_module_decl(tokens, 0), tokens.len(), Ghost(module_decl_at(tokens@, 0)))
    }
}

impl ModuleBase<ModuleDefItem> {
    /// Parses the whole of `tokens` by the rule `module_def_at`.
    pub fn parser(tokens: &[Token]) -> (r: Result<ModuleBase<ModuleDefItem>, ParseError>)
        ensures
            parsed_whole(r, whole(module_def_at(tokens@, 0), tokens@.len())),
    {
        complete(parse_module_def(tokens, 0), tokens.len(), Ghost(module_def_at(tokens@, 0)))
    }
}

impl ModuleDeclItem {
    /// Parses the whole of `tokens` by the rule `decl_item_at`.
    pub fn parser(tokens: &[Token]) -> (r: Result<ModuleDeclItem, ParseError>)
        ensures
            parsed_whole(r, whole(decl_item_at(tokens@, 0), tokens@.len())),
    {
        complete(parse_decl_item(tokens, 0), tokens.len(), Ghost(decl_item_at(tokens@, 0)))
    }
}

impl ModuleDefItem {
    /// Parses the whole of `tokens` by the rule `def_item_at`.
    pub fn parser(tokens: &[Token]) -> (r: Result<ModuleDefItem, ParseError>)
        ensures
            parsed_whole(r, whole(def_item_at(tokens@, 0), tokens@.len())),
    {
        complete(parse_def_item(tokens, 0), tokens.len(), Ghost(def_item_at(tokens@, 0)))
    }
}

impl Module {
    /// Parses the whole of `tokens` by the rule `module_at`.
    pub fn parser(tokens: &[Token]) -> (r: Result<Module, ParseError>)
        ensures
            parsed_whole(r, whole(module_at(tokens@, 0), tokens@.len())),
    {
        complete(parse_module_at(tokens, 0), tokens.len(), Ghost(module_at(tokens@, 0)))
    }
}

/// Parses a token sequence as one module, an interface or a body.
pub fn parse_module(tokens: &[Token]) -> (r: Result<Module, ParseError>)
    ensures
        parsed_whole(r, whole(module_at(tokens@, 0), tokens@.len())),
{
    Module::parser(tokens)
}

} // verus!
