//! Statements.

use crate::ast::common::{Ident, ident_at, ident_tokens, lemma_ident_spelled, parse_ident};
use crate::ast::expressions::{
    Expression, expression_at, expression_tokens, ExpressionView, lemma_expression_spelled,
    lemma_path_spelled, parse_expression, parse_path, path_at, path_tokens, PathExpr,
    PathExprView,
};
use crate::ast::grammar::{
    close, closing, complete, expect, fail, furthest, kind_at, later, lemma_spelled_more,
    lemma_spelled_nothing, lemma_spelled_then, lemma_spelled_token, Listed, listed, missing,
    Parsed, parsed, parsed_whole, ParseError, ParseFailure, peek, plain, spelled, unexpected,
    whole,
};
use crate::ast::types::{
    lemma_type_spec_spelled, parse_type_spec, type_spec_at, type_spec_tokens, TypeSpec,
    TypeSpecView,
};
use crate::ast::unions::Case;
use crate::lexer::{Token, TokenKind, TokenView};
use vstd::prelude::*;

verus! {

/// Whether a borrow statement makes a read or a write reference.
#[derive(Clone, Copy, Debug, PartialEq, Eq, Hash, Structural)]
pub enum BorrowMutMode {
    Read,
    Write,
}

impl DeepView for BorrowMutMode {
    type V = BorrowMutMode;

    open spec fn deep_view(&self) -> BorrowMutMode {
        *self
    }
}

/// How a borrow statement takes its origin: `&`, `&!` or `&~`.
#[derive(Clone, Copy, Debug, PartialEq, Eq, Hash, Structural)]
pub enum BorrowMode {
    Read,
    Write,
    ReBorrow,
}

impl DeepView for BorrowMode {
    type V = BorrowMode;

    open spec fn deep_view(&self) -> BorrowMode {
        *self
    }
}

/// A statement.
#[derive(Debug, PartialEq)]
pub enum Statement {
    Assign(AssignStmt),
    Borrow(BorrowStmt),
    Case(CaseStmt),
    Discard(Expression),
    For(ForStmt),
    If(IfStmt),
    Let(LetStmt),
    Return(Expression),
    While(WhileStmt),
}

/// A value of `Statement` as plain data.
pub enum StatementView {
    Assign(AssignStmtView),
    Borrow(BorrowStmtView),
    Case(CaseStmtView),
    Discard(ExpressionView),
    For(ForStmtView),
    If(IfStmtView),
    Let(LetStmtView),
    Return(ExpressionView),
    While(WhileStmtView),
}

impl Statement {
    /// The value as plain data.
    pub open spec fn model(self) -> StatementView
        decreases self,
    {
        match self {
            Statement::Assign(x0) => StatementView::Assign(x0.deep_view()),
            Statement::Borrow(x0) => StatementView::Borrow(x0.model()),
            Statement::Case(x0) => StatementView::Case(x0.model()),
            Statement::Discard(x0) => StatementView::Discard(x0.deep_view()),
            Statement::For(x0) => StatementView::For(x0.model()),
            Statement::If(x0) => StatementView::If(x0.model()),
            Statement::Let(x0) => StatementView::Let(x0.deep_view()),
            Statement::Return(x0) => StatementView::Return(x0.deep_view()),
            Statement::While(x0) => StatementView::While(x0.model()),
        }
    }
}

impl DeepView for Statement {
    type V = StatementView;

    open spec fn deep_view(&self) -> StatementView {
        self.model()
    }
}

/// An assignment: `path := value;`.
#[derive(Debug, PartialEq)]
pub struct AssignStmt {
    pub target: PathExpr,
    pub value: Expression,
}

/// A value of `AssignStmt` as plain data.
pub struct AssignStmtView {
    pub target: PathExprView,
    pub value: ExpressionView,
}

impl DeepView for AssignStmt {
    type V = AssignStmtView;

    open spec fn deep_view(&self) -> AssignStmtView {
        AssignStmtView {
            target: self.target.deep_view(),
            value: self.value.deep_view(),
        }
    }
}

/// A borrow statement: the new reference, the kind and type of reference, the region, how the origin is taken, the origin, and the body in which the reference lives.
#[derive(Debug, PartialEq)]
pub struct BorrowStmt {
    pub name: Ident,
    pub mut_mode: BorrowMutMode,
    pub ty: TypeSpec,
    pub reg: Ident,
    pub mode: BorrowMode,
    pub orig: Ident,
    pub body: Vec<Statement>,
}

/// A value of `BorrowStmt` as plain data.
pub struct BorrowStmtView {
    pub name: Seq<char>,
    pub mut_mode: BorrowMutMode,
    pub ty: TypeSpecView,
    pub reg: Seq<char>,
    pub mode: BorrowMode,
    pub orig: Seq<char>,
    pub body: Seq<StatementView>,
}

impl BorrowStmt {
    /// The value as plain data.
    pub open spec fn model(self) -> BorrowStmtView
        decreases self,
    {
        BorrowStmtView {
            name: self.name.deep_view(),
            mut_mode: self.mut_mode.deep_view(),
            ty: self.ty.deep_view(),
            reg: self.reg.deep_view(),
            mode: self.mode.deep_view(),
            orig: self.orig.deep_view(),
            body: Seq::new(
                self.body.len() as nat,
                |i: int| if 0 <= i < self.body.len() { self.body[i].model() } else { arbitrary() },
            ),
        }
    }
}

impl DeepView for BorrowStmt {
    type V = BorrowStmtView;

    open spec fn deep_view(&self) -> BorrowStmtView {
        self.model()
    }
}

/// A case statement: the value and its `when` clauses.
#[derive(Debug, PartialEq)]
pub struct CaseStmt {
    pub value: Expression,
    pub variants: Vec<CaseWhen>,
}

/// A value of `CaseStmt` as plain data.
pub struct CaseStmtView {
    pub value: ExpressionView,
    pub variants: Seq<CaseWhenView>,
}

impl CaseStmt {
    /// The value as plain data.
    pub open spec fn model(self) -> CaseStmtView
        decreases self,
    {
        CaseStmtView {
            value: self.value.deep_view(),
            variants: Seq::new(
                self.variants.len() as nat,
                |i: int| if 0 <= i < self.variants.len() { self.variants[i].model() } else { arbitrary() },
            ),
        }
    }
}

impl DeepView for CaseStmt {
    type V = CaseStmtView;

    open spec fn deep_view(&self) -> CaseStmtView {
        self.model()
    }
}

/// One `when` clause: the case, its bindings and its body.
#[derive(Debug, PartialEq)]
pub struct CaseWhen {
    pub ident: Ident,
    pub bindings: Vec<Binding>,
    pub block: Vec<Statement>,
}

/// A value of `CaseWhen` as plain data.
pub struct CaseWhenView {
    pub ident: Seq<char>,
    pub bindings: Seq<BindingView>,
    pub block: Seq<StatementView>,
}

impl CaseWhen {
    /// The value as plain data.
    pub open spec fn model(self) -> CaseWhenView
        decreases self,
    {
        CaseWhenView {
            ident: self.ident.deep_view(),
            bindings: self.bindings.deep_view(),
            block: Seq::new(
                self.block.len() as nat,
                |i: int| if 0 <= i < self.block.len() { self.block[i].model() } else { arbitrary() },
            ),
        }
    }
}

impl DeepView for CaseWhen {
    type V = CaseWhenView;

    open spec fn deep_view(&self) -> CaseWhenView {
        self.model()
    }
}

/// A for loop: the variable, the bounds it runs between and the body.
#[derive(Debug, PartialEq)]
pub struct ForStmt {
    pub name: Ident,
    pub start: Expression,
    pub end: Expression,
    pub contents: Vec<Statement>,
}

/// A value of `ForStmt` as plain data.
pub struct ForStmtView {
    pub name: Seq<char>,
    pub start: ExpressionView,
    pub end: ExpressionView,
    pub contents: Seq<StatementView>,
}

impl ForStmt {
    /// The value as plain data.
    pub open spec fn model(self) -> ForStmtView
        decreases self,
    {
        ForStmtView {
            name: self.name.deep_view(),
            start: self.start.deep_view(),
            end: self.end.deep_view(),
            contents: Seq::new(
                self.contents.len() as nat,
                |i: int| if 0 <= i < self.contents.len() { self.contents[i].model() } else { arbitrary() },
            ),
        }
    }
}

impl DeepView for ForStmt {
    type V = ForStmtView;

    open spec fn deep_view(&self) -> ForStmtView {
        self.model()
    }
}

/// An if statement: the condition, the body, and the `else` body if there is one.
#[derive(Debug, PartialEq)]
pub struct IfStmt {
    pub value: Expression,
    pub contents: Vec<Statement>,
    pub otherwise: Option<Vec<Statement>>,
}

/// A value of `IfStmt` as plain data.
pub struct IfStmtView {
    pub value: ExpressionView,
    pub contents: Seq<StatementView>,
    pub otherwise: Option<Seq<StatementView>>,
}

impl IfStmt {
    /// The value as plain data.
    pub open spec fn model(self) -> IfStmtView
        decreases self,
    {
        IfStmtView {
            value: self.value.deep_view(),
            contents: Seq::new(
                self.contents.len() as nat,
                |i: int| if 0 <= i < self.contents.len() { self.contents[i].model() } else { arbitrary() },
            ),
            otherwise: match self.otherwise {
                Some(x) => Some(Seq::new(x.len() as nat, |i: int| if 0 <= i < x.len() { x[i].model() } else { arbitrary() })),
                None => None,
            },
        }
    }
}

impl DeepView for IfStmt {
    type V = IfStmtView;

    open spec fn deep_view(&self) -> IfStmtView {
        self.model()
    }
}

/// A `let` or `var` statement: `var` makes the binding mutable.
#[derive(Debug, PartialEq)]
pub struct LetStmt {
    pub is_mutable: bool,
    pub target: LetStmtTarget,
    pub value: Expression,
}

/// A value of `LetStmt` as plain data.
pub struct LetStmtView {
    pub is_mutable: bool,
    pub target: LetStmtTargetView,
    pub value: ExpressionView,
}

impl DeepView for LetStmt {
    type V = LetStmtView;

    open spec fn deep_view(&self) -> LetStmtView {
        LetStmtView {
            is_mutable: self.is_mutable.deep_view(),
            target: self.target.deep_view(),
            value: self.value.deep_view(),
        }
    }
}

/// What a `let` binds: one typed variable, or the slots of a record.
#[derive(Debug, PartialEq)]
pub enum LetStmtTarget {
    Simple { name: Ident, ty: TypeSpec },
    Destructure(Vec<Binding>),
}

/// A value of `LetStmtTarget` as plain data.
pub enum LetStmtTargetView {
    Simple { name: Seq<char>, ty: TypeSpecView },
    Destructure(Seq<BindingView>),
}

impl DeepView for LetStmtTarget {
    type V = LetStmtTargetView;

    open spec fn deep_view(&self) -> LetStmtTargetView {
        match self {
            LetStmtTarget::Simple { name, ty } => LetStmtTargetView::Simple {
                name: name.deep_view(),
                ty: ty.deep_view(),
            },
            LetStmtTarget::Destructure(x0) => LetStmtTargetView::Destructure(x0.deep_view()),
        }
    }
}

/// A while loop: the condition and the body.
#[derive(Debug, PartialEq)]
pub struct WhileStmt {
    pub value: Expression,
    pub contents: Vec<Statement>,
}

/// A value of `WhileStmt` as plain data.
pub struct WhileStmtView {
    pub value: ExpressionView,
    pub contents: Seq<StatementView>,
}

impl WhileStmt {
    /// The value as plain data.
    pub open spec fn model(self) -> WhileStmtView
        decreases self,
    {
        WhileStmtView {
            value: self.value.deep_view(),
            contents: Seq::new(
                self.contents.len() as nat,
                |i: int| if 0 <= i < self.contents.len() { self.contents[i].model() } else { arbitrary() },
            ),
        }
    }
}

impl DeepView for WhileStmt {
    type V = WhileStmtView;

    open spec fn deep_view(&self) -> WhileStmtView {
        self.model()
    }
}

/// One binding of a destructuring or of a `when` clause: the slot, the variable that receives it if it is not named like the slot, and the type.
#[derive(Debug, PartialEq, Eq, Hash)]
pub struct Binding {
    pub name: Ident,
    pub rename: Option<Ident>,
    pub ty: TypeSpec,
}

/// A value of `Binding` as plain data.
pub struct BindingView {
    pub name: Seq<char>,
    pub rename: Option<Seq<char>>,
    pub ty: TypeSpecView,
}

impl DeepView for Binding {
    type V = BindingView;

    open spec fn deep_view(&self) -> BindingView {
        BindingView {
            name: self.name.deep_view(),
            rename: self.rename.deep_view(),
            ty: self.ty.deep_view(),
        }
    }
}

    /// The keywords that start a binding statement.
    pub open spec fn binding_keywords() -> Seq<TokenKind> {
        seq![TokenKind::Let, TokenKind::Var]
    }

    /// The keywords that start a binding statement.
    pub fn binding_keywords_list() -> (kinds: Vec<TokenKind>)
        ensures
            kinds@ == binding_keywords(),
    {
        let mut kinds: Vec<TokenKind> = Vec::new();
        kinds.push(TokenKind::Let);
        kinds.push(TokenKind::Var);
        assert(kinds@ =~= binding_keywords());
        kinds
    }

    /// The kinds of reference that a borrow statement can make.
    pub open spec fn borrow_kinds() -> Seq<TokenKind> {
        seq![TokenKind::BorrowRead, TokenKind::BorrowWrite]
    }

    /// The kinds of reference that a borrow statement can make.
    pub fn borrow_kinds_list() -> (kinds: Vec<TokenKind>)
        ensures
            kinds@ == borrow_kinds(),
    {
        let mut kinds: Vec<TokenKind> = Vec::new();
        kinds.push(TokenKind::BorrowRead);
        kinds.push(TokenKind::BorrowWrite);
        assert(kinds@ =~= borrow_kinds());
        kinds
    }

    /// The ways in which a borrow statement can take its origin.
    pub open spec fn borrow_modes() -> Seq<TokenKind> {
        seq![TokenKind::BorrowRead, TokenKind::BorrowWrite, TokenKind::ReBorrow]
    }

    /// The ways in which a borrow statement can take its origin.
    pub fn borrow_modes_list() -> (kinds: Vec<TokenKind>)
        ensures
            kinds@ == borrow_modes(),
    {
        let mut kinds: Vec<TokenKind> = Vec::new();
        kinds.push(TokenKind::BorrowRead);
        kinds.push(TokenKind::BorrowWrite);
        kinds.push(TokenKind::ReBorrow);
        assert(kinds@ =~= borrow_modes());
        kinds
    }

/// The keyword of a binding statement: `let`, or `var` for a mutable binding.
#[verifier::opaque]
pub open spec fn binding_keyword_at(ts: Seq<Token>, pos: int) -> Parsed<bool> {
    match kind_at(ts, pos) {
        TokenKind::Let => Ok((false, 1)),
        TokenKind::Var => Ok((true, 1)),
        _ => fail(pos, binding_keywords()),
    }
}

/// Parses by the rule `binding_keyword_at` at a position: the value and the
/// position after it, or the failure.
pub fn parse_binding_keyword(ts: &[Token], pos: usize) -> (r: Result<(bool, usize), ParseError>)
    requires
        pos <= ts.len(),
    ensures
        parsed(r, pos, ts.len(), binding_keyword_at(ts@, pos as int)),
        r is Ok ==> r->Ok_0.1 > pos,
{
    proof {
        reveal(binding_keyword_at);
    }
    if pos >= ts.len() {
        return Err(unexpected(pos, binding_keywords_list()));
    }
    match peek(ts, pos) {
        TokenKind::Let => Ok((false, pos + 1)),
        TokenKind::Var => Ok((true, pos + 1)),
        _ => Err(unexpected(pos, binding_keywords_list())),
    }
}

/// The kind of reference of a borrow statement: `&` or `&!`.
#[verifier::opaque]
pub open spec fn borrow_mut_mode_at(ts: Seq<Token>, pos: int) -> Parsed<BorrowMutMode> {
    match kind_at(ts, pos) {
        TokenKind::BorrowRead => Ok((BorrowMutMode::Read, 1)),
        TokenKind::BorrowWrite => Ok((BorrowMutMode::Write, 1)),
        _ => fail(pos, borrow_kinds()),
    }
}

/// Parses by the rule `borrow_mut_mode_at` at a position: the value and the
/// position after it, or the failure.
pub fn parse_borrow_mut_mode(
    ts: &[Token],
    pos: usize,
) -> (r: Result<(BorrowMutMode, usize), ParseError>)
    requires
        pos <= ts.len(),
    ensures
        parsed(r, pos, ts.len(), borrow_mut_mode_at(ts@, pos as int)),
        r is Ok ==> r->Ok_0.1 > pos,
{
    proof {
        reveal(borrow_mut_mode_at);
    }
    if pos >= ts.len() {
        return Err(unexpected(pos, borrow_kinds_list()));
    }
    match peek(ts, pos) {
        TokenKind::BorrowRead => Ok((BorrowMutMode::Read, pos + 1)),
        TokenKind::BorrowWrite => Ok((BorrowMutMode::Write, pos + 1)),
        _ => Err(unexpected(pos, borrow_kinds_list())),
    }
}

/// The way a borrow statement takes its origin: `&`, `&!` or `&~`.
#[verifier::opaque]
pub open spec fn borrow_mode_at(ts: Seq<Token>, pos: int) -> Parsed<BorrowMode> {
    match kind_at(ts, pos) {
        TokenKind::BorrowRead => Ok((BorrowMode::Read, 1)),
        TokenKind::BorrowWrite => Ok((BorrowMode::Write, 1)),
        TokenKind::ReBorrow => Ok((BorrowMode::ReBorrow, 1)),
        _ => fail(pos, borrow_modes()),
    }
}

/// Parses by the rule `borrow_mode_at` at a position: the value and the
/// position after it, or the failure.
pub fn parse_borrow_mode(ts: &[Token], pos: usize) -> (r: Result<(BorrowMode, usize), ParseError>)
    requires
        pos <= ts.len(),
    ensures
        parsed(r, pos, ts.len(), borrow_mode_at(ts@, pos as int)),
        r is Ok ==> r->Ok_0.1 > pos,
{
    proof {
        reveal(borrow_mode_at);
    }
    if pos >= ts.len() {
        return Err(unexpected(pos, borrow_modes_list()));
    }
    match peek(ts, pos) {
        TokenKind::BorrowRead => Ok((BorrowMode::Read, pos + 1)),
        TokenKind::BorrowWrite => Ok((BorrowMode::Write, pos + 1)),
        TokenKind::ReBorrow => Ok((BorrowMode::ReBorrow, pos + 1)),
        _ => Err(unexpected(pos, borrow_modes_list())),
    }
}

/// The keyword of a binding statement as tokens.
pub open spec fn binding_keyword_tokens(v: bool) -> Seq<TokenView> {
    if v {
        plain(TokenKind::Var)
    } else {
        plain(TokenKind::Let)
    }
}

/// The kind of reference of a borrow statement as tokens.
pub open spec fn borrow_mut_mode_tokens(v: BorrowMutMode) -> Seq<TokenView> {
    match v {
        BorrowMutMode::Read => plain(TokenKind::BorrowRead),
        BorrowMutMode::Write => plain(TokenKind::BorrowWrite),
    }
}

/// The way a borrow statement takes its origin as tokens.
pub open spec fn borrow_mode_tokens(v: BorrowMode) -> Seq<TokenView> {
    match v {
        BorrowMode::Read => plain(TokenKind::BorrowRead),
        BorrowMode::Write => plain(TokenKind::BorrowWrite),
        BorrowMode::ReBorrow => plain(TokenKind::ReBorrow),
    }
}

/// What the rule `binding_keyword_at` read prints as the tokens that it read.
pub proof fn lemma_binding_keyword_spelled(ts: Seq<Token>, pos: int)
    requires
        0 <= pos <= ts.len(),
        binding_keyword_at(ts, pos) is Ok,
    ensures
        spelled(
            ts,
            pos,
            binding_keyword_at(ts, pos)->Ok_0.1,
            binding_keyword_tokens(binding_keyword_at(ts, pos)->Ok_0.0),
        ),
{
    reveal(binding_keyword_at);
    lemma_spelled_token(ts, pos, kind_at(ts, pos));
}

/// What the rule `borrow_mut_mode_at` read prints as the tokens that it read.
pub proof fn lemma_borrow_mut_mode_spelled(ts: Seq<Token>, pos: int)
    requires
        0 <= pos <= ts.len(),
        borrow_mut_mode_at(ts, pos) is Ok,
    ensures
        spelled(
            ts,
            pos,
            borrow_mut_mode_at(ts, pos)->Ok_0.1,
            borrow_mut_mode_tokens(borrow_mut_mode_at(ts, pos)->Ok_0.0),
        ),
{
    reveal(borrow_mut_mode_at);
    lemma_spelled_token(ts, pos, kind_at(ts, pos));
}

/// What the rule `borrow_mode_at` read prints as the tokens that it read.
pub proof fn lemma_borrow_mode_spelled(ts: Seq<Token>, pos: int)
    requires
        0 <= pos <= ts.len(),
        borrow_mode_at(ts, pos) is Ok,
    ensures
        spelled(
            ts,
            pos,
            borrow_mode_at(ts, pos)->Ok_0.1,
            borrow_mode_tokens(borrow_mode_at(ts, pos)->Ok_0.0),
        ),
{
    reveal(borrow_mode_at);
    lemma_spelled_token(ts, pos, kind_at(ts, pos));
}

/// The renaming of a binding: `as name`, or nothing.
#[verifier::opaque]
pub open spec fn rename_at(ts: Seq<Token>, pos: int) -> Parsed<Option<Seq<char>>>
{
    if kind_at(ts, pos) != TokenKind::As {
        Ok((None, 0))
    } else {
        match ident_at(ts, pos + 1) {
            Err(f) => Err(f),
            Ok((name, n1)) => {
                Ok((Some(name), n1 + 1))
            },
        }
    }
}

/// Parses by the rule `rename_at` at a position: the value and the position
/// after it, or the failure.
pub fn parse_rename(ts: &[Token], pos: usize) -> (r: Result<(Option<Ident>, usize), ParseError>)
    requires
        pos <= ts.len(),
    ensures
        parsed(r, pos, ts.len(), rename_at(ts@, pos as int)),
{
    proof {
        reveal(rename_at);
    }
    if peek(ts, pos) != TokenKind::As {
        return Ok((None, pos));
    }
    let p1 = expect(ts, pos, TokenKind::As)?;
    let (name, p2) = parse_ident(ts, p1)?;
    Ok((Some(name), p2))
}

/// What the rule `rename_at` gives, as tokens.
pub open spec fn rename_tokens(v: Option<Seq<char>>) -> Seq<TokenView>
{
    if v is None {
        Seq::empty()
    } else {
        plain(TokenKind::As) + ident_tokens(v->Some_0)
    }
}

/// The tokens that the rule `rename_at` read are the tokens that its value prints
/// as, unless it read a token that the value does not show.
pub proof fn lemma_rename_spelled(ts: Seq<Token>, pos: int)
    requires
        0 <= pos <= ts.len(),
        rename_at(ts, pos) is Ok,
    ensures
        spelled(ts, pos, rename_at(ts, pos)->Ok_0.1, rename_tokens(rename_at(ts, pos)->Ok_0.0)),
{
    reveal(rename_at);
    if kind_at(ts, pos) != TokenKind::As {
        lemma_spelled_nothing(ts, pos, 0);
    } else {
        lemma_spelled_token(ts, pos, TokenKind::As);
        let (name, n1) = ident_at(ts, pos + 1)->Ok_0;
        lemma_ident_spelled(ts, pos + 1);
        lemma_spelled_then(ts, pos, 1, plain(TokenKind::As), n1, ident_tokens(name));
        if (rename_at(ts, pos))->Ok_0.0 is None {
            lemma_spelled_nothing(ts, pos, 1 + n1);
        }
    }
}

/// The rule of bindings: `slot : T` or `slot as name : T`.
#[verifier::opaque]
pub open spec fn binding_at(ts: Seq<Token>, pos: int) -> Parsed<BindingView>
{
    match ident_at(ts, pos) {
        Err(f) => Err(f),
        Ok((name, n1)) => {
            match rename_at(ts, pos + n1) {
                Err(f) => Err(f),
                Ok((rename, n2)) => {
                    if kind_at(ts, pos + n1 + n2) != TokenKind::Colon {
                        fail(pos + n1 + n2, seq![TokenKind::Colon])
                    } else {
                        match type_spec_at(ts, pos + n1 + n2 + 1) {
                            Err(f) => Err(f),
                            Ok((ty, n3)) => {
                                Ok((BindingView { name, rename, ty }, n1 + n2 + n3 + 1))
                            },
                        }
                    }
                },
            }
        },
    }
}

/// Parses by the rule `binding_at` at a position: the value and the position
/// after it, or the failure.
pub fn parse_binding(ts: &[Token], pos: usize) -> (r: Result<(Binding, usize), ParseError>)
    requires
        pos <= ts.len(),
    ensures
        parsed(r, pos, ts.len(), binding_at(ts@, pos as int)),
        r is Ok ==> r->Ok_0.1 > pos,
{
    proof {
        reveal(binding_at);
    }
    let (name, p1) = parse_ident(ts, pos)?;
    let (rename, p2) = parse_rename(ts, p1)?;
    let p3 = expect(ts, p2, TokenKind::Colon)?;
    let (ty, p4) = parse_type_spec(ts, p3)?;
    Ok((Binding { name, rename, ty }, p4))
}

/// What the rule `binding_at` gives, as tokens.
pub open spec fn binding_tokens(v: BindingView) -> Seq<TokenView>
{
    ident_tokens(v.name)
        + rename_tokens(v.rename)
        + plain(TokenKind::Colon)
        + type_spec_tokens(v.ty)
}

/// The tokens that the rule `binding_at` read are the tokens that its value prints
/// as, unless it read a token that the value does not show.
pub proof fn lemma_binding_spelled(ts: Seq<Token>, pos: int)
    requires
        0 <= pos <= ts.len(),
        binding_at(ts, pos) is Ok,
    ensures
        spelled(ts, pos, binding_at(ts, pos)->Ok_0.1, binding_tokens(binding_at(ts, pos)->Ok_0.0)),
{
    reveal(binding_at);
    let (name, n1) = ident_at(ts, pos)->Ok_0;
    lemma_ident_spelled(ts, pos);
    let (rename, n2) = rename_at(ts, pos + n1)->Ok_0;
    lemma_rename_spelled(ts, pos + n1);
    lemma_spelled_token(ts, pos + n1 + n2, TokenKind::Colon);
    let (ty, n3) = type_spec_at(ts, pos + n1 + n2 + 1)->Ok_0;
    lemma_type_spec_spelled(ts, pos + n1 + n2 + 1);
    lemma_spelled_then(ts, pos, n1, ident_tokens(name), n2, rename_tokens(rename));
    lemma_spelled_then(
        ts,
        pos,
        n1 + n2,
        ident_tokens(name) + rename_tokens(rename),
        1,
        plain(TokenKind::Colon),
    );
    lemma_spelled_then(
        ts,
        pos,
        n1 + n2 + 1,
        ident_tokens(name) + rename_tokens(rename) + plain(TokenKind::Colon),
        n3,
        type_spec_tokens(ty),
    );
}

/// Bindings separated by commas, where a comma may follow the last.
#[verifier::opaque]
pub open spec fn bindings_at(ts: Seq<Token>, pos: int, acc: Seq<BindingView>) -> Listed<BindingView>
    decreases ts.len() - pos,
{
    match binding_at(ts, pos) {
        Err(f) => Listed { items: acc, taken: 0, stopped: f },
        Ok((item, n)) => if kind_at(ts, pos + n) == TokenKind::Comma {
            bindings_at(ts, pos + n + 1, acc.push(item)).advance(n + 1)
        } else {
            Listed {
                items: acc.push(item),
                taken: n,
                stopped: ParseFailure { at: pos + n, expected: seq![TokenKind::Comma] },
            }
        },
    }
}

/// Parses the items of a list from a position by the rule `bindings_at`: the
/// items, the position after them, and the failure that ended the list.
pub fn parse_bindings(ts: &[Token], pos: usize) -> (r: (Vec<Binding>, usize, ParseError))
    requires
        pos <= ts.len(),
    ensures
        listed(r, pos, ts.len(), bindings_at(ts@, pos as int, Seq::empty())),
{
    let mut items: Vec<Binding> = Vec::new();
    let mut cur: usize = pos;
    let mut stopped: Option<ParseError> = None;
    assert(items.deep_view() =~= Seq::empty());
    while stopped.is_none()
        invariant
            pos <= cur <= ts.len(),
            stopped is None ==> bindings_at(ts@, pos as int, Seq::empty()) == bindings_at(
                ts@,
                cur as int,
                items.deep_view(),
            ).advance((cur - pos) as nat),
            stopped is Some ==> bindings_at(ts@, pos as int, Seq::empty()) == (Listed {
                items: items.deep_view(),
                taken: (cur - pos) as nat,
                stopped: stopped->0@,
            }),
        decreases ts.len() - cur + (if stopped is None { 1int } else { 0int }),
    {
        proof {
            reveal(bindings_at);
        }
        match parse_binding(ts, cur) {
            Err(e) => {
                stopped = Some(e);
            },
            Ok((item, p)) => {
                let ghost before = items.deep_view();
                let ghost added = item.deep_view();
                items.push(item);
                assert(items.deep_view() =~= before.push(added));
                if peek(ts, p) == TokenKind::Comma {
                    cur = p + 1;
                } else {
                    cur = p;
                    stopped = Some(missing(p, TokenKind::Comma));
                }
            },
        }
    }
    (items, cur, stopped.unwrap())
}

/// The items of a list that the rule `bindings_at` gives, from index `from` on, as
/// tokens, with commas between them.
pub open spec fn bindings_tokens(items: Seq<BindingView>, from: nat) -> Seq<TokenView>
    decreases items.len() - from,
{
    if from >= items.len() {
        Seq::empty()
    } else if from + 1 == items.len() {
        binding_tokens(items[from as int])
    } else {
        binding_tokens(items[from as int]) + plain(TokenKind::Comma) + bindings_tokens(
            items,
            from + 1,
        )
    }
}

/// The tokens that the list rule `bindings_at` read are the tokens that the
/// items it added print as, unless it read a token that they do not show.
/// The list keeps the items it started from.
pub proof fn lemma_bindings_spelled(ts: Seq<Token>, pos: int, acc: Seq<BindingView>)
    requires
        0 <= pos <= ts.len(),
    ensures
        bindings_at(ts, pos, acc).items.len() >= acc.len(),
        bindings_at(ts, pos, acc).items.len() == acc.len() ==> bindings_at(ts, pos, acc).taken == 0,
        forall|i: int| 0 <= i < acc.len() ==> bindings_at(ts, pos, acc).items[i] == acc[i],
        spelled(
            ts,
            pos,
            bindings_at(ts, pos, acc).taken,
            bindings_tokens(bindings_at(ts, pos, acc).items, acc.len()),
        ),
    decreases ts.len() - pos,
{
    reveal(bindings_at);
    match binding_at(ts, pos) {
        Err(_) => {
            lemma_spelled_nothing(ts, pos, 0);
        },
        Ok((item, n)) => {
            let pushed = acc.push(item);
            assert forall|i: int| 0 <= i < acc.len() implies pushed[i] == acc[i] by {}
            lemma_binding_spelled(ts, pos);
            if kind_at(ts, pos + n) == TokenKind::Comma {
                let rest = bindings_at(ts, pos + n + 1, pushed);
                lemma_bindings_spelled(ts, pos + n + 1, pushed);
                assert(pushed[acc.len() as int] == item);
                assert(rest.items[acc.len() as int] == pushed[acc.len() as int]);
                if rest.items.len() == pushed.len() {
                    lemma_spelled_more(ts, pos, n, binding_tokens(item), 1);
                } else {
                    lemma_spelled_token(ts, pos + n, TokenKind::Comma);
                    lemma_spelled_then(
                        ts,
                        pos,
                        n,
                        binding_tokens(item),
                        1,
                        plain(TokenKind::Comma),
                    );
                    lemma_spelled_then(
                        ts,
                        pos,
                        n + 1,
                        binding_tokens(item) + plain(TokenKind::Comma),
                        rest.taken,
                        bindings_tokens(rest.items, pushed.len()),
                    );
                }
            } else {
                assert(pushed[acc.len() as int] == item);
            }
        },
    }
}

/// The target of a binding statement that binds one variable: `name : T`.
#[verifier::opaque]
pub open spec fn simple_target_at(ts: Seq<Token>, pos: int) -> Parsed<LetStmtTargetView>
{
    match ident_at(ts, pos) {
        Err(f) => Err(f),
        Ok((name, n1)) => {
            if kind_at(ts, pos + n1) != TokenKind::Colon {
                fail(pos + n1, seq![TokenKind::Colon])
            } else {
                match type_spec_at(ts, pos + n1 + 1) {
                    Err(f) => Err(f),
                    Ok((ty, n2)) => {
                        Ok((LetStmtTargetView::Simple { name, ty }, n1 + n2 + 1))
                    },
                }
            }
        },
    }
}

/// Parses by the rule `simple_target_at` at a position: the value and the
/// position after it, or the failure.
pub fn parse_simple_target(
    ts: &[Token],
    pos: usize,
) -> (r: Result<(LetStmtTarget, usize), ParseError>)
    requires
        pos <= ts.len(),
    ensures
        parsed(r, pos, ts.len(), simple_target_at(ts@, pos as int)),
        r is Ok ==> r->Ok_0.1 > pos,
{
    proof {
        reveal(simple_target_at);
    }
    let (name, p1) = parse_ident(ts, pos)?;
    let p2 = expect(ts, p1, TokenKind::Colon)?;
    let (ty, p3) = parse_type_spec(ts, p2)?;
    Ok((LetStmtTarget::Simple { name, ty }, p3))
}

/// What the rule `simple_target_at` gives, as tokens.
pub open spec fn simple_target_tokens(v: LetStmtTargetView) -> Seq<TokenView>
{
    ident_tokens(v->Simple_name)
        + plain(TokenKind::Colon)
        + type_spec_tokens(v->Simple_ty)
}

/// The tokens that the rule `simple_target_at` read are the tokens that its value prints
/// as, unless it read a token that the value does not show.
pub proof fn lemma_simple_target_spelled(ts: Seq<Token>, pos: int)
    requires
        0 <= pos <= ts.len(),
        simple_target_at(ts, pos) is Ok,
    ensures
        spelled(
            ts,
            pos,
            simple_target_at(ts, pos)->Ok_0.1,
            simple_target_tokens(simple_target_at(ts, pos)->Ok_0.0),
        ),
{
    reveal(simple_target_at);
    let (name, n1) = ident_at(ts, pos)->Ok_0;
    lemma_ident_spelled(ts, pos);
    lemma_spelled_token(ts, pos + n1, TokenKind::Colon);
    let (ty, n2) = type_spec_at(ts, pos + n1 + 1)->Ok_0;
    lemma_type_spec_spelled(ts, pos + n1 + 1);
    lemma_spelled_then(ts, pos, n1, ident_tokens(name), 1, plain(TokenKind::Colon));
    lemma_spelled_then(
        ts,
        pos,
        n1 + 1,
        ident_tokens(name) + plain(TokenKind::Colon),
        n2,
        type_spec_tokens(ty),
    );
}

/// The target of a binding statement that takes a record apart: bindings in braces.
#[verifier::opaque]
pub open spec fn destructure_target_at(ts: Seq<Token>, pos: int) -> Parsed<LetStmtTargetView>
{
    if kind_at(ts, pos) != TokenKind::LBrace {
        fail(pos, seq![TokenKind::LBrace])
    } else {
        let bindings_list = bindings_at(ts, pos + 1, Seq::empty());
        let bindings = bindings_list.items;
        let n1 = bindings_list.taken;
        match closing(ts, pos + n1 + 1, TokenKind::RBrace, bindings_list.stopped) {
            Some(f) => Err(f),
            None => {
                Ok((LetStmtTargetView::Destructure(bindings), n1 + 2))
            },
        }
    }
}

/// Parses by the rule `destructure_target_at` at a position: the value and the
/// position after it, or the failure.
pub fn parse_destructure_target(
    ts: &[Token],
    pos: usize,
) -> (r: Result<(LetStmtTarget, usize), ParseError>)
    requires
        pos <= ts.len(),
    ensures
        parsed(r, pos, ts.len(), destructure_target_at(ts@, pos as int)),
        r is Ok ==> r->Ok_0.1 > pos,
{
    proof {
        reveal(destructure_target_at);
    }
    let p1 = expect(ts, pos, TokenKind::LBrace)?;
    let (bindings, bindings_end, bindings_stopped) = parse_bindings(ts, p1);
    let p2 = close(ts, bindings_end, TokenKind::RBrace, bindings_stopped)?;
    Ok((LetStmtTarget::Destructure(bindings), p2))
}

/// What the rule `destructure_target_at` gives, as tokens.
pub open spec fn destructure_target_tokens(v: LetStmtTargetView) -> Seq<TokenView>
{
    plain(TokenKind::LBrace)
        + bindings_tokens(v->Destructure_0, 0)
        + plain(TokenKind::RBrace)
}

/// The tokens that the rule `destructure_target_at` read are the tokens that its value prints
/// as, unless it read a token that the value does not show.
pub proof fn lemma_destructure_target_spelled(ts: Seq<Token>, pos: int)
    requires
        0 <= pos <= ts.len(),
        destructure_target_at(ts, pos) is Ok,
    ensures
        spelled(
            ts,
            pos,
            destructure_target_at(ts, pos)->Ok_0.1,
            destructure_target_tokens(destructure_target_at(ts, pos)->Ok_0.0),
        ),
{
    reveal(destructure_target_at);
    lemma_spelled_token(ts, pos, TokenKind::LBrace);
    let bindings_list = bindings_at(ts, pos + 1, Seq::empty());
    let bindings = bindings_list.items;
    let n1 = bindings_list.taken;
    lemma_bindings_spelled(ts, pos + 1, Seq::empty());
    lemma_spelled_token(ts, pos + n1 + 1, TokenKind::RBrace);
    lemma_spelled_then(ts, pos, 1, plain(TokenKind::LBrace), n1, bindings_tokens(bindings, 0));
    lemma_spelled_then(
        ts,
        pos,
        1 + n1,
        plain(TokenKind::LBrace) + bindings_tokens(bindings, 0),
        1,
        plain(TokenKind::RBrace),
    );
}

/// The target of a binding statement: bindings in braces, or one typed
/// variable.
#[verifier::opaque]
pub open spec fn let_target_at(ts: Seq<Token>, pos: int) -> Parsed<LetStmtTargetView> {
    if kind_at(ts, pos) == TokenKind::LBrace {
        destructure_target_at(ts, pos)
    } else {
        simple_target_at(ts, pos)
    }
}

/// Parses by the rule `let_target_at` at a position: the value and the position
/// after it, or the failure.
pub fn parse_let_target(ts: &[Token], pos: usize) -> (r: Result<(LetStmtTarget, usize), ParseError>)
    requires
        pos <= ts.len(),
    ensures
        parsed(r, pos, ts.len(), let_target_at(ts@, pos as int)),
        r is Ok ==> r->Ok_0.1 > pos,
{
    proof {
        reveal(let_target_at);
    }
    if peek(ts, pos) == TokenKind::LBrace {
        parse_destructure_target(ts, pos)
    } else {
        parse_simple_target(ts, pos)
    }
}

/// The target of a binding statement as tokens.
pub open spec fn let_target_tokens(v: LetStmtTargetView) -> Seq<TokenView> {
    match v {
        LetStmtTargetView::Simple { .. } => simple_target_tokens(v),
        LetStmtTargetView::Destructure(_) => destructure_target_tokens(v),
    }
}

/// What the rule `let_target_at` read prints as the tokens that it read.
pub proof fn lemma_let_target_spelled(ts: Seq<Token>, pos: int)
    requires
        0 <= pos <= ts.len(),
        let_target_at(ts, pos) is Ok,
    ensures
        spelled(
            ts,
            pos,
            let_target_at(ts, pos)->Ok_0.1,
            let_target_tokens(let_target_at(ts, pos)->Ok_0.0),
        ),
{
    reveal(let_target_at);
    reveal(destructure_target_at);
    reveal(simple_target_at);
    if kind_at(ts, pos) == TokenKind::LBrace {
        lemma_destructure_target_spelled(ts, pos);
    } else {
        lemma_simple_target_spelled(ts, pos);
    }
}

/// The rule of binding statements: `let target := value;` or `var target := value;`.
#[verifier::opaque]
pub open spec fn let_stmt_at(ts: Seq<Token>, pos: int) -> Parsed<LetStmtView>
{
    match binding_keyword_at(ts, pos) {
        Err(f) => Err(f),
        Ok((is_mutable, n1)) => {
            match let_target_at(ts, pos + n1) {
                Err(f) => Err(f),
                Ok((target, n2)) => {
                    if kind_at(ts, pos + n1 + n2) != TokenKind::Assign {
                        fail(pos + n1 + n2, seq![TokenKind::Assign])
                    } else {
                        match expression_at(ts, pos + n1 + n2 + 1) {
                            Err(f) => Err(f),
                            Ok((value, n3)) => {
                                if kind_at(ts, pos + n1 + n2 + n3 + 1) != TokenKind::Semi {
                                    fail(pos + n1 + n2 + n3 + 1, seq![TokenKind::Semi])
                                } else {
                                    Ok((LetStmtView { is_mutable, target, value }, n1 + n2 + n3 + 2))
                                }
                            },
                        }
                    }
                },
            }
        },
    }
}

/// Parses by the rule `let_stmt_at` at a position: the value and the position
/// after it, or the failure.
pub fn parse_let_stmt(ts: &[Token], pos: usize) -> (r: Result<(LetStmt, usize), ParseError>)
    requires
        pos <= ts.len(),
    ensures
        parsed(r, pos, ts.len(), let_stmt_at(ts@, pos as int)),
        r is Ok ==> r->Ok_0.1 > pos,
{
    proof {
        reveal(let_stmt_at);
        reveal(binding_keyword_at);
        reveal(let_target_at);
    }
    let (is_mutable, p1) = parse_binding_keyword(ts, pos)?;
    let (target, p2) = parse_let_target(ts, p1)?;
    let p3 = expect(ts, p2, TokenKind::Assign)?;
    let (value, p4) = parse_expression(ts, p3)?;
    let p5 = expect(ts, p4, TokenKind::Semi)?;
    Ok((LetStmt { is_mutable, target, value }, p5))
}

/// What the rule `let_stmt_at` gives, as tokens.
pub open spec fn let_stmt_tokens(v: LetStmtView) -> Seq<TokenView>
{
    binding_keyword_tokens(v.is_mutable)
        + let_target_tokens(v.target)
        + plain(TokenKind::Assign)
        + expression_tokens(v.value)
        + plain(TokenKind::Semi)
}

/// The tokens that the rule `let_stmt_at` read are the tokens that its value prints
/// as, unless it read a token that the value does not show.
pub proof fn lemma_let_stmt_spelled(ts: Seq<Token>, pos: int)
    requires
        0 <= pos <= ts.len(),
        let_stmt_at(ts, pos) is Ok,
    ensures
        spelled(
            ts,
            pos,
            let_stmt_at(ts, pos)->Ok_0.1,
            let_stmt_tokens(let_stmt_at(ts, pos)->Ok_0.0),
        ),
{
    reveal(let_stmt_at);
    reveal(binding_keyword_at);
    reveal(let_target_at);
    let (is_mutable, n1) = binding_keyword_at(ts, pos)->Ok_0;
    lemma_binding_keyword_spelled(ts, pos);
    let (target, n2) = let_target_at(ts, pos + n1)->Ok_0;
    lemma_let_target_spelled(ts, pos + n1);
    lemma_spelled_token(ts, pos + n1 + n2, TokenKind::Assign);
    let (value, n3) = expression_at(ts, pos + n1 + n2 + 1)->Ok_0;
    lemma_expression_spelled(ts, pos + n1 + n2 + 1);
    lemma_spelled_token(ts, pos + n1 + n2 + n3 + 1, TokenKind::Semi);
    lemma_spelled_then(
        ts,
        pos,
        n1,
        binding_keyword_tokens(is_mutable),
        n2,
        let_target_tokens(target),
    );
    lemma_spelled_then(
        ts,
        pos,
        n1 + n2,
        binding_keyword_tokens(is_mutable) + let_target_tokens(target),
        1,
        plain(TokenKind::Assign),
    );
    lemma_spelled_then(
        ts,
        pos,
        n1 + n2 + 1,
        binding_keyword_tokens(is_mutable) + let_target_tokens(target) + plain(TokenKind::Assign),
        n3,
        expression_tokens(value),
    );
    lemma_spelled_then(
        ts,
        pos,
        n1 + n2 + 1 + n3,
        binding_keyword_tokens(is_mutable)
            + let_target_tokens(target)
            + plain(TokenKind::Assign)
            + expression_tokens(value),
        1,
        plain(TokenKind::Semi),
    );
}

/// The rule of assignments: `path := value;`.
#[verifier::opaque]
pub open spec fn assign_at(ts: Seq<Token>, pos: int) -> Parsed<AssignStmtView>
{
    match path_at(ts, pos) {
        Err(f) => Err(f),
        Ok((target, n1)) => {
            if kind_at(ts, pos + n1) != TokenKind::Assign {
                fail(pos + n1, seq![TokenKind::Assign])
            } else {
                match expression_at(ts, pos + n1 + 1) {
                    Err(f) => Err(f),
                    Ok((value, n2)) => {
                        if kind_at(ts, pos + n1 + n2 + 1) != TokenKind::Semi {
                            fail(pos + n1 + n2 + 1, seq![TokenKind::Semi])
                        } else {
                            Ok((AssignStmtView { target, value }, n1 + n2 + 2))
                        }
                    },
                }
            }
        },
    }
}

/// Parses by the rule `assign_at` at a position: the value and the position
/// after it, or the failure.
pub fn parse_assign(ts: &[Token], pos: usize) -> (r: Result<(AssignStmt, usize), ParseError>)
    requires
        pos <= ts.len(),
    ensures
        parsed(r, pos, ts.len(), assign_at(ts@, pos as int)),
        r is Ok ==> r->Ok_0.1 > pos,
{
    proof {
        reveal(assign_at);
    }
    let (target, p1) = parse_path(ts, pos)?;
    let p2 = expect(ts, p1, TokenKind::Assign)?;
    let (value, p3) = parse_expression(ts, p2)?;
    let p4 = expect(ts, p3, TokenKind::Semi)?;
    Ok((AssignStmt { target, value }, p4))
}

/// What the rule `assign_at` gives, as tokens.
pub open spec fn assign_tokens(v: AssignStmtView) -> Seq<TokenView>
{
    path_tokens(v.target)
        + plain(TokenKind::Assign)
        + expression_tokens(v.value)
        + plain(TokenKind::Semi)
}

/// The tokens that the rule `assign_at` read are the tokens that its value prints
/// as, unless it read a token that the value does not show.
pub proof fn lemma_assign_spelled(ts: Seq<Token>, pos: int)
    requires
        0 <= pos <= ts.len(),
        assign_at(ts, pos) is Ok,
    ensures
        spelled(ts, pos, assign_at(ts, pos)->Ok_0.1, assign_tokens(assign_at(ts, pos)->Ok_0.0)),
{
    reveal(assign_at);
    let (target, n1) = path_at(ts, pos)->Ok_0;
    lemma_path_spelled(ts, pos);
    lemma_spelled_token(ts, pos + n1, TokenKind::Assign);
    let (value, n2) = expression_at(ts, pos + n1 + 1)->Ok_0;
    lemma_expression_spelled(ts, pos + n1 + 1);
    lemma_spelled_token(ts, pos + n1 + n2 + 1, TokenKind::Semi);
    lemma_spelled_then(ts, pos, n1, path_tokens(target), 1, plain(TokenKind::Assign));
    lemma_spelled_then(
        ts,
        pos,
        n1 + 1,
        path_tokens(target) + plain(TokenKind::Assign),
        n2,
        expression_tokens(value),
    );
    lemma_spelled_then(
        ts,
        pos,
        n1 + 1 + n2,
        path_tokens(target) + plain(TokenKind::Assign) + expression_tokens(value),
        1,
        plain(TokenKind::Semi),
    );
}

/// The rule of return statements: `return value;`. It gives the value.
#[verifier::opaque]
pub open spec fn return_stmt_at(ts: Seq<Token>, pos: int) -> Parsed<ExpressionView>
{
    if kind_at(ts, pos) != TokenKind::Return {
        fail(pos, seq![TokenKind::Return])
    } else {
        match expression_at(ts, pos + 1) {
            Err(f) => Err(f),
            Ok((value, n1)) => {
                if kind_at(ts, pos + n1 + 1) != TokenKind::Semi {
                    fail(pos + n1 + 1, seq![TokenKind::Semi])
                } else {
                    Ok((value, n1 + 2))
                }
            },
        }
    }
}

/// Parses by the rule `return_stmt_at` at a position: the value and the
/// position after it, or the failure.
pub fn parse_return_stmt(ts: &[Token], pos: usize) -> (r: Result<(Expression, usize), ParseError>)
    requires
        pos <= ts.len(),
    ensures
        parsed(r, pos, ts.len(), return_stmt_at(ts@, pos as int)),
        r is Ok ==> r->Ok_0.1 > pos,
{
    proof {
        reveal(return_stmt_at);
    }
    let p1 = expect(ts, pos, TokenKind::Return)?;
    let (value, p2) = parse_expression(ts, p1)?;
    let p3 = expect(ts, p2, TokenKind::Semi)?;
    Ok((value, p3))
}

/// What the rule `return_stmt_at` gives, as tokens.
pub open spec fn return_stmt_tokens(v: ExpressionView) -> Seq<TokenView>
{
    plain(TokenKind::Return)
        + expression_tokens(v)
        + plain(TokenKind::Semi)
}

/// The tokens that the rule `return_stmt_at` read are the tokens that its value prints
/// as, unless it read a token that the value does not show.
pub proof fn lemma_return_stmt_spelled(ts: Seq<Token>, pos: int)
    requires
        0 <= pos <= ts.len(),
        return_stmt_at(ts, pos) is Ok,
    ensures
        spelled(
            ts,
            pos,
            return_stmt_at(ts, pos)->Ok_0.1,
            return_stmt_tokens(return_stmt_at(ts, pos)->Ok_0.0),
        ),
{
    reveal(return_stmt_at);
    lemma_spelled_token(ts, pos, TokenKind::Return);
    let (value, n1) = expression_at(ts, pos + 1)->Ok_0;
    lemma_expression_spelled(ts, pos + 1);
    lemma_spelled_token(ts, pos + n1 + 1, TokenKind::Semi);
    lemma_spelled_then(ts, pos, 1, plain(TokenKind::Return), n1, expression_tokens(value));
    lemma_spelled_then(
        ts,
        pos,
        1 + n1,
        plain(TokenKind::Return) + expression_tokens(value),
        1,
        plain(TokenKind::Semi),
    );
}

/// The rule of expression statements: `value;`. It gives the value.
#[verifier::opaque]
pub open spec fn discard_at(ts: Seq<Token>, pos: int) -> Parsed<ExpressionView>
{
    match expression_at(ts, pos) {
        Err(f) => Err(f),
        Ok((value, n1)) => {
            if kind_at(ts, pos + n1) != TokenKind::Semi {
                fail(pos + n1, seq![TokenKind::Semi])
            } else {
                Ok((value, n1 + 1))
            }
        },
    }
}

/// Parses by the rule `discard_at` at a position: the value and the position
/// after it, or the failure.
pub fn parse_discard(ts: &[Token], pos: usize) -> (r: Result<(Expression, usize), ParseError>)
    requires
        pos <= ts.len(),
    ensures
        parsed(r, pos, ts.len(), discard_at(ts@, pos as int)),
        r is Ok ==> r->Ok_0.1 > pos,
{
    proof {
        reveal(discard_at);
    }
    let (value, p1) = parse_expression(ts, pos)?;
    let p2 = expect(ts, p1, TokenKind::Semi)?;
    Ok((value, p2))
}

/// What the rule `discard_at` gives, as tokens.
pub open spec fn discard_tokens(v: ExpressionView) -> Seq<TokenView>
{
    expression_tokens(v) + plain(TokenKind::Semi)
}

/// The tokens that the rule `discard_at` read are the tokens that its value prints
/// as, unless it read a token that the value does not show.
pub proof fn lemma_discard_spelled(ts: Seq<Token>, pos: int)
    requires
        0 <= pos <= ts.len(),
        discard_at(ts, pos) is Ok,
    ensures
        spelled(ts, pos, discard_at(ts, pos)->Ok_0.1, discard_tokens(discard_at(ts, pos)->Ok_0.0)),
{
    reveal(discard_at);
    let (value, n1) = expression_at(ts, pos)->Ok_0;
    lemma_expression_spelled(ts, pos);
    lemma_spelled_token(ts, pos + n1, TokenKind::Semi);
    lemma_spelled_then(ts, pos, n1, expression_tokens(value), 1, plain(TokenKind::Semi));
}

/// The rule of borrow statements: `borrow name : &[T, region] := &origin is ... end`, where the first `&` may be `&!` and the second `&!` or `&~`.
#[verifier::opaque]
pub open spec fn borrow_stmt_at(ts: Seq<Token>, pos: int) -> Parsed<BorrowStmtView>
    decreases ts.len() - pos, 0int,
{
    if kind_at(ts, pos) != TokenKind::Borrow {
        fail(pos, seq![TokenKind::Borrow])
    } else {
        match ident_at(ts, pos + 1) {
            Err(f) => Err(f),
            Ok((name, n1)) => {
                if kind_at(ts, pos + n1 + 1) != TokenKind::Colon {
                    fail(pos + n1 + 1, seq![TokenKind::Colon])
                } else {
                    match borrow_mut_mode_at(ts, pos + n1 + 2) {
                        Err(f) => Err(f),
                        Ok((mut_mode, n2)) => {
                            if kind_at(ts, pos + n1 + n2 + 2) != TokenKind::LBracket {
                                fail(pos + n1 + n2 + 2, seq![TokenKind::LBracket])
                            } else {
                                match type_spec_at(ts, pos + n1 + n2 + 3) {
                                    Err(f) => Err(f),
                                    Ok((ty, n3)) => {
                                        if kind_at(ts, pos + n1 + n2 + n3 + 3) != TokenKind::Comma {
                                            fail(pos + n1 + n2 + n3 + 3, seq![TokenKind::Comma])
                                        } else {
                                            match ident_at(ts, pos + n1 + n2 + n3 + 4) {
                                                Err(f) => Err(f),
                                                Ok((reg, n4)) => {
                                                    if kind_at(
                                                        ts,
                                                        pos + n1 + n2 + n3 + n4 + 4,
                                                    ) != TokenKind::RBracket {
                                                        fail(
                                                            pos + n1 + n2 + n3 + n4 + 4,
                                                            seq![TokenKind::RBracket],
                                                        )
                                                    } else {
                                                        if kind_at(
                                                            ts,
                                                            pos + n1 + n2 + n3 + n4 + 5,
                                                        ) != TokenKind::Assign {
                                                            fail(
                                                                pos + n1 + n2 + n3 + n4 + 5,
                                                                seq![TokenKind::Assign],
                                                            )
                                                        } else {
                                                            match borrow_mode_at(
                                                                ts,
                                                                pos + n1 + n2 + n3 + n4 + 6,
                                                            ) {
                                                                Err(f) => Err(f),
                                                                Ok((mode, n5)) => {
                                                                    match ident_at(
                                                                        ts,
                                                                        pos
                                                                            + n1
                                                                            + n2
                                                                            + n3
                                                                            + n4
                                                                            + n5
                                                                            + 6,
                                                                    ) {
                                                                        Err(f) => Err(f),
                                                                        Ok((orig, n6)) => {
                                                                            if kind_at(
                                                                                ts,
                                                                                pos
                                                                                    + n1
                                                                                    + n2
                                                                                    + n3
                                                                                    + n4
                                                                                    + n5
                                                                                    + n6
                                                                                    + 6,
                                                                            ) != TokenKind::Is {
                                                                                fail(
                                                                                    pos
                                                                                        + n1
                                                                                        + n2
                                                                                        + n3
                                                                                        + n4
                                                                                        + n5
                                                                                        + n6
                                                                                        + 6,
                                                                                    seq![TokenKind::Is],
                                                                                )
                                                                            } else {
                                                                                let body_list = block_at(
                                                                                    ts,
                                                                                    pos
                                                                                        + n1
                                                                                        + n2
                                                                                        + n3
                                                                                        + n4
                                                                                        + n5
                                                                                        + n6
                                                                                        + 7,
                                                                                    Seq::empty(),
                                                                                );
                                                                                let body = body_list.items;
                                                                                let n7 = body_list.taken;
                                                                                match closing(
                                                                                    ts,
                                                                                    pos
                                                                                        + n1
                                                                                        + n2
                                                                                        + n3
                                                                                        + n4
                                                                                        + n5
                                                                                        + n6
                                                                                        + n7
                                                                                        + 7,
                                                                                    TokenKind::End,
                                                                                    body_list.stopped,
                                                                                ) {
                                                                                    Some(f) => Err(f),
                                                                                    None => {
                                                                                        Ok((BorrowStmtView { name, mut_mode, ty, reg, mode, orig, body }, n1 + n2 + n3 + n4 + n5 + n6 + n7 + 8))
                                                                                    },
                                                                                }
                                                                            }
                                                                        },
                                                                    }
                                                                },
                                                            }
                                                        }
                                                    }
                                                },
                                            }
                                        }
                                    },
                                }
                            }
                        },
                    }
                }
            },
        }
    }
}

/// Parses by the rule `borrow_stmt_at` at a position: the value and the
/// position after it, or the failure.
pub fn parse_borrow_stmt(ts: &[Token], pos: usize) -> (r: Result<(BorrowStmt, usize), ParseError>)
    requires
        pos <= ts.len(),
    ensures
        parsed(r, pos, ts.len(), borrow_stmt_at(ts@, pos as int)),
        r is Ok ==> r->Ok_0.1 > pos,
    decreases ts.len() - pos, 0int,
{
    proof {
        reveal(borrow_stmt_at);
        reveal(borrow_mut_mode_at);
        reveal(borrow_mode_at);
        reveal(block_at);
    }
    let p1 = expect(ts, pos, TokenKind::Borrow)?;
    let (name, p2) = parse_ident(ts, p1)?;
    let p3 = expect(ts, p2, TokenKind::Colon)?;
    let (mut_mode, p4) = parse_borrow_mut_mode(ts, p3)?;
    let p5 = expect(ts, p4, TokenKind::LBracket)?;
    let (ty, p6) = parse_type_spec(ts, p5)?;
    let p7 = expect(ts, p6, TokenKind::Comma)?;
    let (reg, p8) = parse_ident(ts, p7)?;
    let p9 = expect(ts, p8, TokenKind::RBracket)?;
    let p10 = expect(ts, p9, TokenKind::Assign)?;
    let (mode, p11) = parse_borrow_mode(ts, p10)?;
    let (orig, p12) = parse_ident(ts, p11)?;
    let p13 = expect(ts, p12, TokenKind::Is)?;
    let (body, body_end, body_stopped) = parse_block(ts, p13);
    let p14 = close(ts, body_end, TokenKind::End, body_stopped)?;
    let ghost body_view = body.deep_view();
    let node = BorrowStmt { name, mut_mode, ty, reg, mode, orig, body };
    assert(node.deep_view().body =~= body_view);
    Ok((node, p14))
}

/// What the rule `borrow_stmt_at` gives, as tokens.
pub open spec fn borrow_stmt_tokens(v: BorrowStmtView) -> Seq<TokenView>
    decreases v,
{
    plain(TokenKind::Borrow)
        + ident_tokens(v.name)
        + plain(TokenKind::Colon)
        + borrow_mut_mode_tokens(v.mut_mode)
        + plain(TokenKind::LBracket)
        + type_spec_tokens(v.ty)
        + plain(TokenKind::Comma)
        + ident_tokens(v.reg)
        + plain(TokenKind::RBracket)
        + plain(TokenKind::Assign)
        + borrow_mode_tokens(v.mode)
        + ident_tokens(v.orig)
        + plain(TokenKind::Is)
        + block_tokens(v.body, 0)
        + plain(TokenKind::End)
}

/// The tokens that the rule `borrow_stmt_at` read are the tokens that its value prints
/// as, unless it read a token that the value does not show.
pub proof fn lemma_borrow_stmt_spelled(ts: Seq<Token>, pos: int)
    requires
        0 <= pos <= ts.len(),
        borrow_stmt_at(ts, pos) is Ok,
    ensures
        spelled(
            ts,
            pos,
            borrow_stmt_at(ts, pos)->Ok_0.1,
            borrow_stmt_tokens(borrow_stmt_at(ts, pos)->Ok_0.0),
        ),
    decreases ts.len() - pos, 0int,
{
    reveal(borrow_stmt_at);
    reveal(borrow_mut_mode_at);
    reveal(borrow_mode_at);
    reveal(block_at);
    lemma_spelled_token(ts, pos, TokenKind::Borrow);
    let (name, n1) = ident_at(ts, pos + 1)->Ok_0;
    lemma_ident_spelled(ts, pos + 1);
    lemma_spelled_token(ts, pos + n1 + 1, TokenKind::Colon);
    let (mut_mode, n2) = borrow_mut_mode_at(ts, pos + n1 + 2)->Ok_0;
    lemma_borrow_mut_mode_spelled(ts, pos + n1 + 2);
    lemma_spelled_token(ts, pos + n1 + n2 + 2, TokenKind::LBracket);
    let (ty, n3) = type_spec_at(ts, pos + n1 + n2 + 3)->Ok_0;
    lemma_type_spec_spelled(ts, pos + n1 + n2 + 3);
    lemma_spelled_token(ts, pos + n1 + n2 + n3 + 3, TokenKind::Comma);
    let (reg, n4) = ident_at(ts, pos + n1 + n2 + n3 + 4)->Ok_0;
    lemma_ident_spelled(ts, pos + n1 + n2 + n3 + 4);
    lemma_spelled_token(ts, pos + n1 + n2 + n3 + n4 + 4, TokenKind::RBracket);
    lemma_spelled_token(ts, pos + n1 + n2 + n3 + n4 + 5, TokenKind::Assign);
    let (mode, n5) = borrow_mode_at(ts, pos + n1 + n2 + n3 + n4 + 6)->Ok_0;
    lemma_borrow_mode_spelled(ts, pos + n1 + n2 + n3 + n4 + 6);
    let (orig, n6) = ident_at(ts, pos + n1 + n2 + n3 + n4 + n5 + 6)->Ok_0;
    lemma_ident_spelled(ts, pos + n1 + n2 + n3 + n4 + n5 + 6);
    lemma_spelled_token(ts, pos + n1 + n2 + n3 + n4 + n5 + n6 + 6, TokenKind::Is);
    let body_list = block_at(ts, pos + n1 + n2 + n3 + n4 + n5 + n6 + 7, Seq::empty());
    let body = body_list.items;
    let n7 = body_list.taken;
    lemma_block_spelled(ts, pos + n1 + n2 + n3 + n4 + n5 + n6 + 7, Seq::empty());
    lemma_spelled_token(ts, pos + n1 + n2 + n3 + n4 + n5 + n6 + n7 + 7, TokenKind::End);
    lemma_spelled_then(ts, pos, 1, plain(TokenKind::Borrow), n1, ident_tokens(name));
    lemma_spelled_then(
        ts,
        pos,
        1 + n1,
        plain(TokenKind::Borrow) + ident_tokens(name),
        1,
        plain(TokenKind::Colon),
    );
    lemma_spelled_then(
        ts,
        pos,
        1 + n1 + 1,
        plain(TokenKind::Borrow) + ident_tokens(name) + plain(TokenKind::Colon),
        n2,
        borrow_mut_mode_tokens(mut_mode),
    );
    lemma_spelled_then(
        ts,
        pos,
        1 + n1 + 1 + n2,
        plain(TokenKind::Borrow)
            + ident_tokens(name)
            + plain(TokenKind::Colon)
            + borrow_mut_mode_tokens(mut_mode),
        1,
        plain(TokenKind::LBracket),
    );
    lemma_spelled_then(
        ts,
        pos,
        1 + n1 + 1 + n2 + 1,
        plain(TokenKind::Borrow)
            + ident_tokens(name)
            + plain(TokenKind::Colon)
            + borrow_mut_mode_tokens(mut_mode)
            + plain(TokenKind::LBracket),
        n3,
        type_spec_tokens(ty),
    );
    lemma_spelled_then(
        ts,
        pos,
        1 + n1 + 1 + n2 + 1 + n3,
        plain(TokenKind::Borrow)
            + ident_tokens(name)
            + plain(TokenKind::Colon)
            + borrow_mut_mode_tokens(mut_mode)
            + plain(TokenKind::LBracket)
            + type_spec_tokens(ty),
        1,
        plain(TokenKind::Comma),
    );
    lemma_spelled_then(
        ts,
        pos,
        1 + n1 + 1 + n2 + 1 + n3 + 1,
        plain(TokenKind::Borrow)
            + ident_tokens(name)
            + plain(TokenKind::Colon)
            + borrow_mut_mode_tokens(mut_mode)
            + plain(TokenKind::LBracket)
            + type_spec_tokens(ty)
            + plain(TokenKind::Comma),
        n4,
        ident_tokens(reg),
    );
    lemma_spelled_then(
        ts,
        pos,
        1 + n1 + 1 + n2 + 1 + n3 + 1 + n4,
        plain(TokenKind::Borrow)
            + ident_tokens(name)
            + plain(TokenKind::Colon)
            + borrow_mut_mode_tokens(mut_mode)
            + plain(TokenKind::LBracket)
            + type_spec_tokens(ty)
            + plain(TokenKind::Comma)
            + ident_tokens(reg),
        1,
        plain(TokenKind::RBracket),
    );
    lemma_spelled_then(
        ts,
        pos,
        1 + n1 + 1 + n2 + 1 + n3 + 1 + n4 + 1,
        plain(TokenKind::Borrow)
            + ident_tokens(name)
            + plain(TokenKind::Colon)
            + borrow_mut_mode_tokens(mut_mode)
            + plain(TokenKind::LBracket)
            + type_spec_tokens(ty)
            + plain(TokenKind::Comma)
            + ident_tokens(reg)
            + plain(TokenKind::RBracket),
        1,
        plain(TokenKind::Assign),
    );
    lemma_spelled_then(
        ts,
        pos,
        1 + n1 + 1 + n2 + 1 + n3 + 1 + n4 + 1 + 1,
        plain(TokenKind::Borrow)
            + ident_tokens(name)
            + plain(TokenKind::Colon)
            + borrow_mut_mode_tokens(mut_mode)
            + plain(TokenKind::LBracket)
            + type_spec_tokens(ty)
            + plain(TokenKind::Comma)
            + ident_tokens(reg)
            + plain(TokenKind::RBracket)
            + plain(TokenKind::Assign),
        n5,
        borrow_mode_tokens(mode),
    );
    lemma_spelled_then(
        ts,
        pos,
        1 + n1 + 1 + n2 + 1 + n3 + 1 + n4 + 1 + 1 + n5,
        plain(TokenKind::Borrow)
            + ident_tokens(name)
            + plain(TokenKind::Colon)
            + borrow_mut_mode_tokens(mut_mode)
            + plain(TokenKind::LBracket)
            + type_spec_tokens(ty)
            + plain(TokenKind::Comma)
            + ident_tokens(reg)
            + plain(TokenKind::RBracket)
            + plain(TokenKind::Assign)
            + borrow_mode_tokens(mode),
        n6,
        ident_tokens(orig),
    );
    lemma_spelled_then(
        ts,
        pos,
        1 + n1 + 1 + n2 + 1 + n3 + 1 + n4 + 1 + 1 + n5 + n6,
        plain(TokenKind::Borrow)
            + ident_tokens(name)
            + plain(TokenKind::Colon)
            + borrow_mut_mode_tokens(mut_mode)
            + plain(TokenKind::LBracket)
            + type_spec_tokens(ty)
            + plain(TokenKind::Comma)
            + ident_tokens(reg)
            + plain(TokenKind::RBracket)
            + plain(TokenKind::Assign)
            + borrow_mode_tokens(mode)
            + ident_tokens(orig),
        1,
        plain(TokenKind::Is),
    );
    lemma_spelled_then(
        ts,
        pos,
        1 + n1 + 1 + n2 + 1 + n3 + 1 + n4 + 1 + 1 + n5 + n6 + 1,
        plain(TokenKind::Borrow)
            + ident_tokens(name)
            + plain(TokenKind::Colon)
            + borrow_mut_mode_tokens(mut_mode)
            + plain(TokenKind::LBracket)
            + type_spec_tokens(ty)
            + plain(TokenKind::Comma)
            + ident_tokens(reg)
            + plain(TokenKind::RBracket)
            + plain(TokenKind::Assign)
            + borrow_mode_tokens(mode)
            + ident_tokens(orig)
            + plain(TokenKind::Is),
        n7,
        block_tokens(body, 0),
    );
    lemma_spelled_then(
        ts,
        pos,
        1 + n1 + 1 + n2 + 1 + n3 + 1 + n4 + 1 + 1 + n5 + n6 + 1 + n7,
        plain(TokenKind::Borrow)
            + ident_tokens(name)
            + plain(TokenKind::Colon)
            + borrow_mut_mode_tokens(mut_mode)
            + plain(TokenKind::LBracket)
            + type_spec_tokens(ty)
            + plain(TokenKind::Comma)
            + ident_tokens(reg)
            + plain(TokenKind::RBracket)
            + plain(TokenKind::Assign)
            + borrow_mode_tokens(mode)
            + ident_tokens(orig)
            + plain(TokenKind::Is)
            + block_tokens(body, 0),
        1,
        plain(TokenKind::End),
    );
}

/// The rule of `when` clauses: `when Case bindings do is ... end`.
#[verifier::opaque]
pub open spec fn case_when_at(ts: Seq<Token>, pos: int) -> Parsed<CaseWhenView>
    decreases ts.len() - pos, 0int,
{
    if kind_at(ts, pos) != TokenKind::When {
        fail(pos, seq![TokenKind::When])
    } else {
        match ident_at(ts, pos + 1) {
            Err(f) => Err(f),
            Ok((ident, n1)) => {
                let bindings_list = bindings_at(ts, pos + n1 + 1, Seq::empty());
                let bindings = bindings_list.items;
                let n2 = bindings_list.taken;
                match closing(ts, pos + n1 + n2 + 1, TokenKind::Do, bindings_list.stopped) {
                    Some(f) => Err(f),
                    None => {
                        if kind_at(ts, pos + n1 + n2 + 2) != TokenKind::Is {
                            fail(pos + n1 + n2 + 2, seq![TokenKind::Is])
                        } else {
                            let block_list = block_at(ts, pos + n1 + n2 + 3, Seq::empty());
                            let block = block_list.items;
                            let n3 = block_list.taken;
                            match closing(
                                ts,
                                pos + n1 + n2 + n3 + 3,
                                TokenKind::End,
                                block_list.stopped,
                            ) {
                                Some(f) => Err(f),
                                None => {
                                    Ok((CaseWhenView { ident, bindings, block }, n1 + n2 + n3 + 4))
                                },
                            }
                        }
                    },
                }
            },
        }
    }
}

/// Parses by the rule `case_when_at` at a position: the value and the position
/// after it, or the failure.
pub fn parse_case_when(ts: &[Token], pos: usize) -> (r: Result<(CaseWhen, usize), ParseError>)
    requires
        pos <= ts.len(),
    ensures
        parsed(r, pos, ts.len(), case_when_at(ts@, pos as int)),
        r is Ok ==> r->Ok_0.1 > pos,
    decreases ts.len() - pos, 0int,
{
    proof {
        reveal(case_when_at);
        reveal(block_at);
    }
    let p1 = expect(ts, pos, TokenKind::When)?;
    let (ident, p2) = parse_ident(ts, p1)?;
    let (bindings, bindings_end, bindings_stopped) = parse_bindings(ts, p2);
    let p3 = close(ts, bindings_end, TokenKind::Do, bindings_stopped)?;
    let p4 = expect(ts, p3, TokenKind::Is)?;
    let (block, block_end, block_stopped) = parse_block(ts, p4);
    let p5 = close(ts, block_end, TokenKind::End, block_stopped)?;
    let ghost block_view = block.deep_view();
    let node = CaseWhen { ident, bindings, block };
    assert(node.deep_view().block =~= block_view);
    Ok((node, p5))
}

/// What the rule `case_when_at` gives, as tokens.
pub open spec fn case_when_tokens(v: CaseWhenView) -> Seq<TokenView>
    decreases v,
{
    plain(TokenKind::When)
        + ident_tokens(v.ident)
        + bindings_tokens(v.bindings, 0)
        + plain(TokenKind::Do)
        + plain(TokenKind::Is)
        + block_tokens(v.block, 0)
        + plain(TokenKind::End)
}

/// The tokens that the rule `case_when_at` read are the tokens that its value prints
/// as, unless it read a token that the value does not show.
pub proof fn lemma_case_when_spelled(ts: Seq<Token>, pos: int)
    requires
        0 <= pos <= ts.len(),
        case_when_at(ts, pos) is Ok,
    ensures
        spelled(
            ts,
            pos,
            case_when_at(ts, pos)->Ok_0.1,
            case_when_tokens(case_when_at(ts, pos)->Ok_0.0),
        ),
    decreases ts.len() - pos, 0int,
{
    reveal(case_when_at);
    reveal(block_at);
    lemma_spelled_token(ts, pos, TokenKind::When);
    let (ident, n1) = ident_at(ts, pos + 1)->Ok_0;
    lemma_ident_spelled(ts, pos + 1);
    let bindings_list = bindings_at(ts, pos + n1 + 1, Seq::empty());
    let bindings = bindings_list.items;
    let n2 = bindings_list.taken;
    lemma_bindings_spelled(ts, pos + n1 + 1, Seq::empty());
    lemma_spelled_token(ts, pos + n1 + n2 + 1, TokenKind::Do);
    lemma_spelled_token(ts, pos + n1 + n2 + 2, TokenKind::Is);
    let block_list = block_at(ts, pos + n1 + n2 + 3, Seq::empty());
    let block = block_list.items;
    let n3 = block_list.taken;
    lemma_block_spelled(ts, pos + n1 + n2 + 3, Seq::empty());
    lemma_spelled_token(ts, pos + n1 + n2 + n3 + 3, TokenKind::End);
    lemma_spelled_then(ts, pos, 1, plain(TokenKind::When), n1, ident_tokens(ident));
    lemma_spelled_then(
        ts,
        pos,
        1 + n1,
        plain(TokenKind::When) + ident_tokens(ident),
        n2,
        bindings_tokens(bindings, 0),
    );
    lemma_spelled_then(
        ts,
        pos,
        1 + n1 + n2,
        plain(TokenKind::When) + ident_tokens(ident) + bindings_tokens(bindings, 0),
        1,
        plain(TokenKind::Do),
    );
    lemma_spelled_then(
        ts,
        pos,
        1 + n1 + n2 + 1,
        plain(TokenKind::When)
            + ident_tokens(ident)
            + bindings_tokens(bindings, 0)
            + plain(TokenKind::Do),
        1,
        plain(TokenKind::Is),
    );
    lemma_spelled_then(
        ts,
        pos,
        1 + n1 + n2 + 1 + 1,
        plain(TokenKind::When)
            + ident_tokens(ident)
            + bindings_tokens(bindings, 0)
            + plain(TokenKind::Do)
            + plain(TokenKind::Is),
        n3,
        block_tokens(block, 0),
    );
    lemma_spelled_then(
        ts,
        pos,
        1 + n1 + n2 + 1 + 1 + n3,
        plain(TokenKind::When)
            + ident_tokens(ident)
            + bindings_tokens(bindings, 0)
            + plain(TokenKind::Do)
            + plain(TokenKind::Is)
            + block_tokens(block, 0),
        1,
        plain(TokenKind::End),
    );
}

/// The `when` clauses of a case statement: as many as can be read.
#[verifier::opaque]
pub open spec fn whens_at(ts: Seq<Token>, pos: int, acc: Seq<CaseWhenView>) -> Listed<CaseWhenView>
    decreases ts.len() - pos, 2int,
{
    match case_when_at(ts, pos) {
        Err(f) => Listed { items: acc, taken: 0, stopped: f },
        Ok((item, n)) => if 0 < n && pos + n <= ts.len() {
            whens_at(ts, pos + n, acc.push(item)).advance(n)
        } else {
            Listed { items: acc, taken: 0, stopped: ParseFailure { at: pos, expected: seq![] } }
        },
    }
}

/// Parses the items of a list from a position by the rule `whens_at`: the
/// items, the position after them, and the failure that ended the list.
pub fn parse_whens(ts: &[Token], pos: usize) -> (r: (Vec<CaseWhen>, usize, ParseError))
    requires
        pos <= ts.len(),
    ensures
        listed(r, pos, ts.len(), whens_at(ts@, pos as int, Seq::empty())),
    decreases ts.len() - pos, 2int,
{
    let mut items: Vec<CaseWhen> = Vec::new();
    let mut cur: usize = pos;
    let mut stopped: Option<ParseError> = None;
    assert(items.deep_view() =~= Seq::empty());
    while stopped.is_none()
        invariant
            pos <= cur <= ts.len(),
            stopped is None ==> whens_at(ts@, pos as int, Seq::empty()) == whens_at(
                ts@,
                cur as int,
                items.deep_view(),
            ).advance((cur - pos) as nat),
            stopped is Some ==> whens_at(ts@, pos as int, Seq::empty()) == (Listed {
                items: items.deep_view(),
                taken: (cur - pos) as nat,
                stopped: stopped->0@,
            }),
        decreases ts.len() - cur + (if stopped is None { 1int } else { 0int }),
    {
        proof {
            reveal(whens_at);
            reveal(case_when_at);
        }
        match parse_case_when(ts, cur) {
            Err(e) => {
                stopped = Some(e);
            },
            Ok((item, p)) => {
                let ghost before = items.deep_view();
                let ghost added = item.deep_view();
                items.push(item);
                assert(items.deep_view() =~= before.push(added));
                cur = p;
            },
        }
    }
    (items, cur, stopped.unwrap())
}

/// The items of a list that the rule `whens_at` gives, from index `from` on, as
/// tokens, one after the other.
pub open spec fn whens_tokens(items: Seq<CaseWhenView>, from: nat) -> Seq<TokenView>
    decreases items, items.len() - from,
{
    if from >= items.len() {
        Seq::empty()
    } else {
        case_when_tokens(items[from as int]) + whens_tokens(items, from + 1)
    }
}

/// The tokens that the list rule `whens_at` read are the tokens that the
/// items it added print as, unless it read a token that they do not show.
/// The list keeps the items it started from.
pub proof fn lemma_whens_spelled(ts: Seq<Token>, pos: int, acc: Seq<CaseWhenView>)
    requires
        0 <= pos <= ts.len(),
    ensures
        whens_at(ts, pos, acc).items.len() >= acc.len(),
        whens_at(ts, pos, acc).items.len() == acc.len() ==> whens_at(ts, pos, acc).taken == 0,
        forall|i: int| 0 <= i < acc.len() ==> whens_at(ts, pos, acc).items[i] == acc[i],
        spelled(
            ts,
            pos,
            whens_at(ts, pos, acc).taken,
            whens_tokens(whens_at(ts, pos, acc).items, acc.len()),
        ),
    decreases ts.len() - pos, 2int,
{
    reveal(whens_at);
    reveal(case_when_at);
    match case_when_at(ts, pos) {
        Err(_) => {
            lemma_spelled_nothing(ts, pos, 0);
        },
        Ok((item, n)) => {
            let pushed = acc.push(item);
            assert forall|i: int| 0 <= i < acc.len() implies pushed[i] == acc[i] by {}
            lemma_case_when_spelled(ts, pos);
            if 0 < n && pos + n <= ts.len() {
                let rest = whens_at(ts, pos + n, pushed);
                lemma_whens_spelled(ts, pos + n, pushed);
                assert(pushed[acc.len() as int] == item);
                assert(rest.items[acc.len() as int] == pushed[acc.len() as int]);
                lemma_spelled_then(
                    ts,
                    pos,
                    n,
                    case_when_tokens(item),
                    rest.taken,
                    whens_tokens(rest.items, pushed.len()),
                );
            } else {
                lemma_spelled_nothing(ts, pos, 0);
            }
        },
    }
}

/// The rule of case statements: `case value of ... end case;`.
#[verifier::opaque]
pub open spec fn case_stmt_at(ts: Seq<Token>, pos: int) -> Parsed<CaseStmtView>
    decreases ts.len() - pos, 0int,
{
    if kind_at(ts, pos) != TokenKind::Case {
        fail(pos, seq![TokenKind::Case])
    } else {
        match expression_at(ts, pos + 1) {
            Err(f) => Err(f),
            Ok((value, n1)) => {
                if kind_at(ts, pos + n1 + 1) != TokenKind::Of {
                    fail(pos + n1 + 1, seq![TokenKind::Of])
                } else {
                    let variants_list = whens_at(ts, pos + n1 + 2, Seq::empty());
                    let variants = variants_list.items;
                    let n2 = variants_list.taken;
                    match closing(ts, pos + n1 + n2 + 2, TokenKind::End, variants_list.stopped) {
                        Some(f) => Err(f),
                        None => {
                            if kind_at(ts, pos + n1 + n2 + 3) != TokenKind::Case {
                                fail(pos + n1 + n2 + 3, seq![TokenKind::Case])
                            } else {
                                if kind_at(ts, pos + n1 + n2 + 4) != TokenKind::Semi {
                                    fail(pos + n1 + n2 + 4, seq![TokenKind::Semi])
                                } else {
                                    Ok((CaseStmtView { value, variants }, n1 + n2 + 5))
                                }
                            }
                        },
                    }
                }
            },
        }
    }
}

/// Parses by the rule `case_stmt_at` at a position: the value and the position
/// after it, or the failure.
pub fn parse_case_stmt(ts: &[Token], pos: usize) -> (r: Result<(CaseStmt, usize), ParseError>)
    requires
        pos <= ts.len(),
    ensures
        parsed(r, pos, ts.len(), case_stmt_at(ts@, pos as int)),
        r is Ok ==> r->Ok_0.1 > pos,
    decreases ts.len() - pos, 0int,
{
    proof {
        reveal(case_stmt_at);
        reveal(whens_at);
    }
    let p1 = expect(ts, pos, TokenKind::Case)?;
    let (value, p2) = parse_expression(ts, p1)?;
    let p3 = expect(ts, p2, TokenKind::Of)?;
    let (variants, variants_end, variants_stopped) = parse_whens(ts, p3);
    let p4 = close(ts, variants_end, TokenKind::End, variants_stopped)?;
    let p5 = expect(ts, p4, TokenKind::Case)?;
    let p6 = expect(ts, p5, TokenKind::Semi)?;
    let ghost variants_view = variants.deep_view();
    let node = CaseStmt { value, variants };
    assert(node.deep_view().variants =~= variants_view);
    Ok((node, p6))
}

/// What the rule `case_stmt_at` gives, as tokens.
pub open spec fn case_stmt_tokens(v: CaseStmtView) -> Seq<TokenView>
    decreases v,
{
    plain(TokenKind::Case)
        + expression_tokens(v.value)
        + plain(TokenKind::Of)
        + whens_tokens(v.variants, 0)
        + plain(TokenKind::End)
        + plain(TokenKind::Case)
        + plain(TokenKind::Semi)
}

/// The tokens that the rule `case_stmt_at` read are the tokens that its value prints
/// as, unless it read a token that the value does not show.
pub proof fn lemma_case_stmt_spelled(ts: Seq<Token>, pos: int)
    requires
        0 <= pos <= ts.len(),
        case_stmt_at(ts, pos) is Ok,
    ensures
        spelled(
            ts,
            pos,
            case_stmt_at(ts, pos)->Ok_0.1,
            case_stmt_tokens(case_stmt_at(ts, pos)->Ok_0.0),
        ),
    decreases ts.len() - pos, 0int,
{
    reveal(case_stmt_at);
    reveal(whens_at);
    lemma_spelled_token(ts, pos, TokenKind::Case);
    let (value, n1) = expression_at(ts, pos + 1)->Ok_0;
    lemma_expression_spelled(ts, pos + 1);
    lemma_spelled_token(ts, pos + n1 + 1, TokenKind::Of);
    let variants_list = whens_at(ts, pos + n1 + 2, Seq::empty());
    let variants = variants_list.items;
    let n2 = variants_list.taken;
    lemma_whens_spelled(ts, pos + n1 + 2, Seq::empty());
    lemma_spelled_token(ts, pos + n1 + n2 + 2, TokenKind::End);
    lemma_spelled_token(ts, pos + n1 + n2 + 3, TokenKind::Case);
    lemma_spelled_token(ts, pos + n1 + n2 + 4, TokenKind::Semi);
    lemma_spelled_then(ts, pos, 1, plain(TokenKind::Case), n1, expression_tokens(value));
    lemma_spelled_then(
        ts,
        pos,
        1 + n1,
        plain(TokenKind::Case) + expression_tokens(value),
        1,
        plain(TokenKind::Of),
    );
    lemma_spelled_then(
        ts,
        pos,
        1 + n1 + 1,
        plain(TokenKind::Case) + expression_tokens(value) + plain(TokenKind::Of),
        n2,
        whens_tokens(variants, 0),
    );
    lemma_spelled_then(
        ts,
        pos,
        1 + n1 + 1 + n2,
        plain(TokenKind::Case)
            + expression_tokens(value)
            + plain(TokenKind::Of)
            + whens_tokens(variants, 0),
        1,
        plain(TokenKind::End),
    );
    lemma_spelled_then(
        ts,
        pos,
        1 + n1 + 1 + n2 + 1,
        plain(TokenKind::Case)
            + expression_tokens(value)
            + plain(TokenKind::Of)
            + whens_tokens(variants, 0)
            + plain(TokenKind::End),
        1,
        plain(TokenKind::Case),
    );
    lemma_spelled_then(
        ts,
        pos,
        1 + n1 + 1 + n2 + 1 + 1,
        plain(TokenKind::Case)
            + expression_tokens(value)
            + plain(TokenKind::Of)
            + whens_tokens(variants, 0)
            + plain(TokenKind::End)
            + plain(TokenKind::Case),
        1,
        plain(TokenKind::Semi),
    );
}

/// The rule of for loops: `for i from a to b do is ... end for;`.
#[verifier::opaque]
pub open spec fn for_stmt_at(ts: Seq<Token>, pos: int) -> Parsed<ForStmtView>
    decreases ts.len() - pos, 0int,
{
    if kind_at(ts, pos) != TokenKind::For {
        fail(pos, seq![TokenKind::For])
    } else {
        match ident_at(ts, pos + 1) {
            Err(f) => Err(f),
            Ok((name, n1)) => {
                if kind_at(ts, pos + n1 + 1) != TokenKind::From {
                    fail(pos + n1 + 1, seq![TokenKind::From])
                } else {
                    match expression_at(ts, pos + n1 + 2) {
                        Err(f) => Err(f),
                        Ok((start, n2)) => {
                            if kind_at(ts, pos + n1 + n2 + 2) != TokenKind::To {
                                fail(pos + n1 + n2 + 2, seq![TokenKind::To])
                            } else {
                                match expression_at(ts, pos + n1 + n2 + 3) {
                                    Err(f) => Err(f),
                                    Ok((end, n3)) => {
                                        if kind_at(ts, pos + n1 + n2 + n3 + 3) != TokenKind::Do {
                                            fail(pos + n1 + n2 + n3 + 3, seq![TokenKind::Do])
                                        } else {
                                            if kind_at(
                                                ts,
                                                pos + n1 + n2 + n3 + 4,
                                            ) != TokenKind::Is {
                                                fail(pos + n1 + n2 + n3 + 4, seq![TokenKind::Is])
                                            } else {
                                                let contents_list = block_at(
                                                    ts,
                                                    pos + n1 + n2 + n3 + 5,
                                                    Seq::empty(),
                                                );
                                                let contents = contents_list.items;
                                                let n4 = contents_list.taken;
                                                match closing(
                                                    ts,
                                                    pos + n1 + n2 + n3 + n4 + 5,
                                                    TokenKind::End,
                                                    contents_list.stopped,
                                                ) {
                                                    Some(f) => Err(f),
                                                    None => {
                                                        if kind_at(
                                                            ts,
                                                            pos + n1 + n2 + n3 + n4 + 6,
                                                        ) != TokenKind::For {
                                                            fail(
                                                                pos + n1 + n2 + n3 + n4 + 6,
                                                                seq![TokenKind::For],
                                                            )
                                                        } else {
                                                            if kind_at(
                                                                ts,
                                                                pos + n1 + n2 + n3 + n4 + 7,
                                                            ) != TokenKind::Semi {
                                                                fail(
                                                                    pos + n1 + n2 + n3 + n4 + 7,
                                                                    seq![TokenKind::Semi],
                                                                )
                                                            } else {
                                                                Ok((ForStmtView { name, start, end, contents }, n1 + n2 + n3 + n4 + 8))
                                                            }
                                                        }
                                                    },
                                                }
                                            }
                                        }
                                    },
                                }
                            }
                        },
                    }
                }
            },
        }
    }
}

/// Parses by the rule `for_stmt_at` at a position: the value and the position
/// after it, or the failure.
pub fn parse_for_stmt(ts: &[Token], pos: usize) -> (r: Result<(ForStmt, usize), ParseError>)
    requires
        pos <= ts.len(),
    ensures
        parsed(r, pos, ts.len(), for_stmt_at(ts@, pos as int)),
        r is Ok ==> r->Ok_0.1 > pos,
    decreases ts.len() - pos, 0int,
{
    proof {
        reveal(for_stmt_at);
        reveal(block_at);
    }
    let p1 = expect(ts, pos, TokenKind::For)?;
    let (name, p2) = parse_ident(ts, p1)?;
    let p3 = expect(ts, p2, TokenKind::From)?;
    let (start, p4) = parse_expression(ts, p3)?;
    let p5 = expect(ts, p4, TokenKind::To)?;
    let (end, p6) = parse_expression(ts, p5)?;
    let p7 = expect(ts, p6, TokenKind::Do)?;
    let p8 = expect(ts, p7, TokenKind::Is)?;
    let (contents, contents_end, contents_stopped) = parse_block(ts, p8);
    let p9 = close(ts, contents_end, TokenKind::End, contents_stopped)?;
    let p10 = expect(ts, p9, TokenKind::For)?;
    let p11 = expect(ts, p10, TokenKind::Semi)?;
    let ghost contents_view = contents.deep_view();
    let node = ForStmt { name, start, end, contents };
    assert(node.deep_view().contents =~= contents_view);
    Ok((node, p11))
}

/// What the rule `for_stmt_at` gives, as tokens.
pub open spec fn for_stmt_tokens(v: ForStmtView) -> Seq<TokenView>
    decreases v,
{
    plain(TokenKind::For)
        + ident_tokens(v.name)
        + plain(TokenKind::From)
        + expression_tokens(v.start)
        + plain(TokenKind::To)
        + expression_tokens(v.end)
        + plain(TokenKind::Do)
        + plain(TokenKind::Is)
        + block_tokens(v.contents, 0)
        + plain(TokenKind::End)
        + plain(TokenKind::For)
        + plain(TokenKind::Semi)
}

/// The tokens that the rule `for_stmt_at` read are the tokens that its value prints
/// as, unless it read a token that the value does not show.
pub proof fn lemma_for_stmt_spelled(ts: Seq<Token>, pos: int)
    requires
        0 <= pos <= ts.len(),
        for_stmt_at(ts, pos) is Ok,
    ensures
        spelled(
            ts,
            pos,
            for_stmt_at(ts, pos)->Ok_0.1,
            for_stmt_tokens(for_stmt_at(ts, pos)->Ok_0.0),
        ),
    decreases ts.len() - pos, 0int,
{
    reveal(for_stmt_at);
    reveal(block_at);
    lemma_spelled_token(ts, pos, TokenKind::For);
    let (name, n1) = ident_at(ts, pos + 1)->Ok_0;
    lemma_ident_spelled(ts, pos + 1);
    lemma_spelled_token(ts, pos + n1 + 1, TokenKind::From);
    let (start, n2) = expression_at(ts, pos + n1 + 2)->Ok_0;
    lemma_expression_spelled(ts, pos + n1 + 2);
    lemma_spelled_token(ts, pos + n1 + n2 + 2, TokenKind::To);
    let (end, n3) = expression_at(ts, pos + n1 + n2 + 3)->Ok_0;
    lemma_expression_spelled(ts, pos + n1 + n2 + 3);
    lemma_spelled_token(ts, pos + n1 + n2 + n3 + 3, TokenKind::Do);
    lemma_spelled_token(ts, pos + n1 + n2 + n3 + 4, TokenKind::Is);
    let contents_list = block_at(ts, pos + n1 + n2 + n3 + 5, Seq::empty());
    let contents = contents_list.items;
    let n4 = contents_list.taken;
    lemma_block_spelled(ts, pos + n1 + n2 + n3 + 5, Seq::empty());
    lemma_spelled_token(ts, pos + n1 + n2 + n3 + n4 + 5, TokenKind::End);
    lemma_spelled_token(ts, pos + n1 + n2 + n3 + n4 + 6, TokenKind::For);
    lemma_spelled_token(ts, pos + n1 + n2 + n3 + n4 + 7, TokenKind::Semi);
    lemma_spelled_then(ts, pos, 1, plain(TokenKind::For), n1, ident_tokens(name));
    lemma_spelled_then(
        ts,
        pos,
        1 + n1,
        plain(TokenKind::For) + ident_tokens(name),
        1,
        plain(TokenKind::From),
    );
    lemma_spelled_then(
        ts,
        pos,
        1 + n1 + 1,
        plain(TokenKind::For) + ident_tokens(name) + plain(TokenKind::From),
        n2,
        expression_tokens(start),
    );
    lemma_spelled_then(
        ts,
        pos,
        1 + n1 + 1 + n2,
        plain(TokenKind::For)
            + ident_tokens(name)
            + plain(TokenKind::From)
            + expression_tokens(start),
        1,
        plain(TokenKind::To),
    );
    lemma_spelled_then(
        ts,
        pos,
        1 + n1 + 1 + n2 + 1,
        plain(TokenKind::For)
            + ident_tokens(name)
            + plain(TokenKind::From)
            + expression_tokens(start)
            + plain(TokenKind::To),
        n3,
        expression_tokens(end),
    );
    lemma_spelled_then(
        ts,
        pos,
        1 + n1 + 1 + n2 + 1 + n3,
        plain(TokenKind::For)
            + ident_tokens(name)
            + plain(TokenKind::From)
            + expression_tokens(start)
            + plain(TokenKind::To)
            + expression_tokens(end),
        1,
        plain(TokenKind::Do),
    );
    lemma_spelled_then(
        ts,
        pos,
        1 + n1 + 1 + n2 + 1 + n3 + 1,
        plain(TokenKind::For)
            + ident_tokens(name)
            + plain(TokenKind::From)
            + expression_tokens(start)
            + plain(TokenKind::To)
            + expression_tokens(end)
            + plain(TokenKind::Do),
        1,
        plain(TokenKind::Is),
    );
    lemma_spelled_then(
        ts,
        pos,
        1 + n1 + 1 + n2 + 1 + n3 + 1 + 1,
        plain(TokenKind::For)
            + ident_tokens(name)
            + plain(TokenKind::From)
            + expression_tokens(start)
            + plain(TokenKind::To)
            + expression_tokens(end)
            + plain(TokenKind::Do)
            + plain(TokenKind::Is),
        n4,
        block_tokens(contents, 0),
    );
    lemma_spelled_then(
        ts,
        pos,
        1 + n1 + 1 + n2 + 1 + n3 + 1 + 1 + n4,
        plain(TokenKind::For)
            + ident_tokens(name)
            + plain(TokenKind::From)
            + expression_tokens(start)
            + plain(TokenKind::To)
            + expression_tokens(end)
            + plain(TokenKind::Do)
            + plain(TokenKind::Is)
            + block_tokens(contents, 0),
        1,
        plain(TokenKind::End),
    );
    lemma_spelled_then(
        ts,
        pos,
        1 + n1 + 1 + n2 + 1 + n3 + 1 + 1 + n4 + 1,
        plain(TokenKind::For)
            + ident_tokens(name)
            + plain(TokenKind::From)
            + expression_tokens(start)
            + plain(TokenKind::To)
            + expression_tokens(end)
            + plain(TokenKind::Do)
            + plain(TokenKind::Is)
            + block_tokens(contents, 0)
            + plain(TokenKind::End),
        1,
        plain(TokenKind::For),
    );
    lemma_spelled_then(
        ts,
        pos,
        1 + n1 + 1 + n2 + 1 + n3 + 1 + 1 + n4 + 1 + 1,
        plain(TokenKind::For)
            + ident_tokens(name)
            + plain(TokenKind::From)
            + expression_tokens(start)
            + plain(TokenKind::To)
            + expression_tokens(end)
            + plain(TokenKind::Do)
            + plain(TokenKind::Is)
            + block_tokens(contents, 0)
            + plain(TokenKind::End)
            + plain(TokenKind::For),
        1,
        plain(TokenKind::Semi),
    );
}

/// The rule of while loops: `while c do is ... end while;`.
#[verifier::opaque]
pub open spec fn while_stmt_at(ts: Seq<Token>, pos: int) -> Parsed<WhileStmtView>
    decreases ts.len() - pos, 0int,
{
    if kind_at(ts, pos) != TokenKind::While {
        fail(pos, seq![TokenKind::While])
    } else {
        match expression_at(ts, pos + 1) {
            Err(f) => Err(f),
            Ok((value, n1)) => {
                if kind_at(ts, pos + n1 + 1) != TokenKind::Do {
                    fail(pos + n1 + 1, seq![TokenKind::Do])
                } else {
                    if kind_at(ts, pos + n1 + 2) != TokenKind::Is {
                        fail(pos + n1 + 2, seq![TokenKind::Is])
                    } else {
                        let contents_list = block_at(ts, pos + n1 + 3, Seq::empty());
                        let contents = contents_list.items;
                        let n2 = contents_list.taken;
                        match closing(
                            ts,
                            pos + n1 + n2 + 3,
                            TokenKind::End,
                            contents_list.stopped,
                        ) {
                            Some(f) => Err(f),
                            None => {
                                if kind_at(ts, pos + n1 + n2 + 4) != TokenKind::While {
                                    fail(pos + n1 + n2 + 4, seq![TokenKind::While])
                                } else {
                                    if kind_at(ts, pos + n1 + n2 + 5) != TokenKind::Semi {
                                        fail(pos + n1 + n2 + 5, seq![TokenKind::Semi])
                                    } else {
                                        Ok((WhileStmtView { value, contents }, n1 + n2 + 6))
                                    }
                                }
                            },
                        }
                    }
                }
            },
        }
    }
}

/// Parses by the rule `while_stmt_at` at a position: the value and the position
/// after it, or the failure.
pub fn parse_while_stmt(ts: &[Token], pos: usize) -> (r: Result<(WhileStmt, usize), ParseError>)
    requires
        pos <= ts.len(),
    ensures
        parsed(r, pos, ts.len(), while_stmt_at(ts@, pos as int)),
        r is Ok ==> r->Ok_0.1 > pos,
    decreases ts.len() - pos, 0int,
{
    proof {
        reveal(while_stmt_at);
        reveal(block_at);
    }
    let p1 = expect(ts, pos, TokenKind::While)?;
    let (value, p2) = parse_expression(ts, p1)?;
    let p3 = expect(ts, p2, TokenKind::Do)?;
    let p4 = expect(ts, p3, TokenKind::Is)?;
    let (contents, contents_end, contents_stopped) = parse_block(ts, p4);
    let p5 = close(ts, contents_end, TokenKind::End, contents_stopped)?;
    let p6 = expect(ts, p5, TokenKind::While)?;
    let p7 = expect(ts, p6, TokenKind::Semi)?;
    let ghost contents_view = contents.deep_view();
    let node = WhileStmt { value, contents };
    assert(node.deep_view().contents =~= contents_view);
    Ok((node, p7))
}

/// What the rule `while_stmt_at` gives, as tokens.
pub open spec fn while_stmt_tokens(v: WhileStmtView) -> Seq<TokenView>
    decreases v,
{
    plain(TokenKind::While)
        + expression_tokens(v.value)
        + plain(TokenKind::Do)
        + plain(TokenKind::Is)
        + block_tokens(v.contents, 0)
        + plain(TokenKind::End)
        + plain(TokenKind::While)
        + plain(TokenKind::Semi)
}

/// The tokens that the rule `while_stmt_at` read are the tokens that its value prints
/// as, unless it read a token that the value does not show.
pub proof fn lemma_while_stmt_spelled(ts: Seq<Token>, pos: int)
    requires
        0 <= pos <= ts.len(),
        while_stmt_at(ts, pos) is Ok,
    ensures
        spelled(
            ts,
            pos,
            while_stmt_at(ts, pos)->Ok_0.1,
            while_stmt_tokens(while_stmt_at(ts, pos)->Ok_0.0),
        ),
    decreases ts.len() - pos, 0int,
{
    reveal(while_stmt_at);
    reveal(block_at);
    lemma_spelled_token(ts, pos, TokenKind::While);
    let (value, n1) = expression_at(ts, pos + 1)->Ok_0;
    lemma_expression_spelled(ts, pos + 1);
    lemma_spelled_token(ts, pos + n1 + 1, TokenKind::Do);
    lemma_spelled_token(ts, pos + n1 + 2, TokenKind::Is);
    let contents_list = block_at(ts, pos + n1 + 3, Seq::empty());
    let contents = contents_list.items;
    let n2 = contents_list.taken;
    lemma_block_spelled(ts, pos + n1 + 3, Seq::empty());
    lemma_spelled_token(ts, pos + n1 + n2 + 3, TokenKind::End);
    lemma_spelled_token(ts, pos + n1 + n2 + 4, TokenKind::While);
    lemma_spelled_token(ts, pos + n1 + n2 + 5, TokenKind::Semi);
    lemma_spelled_then(ts, pos, 1, plain(TokenKind::While), n1, expression_tokens(value));
    lemma_spelled_then(
        ts,
        pos,
        1 + n1,
        plain(TokenKind::While) + expression_tokens(value),
        1,
        plain(TokenKind::Do),
    );
    lemma_spelled_then(
        ts,
        pos,
        1 + n1 + 1,
        plain(TokenKind::While) + expression_tokens(value) + plain(TokenKind::Do),
        1,
        plain(TokenKind::Is),
    );
    lemma_spelled_then(
        ts,
        pos,
        1 + n1 + 1 + 1,
        plain(TokenKind::While)
            + expression_tokens(value)
            + plain(TokenKind::Do)
            + plain(TokenKind::Is),
        n2,
        block_tokens(contents, 0),
    );
    lemma_spelled_then(
        ts,
        pos,
        1 + n1 + 1 + 1 + n2,
        plain(TokenKind::While)
            + expression_tokens(value)
            + plain(TokenKind::Do)
            + plain(TokenKind::Is)
            + block_tokens(contents, 0),
        1,
        plain(TokenKind::End),
    );
    lemma_spelled_then(
        ts,
        pos,
        1 + n1 + 1 + 1 + n2 + 1,
        plain(TokenKind::While)
            + expression_tokens(value)
            + plain(TokenKind::Do)
            + plain(TokenKind::Is)
            + block_tokens(contents, 0)
            + plain(TokenKind::End),
        1,
        plain(TokenKind::While),
    );
    lemma_spelled_then(
        ts,
        pos,
        1 + n1 + 1 + 1 + n2 + 1 + 1,
        plain(TokenKind::While)
            + expression_tokens(value)
            + plain(TokenKind::Do)
            + plain(TokenKind::Is)
            + block_tokens(contents, 0)
            + plain(TokenKind::End)
            + plain(TokenKind::While),
        1,
        plain(TokenKind::Semi),
    );
}

/// The `else` branch of an if statement: `else is ... end`, or nothing.
#[verifier::opaque]
pub open spec fn else_branch_at(ts: Seq<Token>, pos: int) -> Parsed<Option<Seq<StatementView>>>
    decreases ts.len() - pos, 0int,
{
    if kind_at(ts, pos) != TokenKind::Else {
        Ok((None, 0))
    } else {
        if kind_at(ts, pos + 1) != TokenKind::Is {
            fail(pos + 1, seq![TokenKind::Is])
        } else {
            let stmts_list = block_at(ts, pos + 2, Seq::empty());
            let stmts = stmts_list.items;
            let n1 = stmts_list.taken;
            match closing(ts, pos + n1 + 2, TokenKind::End, stmts_list.stopped) {
                Some(f) => Err(f),
                None => {
                    Ok((Some(stmts), n1 + 3))
                },
            }
        }
    }
}

/// Parses by the rule `else_branch_at` at a position: the value and the
/// position after it, or the failure.
pub fn parse_else_branch(
    ts: &[Token],
    pos: usize,
) -> (r: Result<(Option<Vec<Statement>>, usize), ParseError>)
    requires
        pos <= ts.len(),
    ensures
        parsed(r, pos, ts.len(), else_branch_at(ts@, pos as int)),
    decreases ts.len() - pos, 0int,
{
    proof {
        reveal(else_branch_at);
        reveal(block_at);
    }
    if peek(ts, pos) != TokenKind::Else {
        return Ok((None, pos));
    }
    let p1 = expect(ts, pos, TokenKind::Else)?;
    let p2 = expect(ts, p1, TokenKind::Is)?;
    let (stmts, stmts_end, stmts_stopped) = parse_block(ts, p2);
    let p3 = close(ts, stmts_end, TokenKind::End, stmts_stopped)?;
    Ok((Some(stmts), p3))
}

/// What the rule `else_branch_at` gives, as tokens.
pub open spec fn else_branch_tokens(v: Option<Seq<StatementView>>) -> Seq<TokenView>
    decreases v,
{
    if v is None {
        Seq::empty()
    } else {
        plain(TokenKind::Else)
            + plain(TokenKind::Is)
            + block_tokens(v->Some_0, 0)
            + plain(TokenKind::End)
    }
}

/// The tokens that the rule `else_branch_at` read are the tokens that its value prints
/// as, unless it read a token that the value does not show.
pub proof fn lemma_else_branch_spelled(ts: Seq<Token>, pos: int)
    requires
        0 <= pos <= ts.len(),
        else_branch_at(ts, pos) is Ok,
    ensures
        spelled(
            ts,
            pos,
            else_branch_at(ts, pos)->Ok_0.1,
            else_branch_tokens(else_branch_at(ts, pos)->Ok_0.0),
        ),
    decreases ts.len() - pos, 0int,
{
    reveal(else_branch_at);
    reveal(block_at);
    if kind_at(ts, pos) != TokenKind::Else {
        lemma_spelled_nothing(ts, pos, 0);
    } else {
        lemma_spelled_token(ts, pos, TokenKind::Else);
        lemma_spelled_token(ts, pos + 1, TokenKind::Is);
        let stmts_list = block_at(ts, pos + 2, Seq::empty());
        let stmts = stmts_list.items;
        let n1 = stmts_list.taken;
        lemma_block_spelled(ts, pos + 2, Seq::empty());
        lemma_spelled_token(ts, pos + n1 + 2, TokenKind::End);
        lemma_spelled_then(ts, pos, 1, plain(TokenKind::Else), 1, plain(TokenKind::Is));
        lemma_spelled_then(
            ts,
            pos,
            1 + 1,
            plain(TokenKind::Else) + plain(TokenKind::Is),
            n1,
            block_tokens(stmts, 0),
        );
        lemma_spelled_then(
            ts,
            pos,
            1 + 1 + n1,
            plain(TokenKind::Else) + plain(TokenKind::Is) + block_tokens(stmts, 0),
            1,
            plain(TokenKind::End),
        );
        if (else_branch_at(ts, pos))->Ok_0.0 is None {
            lemma_spelled_nothing(ts, pos, 1 + 1 + n1 + 1);
        }
    }
}

/// The rule of if statements: `if c then is ... end if;` or `if c then is ... end else is ... end if;`.
#[verifier::opaque]
pub open spec fn if_stmt_at(ts: Seq<Token>, pos: int) -> Parsed<IfStmtView>
    decreases ts.len() - pos, 0int,
{
    if kind_at(ts, pos) != TokenKind::If {
        fail(pos, seq![TokenKind::If])
    } else {
        match expression_at(ts, pos + 1) {
            Err(f) => Err(f),
            Ok((value, n1)) => {
                if kind_at(ts, pos + n1 + 1) != TokenKind::Then {
                    fail(pos + n1 + 1, seq![TokenKind::Then])
                } else {
                    if kind_at(ts, pos + n1 + 2) != TokenKind::Is {
                        fail(pos + n1 + 2, seq![TokenKind::Is])
                    } else {
                        let contents_list = block_at(ts, pos + n1 + 3, Seq::empty());
                        let contents = contents_list.items;
                        let n2 = contents_list.taken;
                        match closing(
                            ts,
                            pos + n1 + n2 + 3,
                            TokenKind::End,
                            contents_list.stopped,
                        ) {
                            Some(f) => Err(f),
                            None => {
                                match else_branch_at(ts, pos + n1 + n2 + 4) {
                                    Err(f) => Err(f),
                                    Ok((otherwise, n3)) => {
                                        if kind_at(ts, pos + n1 + n2 + n3 + 4) != TokenKind::If {
                                            fail(pos + n1 + n2 + n3 + 4, seq![TokenKind::If])
                                        } else {
                                            if kind_at(
                                                ts,
                                                pos + n1 + n2 + n3 + 5,
                                            ) != TokenKind::Semi {
                                                fail(pos + n1 + n2 + n3 + 5, seq![TokenKind::Semi])
                                            } else {
                                                Ok((IfStmtView { value, contents, otherwise }, n1 + n2 + n3 + 6))
                                            }
                                        }
                                    },
                                }
                            },
                        }
                    }
                }
            },
        }
    }
}

/// Parses by the rule `if_stmt_at` at a position: the value and the position
/// after it, or the failure.
pub fn parse_if_stmt(ts: &[Token], pos: usize) -> (r: Result<(IfStmt, usize), ParseError>)
    requires
        pos <= ts.len(),
    ensures
        parsed(r, pos, ts.len(), if_stmt_at(ts@, pos as int)),
        r is Ok ==> r->Ok_0.1 > pos,
    decreases ts.len() - pos, 0int,
{
    proof {
        reveal(if_stmt_at);
        reveal(block_at);
        reveal(else_branch_at);
    }
    let p1 = expect(ts, pos, TokenKind::If)?;
    let (value, p2) = parse_expression(ts, p1)?;
    let p3 = expect(ts, p2, TokenKind::Then)?;
    let p4 = expect(ts, p3, TokenKind::Is)?;
    let (contents, contents_end, contents_stopped) = parse_block(ts, p4);
    let p5 = close(ts, contents_end, TokenKind::End, contents_stopped)?;
    let (otherwise, p6) = parse_else_branch(ts, p5)?;
    let p7 = expect(ts, p6, TokenKind::If)?;
    let p8 = expect(ts, p7, TokenKind::Semi)?;
    let ghost contents_view = contents.deep_view();
    let ghost otherwise_view = otherwise.deep_view();
    let node = IfStmt { value, contents, otherwise };
    assert(node.deep_view().contents =~= contents_view);
    assert(match (node.deep_view().otherwise, otherwise_view) {
        (Some(a), Some(b)) => a =~= b,
        (None, None) => true,
        _ => false,
    });
    Ok((node, p8))
}

/// What the rule `if_stmt_at` gives, as tokens.
pub open spec fn if_stmt_tokens(v: IfStmtView) -> Seq<TokenView>
    decreases v,
{
    plain(TokenKind::If)
        + expression_tokens(v.value)
        + plain(TokenKind::Then)
        + plain(TokenKind::Is)
        + block_tokens(v.contents, 0)
        + plain(TokenKind::End)
        + else_branch_tokens(v.otherwise)
        + plain(TokenKind::If)
        + plain(TokenKind::Semi)
}

/// The tokens that the rule `if_stmt_at` read are the tokens that its value prints
/// as, unless it read a token that the value does not show.
pub proof fn lemma_if_stmt_spelled(ts: Seq<Token>, pos: int)
    requires
        0 <= pos <= ts.len(),
        if_stmt_at(ts, pos) is Ok,
    ensures
        spelled(ts, pos, if_stmt_at(ts, pos)->Ok_0.1, if_stmt_tokens(if_stmt_at(ts, pos)->Ok_0.0)),
    decreases ts.len() - pos, 0int,
{
    reveal(if_stmt_at);
    reveal(block_at);
    reveal(else_branch_at);
    lemma_spelled_token(ts, pos, TokenKind::If);
    let (value, n1) = expression_at(ts, pos + 1)->Ok_0;
    lemma_expression_spelled(ts, pos + 1);
    lemma_spelled_token(ts, pos + n1 + 1, TokenKind::Then);
    lemma_spelled_token(ts, pos + n1 + 2, TokenKind::Is);
    let contents_list = block_at(ts, pos + n1 + 3, Seq::empty());
    let contents = contents_list.items;
    let n2 = contents_list.taken;
    lemma_block_spelled(ts, pos + n1 + 3, Seq::empty());
    lemma_spelled_token(ts, pos + n1 + n2 + 3, TokenKind::End);
    let (otherwise, n3) = else_branch_at(ts, pos + n1 + n2 + 4)->Ok_0;
    lemma_else_branch_spelled(ts, pos + n1 + n2 + 4);
    lemma_spelled_token(ts, pos + n1 + n2 + n3 + 4, TokenKind::If);
    lemma_spelled_token(ts, pos + n1 + n2 + n3 + 5, TokenKind::Semi);
    lemma_spelled_then(ts, pos, 1, plain(TokenKind::If), n1, expression_tokens(value));
    lemma_spelled_then(
        ts,
        pos,
        1 + n1,
        plain(TokenKind::If) + expression_tokens(value),
        1,
        plain(TokenKind::Then),
    );
    lemma_spelled_then(
        ts,
        pos,
        1 + n1 + 1,
        plain(TokenKind::If) + expression_tokens(value) + plain(TokenKind::Then),
        1,
        plain(TokenKind::Is),
    );
    lemma_spelled_then(
        ts,
        pos,
        1 + n1 + 1 + 1,
        plain(TokenKind::If)
            + expression_tokens(value)
            + plain(TokenKind::Then)
            + plain(TokenKind::Is),
        n2,
        block_tokens(contents, 0),
    );
    lemma_spelled_then(
        ts,
        pos,
        1 + n1 + 1 + 1 + n2,
        plain(TokenKind::If)
            + expression_tokens(value)
            + plain(TokenKind::Then)
            + plain(TokenKind::Is)
            + block_tokens(contents, 0),
        1,
        plain(TokenKind::End),
    );
    lemma_spelled_then(
        ts,
        pos,
        1 + n1 + 1 + 1 + n2 + 1,
        plain(TokenKind::If)
            + expression_tokens(value)
            + plain(TokenKind::Then)
            + plain(TokenKind::Is)
            + block_tokens(contents, 0)
            + plain(TokenKind::End),
        n3,
        else_branch_tokens(otherwise),
    );
    lemma_spelled_then(
        ts,
        pos,
        1 + n1 + 1 + 1 + n2 + 1 + n3,
        plain(TokenKind::If)
            + expression_tokens(value)
            + plain(TokenKind::Then)
            + plain(TokenKind::Is)
            + block_tokens(contents, 0)
            + plain(TokenKind::End)
            + else_branch_tokens(otherwise),
        1,
        plain(TokenKind::If),
    );
    lemma_spelled_then(
        ts,
        pos,
        1 + n1 + 1 + 1 + n2 + 1 + n3 + 1,
        plain(TokenKind::If)
            + expression_tokens(value)
            + plain(TokenKind::Then)
            + plain(TokenKind::Is)
            + block_tokens(contents, 0)
            + plain(TokenKind::End)
            + else_branch_tokens(otherwise)
            + plain(TokenKind::If),
        1,
        plain(TokenKind::Semi),
    );
}

/// The rule of statements. The first token decides: `let` and `var` bind,
/// `return` returns, `while`, `for`, `case` and `borrow` start the statement
/// of that name. `if` starts an if statement or, failing that, a conditional
/// expression used as a statement; an identifier starts an assignment or,
/// failing that, an expression used as a statement; where both fail the
/// failure is the later of the two. Anything else is an expression used as
/// a statement.
#[verifier::opaque]
pub open spec fn statement_at(ts: Seq<Token>, pos: int) -> Parsed<StatementView>
    decreases ts.len() - pos, 1int,
{
    match kind_at(ts, pos) {
        TokenKind::Let | TokenKind::Var => match let_stmt_at(ts, pos) {
            Ok((s, n)) => Ok((StatementView::Let(s), n)),
            Err(f) => Err(f),
        },
        TokenKind::Return => match return_stmt_at(ts, pos) {
            Ok((e, n)) => Ok((StatementView::Return(e), n)),
            Err(f) => Err(f),
        },
        TokenKind::While => match while_stmt_at(ts, pos) {
            Ok((s, n)) => Ok((StatementView::While(s), n)),
            Err(f) => Err(f),
        },
        TokenKind::For => match for_stmt_at(ts, pos) {
            Ok((s, n)) => Ok((StatementView::For(s), n)),
            Err(f) => Err(f),
        },
        TokenKind::Case => match case_stmt_at(ts, pos) {
            Ok((s, n)) => Ok((StatementView::Case(s), n)),
            Err(f) => Err(f),
        },
        TokenKind::Borrow => match borrow_stmt_at(ts, pos) {
            Ok((s, n)) => Ok((StatementView::Borrow(s), n)),
            Err(f) => Err(f),
        },
        TokenKind::If => match if_stmt_at(ts, pos) {
            Ok((s, n)) => Ok((StatementView::If(s), n)),
            Err(first) => match discard_at(ts, pos) {
                Ok((e, n)) => Ok((StatementView::Discard(e), n)),
                Err(second) => Err(furthest(first, second)),
            },
        },
        TokenKind::Ident => match assign_at(ts, pos) {
            Ok((s, n)) => Ok((StatementView::Assign(s), n)),
            Err(first) => match discard_at(ts, pos) {
                Ok((e, n)) => Ok((StatementView::Discard(e), n)),
                Err(second) => Err(furthest(first, second)),
            },
        },
        _ => match discard_at(ts, pos) {
            Ok((e, n)) => Ok((StatementView::Discard(e), n)),
            Err(f) => Err(f),
        },
    }
}

/// Parses by the rule `statement_at` at a position: the value and the position
/// after it, or the failure.
pub fn parse_statement(ts: &[Token], pos: usize) -> (r: Result<(Statement, usize), ParseError>)
    requires
        pos <= ts.len(),
    ensures
        parsed(r, pos, ts.len(), statement_at(ts@, pos as int)),
        r is Ok ==> r->Ok_0.1 > pos,
    decreases ts.len() - pos, 1int,
{
    proof {
        reveal(statement_at);
        reveal(while_stmt_at);
        reveal(for_stmt_at);
        reveal(case_stmt_at);
        reveal(borrow_stmt_at);
        reveal(if_stmt_at);
    }
    match peek(ts, pos) {
        TokenKind::Let | TokenKind::Var => {
            let (s, p) = parse_let_stmt(ts, pos)?;
            Ok((Statement::Let(s), p))
        },
        TokenKind::Return => {
            let (e, p) = parse_return_stmt(ts, pos)?;
            Ok((Statement::Return(e), p))
        },
        TokenKind::While => {
            let (s, p) = parse_while_stmt(ts, pos)?;
            Ok((Statement::While(s), p))
        },
        TokenKind::For => {
            let (s, p) = parse_for_stmt(ts, pos)?;
            Ok((Statement::For(s), p))
        },
        TokenKind::Case => {
            let (s, p) = parse_case_stmt(ts, pos)?;
            Ok((Statement::Case(s), p))
        },
        TokenKind::Borrow => {
            let (s, p) = parse_borrow_stmt(ts, pos)?;
            Ok((Statement::Borrow(s), p))
        },
        TokenKind::If => match parse_if_stmt(ts, pos) {
            Ok((s, p)) => Ok((Statement::If(s), p)),
            Err(first) => match parse_discard(ts, pos) {
                Ok((e, p)) => Ok((Statement::Discard(e), p)),
                Err(second) => Err(later(first, second)),
            },
        },
        TokenKind::Ident => match parse_assign(ts, pos) {
            Ok((s, p)) => Ok((Statement::Assign(s), p)),
            Err(first) => match parse_discard(ts, pos) {
                Ok((e, p)) => Ok((Statement::Discard(e), p)),
                Err(second) => Err(later(first, second)),
            },
        },
        _ => {
            let (e, p) = parse_discard(ts, pos)?;
            Ok((Statement::Discard(e), p))
        },
    }
}

/// A statement as tokens.
pub open spec fn statement_tokens(v: StatementView) -> Seq<TokenView>
    decreases v,
{
    match v {
        StatementView::Assign(s) => assign_tokens(s),
        StatementView::Borrow(s) => borrow_stmt_tokens(s),
        StatementView::Case(s) => case_stmt_tokens(s),
        StatementView::Discard(e) => discard_tokens(e),
        StatementView::For(s) => for_stmt_tokens(s),
        StatementView::If(s) => if_stmt_tokens(s),
        StatementView::Let(s) => let_stmt_tokens(s),
        StatementView::Return(e) => return_stmt_tokens(e),
        StatementView::While(s) => while_stmt_tokens(s),
    }
}

/// What the rule `statement_at` read prints as the tokens that it read.
pub proof fn lemma_statement_spelled(ts: Seq<Token>, pos: int)
    requires
        0 <= pos <= ts.len(),
        statement_at(ts, pos) is Ok,
    ensures
        spelled(
            ts,
            pos,
            statement_at(ts, pos)->Ok_0.1,
            statement_tokens(statement_at(ts, pos)->Ok_0.0),
        ),
    decreases ts.len() - pos, 1int,
{
    reveal(statement_at);
    reveal(while_stmt_at);
    reveal(for_stmt_at);
    reveal(case_stmt_at);
    reveal(borrow_stmt_at);
    reveal(if_stmt_at);
    match kind_at(ts, pos) {
        TokenKind::Let | TokenKind::Var => {
            lemma_let_stmt_spelled(ts, pos);
        },
        TokenKind::Return => {
            lemma_return_stmt_spelled(ts, pos);
        },
        TokenKind::While => {
            lemma_while_stmt_spelled(ts, pos);
        },
        TokenKind::For => {
            lemma_for_stmt_spelled(ts, pos);
        },
        TokenKind::Case => {
            lemma_case_stmt_spelled(ts, pos);
        },
        TokenKind::Borrow => {
            lemma_borrow_stmt_spelled(ts, pos);
        },
        TokenKind::If => {
            if if_stmt_at(ts, pos) is Ok {
                lemma_if_stmt_spelled(ts, pos);
            } else {
                lemma_discard_spelled(ts, pos);
            }
        },
        TokenKind::Ident => {
            if assign_at(ts, pos) is Ok {
                lemma_assign_spelled(ts, pos);
            } else {
                lemma_discard_spelled(ts, pos);
            }
        },
        _ => {
            lemma_discard_spelled(ts, pos);
        },
    }
}

/// A block: as many statements as can be read.
#[verifier::opaque]
pub open spec fn block_at(
    ts: Seq<Token>,
    pos: int,
    acc: Seq<StatementView>,
) -> Listed<StatementView>
    decreases ts.len() - pos, 2int,
{
    match statement_at(ts, pos) {
        Err(f) => Listed { items: acc, taken: 0, stopped: f },
        Ok((item, n)) => if 0 < n && pos + n <= ts.len() {
            block_at(ts, pos + n, acc.push(item)).advance(n)
        } else {
            Listed { items: acc, taken: 0, stopped: ParseFailure { at: pos, expected: seq![] } }
        },
    }
}

/// Parses the items of a list from a position by the rule `block_at`: the
/// items, the position after them, and the failure that ended the list.
pub fn parse_block(ts: &[Token], pos: usize) -> (r: (Vec<Statement>, usize, ParseError))
    requires
        pos <= ts.len(),
    ensures
        listed(r, pos, ts.len(), block_at(ts@, pos as int, Seq::empty())),
    decreases ts.len() - pos, 2int,
{
    let mut items: Vec<Statement> = Vec::new();
    let mut cur: usize = pos;
    let mut stopped: Option<ParseError> = None;
    assert(items.deep_view() =~= Seq::empty());
    while stopped.is_none()
        invariant
            pos <= cur <= ts.len(),
            stopped is None ==> block_at(ts@, pos as int, Seq::empty()) == block_at(
                ts@,
                cur as int,
                items.deep_view(),
            ).advance((cur - pos) as nat),
            stopped is Some ==> block_at(ts@, pos as int, Seq::empty()) == (Listed {
                items: items.deep_view(),
                taken: (cur - pos) as nat,
                stopped: stopped->0@,
            }),
        decreases ts.len() - cur + (if stopped is None { 1int } else { 0int }),
    {
        proof {
            reveal(block_at);
            reveal(statement_at);
        }
        match parse_statement(ts, cur) {
            Err(e) => {
                stopped = Some(e);
            },
            Ok((item, p)) => {
                let ghost before = items.deep_view();
                let ghost added = item.deep_view();
                items.push(item);
                assert(items.deep_view() =~= before.push(added));
                cur = p;
            },
        }
    }
    (items, cur, stopped.unwrap())
}

/// The items of a list that the rule `block_at` gives, from index `from` on, as
/// tokens, one after the other.
pub open spec fn block_tokens(items: Seq<StatementView>, from: nat) -> Seq<TokenView>
    decreases items, items.len() - from,
{
    if from >= items.len() {
        Seq::empty()
    } else {
        statement_tokens(items[from as int]) + block_tokens(items, from + 1)
    }
}

/// The tokens that the list rule `block_at` read are the tokens that the
/// items it added print as, unless it read a token that they do not show.
/// The list keeps the items it started from.
pub proof fn lemma_block_spelled(ts: Seq<Token>, pos: int, acc: Seq<StatementView>)
    requires
        0 <= pos <= ts.len(),
    ensures
        block_at(ts, pos, acc).items.len() >= acc.len(),
        block_at(ts, pos, acc).items.len() == acc.len() ==> block_at(ts, pos, acc).taken == 0,
        forall|i: int| 0 <= i < acc.len() ==> block_at(ts, pos, acc).items[i] == acc[i],
        spelled(
            ts,
            pos,
            block_at(ts, pos, acc).taken,
            block_tokens(block_at(ts, pos, acc).items, acc.len()),
        ),
    decreases ts.len() - pos, 2int,
{
    reveal(block_at);
    reveal(statement_at);
    match statement_at(ts, pos) {
        Err(_) => {
            lemma_spelled_nothing(ts, pos, 0);
        },
        Ok((item, n)) => {
            let pushed = acc.push(item);
            assert forall|i: int| 0 <= i < acc.len() implies pushed[i] == acc[i] by {}
            lemma_statement_spelled(ts, pos);
            if 0 < n && pos + n <= ts.len() {
                let rest = block_at(ts, pos + n, pushed);
                lemma_block_spelled(ts, pos + n, pushed);
                assert(pushed[acc.len() as int] == item);
                assert(rest.items[acc.len() as int] == pushed[acc.len() as int]);
                lemma_spelled_then(
                    ts,
                    pos,
                    n,
                    statement_tokens(item),
                    rest.taken,
                    block_tokens(rest.items, pushed.len()),
                );
            } else {
                lemma_spelled_nothing(ts, pos, 0);
            }
        },
    }
}

impl Statement {
    /// Parses the whole of `tokens` by the rule `statement_at`.
    pub fn parser(tokens: &[Token]) -> (r: Result<Statement, ParseError>)
        ensures
            parsed_whole(r, whole(statement_at(tokens@, 0), tokens@.len())),
    {
        complete(parse_statement(tokens, 0), tokens.len(), Ghost(statement_at(tokens@, 0)))
    }
}

impl AssignStmt {
    /// Parses the whole of `tokens` by the rule `assign_at`.
    pub fn parser(tokens: &[Token]) -> (r: Result<AssignStmt, ParseError>)
        ensures
            parsed_whole(r, whole(assign_at(tokens@, 0), tokens@.len())),
    {
        complete(parse_assign(tokens, 0), tokens.len(), Ghost(assign_at(tokens@, 0)))
    }
}

impl BorrowStmt {
    /// Parses the whole of `tokens` by the rule `borrow_stmt_at`.
    pub fn parser(tokens: &[Token]) -> (r: Result<BorrowStmt, ParseError>)
        ensures
            parsed_whole(r, whole(borrow_stmt_at(tokens@, 0), tokens@.len())),
    {
        complete(parse_borrow_stmt(tokens, 0), tokens.len(), Ghost(borrow_stmt_at(tokens@, 0)))
    }
}

impl CaseStmt {
    /// Parses the whole of `tokens` by the rule `case_stmt_at`.
    pub fn parser(tokens: &[Token]) -> (r: Result<CaseStmt, ParseError>)
        ensures
            parsed_whole(r, whole(case_stmt_at(tokens@, 0), tokens@.len())),
    {
        complete(parse_case_stmt(tokens, 0), tokens.len(), Ghost(case_stmt_at(tokens@, 0)))
    }
}

impl CaseWhen {
    /// Parses the whole of `tokens` by the rule `case_when_at`.
    pub fn parser(tokens: &[Token]) -> (r: Result<CaseWhen, ParseError>)
        ensures
            parsed_whole(r, whole(case_when_at(tokens@, 0), tokens@.len())),
    {
        complete(parse_case_when(tokens, 0), tokens.len(), Ghost(case_when_at(tokens@, 0)))
    }
}

impl ForStmt {
    /// Parses the whole of `tokens` by the rule `for_stmt_at`.
    pub fn parser(tokens: &[Token]) -> (r: Result<ForStmt, ParseError>)
        ensures
            parsed_whole(r, whole(for_stmt_at(tokens@, 0), tokens@.len())),
    {
        complete(parse_for_stmt(tokens, 0), tokens.len(), Ghost(for_stmt_at(tokens@, 0)))
    }
}

impl IfStmt {
    /// Parses the whole of `tokens` by the rule `if_stmt_at`.
    pub fn parser(tokens: &[Token]) -> (r: Result<IfStmt, ParseError>)
        ensures
            parsed_whole(r, whole(if_stmt_at(tokens@, 0), tokens@.len())),
    {
        complete(parse_if_stmt(tokens, 0), tokens.len(), Ghost(if_stmt_at(tokens@, 0)))
    }
}

impl LetStmt {
    /// Parses the whole of `tokens` by the rule `let_stmt_at`.
    pub fn parser(tokens: &[Token]) -> (r: Result<LetStmt, ParseError>)
        ensures
            parsed_whole(r, whole(let_stmt_at(tokens@, 0), tokens@.len())),
    {
        complete(parse_let_stmt(tokens, 0), tokens.len(), Ghost(let_stmt_at(tokens@, 0)))
    }
}

impl LetStmtTarget {
    /// Parses the whole of `tokens` by the rule `let_target_at`.
    pub fn parser(tokens: &[Token]) -> (r: Result<LetStmtTarget, ParseError>)
        ensures
            parsed_whole(r, whole(let_target_at(tokens@, 0), tokens@.len())),
    {
        complete(parse_let_target(tokens, 0), tokens.len(), Ghost(let_target_at(tokens@, 0)))
    }
}

impl WhileStmt {
    /// Parses the whole of `tokens` by the rule `while_stmt_at`.
    pub fn parser(tokens: &[Token]) -> (r: Result<WhileStmt, ParseError>)
        ensures
            parsed_whole(r, whole(while_stmt_at(tokens@, 0), tokens@.len())),
    {
        complete(parse_while_stmt(tokens, 0), tokens.len(), Ghost(while_stmt_at(tokens@, 0)))
    }
}

impl BorrowMutMode {
    /// Parses the whole of `tokens` by the rule `borrow_mut_mode_at`.
    pub fn parser(tokens: &[Token]) -> (r: Result<BorrowMutMode, ParseError>)
        ensures
            parsed_whole(r, whole(borrow_mut_mode_at(tokens@, 0), tokens@.len())),
    {
        complete(
            parse_borrow_mut_mode(tokens, 0),
            tokens.len(),
            Ghost(borrow_mut_mode_at(tokens@, 0)),
        )
    }
}

impl BorrowMode {
    /// Parses the whole of `tokens` by the rule `borrow_mode_at`.
    pub fn parser(tokens: &[Token]) -> (r: Result<BorrowMode, ParseError>)
        ensures
            parsed_whole(r, whole(borrow_mode_at(tokens@, 0), tokens@.len())),
    {
        complete(parse_borrow_mode(tokens, 0), tokens.len(), Ghost(borrow_mode_at(tokens@, 0)))
    }
}

impl Binding {
    /// Parses the whole of `tokens` by the rule `binding_at`.
    pub fn parser(tokens: &[Token]) -> (r: Result<Binding, ParseError>)
        ensures
            parsed_whole(r, whole(binding_at(tokens@, 0), tokens@.len())),
    {
        complete(parse_binding(tokens, 0), tokens.len(), Ghost(binding_at(tokens@, 0)))
    }
}

} // verus!
