//! Expressions: the atomic ones, which can stand as operands, and the
//! compound ones, which join atomic operands with one operator.

use crate::ast::common::{Ident, ident_at, ident_tokens, lemma_ident_spelled, parse_ident};
use crate::ast::grammar::{
    carries, close, closing, complete, expect, fail, kind_at, lemma_spelled_more,
    lemma_spelled_nothing, lemma_spelled_then, lemma_spelled_token, Listed, listed, missing,
    Parsed, parsed, parsed_whole, ParseError, ParseFailure, peek, plain, spelled, token_at,
    unexpected, views, whole,
};
use crate::ast::types::{
    lemma_type_spec_spelled, parse_type_spec, type_spec_at, type_spec_tokens, TypeSpec,
    TypeSpecView,
};
use crate::lexer::{Token, TokenKind, TokenView};
use vstd::prelude::*;

verus! {

/// An expression.
#[derive(Debug, PartialEq)]
pub enum Expression {
    Atomic(AtomicExpr),
    Compound(CompoundExpr),
}

/// A value of `Expression` as plain data.
pub enum ExpressionView {
    Atomic(AtomicExprView),
    Compound(CompoundExprView),
}

impl Expression {
    /// The value as plain data.
    pub open spec fn model(self) -> ExpressionView
        decreases self,
    {
        match self {
            Expression::Atomic(x0) => ExpressionView::Atomic(x0.model()),
            Expression::Compound(x0) => ExpressionView::Compound(x0.model()),
        }
    }
}

impl DeepView for Expression {
    type V = ExpressionView;

    open spec fn deep_view(&self) -> ExpressionView {
        self.model()
    }
}

/// An expression that can stand as an operand. A float constant is held as the source spells it.
#[derive(Debug, PartialEq)]
pub enum AtomicExpr {
    ConstNil,
    ConstBool(bool),
    ConstChar(char),
    ConstInt(u64),
    ConstFloat(String),
    ConstStr(String),
    FnCall(FnCallExpr),
    Path(PathExpr),
    RefPath(PathExpr),
    Paren(Box<Expression>),
    Intrinsic(IntrinExpr),
    SizeOf(TypeSpec),
    BorrowRead(Ident),
    BorrowWrite(Ident),
    ReBorrow(Ident),
    Deref(Box<AtomicExpr>),
}

/// A value of `AtomicExpr` as plain data.
pub enum AtomicExprView {
    ConstNil,
    ConstBool(bool),
    ConstChar(char),
    ConstInt(u64),
    ConstFloat(Seq<char>),
    ConstStr(Seq<char>),
    FnCall(FnCallExprView),
    Path(PathExprView),
    RefPath(PathExprView),
    Paren(Box<ExpressionView>),
    Intrinsic(IntrinExprView),
    SizeOf(TypeSpecView),
    BorrowRead(Seq<char>),
    BorrowWrite(Seq<char>),
    ReBorrow(Seq<char>),
    Deref(Box<AtomicExprView>),
}

impl AtomicExpr {
    /// The value as plain data.
    pub open spec fn model(self) -> AtomicExprView
        decreases self,
    {
        match self {
            AtomicExpr::ConstNil => AtomicExprView::ConstNil,
            AtomicExpr::ConstBool(x0) => AtomicExprView::ConstBool(x0.deep_view()),
            AtomicExpr::ConstChar(x0) => AtomicExprView::ConstChar(x0.deep_view()),
            AtomicExpr::ConstInt(x0) => AtomicExprView::ConstInt(x0.deep_view()),
            AtomicExpr::ConstFloat(x0) => AtomicExprView::ConstFloat(x0.deep_view()),
            AtomicExpr::ConstStr(x0) => AtomicExprView::ConstStr(x0.deep_view()),
            AtomicExpr::FnCall(x0) => AtomicExprView::FnCall(x0.model()),
            AtomicExpr::Path(x0) => AtomicExprView::Path(x0.model()),
            AtomicExpr::RefPath(x0) => AtomicExprView::RefPath(x0.model()),
            AtomicExpr::Paren(x0) => AtomicExprView::Paren(Box::new((*x0).model())),
            AtomicExpr::Intrinsic(x0) => AtomicExprView::Intrinsic(x0.model()),
            AtomicExpr::SizeOf(x0) => AtomicExprView::SizeOf(x0.deep_view()),
            AtomicExpr::BorrowRead(x0) => AtomicExprView::BorrowRead(x0.deep_view()),
            AtomicExpr::BorrowWrite(x0) => AtomicExprView::BorrowWrite(x0.deep_view()),
            AtomicExpr::ReBorrow(x0) => AtomicExprView::ReBorrow(x0.deep_view()),
            AtomicExpr::Deref(x0) => AtomicExprView::Deref(Box::new((*x0).model())),
        }
    }
}

impl DeepView for AtomicExpr {
    type V = AtomicExprView;

    open spec fn deep_view(&self) -> AtomicExprView {
        self.model()
    }
}

/// An expression made of atomic operands and one operator.
#[derive(Debug, PartialEq)]
pub enum CompoundExpr {
    Cmp(CmpExpr),
    Logic(LogicExpr),
    Arith(ArithExpr),
    Select(SelectExpr),
    Cast(CastExpr),
}

/// A value of `CompoundExpr` as plain data.
pub enum CompoundExprView {
    Cmp(CmpExprView),
    Logic(LogicExprView),
    Arith(ArithExprView),
    Select(SelectExprView),
    Cast(CastExprView),
}

impl CompoundExpr {
    /// The value as plain data.
    pub open spec fn model(self) -> CompoundExprView
        decreases self,
    {
        match self {
            CompoundExpr::Cmp(x0) => CompoundExprView::Cmp(x0.model()),
            CompoundExpr::Logic(x0) => CompoundExprView::Logic(x0.model()),
            CompoundExpr::Arith(x0) => CompoundExprView::Arith(x0.model()),
            CompoundExpr::Select(x0) => CompoundExprView::Select(x0.model()),
            CompoundExpr::Cast(x0) => CompoundExprView::Cast(x0.model()),
        }
    }
}

impl DeepView for CompoundExpr {
    type V = CompoundExprView;

    open spec fn deep_view(&self) -> CompoundExprView {
        self.model()
    }
}

/// A comparison of two operands.
#[derive(Debug, PartialEq)]
pub enum CmpExpr {
    Eq(AtomicExpr, AtomicExpr),
    NotEq(AtomicExpr, AtomicExpr),
    Lt(AtomicExpr, AtomicExpr),
    LtEq(AtomicExpr, AtomicExpr),
    Gt(AtomicExpr, AtomicExpr),
    GtEq(AtomicExpr, AtomicExpr),
}

/// A value of `CmpExpr` as plain data.
pub enum CmpExprView {
    Eq(AtomicExprView, AtomicExprView),
    NotEq(AtomicExprView, AtomicExprView),
    Lt(AtomicExprView, AtomicExprView),
    LtEq(AtomicExprView, AtomicExprView),
    Gt(AtomicExprView, AtomicExprView),
    GtEq(AtomicExprView, AtomicExprView),
}

impl CmpExpr {
    /// The value as plain data.
    pub open spec fn model(self) -> CmpExprView
        decreases self,
    {
        match self {
            CmpExpr::Eq(x0, x1) => CmpExprView::Eq(x0.model(), x1.model()),
            CmpExpr::NotEq(x0, x1) => CmpExprView::NotEq(x0.model(), x1.model()),
            CmpExpr::Lt(x0, x1) => CmpExprView::Lt(x0.model(), x1.model()),
            CmpExpr::LtEq(x0, x1) => CmpExprView::LtEq(x0.model(), x1.model()),
            CmpExpr::Gt(x0, x1) => CmpExprView::Gt(x0.model(), x1.model()),
            CmpExpr::GtEq(x0, x1) => CmpExprView::GtEq(x0.model(), x1.model()),
        }
    }
}

impl DeepView for CmpExpr {
    type V = CmpExprView;

    open spec fn deep_view(&self) -> CmpExprView {
        self.model()
    }
}

/// A conjunction, a disjunction or a negation.
#[derive(Debug, PartialEq)]
pub enum LogicExpr {
    And(AtomicExpr, AtomicExpr),
    Or(AtomicExpr, AtomicExpr),
    Not(AtomicExpr),
}

/// A value of `LogicExpr` as plain data.
pub enum LogicExprView {
    And(AtomicExprView, AtomicExprView),
    Or(AtomicExprView, AtomicExprView),
    Not(AtomicExprView),
}

impl LogicExpr {
    /// The value as plain data.
    pub open spec fn model(self) -> LogicExprView
        decreases self,
    {
        match self {
            LogicExpr::And(x0, x1) => LogicExprView::And(x0.model(), x1.model()),
            LogicExpr::Or(x0, x1) => LogicExprView::Or(x0.model(), x1.model()),
            LogicExpr::Not(x0) => LogicExprView::Not(x0.model()),
        }
    }
}

impl DeepView for LogicExpr {
    type V = LogicExprView;

    open spec fn deep_view(&self) -> LogicExprView {
        self.model()
    }
}

/// A sum, a difference, a product, a quotient or a negation.
#[derive(Debug, PartialEq)]
pub enum ArithExpr {
    Add(AtomicExpr, AtomicExpr),
    Sub(AtomicExpr, AtomicExpr),
    Mul(AtomicExpr, AtomicExpr),
    Div(AtomicExpr, AtomicExpr),
    Neg(AtomicExpr),
}

/// A value of `ArithExpr` as plain data.
pub enum ArithExprView {
    Add(AtomicExprView, AtomicExprView),
    Sub(AtomicExprView, AtomicExprView),
    Mul(AtomicExprView, AtomicExprView),
    Div(AtomicExprView, AtomicExprView),
    Neg(AtomicExprView),
}

impl ArithExpr {
    /// The value as plain data.
    pub open spec fn model(self) -> ArithExprView
        decreases self,
    {
        match self {
            ArithExpr::Add(x0, x1) => ArithExprView::Add(x0.model(), x1.model()),
            ArithExpr::Sub(x0, x1) => ArithExprView::Sub(x0.model(), x1.model()),
            ArithExpr::Mul(x0, x1) => ArithExprView::Mul(x0.model(), x1.model()),
            ArithExpr::Div(x0, x1) => ArithExprView::Div(x0.model(), x1.model()),
            ArithExpr::Neg(x0) => ArithExprView::Neg(x0.model()),
        }
    }
}

impl DeepView for ArithExpr {
    type V = ArithExprView;

    open spec fn deep_view(&self) -> ArithExprView {
        self.model()
    }
}

/// A conditional expression: `if c then a else b`.
#[derive(Debug, PartialEq)]
pub struct SelectExpr {
    pub condition: Box<Expression>,
    pub value_true: Box<Expression>,
    pub value_false: Box<Expression>,
}

/// A value of `SelectExpr` as plain data.
pub struct SelectExprView {
    pub condition: Box<ExpressionView>,
    pub value_true: Box<ExpressionView>,
    pub value_false: Box<ExpressionView>,
}

impl SelectExpr {
    /// The value as plain data.
    pub open spec fn model(self) -> SelectExprView
        decreases self,
    {
        SelectExprView {
            condition: Box::new((*self.condition).model()),
            value_true: Box::new((*self.value_true).model()),
            value_false: Box::new((*self.value_false).model()),
        }
    }
}

impl DeepView for SelectExpr {
    type V = SelectExprView;

    open spec fn deep_view(&self) -> SelectExprView {
        self.model()
    }
}

/// A cast: `e : T`.
#[derive(Debug, PartialEq)]
pub struct CastExpr {
    pub value: AtomicExpr,
    pub ty: TypeSpec,
}

/// A value of `CastExpr` as plain data.
pub struct CastExprView {
    pub value: AtomicExprView,
    pub ty: TypeSpecView,
}

impl CastExpr {
    /// The value as plain data.
    pub open spec fn model(self) -> CastExprView
        decreases self,
    {
        CastExprView {
            value: self.value.model(),
            ty: self.ty.deep_view(),
        }
    }
}

impl DeepView for CastExpr {
    type V = CastExprView;

    open spec fn deep_view(&self) -> CastExprView {
        self.model()
    }
}

/// A variable followed by any number of slot accesses and indexings. With none it is a bare variable.
#[derive(Debug, PartialEq)]
pub struct PathExpr {
    pub first: Ident,
    pub extra: Vec<PathSegment>,
}

/// A value of `PathExpr` as plain data.
pub struct PathExprView {
    pub first: Seq<char>,
    pub extra: Seq<PathSegmentView>,
}

impl PathExpr {
    /// The value as plain data.
    pub open spec fn model(self) -> PathExprView
        decreases self,
    {
        PathExprView {
            first: self.first.deep_view(),
            extra: Seq::new(
                self.extra.len() as nat,
                |i: int| if 0 <= i < self.extra.len() { self.extra[i].model() } else { arbitrary() },
            ),
        }
    }
}

impl DeepView for PathExpr {
    type V = PathExprView;

    open spec fn deep_view(&self) -> PathExprView {
        self.model()
    }
}

/// One step of a path: `.slot`, `->slot` or `[index]`.
#[derive(Debug, PartialEq)]
pub enum PathSegment {
    SlotAccess(Ident),
    PtrSlotAccess(Ident),
    ArrayIndex(Box<Expression>),
}

/// A value of `PathSegment` as plain data.
pub enum PathSegmentView {
    SlotAccess(Seq<char>),
    PtrSlotAccess(Seq<char>),
    ArrayIndex(Box<ExpressionView>),
}

impl PathSegment {
    /// The value as plain data.
    pub open spec fn model(self) -> PathSegmentView
        decreases self,
    {
        match self {
            PathSegment::SlotAccess(x0) => PathSegmentView::SlotAccess(x0.deep_view()),
            PathSegment::PtrSlotAccess(x0) => PathSegmentView::PtrSlotAccess(x0.deep_view()),
            PathSegment::ArrayIndex(x0) => PathSegmentView::ArrayIndex(Box::new((*x0).model())),
        }
    }
}

impl DeepView for PathSegment {
    type V = PathSegmentView;

    open spec fn deep_view(&self) -> PathSegmentView {
        self.model()
    }
}

/// A call: the name of what is called and its arguments.
#[derive(Debug, PartialEq)]
pub struct FnCallExpr {
    pub target: Ident,
    pub args: FnCallArgs,
}

/// A value of `FnCallExpr` as plain data.
pub struct FnCallExprView {
    pub target: Seq<char>,
    pub args: FnCallArgsView,
}

impl FnCallExpr {
    /// The value as plain data.
    pub open spec fn model(self) -> FnCallExprView
        decreases self,
    {
        FnCallExprView {
            target: self.target.deep_view(),
            args: self.args.model(),
        }
    }
}

impl DeepView for FnCallExpr {
    type V = FnCallExprView;

    open spec fn deep_view(&self) -> FnCallExprView {
        self.model()
    }
}

/// The arguments of a call: none, or all by position, or all by name, in
/// the order written. A list of arguments is never empty. Named arguments
/// are kept as they are written, so that a name written twice stands
/// twice: the tree shows the source, and the type checker accepts no call
/// that gives a name two arguments.
#[derive(Debug, PartialEq)]
pub enum FnCallArgs {
    Empty,
    Positional(Vec<Expression>),
    Named(Vec<NamedArg>),
}

/// A value of `FnCallArgs` as plain data.
pub enum FnCallArgsView {
    Empty,
    Positional(Seq<ExpressionView>),
    Named(Seq<NamedArgView>),
}

impl FnCallArgs {
    /// The value as plain data.
    pub open spec fn model(self) -> FnCallArgsView
        decreases self,
    {
        match self {
            FnCallArgs::Empty => FnCallArgsView::Empty,
            FnCallArgs::Positional(x0) => FnCallArgsView::Positional(Seq::new(x0.len() as nat, |i: int| if 0 <= i < x0.len() { x0[i].model() } else { arbitrary() })),
            FnCallArgs::Named(x0) => FnCallArgsView::Named(Seq::new(x0.len() as nat, |i: int| if 0 <= i < x0.len() { x0[i].model() } else { arbitrary() })),
        }
    }
}

impl DeepView for FnCallArgs {
    type V = FnCallArgsView;

    open spec fn deep_view(&self) -> FnCallArgsView {
        self.model()
    }
}

/// One named argument: `name => value`.
#[derive(Debug, PartialEq)]
pub struct NamedArg {
    pub name: Ident,
    pub value: Expression,
}

/// A value of `NamedArg` as plain data.
pub struct NamedArgView {
    pub name: Seq<char>,
    pub value: ExpressionView,
}

impl NamedArg {
    /// The value as plain data.
    pub open spec fn model(self) -> NamedArgView
        decreases self,
    {
        NamedArgView {
            name: self.name.deep_view(),
            value: self.value.model(),
        }
    }
}

impl DeepView for NamedArg {
    type V = NamedArgView;

    open spec fn deep_view(&self) -> NamedArgView {
        self.model()
    }
}

/// An intrinsic: `@embed(T, "code", e, ...)`.
#[derive(Debug, PartialEq)]
pub enum IntrinExpr {
    Embed { ty: TypeSpec, exp: String, args: Vec<Expression> },
}

/// A value of `IntrinExpr` as plain data.
pub enum IntrinExprView {
    Embed { ty: TypeSpecView, exp: Seq<char>, args: Seq<ExpressionView> },
}

impl IntrinExpr {
    /// The value as plain data.
    pub open spec fn model(self) -> IntrinExprView
        decreases self,
    {
        match self {
            IntrinExpr::Embed { ty, exp, args } => IntrinExprView::Embed {
                ty: ty.deep_view(),
                exp: exp.deep_view(),
                args: Seq::new(
                    args.len() as nat,
                    |i: int| if 0 <= i < args.len() { args[i].model() } else { arbitrary() },
                ),
            },
        }
    }
}

impl DeepView for IntrinExpr {
    type V = IntrinExprView;

    open spec fn deep_view(&self) -> IntrinExprView {
        self.model()
    }
}

impl Default for FnCallArgs {
    fn default() -> (r: FnCallArgs)
        ensures
            r.deep_view() == FnCallArgsView::Empty,
    {
        FnCallArgs::Empty
    }
}

impl PathExpr {
    /// Whether the path is a bare variable: an identifier with no segment.
    pub fn is_variable(&self) -> (r: bool)
        ensures
            r == (self.deep_view().extra.len() == 0),
    {
        self.extra.len() == 0
    }
}

impl FnCallArgsView {
    /// Arguments are well formed when a list of them is not empty: a call
    /// without arguments has `Empty`.
    pub open spec fn wf(self) -> bool {
        match self {
            FnCallArgsView::Empty => true,
            FnCallArgsView::Positional(values) => values.len() > 0,
            FnCallArgsView::Named(pairs) => pairs.len() > 0,
        }
    }
}

    /// The kinds of token that an atomic expression can start with.
    pub open spec fn atomic_starts() -> Seq<TokenKind> {
        seq![
            TokenKind::Nil,
            TokenKind::True,
            TokenKind::False,
            TokenKind::Char,
            TokenKind::Decimal,
            TokenKind::Float,
            TokenKind::String,
            TokenKind::Ident,
            TokenKind::RefTransform,
            TokenKind::LParen,
            TokenKind::Embed,
            TokenKind::SizeOf,
            TokenKind::BorrowRead,
            TokenKind::BorrowWrite,
            TokenKind::ReBorrow,
            TokenKind::Deref,
        ]
    }

    /// The kinds of token that an atomic expression can start with.
    pub fn atomic_starts_list() -> (kinds: Vec<TokenKind>)
        ensures
            kinds@ == atomic_starts(),
    {
        let mut kinds: Vec<TokenKind> = Vec::new();
        kinds.push(TokenKind::Nil);
        kinds.push(TokenKind::True);
        kinds.push(TokenKind::False);
        kinds.push(TokenKind::Char);
        kinds.push(TokenKind::Decimal);
        kinds.push(TokenKind::Float);
        kinds.push(TokenKind::String);
        kinds.push(TokenKind::Ident);
        kinds.push(TokenKind::RefTransform);
        kinds.push(TokenKind::LParen);
        kinds.push(TokenKind::Embed);
        kinds.push(TokenKind::SizeOf);
        kinds.push(TokenKind::BorrowRead);
        kinds.push(TokenKind::BorrowWrite);
        kinds.push(TokenKind::ReBorrow);
        kinds.push(TokenKind::Deref);
        assert(kinds@ =~= atomic_starts());
        kinds
    }

    /// The kinds of the literal tokens.
    pub open spec fn literal_kinds() -> Seq<TokenKind> {
        seq![
            TokenKind::Nil,
            TokenKind::True,
            TokenKind::False,
            TokenKind::Char,
            TokenKind::Decimal,
            TokenKind::Float,
            TokenKind::String,
        ]
    }

    /// The kinds of the literal tokens.
    pub fn literal_kinds_list() -> (kinds: Vec<TokenKind>)
        ensures
            kinds@ == literal_kinds(),
    {
        let mut kinds: Vec<TokenKind> = Vec::new();
        kinds.push(TokenKind::Nil);
        kinds.push(TokenKind::True);
        kinds.push(TokenKind::False);
        kinds.push(TokenKind::Char);
        kinds.push(TokenKind::Decimal);
        kinds.push(TokenKind::Float);
        kinds.push(TokenKind::String);
        assert(kinds@ =~= literal_kinds());
        kinds
    }

    /// The operators that borrow a variable.
    pub open spec fn borrow_operators() -> Seq<TokenKind> {
        seq![TokenKind::BorrowRead, TokenKind::BorrowWrite, TokenKind::ReBorrow]
    }

    /// The operators that borrow a variable.
    pub fn borrow_operators_list() -> (kinds: Vec<TokenKind>)
        ensures
            kinds@ == borrow_operators(),
    {
        let mut kinds: Vec<TokenKind> = Vec::new();
        kinds.push(TokenKind::BorrowRead);
        kinds.push(TokenKind::BorrowWrite);
        kinds.push(TokenKind::ReBorrow);
        assert(kinds@ =~= borrow_operators());
        kinds
    }

    /// The comparison operators.
    pub open spec fn comparison_operators() -> Seq<TokenKind> {
        seq![
            TokenKind::Eq,
            TokenKind::NotEq,
            TokenKind::Lt,
            TokenKind::LtEq,
            TokenKind::Gt,
            TokenKind::GtEq,
        ]
    }

    /// The comparison operators.
    pub fn comparison_operators_list() -> (kinds: Vec<TokenKind>)
        ensures
            kinds@ == comparison_operators(),
    {
        let mut kinds: Vec<TokenKind> = Vec::new();
        kinds.push(TokenKind::Eq);
        kinds.push(TokenKind::NotEq);
        kinds.push(TokenKind::Lt);
        kinds.push(TokenKind::LtEq);
        kinds.push(TokenKind::Gt);
        kinds.push(TokenKind::GtEq);
        assert(kinds@ =~= comparison_operators());
        kinds
    }

    /// The binary logical operators.
    pub open spec fn logic_operators() -> Seq<TokenKind> {
        seq![TokenKind::And, TokenKind::Or]
    }

    /// The binary logical operators.
    pub fn logic_operators_list() -> (kinds: Vec<TokenKind>)
        ensures
            kinds@ == logic_operators(),
    {
        let mut kinds: Vec<TokenKind> = Vec::new();
        kinds.push(TokenKind::And);
        kinds.push(TokenKind::Or);
        assert(kinds@ =~= logic_operators());
        kinds
    }

    /// The binary arithmetic operators.
    pub open spec fn arith_operators() -> Seq<TokenKind> {
        seq![TokenKind::Add, TokenKind::Sub, TokenKind::Mul, TokenKind::Div]
    }

    /// The binary arithmetic operators.
    pub fn arith_operators_list() -> (kinds: Vec<TokenKind>)
        ensures
            kinds@ == arith_operators(),
    {
        let mut kinds: Vec<TokenKind> = Vec::new();
        kinds.push(TokenKind::Add);
        kinds.push(TokenKind::Sub);
        kinds.push(TokenKind::Mul);
        kinds.push(TokenKind::Div);
        assert(kinds@ =~= arith_operators());
        kinds
    }

    /// The kinds of token that make a compound expression of the operand before them.
    pub open spec fn compound_operators() -> Seq<TokenKind> {
        seq![
            TokenKind::Eq,
            TokenKind::NotEq,
            TokenKind::Lt,
            TokenKind::LtEq,
            TokenKind::Gt,
            TokenKind::GtEq,
            TokenKind::And,
            TokenKind::Or,
            TokenKind::Add,
            TokenKind::Sub,
            TokenKind::Mul,
            TokenKind::Div,
            TokenKind::Colon,
        ]
    }

    /// The kinds of token that make a compound expression of the operand before them.
    pub fn compound_operators_list() -> (kinds: Vec<TokenKind>)
        ensures
            kinds@ == compound_operators(),
    {
        let mut kinds: Vec<TokenKind> = Vec::new();
        kinds.push(TokenKind::Eq);
        kinds.push(TokenKind::NotEq);
        kinds.push(TokenKind::Lt);
        kinds.push(TokenKind::LtEq);
        kinds.push(TokenKind::Gt);
        kinds.push(TokenKind::GtEq);
        kinds.push(TokenKind::And);
        kinds.push(TokenKind::Or);
        kinds.push(TokenKind::Add);
        kinds.push(TokenKind::Sub);
        kinds.push(TokenKind::Mul);
        kinds.push(TokenKind::Div);
        kinds.push(TokenKind::Colon);
        assert(kinds@ =~= compound_operators());
        kinds
    }

    /// The kinds of token that a path segment can start with.
    pub open spec fn segment_starts() -> Seq<TokenKind> {
        seq![TokenKind::Period, TokenKind::HypenRight, TokenKind::LBracket]
    }

    /// The kinds of token that a path segment can start with.
    pub fn segment_starts_list() -> (kinds: Vec<TokenKind>)
        ensures
            kinds@ == segment_starts(),
    {
        let mut kinds: Vec<TokenKind> = Vec::new();
        kinds.push(TokenKind::Period);
        kinds.push(TokenKind::HypenRight);
        kinds.push(TokenKind::LBracket);
        assert(kinds@ =~= segment_starts());
        kinds
    }

/// The kinds of token that compare.
pub open spec fn is_comparison_operator(k: TokenKind) -> bool {
    k == TokenKind::Eq || k == TokenKind::NotEq || k == TokenKind::Lt || k == TokenKind::LtEq || k
        == TokenKind::Gt || k == TokenKind::GtEq
}

/// The kinds of token that join two conditions.
pub open spec fn is_logic_operator(k: TokenKind) -> bool {
    k == TokenKind::And || k == TokenKind::Or
}

/// The kinds of token of binary arithmetic.
pub open spec fn is_arith_operator(k: TokenKind) -> bool {
    k == TokenKind::Add || k == TokenKind::Sub || k == TokenKind::Mul || k == TokenKind::Div
}

/// The comparison of `lhs` and `rhs` by the operator of kind `k`.
pub open spec fn comparison_of(
    k: TokenKind,
    lhs: AtomicExprView,
    rhs: AtomicExprView,
) -> CmpExprView {
    match k {
        TokenKind::NotEq => CmpExprView::NotEq(lhs, rhs),
        TokenKind::Lt => CmpExprView::Lt(lhs, rhs),
        TokenKind::LtEq => CmpExprView::LtEq(lhs, rhs),
        TokenKind::Gt => CmpExprView::Gt(lhs, rhs),
        TokenKind::GtEq => CmpExprView::GtEq(lhs, rhs),
        _ => CmpExprView::Eq(lhs, rhs),
    }
}

/// The arithmetic expression of `lhs` and `rhs` by the operator of kind `k`.
pub open spec fn arith_of(k: TokenKind, lhs: AtomicExprView, rhs: AtomicExprView) -> ArithExprView {
    match k {
        TokenKind::Sub => ArithExprView::Sub(lhs, rhs),
        TokenKind::Mul => ArithExprView::Mul(lhs, rhs),
        TokenKind::Div => ArithExprView::Div(lhs, rhs),
        _ => ArithExprView::Add(lhs, rhs),
    }
}

/// The rule of expressions. `not`, a leading `-` and `if` start a compound
/// expression. Otherwise an expression starts with an atomic one; if an
/// operator or `:` follows it, the whole is a compound expression, else the
/// atomic expression is the whole.
#[verifier::opaque]
pub open spec fn expression_at(ts: Seq<Token>, pos: int) -> Parsed<ExpressionView>
    decreases ts.len() - pos, 6int,
{
    let k = kind_at(ts, pos);
    if k == TokenKind::Not || k == TokenKind::Sub || k == TokenKind::If {
        match compound_at(ts, pos) {
            Ok((c, n)) => Ok((ExpressionView::Compound(c), n)),
            Err(f) => Err(f),
        }
    } else {
        match atomic_at(ts, pos) {
            Err(f) => Err(f),
            Ok((a, n)) => {
                let next = kind_at(ts, pos + n);
                if is_comparison_operator(next) || is_logic_operator(next) || is_arith_operator(next)
                    || next == TokenKind::Colon {
                    match compound_at(ts, pos) {
                        Ok((c, m)) => Ok((ExpressionView::Compound(c), m)),
                        Err(f) => Err(f),
                    }
                } else {
                    Ok((ExpressionView::Atomic(a), n))
                }
            },
        }
    }
}

/// The rule of compound expressions: which of the five it is shows in the
/// first token or in the token after the first operand.
#[verifier::opaque]
pub open spec fn compound_at(ts: Seq<Token>, pos: int) -> Parsed<CompoundExprView>
    decreases ts.len() - pos, 5int,
{
    let k = kind_at(ts, pos);
    if k == TokenKind::Not {
        match logic_at(ts, pos) {
            Ok((e, n)) => Ok((CompoundExprView::Logic(e), n)),
            Err(f) => Err(f),
        }
    } else if k == TokenKind::Sub {
        match arith_at(ts, pos) {
            Ok((e, n)) => Ok((CompoundExprView::Arith(e), n)),
            Err(f) => Err(f),
        }
    } else if k == TokenKind::If {
        match select_at(ts, pos) {
            Ok((e, n)) => Ok((CompoundExprView::Select(e), n)),
            Err(f) => Err(f),
        }
    } else {
        match atomic_at(ts, pos) {
            Err(f) => Err(f),
            Ok((_, n)) => {
                let next = kind_at(ts, pos + n);
                if is_comparison_operator(next) {
                    match comparison_at(ts, pos) {
                        Ok((e, m)) => Ok((CompoundExprView::Cmp(e), m)),
                        Err(f) => Err(f),
                    }
                } else if is_logic_operator(next) {
                    match logic_at(ts, pos) {
                        Ok((e, m)) => Ok((CompoundExprView::Logic(e), m)),
                        Err(f) => Err(f),
                    }
                } else if is_arith_operator(next) {
                    match arith_at(ts, pos) {
                        Ok((e, m)) => Ok((CompoundExprView::Arith(e), m)),
                        Err(f) => Err(f),
                    }
                } else if next == TokenKind::Colon {
                    match cast_at(ts, pos) {
                        Ok((e, m)) => Ok((CompoundExprView::Cast(e), m)),
                        Err(f) => Err(f),
                    }
                } else {
                    fail(pos + n, compound_operators())
                }
            },
        }
    }
}

/// The rule of comparisons: an operand, a comparison operator, an operand.
#[verifier::opaque]
pub open spec fn comparison_at(ts: Seq<Token>, pos: int) -> Parsed<CmpExprView>
    decreases ts.len() - pos, 4int,
{
    match atomic_at(ts, pos) {
        Err(f) => Err(f),
        Ok((lhs, n1)) => {
            let k = kind_at(ts, pos + n1);
            if !is_comparison_operator(k) {
                fail(pos + n1, comparison_operators())
            } else {
                match atomic_at(ts, pos + n1 + 1) {
                    Err(f) => Err(f),
                    Ok((rhs, n2)) => Ok((comparison_of(k, lhs, rhs), n1 + n2 + 1)),
                }
            }
        },
    }
}

/// The rule of logical expressions: `not` and an operand, or two operands
/// joined by `and` or `or`.
#[verifier::opaque]
pub open spec fn logic_at(ts: Seq<Token>, pos: int) -> Parsed<LogicExprView>
    decreases ts.len() - pos, 4int,
{
    if kind_at(ts, pos) == TokenKind::Not {
        match atomic_at(ts, pos + 1) {
            Err(f) => Err(f),
            Ok((e, n)) => Ok((LogicExprView::Not(e), n + 1)),
        }
    } else {
        match atomic_at(ts, pos) {
            Err(f) => Err(f),
            Ok((lhs, n1)) => {
                let k = kind_at(ts, pos + n1);
                if !is_logic_operator(k) {
                    fail(pos + n1, logic_operators())
                } else {
                    match atomic_at(ts, pos + n1 + 1) {
                        Err(f) => Err(f),
                        Ok((rhs, n2)) => Ok(
                            (
                                if k == TokenKind::And {
                                    LogicExprView::And(lhs, rhs)
                                } else {
                                    LogicExprView::Or(lhs, rhs)
                                },
                                n1 + n2 + 1,
                            ),
                        ),
                    }
                }
            },
        }
    }
}

/// The rule of arithmetic expressions: `-` and an operand, or two operands
/// joined by `+`, `-`, `*` or `/`.
#[verifier::opaque]
pub open spec fn arith_at(ts: Seq<Token>, pos: int) -> Parsed<ArithExprView>
    decreases ts.len() - pos, 4int,
{
    if kind_at(ts, pos) == TokenKind::Sub {
        match atomic_at(ts, pos + 1) {
            Err(f) => Err(f),
            Ok((e, n)) => Ok((ArithExprView::Neg(e), n + 1)),
        }
    } else {
        match atomic_at(ts, pos) {
            Err(f) => Err(f),
            Ok((lhs, n1)) => {
                let k = kind_at(ts, pos + n1);
                if !is_arith_operator(k) {
                    fail(pos + n1, arith_operators())
                } else {
                    match atomic_at(ts, pos + n1 + 1) {
                        Err(f) => Err(f),
                        Ok((rhs, n2)) => Ok((arith_of(k, lhs, rhs), n1 + n2 + 1)),
                    }
                }
            },
        }
    }
}

/// The rule of conditional expressions: `if c then a else b`.
#[verifier::opaque]
pub open spec fn select_at(ts: Seq<Token>, pos: int) -> Parsed<SelectExprView>
    decreases ts.len() - pos, 4int,
{
    if kind_at(ts, pos) != TokenKind::If {
        fail(pos, seq![TokenKind::If])
    } else {
        match expression_at(ts, pos + 1) {
            Err(f) => Err(f),
            Ok((c, n1)) => if kind_at(ts, pos + n1 + 1) != TokenKind::Then {
                fail(pos + n1 + 1, seq![TokenKind::Then])
            } else {
                match expression_at(ts, pos + n1 + 2) {
                    Err(f) => Err(f),
                    Ok((a, n2)) => if kind_at(ts, pos + n1 + n2 + 2) != TokenKind::Else {
                        fail(pos + n1 + n2 + 2, seq![TokenKind::Else])
                    } else {
                        match expression_at(ts, pos + n1 + n2 + 3) {
                            Err(f) => Err(f),
                            Ok((b, n3)) => Ok(
                                (
                                    SelectExprView {
                                        condition: Box::new(c),
                                        value_true: Box::new(a),
                                        value_false: Box::new(b),
                                    },
                                    n1 + n2 + n3 + 3,
                                ),
                            ),
                        }
                    },
                }
            },
        }
    }
}

/// The rule of casts: an operand, `:` and a type specification.
#[verifier::opaque]
pub open spec fn cast_at(ts: Seq<Token>, pos: int) -> Parsed<CastExprView>
    decreases ts.len() - pos, 4int,
{
    match atomic_at(ts, pos) {
        Err(f) => Err(f),
        Ok((value, n1)) => if kind_at(ts, pos + n1) != TokenKind::Colon {
            fail(pos + n1, seq![TokenKind::Colon])
        } else {
            match type_spec_at(ts, pos + n1 + 1) {
                Err(f) => Err(f),
                Ok((ty, n2)) => Ok((CastExprView { value, ty }, n1 + n2 + 1)),
            }
        },
    }
}

/// The rule of atomic expressions. A literal token is a constant; an
/// identifier starts a call if `(` follows it and a path otherwise; `&(`
/// starts a reference path, `(` an expression in parentheses, `@embed` the
/// intrinsic, `sizeof` a size; `&`, `&!` and `&~` borrow a variable, and `!`
/// dereferences an operand.
#[verifier::opaque]
pub open spec fn atomic_at(ts: Seq<Token>, pos: int) -> Parsed<AtomicExprView>
    decreases ts.len() - pos, 3int,
{
    match kind_at(ts, pos) {
        TokenKind::Nil | TokenKind::True | TokenKind::False | TokenKind::Char | TokenKind::Decimal | TokenKind::Float | TokenKind::String => literal_at(
            ts,
            pos,
        ),
        TokenKind::Ident => if kind_at(ts, pos + 1) == TokenKind::LParen {
            match fn_call_at(ts, pos) {
                Ok((call, n)) => Ok((AtomicExprView::FnCall(call), n)),
                Err(f) => Err(f),
            }
        } else {
            match path_at(ts, pos) {
                Ok((path, n)) => Ok((AtomicExprView::Path(path), n)),
                Err(f) => Err(f),
            }
        },
        TokenKind::RefTransform => ref_path_at(ts, pos),
        TokenKind::LParen => paren_at(ts, pos),
        TokenKind::Embed => match intrin_at(ts, pos) {
            Ok((e, n)) => Ok((AtomicExprView::Intrinsic(e), n)),
            Err(f) => Err(f),
        },
        TokenKind::SizeOf => size_of_at(ts, pos),
        TokenKind::BorrowRead | TokenKind::BorrowWrite | TokenKind::ReBorrow => borrow_at(ts, pos),
        TokenKind::Deref => match atomic_at(ts, pos + 1) {
            Ok((e, n)) => Ok((AtomicExprView::Deref(Box::new(e)), n + 1)),
            Err(f) => Err(f),
        },
        _ => fail(pos, atomic_starts()),
    }
}

/// The rule of constants: one literal token.
#[verifier::opaque]
pub open spec fn literal_at(ts: Seq<Token>, pos: int) -> Parsed<AtomicExprView> {
    match token_at(ts, pos) {
        Some(Token::Nil) => Ok((AtomicExprView::ConstNil, 1)),
        Some(Token::True) => Ok((AtomicExprView::ConstBool(true), 1)),
        Some(Token::False) => Ok((AtomicExprView::ConstBool(false), 1)),
        Some(Token::Char(c)) => Ok((AtomicExprView::ConstChar(c), 1)),
        Some(Token::Decimal(n)) => Ok((AtomicExprView::ConstInt(n), 1)),
        Some(Token::Float(s)) => Ok((AtomicExprView::ConstFloat(s@), 1)),
        Some(Token::String(s)) => Ok((AtomicExprView::ConstStr(s@), 1)),
        _ => fail(pos, literal_kinds()),
    }
}

/// The rule of reference paths: `&(`, a path and `)`.
#[verifier::opaque]
pub open spec fn ref_path_at(ts: Seq<Token>, pos: int) -> Parsed<AtomicExprView>
    decreases ts.len() - pos, 2int,
{
    if kind_at(ts, pos) != TokenKind::RefTransform {
        fail(pos, seq![TokenKind::RefTransform])
    } else {
        match path_at(ts, pos + 1) {
            Err(f) => Err(f),
            Ok((path, n)) => if kind_at(ts, pos + n + 1) != TokenKind::RParen {
                fail(pos + n + 1, seq![TokenKind::RParen])
            } else {
                Ok((AtomicExprView::RefPath(path), n + 2))
            },
        }
    }
}

/// The rule of expressions in parentheses.
#[verifier::opaque]
pub open spec fn paren_at(ts: Seq<Token>, pos: int) -> Parsed<AtomicExprView>
    decreases ts.len() - pos, 2int,
{
    if kind_at(ts, pos) != TokenKind::LParen {
        fail(pos, seq![TokenKind::LParen])
    } else {
        match expression_at(ts, pos + 1) {
            Err(f) => Err(f),
            Ok((e, n)) => if kind_at(ts, pos + n + 1) != TokenKind::RParen {
                fail(pos + n + 1, seq![TokenKind::RParen])
            } else {
                Ok((AtomicExprView::Paren(Box::new(e)), n + 2))
            },
        }
    }
}

/// The rule of sizes: `sizeof`, and a type specification in parentheses.
#[verifier::opaque]
pub open spec fn size_of_at(ts: Seq<Token>, pos: int) -> Parsed<AtomicExprView> {
    if kind_at(ts, pos) != TokenKind::SizeOf {
        fail(pos, seq![TokenKind::SizeOf])
    } else if kind_at(ts, pos + 1) != TokenKind::LParen {
        fail(pos + 1, seq![TokenKind::LParen])
    } else {
        match type_spec_at(ts, pos + 2) {
            Err(f) => Err(f),
            Ok((ty, n)) => if kind_at(ts, pos + n + 2) != TokenKind::RParen {
                fail(pos + n + 2, seq![TokenKind::RParen])
            } else {
                Ok((AtomicExprView::SizeOf(ty), n + 3))
            },
        }
    }
}

/// The rule of borrows of a variable: `&x`, `&!x` and `&~x`.
#[verifier::opaque]
pub open spec fn borrow_at(ts: Seq<Token>, pos: int) -> Parsed<AtomicExprView> {
    let k = kind_at(ts, pos);
    if k != TokenKind::BorrowRead && k != TokenKind::BorrowWrite && k != TokenKind::ReBorrow {
        fail(pos, borrow_operators())
    } else {
        match ident_at(ts, pos + 1) {
            Err(f) => Err(f),
            Ok((name, n)) => Ok(
                (
                    if k == TokenKind::BorrowRead {
                        AtomicExprView::BorrowRead(name)
                    } else if k == TokenKind::BorrowWrite {
                        AtomicExprView::BorrowWrite(name)
                    } else {
                        AtomicExprView::ReBorrow(name)
                    },
                    n + 1,
                ),
            ),
        }
    }
}

/// The rule of paths: an identifier and any number of segments.
#[verifier::opaque]
pub open spec fn path_at(ts: Seq<Token>, pos: int) -> Parsed<PathExprView>
    decreases ts.len() - pos, 1int,
{
    match token_at(ts, pos) {
        Some(Token::Ident(first)) => {
            let list = path_segments_at(ts, pos + 1, Seq::empty());
            Ok((PathExprView { first: first@, extra: list.items }, list.taken + 1))
        },
        _ => fail(pos, seq![TokenKind::Ident]),
    }
}

/// The rule of path segments: `.slot`, `->slot` or `[index]`.
#[verifier::opaque]
pub open spec fn path_segment_at(ts: Seq<Token>, pos: int) -> Parsed<PathSegmentView>
    decreases ts.len() - pos, 0int,
{
    match kind_at(ts, pos) {
        TokenKind::Period => match ident_at(ts, pos + 1) {
            Ok((name, n)) => Ok((PathSegmentView::SlotAccess(name), n + 1)),
            Err(f) => Err(f),
        },
        TokenKind::HypenRight => match ident_at(ts, pos + 1) {
            Ok((name, n)) => Ok((PathSegmentView::PtrSlotAccess(name), n + 1)),
            Err(f) => Err(f),
        },
        TokenKind::LBracket => match expression_at(ts, pos + 1) {
            Err(f) => Err(f),
            Ok((e, n)) => if kind_at(ts, pos + n + 1) != TokenKind::RBracket {
                fail(pos + n + 1, seq![TokenKind::RBracket])
            } else {
                Ok((PathSegmentView::ArrayIndex(Box::new(e)), n + 2))
            },
        },
        _ => fail(pos, segment_starts()),
    }
}

/// The segments of a path: as many as can be read.
#[verifier::opaque]
pub open spec fn path_segments_at(
    ts: Seq<Token>,
    pos: int,
    acc: Seq<PathSegmentView>,
) -> Listed<PathSegmentView>
    decreases ts.len() - pos, 1int,
{
    match path_segment_at(ts, pos) {
        Err(f) => Listed { items: acc, taken: 0, stopped: f },
        Ok((item, n)) => if 0 < n && pos + n <= ts.len() {
            path_segments_at(ts, pos + n, acc.push(item)).advance(n)
        } else {
            Listed { items: acc, taken: 0, stopped: ParseFailure { at: pos, expected: seq![] } }
        },
    }
}

/// Parses the items of a list from a position by the rule `path_segments_at`:
/// the items, the position after them, and the failure that ended the list.
pub fn parse_path_segments(ts: &[Token], pos: usize) -> (r: (Vec<PathSegment>, usize, ParseError))
    requires
        pos <= ts.len(),
    ensures
        listed(r, pos, ts.len(), path_segments_at(ts@, pos as int, Seq::empty())),
    decreases ts.len() - pos, 1int,
{
    let mut items: Vec<PathSegment> = Vec::new();
    let mut cur: usize = pos;
    let mut stopped: Option<ParseError> = None;
    assert(items.deep_view() =~= Seq::empty());
    while stopped.is_none()
        invariant
            pos <= cur <= ts.len(),
            stopped is None ==> path_segments_at(ts@, pos as int, Seq::empty()) == path_segments_at(
                ts@,
                cur as int,
                items.deep_view(),
            ).advance((cur - pos) as nat),
            stopped is Some ==> path_segments_at(ts@, pos as int, Seq::empty()) == (Listed {
                items: items.deep_view(),
                taken: (cur - pos) as nat,
                stopped: stopped->0@,
            }),
        decreases ts.len() - cur + (if stopped is None { 1int } else { 0int }),
    {
        proof {
            reveal(path_segments_at);
            reveal(path_segment_at);
        }
        match parse_path_segment(ts, cur) {
            Err(e) => {
                stopped = Some(e);
            },
            Ok((item, p)) => {
                let ghost before = items.deep_view();
                let ghost added = item.deep_view();
                items.push(item);
                assert(items.deep_view() =~= before.push(added));
                cur = p;
            },
        }
    }
    (items, cur, stopped.unwrap())
}

/// The items of a list that the rule `path_segments_at` gives, from index `from` on, as
/// tokens, one after the other.
pub open spec fn path_segments_tokens(items: Seq<PathSegmentView>, from: nat) -> Seq<TokenView>
    decreases items, items.len() - from,
{
    if from >= items.len() {
        Seq::empty()
    } else {
        path_segment_tokens(items[from as int]) + path_segments_tokens(items, from + 1)
    }
}

/// The tokens that the list rule `path_segments_at` read are the tokens that the
/// items it added print as, unless it read a token that they do not show.
/// The list keeps the items it started from.
pub proof fn lemma_path_segments_spelled(ts: Seq<Token>, pos: int, acc: Seq<PathSegmentView>)
    requires
        0 <= pos <= ts.len(),
    ensures
        path_segments_at(ts, pos, acc).items.len() >= acc.len(),
        path_segments_at(
            ts,
            pos,
            acc,
        ).items.len() == acc.len() ==> path_segments_at(ts, pos, acc).taken == 0,
        forall|i: int| 0 <= i < acc.len() ==> path_segments_at(ts, pos, acc).items[i] == acc[i],
        spelled(
            ts,
            pos,
            path_segments_at(ts, pos, acc).taken,
            path_segments_tokens(path_segments_at(ts, pos, acc).items, acc.len()),
        ),
    decreases ts.len() - pos, 1int,
{
    reveal(path_segments_at);
    reveal(path_segment_at);
    match path_segment_at(ts, pos) {
        Err(_) => {
            lemma_spelled_nothing(ts, pos, 0);
        },
        Ok((item, n)) => {
            let pushed = acc.push(item);
            assert forall|i: int| 0 <= i < acc.len() implies pushed[i] == acc[i] by {}
            lemma_path_segment_spelled(ts, pos);
            if 0 < n && pos + n <= ts.len() {
                let rest = path_segments_at(ts, pos + n, pushed);
                lemma_path_segments_spelled(ts, pos + n, pushed);
                assert(pushed[acc.len() as int] == item);
                assert(rest.items[acc.len() as int] == pushed[acc.len() as int]);
                lemma_spelled_then(
                    ts,
                    pos,
                    n,
                    path_segment_tokens(item),
                    rest.taken,
                    path_segments_tokens(rest.items, pushed.len()),
                );
            } else {
                lemma_spelled_nothing(ts, pos, 0);
            }
        },
    }
}

/// The rule of calls: an identifier and its arguments in parentheses.
#[verifier::opaque]
pub open spec fn fn_call_at(ts: Seq<Token>, pos: int) -> Parsed<FnCallExprView>
    decreases ts.len() - pos, 1int,
{
    match token_at(ts, pos) {
        Some(Token::Ident(target)) => if kind_at(ts, pos + 1) != TokenKind::LParen {
            fail(pos + 1, seq![TokenKind::LParen])
        } else {
            let list = fn_call_args_at(ts, pos + 2);
            match closing(ts, pos + 2 + list.taken, TokenKind::RParen, list.stopped) {
                Some(f) => Err(f),
                None => Ok((FnCallExprView { target: target@, args: list.args }, list.taken + 3)),
            }
        },
        _ => fail(pos, seq![TokenKind::Ident]),
    }
}

/// What the rule of arguments gives at a position. Like a list it never
/// fails.
pub struct Arguments {
    pub args: FnCallArgsView,
    pub taken: nat,
    pub stopped: ParseFailure,
}

/// The rule of arguments. If the first argument has the form
/// `name => value`, all have and the arguments are named; otherwise none has
/// and they are positional; where no argument can be read they are empty.
#[verifier::opaque]
pub open spec fn fn_call_args_at(ts: Seq<Token>, pos: int) -> Arguments
    decreases ts.len() - pos, 9int,
{
    if kind_at(ts, pos) == TokenKind::Ident && kind_at(ts, pos + 1) == TokenKind::ArrowRight {
        let list = named_args_at(ts, pos, Seq::empty());
        Arguments {
            args: if list.items.len() == 0 {
                FnCallArgsView::Empty
            } else {
                FnCallArgsView::Named(list.items)
            },
            taken: list.taken,
            stopped: list.stopped,
        }
    } else {
        let list = expressions_at(ts, pos, Seq::empty());
        Arguments {
            args: if list.items.len() == 0 {
                FnCallArgsView::Empty
            } else {
                FnCallArgsView::Positional(list.items)
            },
            taken: list.taken,
            stopped: list.stopped,
        }
    }
}

/// The rule of a named argument: `name => value`.
#[verifier::opaque]
pub open spec fn named_arg_at(ts: Seq<Token>, pos: int) -> Parsed<NamedArgView>
    decreases ts.len() - pos, 7int,
{
    match token_at(ts, pos) {
        Some(Token::Ident(name)) => if kind_at(ts, pos + 1) != TokenKind::ArrowRight {
            fail(pos + 1, seq![TokenKind::ArrowRight])
        } else {
            match expression_at(ts, pos + 2) {
                Ok((value, n)) => Ok((NamedArgView { name: name@, value }, n + 2)),
                Err(f) => Err(f),
            }
        },
        _ => fail(pos, seq![TokenKind::Ident]),
    }
}

/// Named arguments separated by commas, where a comma may follow the last.
#[verifier::opaque]
pub open spec fn named_args_at(
    ts: Seq<Token>,
    pos: int,
    acc: Seq<NamedArgView>,
) -> Listed<NamedArgView>
    decreases ts.len() - pos, 8int,
{
    match named_arg_at(ts, pos) {
        Err(f) => Listed { items: acc, taken: 0, stopped: f },
        Ok((item, n)) => if kind_at(ts, pos + n) == TokenKind::Comma {
            named_args_at(ts, pos + n + 1, acc.push(item)).advance(n + 1)
        } else {
            Listed {
                items: acc.push(item),
                taken: n,
                stopped: ParseFailure { at: pos + n, expected: seq![TokenKind::Comma] },
            }
        },
    }
}

/// Parses the items of a list from a position by the rule `named_args_at`: the
/// items, the position after them, and the failure that ended the list.
pub fn parse_named_args(ts: &[Token], pos: usize) -> (r: (Vec<NamedArg>, usize, ParseError))
    requires
        pos <= ts.len(),
    ensures
        listed(r, pos, ts.len(), named_args_at(ts@, pos as int, Seq::empty())),
    decreases ts.len() - pos, 8int,
{
    let mut items: Vec<NamedArg> = Vec::new();
    let mut cur: usize = pos;
    let mut stopped: Option<ParseError> = None;
    assert(items.deep_view() =~= Seq::empty());
    while stopped.is_none()
        invariant
            pos <= cur <= ts.len(),
            stopped is None ==> named_args_at(ts@, pos as int, Seq::empty()) == named_args_at(
                ts@,
                cur as int,
                items.deep_view(),
            ).advance((cur - pos) as nat),
            stopped is Some ==> named_args_at(ts@, pos as int, Seq::empty()) == (Listed {
                items: items.deep_view(),
                taken: (cur - pos) as nat,
                stopped: stopped->0@,
            }),
        decreases ts.len() - cur + (if stopped is None { 1int } else { 0int }),
    {
        proof {
            reveal(named_args_at);
            reveal(named_arg_at);
        }
        match parse_named_arg(ts, cur) {
            Err(e) => {
                stopped = Some(e);
            },
            Ok((item, p)) => {
                let ghost before = items.deep_view();
                let ghost added = item.deep_view();
                items.push(item);
                assert(items.deep_view() =~= before.push(added));
                if peek(ts, p) == TokenKind::Comma {
                    cur = p + 1;
                } else {
                    cur = p;
                    stopped = Some(missing(p, TokenKind::Comma));
                }
            },
        }
    }
    (items, cur, stopped.unwrap())
}

/// The items of a list that the rule `named_args_at` gives, from index `from` on, as
/// tokens, with commas between them.
pub open spec fn named_args_tokens(items: Seq<NamedArgView>, from: nat) -> Seq<TokenView>
    decreases items, items.len() - from,
{
    if from >= items.len() {
        Seq::empty()
    } else if from + 1 == items.len() {
        named_arg_tokens(items[from as int])
    } else {
        named_arg_tokens(items[from as int]) + plain(TokenKind::Comma) + named_args_tokens(
            items,
            from + 1,
        )
    }
}

/// The tokens that the list rule `named_args_at` read are the tokens that the
/// items it added print as, unless it read a token that they do not show.
/// The list keeps the items it started from.
pub proof fn lemma_named_args_spelled(ts: Seq<Token>, pos: int, acc: Seq<NamedArgView>)
    requires
        0 <= pos <= ts.len(),
    ensures
        named_args_at(ts, pos, acc).items.len() >= acc.len(),
        named_args_at(
            ts,
            pos,
            acc,
        ).items.len() == acc.len() ==> named_args_at(ts, pos, acc).taken == 0,
        forall|i: int| 0 <= i < acc.len() ==> named_args_at(ts, pos, acc).items[i] == acc[i],
        spelled(
            ts,
            pos,
            named_args_at(ts, pos, acc).taken,
            named_args_tokens(named_args_at(ts, pos, acc).items, acc.len()),
        ),
    decreases ts.len() - pos, 8int,
{
    reveal(named_args_at);
    reveal(named_arg_at);
    match named_arg_at(ts, pos) {
        Err(_) => {
            lemma_spelled_nothing(ts, pos, 0);
        },
        Ok((item, n)) => {
            let pushed = acc.push(item);
            assert forall|i: int| 0 <= i < acc.len() implies pushed[i] == acc[i] by {}
            lemma_named_arg_spelled(ts, pos);
            if kind_at(ts, pos + n) == TokenKind::Comma {
                let rest = named_args_at(ts, pos + n + 1, pushed);
                lemma_named_args_spelled(ts, pos + n + 1, pushed);
                assert(pushed[acc.len() as int] == item);
                assert(rest.items[acc.len() as int] == pushed[acc.len() as int]);
                if rest.items.len() == pushed.len() {
                    lemma_spelled_more(ts, pos, n, named_arg_tokens(item), 1);
                } else {
                    lemma_spelled_token(ts, pos + n, TokenKind::Comma);
                    lemma_spelled_then(
                        ts,
                        pos,
                        n,
                        named_arg_tokens(item),
                        1,
                        plain(TokenKind::Comma),
                    );
                    lemma_spelled_then(
                        ts,
                        pos,
                        n + 1,
                        named_arg_tokens(item) + plain(TokenKind::Comma),
                        rest.taken,
                        named_args_tokens(rest.items, pushed.len()),
                    );
                }
            } else {
                assert(pushed[acc.len() as int] == item);
            }
        },
    }
}

/// Expressions separated by commas, where a comma may follow the last.
#[verifier::opaque]
pub open spec fn expressions_at(
    ts: Seq<Token>,
    pos: int,
    acc: Seq<ExpressionView>,
) -> Listed<ExpressionView>
    decreases ts.len() - pos, 8int,
{
    match expression_at(ts, pos) {
        Err(f) => Listed { items: acc, taken: 0, stopped: f },
        Ok((item, n)) => if kind_at(ts, pos + n) == TokenKind::Comma {
            expressions_at(ts, pos + n + 1, acc.push(item)).advance(n + 1)
        } else {
            Listed {
                items: acc.push(item),
                taken: n,
                stopped: ParseFailure { at: pos + n, expected: seq![TokenKind::Comma] },
            }
        },
    }
}

/// Parses the items of a list from a position by the rule `expressions_at`: the
/// items, the position after them, and the failure that ended the list.
pub fn parse_expressions(ts: &[Token], pos: usize) -> (r: (Vec<Expression>, usize, ParseError))
    requires
        pos <= ts.len(),
    ensures
        listed(r, pos, ts.len(), expressions_at(ts@, pos as int, Seq::empty())),
    decreases ts.len() - pos, 8int,
{
    let mut items: Vec<Expression> = Vec::new();
    let mut cur: usize = pos;
    let mut stopped: Option<ParseError> = None;
    assert(items.deep_view() =~= Seq::empty());
    while stopped.is_none()
        invariant
            pos <= cur <= ts.len(),
            stopped is None ==> expressions_at(ts@, pos as int, Seq::empty()) == expressions_at(
                ts@,
                cur as int,
                items.deep_view(),
            ).advance((cur - pos) as nat),
            stopped is Some ==> expressions_at(ts@, pos as int, Seq::empty()) == (Listed {
                items: items.deep_view(),
                taken: (cur - pos) as nat,
                stopped: stopped->0@,
            }),
        decreases ts.len() - cur + (if stopped is None { 1int } else { 0int }),
    {
        proof {
            reveal(expressions_at);
            reveal(expression_at);
        }
        match parse_expression(ts, cur) {
            Err(e) => {
                stopped = Some(e);
            },
            Ok((item, p)) => {
                let ghost before = items.deep_view();
                let ghost added = item.deep_view();
                items.push(item);
                assert(items.deep_view() =~= before.push(added));
                if peek(ts, p) == TokenKind::Comma {
                    cur = p + 1;
                } else {
                    cur = p;
                    stopped = Some(missing(p, TokenKind::Comma));
                }
            },
        }
    }
    (items, cur, stopped.unwrap())
}

/// The items of a list that the rule `expressions_at` gives, from index `from` on, as
/// tokens, with commas between them.
pub open spec fn expressions_tokens(items: Seq<ExpressionView>, from: nat) -> Seq<TokenView>
    decreases items, items.len() - from,
{
    if from >= items.len() {
        Seq::empty()
    } else if from + 1 == items.len() {
        expression_tokens(items[from as int])
    } else {
        expression_tokens(items[from as int]) + plain(TokenKind::Comma) + expressions_tokens(
            items,
            from + 1,
        )
    }
}

/// The tokens that the list rule `expressions_at` read are the tokens that the
/// items it added print as, unless it read a token that they do not show.
/// The list keeps the items it started from.
pub proof fn lemma_expressions_spelled(ts: Seq<Token>, pos: int, acc: Seq<ExpressionView>)
    requires
        0 <= pos <= ts.len(),
    ensures
        expressions_at(ts, pos, acc).items.len() >= acc.len(),
        expressions_at(
            ts,
            pos,
            acc,
        ).items.len() == acc.len() ==> expressions_at(ts, pos, acc).taken == 0,
        forall|i: int| 0 <= i < acc.len() ==> expressions_at(ts, pos, acc).items[i] == acc[i],
        spelled(
            ts,
            pos,
            expressions_at(ts, pos, acc).taken,
            expressions_tokens(expressions_at(ts, pos, acc).items, acc.len()),
        ),
    decreases ts.len() - pos, 8int,
{
    reveal(expressions_at);
    reveal(expression_at);
    match expression_at(ts, pos) {
        Err(_) => {
            lemma_spelled_nothing(ts, pos, 0);
        },
        Ok((item, n)) => {
            let pushed = acc.push(item);
            assert forall|i: int| 0 <= i < acc.len() implies pushed[i] == acc[i] by {}
            lemma_expression_spelled(ts, pos);
            if kind_at(ts, pos + n) == TokenKind::Comma {
                let rest = expressions_at(ts, pos + n + 1, pushed);
                lemma_expressions_spelled(ts, pos + n + 1, pushed);
                assert(pushed[acc.len() as int] == item);
                assert(rest.items[acc.len() as int] == pushed[acc.len() as int]);
                if rest.items.len() == pushed.len() {
                    lemma_spelled_more(ts, pos, n, expression_tokens(item), 1);
                } else {
                    lemma_spelled_token(ts, pos + n, TokenKind::Comma);
                    lemma_spelled_then(
                        ts,
                        pos,
                        n,
                        expression_tokens(item),
                        1,
                        plain(TokenKind::Comma),
                    );
                    lemma_spelled_then(
                        ts,
                        pos,
                        n + 1,
                        expression_tokens(item) + plain(TokenKind::Comma),
                        rest.taken,
                        expressions_tokens(rest.items, pushed.len()),
                    );
                }
            } else {
                assert(pushed[acc.len() as int] == item);
            }
        },
    }
}

/// The rule of the intrinsic: `@embed(T, "code")` or
/// `@embed(T, "code", e, ...)`.
#[verifier::opaque]
pub open spec fn intrin_at(ts: Seq<Token>, pos: int) -> Parsed<IntrinExprView>
    decreases ts.len() - pos, 1int,
{
    if kind_at(ts, pos) != TokenKind::Embed {
        fail(pos, seq![TokenKind::Embed])
    } else if kind_at(ts, pos + 1) != TokenKind::LParen {
        fail(pos + 1, seq![TokenKind::LParen])
    } else {
        match type_spec_at(ts, pos + 2) {
            Err(f) => Err(f),
            Ok((ty, n)) => if kind_at(ts, pos + n + 2) != TokenKind::Comma {
                fail(pos + n + 2, seq![TokenKind::Comma])
            } else {
                match token_at(ts, pos + n + 3) {
                    Some(Token::String(code)) => if kind_at(ts, pos + n + 4) == TokenKind::Comma {
                        let list = expressions_at(ts, pos + n + 5, Seq::empty());
                        match closing(
                            ts,
                            pos + n + 5 + list.taken,
                            TokenKind::RParen,
                            list.stopped,
                        ) {
                            Some(f) => Err(f),
                            None => Ok(
                                (
                                    IntrinExprView::Embed { ty, exp: code@, args: list.items },
                                    n + list.taken + 6,
                                ),
                            ),
                        }
                    } else if kind_at(ts, pos + n + 4) == TokenKind::RParen {
                        Ok((IntrinExprView::Embed { ty, exp: code@, args: Seq::empty() }, n + 5))
                    } else {
                        fail(pos + n + 4, embed_follow())
                    },
                    _ => fail(pos + n + 3, seq![TokenKind::String]),
                }
            },
        }
    }
}

/// Reads the rest of a comparison whose first operand is `lhs`, read from `pos` to `p`.
fn comparison_tail(ts: &[Token], pos: usize, lhs: AtomicExpr, p: usize) -> (r: Result<
    (CmpExpr, usize),
    ParseError,
>)
    requires
        pos < p <= ts.len(),
        kind_at(ts@, pos as int) != TokenKind::Not,
        kind_at(ts@, pos as int) != TokenKind::Sub,
        atomic_at(ts@, pos as int) matches Ok(found) && found.0 == lhs.deep_view() && found.1 == p
            - pos,
    ensures
        parsed(r, pos, ts.len(), comparison_at(ts@, pos as int)),
        r is Ok ==> r->Ok_0.1 > pos,
    decreases ts.len() - p, 9int,
{
    proof {
        reveal(comparison_at);
        reveal(atomic_at);
    }
    let k = peek(ts, p);
    match k {
        TokenKind::NotEq | TokenKind::Lt | TokenKind::LtEq | TokenKind::Gt | TokenKind::GtEq | TokenKind::Eq => {
            let (rhs, q) = parse_atomic(ts, p + 1)?;
            let node = match k {
                TokenKind::NotEq => CmpExpr::NotEq(lhs, rhs),
                TokenKind::Lt => CmpExpr::Lt(lhs, rhs),
                TokenKind::LtEq => CmpExpr::LtEq(lhs, rhs),
                TokenKind::Gt => CmpExpr::Gt(lhs, rhs),
                TokenKind::GtEq => CmpExpr::GtEq(lhs, rhs),
                _ => CmpExpr::Eq(lhs, rhs),
            };
            Ok((node, q))
        },
        _ => Err(unexpected(p, comparison_operators_list())),
    }
}

/// Reads the rest of a conjunction or disjunction whose first operand is `lhs`, read from `pos` to `p`.
fn logic_tail(ts: &[Token], pos: usize, lhs: AtomicExpr, p: usize) -> (r: Result<
    (LogicExpr, usize),
    ParseError,
>)
    requires
        pos < p <= ts.len(),
        kind_at(ts@, pos as int) != TokenKind::Not,
        kind_at(ts@, pos as int) != TokenKind::Sub,
        atomic_at(ts@, pos as int) matches Ok(found) && found.0 == lhs.deep_view() && found.1 == p
            - pos,
    ensures
        parsed(r, pos, ts.len(), logic_at(ts@, pos as int)),
        r is Ok ==> r->Ok_0.1 > pos,
    decreases ts.len() - p, 9int,
{
    proof {
        reveal(logic_at);
        reveal(atomic_at);
    }
    let k = peek(ts, p);
    match k {
        TokenKind::And | TokenKind::Or => {
            let (rhs, q) = parse_atomic(ts, p + 1)?;
            let node = match k {
                TokenKind::And => LogicExpr::And(lhs, rhs),
                _ => LogicExpr::Or(lhs, rhs),
            };
            Ok((node, q))
        },
        _ => Err(unexpected(p, logic_operators_list())),
    }
}

/// Reads the rest of a binary arithmetic expression whose first operand is `lhs`, read from `pos` to `p`.
fn arith_tail(ts: &[Token], pos: usize, lhs: AtomicExpr, p: usize) -> (r: Result<
    (ArithExpr, usize),
    ParseError,
>)
    requires
        pos < p <= ts.len(),
        kind_at(ts@, pos as int) != TokenKind::Not,
        kind_at(ts@, pos as int) != TokenKind::Sub,
        atomic_at(ts@, pos as int) matches Ok(found) && found.0 == lhs.deep_view() && found.1 == p
            - pos,
    ensures
        parsed(r, pos, ts.len(), arith_at(ts@, pos as int)),
        r is Ok ==> r->Ok_0.1 > pos,
    decreases ts.len() - p, 9int,
{
    proof {
        reveal(arith_at);
        reveal(atomic_at);
    }
    let k = peek(ts, p);
    match k {
        TokenKind::Sub | TokenKind::Mul | TokenKind::Div | TokenKind::Add => {
            let (rhs, q) = parse_atomic(ts, p + 1)?;
            let node = match k {
                TokenKind::Sub => ArithExpr::Sub(lhs, rhs),
                TokenKind::Mul => ArithExpr::Mul(lhs, rhs),
                TokenKind::Div => ArithExpr::Div(lhs, rhs),
                _ => ArithExpr::Add(lhs, rhs),
            };
            Ok((node, q))
        },
        _ => Err(unexpected(p, arith_operators_list())),
    }
}

/// Reads the rest of a cast whose operand is `value`, read from `pos` to `p`.
fn cast_tail(ts: &[Token], pos: usize, value: AtomicExpr, p: usize) -> (r: Result<
    (CastExpr, usize),
    ParseError,
>)
    requires
        pos < p <= ts.len(),
        atomic_at(ts@, pos as int) matches Ok(found) && found.0 == value.deep_view() && found.1 == p
            - pos,
    ensures
        parsed(r, pos, ts.len(), cast_at(ts@, pos as int)),
        r is Ok ==> r->Ok_0.1 > pos,
{
    proof {
        reveal(cast_at);
        reveal(atomic_at);
    }
    let p1 = expect(ts, p, TokenKind::Colon)?;
    let (ty, q) = parse_type_spec(ts, p1)?;
    Ok((CastExpr { value, ty }, q))
}

/// Reads the rest of a compound expression whose first operand is `lhs`,
/// read from `pos` to `p`.
fn compound_tail(ts: &[Token], pos: usize, lhs: AtomicExpr, p: usize) -> (r: Result<
    (CompoundExpr, usize),
    ParseError,
>)
    requires
        pos < p <= ts.len(),
        kind_at(ts@, pos as int) != TokenKind::Not,
        kind_at(ts@, pos as int) != TokenKind::Sub,
        kind_at(ts@, pos as int) != TokenKind::If,
        atomic_at(ts@, pos as int) matches Ok(found) && found.0 == lhs.deep_view() && found.1 == p
            - pos,
    ensures
        parsed(r, pos, ts.len(), compound_at(ts@, pos as int)),
        r is Ok ==> r->Ok_0.1 > pos,
    decreases ts.len() - p, 10int,
{
    proof {
        reveal(compound_at);
        reveal(logic_at);
        reveal(arith_at);
        reveal(select_at);
        reveal(atomic_at);
        reveal(comparison_at);
        reveal(cast_at);
    }
    match peek(ts, p) {
        TokenKind::Eq | TokenKind::NotEq | TokenKind::Lt | TokenKind::LtEq | TokenKind::Gt | TokenKind::GtEq => {
            let (e, q) = comparison_tail(ts, pos, lhs, p)?;
            Ok((CompoundExpr::Cmp(e), q))
        },
        TokenKind::And | TokenKind::Or => {
            let (e, q) = logic_tail(ts, pos, lhs, p)?;
            Ok((CompoundExpr::Logic(e), q))
        },
        TokenKind::Add | TokenKind::Sub | TokenKind::Mul | TokenKind::Div => {
            let (e, q) = arith_tail(ts, pos, lhs, p)?;
            Ok((CompoundExpr::Arith(e), q))
        },
        TokenKind::Colon => {
            let (e, q) = cast_tail(ts, pos, lhs, p)?;
            Ok((CompoundExpr::Cast(e), q))
        },
        _ => Err(unexpected(p, compound_operators_list())),
    }
}

/// Parses by the rule `expression_at` at a position: the value and the position
/// after it, or the failure.
pub fn parse_expression(ts: &[Token], pos: usize) -> (r: Result<(Expression, usize), ParseError>)
    requires
        pos <= ts.len(),
    ensures
        parsed(r, pos, ts.len(), expression_at(ts@, pos as int)),
        r is Ok ==> r->Ok_0.1 > pos,
    decreases ts.len() - pos, 6int,
{
    proof {
        reveal(expression_at);
        reveal(compound_at);
        reveal(atomic_at);
    }
    match peek(ts, pos) {
        TokenKind::Not | TokenKind::Sub | TokenKind::If => {
            let (c, p) = parse_compound(ts, pos)?;
            Ok((Expression::Compound(c), p))
        },
        _ => {
            let (a, p) = parse_atomic(ts, pos)?;
            match peek(ts, p) {
                TokenKind::Eq | TokenKind::NotEq | TokenKind::Lt | TokenKind::LtEq | TokenKind::Gt | TokenKind::GtEq | TokenKind::And | TokenKind::Or | TokenKind::Add | TokenKind::Sub | TokenKind::Mul | TokenKind::Div | TokenKind::Colon => {
                    let (c, q) = compound_tail(ts, pos, a, p)?;
                    Ok((Expression::Compound(c), q))
                },
                _ => Ok((Expression::Atomic(a), p)),
            }
        },
    }
}

/// Parses by the rule `compound_at` at a position: the value and the position
/// after it, or the failure.
pub fn parse_compound(ts: &[Token], pos: usize) -> (r: Result<(CompoundExpr, usize), ParseError>)
    requires
        pos <= ts.len(),
    ensures
        parsed(r, pos, ts.len(), compound_at(ts@, pos as int)),
        r is Ok ==> r->Ok_0.1 > pos,
    decreases ts.len() - pos, 5int,
{
    proof {
        reveal(compound_at);
        reveal(logic_at);
        reveal(arith_at);
        reveal(select_at);
        reveal(atomic_at);
        reveal(comparison_at);
        reveal(cast_at);
    }
    match peek(ts, pos) {
        TokenKind::Not => {
            let (e, p) = parse_logic(ts, pos)?;
            Ok((CompoundExpr::Logic(e), p))
        },
        TokenKind::Sub => {
            let (e, p) = parse_arith(ts, pos)?;
            Ok((CompoundExpr::Arith(e), p))
        },
        TokenKind::If => {
            let (e, p) = parse_select(ts, pos)?;
            Ok((CompoundExpr::Select(e), p))
        },
        _ => {
            let (a, p) = parse_atomic(ts, pos)?;
            compound_tail(ts, pos, a, p)
        },
    }
}

/// Parses by the rule `comparison_at` at a position: the value and the position
/// after it, or the failure.
pub fn parse_comparison(ts: &[Token], pos: usize) -> (r: Result<(CmpExpr, usize), ParseError>)
    requires
        pos <= ts.len(),
    ensures
        parsed(r, pos, ts.len(), comparison_at(ts@, pos as int)),
        r is Ok ==> r->Ok_0.1 > pos,
    decreases ts.len() - pos, 4int,
{
    proof {
        reveal(comparison_at);
        reveal(atomic_at);
    }
    let (lhs, p) = parse_atomic(ts, pos)?;
    let k = peek(ts, p);
    match k {
        TokenKind::Eq | TokenKind::NotEq | TokenKind::Lt | TokenKind::LtEq | TokenKind::Gt | TokenKind::GtEq => {
            let (rhs, q) = parse_atomic(ts, p + 1)?;
            let node = match k {
                TokenKind::NotEq => CmpExpr::NotEq(lhs, rhs),
                TokenKind::Lt => CmpExpr::Lt(lhs, rhs),
                TokenKind::LtEq => CmpExpr::LtEq(lhs, rhs),
                TokenKind::Gt => CmpExpr::Gt(lhs, rhs),
                TokenKind::GtEq => CmpExpr::GtEq(lhs, rhs),
                _ => CmpExpr::Eq(lhs, rhs),
            };
            Ok((node, q))
        },
        _ => Err(unexpected(p, comparison_operators_list())),
    }
}

/// Parses by the rule `logic_at` at a position: the value and the position
/// after it, or the failure.
pub fn parse_logic(ts: &[Token], pos: usize) -> (r: Result<(LogicExpr, usize), ParseError>)
    requires
        pos <= ts.len(),
    ensures
        parsed(r, pos, ts.len(), logic_at(ts@, pos as int)),
        r is Ok ==> r->Ok_0.1 > pos,
    decreases ts.len() - pos, 4int,
{
    proof {
        reveal(logic_at);
        reveal(atomic_at);
    }
    if peek(ts, pos) == TokenKind::Not {
        let (e, p) = parse_atomic(ts, pos + 1)?;
        return Ok((LogicExpr::Not(e), p));
    }
    let (lhs, p) = parse_atomic(ts, pos)?;
    let k = peek(ts, p);
    match k {
        TokenKind::And | TokenKind::Or => {
            let (rhs, q) = parse_atomic(ts, p + 1)?;
            let node = match k {
                TokenKind::And => LogicExpr::And(lhs, rhs),
                _ => LogicExpr::Or(lhs, rhs),
            };
            Ok((node, q))
        },
        _ => Err(unexpected(p, logic_operators_list())),
    }
}

/// Parses by the rule `arith_at` at a position: the value and the position
/// after it, or the failure.
pub fn parse_arith(ts: &[Token], pos: usize) -> (r: Result<(ArithExpr, usize), ParseError>)
    requires
        pos <= ts.len(),
    ensures
        parsed(r, pos, ts.len(), arith_at(ts@, pos as int)),
        r is Ok ==> r->Ok_0.1 > pos,
    decreases ts.len() - pos, 4int,
{
    proof {
        reveal(arith_at);
        reveal(atomic_at);
    }
    if peek(ts, pos) == TokenKind::Sub {
        let (e, p) = parse_atomic(ts, pos + 1)?;
        return Ok((ArithExpr::Neg(e), p));
    }
    let (lhs, p) = parse_atomic(ts, pos)?;
    let k = peek(ts, p);
    match k {
        TokenKind::Add | TokenKind::Sub | TokenKind::Mul | TokenKind::Div => {
            let (rhs, q) = parse_atomic(ts, p + 1)?;
            let node = match k {
                TokenKind::Sub => ArithExpr::Sub(lhs, rhs),
                TokenKind::Mul => ArithExpr::Mul(lhs, rhs),
                TokenKind::Div => ArithExpr::Div(lhs, rhs),
                _ => ArithExpr::Add(lhs, rhs),
            };
            Ok((node, q))
        },
        _ => Err(unexpected(p, arith_operators_list())),
    }
}

/// Parses by the rule `select_at` at a position: the value and the position
/// after it, or the failure.
pub fn parse_select(ts: &[Token], pos: usize) -> (r: Result<(SelectExpr, usize), ParseError>)
    requires
        pos <= ts.len(),
    ensures
        parsed(r, pos, ts.len(), select_at(ts@, pos as int)),
        r is Ok ==> r->Ok_0.1 > pos,
    decreases ts.len() - pos, 4int,
{
    proof {
        reveal(select_at);
        reveal(expression_at);
    }
    let p0 = expect(ts, pos, TokenKind::If)?;
    let (c, p1) = parse_expression(ts, p0)?;
    let p2 = expect(ts, p1, TokenKind::Then)?;
    let (a, p3) = parse_expression(ts, p2)?;
    let p4 = expect(ts, p3, TokenKind::Else)?;
    let (b, p5) = parse_expression(ts, p4)?;
    Ok(
        (
            SelectExpr {
                condition: Box::new(c),
                value_true: Box::new(a),
                value_false: Box::new(b),
            },
            p5,
        ),
    )
}

/// Parses by the rule `cast_at` at a position: the value and the position after
/// it, or the failure.
pub fn parse_cast(ts: &[Token], pos: usize) -> (r: Result<(CastExpr, usize), ParseError>)
    requires
        pos <= ts.len(),
    ensures
        parsed(r, pos, ts.len(), cast_at(ts@, pos as int)),
        r is Ok ==> r->Ok_0.1 > pos,
    decreases ts.len() - pos, 4int,
{
    proof {
        reveal(cast_at);
        reveal(atomic_at);
    }
    let (value, p) = parse_atomic(ts, pos)?;
    cast_tail(ts, pos, value, p)
}

/// Parses by the rule `atomic_at` at a position: the value and the position
/// after it, or the failure.
pub fn parse_atomic(ts: &[Token], pos: usize) -> (r: Result<(AtomicExpr, usize), ParseError>)
    requires
        pos <= ts.len(),
    ensures
        parsed(r, pos, ts.len(), atomic_at(ts@, pos as int)),
        r is Ok ==> r->Ok_0.1 > pos,
    decreases ts.len() - pos, 3int,
{
    proof {
        reveal(atomic_at);
        reveal(literal_at);
        reveal(fn_call_at);
        reveal(path_at);
        reveal(ref_path_at);
        reveal(paren_at);
        reveal(intrin_at);
        reveal(size_of_at);
        reveal(borrow_at);
    }
    match peek(ts, pos) {
        TokenKind::Nil | TokenKind::True | TokenKind::False | TokenKind::Char | TokenKind::Decimal | TokenKind::Float | TokenKind::String => parse_literal(
            ts,
            pos,
        ),
        TokenKind::Ident => {
            if peek(ts, pos + 1) == TokenKind::LParen {
                let (call, p) = parse_fn_call(ts, pos)?;
                Ok((AtomicExpr::FnCall(call), p))
            } else {
                let (path, p) = parse_path(ts, pos)?;
                Ok((AtomicExpr::Path(path), p))
            }
        },
        TokenKind::RefTransform => parse_ref_path(ts, pos),
        TokenKind::LParen => parse_paren(ts, pos),
        TokenKind::Embed => {
            let (e, p) = parse_intrin(ts, pos)?;
            Ok((AtomicExpr::Intrinsic(e), p))
        },
        TokenKind::SizeOf => parse_size_of(ts, pos),
        TokenKind::BorrowRead | TokenKind::BorrowWrite | TokenKind::ReBorrow => parse_borrow(ts, pos),
        TokenKind::Deref => {
            let (e, p) = parse_atomic(ts, pos + 1)?;
            Ok((AtomicExpr::Deref(Box::new(e)), p))
        },
        _ => Err(unexpected(pos, atomic_starts_list())),
    }
}

/// Parses by the rule `literal_at` at a position: the value and the position
/// after it, or the failure.
pub fn parse_literal(ts: &[Token], pos: usize) -> (r: Result<(AtomicExpr, usize), ParseError>)
    requires
        pos <= ts.len(),
    ensures
        parsed(r, pos, ts.len(), literal_at(ts@, pos as int)),
        r is Ok ==> r->Ok_0.1 > pos,
{
    proof {
        reveal(literal_at);
    }
    if pos >= ts.len() {
        return Err(unexpected(pos, literal_kinds_list()));
    }
    match &ts[pos] {
        Token::Nil => Ok((AtomicExpr::ConstNil, pos + 1)),
        Token::True => Ok((AtomicExpr::ConstBool(true), pos + 1)),
        Token::False => Ok((AtomicExpr::ConstBool(false), pos + 1)),
        Token::Char(c) => Ok((AtomicExpr::ConstChar(*c), pos + 1)),
        Token::Decimal(n) => Ok((AtomicExpr::ConstInt(*n), pos + 1)),
        Token::Float(s) => Ok((AtomicExpr::ConstFloat(s.clone()), pos + 1)),
        Token::String(s) => Ok((AtomicExpr::ConstStr(s.clone()), pos + 1)),
        _ => Err(unexpected(pos, literal_kinds_list())),
    }
}

/// Parses by the rule `ref_path_at` at a position: the value and the position
/// after it, or the failure.
pub fn parse_ref_path(ts: &[Token], pos: usize) -> (r: Result<(AtomicExpr, usize), ParseError>)
    requires
        pos <= ts.len(),
    ensures
        parsed(r, pos, ts.len(), ref_path_at(ts@, pos as int)),
        r is Ok ==> r->Ok_0.1 > pos,
    decreases ts.len() - pos, 2int,
{
    proof {
        reveal(ref_path_at);
        reveal(path_at);
    }
    let p0 = expect(ts, pos, TokenKind::RefTransform)?;
    let (path, p) = parse_path(ts, p0)?;
    let q = expect(ts, p, TokenKind::RParen)?;
    Ok((AtomicExpr::RefPath(path), q))
}

/// Parses by the rule `paren_at` at a position: the value and the position
/// after it, or the failure.
pub fn parse_paren(ts: &[Token], pos: usize) -> (r: Result<(AtomicExpr, usize), ParseError>)
    requires
        pos <= ts.len(),
    ensures
        parsed(r, pos, ts.len(), paren_at(ts@, pos as int)),
        r is Ok ==> r->Ok_0.1 > pos,
    decreases ts.len() - pos, 2int,
{
    proof {
        reveal(paren_at);
        reveal(expression_at);
    }
    let p0 = expect(ts, pos, TokenKind::LParen)?;
    let (e, p) = parse_expression(ts, p0)?;
    let q = expect(ts, p, TokenKind::RParen)?;
    Ok((AtomicExpr::Paren(Box::new(e)), q))
}

/// Parses by the rule `size_of_at` at a position: the value and the position
/// after it, or the failure.
pub fn parse_size_of(ts: &[Token], pos: usize) -> (r: Result<(AtomicExpr, usize), ParseError>)
    requires
        pos <= ts.len(),
    ensures
        parsed(r, pos, ts.len(), size_of_at(ts@, pos as int)),
        r is Ok ==> r->Ok_0.1 > pos,
{
    proof {
        reveal(size_of_at);
    }
    let p0 = expect(ts, pos, TokenKind::SizeOf)?;
    let p1 = expect(ts, p0, TokenKind::LParen)?;
    let (ty, p) = parse_type_spec(ts, p1)?;
    let q = expect(ts, p, TokenKind::RParen)?;
    Ok((AtomicExpr::SizeOf(ty), q))
}

/// Parses by the rule `borrow_at` at a position: the value and the position
/// after it, or the failure.
pub fn parse_borrow(ts: &[Token], pos: usize) -> (r: Result<(AtomicExpr, usize), ParseError>)
    requires
        pos <= ts.len(),
    ensures
        parsed(r, pos, ts.len(), borrow_at(ts@, pos as int)),
        r is Ok ==> r->Ok_0.1 > pos,
{
    proof {
        reveal(borrow_at);
    }
    if pos >= ts.len() {
        return Err(unexpected(pos, borrow_operators_list()));
    }
    let k = peek(ts, pos);
    match k {
        TokenKind::BorrowRead | TokenKind::BorrowWrite | TokenKind::ReBorrow => {
            let (name, p) = parse_ident(ts, pos + 1)?;
            let node = match k {
                TokenKind::BorrowRead => AtomicExpr::BorrowRead(name),
                TokenKind::BorrowWrite => AtomicExpr::BorrowWrite(name),
                _ => AtomicExpr::ReBorrow(name),
            };
            Ok((node, p))
        },
        _ => Err(unexpected(pos, borrow_operators_list())),
    }
}

/// Parses by the rule `path_at` at a position: the value and the position after
/// it, or the failure.
pub fn parse_path(ts: &[Token], pos: usize) -> (r: Result<(PathExpr, usize), ParseError>)
    requires
        pos <= ts.len(),
    ensures
        parsed(r, pos, ts.len(), path_at(ts@, pos as int)),
        r is Ok ==> r->Ok_0.1 > pos,
    decreases ts.len() - pos, 1int,
{
    proof {
        reveal(path_at);
        reveal(path_segments_at);
    }
    if pos < ts.len() {
        if let Token::Ident(first) = &ts[pos] {
            let (extra, p, _) = parse_path_segments(ts, pos + 1);
            let ghost segments = extra.deep_view();
            let node = PathExpr { first: Ident { name: first.clone() }, extra };
            assert(node.deep_view().extra =~= segments);
            return Ok((node, p));
        }
    }
    Err(missing(pos, TokenKind::Ident))
}

/// Parses by the rule `path_segment_at` at a position: the value and the
/// position after it, or the failure.
pub fn parse_path_segment(ts: &[Token], pos: usize) -> (r: Result<(PathSegment, usize), ParseError>)
    requires
        pos <= ts.len(),
    ensures
        parsed(r, pos, ts.len(), path_segment_at(ts@, pos as int)),
        r is Ok ==> r->Ok_0.1 > pos,
    decreases ts.len() - pos, 0int,
{
    proof {
        reveal(path_segment_at);
        reveal(expression_at);
    }
    match peek(ts, pos) {
        TokenKind::Period => {
            let (name, p) = parse_ident(ts, pos + 1)?;
            Ok((PathSegment::SlotAccess(name), p))
        },
        TokenKind::HypenRight => {
            let (name, p) = parse_ident(ts, pos + 1)?;
            Ok((PathSegment::PtrSlotAccess(name), p))
        },
        TokenKind::LBracket => {
            let (e, p) = parse_expression(ts, pos + 1)?;
            let q = expect(ts, p, TokenKind::RBracket)?;
            Ok((PathSegment::ArrayIndex(Box::new(e)), q))
        },
        _ => Err(unexpected(pos, segment_starts_list())),
    }
}

/// Parses by the rule `fn_call_at` at a position: the value and the position
/// after it, or the failure.
pub fn parse_fn_call(ts: &[Token], pos: usize) -> (r: Result<(FnCallExpr, usize), ParseError>)
    requires
        pos <= ts.len(),
    ensures
        parsed(r, pos, ts.len(), fn_call_at(ts@, pos as int)),
        r is Ok ==> r->Ok_0.1 > pos,
    decreases ts.len() - pos, 1int,
{
    proof {
        reveal(fn_call_at);
        reveal(fn_call_args_at);
    }
    if pos < ts.len() {
        if let Token::Ident(target) = &ts[pos] {
            let p0 = expect(ts, pos + 1, TokenKind::LParen)?;
            let (args, p, stopped) = parse_fn_call_args(ts, p0);
            let q = close(ts, p, TokenKind::RParen, stopped)?;
            return Ok((FnCallExpr { target: Ident { name: target.clone() }, args }, q));
        }
    }
    Err(missing(pos, TokenKind::Ident))
}

/// Whether what a parser of arguments returned from `pos` is what the rule
/// of arguments gives there.
pub open spec fn argued(
    r: (FnCallArgs, usize, ParseError),
    pos: usize,
    len: usize,
    rule: Arguments,
) -> bool {
    &&& r.0.deep_view() == rule.args
    &&& r.1 == pos + rule.taken
    &&& r.1 <= len
    &&& r.2@ == rule.stopped
}

/// Parses the items of a list from a position by the rule `fn_call_args_at`:
/// the items, the position after them, and the failure that ended the list.
pub fn parse_fn_call_args(ts: &[Token], pos: usize) -> (r: (FnCallArgs, usize, ParseError))
    requires
        pos <= ts.len(),
    ensures
        argued(r, pos, ts.len(), fn_call_args_at(ts@, pos as int)),
        r.0.deep_view().wf(),
    decreases ts.len() - pos, 9int,
{
    proof {
        reveal(fn_call_args_at);
        reveal(named_args_at);
        reveal(expressions_at);
    }
    if peek(ts, pos) == TokenKind::Ident && peek(ts, pos + 1) == TokenKind::ArrowRight {
        let (pairs, p, stopped) = parse_named_args(ts, pos);
        if pairs.len() == 0 {
            (FnCallArgs::Empty, p, stopped)
        } else {
            let ghost named = pairs.deep_view();
            let node = FnCallArgs::Named(pairs);
            assert(node.deep_view()->Named_0 =~= named);
            (node, p, stopped)
        }
    } else {
        let (values, p, stopped) = parse_expressions(ts, pos);
        if values.len() == 0 {
            (FnCallArgs::Empty, p, stopped)
        } else {
            let ghost listed_values = values.deep_view();
            let node = FnCallArgs::Positional(values);
            assert(node.deep_view()->Positional_0 =~= listed_values);
            (node, p, stopped)
        }
    }
}

/// Parses by the rule `named_arg_at` at a position: the value and the position
/// after it, or the failure.
pub fn parse_named_arg(ts: &[Token], pos: usize) -> (r: Result<(NamedArg, usize), ParseError>)
    requires
        pos <= ts.len(),
    ensures
        parsed(r, pos, ts.len(), named_arg_at(ts@, pos as int)),
        r is Ok ==> r->Ok_0.1 > pos,
    decreases ts.len() - pos, 7int,
{
    proof {
        reveal(named_arg_at);
        reveal(expression_at);
    }
    if pos < ts.len() {
        if let Token::Ident(name) = &ts[pos] {
            let p0 = expect(ts, pos + 1, TokenKind::ArrowRight)?;
            let (value, p) = parse_expression(ts, p0)?;
            return Ok((NamedArg { name: Ident { name: name.clone() }, value }, p));
        }
    }
    Err(missing(pos, TokenKind::Ident))
}

/// Parses by the rule `intrin_at` at a position: the value and the position
/// after it, or the failure.
pub fn parse_intrin(ts: &[Token], pos: usize) -> (r: Result<(IntrinExpr, usize), ParseError>)
    requires
        pos <= ts.len(),
    ensures
        parsed(r, pos, ts.len(), intrin_at(ts@, pos as int)),
        r is Ok ==> r->Ok_0.1 > pos,
    decreases ts.len() - pos, 1int,
{
    proof {
        reveal(intrin_at);
        reveal(expressions_at);
    }
    let p0 = expect(ts, pos, TokenKind::Embed)?;
    let p1 = expect(ts, p0, TokenKind::LParen)?;
    let (ty, p2) = parse_type_spec(ts, p1)?;
    let p3 = expect(ts, p2, TokenKind::Comma)?;
    if p3 < ts.len() {
        if let Token::String(code) = &ts[p3] {
            match peek(ts, p3 + 1) {
                TokenKind::Comma => {
                    let (args, p4, stopped) = parse_expressions(ts, p3 + 2);
                    let q = close(ts, p4, TokenKind::RParen, stopped)?;
                    let ghost values = args.deep_view();
                    let node = IntrinExpr::Embed { ty, exp: code.clone(), args };
                    assert(node.deep_view()->Embed_args =~= values);
                    return Ok((node, q));
                },
                TokenKind::RParen => {
                    let node = IntrinExpr::Embed { ty, exp: code.clone(), args: Vec::new() };
                    assert(node.deep_view()->Embed_args =~= Seq::empty());
                    return Ok((node, p3 + 2));
                },
                _ => {
                    return Err(unexpected(p3 + 1, embed_follow_list()));
                },
            }
        }
    }
    Err(missing(p3, TokenKind::String))
}


/// Where an argument of a list stands and what follows it: the item is what
/// the argument's rule gives at `at`, and `next` is the kind of the token
/// after it.
pub open spec fn named_argument_stands(ts: Seq<Token>, item: NamedArgView, at: int) -> bool {
    named_arg_at(ts, at) matches Ok(found) && found.0 == item && (kind_at(ts, at + found.1)
        == TokenKind::Comma || kind_at(ts, at + found.1) == TokenKind::RParen)
}

/// The same for an argument given by position.
pub open spec fn positional_argument_stands(ts: Seq<Token>, item: ExpressionView, at: int) -> bool {
    expression_at(ts, at) matches Ok(found) && found.0 == item && (kind_at(ts, at + found.1)
        == TokenKind::Comma || kind_at(ts, at + found.1) == TokenKind::RParen)
}

/// Every item that a list of named arguments adds was read as a named
/// argument, and a comma follows it, or the token at which the list ends.
pub proof fn lemma_named_args_stand(ts: Seq<Token>, pos: int, acc: Seq<NamedArgView>, j: int)
    requires
        kind_at(ts, pos + named_args_at(ts, pos, acc).taken) == TokenKind::RParen,
        acc.len() <= j < named_args_at(ts, pos, acc).items.len(),
    ensures
        exists|at: int| named_argument_stands(ts, named_args_at(ts, pos, acc).items[j], at),
        named_args_at(ts, pos, acc).items.len() >= acc.len(),
    decreases ts.len() - pos,
{
    reveal(named_args_at);
    reveal(named_arg_at);
    match named_arg_at(ts, pos) {
        Err(_) => {},
        Ok((item, n)) => {
            let pushed = acc.push(item);
            if kind_at(ts, pos + n) == TokenKind::Comma {
                let rest = named_args_at(ts, pos + n + 1, pushed);
                assert(named_args_at(ts, pos, acc).items == rest.items);
                lemma_named_args_keep(ts, pos + n + 1, pushed);
                if j == acc.len() {
                    assert(rest.items[j] == pushed[j]);
                    assert(named_argument_stands(ts, item, pos));
                } else {
                    lemma_named_args_stand(ts, pos + n + 1, pushed, j);
                }
            } else {
                assert(named_args_at(ts, pos, acc).items == pushed);
                assert(pushed[j] == item);
                assert(named_argument_stands(ts, item, pos));
            }
        },
    }
}

/// A list of named arguments keeps the items it started from.
pub proof fn lemma_named_args_keep(ts: Seq<Token>, pos: int, acc: Seq<NamedArgView>)
    ensures
        named_args_at(ts, pos, acc).items.len() >= acc.len(),
        forall|i: int| 0 <= i < acc.len() ==> named_args_at(ts, pos, acc).items[i] == acc[i],
    decreases ts.len() - pos,
{
    reveal(named_args_at);
    reveal(named_arg_at);
    match named_arg_at(ts, pos) {
        Err(_) => {},
        Ok((item, n)) => {
            let pushed = acc.push(item);
            assert forall|i: int| 0 <= i < acc.len() implies pushed[i] == acc[i] by {}
            if kind_at(ts, pos + n) == TokenKind::Comma {
                lemma_named_args_keep(ts, pos + n + 1, pushed);
            }
        },
    }
}

/// Every item that a list of expressions adds was read as an expression,
/// and a comma follows it, or the token at which the list ends.
pub proof fn lemma_expressions_stand(ts: Seq<Token>, pos: int, acc: Seq<ExpressionView>, j: int)
    requires
        kind_at(ts, pos + expressions_at(ts, pos, acc).taken) == TokenKind::RParen,
        acc.len() <= j < expressions_at(ts, pos, acc).items.len(),
    ensures
        exists|at: int| positional_argument_stands(ts, expressions_at(ts, pos, acc).items[j], at),
    decreases ts.len() - pos,
{
    reveal(expressions_at);
    reveal(expression_at);
    match expression_at(ts, pos) {
        Err(_) => {},
        Ok((item, n)) => {
            let pushed = acc.push(item);
            if kind_at(ts, pos + n) == TokenKind::Comma {
                let rest = expressions_at(ts, pos + n + 1, pushed);
                assert(expressions_at(ts, pos, acc).items == rest.items);
                lemma_expressions_keep(ts, pos + n + 1, pushed);
                if j == acc.len() {
                    assert(rest.items[j] == pushed[j]);
                    assert(positional_argument_stands(ts, item, pos));
                } else {
                    lemma_expressions_stand(ts, pos + n + 1, pushed, j);
                }
            } else {
                assert(expressions_at(ts, pos, acc).items == pushed);
                assert(pushed[j] == item);
                assert(positional_argument_stands(ts, item, pos));
            }
        },
    }
}

/// A list of expressions keeps the items it started from.
pub proof fn lemma_expressions_keep(ts: Seq<Token>, pos: int, acc: Seq<ExpressionView>)
    ensures
        expressions_at(ts, pos, acc).items.len() >= acc.len(),
        forall|i: int| 0 <= i < acc.len() ==> expressions_at(ts, pos, acc).items[i] == acc[i],
    decreases ts.len() - pos,
{
    reveal(expressions_at);
    reveal(expression_at);
    match expression_at(ts, pos) {
        Err(_) => {},
        Ok((item, n)) => {
            let pushed = acc.push(item);
            assert forall|i: int| 0 <= i < acc.len() implies pushed[i] == acc[i] by {}
            if kind_at(ts, pos + n) == TokenKind::Comma {
                lemma_expressions_keep(ts, pos + n + 1, pushed);
            }
        },
    }
}

/// Arguments are never an empty list: where no argument stands, the
/// arguments are `Empty`, not a list without items.
pub proof fn law_no_empty_argument_list(ts: Seq<Token>, pos: int)
    ensures
        fn_call_args_at(ts, pos).args.wf(),
        fn_call_at(ts, pos) matches Ok(call) ==> call.0.args.wf(),
{
    reveal(fn_call_args_at);
    reveal(fn_call_at);
    law_no_empty_argument_list_after(ts, pos + 2);
}

proof fn law_no_empty_argument_list_after(ts: Seq<Token>, pos: int)
    ensures
        fn_call_args_at(ts, pos).args.wf(),
{
    reveal(fn_call_args_at);
    reveal(named_args_at);
    reveal(expressions_at);
}

/// Argument styles exclude each other. In a call that the grammar accepts,
/// the arguments are of one style: if they are named, every one of them was
/// read as `name => value`; if they are positional, every one of them was
/// read as an expression, and `=>` follows none of them.
pub proof fn law_argument_styles_exclusive(ts: Seq<Token>, pos: int, j: int)
    requires
        fn_call_at(ts, pos) is Ok,
    ensures
        fn_call_at(ts, pos)->Ok_0.0.args matches FnCallArgsView::Named(pairs) ==> (0 <= j
            < pairs.len() ==> exists|at: int| named_argument_stands(ts, pairs[j], at)),
        fn_call_at(ts, pos)->Ok_0.0.args matches FnCallArgsView::Positional(values) ==> (0 <= j
            < values.len() ==> exists|at: int| positional_argument_stands(ts, values[j], at)),
{
    reveal(fn_call_at);
    reveal(fn_call_args_at);
    reveal(named_args_at);
    reveal(expressions_at);
    let list = fn_call_args_at(ts, pos + 2);
    match list.args {
        FnCallArgsView::Named(pairs) => {
            if 0 <= j < pairs.len() {
                lemma_named_args_stand(ts, pos + 2, Seq::empty(), j);
            }
        },
        FnCallArgsView::Positional(values) => {
            if 0 <= j < values.len() {
                lemma_expressions_stand(ts, pos + 2, Seq::empty(), j);
            }
        },
        FnCallArgsView::Empty => {},
    }
}


/// An expression as tokens.
pub open spec fn expression_tokens(v: ExpressionView) -> Seq<TokenView>
    decreases v,
{
    match v {
        ExpressionView::Atomic(a) => atomic_tokens(a),
        ExpressionView::Compound(c) => compound_tokens(c),
    }
}

/// An atomic expression as tokens.
pub open spec fn atomic_tokens(v: AtomicExprView) -> Seq<TokenView>
    decreases v,
{
    match v {
        AtomicExprView::ConstNil => plain(TokenKind::Nil),
        AtomicExprView::ConstBool(b) => if b {
            plain(TokenKind::True)
        } else {
            plain(TokenKind::False)
        },
        AtomicExprView::ConstChar(c) => seq![TokenView::Char(c)],
        AtomicExprView::ConstInt(n) => seq![TokenView::Decimal(n)],
        AtomicExprView::ConstFloat(s) => seq![TokenView::Float(s)],
        AtomicExprView::ConstStr(s) => seq![TokenView::String(s)],
        AtomicExprView::FnCall(call) => fn_call_tokens(call),
        AtomicExprView::Path(path) => path_tokens(path),
        AtomicExprView::RefPath(path) => plain(TokenKind::RefTransform) + path_tokens(path) + plain(
            TokenKind::RParen,
        ),
        AtomicExprView::Paren(e) => plain(TokenKind::LParen) + expression_tokens(*e) + plain(
            TokenKind::RParen,
        ),
        AtomicExprView::Intrinsic(e) => intrin_tokens(e),
        AtomicExprView::SizeOf(ty) => plain(TokenKind::SizeOf) + plain(TokenKind::LParen)
            + type_spec_tokens(ty) + plain(TokenKind::RParen),
        AtomicExprView::BorrowRead(name) => plain(TokenKind::BorrowRead) + ident_tokens(name),
        AtomicExprView::BorrowWrite(name) => plain(TokenKind::BorrowWrite) + ident_tokens(name),
        AtomicExprView::ReBorrow(name) => plain(TokenKind::ReBorrow) + ident_tokens(name),
        AtomicExprView::Deref(a) => plain(TokenKind::Deref) + atomic_tokens(*a),
    }
}

/// A compound expression as tokens.
pub open spec fn compound_tokens(v: CompoundExprView) -> Seq<TokenView>
    decreases v,
{
    match v {
        CompoundExprView::Cmp(e) => comparison_tokens(e),
        CompoundExprView::Logic(e) => logic_tokens(e),
        CompoundExprView::Arith(e) => arith_tokens(e),
        CompoundExprView::Select(e) => select_tokens(e),
        CompoundExprView::Cast(e) => cast_tokens(e),
    }
}

/// A comparison as tokens.
pub open spec fn comparison_tokens(v: CmpExprView) -> Seq<TokenView>
    decreases v,
{
    match v {
        CmpExprView::Eq(a, b) => atomic_tokens(a) + plain(TokenKind::Eq) + atomic_tokens(b),
        CmpExprView::NotEq(a, b) => atomic_tokens(a) + plain(TokenKind::NotEq) + atomic_tokens(b),
        CmpExprView::Lt(a, b) => atomic_tokens(a) + plain(TokenKind::Lt) + atomic_tokens(b),
        CmpExprView::LtEq(a, b) => atomic_tokens(a) + plain(TokenKind::LtEq) + atomic_tokens(b),
        CmpExprView::Gt(a, b) => atomic_tokens(a) + plain(TokenKind::Gt) + atomic_tokens(b),
        CmpExprView::GtEq(a, b) => atomic_tokens(a) + plain(TokenKind::GtEq) + atomic_tokens(b),
    }
}

/// A logical expression as tokens.
pub open spec fn logic_tokens(v: LogicExprView) -> Seq<TokenView>
    decreases v,
{
    match v {
        LogicExprView::And(a, b) => atomic_tokens(a) + plain(TokenKind::And) + atomic_tokens(b),
        LogicExprView::Or(a, b) => atomic_tokens(a) + plain(TokenKind::Or) + atomic_tokens(b),
        LogicExprView::Not(a) => plain(TokenKind::Not) + atomic_tokens(a),
    }
}

/// An arithmetic expression as tokens.
pub open spec fn arith_tokens(v: ArithExprView) -> Seq<TokenView>
    decreases v,
{
    match v {
        ArithExprView::Add(a, b) => atomic_tokens(a) + plain(TokenKind::Add) + atomic_tokens(b),
        ArithExprView::Sub(a, b) => atomic_tokens(a) + plain(TokenKind::Sub) + atomic_tokens(b),
        ArithExprView::Mul(a, b) => atomic_tokens(a) + plain(TokenKind::Mul) + atomic_tokens(b),
        ArithExprView::Div(a, b) => atomic_tokens(a) + plain(TokenKind::Div) + atomic_tokens(b),
        ArithExprView::Neg(a) => plain(TokenKind::Sub) + atomic_tokens(a),
    }
}

/// A conditional expression as tokens.
pub open spec fn select_tokens(v: SelectExprView) -> Seq<TokenView>
    decreases v,
{
    plain(TokenKind::If) + expression_tokens(*v.condition) + plain(TokenKind::Then)
        + expression_tokens(*v.value_true) + plain(TokenKind::Else) + expression_tokens(
        *v.value_false,
    )
}

/// A cast as tokens.
pub open spec fn cast_tokens(v: CastExprView) -> Seq<TokenView>
    decreases v,
{
    atomic_tokens(v.value) + plain(TokenKind::Colon) + type_spec_tokens(v.ty)
}

/// A path as tokens.
pub open spec fn path_tokens(v: PathExprView) -> Seq<TokenView>
    decreases v,
{
    ident_tokens(v.first) + path_segments_tokens(v.extra, 0)
}

/// A path segment as tokens.
pub open spec fn path_segment_tokens(v: PathSegmentView) -> Seq<TokenView>
    decreases v,
{
    match v {
        PathSegmentView::SlotAccess(name) => plain(TokenKind::Period) + ident_tokens(name),
        PathSegmentView::PtrSlotAccess(name) => plain(TokenKind::HypenRight) + ident_tokens(name),
        PathSegmentView::ArrayIndex(e) => plain(TokenKind::LBracket)
            + expression_tokens(*e)
            + plain(
            TokenKind::RBracket,
        ),
    }
}

/// A call as tokens.
pub open spec fn fn_call_tokens(v: FnCallExprView) -> Seq<TokenView>
    decreases v,
{
    ident_tokens(v.target) + plain(TokenKind::LParen) + fn_call_args_tokens(v.args) + plain(
        TokenKind::RParen,
    )
}

/// Arguments as tokens, without the parentheses around them.
pub open spec fn fn_call_args_tokens(v: FnCallArgsView) -> Seq<TokenView>
    decreases v,
{
    match v {
        FnCallArgsView::Empty => Seq::empty(),
        FnCallArgsView::Positional(values) => expressions_tokens(values, 0),
        FnCallArgsView::Named(pairs) => named_args_tokens(pairs, 0),
    }
}

/// A named argument as tokens.
pub open spec fn named_arg_tokens(v: NamedArgView) -> Seq<TokenView>
    decreases v,
{
    ident_tokens(v.name) + plain(TokenKind::ArrowRight) + expression_tokens(v.value)
}

/// The intrinsic as tokens.
pub open spec fn intrin_tokens(v: IntrinExprView) -> Seq<TokenView>
    decreases v,
{
    match v {
        IntrinExprView::Embed { ty, exp, args } => if args.len() == 0 {
            plain(TokenKind::Embed) + plain(TokenKind::LParen) + type_spec_tokens(ty) + plain(
                TokenKind::Comma,
            ) + seq![TokenView::String(exp)] + plain(TokenKind::RParen)
        } else {
            plain(TokenKind::Embed) + plain(TokenKind::LParen) + type_spec_tokens(ty) + plain(
                TokenKind::Comma,
            ) + seq![TokenView::String(exp)] + plain(TokenKind::Comma) + expressions_tokens(args, 0)
                + plain(TokenKind::RParen)
        },
    }
}

/// Two operands with an operator between them agree with the tokens they
/// were read from if each does.
proof fn lemma_binary_spelled(
    ts: Seq<Token>,
    pos: int,
    n1: nat,
    lhs: Seq<TokenView>,
    kind: TokenKind,
    n2: nat,
    rhs: Seq<TokenView>,
)
    requires
        spelled(ts, pos, n1, lhs),
        kind_at(ts, pos + n1) == kind,
        kind != TokenKind::EndOfInput,
        !crate::ast::grammar::carries(kind),
        spelled(ts, pos + n1 + 1, n2, rhs),
    ensures
        spelled(ts, pos, n1 + n2 + 1, lhs + plain(kind) + rhs),
{
    lemma_spelled_token(ts, pos + n1, kind);
    lemma_spelled_then(ts, pos, n1, lhs, 1, plain(kind));
    lemma_spelled_then(ts, pos, n1 + 1, lhs + plain(kind), n2, rhs);
}

/// A token and what follows it agree with the tokens they were read from
/// if what follows does.
proof fn lemma_prefixed_spelled(
    ts: Seq<Token>,
    pos: int,
    kind: TokenKind,
    n: nat,
    rest: Seq<TokenView>,
)
    requires
        0 <= pos,
        kind_at(ts, pos) == kind,
        kind != TokenKind::EndOfInput,
        !crate::ast::grammar::carries(kind),
        spelled(ts, pos + 1, n, rest),
    ensures
        spelled(ts, pos, n + 1, plain(kind) + rest),
{
    lemma_spelled_token(ts, pos, kind);
    lemma_spelled_then(ts, pos, 1, plain(kind), n, rest);
}

/// What is in brackets agrees with the tokens it was read from, brackets
/// included, if what is inside does.
proof fn lemma_bracketed_spelled(
    ts: Seq<Token>,
    pos: int,
    open: TokenKind,
    n: nat,
    inside: Seq<TokenView>,
    close: TokenKind,
)
    requires
        0 <= pos,
        kind_at(ts, pos) == open,
        open != TokenKind::EndOfInput,
        !crate::ast::grammar::carries(open),
        spelled(ts, pos + 1, n, inside),
        kind_at(ts, pos + n + 1) == close,
        close != TokenKind::EndOfInput,
        !crate::ast::grammar::carries(close),
    ensures
        spelled(ts, pos, n + 2, plain(open) + inside + plain(close)),
{
    lemma_spelled_token(ts, pos, open);
    lemma_spelled_then(ts, pos, 1, plain(open), n, inside);
    lemma_spelled_token(ts, pos + n + 1, close);
    lemma_spelled_then(ts, pos, n + 1, plain(open) + inside, 1, plain(close));
}

/// What the rule `expression_at` read prints as the tokens that it read.
pub proof fn lemma_expression_spelled(ts: Seq<Token>, pos: int)
    requires
        0 <= pos <= ts.len(),
        expression_at(ts, pos) is Ok,
    ensures
        spelled(
            ts,
            pos,
            expression_at(ts, pos)->Ok_0.1,
            expression_tokens(expression_at(ts, pos)->Ok_0.0),
        ),
    decreases ts.len() - pos, 6int,
{
    reveal(expression_at);
    reveal(compound_at);
    reveal(atomic_at);
    let k = kind_at(ts, pos);
    if k == TokenKind::Not || k == TokenKind::Sub || k == TokenKind::If {
        lemma_compound_spelled(ts, pos);
    } else {
        let (a, n) = atomic_at(ts, pos)->Ok_0;
        let next = kind_at(ts, pos + n);
        if is_comparison_operator(next) || is_logic_operator(next) || is_arith_operator(next) || next
            == TokenKind::Colon {
            lemma_compound_spelled(ts, pos);
        } else {
            lemma_atomic_spelled(ts, pos);
        }
    }
}

/// What the rule `compound_at` read prints as the tokens that it read.
pub proof fn lemma_compound_spelled(ts: Seq<Token>, pos: int)
    requires
        0 <= pos <= ts.len(),
        compound_at(ts, pos) is Ok,
    ensures
        spelled(
            ts,
            pos,
            compound_at(ts, pos)->Ok_0.1,
            compound_tokens(compound_at(ts, pos)->Ok_0.0),
        ),
    decreases ts.len() - pos, 5int,
{
    reveal(compound_at);
    reveal(comparison_at);
    reveal(logic_at);
    reveal(arith_at);
    reveal(select_at);
    reveal(cast_at);
    reveal(atomic_at);
    let k = kind_at(ts, pos);
    if k == TokenKind::Not {
        lemma_logic_spelled(ts, pos);
    } else if k == TokenKind::Sub {
        lemma_arith_spelled(ts, pos);
    } else if k == TokenKind::If {
        lemma_select_spelled(ts, pos);
    } else {
        let (a, n) = atomic_at(ts, pos)->Ok_0;
        let next = kind_at(ts, pos + n);
        if is_comparison_operator(next) {
            lemma_comparison_spelled(ts, pos);
        } else if is_logic_operator(next) {
            lemma_logic_spelled(ts, pos);
        } else if is_arith_operator(next) {
            lemma_arith_spelled(ts, pos);
        } else if next == TokenKind::Colon {
            lemma_cast_spelled(ts, pos);
        }
    }
}

/// What the rule `comparison_at` read prints as the tokens that it read.
pub proof fn lemma_comparison_spelled(ts: Seq<Token>, pos: int)
    requires
        0 <= pos <= ts.len(),
        comparison_at(ts, pos) is Ok,
    ensures
        spelled(
            ts,
            pos,
            comparison_at(ts, pos)->Ok_0.1,
            comparison_tokens(comparison_at(ts, pos)->Ok_0.0),
        ),
    decreases ts.len() - pos, 4int,
{
    reveal(comparison_at);
    reveal(atomic_at);
    let (lhs, n1) = atomic_at(ts, pos)->Ok_0;
    let k = kind_at(ts, pos + n1);
    let (rhs, n2) = atomic_at(ts, pos + n1 + 1)->Ok_0;
    lemma_atomic_spelled(ts, pos);
    lemma_atomic_spelled(ts, pos + n1 + 1);
    lemma_binary_spelled(ts, pos, n1, atomic_tokens(lhs), k, n2, atomic_tokens(rhs));
}

/// What the rule `logic_at` read prints as the tokens that it read.
pub proof fn lemma_logic_spelled(ts: Seq<Token>, pos: int)
    requires
        0 <= pos <= ts.len(),
        logic_at(ts, pos) is Ok,
    ensures
        spelled(ts, pos, logic_at(ts, pos)->Ok_0.1, logic_tokens(logic_at(ts, pos)->Ok_0.0)),
    decreases ts.len() - pos, 4int,
{
    reveal(logic_at);
    reveal(atomic_at);
    if kind_at(ts, pos) == TokenKind::Not {
        let (e, n) = atomic_at(ts, pos + 1)->Ok_0;
        lemma_atomic_spelled(ts, pos + 1);
        lemma_prefixed_spelled(ts, pos, TokenKind::Not, n, atomic_tokens(e));
    } else {
        let (lhs, n1) = atomic_at(ts, pos)->Ok_0;
        let k = kind_at(ts, pos + n1);
        let (rhs, n2) = atomic_at(ts, pos + n1 + 1)->Ok_0;
        lemma_atomic_spelled(ts, pos);
        lemma_atomic_spelled(ts, pos + n1 + 1);
        lemma_binary_spelled(ts, pos, n1, atomic_tokens(lhs), k, n2, atomic_tokens(rhs));
    }
}

/// What the rule `arith_at` read prints as the tokens that it read.
pub proof fn lemma_arith_spelled(ts: Seq<Token>, pos: int)
    requires
        0 <= pos <= ts.len(),
        arith_at(ts, pos) is Ok,
    ensures
        spelled(ts, pos, arith_at(ts, pos)->Ok_0.1, arith_tokens(arith_at(ts, pos)->Ok_0.0)),
    decreases ts.len() - pos, 4int,
{
    reveal(arith_at);
    reveal(atomic_at);
    if kind_at(ts, pos) == TokenKind::Sub {
        let (e, n) = atomic_at(ts, pos + 1)->Ok_0;
        lemma_atomic_spelled(ts, pos + 1);
        lemma_prefixed_spelled(ts, pos, TokenKind::Sub, n, atomic_tokens(e));
    } else {
        let (lhs, n1) = atomic_at(ts, pos)->Ok_0;
        let k = kind_at(ts, pos + n1);
        let (rhs, n2) = atomic_at(ts, pos + n1 + 1)->Ok_0;
        lemma_atomic_spelled(ts, pos);
        lemma_atomic_spelled(ts, pos + n1 + 1);
        lemma_binary_spelled(ts, pos, n1, atomic_tokens(lhs), k, n2, atomic_tokens(rhs));
    }
}

/// What the rule `select_at` read prints as the tokens that it read.
pub proof fn lemma_select_spelled(ts: Seq<Token>, pos: int)
    requires
        0 <= pos <= ts.len(),
        select_at(ts, pos) is Ok,
    ensures
        spelled(ts, pos, select_at(ts, pos)->Ok_0.1, select_tokens(select_at(ts, pos)->Ok_0.0)),
    decreases ts.len() - pos, 4int,
{
    reveal(select_at);
    reveal(expression_at);
    let (c, n1) = expression_at(ts, pos + 1)->Ok_0;
    let (a, n2) = expression_at(ts, pos + n1 + 2)->Ok_0;
    let (b, n3) = expression_at(ts, pos + n1 + n2 + 3)->Ok_0;
    lemma_expression_spelled(ts, pos + 1);
    lemma_expression_spelled(ts, pos + n1 + 2);
    lemma_expression_spelled(ts, pos + n1 + n2 + 3);
    lemma_prefixed_spelled(ts, pos, TokenKind::If, n1, expression_tokens(c));
    let first = plain(TokenKind::If) + expression_tokens(c);
    lemma_binary_spelled(ts, pos, n1 + 1, first, TokenKind::Then, n2, expression_tokens(a));
    let second = first + plain(TokenKind::Then) + expression_tokens(a);
    lemma_binary_spelled(ts, pos, n1 + n2 + 2, second, TokenKind::Else, n3, expression_tokens(b));
}

/// What the rule `cast_at` read prints as the tokens that it read.
pub proof fn lemma_cast_spelled(ts: Seq<Token>, pos: int)
    requires
        0 <= pos <= ts.len(),
        cast_at(ts, pos) is Ok,
    ensures
        spelled(ts, pos, cast_at(ts, pos)->Ok_0.1, cast_tokens(cast_at(ts, pos)->Ok_0.0)),
    decreases ts.len() - pos, 4int,
{
    reveal(cast_at);
    reveal(atomic_at);
    let (value, n1) = atomic_at(ts, pos)->Ok_0;
    let (ty, n2) = type_spec_at(ts, pos + n1 + 1)->Ok_0;
    lemma_atomic_spelled(ts, pos);
    lemma_type_spec_spelled(ts, pos + n1 + 1);
    lemma_binary_spelled(
        ts,
        pos,
        n1,
        atomic_tokens(value),
        TokenKind::Colon,
        n2,
        type_spec_tokens(ty),
    );
}

/// What the rule `atomic_at` read prints as the tokens that it read.
pub proof fn lemma_atomic_spelled(ts: Seq<Token>, pos: int)
    requires
        0 <= pos <= ts.len(),
        atomic_at(ts, pos) is Ok,
    ensures
        spelled(ts, pos, atomic_at(ts, pos)->Ok_0.1, atomic_tokens(atomic_at(ts, pos)->Ok_0.0)),
    decreases ts.len() - pos, 3int,
{
    reveal(atomic_at);
    reveal(fn_call_at);
    reveal(path_at);
    reveal(ref_path_at);
    reveal(paren_at);
    reveal(intrin_at);
    match kind_at(ts, pos) {
        TokenKind::Nil | TokenKind::True | TokenKind::False | TokenKind::Char | TokenKind::Decimal | TokenKind::Float | TokenKind::String => {
            lemma_literal_spelled(ts, pos);
        },
        TokenKind::Ident => {
            if kind_at(ts, pos + 1) == TokenKind::LParen {
                lemma_fn_call_spelled(ts, pos);
            } else {
                lemma_path_spelled(ts, pos);
            }
        },
        TokenKind::RefTransform => {
            lemma_ref_path_spelled(ts, pos);
        },
        TokenKind::LParen => {
            lemma_paren_spelled(ts, pos);
        },
        TokenKind::Embed => {
            lemma_intrin_spelled(ts, pos);
        },
        TokenKind::SizeOf => {
            lemma_size_of_spelled(ts, pos);
        },
        TokenKind::BorrowRead | TokenKind::BorrowWrite | TokenKind::ReBorrow => {
            lemma_borrow_spelled(ts, pos);
        },
        TokenKind::Deref => {
            let (e, n) = atomic_at(ts, pos + 1)->Ok_0;
            lemma_atomic_spelled(ts, pos + 1);
            lemma_prefixed_spelled(ts, pos, TokenKind::Deref, n, atomic_tokens(e));
        },
        _ => {},
    }
}

/// What the rule `literal_at` read prints as the tokens that it read.
pub proof fn lemma_literal_spelled(ts: Seq<Token>, pos: int)
    requires
        0 <= pos <= ts.len(),
        literal_at(ts, pos) is Ok,
    ensures
        spelled(ts, pos, literal_at(ts, pos)->Ok_0.1, atomic_tokens(literal_at(ts, pos)->Ok_0.0)),
{
    reveal(literal_at);
    assert(atomic_tokens(literal_at(ts, pos)->Ok_0.0) =~= views(ts, pos, 1));
}

/// What the rule `ref_path_at` read prints as the tokens that it read.
pub proof fn lemma_ref_path_spelled(ts: Seq<Token>, pos: int)
    requires
        0 <= pos <= ts.len(),
        ref_path_at(ts, pos) is Ok,
    ensures
        spelled(ts, pos, ref_path_at(ts, pos)->Ok_0.1, atomic_tokens(ref_path_at(ts, pos)->Ok_0.0)),
    decreases ts.len() - pos, 2int,
{
    reveal(ref_path_at);
    reveal(path_at);
    let (path, n) = path_at(ts, pos + 1)->Ok_0;
    lemma_path_spelled(ts, pos + 1);
    lemma_bracketed_spelled(
        ts,
        pos,
        TokenKind::RefTransform,
        n,
        path_tokens(path),
        TokenKind::RParen,
    );
}

/// What the rule `paren_at` read prints as the tokens that it read.
pub proof fn lemma_paren_spelled(ts: Seq<Token>, pos: int)
    requires
        0 <= pos <= ts.len(),
        paren_at(ts, pos) is Ok,
    ensures
        spelled(ts, pos, paren_at(ts, pos)->Ok_0.1, atomic_tokens(paren_at(ts, pos)->Ok_0.0)),
    decreases ts.len() - pos, 2int,
{
    reveal(paren_at);
    reveal(expression_at);
    let (e, n) = expression_at(ts, pos + 1)->Ok_0;
    lemma_expression_spelled(ts, pos + 1);
    lemma_bracketed_spelled(ts, pos, TokenKind::LParen, n, expression_tokens(e), TokenKind::RParen);
}

/// What the rule `size_of_at` read prints as the tokens that it read.
pub proof fn lemma_size_of_spelled(ts: Seq<Token>, pos: int)
    requires
        0 <= pos <= ts.len(),
        size_of_at(ts, pos) is Ok,
    ensures
        spelled(ts, pos, size_of_at(ts, pos)->Ok_0.1, atomic_tokens(size_of_at(ts, pos)->Ok_0.0)),
{
    reveal(size_of_at);
    let (ty, n) = type_spec_at(ts, pos + 2)->Ok_0;
    lemma_type_spec_spelled(ts, pos + 2);
    lemma_spelled_token(ts, pos, TokenKind::SizeOf);
    lemma_spelled_token(ts, pos + 1, TokenKind::LParen);
    lemma_spelled_then(ts, pos, 1, plain(TokenKind::SizeOf), 1, plain(TokenKind::LParen));
    let head = plain(TokenKind::SizeOf) + plain(TokenKind::LParen);
    lemma_spelled_then(ts, pos, 2, head, n, type_spec_tokens(ty));
    lemma_spelled_token(ts, pos + n + 2, TokenKind::RParen);
    lemma_spelled_then(ts, pos, n + 2, head + type_spec_tokens(ty), 1, plain(TokenKind::RParen));
}

/// What the rule `borrow_at` read prints as the tokens that it read.
pub proof fn lemma_borrow_spelled(ts: Seq<Token>, pos: int)
    requires
        0 <= pos <= ts.len(),
        borrow_at(ts, pos) is Ok,
    ensures
        spelled(ts, pos, borrow_at(ts, pos)->Ok_0.1, atomic_tokens(borrow_at(ts, pos)->Ok_0.0)),
{
    reveal(borrow_at);
    let (name, n) = ident_at(ts, pos + 1)->Ok_0;
    lemma_ident_spelled(ts, pos + 1);
    lemma_prefixed_spelled(ts, pos, kind_at(ts, pos), n, ident_tokens(name));
}

/// What the rule `path_at` read prints as the tokens that it read.
pub proof fn lemma_path_spelled(ts: Seq<Token>, pos: int)
    requires
        0 <= pos <= ts.len(),
        path_at(ts, pos) is Ok,
    ensures
        spelled(ts, pos, path_at(ts, pos)->Ok_0.1, path_tokens(path_at(ts, pos)->Ok_0.0)),
    decreases ts.len() - pos, 1int,
{
    reveal(path_at);
    reveal(path_segments_at);
    let list = path_segments_at(ts, pos + 1, Seq::empty());
    lemma_ident_spelled(ts, pos);
    lemma_path_segments_spelled(ts, pos + 1, Seq::empty());
    lemma_spelled_then(
        ts,
        pos,
        1,
        ident_tokens(path_at(ts, pos)->Ok_0.0.first),
        list.taken,
        path_segments_tokens(list.items, 0),
    );
}

/// What the rule `path_segment_at` read prints as the tokens that it read.
pub proof fn lemma_path_segment_spelled(ts: Seq<Token>, pos: int)
    requires
        0 <= pos <= ts.len(),
        path_segment_at(ts, pos) is Ok,
    ensures
        spelled(
            ts,
            pos,
            path_segment_at(ts, pos)->Ok_0.1,
            path_segment_tokens(path_segment_at(ts, pos)->Ok_0.0),
        ),
    decreases ts.len() - pos, 0int,
{
    reveal(path_segment_at);
    reveal(expression_at);
    match kind_at(ts, pos) {
        TokenKind::Period => {
            let (name, n) = ident_at(ts, pos + 1)->Ok_0;
            lemma_ident_spelled(ts, pos + 1);
            lemma_prefixed_spelled(ts, pos, TokenKind::Period, n, ident_tokens(name));
        },
        TokenKind::HypenRight => {
            let (name, n) = ident_at(ts, pos + 1)->Ok_0;
            lemma_ident_spelled(ts, pos + 1);
            lemma_prefixed_spelled(ts, pos, TokenKind::HypenRight, n, ident_tokens(name));
        },
        TokenKind::LBracket => {
            let (e, n) = expression_at(ts, pos + 1)->Ok_0;
            lemma_expression_spelled(ts, pos + 1);
            lemma_bracketed_spelled(
                ts,
                pos,
                TokenKind::LBracket,
                n,
                expression_tokens(e),
                TokenKind::RBracket,
            );
        },
        _ => {},
    }
}

/// What the rule `fn_call_at` read prints as the tokens that it read.
pub proof fn lemma_fn_call_spelled(ts: Seq<Token>, pos: int)
    requires
        0 <= pos <= ts.len(),
        fn_call_at(ts, pos) is Ok,
    ensures
        spelled(ts, pos, fn_call_at(ts, pos)->Ok_0.1, fn_call_tokens(fn_call_at(ts, pos)->Ok_0.0)),
    decreases ts.len() - pos, 1int,
{
    reveal(fn_call_at);
    reveal(fn_call_args_at);
    let list = fn_call_args_at(ts, pos + 2);
    lemma_ident_spelled(ts, pos);
    lemma_fn_call_args_spelled(ts, pos + 2);
    lemma_bracketed_spelled(
        ts,
        pos + 1,
        TokenKind::LParen,
        list.taken,
        fn_call_args_tokens(list.args),
        TokenKind::RParen,
    );
    lemma_spelled_then(
        ts,
        pos,
        1,
        ident_tokens(fn_call_at(ts, pos)->Ok_0.0.target),
        list.taken + 2,
        plain(TokenKind::LParen) + fn_call_args_tokens(list.args) + plain(TokenKind::RParen),
    );
    assert(fn_call_tokens(fn_call_at(ts, pos)->Ok_0.0) =~= ident_tokens(
        fn_call_at(ts, pos)->Ok_0.0.target,
    ) + (plain(TokenKind::LParen) + fn_call_args_tokens(list.args) + plain(TokenKind::RParen)));
}

/// What the rule `fn_call_args_at` read prints as the tokens that it read.
pub proof fn lemma_fn_call_args_spelled(ts: Seq<Token>, pos: int)
    requires
        0 <= pos <= ts.len(),
    ensures
        spelled(
            ts,
            pos,
            fn_call_args_at(ts, pos).taken,
            fn_call_args_tokens(fn_call_args_at(ts, pos).args),
        ),
    decreases ts.len() - pos, 9int,
{
    reveal(fn_call_args_at);
    reveal(named_args_at);
    reveal(expressions_at);
    if kind_at(ts, pos) == TokenKind::Ident && kind_at(ts, pos + 1) == TokenKind::ArrowRight {
        lemma_named_args_spelled(ts, pos, Seq::empty());
    } else {
        lemma_expressions_spelled(ts, pos, Seq::empty());
    }
}

/// What the rule `named_arg_at` read prints as the tokens that it read.
pub proof fn lemma_named_arg_spelled(ts: Seq<Token>, pos: int)
    requires
        0 <= pos <= ts.len(),
        named_arg_at(ts, pos) is Ok,
    ensures
        spelled(
            ts,
            pos,
            named_arg_at(ts, pos)->Ok_0.1,
            named_arg_tokens(named_arg_at(ts, pos)->Ok_0.0),
        ),
    decreases ts.len() - pos, 7int,
{
    reveal(named_arg_at);
    reveal(expression_at);
    let (value, n) = expression_at(ts, pos + 2)->Ok_0;
    lemma_ident_spelled(ts, pos);
    lemma_expression_spelled(ts, pos + 2);
    lemma_binary_spelled(
        ts,
        pos,
        1,
        ident_tokens(named_arg_at(ts, pos)->Ok_0.0.name),
        TokenKind::ArrowRight,
        n,
        expression_tokens(value),
    );
}

/// What the rule `intrin_at` read prints as the tokens that it read.
pub proof fn lemma_intrin_spelled(ts: Seq<Token>, pos: int)
    requires
        0 <= pos <= ts.len(),
        intrin_at(ts, pos) is Ok,
    ensures
        spelled(ts, pos, intrin_at(ts, pos)->Ok_0.1, intrin_tokens(intrin_at(ts, pos)->Ok_0.0)),
    decreases ts.len() - pos, 1int,
{
    reveal(intrin_at);
    reveal(expressions_at);
    let (ty, n) = type_spec_at(ts, pos + 2)->Ok_0;
    let code = token_at(ts, pos + n + 3)->Some_0->String_0;
    lemma_type_spec_spelled(ts, pos + 2);
    lemma_spelled_token(ts, pos, TokenKind::Embed);
    lemma_spelled_token(ts, pos + 1, TokenKind::LParen);
    lemma_spelled_then(ts, pos, 1, plain(TokenKind::Embed), 1, plain(TokenKind::LParen));
    let a = plain(TokenKind::Embed) + plain(TokenKind::LParen);
    lemma_spelled_then(ts, pos, 2, a, n, type_spec_tokens(ty));
    let b = a + type_spec_tokens(ty);
    lemma_spelled_token(ts, pos + n + 2, TokenKind::Comma);
    lemma_spelled_then(ts, pos, n + 2, b, 1, plain(TokenKind::Comma));
    let c = b + plain(TokenKind::Comma);
    assert(seq![TokenView::String(code@)] =~= views(ts, pos + n + 3, 1));
    assert(spelled(ts, pos + n + 3, 1, seq![TokenView::String(code@)]));
    lemma_spelled_then(ts, pos, n + 3, c, 1, seq![TokenView::String(code@)]);
    let d = c + seq![TokenView::String(code@)];
    if kind_at(ts, pos + n + 4) == TokenKind::Comma {
        let list = expressions_at(ts, pos + n + 5, Seq::empty());
        lemma_expressions_spelled(ts, pos + n + 5, Seq::empty());
        lemma_spelled_token(ts, pos + n + 5 + list.taken, TokenKind::RParen);
        if list.items.len() == 0 {
            lemma_spelled_more(ts, pos, n + 4, d, 1);
            lemma_spelled_then(ts, pos, n + 5, d, 1, plain(TokenKind::RParen));
        } else {
            lemma_spelled_token(ts, pos + n + 4, TokenKind::Comma);
            lemma_spelled_then(ts, pos, n + 4, d, 1, plain(TokenKind::Comma));
            let e = d + plain(TokenKind::Comma);
            lemma_spelled_then(ts, pos, n + 5, e, list.taken, expressions_tokens(list.items, 0));
            lemma_spelled_then(
                ts,
                pos,
                n + 5 + list.taken,
                e + expressions_tokens(list.items, 0),
                1,
                plain(TokenKind::RParen),
            );
        }
    } else {
        lemma_spelled_token(ts, pos + n + 4, TokenKind::RParen);
        lemma_spelled_then(ts, pos, n + 4, d, 1, plain(TokenKind::RParen));
    }
}

    /// The kinds of token that can follow the code of an `@embed`.
    pub open spec fn embed_follow() -> Seq<TokenKind> {
        seq![TokenKind::Comma, TokenKind::RParen]
    }

    /// The kinds of token that can follow the code of an `@embed`.
    pub fn embed_follow_list() -> (kinds: Vec<TokenKind>)
        ensures
            kinds@ == embed_follow(),
    {
        let mut kinds: Vec<TokenKind> = Vec::new();
        kinds.push(TokenKind::Comma);
        kinds.push(TokenKind::RParen);
        assert(kinds@ =~= embed_follow());
        kinds
    }

impl Expression {
    /// Parses the whole of `tokens` by the rule `expression_at`.
    pub fn parser(tokens: &[Token]) -> (r: Result<Expression, ParseError>)
        ensures
            parsed_whole(r, whole(expression_at(tokens@, 0), tokens@.len())),
    {
        complete(parse_expression(tokens, 0), tokens.len(), Ghost(expression_at(tokens@, 0)))
    }
}

impl AtomicExpr {
    /// Parses the whole of `tokens` by the rule `atomic_at`.
    pub fn parser(tokens: &[Token]) -> (r: Result<AtomicExpr, ParseError>)
        ensures
            parsed_whole(r, whole(atomic_at(tokens@, 0), tokens@.len())),
    {
        complete(parse_atomic(tokens, 0), tokens.len(), Ghost(atomic_at(tokens@, 0)))
    }
}

impl CompoundExpr {
    /// Parses the whole of `tokens` by the rule `compound_at`.
    pub fn parser(tokens: &[Token]) -> (r: Result<CompoundExpr, ParseError>)
        ensures
            parsed_whole(r, whole(compound_at(tokens@, 0), tokens@.len())),
    {
        complete(parse_compound(tokens, 0), tokens.len(), Ghost(compound_at(tokens@, 0)))
    }
}

impl CmpExpr {
    /// Parses the whole of `tokens` by the rule `comparison_at`.
    pub fn parser(tokens: &[Token]) -> (r: Result<CmpExpr, ParseError>)
        ensures
            parsed_whole(r, whole(comparison_at(tokens@, 0), tokens@.len())),
    {
        complete(parse_comparison(tokens, 0), tokens.len(), Ghost(comparison_at(tokens@, 0)))
    }
}

impl LogicExpr {
    /// Parses the whole of `tokens` by the rule `logic_at`.
    pub fn parser(tokens: &[Token]) -> (r: Result<LogicExpr, ParseError>)
        ensures
            parsed_whole(r, whole(logic_at(tokens@, 0), tokens@.len())),
    {
        complete(parse_logic(tokens, 0), tokens.len(), Ghost(logic_at(tokens@, 0)))
    }
}

impl ArithExpr {
    /// Parses the whole of `tokens` by the rule `arith_at`.
    pub fn parser(tokens: &[Token]) -> (r: Result<ArithExpr, ParseError>)
        ensures
            parsed_whole(r, whole(arith_at(tokens@, 0), tokens@.len())),
    {
        complete(parse_arith(tokens, 0), tokens.len(), Ghost(arith_at(tokens@, 0)))
    }
}

impl SelectExpr {
    /// Parses the whole of `tokens` by the rule `select_at`.
    pub fn parser(tokens: &[Token]) -> (r: Result<SelectExpr, ParseError>)
        ensures
            parsed_whole(r, whole(select_at(tokens@, 0), tokens@.len())),
    {
        complete(parse_select(tokens, 0), tokens.len(), Ghost(select_at(tokens@, 0)))
    }
}

impl CastExpr {
    /// Parses the whole of `tokens` by the rule `cast_at`.
    pub fn parser(tokens: &[Token]) -> (r: Result<CastExpr, ParseError>)
        ensures
            parsed_whole(r, whole(cast_at(tokens@, 0), tokens@.len())),
    {
        complete(parse_cast(tokens, 0), tokens.len(), Ghost(cast_at(tokens@, 0)))
    }
}

impl PathExpr {
    /// Parses the whole of `tokens` by the rule `path_at`.
    pub fn parser(tokens: &[Token]) -> (r: Result<PathExpr, ParseError>)
        ensures
            parsed_whole(r, whole(path_at(tokens@, 0), tokens@.len())),
    {
        complete(parse_path(tokens, 0), tokens.len(), Ghost(path_at(tokens@, 0)))
    }
}

impl PathSegment {
    /// Parses the whole of `tokens` by the rule `path_segment_at`.
    pub fn parser(tokens: &[Token]) -> (r: Result<PathSegment, ParseError>)
        ensures
            parsed_whole(r, whole(path_segment_at(tokens@, 0), tokens@.len())),
    {
        complete(parse_path_segment(tokens, 0), tokens.len(), Ghost(path_segment_at(tokens@, 0)))
    }
}

impl FnCallExpr {
    /// Parses the whole of `tokens` by the rule `fn_call_at`.
    pub fn parser(tokens: &[Token]) -> (r: Result<FnCallExpr, ParseError>)
        ensures
            parsed_whole(r, whole(fn_call_at(tokens@, 0), tokens@.len())),
    {
        complete(parse_fn_call(tokens, 0), tokens.len(), Ghost(fn_call_at(tokens@, 0)))
    }
}

impl IntrinExpr {
    /// Parses the whole of `tokens` by the rule `intrin_at`.
    pub fn parser(tokens: &[Token]) -> (r: Result<IntrinExpr, ParseError>)
        ensures
            parsed_whole(r, whole(intrin_at(tokens@, 0), tokens@.len())),
    {
        complete(parse_intrin(tokens, 0), tokens.len(), Ghost(intrin_at(tokens@, 0)))
    }
}

/// The rule of arguments as a rule that gives a value: it never fails.
pub open spec fn arguments_at(ts: Seq<Token>, pos: int) -> Parsed<FnCallArgsView> {
    Ok((fn_call_args_at(ts, pos).args, fn_call_args_at(ts, pos).taken))
}

impl FnCallArgs {
    /// Parses the whole of `tokens` as the arguments of a call.
    pub fn parser(tokens: &[Token]) -> (r: Result<FnCallArgs, ParseError>)
        ensures
            parsed_whole(r, whole(arguments_at(tokens@, 0), tokens@.len())),
            r is Ok ==> r->Ok_0.deep_view().wf(),
    {
        let (args, p, _) = parse_fn_call_args(tokens, 0);
        complete(Ok((args, p)), tokens.len(), Ghost(arguments_at(tokens@, 0)))
    }
}

} // verus!
