//! The typed tree: statements and expressions in which every node carries
//! its resolved type and every name its resolved kind.

use crate::common::{
    ArithmeticOperator, BorrowingMode, ComparisonOperator, DeclId, Identifier, ModuleName,
    Mutability, QIdent, QIdentView,
};
use crate::span::Span;
use crate::ty::{Region, Ty, TyView};
use vstd::prelude::*;

verus! {

/// A typed statement. In `TLet` and `TDestructure` the last field is the scope of the binding: what follows it in its block.
#[derive(Debug)]
pub enum TStmt {
    TSkip(Span),
    TLet(Span, Identifier, Box<TExpr>, Mutability, Ty, Box<TStmt>),
    TDestructure(Span, Mutability, Vec<TypedBinding>, Box<TExpr>, Box<TStmt>),
    TAssign(Span, Box<TExpr>, Box<TExpr>),
    TAssignVar(Span, QIdent, Box<TExpr>),
    TInitialAssign(QIdent, Box<TExpr>),
    TIf(Span, Box<TExpr>, Box<TStmt>, Box<TStmt>),
    TCase(Span, Box<TExpr>, Vec<TypedWhen>, CaseRef),
    TWhile(Span, Box<TExpr>, Box<TStmt>),
    TFor(Span, Identifier, Box<TExpr>, Box<TExpr>, Box<TStmt>),
    TBorrow {
        span: Span,
        original: Identifier,
        rename: Identifier,
        region: Identifier,
        orig_type: Ty,
        ref_type: Ty,
        body: Box<TStmt>,
        mode: BorrowStmtKind,
    },
    TBlock(Span, Box<TStmt>, Box<TStmt>),
    TDiscarding(Span, Box<TExpr>),
    TReturn(Span, Box<TExpr>),
    TLetTmp(Identifier, Ty, Box<TExpr>),
    TAssignTmp(Identifier, Box<TExpr>),
}

/// A value of `TStmt` as plain data.
pub enum TStmtView {
    TSkip(Span),
    TLet(Span, Seq<char>, Box<TExprView>, Mutability, TyView, Box<TStmtView>),
    TDestructure(Span, Mutability, Seq<TypedBindingView>, Box<TExprView>, Box<TStmtView>),
    TAssign(Span, Box<TExprView>, Box<TExprView>),
    TAssignVar(Span, QIdentView, Box<TExprView>),
    TInitialAssign(QIdentView, Box<TExprView>),
    TIf(Span, Box<TExprView>, Box<TStmtView>, Box<TStmtView>),
    TCase(Span, Box<TExprView>, Seq<TypedWhenView>, CaseRef),
    TWhile(Span, Box<TExprView>, Box<TStmtView>),
    TFor(Span, Seq<char>, Box<TExprView>, Box<TExprView>, Box<TStmtView>),
    TBorrow {
        span: Span,
        original: Seq<char>,
        rename: Seq<char>,
        region: Seq<char>,
        orig_type: TyView,
        ref_type: TyView,
        body: Box<TStmtView>,
        mode: BorrowStmtKind,
    },
    TBlock(Span, Box<TStmtView>, Box<TStmtView>),
    TDiscarding(Span, Box<TExprView>),
    TReturn(Span, Box<TExprView>),
    TLetTmp(Seq<char>, TyView, Box<TExprView>),
    TAssignTmp(Seq<char>, Box<TExprView>),
}

impl TStmt {
    /// The value as plain data.
    pub open spec fn model(self) -> TStmtView
        decreases self,
    {
        match self {
            TStmt::TSkip(x0) => TStmtView::TSkip(x0.deep_view()),
            TStmt::TLet(x0, x1, x2, x3, x4, x5) => TStmtView::TLet(
                x0.deep_view(),
                x1.deep_view(),
                Box::new((*x2).model()),
                x3.deep_view(),
                x4.deep_view(),
                Box::new((*x5).model()),
            ),
            TStmt::TDestructure(x0, x1, x2, x3, x4) => TStmtView::TDestructure(
                x0.deep_view(),
                x1.deep_view(),
                x2.deep_view(),
                Box::new((*x3).model()),
                Box::new((*x4).model()),
            ),
            TStmt::TAssign(x0, x1, x2) => TStmtView::TAssign(
                x0.deep_view(),
                Box::new((*x1).model()),
                Box::new((*x2).model()),
            ),
            TStmt::TAssignVar(x0, x1, x2) => TStmtView::TAssignVar(
                x0.deep_view(),
                x1.deep_view(),
                Box::new((*x2).model()),
            ),
            TStmt::TInitialAssign(x0, x1) => TStmtView::TInitialAssign(
                x0.deep_view(),
                Box::new((*x1).model()),
            ),
            TStmt::TIf(x0, x1, x2, x3) => TStmtView::TIf(
                x0.deep_view(),
                Box::new((*x1).model()),
                Box::new((*x2).model()),
                Box::new((*x3).model()),
            ),
            TStmt::TCase(x0, x1, x2, x3) => TStmtView::TCase(
                x0.deep_view(),
                Box::new((*x1).model()),
                Seq::new(
                    x2.len() as nat,
                    |i: int| if 0 <= i < x2.len() { x2[i].model() } else { arbitrary() },
                ),
                x3.deep_view(),
            ),
            TStmt::TWhile(x0, x1, x2) => TStmtView::TWhile(
                x0.deep_view(),
                Box::new((*x1).model()),
                Box::new((*x2).model()),
            ),
            TStmt::TFor(x0, x1, x2, x3, x4) => TStmtView::TFor(
                x0.deep_view(),
                x1.deep_view(),
                Box::new((*x2).model()),
                Box::new((*x3).model()),
                Box::new((*x4).model()),
            ),
            TStmt::TBorrow {
                span,
                original,
                rename,
                region,
                orig_type,
                ref_type,
                body,
                mode,
            } => TStmtView::TBorrow {
                span: span.deep_view(),
                original: original.deep_view(),
                rename: rename.deep_view(),
                region: region.deep_view(),
                orig_type: orig_type.deep_view(),
                ref_type: ref_type.deep_view(),
                body: Box::new((*body).model()),
                mode: mode.deep_view(),
            },
            TStmt::TBlock(x0, x1, x2) => TStmtView::TBlock(
                x0.deep_view(),
                Box::new((*x1).model()),
                Box::new((*x2).model()),
            ),
            TStmt::TDiscarding(x0, x1) => TStmtView::TDiscarding(
                x0.deep_view(),
                Box::new((*x1).model()),
            ),
            TStmt::TReturn(x0, x1) => TStmtView::TReturn(x0.deep_view(), Box::new((*x1).model())),
            TStmt::TLetTmp(x0, x1, x2) => TStmtView::TLetTmp(
                x0.deep_view(),
                x1.deep_view(),
                Box::new((*x2).model()),
            ),
            TStmt::TAssignTmp(x0, x1) => TStmtView::TAssignTmp(
                x0.deep_view(),
                Box::new((*x1).model()),
            ),
        }
    }
}

impl DeepView for TStmt {
    type V = TStmtView;

    open spec fn deep_view(&self) -> TStmtView {
        self.model()
    }
}

/// A typed expression. `TBorrowExpr` is `&x` or `&!x`, a borrow of a variable inside a borrow statement's region; `TReborrow` is `&~x`; `TRefPath` is `&( path )`.
#[derive(Debug)]
pub enum TExpr {
    TNilConstant,
    TBoolConstant(bool),
    TIntConstant(String),
    TFloatConstant(String),
    TStringConstant(String),
    TConstVar(QIdent, Ty),
    TParamVar(Identifier, Ty),
    TLocalVar(Identifier, Ty),
    TFunVar(DeclId, Ty),
    TTemporary(Identifier, Ty),
    TFuncall(DeclId, QIdent, Vec<Box<TExpr>>, Ty),
    TMethodCall(DeclId, QIdent, Vec<Box<TExpr>>, Ty),
    TVarMethodCall {
        source_module_name: ModuleName,
        typeclass_id: DeclId,
        params: Vec<ValueParameter>,
        method_name: QIdent,
        args: Vec<Box<TExpr>>,
        dispatch_ty: Ty,
        rt: Ty,
    },
    TFptrCall(Identifier, Vec<Box<TExpr>>, Ty),
    TCast(Box<TExpr>, Ty),
    TArithmetic(ArithmeticOperator, Box<TExpr>, Box<TExpr>),
    TComparison(ComparisonOperator, Box<TExpr>, Box<TExpr>),
    TConjunction(Box<TExpr>, Box<TExpr>),
    TDisjunction(Box<TExpr>, Box<TExpr>),
    TNegation(Box<TExpr>),
    TIfExpression(Box<TExpr>, Box<TExpr>, Box<TExpr>),
    TRecordConstructor(Ty, Vec<(Identifier, Box<TExpr>)>),
    TUnionConstructor(Ty, Identifier, Vec<(Identifier, Box<TExpr>)>),
    TSlotAccessor(Box<TExpr>, Identifier, Ty),
    TPointerSlotAccessor(Box<TExpr>, Identifier, Ty),
    TArrayIndex(Box<TExpr>, Box<TExpr>, Ty),
    TSpanIndex(Box<TExpr>, Box<TExpr>, Ty),
    TEmbed(Ty, String, Vec<Box<TExpr>>),
    TDeref(Box<TExpr>),
    TSizeOf(Ty),
    TBorrowExpr(BorrowingMode, Identifier, Region, Ty),
    TReborrow(Identifier, Region, Ty),
    TRefPath(Box<TExpr>, Ty),
}

/// A value of `TExpr` as plain data.
pub enum TExprView {
    TNilConstant,
    TBoolConstant(bool),
    TIntConstant(Seq<char>),
    TFloatConstant(Seq<char>),
    TStringConstant(Seq<char>),
    TConstVar(QIdentView, TyView),
    TParamVar(Seq<char>, TyView),
    TLocalVar(Seq<char>, TyView),
    TFunVar(DeclId, TyView),
    TTemporary(Seq<char>, TyView),
    TFuncall(DeclId, QIdentView, Seq<Box<TExprView>>, TyView),
    TMethodCall(DeclId, QIdentView, Seq<Box<TExprView>>, TyView),
    TVarMethodCall {
        source_module_name: Seq<char>,
        typeclass_id: DeclId,
        params: Seq<ValueParameterView>,
        method_name: QIdentView,
        args: Seq<Box<TExprView>>,
        dispatch_ty: TyView,
        rt: TyView,
    },
    TFptrCall(Seq<char>, Seq<Box<TExprView>>, TyView),
    TCast(Box<TExprView>, TyView),
    TArithmetic(ArithmeticOperator, Box<TExprView>, Box<TExprView>),
    TComparison(ComparisonOperator, Box<TExprView>, Box<TExprView>),
    TConjunction(Box<TExprView>, Box<TExprView>),
    TDisjunction(Box<TExprView>, Box<TExprView>),
    TNegation(Box<TExprView>),
    TIfExpression(Box<TExprView>, Box<TExprView>, Box<TExprView>),
    TRecordConstructor(TyView, Seq<(Seq<char>, Box<TExprView>)>),
    TUnionConstructor(TyView, Seq<char>, Seq<(Seq<char>, Box<TExprView>)>),
    TSlotAccessor(Box<TExprView>, Seq<char>, TyView),
    TPointerSlotAccessor(Box<TExprView>, Seq<char>, TyView),
    TArrayIndex(Box<TExprView>, Box<TExprView>, TyView),
    TSpanIndex(Box<TExprView>, Box<TExprView>, TyView),
    TEmbed(TyView, Seq<char>, Seq<Box<TExprView>>),
    TDeref(Box<TExprView>),
    TSizeOf(TyView),
    TBorrowExpr(BorrowingMode, Seq<char>, Region, TyView),
    TReborrow(Seq<char>, Region, TyView),
    TRefPath(Box<TExprView>, TyView),
}

impl TExpr {
    /// The value as plain data.
    pub open spec fn model(self) -> TExprView
        decreases self,
    {
        match self {
            TExpr::TNilConstant => TExprView::TNilConstant,
            TExpr::TBoolConstant(x0) => TExprView::TBoolConstant(x0.deep_view()),
            TExpr::TIntConstant(x0) => TExprView::TIntConstant(x0.deep_view()),
            TExpr::TFloatConstant(x0) => TExprView::TFloatConstant(x0.deep_view()),
            TExpr::TStringConstant(x0) => TExprView::TStringConstant(x0.deep_view()),
            TExpr::TConstVar(x0, x1) => TExprView::TConstVar(x0.deep_view(), x1.deep_view()),
            TExpr::TParamVar(x0, x1) => TExprView::TParamVar(x0.deep_view(), x1.deep_view()),
            TExpr::TLocalVar(x0, x1) => TExprView::TLocalVar(x0.deep_view(), x1.deep_view()),
            TExpr::TFunVar(x0, x1) => TExprView::TFunVar(x0.deep_view(), x1.deep_view()),
            TExpr::TTemporary(x0, x1) => TExprView::TTemporary(x0.deep_view(), x1.deep_view()),
            TExpr::TFuncall(x0, x1, x2, x3) => TExprView::TFuncall(
                x0.deep_view(),
                x1.deep_view(),
                Seq::new(
                    x2.len() as nat,
                    |i: int| if 0 <= i < x2.len() { Box::new((*x2[i]).model()) } else { arbitrary() },
                ),
                x3.deep_view(),
            ),
            TExpr::TMethodCall(x0, x1, x2, x3) => TExprView::TMethodCall(
                x0.deep_view(),
                x1.deep_view(),
                Seq::new(
                    x2.len() as nat,
                    |i: int| if 0 <= i < x2.len() { Box::new((*x2[i]).model()) } else { arbitrary() },
                ),
                x3.deep_view(),
            ),
            TExpr::TVarMethodCall { source_module_name, typeclass_id, params, method_name, args, dispatch_ty, rt } => TExprView::TVarMethodCall {
                source_module_name: source_module_name.deep_view(),
                typeclass_id: typeclass_id.deep_view(),
                params: params.deep_view(),
                method_name: method_name.deep_view(),
                args: Seq::new(
                    args.len() as nat,
                    |i: int| if 0 <= i < args.len() { Box::new((*args[i]).model()) } else { arbitrary() },
                ),
                dispatch_ty: dispatch_ty.deep_view(),
                rt: rt.deep_view(),
            },
            TExpr::TFptrCall(x0, x1, x2) => TExprView::TFptrCall(
                x0.deep_view(),
                Seq::new(
                    x1.len() as nat,
                    |i: int| if 0 <= i < x1.len() { Box::new((*x1[i]).model()) } else { arbitrary() },
                ),
                x2.deep_view(),
            ),
            TExpr::TCast(x0, x1) => TExprView::TCast(Box::new((*x0).model()), x1.deep_view()),
            TExpr::TArithmetic(x0, x1, x2) => TExprView::TArithmetic(
                x0.deep_view(),
                Box::new((*x1).model()),
                Box::new((*x2).model()),
            ),
            TExpr::TComparison(x0, x1, x2) => TExprView::TComparison(
                x0.deep_view(),
                Box::new((*x1).model()),
                Box::new((*x2).model()),
            ),
            TExpr::TConjunction(x0, x1) => TExprView::TConjunction(
                Box::new((*x0).model()),
                Box::new((*x1).model()),
            ),
            TExpr::TDisjunction(x0, x1) => TExprView::TDisjunction(
                Box::new((*x0).model()),
                Box::new((*x1).model()),
            ),
            TExpr::TNegation(x0) => TExprView::TNegation(Box::new((*x0).model())),
            TExpr::TIfExpression(x0, x1, x2) => TExprView::TIfExpression(
                Box::new((*x0).model()),
                Box::new((*x1).model()),
                Box::new((*x2).model()),
            ),
            TExpr::TRecordConstructor(x0, x1) => TExprView::TRecordConstructor(
                x0.deep_view(),
                Seq::new(
                    x1.len() as nat,
                    |i: int| if 0 <= i < x1.len() { (x1[i].0.deep_view(), Box::new((*x1[i].1).model())) } else { arbitrary() },
                ),
            ),
            TExpr::TUnionConstructor(x0, x1, x2) => TExprView::TUnionConstructor(
                x0.deep_view(),
                x1.deep_view(),
                Seq::new(
                    x2.len() as nat,
                    |i: int| if 0 <= i < x2.len() { (x2[i].0.deep_view(), Box::new((*x2[i].1).model())) } else { arbitrary() },
                ),
            ),
            TExpr::TSlotAccessor(x0, x1, x2) => TExprView::TSlotAccessor(
                Box::new((*x0).model()),
                x1.deep_view(),
                x2.deep_view(),
            ),
            TExpr::TPointerSlotAccessor(x0, x1, x2) => TExprView::TPointerSlotAccessor(
                Box::new((*x0).model()),
                x1.deep_view(),
                x2.deep_view(),
            ),
            TExpr::TArrayIndex(x0, x1, x2) => TExprView::TArrayIndex(
                Box::new((*x0).model()),
                Box::new((*x1).model()),
                x2.deep_view(),
            ),
            TExpr::TSpanIndex(x0, x1, x2) => TExprView::TSpanIndex(
                Box::new((*x0).model()),
                Box::new((*x1).model()),
                x2.deep_view(),
            ),
            TExpr::TEmbed(x0, x1, x2) => TExprView::TEmbed(
                x0.deep_view(),
                x1.deep_view(),
                Seq::new(
                    x2.len() as nat,
                    |i: int| if 0 <= i < x2.len() { Box::new((*x2[i]).model()) } else { arbitrary() },
                ),
            ),
            TExpr::TDeref(x0) => TExprView::TDeref(Box::new((*x0).model())),
            TExpr::TSizeOf(x0) => TExprView::TSizeOf(x0.deep_view()),
            TExpr::TBorrowExpr(x0, x1, x2, x3) => TExprView::TBorrowExpr(
                x0.deep_view(),
                x1.deep_view(),
                x2.deep_view(),
                x3.deep_view(),
            ),
            TExpr::TReborrow(x0, x1, x2) => TExprView::TReborrow(
                x0.deep_view(),
                x1.deep_view(),
                x2.deep_view(),
            ),
            TExpr::TRefPath(x0, x1) => TExprView::TRefPath(Box::new((*x0).model()), x1.deep_view()),
        }
    }
}

impl DeepView for TExpr {
    type V = TExprView;

    open spec fn deep_view(&self) -> TExprView {
        self.model()
    }
}

/// A parameter of a function or method, or a slot of a record: its name and its type.
#[derive(Debug)]
pub struct ValueParameter {
    pub name: Identifier,
    pub ty: Ty,
}

/// A value of `ValueParameter` as plain data.
pub struct ValueParameterView {
    pub name: Seq<char>,
    pub ty: TyView,
}

impl DeepView for ValueParameter {
    type V = ValueParameterView;

    open spec fn deep_view(&self) -> ValueParameterView {
        ValueParameterView {
            name: self.name.deep_view(),
            ty: self.ty.deep_view(),
        }
    }
}

/// One binding of a destructuring or of a `when` clause: the slot's name, its type, and the variable that receives it.
#[derive(Debug)]
pub struct TypedBinding {
    pub name: Identifier,
    pub ty: Ty,
    pub rename: Identifier,
}

/// A value of `TypedBinding` as plain data.
pub struct TypedBindingView {
    pub name: Seq<char>,
    pub ty: TyView,
    pub rename: Seq<char>,
}

impl DeepView for TypedBinding {
    type V = TypedBindingView;

    open spec fn deep_view(&self) -> TypedBindingView {
        TypedBindingView {
            name: self.name.deep_view(),
            ty: self.ty.deep_view(),
            rename: self.rename.deep_view(),
        }
    }
}

/// How a `case` takes the value it tells apart: as a value, or through a
/// reference.
#[derive(Clone, Copy, Debug, PartialEq, Eq, Structural)]
pub enum CaseRef {
    CasePlain,
    CaseRefValue,
}

/// One `when` clause: the case's name, its bindings and its body.
#[derive(Debug)]
pub struct TypedWhen(pub Identifier, pub Vec<TypedBinding>, pub Box<TStmt>);

/// A `when` clause as plain data.
pub struct TypedWhenView(pub Seq<char>, pub Seq<TypedBindingView>, pub Box<TStmtView>);

impl TypedWhen {
    /// The value as plain data.
    pub open spec fn model(self) -> TypedWhenView
        decreases self,
    {
        TypedWhenView(self.0.deep_view(), self.1.deep_view(), Box::new((*self.2).model()))
    }
}

impl DeepView for TypedWhen {
    type V = TypedWhenView;

    open spec fn deep_view(&self) -> TypedWhenView {
        self.model()
    }
}

/// How a borrow statement takes its origin: for reading, for writing, or as a
/// borrow of a write reference.
#[derive(Clone, Copy, Debug, PartialEq, Eq, Structural)]
pub enum BorrowStmtKind {
    Read,
    Write,
    Reborrow,
}

impl DeepView for CaseRef {
    type V = CaseRef;

    open spec fn deep_view(&self) -> CaseRef {
        *self
    }
}

impl DeepView for BorrowStmtKind {
    type V = BorrowStmtKind;

    open spec fn deep_view(&self) -> BorrowStmtKind {
        *self
    }
}

} // verus!
