//! The resolver and type checker: it turns the untyped tree of a module body
//! into a typed tree, resolving names and checking every expression and
//! statement against the typing rules.

pub mod modules;
pub mod soundness;
pub mod statements;

use crate::ast::common::Ident;
use crate::ast::expressions::{
    ArithExpr, ArithExprView, AtomicExpr, AtomicExprView, CastExpr, CastExprView, CmpExpr,
    CmpExprView, CompoundExpr, CompoundExprView, Expression, ExpressionView, FnCallArgs,
    FnCallArgsView, FnCallExpr, FnCallExprView, IntrinExpr, IntrinExprView, LogicExpr,
    LogicExprView, NamedArg, NamedArgView, PathExpr, PathExprView, PathSegment, PathSegmentView,
    SelectExpr, SelectExprView,
};
use crate::ast::types::{TypeSpec, TypeSpecView};
use crate::common::{
    ArithmeticOperator, BorrowingMode, ComparisonOperator, DeclId, Identifier, ModuleName,
    QIdent, QIdentView,
};
use crate::linearity_check::no_span;
use crate::render::{decimal_digits, decimal_text};
use crate::resolver::modules::type_params;
use crate::span::Span;
use crate::stages::{TExpr, TExprView, ValueParameter, ValueParameterView};
use crate::ty::{IntegerWidth, Region, Signedness, Ty, TyView, Universe};
use crate::type_check::{
    arithmetic_ty, arithmetic_type, asked, borrow_ty, borrow_type, cast_ty, cast_type, char_ty,
    char_type, comparison_ty, comparison_type, conditional_ty, conditional_type, deref_ty,
    deref_type, float_literal_ty, float_literal_type, index_ty, index_type, int32,
    integer_literal_ty, integer_literal_type, logic_ty, logic_type, minus_ty, minus_type,
    negation_ty, negation_type, size_ty, size_type, string_ty, string_type, TypeErrorKind,
};
use crate::type_env::{
    CaseInfo, CaseInfoView, ConstantInfo, ConstantInfoView, Env, EnvView, FunctionSig,
    FunctionSigView, InstanceInfo, InstanceInfoView, MethodInfo, MethodInfoView, RecordInfo,
    RecordInfoView, RegionName, RegionNameView, Scope, ScopeView, TypeName, TypeNameView,
    UnionInfo, UnionInfoView, Variable, VariableKind, VariableView,
};
use crate::type_system::{
    instantiate, instantiated, substitute, substituted, type_universe, TypeBinding,
    TypeBindingView, universe_of,
};
use vstd::prelude::*;

verus! {

/// Whether a string spells what a literal does.
fn same_text(text: &String, word: &str) -> (r: bool)
    ensures
        r == (text@ == word@),
{
    let other = String::from_str(word);
    *text == other
}

/// Whether an identifier of the source and a name spell the same.
fn names(ident: &Ident, name: &Identifier) -> (r: bool)
    ensures
        r == (ident.deep_view() == name@),
{
    ident.name == name.0
}

/// The span of what is made here and stands nowhere in a source.
fn blank_span() -> (r: Span)
    ensures
        r == no_span(),
{
    Span::default()
}

/// The name that an identifier of the source spells.
fn name_of(ident: &Ident) -> (r: Identifier)
    ensures
        r@ == ident.deep_view(),
{
    Identifier(ident.name.clone())
}

/// The type that a built-in name stands for.
pub open spec fn builtin_ty(name: Seq<char>) -> Option<TyView> {
    if name == "Unit"@ {
        Some(TyView::Unit)
    } else if name == "Bool"@ {
        Some(TyView::Boolean)
    } else if name == "Float32"@ {
        Some(TyView::SingleFloat)
    } else if name == "Float64"@ {
        Some(TyView::DoubleFloat)
    } else if name == "Nat8"@ {
        Some(TyView::Integer(Signedness::Unsigned, IntegerWidth::Width8))
    } else if name == "Nat16"@ {
        Some(TyView::Integer(Signedness::Unsigned, IntegerWidth::Width16))
    } else if name == "Nat32"@ {
        Some(TyView::Integer(Signedness::Unsigned, IntegerWidth::Width32))
    } else if name == "Nat64"@ {
        Some(TyView::Integer(Signedness::Unsigned, IntegerWidth::Width64))
    } else if name == "Int8"@ {
        Some(TyView::Integer(Signedness::Signed, IntegerWidth::Width8))
    } else if name == "Int16"@ {
        Some(TyView::Integer(Signedness::Signed, IntegerWidth::Width16))
    } else if name == "Int32"@ {
        Some(TyView::Integer(Signedness::Signed, IntegerWidth::Width32))
    } else if name == "Int64"@ {
        Some(TyView::Integer(Signedness::Signed, IntegerWidth::Width64))
    } else if name == "Index"@ {
        Some(TyView::Integer(Signedness::Unsigned, IntegerWidth::WidthIndex))
    } else if name == "ByteSize"@ {
        Some(TyView::Integer(Signedness::Unsigned, IntegerWidth::WidthByteSize))
    } else {
        None
    }
}

/// Computes `builtin_ty`.
pub fn builtin_type(name: &Ident) -> (r: Option<Ty>)
    ensures
        match builtin_ty(name.deep_view()) {
            Some(t) => r is Some && r->0@ == t,
            None => r is None,
        },
{
    if same_text(&name.name, "Unit") {
        Some(Ty::Unit)
    } else if same_text(&name.name, "Bool") {
        Some(Ty::Boolean)
    } else if same_text(&name.name, "Float32") {
        Some(Ty::SingleFloat)
    } else if same_text(&name.name, "Float64") {
        Some(Ty::DoubleFloat)
    } else if same_text(&name.name, "Nat8") {
        Some(Ty::Integer(Signedness::Unsigned, IntegerWidth::Width8))
    } else if same_text(&name.name, "Nat16") {
        Some(Ty::Integer(Signedness::Unsigned, IntegerWidth::Width16))
    } else if same_text(&name.name, "Nat32") {
        Some(Ty::Integer(Signedness::Unsigned, IntegerWidth::Width32))
    } else if same_text(&name.name, "Nat64") {
        Some(Ty::Integer(Signedness::Unsigned, IntegerWidth::Width64))
    } else if same_text(&name.name, "Int8") {
        Some(Ty::Integer(Signedness::Signed, IntegerWidth::Width8))
    } else if same_text(&name.name, "Int16") {
        Some(Ty::Integer(Signedness::Signed, IntegerWidth::Width16))
    } else if same_text(&name.name, "Int32") {
        Some(Ty::Integer(Signedness::Signed, IntegerWidth::Width32))
    } else if same_text(&name.name, "Int64") {
        Some(Ty::Integer(Signedness::Signed, IntegerWidth::Width64))
    } else if same_text(&name.name, "Index") {
        Some(Ty::Integer(Signedness::Unsigned, IntegerWidth::WidthIndex))
    } else if same_text(&name.name, "ByteSize") {
        Some(Ty::Integer(Signedness::Unsigned, IntegerWidth::WidthByteSize))
    } else {
        None
    }
}

/// The index of the innermost variable that goes by a name.
pub open spec fn find_variable_in(items: Seq<VariableView>, name: Seq<char>) -> Option<int>
    decreases items.len(),
{
    if items.len() == 0 {
        None
    } else if items.last().name == name {
        Some(items.len() - 1)
    } else {
        find_variable_in(items.drop_last(), name)
    }
}

/// Computes `find_variable_in`.
pub fn find_variable(items: &Vec<Variable>, name: &Ident) -> (r: Option<usize>)
    ensures
        match find_variable_in(items.deep_view(), name.deep_view()) {
            Some(i) => r == Some(i as usize) && 0 <= i < items.len(),
            None => r is None,
        },
{
    let mut k: usize = items.len();
    assert(items.deep_view().take(k as int) =~= items.deep_view());
    while k > 0
        invariant
            0 <= k <= items.len(),
            find_variable_in(items.deep_view(), name.deep_view()) == find_variable_in(
                items.deep_view().take(k as int),
                name.deep_view(),
            ),
        decreases k,
    {
        let ghost prefix = items.deep_view().take(k as int);
        assert(prefix.last() == items[k - 1].deep_view());
        assert(prefix.drop_last() =~= items.deep_view().take(k - 1));
        if names(name, &items[k - 1].name) {
            return Some(k - 1);
        }
        k = k - 1;
    }
    None
}

/// The index of the innermost region that goes by a name.
pub open spec fn find_region_in(items: Seq<RegionNameView>, name: Seq<char>) -> Option<int>
    decreases items.len(),
{
    if items.len() == 0 {
        None
    } else if items.last().name == name {
        Some(items.len() - 1)
    } else {
        find_region_in(items.drop_last(), name)
    }
}

/// Computes `find_region_in`.
pub fn find_region(items: &Vec<RegionName>, name: &Ident) -> (r: Option<usize>)
    ensures
        match find_region_in(items.deep_view(), name.deep_view()) {
            Some(i) => r == Some(i as usize) && 0 <= i < items.len(),
            None => r is None,
        },
{
    let mut k: usize = items.len();
    assert(items.deep_view().take(k as int) =~= items.deep_view());
    while k > 0
        invariant
            0 <= k <= items.len(),
            find_region_in(items.deep_view(), name.deep_view()) == find_region_in(
                items.deep_view().take(k as int),
                name.deep_view(),
            ),
        decreases k,
    {
        let ghost prefix = items.deep_view().take(k as int);
        assert(prefix.last() == items[k - 1].deep_view());
        assert(prefix.drop_last() =~= items.deep_view().take(k - 1));
        if names(name, &items[k - 1].name) {
            return Some(k - 1);
        }
        k = k - 1;
    }
    None
}

/// The index of the first type that goes by a name.
pub open spec fn find_type_in(items: Seq<TypeNameView>, name: Seq<char>, from: int) -> Option<int>
    decreases items.len() - from,
{
    if from < 0 || from >= items.len() {
        None
    } else if items[from].name == name {
        Some(from)
    } else {
        find_type_in(items, name, from + 1)
    }
}

/// Computes `find_type_in`.
pub fn find_type(items: &Vec<TypeName>, name: &Ident) -> (r: Option<usize>)
    ensures
        match find_type_in(items.deep_view(), name.deep_view(), 0) {
            Some(i) => r == Some(i as usize) && 0 <= i < items.len(),
            None => r is None,
        },
{
    let mut k: usize = 0;
    while k < items.len()
        invariant
            0 <= k <= items.len(),
            find_type_in(items.deep_view(), name.deep_view(), 0) == find_type_in(
                items.deep_view(),
                name.deep_view(),
                k as int,
            ),
        decreases items.len() - k,
    {
        assert(items.deep_view()[k as int] == items[k as int].deep_view());
        if names(name, &items[k].name) {
            return Some(k);
        }
        k = k + 1;
    }
    None
}

/// The index of the first record that goes by a name.
pub open spec fn find_record_in(
    items: Seq<RecordInfoView>,
    name: Seq<char>,
    from: int,
) -> Option<int>
    decreases items.len() - from,
{
    if from < 0 || from >= items.len() {
        None
    } else if items[from].name == name {
        Some(from)
    } else {
        find_record_in(items, name, from + 1)
    }
}

/// Computes `find_record_in`.
pub fn find_record(items: &Vec<RecordInfo>, name: &Ident) -> (r: Option<usize>)
    ensures
        match find_record_in(items.deep_view(), name.deep_view(), 0) {
            Some(i) => r == Some(i as usize) && 0 <= i < items.len(),
            None => r is None,
        },
{
    let mut k: usize = 0;
    while k < items.len()
        invariant
            0 <= k <= items.len(),
            find_record_in(items.deep_view(), name.deep_view(), 0) == find_record_in(
                items.deep_view(),
                name.deep_view(),
                k as int,
            ),
        decreases items.len() - k,
    {
        assert(items.deep_view()[k as int] == items[k as int].deep_view());
        if names(name, &items[k].name) {
            return Some(k);
        }
        k = k + 1;
    }
    None
}

/// The index of the first record whose values are of a type.
pub open spec fn find_record_of_in(
    items: Seq<RecordInfoView>,
    name: TyView,
    from: int,
) -> Option<int>
    decreases items.len() - from,
{
    if from < 0 || from >= items.len() {
        None
    } else if items[from].ty == name {
        Some(from)
    } else {
        find_record_of_in(items, name, from + 1)
    }
}

/// Computes `find_record_of_in`.
pub fn find_record_of(items: &Vec<RecordInfo>, ty: &Ty) -> (r: Option<usize>)
    ensures
        match find_record_of_in(items.deep_view(), ty@, 0) {
            Some(i) => r == Some(i as usize) && 0 <= i < items.len(),
            None => r is None,
        },
{
    let mut k: usize = 0;
    while k < items.len()
        invariant
            0 <= k <= items.len(),
            find_record_of_in(items.deep_view(), ty@, 0) == find_record_of_in(
                items.deep_view(),
                ty@,
                k as int,
            ),
        decreases items.len() - k,
    {
        assert(items.deep_view()[k as int] == items[k as int].deep_view());
        if items[k].ty.equals(ty) {
            return Some(k);
        }
        k = k + 1;
    }
    None
}

/// The index of the first union whose values are of a type.
pub open spec fn find_union_of_in(items: Seq<UnionInfoView>, name: TyView, from: int) -> Option<int>
    decreases items.len() - from,
{
    if from < 0 || from >= items.len() {
        None
    } else if items[from].ty == name {
        Some(from)
    } else {
        find_union_of_in(items, name, from + 1)
    }
}

/// Computes `find_union_of_in`.
pub fn find_union_of(items: &Vec<UnionInfo>, ty: &Ty) -> (r: Option<usize>)
    ensures
        match find_union_of_in(items.deep_view(), ty@, 0) {
            Some(i) => r == Some(i as usize) && 0 <= i < items.len(),
            None => r is None,
        },
{
    let mut k: usize = 0;
    while k < items.len()
        invariant
            0 <= k <= items.len(),
            find_union_of_in(items.deep_view(), ty@, 0) == find_union_of_in(
                items.deep_view(),
                ty@,
                k as int,
            ),
        decreases items.len() - k,
    {
        assert(items.deep_view()[k as int] == items[k as int].deep_view());
        if items[k].ty.equals(ty) {
            return Some(k);
        }
        k = k + 1;
    }
    None
}

/// The index of the first case that goes by a name.
pub open spec fn find_case_in(items: Seq<CaseInfoView>, name: Seq<char>, from: int) -> Option<int>
    decreases items.len() - from,
{
    if from < 0 || from >= items.len() {
        None
    } else if items[from].name == name {
        Some(from)
    } else {
        find_case_in(items, name, from + 1)
    }
}

/// Computes `find_case_in`.
pub fn find_case(items: &Vec<CaseInfo>, name: &Ident) -> (r: Option<usize>)
    ensures
        match find_case_in(items.deep_view(), name.deep_view(), 0) {
            Some(i) => r == Some(i as usize) && 0 <= i < items.len(),
            None => r is None,
        },
{
    let mut k: usize = 0;
    while k < items.len()
        invariant
            0 <= k <= items.len(),
            find_case_in(items.deep_view(), name.deep_view(), 0) == find_case_in(
                items.deep_view(),
                name.deep_view(),
                k as int,
            ),
        decreases items.len() - k,
    {
        assert(items.deep_view()[k as int] == items[k as int].deep_view());
        if names(name, &items[k].name) {
            return Some(k);
        }
        k = k + 1;
    }
    None
}

/// The index of the first slot or parameter that goes by a name.
pub open spec fn find_slot_in(
    items: Seq<ValueParameterView>,
    name: Seq<char>,
    from: int,
) -> Option<int>
    decreases items.len() - from,
{
    if from < 0 || from >= items.len() {
        None
    } else if items[from].name == name {
        Some(from)
    } else {
        find_slot_in(items, name, from + 1)
    }
}

/// Computes `find_slot_in`.
pub fn find_slot(items: &Vec<ValueParameter>, name: &Ident) -> (r: Option<usize>)
    ensures
        match find_slot_in(items.deep_view(), name.deep_view(), 0) {
            Some(i) => r == Some(i as usize) && 0 <= i < items.len(),
            None => r is None,
        },
{
    let mut k: usize = 0;
    while k < items.len()
        invariant
            0 <= k <= items.len(),
            find_slot_in(items.deep_view(), name.deep_view(), 0) == find_slot_in(
                items.deep_view(),
                name.deep_view(),
                k as int,
            ),
        decreases items.len() - k,
    {
        assert(items.deep_view()[k as int] == items[k as int].deep_view());
        if names(name, &items[k].name) {
            return Some(k);
        }
        k = k + 1;
    }
    None
}

/// The index of the first function that goes by a name here.
pub open spec fn find_function_in(
    items: Seq<FunctionSigView>,
    name: Seq<char>,
    from: int,
) -> Option<int>
    decreases items.len() - from,
{
    if from < 0 || from >= items.len() {
        None
    } else if items[from].name.local == name {
        Some(from)
    } else {
        find_function_in(items, name, from + 1)
    }
}

/// Computes `find_function_in`.
pub fn find_function(items: &Vec<FunctionSig>, name: &Ident) -> (r: Option<usize>)
    ensures
        match find_function_in(items.deep_view(), name.deep_view(), 0) {
            Some(i) => r == Some(i as usize) && 0 <= i < items.len(),
            None => r is None,
        },
{
    let mut k: usize = 0;
    while k < items.len()
        invariant
            0 <= k <= items.len(),
            find_function_in(items.deep_view(), name.deep_view(), 0) == find_function_in(
                items.deep_view(),
                name.deep_view(),
                k as int,
            ),
        decreases items.len() - k,
    {
        assert(items.deep_view()[k as int] == items[k as int].deep_view());
        if names(name, &items[k].name.local) {
            return Some(k);
        }
        k = k + 1;
    }
    None
}

/// The index of the first constant that goes by a name here.
pub open spec fn find_constant_in(
    items: Seq<ConstantInfoView>,
    name: Seq<char>,
    from: int,
) -> Option<int>
    decreases items.len() - from,
{
    if from < 0 || from >= items.len() {
        None
    } else if items[from].name.local == name {
        Some(from)
    } else {
        find_constant_in(items, name, from + 1)
    }
}

/// Computes `find_constant_in`.
pub fn find_constant(items: &Vec<ConstantInfo>, name: &Ident) -> (r: Option<usize>)
    ensures
        match find_constant_in(items.deep_view(), name.deep_view(), 0) {
            Some(i) => r == Some(i as usize) && 0 <= i < items.len(),
            None => r is None,
        },
{
    let mut k: usize = 0;
    while k < items.len()
        invariant
            0 <= k <= items.len(),
            find_constant_in(items.deep_view(), name.deep_view(), 0) == find_constant_in(
                items.deep_view(),
                name.deep_view(),
                k as int,
            ),
        decreases items.len() - k,
    {
        assert(items.deep_view()[k as int] == items[k as int].deep_view());
        if names(name, &items[k].name.local) {
            return Some(k);
        }
        k = k + 1;
    }
    None
}

/// The region that a type specification names: it must be a plain name of
/// a region in scope.
pub open spec fn region_named(regions: Seq<RegionNameView>, spec: TypeSpecView) -> Result<
    Region,
    TypeErrorKind,
> {
    match spec {
        TypeSpecView::Simple { name } => match find_region_in(regions, name) {
            Some(i) => Ok(regions[i].region),
            None => Err(TypeErrorKind::UndefinedSymbol),
        },
        _ => Err(TypeErrorKind::UndefinedSymbol),
    }
}

/// The type that a type specification stands for. A plain name is a
/// built-in type or a type in scope; `Pointer[T]` and `Address[T]` are the
/// pointer and the address of `T`; a reference or a span takes its referent
/// and a region in scope.
pub open spec fn resolved_ty(
    types: Seq<TypeNameView>,
    regions: Seq<RegionNameView>,
    spec: TypeSpecView,
) -> Result<
    TyView,
    TypeErrorKind,
>
    decreases spec,
{
    match spec {
        TypeSpecView::Simple { name } => match builtin_ty(name) {
            Some(t) => Ok(t),
            None => match find_type_in(types, name, 0) {
                Some(i) => Ok(types[i].ty),
                None => Err(TypeErrorKind::UndefinedSymbol),
            },
        },
        TypeSpecView::Generic { name, type_params } => if type_params.len() != 1 {
            Err(TypeErrorKind::UndefinedSymbol)
        } else if name == "Pointer"@ {
            match resolved_ty(types, regions, type_params[0]) {
                Ok(t) => Ok(TyView::Pointer(Box::new(t))),
                Err(k) => Err(k),
            }
        } else if name == "Address"@ {
            match resolved_ty(types, regions, type_params[0]) {
                Ok(t) => Ok(TyView::Address(Box::new(t))),
                Err(k) => Err(k),
            }
        } else {
            Err(TypeErrorKind::UndefinedSymbol)
        },
        TypeSpecView::BorrowRead { lhs, rhs } => match resolved_ty(types, regions, *lhs) {
            Err(k) => Err(k),
            Ok(t) => match region_named(regions, *rhs) {
                Err(k) => Err(k),
                Ok(r) => Ok(TyView::ReadRef(Box::new(t), Box::new(TyView::RegionTy(r)))),
            },
        },
        TypeSpecView::BorrowWrite { lhs, rhs } => match resolved_ty(types, regions, *lhs) {
            Err(k) => Err(k),
            Ok(t) => match region_named(regions, *rhs) {
                Err(k) => Err(k),
                Ok(r) => Ok(TyView::WriteRef(Box::new(t), Box::new(TyView::RegionTy(r)))),
            },
        },
        TypeSpecView::SpanRead { lhs, rhs } => match resolved_ty(types, regions, *lhs) {
            Err(k) => Err(k),
            Ok(t) => match region_named(regions, *rhs) {
                Err(k) => Err(k),
                Ok(r) => Ok(TyView::Span(Box::new(t), Box::new(TyView::RegionTy(r)))),
            },
        },
        TypeSpecView::SpanWrite { lhs, rhs } => match resolved_ty(types, regions, *lhs) {
            Err(k) => Err(k),
            Ok(t) => match region_named(regions, *rhs) {
                Err(k) => Err(k),
                Ok(r) => Ok(TyView::SpanMut(Box::new(t), Box::new(TyView::RegionTy(r)))),
            },
        },
    }
}

/// Whether what a function computed is what a rule gives: the same type, or
/// the same kind of error.
pub open spec fn gives_ty(
    r: Result<Ty, TypeErrorKind>,
    rule: Result<TyView, TypeErrorKind>,
) -> bool {
    match (r, rule) {
        (Ok(t), Ok(v)) => t@ == v,
        (Err(a), Err(b)) => a == b,
        _ => false,
    }
}

fn resolve_region(regions: &Vec<RegionName>, spec: &TypeSpec) -> (r: Result<Region, TypeErrorKind>)
    ensures
        r == region_named(regions.deep_view(), spec.deep_view()),
{
    match spec {
        TypeSpec::Simple { name } => match find_region(regions, name) {
            Some(i) => Ok(regions[i].region),
            None => Err(TypeErrorKind::UndefinedSymbol),
        },
        _ => Err(TypeErrorKind::UndefinedSymbol),
    }
}

/// Resolves a type specification to the type it stands for.
pub fn resolve_type(types: &Vec<TypeName>, regions: &Vec<RegionName>, spec: &TypeSpec) -> (r: Result<
    Ty,
    TypeErrorKind,
>)
    ensures
        gives_ty(r, resolved_ty(types.deep_view(), regions.deep_view(), spec.deep_view())),
    decreases spec,
{
    proof {
        reveal_with_fuel(Ty::model, 2);
    }
    match spec {
        TypeSpec::Simple { name } => match builtin_type(name) {
            Some(t) => Ok(t),
            None => match find_type(types, name) {
                Some(i) => Ok(types[i].ty.clone()),
                None => Err(TypeErrorKind::UndefinedSymbol),
            },
        },
        TypeSpec::Generic { name, type_params } => {
            if type_params.len() != 1 {
                return Err(TypeErrorKind::UndefinedSymbol);
            }
            assert(spec.deep_view()->Generic_type_params[0] == type_params[0].deep_view());
            if same_text(&name.name, "Pointer") {
                let t = resolve_type(types, regions, &type_params[0])?;
                Ok(Ty::Pointer(Box::new(t)))
            } else if same_text(&name.name, "Address") {
                let t = resolve_type(types, regions, &type_params[0])?;
                Ok(Ty::Address(Box::new(t)))
            } else {
                Err(TypeErrorKind::UndefinedSymbol)
            }
        },
        TypeSpec::BorrowRead { lhs, rhs } => {
            let t = resolve_type(types, regions, lhs)?;
            let r = resolve_region(regions, rhs)?;
            Ok(Ty::ReadRef(Box::new(t), Box::new(Ty::RegionTy(r))))
        },
        TypeSpec::BorrowWrite { lhs, rhs } => {
            let t = resolve_type(types, regions, lhs)?;
            let r = resolve_region(regions, rhs)?;
            Ok(Ty::WriteRef(Box::new(t), Box::new(Ty::RegionTy(r))))
        },
        TypeSpec::SpanRead { lhs, rhs } => {
            let t = resolve_type(types, regions, lhs)?;
            let r = resolve_region(regions, rhs)?;
            Ok(Ty::Span(Box::new(t), Box::new(Ty::RegionTy(r))))
        },
        TypeSpec::SpanWrite { lhs, rhs } => {
            let t = resolve_type(types, regions, lhs)?;
            let r = resolve_region(regions, rhs)?;
            Ok(Ty::SpanMut(Box::new(t), Box::new(Ty::RegionTy(r))))
        },
    }
}

/// What the type checker works in: the declarations in scope and the scope
/// of the function it is in.
pub struct Context {
    pub env: EnvView,
    pub scope: ScopeView,
}

/// What typing an expression gives: the typed expression and its type.
pub type Typed = Result<(TExprView, TyView), TypeErrorKind>;

/// Whether what the type checker computed for an expression is what the
/// rules give: the same typed expression and type, or the same kind of
/// error.
pub open spec fn typed_as(r: Result<(TExpr, Ty), TypeErrorKind>, rule: Typed) -> bool {
    match (r, rule) {
        (Ok((e, t)), Ok((ev, tv))) => e.deep_view() == ev && t@ == tv,
        (Err(a), Err(b)) => a == b,
        _ => false,
    }
}

/// The same of a list of typed expressions.
pub open spec fn typed_list_as(
    r: Result<Vec<Box<TExpr>>, TypeErrorKind>,
    rule: Result<Seq<TExprView>, TypeErrorKind>,
) -> bool {
    match (r, rule) {
        (Ok(es), Ok(vs)) => es.deep_view() == vs,
        (Err(a), Err(b)) => a == b,
        _ => false,
    }
}

/// Expressions in boxes, as a typed call holds its arguments.
pub open spec fn boxed(es: Seq<TExprView>) -> Seq<Box<TExprView>> {
    Seq::new(es.len(), |i: int| Box::new(es[i]))
}

/// Slots or parameters with the expressions that fill them, as a typed
/// constructor holds them.
pub open spec fn filled(slots: Seq<ValueParameterView>, es: Seq<TExprView>) -> Seq<
    (Seq<char>, Box<TExprView>),
> {
    Seq::new(es.len(), |i: int| (slots[i].name, Box::new(es[i])))
}

/// A literal with its type: the literal itself if the type is the one a
/// literal of its kind has by itself, else a cast of it to the type.
pub open spec fn literal_as(e: TExprView, natural: TyView, ty: TyView) -> TExprView {
    if ty == natural {
        e
    } else {
        TExprView::TCast(Box::new(e), ty)
    }
}

/// The innermost region in scope.
pub open spec fn innermost_region(regions: Seq<RegionNameView>) -> Result<Region, TypeErrorKind> {
    if regions.len() == 0 {
        Err(TypeErrorKind::UndefinedSymbol)
    } else {
        Ok(regions.last().region)
    }
}

/// Whether an operand is a number written out.
pub open spec fn is_number_literal(a: AtomicExprView) -> bool {
    a is ConstInt || a is ConstFloat
}

/// The typed expression of a variable in scope.
pub open spec fn variable_expr(v: VariableView) -> TExprView {
    match v.kind {
        VariableKind::Parameter => TExprView::TParamVar(v.name, v.ty),
        VariableKind::Local => TExprView::TLocalVar(v.name, v.ty),
    }
}

/// The index of the first union that has a case of the given name.
pub open spec fn find_union_with_case_in(
    unions: Seq<UnionInfoView>,
    name: Seq<char>,
    from: int,
) -> Option<
    int,
>
    decreases unions.len() - from,
{
    if from < 0 || from >= unions.len() {
        None
    } else if find_case_in(unions[from].cases, name, 0) is Some {
        Some(from)
    } else {
        find_union_with_case_in(unions, name, from + 1)
    }
}

/// The index of the first named argument that goes by a name.
pub open spec fn find_named_arg_in(
    pairs: Seq<NamedArgView>,
    name: Seq<char>,
    from: int,
) -> Option<int>
    decreases pairs.len() - from,
{
    if from < 0 || from >= pairs.len() {
        None
    } else if pairs[from].name == name {
        Some(from)
    } else {
        find_named_arg_in(pairs, name, from + 1)
    }
}

/// Whether every one of the parameters from `k` on has a named argument.
pub open spec fn all_named(
    params: Seq<ValueParameterView>,
    pairs: Seq<NamedArgView>,
    k: int,
) -> bool
    decreases params.len() - k,
{
    if k < 0 || k >= params.len() {
        true
    } else {
        find_named_arg_in(pairs, params[k].name, 0) is Some && all_named(params, pairs, k + 1)
    }
}

/// The typed form of an expression, and its type. `expected` is the type
/// that the place of the expression asks for, if it asks for one: a number
/// written out takes that type if it can.
#[verifier::opaque]
pub open spec fn typed_expression(cx: Context, e: ExpressionView, expected: Option<TyView>) -> Typed
    decreases e, 3nat,
{
    match e {
        ExpressionView::Atomic(a) => typed_atomic(cx, a, expected),
        ExpressionView::Compound(c) => typed_compound(cx, c, expected),
    }
}

/// The typed form of an atomic expression, and its type.
#[verifier::opaque]
pub open spec fn typed_atomic(cx: Context, a: AtomicExprView, expected: Option<TyView>) -> Typed
    decreases a, 2nat,
{
    match a {
        AtomicExprView::FnCall(call) => typed_call(cx, call),
        AtomicExprView::Path(path) => typed_path(cx, path),
        AtomicExprView::RefPath(path) => typed_ref_path(cx, path),
        AtomicExprView::Paren(inner) => typed_expression(cx, *inner, expected),
        AtomicExprView::Intrinsic(intrinsic) => typed_embed(cx, intrinsic),
        AtomicExprView::SizeOf(spec) => match resolved_ty(cx.scope.types, cx.scope.regions, spec) {
            Err(k) => Err(k),
            Ok(t) => Ok((TExprView::TSizeOf(t), size_ty())),
        },
        AtomicExprView::BorrowRead(name) => typed_borrow(cx, name, BorrowingMode::ReadBorrow),
        AtomicExprView::BorrowWrite(name) => typed_borrow(cx, name, BorrowingMode::WriteBorrow),
        AtomicExprView::ReBorrow(name) => typed_reborrow(cx, name),
        AtomicExprView::Deref(inner) => typed_deref(cx, *inner),
        _ => typed_constant(a, expected),
    }
}

/// The typed form of a constant, and its type. A character is a number of
/// eight bits; a number written out takes the type asked for if it can.
pub open spec fn typed_constant(a: AtomicExprView, expected: Option<TyView>) -> Typed {
    match a {
        AtomicExprView::ConstBool(b) => Ok((TExprView::TBoolConstant(b), TyView::Boolean)),
        AtomicExprView::ConstChar(c) => Ok(
            (
                TExprView::TCast(
                    Box::new(TExprView::TIntConstant(decimal_digits(c as nat))),
                    char_ty(),
                ),
                char_ty(),
            ),
        ),
        AtomicExprView::ConstInt(n) => Ok(
            (
                literal_as(
                    TExprView::TIntConstant(decimal_digits(n as nat)),
                    int32(),
                    integer_literal_ty(n, expected),
                ),
                integer_literal_ty(n, expected),
            ),
        ),
        AtomicExprView::ConstFloat(s) => Ok(
            (
                literal_as(
                    TExprView::TFloatConstant(s),
                    TyView::DoubleFloat,
                    float_literal_ty(expected),
                ),
                float_literal_ty(expected),
            ),
        ),
        AtomicExprView::ConstStr(s) => Ok((TExprView::TStringConstant(s), string_ty())),
        _ => Ok((TExprView::TNilConstant, TyView::Unit)),
    }
}

/// The typed form of `&( path )`: a read reference to the place in the
/// innermost region in scope.
#[verifier::opaque]
pub open spec fn typed_ref_path(cx: Context, path: PathExprView) -> Typed
    decreases path, 1nat,
{
    match typed_path(cx, path) {
        Err(k) => Err(k),
        Ok((place, t)) => match innermost_region(cx.scope.regions) {
            Err(k) => Err(k),
            Ok(region) => Ok(
                (
                    TExprView::TRefPath(
                        Box::new(place),
                        borrow_ty(BorrowingMode::ReadBorrow, t, region),
                    ),
                    borrow_ty(BorrowingMode::ReadBorrow, t, region),
                ),
            ),
        },
    }
}

/// The typed form of the intrinsic: it is of the type it names, and its
/// code is taken on trust.
#[verifier::opaque]
pub open spec fn typed_embed(cx: Context, intrinsic: IntrinExprView) -> Typed
    decreases intrinsic, 1nat,
{
    match intrinsic {
        IntrinExprView::Embed { ty, exp, args } => match resolved_ty(
            cx.scope.types,
            cx.scope.regions,
            ty,
        ) {
            Err(k) => Err(k),
            Ok(t) => match typed_each(cx, args, 0, Seq::empty()) {
                Err(k) => Err(k),
                Ok(values) => Ok((TExprView::TEmbed(t, exp, boxed(values)), t)),
            },
        },
    }
}

/// The typed form of `&~x`: the variable is a write reference, and the
/// result is a write reference to the same in the innermost region.
pub open spec fn typed_reborrow(cx: Context, name: Seq<char>) -> Typed {
    match find_variable_in(cx.scope.variables, name) {
        None => Err(TypeErrorKind::UndefinedSymbol),
        Some(i) => match innermost_region(cx.scope.regions) {
            Err(k) => Err(k),
            Ok(region) => match cx.scope.variables[i].ty {
                TyView::WriteRef(t, _) => Ok(
                    (
                        TExprView::TReborrow(
                            name,
                            region,
                            borrow_ty(BorrowingMode::WriteBorrow, *t, region),
                        ),
                        borrow_ty(BorrowingMode::WriteBorrow, *t, region),
                    ),
                ),
                _ => Err(TypeErrorKind::TypeMismatch),
            },
        },
    }
}

/// The typed form of `!e`.
#[verifier::opaque]
pub open spec fn typed_deref(cx: Context, inner: AtomicExprView) -> Typed
    decreases inner, 3nat,
{
    match typed_atomic(cx, inner, None) {
        Err(k) => Err(k),
        Ok((e, t)) => match deref_ty(t) {
            Err(k) => Err(k),
            Ok(target) => Ok((TExprView::TDeref(Box::new(e)), target)),
        },
    }
}

/// The typed form of `&x` or `&!x`: the variable must be in scope, and a
/// borrow statement must have brought a region into scope.
pub open spec fn typed_borrow(cx: Context, name: Seq<char>, mode: BorrowingMode) -> Typed {
    match find_variable_in(cx.scope.variables, name) {
        None => Err(TypeErrorKind::UndefinedSymbol),
        Some(i) => match innermost_region(cx.scope.regions) {
            Err(k) => Err(k),
            Ok(region) => Ok(
                (
                    TExprView::TBorrowExpr(
                        mode,
                        name,
                        region,
                        borrow_ty(mode, cx.scope.variables[i].ty, region),
                    ),
                    borrow_ty(mode, cx.scope.variables[i].ty, region),
                ),
            ),
        },
    }
}

/// The typed forms of the expressions from index `k` on, each typed without
/// a type asked for, added to those before.
#[verifier::opaque]
pub open spec fn typed_each(
    cx: Context,
    es: Seq<ExpressionView>,
    k: nat,
    acc: Seq<TExprView>,
) -> Result<
    Seq<TExprView>,
    TypeErrorKind,
>
    decreases es, es.len() - k,
{
    if k >= es.len() {
        Ok(acc)
    } else {
        match typed_expression(cx, es[k as int], None) {
            Err(kind) => Err(kind),
            Ok((e, _)) => typed_each(cx, es, k + 1, acc.push(e)),
        }
    }
}

/// The typed form of a path and its type. The first name is a variable in
/// scope or a constant; each segment then goes from the type it finds to
/// the type of a slot or of an element.
#[verifier::opaque]
pub open spec fn typed_path(cx: Context, path: PathExprView) -> Typed
    decreases path, 0nat,
{
    match find_variable_in(cx.scope.variables, path.first) {
        Some(i) => typed_segments(
            cx,
            path.extra,
            0,
            variable_expr(cx.scope.variables[i]),
            cx.scope.variables[i].ty,
        ),
        None => match find_constant_in(cx.env.constants, path.first, 0) {
            Some(i) => typed_segments(
                cx,
                path.extra,
                0,
                TExprView::TConstVar(cx.env.constants[i].name, cx.env.constants[i].ty),
                cx.env.constants[i].ty,
            ),
            None => Err(TypeErrorKind::UndefinedSymbol),
        },
    }
}

/// The type of the slot `name` of the record whose values are of type `ty`.
pub open spec fn record_slot_ty(
    records: Seq<RecordInfoView>,
    ty: TyView,
    name: Seq<char>,
) -> Result<
    TyView,
    TypeErrorKind,
> {
    match find_record_of_in(records, ty, 0) {
        None => Err(TypeErrorKind::TypeMismatch),
        Some(r) => match find_slot_in(records[r].slots, name, 0) {
            None => Err(TypeErrorKind::UndefinedSymbol),
            Some(s) => Ok(records[r].slots[s].ty),
        },
    }
}

/// The typed form of a place with the segments from index `k` on applied to
/// it, where `place` of type `ty` is what the earlier segments gave.
#[verifier::opaque]
pub open spec fn typed_segments(
    cx: Context,
    segments: Seq<PathSegmentView>,
    k: nat,
    place: TExprView,
    ty: TyView,
) -> Typed
    decreases segments, segments.len() - k,
{
    if k >= segments.len() {
        Ok((place, ty))
    } else {
        match segments[k as int] {
            PathSegmentView::SlotAccess(name) => match record_slot_ty(cx.env.records, ty, name) {
                Err(kind) => Err(kind),
                Ok(slot) => typed_segments(
                    cx,
                    segments,
                    k + 1,
                    TExprView::TSlotAccessor(Box::new(place), name, slot),
                    slot,
                ),
            },
            PathSegmentView::PtrSlotAccess(name) => match ty {
                TyView::Pointer(target) => match record_slot_ty(cx.env.records, *target, name) {
                    Err(kind) => Err(kind),
                    Ok(slot) => typed_segments(
                        cx,
                        segments,
                        k + 1,
                        TExprView::TPointerSlotAccessor(Box::new(place), name, slot),
                        slot,
                    ),
                },
                _ => Err(TypeErrorKind::TypeMismatch),
            },
            PathSegmentView::ArrayIndex(index) => match typed_expression(cx, *index, None) {
                Err(kind) => Err(kind),
                Ok((i, it)) => match index_ty(ty, it) {
                    Err(kind) => Err(kind),
                    Ok(element) => typed_segments(
                        cx,
                        segments,
                        k + 1,
                        if ty is Pointer {
                            TExprView::TArrayIndex(Box::new(place), Box::new(i), element)
                        } else {
                            TExprView::TSpanIndex(Box::new(place), Box::new(i), element)
                        },
                        element,
                    ),
                },
            },
        }
    }
}

/// The typed form of a call. The name is the name of a function in scope,
/// else of a record, in which case the call makes a record, else of a case
/// of a union, in which case it makes a value of the union, else of a
/// method of a typeclass.
#[verifier::opaque]
pub open spec fn typed_call(cx: Context, call: FnCallExprView) -> Typed
    decreases call, 1nat,
{
    match find_function_in(cx.env.functions, call.target, 0) {
        Some(i) => typed_function_call(cx, cx.env.functions[i], call),
        None => match find_record_in(cx.env.records, call.target, 0) {
            Some(r) => typed_record(cx, cx.env.records[r], call),
            None => match find_union_with_case_in(cx.env.unions, call.target, 0) {
                None => match find_method_in(cx.env.methods, call.target, 0) {
                    None => Err(TypeErrorKind::UndefinedSymbol),
                    Some(m) => typed_method_call(cx, cx.env.methods[m], call),
                },
                Some(u) => typed_union_case(
                    cx,
                    cx.env.unions[u],
                    cx.env.unions[u].cases[find_case_in(cx.env.unions[u].cases, call.target, 0)->0],
                    call,
                ),
            },
        },
    }
}

/// The types put for the type variables of a generic function in a call,
/// from the variable at index `k` on, added to those before. The type put
/// for a variable is the type of the argument for the first parameter
/// whose type is the variable: the variable must have such a parameter,
/// and the type must be one that the variable can stand for.
#[verifier::opaque]
pub open spec fn typed_instantiation(
    cx: Context,
    f: FunctionSigView,
    args: FnCallArgsView,
    k: nat,
    acc: Seq<TypeBindingView>,
) -> Result<Seq<TypeBindingView>, TypeErrorKind>
    decreases args, f.variables.len() - k + 1,
{
    if k >= f.variables.len() {
        Ok(acc)
    } else {
        match dispatch_position(f.params, f.variables[k as int].id, 0) {
            None => Err(TypeErrorKind::TypeMismatch),
            Some(i) => match typed_dispatch(cx, f.params[i], args, i) {
                Err(kind) => Err(kind),
                Ok(d) => if !instantiable(universe_of(f.variables[k as int].ty), d) {
                    Err(TypeErrorKind::UniverseMismatch)
                } else {
                    typed_instantiation(
                        cx,
                        f,
                        args,
                        k + 1,
                        acc.push(TypeBindingView { variable: f.variables[k as int].id, ty: d }),
                    )
                },
            },
        }
    }
}

/// Parameters with types put for their type variables.
pub open spec fn instantiated_params(
    params: Seq<ValueParameterView>,
    bindings: Seq<TypeBindingView>,
) -> Seq<ValueParameterView> {
    Seq::new(
        params.len(),
        |i: int| ValueParameterView {
            name: params[i].name,
            ty: instantiated(params[i].ty, bindings),
        },
    )
}

/// The typed form of a call of a function. In a call of a generic function
/// the types of the call are put for the type variables, all at once, and
/// the arguments are typed against the parameters that this gives.
#[verifier::opaque]
pub open spec fn typed_function_call(cx: Context, f: FunctionSigView, call: FnCallExprView) -> Typed
    decreases call, 0nat,
{
    if f.variables.len() == 0 {
        match typed_arguments(cx, f.params, call.args) {
            Err(kind) => Err(kind),
            Ok(args) => Ok((TExprView::TFuncall(f.id, f.name, boxed(args), f.ret), f.ret)),
        }
    } else {
        match typed_instantiation(cx, f, call.args, 0, Seq::empty()) {
            Err(kind) => Err(kind),
            Ok(bindings) => match typed_arguments(
                cx,
                instantiated_params(f.params, bindings),
                call.args,
            ) {
                Err(kind) => Err(kind),
                Ok(args) => Ok(
                    (
                        TExprView::TFuncall(
                            f.id,
                            f.name,
                            boxed(args),
                            instantiated(f.ret, bindings),
                        ),
                        instantiated(f.ret, bindings),
                    ),
                ),
            },
        }
    }
}

/// The typed form of a call that makes a record.
#[verifier::opaque]
pub open spec fn typed_record(cx: Context, record: RecordInfoView, call: FnCallExprView) -> Typed
    decreases call, 0nat,
{
    match typed_arguments(cx, record.slots, call.args) {
        Err(kind) => Err(kind),
        Ok(args) => Ok(
            (TExprView::TRecordConstructor(record.ty, filled(record.slots, args)), record.ty),
        ),
    }
}

/// The typed form of a call that makes a value of a union.
#[verifier::opaque]
pub open spec fn typed_union_case(
    cx: Context,
    union: UnionInfoView,
    case: CaseInfoView,
    call: FnCallExprView,
) -> Typed
    decreases call, 0nat,
{
    match typed_arguments(cx, case.slots, call.args) {
        Err(kind) => Err(kind),
        Ok(args) => Ok(
            (TExprView::TUnionConstructor(union.ty, case.name, filled(case.slots, args)), union.ty),
        ),
    }
}

/// The typed arguments of a call, in the order of the parameters. There
/// must be as many arguments as parameters; named arguments must name
/// every parameter, and none twice; and each argument, typed as its
/// parameter asks, must be of the parameter's type.
#[verifier::opaque]
pub open spec fn typed_arguments(
    cx: Context,
    params: Seq<ValueParameterView>,
    args: FnCallArgsView,
) -> Result<
    Seq<TExprView>,
    TypeErrorKind,
>
    decreases args, 0nat,
{
    match args {
        FnCallArgsView::Empty => if params.len() == 0 {
            Ok(Seq::empty())
        } else {
            Err(TypeErrorKind::ArityMismatch)
        },
        FnCallArgsView::Positional(values) => if values.len() != params.len() {
            Err(TypeErrorKind::ArityMismatch)
        } else {
            typed_positional(cx, params, values, 0, Seq::empty())
        },
        FnCallArgsView::Named(pairs) => if pairs.len() != params.len() || !all_named(
            params,
            pairs,
            0,
        ) || !named_once(pairs) {
            Err(TypeErrorKind::ArityMismatch)
        } else {
            typed_named(cx, params, pairs, 0, Seq::empty())
        },
    }
}

/// An argument typed as its parameter asks: it must then be of the
/// parameter's type.
#[verifier::opaque]
pub open spec fn typed_argument(
    cx: Context,
    param: ValueParameterView,
    value: ExpressionView,
) -> Result<
    TExprView,
    TypeErrorKind,
>
    decreases value, 4nat,
{
    match typed_expression(cx, value, Some(param.ty)) {
        Err(kind) => Err(kind),
        Ok((e, t)) => if t == param.ty {
            Ok(e)
        } else {
            Err(TypeErrorKind::TypeMismatch)
        },
    }
}

/// The positional arguments from index `k` on, typed, added to those
/// before.
#[verifier::opaque]
pub open spec fn typed_positional(
    cx: Context,
    params: Seq<ValueParameterView>,
    values: Seq<ExpressionView>,
    k: nat,
    acc: Seq<TExprView>,
) -> Result<Seq<TExprView>, TypeErrorKind>
    decreases values, values.len() - k,
{
    if k >= values.len() || k >= params.len() {
        Ok(acc)
    } else {
        match typed_argument(cx, params[k as int], values[k as int]) {
            Err(kind) => Err(kind),
            Ok(e) => typed_positional(cx, params, values, k + 1, acc.push(e)),
        }
    }
}

/// The named arguments of the parameters from index `k` on, typed, added to
/// those before.
#[verifier::opaque]
pub open spec fn typed_named(
    cx: Context,
    params: Seq<ValueParameterView>,
    pairs: Seq<NamedArgView>,
    k: nat,
    acc: Seq<TExprView>,
) -> Result<Seq<TExprView>, TypeErrorKind>
    decreases pairs, params.len() - k,
{
    if k >= params.len() {
        Ok(acc)
    } else {
        match find_named_arg_in(pairs, params[k as int].name, 0) {
            None => Err(TypeErrorKind::ArityMismatch),
            Some(j) => if 0 <= j < pairs.len() {
                match typed_argument(cx, params[k as int], pairs[j].value) {
                    Err(kind) => Err(kind),
                    Ok(e) => typed_named(cx, params, pairs, k + 1, acc.push(e)),
                }
            } else {
                Err(TypeErrorKind::ArityMismatch)
            },
        }
    }
}

/// The two operands of a compound expression that has two.
pub open spec fn operands_of(c: CompoundExprView) -> Option<(AtomicExprView, AtomicExprView)> {
    match c {
        CompoundExprView::Cmp(e) => Some((comparison_parts(e).1, comparison_parts(e).2)),
        CompoundExprView::Logic(LogicExprView::And(a, b)) => Some((a, b)),
        CompoundExprView::Logic(LogicExprView::Or(a, b)) => Some((a, b)),
        CompoundExprView::Arith(ArithExprView::Neg(_)) => None,
        CompoundExprView::Arith(e) => Some((arithmetic_parts(e).1, arithmetic_parts(e).2)),
        _ => None,
    }
}

/// The expression of two typed operands and the operator of `c`, by the
/// rule of the operator.
pub open spec fn combined(
    c: CompoundExprView,
    a: (TExprView, TyView),
    b: (TExprView, TyView),
) -> Typed {
    match c {
        CompoundExprView::Cmp(e) => match comparison_ty(a.1, b.1) {
            Err(kind) => Err(kind),
            Ok(t) => Ok(
                (TExprView::TComparison(comparison_parts(e).0, Box::new(a.0), Box::new(b.0)), t),
            ),
        },
        CompoundExprView::Logic(LogicExprView::Or(_, _)) => match logic_ty(a.1, b.1) {
            Err(kind) => Err(kind),
            Ok(t) => Ok((TExprView::TDisjunction(Box::new(a.0), Box::new(b.0)), t)),
        },
        CompoundExprView::Logic(_) => match logic_ty(a.1, b.1) {
            Err(kind) => Err(kind),
            Ok(t) => Ok((TExprView::TConjunction(Box::new(a.0), Box::new(b.0)), t)),
        },
        CompoundExprView::Arith(e) => match arithmetic_ty(a.1, b.1) {
            Err(kind) => Err(kind),
            Ok(t) => Ok(
                (TExprView::TArithmetic(arithmetic_parts(e).0, Box::new(a.0), Box::new(b.0)), t),
            ),
        },
        _ => Err(TypeErrorKind::TypeMismatch),
    }
}

/// The negative of a typed operand: nought less the operand.
pub open spec fn negative(a: TExprView, t: TyView) -> TExprView {
    TExprView::TArithmetic(
        ArithmeticOperator::Subtract,
        Box::new(TExprView::TCast(Box::new(TExprView::TIntConstant(decimal_digits(0))), t)),
        Box::new(a),
    )
}

/// The typed form of a compound expression, and its type.
#[verifier::opaque]
pub open spec fn typed_compound(cx: Context, c: CompoundExprView, expected: Option<TyView>) -> Typed
    decreases c, 2nat,
{
    match c {
        CompoundExprView::Logic(LogicExprView::Not(operand)) => typed_not(cx, operand),
        CompoundExprView::Arith(ArithExprView::Neg(operand)) => typed_negative(
            cx,
            operand,
            expected,
        ),
        CompoundExprView::Select(e) => typed_select(cx, e, expected),
        CompoundExprView::Cast(e) => typed_cast(cx, e),
        _ => typed_binary(cx, c, expected),
    }
}

/// The typed form of `not a`.
#[verifier::opaque]
pub open spec fn typed_not(cx: Context, operand: AtomicExprView) -> Typed
    decreases operand, 3nat,
{
    match typed_atomic(cx, operand, None) {
        Err(kind) => Err(kind),
        Ok((a, at)) => match negation_ty(at) {
            Err(kind) => Err(kind),
            Ok(t) => Ok((TExprView::TNegation(Box::new(a)), t)),
        },
    }
}

/// The typed form of `-a`.
#[verifier::opaque]
pub open spec fn typed_negative(
    cx: Context,
    operand: AtomicExprView,
    expected: Option<TyView>,
) -> Typed
    decreases operand, 3nat,
{
    match typed_atomic(cx, operand, expected) {
        Err(kind) => Err(kind),
        Ok((a, at)) => match minus_ty(at) {
            Err(kind) => Err(kind),
            Ok(t) => Ok((negative(a, t), t)),
        },
    }
}

/// The typed form of `if c then a else b`.
#[verifier::opaque]
pub open spec fn typed_select(cx: Context, e: SelectExprView, expected: Option<TyView>) -> Typed
    decreases e, 1nat,
{
    match typed_expression(cx, *e.condition, Some(TyView::Boolean)) {
        Err(kind) => Err(kind),
        Ok((c, ct)) => match typed_expression(cx, *e.value_true, expected) {
            Err(kind) => Err(kind),
            Ok((a, at)) => match typed_expression(cx, *e.value_false, Some(at)) {
                Err(kind) => Err(kind),
                Ok((b, bt)) => match conditional_ty(ct, at, bt) {
                    Err(kind) => Err(kind),
                    Ok(t) => Ok((TExprView::TIfExpression(Box::new(c), Box::new(a), Box::new(b)), t)),
                },
            },
        },
    }
}

/// The typed form of `e : T`: the operand is typed as `T` asks; if it is of
/// type `T` then, it is the cast; else it is cast if the rule of casts
/// allows.
#[verifier::opaque]
pub open spec fn typed_cast(cx: Context, e: CastExprView) -> Typed
    decreases e, 1nat,
{
    match resolved_ty(cx.scope.types, cx.scope.regions, e.ty) {
        Err(kind) => Err(kind),
        Ok(target) => match typed_atomic(cx, e.value, Some(target)) {
            Err(kind) => Err(kind),
            Ok((value, from)) => match cast_ty(from, target) {
                Err(kind) => Err(kind),
                Ok(t) => Ok((literal_as(value, from, t), t)),
            },
        },
    }
}

/// The typed form of a compound expression of two operands. The first
/// operand is typed first, and the second as the type of the first asks, so
/// that a number written out takes the type of the other operand; if only
/// the first operand is a number written out, the second is typed first.
/// Arithmetic hands the type asked of it on to its operands.
#[verifier::opaque]
pub open spec fn typed_binary(cx: Context, c: CompoundExprView, expected: Option<TyView>) -> Typed
    decreases c, 1nat,
{
    match operands_of(c) {
        None => Err(TypeErrorKind::TypeMismatch),
        Some((lhs, rhs)) => {
            let wanted = if c is Arith {
                expected
            } else {
                None
            };
            if is_number_literal(lhs) && !is_number_literal(rhs) {
                match typed_atomic(cx, rhs, wanted) {
                    Err(kind) => Err(kind),
                    Ok(second) => match typed_atomic(cx, lhs, Some(second.1)) {
                        Err(kind) => Err(kind),
                        Ok(first) => combined(c, first, second),
                    },
                }
            } else {
                match typed_atomic(cx, lhs, wanted) {
                    Err(kind) => Err(kind),
                    Ok(first) => match typed_atomic(cx, rhs, Some(first.1)) {
                        Err(kind) => Err(kind),
                        Ok(second) => combined(c, first, second),
                    },
                }
            }
        },
    }
}

/// The operator and the operands of a comparison.
pub open spec fn comparison_parts(e: CmpExprView) -> (
    ComparisonOperator,
    AtomicExprView,
    AtomicExprView,
) {
    match e {
        CmpExprView::Eq(a, b) => (ComparisonOperator::Equal, a, b),
        CmpExprView::NotEq(a, b) => (ComparisonOperator::NotEqual, a, b),
        CmpExprView::Lt(a, b) => (ComparisonOperator::LessThan, a, b),
        CmpExprView::LtEq(a, b) => (ComparisonOperator::LessThanOrEqual, a, b),
        CmpExprView::Gt(a, b) => (ComparisonOperator::GreaterThan, a, b),
        CmpExprView::GtEq(a, b) => (ComparisonOperator::GreaterThanOrEqual, a, b),
    }
}

/// The operator and the operands of a binary arithmetic expression.
pub open spec fn arithmetic_parts(e: ArithExprView) -> (
    ArithmeticOperator,
    AtomicExprView,
    AtomicExprView,
) {
    match e {
        ArithExprView::Add(a, b) => (ArithmeticOperator::Add, a, b),
        ArithExprView::Sub(a, b) => (ArithmeticOperator::Subtract, a, b),
        ArithExprView::Mul(a, b) => (ArithmeticOperator::Multiply, a, b),
        ArithExprView::Div(a, b) => (ArithmeticOperator::Divide, a, b),
        ArithExprView::Neg(a) => (ArithmeticOperator::Subtract, a, a),
    }
}

/// The context of the type checker as a plain value.
pub open spec fn context(env: &Env, scope: &Scope) -> Context {
    Context { env: env.deep_view(), scope: scope.deep_view() }
}

fn int_constant(text: String) -> (r: TExpr)
    ensures
        r.deep_view() == TExprView::TIntConstant(text@),
{
    TExpr::TIntConstant(text)
}

fn cast_node(e: TExpr, ty: Ty) -> (r: TExpr)
    ensures
        r.deep_view() == TExprView::TCast(Box::new(e.deep_view()), ty@),
{
    TExpr::TCast(Box::new(e), ty)
}

fn literal_with(e: TExpr, natural: Ty, ty: Ty) -> (r: (TExpr, Ty))
    ensures
        r.0.deep_view() == literal_as(e.deep_view(), natural@, ty@),
        r.1@ == ty@,
{
    if ty.equals(&natural) {
        (e, ty)
    } else {
        (TExpr::TCast(Box::new(e), ty.clone()), ty)
    }
}

fn current_region(scope: &Scope) -> (r: Result<Region, TypeErrorKind>)
    ensures
        r == innermost_region(scope.deep_view().regions),
{
    let n = scope.regions.len();
    if n == 0 {
        Err(TypeErrorKind::UndefinedSymbol)
    } else {
        assert(scope.deep_view().regions.last() == scope.regions[n - 1].deep_view());
        Ok(scope.regions[n - 1].region)
    }
}

fn number_literal(a: &AtomicExpr) -> (r: bool)
    ensures
        r == is_number_literal(a.deep_view()),
{
    match a {
        AtomicExpr::ConstInt(_) => true,
        AtomicExpr::ConstFloat(_) => true,
        _ => false,
    }
}

fn variable_node(v: &Variable) -> (r: TExpr)
    ensures
        r.deep_view() == variable_expr(v.deep_view()),
{
    match v.kind {
        VariableKind::Parameter => TExpr::TParamVar(v.name.clone(), v.ty.clone()),
        VariableKind::Local => TExpr::TLocalVar(v.name.clone(), v.ty.clone()),
    }
}

/// Types an expression: its typed form and its type, or the kind of error
/// it holds.
pub fn type_expression(env: &Env, scope: &Scope, e: &Expression, expected: Option<&Ty>) -> (r: Result<
    (TExpr, Ty),
    TypeErrorKind,
>)
    ensures
        typed_as(r, typed_expression(context(env, scope), e.deep_view(), asked(expected))),
    decreases e, 3nat,
{
    proof {
        reveal(typed_expression);
        reveal(typed_atomic);
        reveal(typed_compound);
    }
    match e {
        Expression::Atomic(a) => type_atomic(env, scope, a, expected),
        Expression::Compound(c) => type_compound(env, scope, c, expected),
    }
}

/// Types an atomic expression.
pub fn type_atomic(env: &Env, scope: &Scope, a: &AtomicExpr, expected: Option<&Ty>) -> (r: Result<
    (TExpr, Ty),
    TypeErrorKind,
>)
    ensures
        typed_as(r, typed_atomic(context(env, scope), a.deep_view(), asked(expected))),
    decreases a, 2nat,
{
    proof {
        reveal(typed_atomic);
        reveal(typed_expression);
        reveal(typed_ref_path);
        reveal(typed_embed);
        reveal(typed_deref);
        reveal(typed_path);
        reveal(typed_call);
    }
    match a {
        AtomicExpr::FnCall(call) => type_call(env, scope, call),
        AtomicExpr::Path(path) => type_path(env, scope, path),
        AtomicExpr::RefPath(path) => type_ref_path(env, scope, path),
        AtomicExpr::Paren(inner) => type_expression(env, scope, inner, expected),
        AtomicExpr::Intrinsic(intrinsic) => type_embed(env, scope, intrinsic),
        AtomicExpr::SizeOf(spec) => {
            let t = resolve_type(&scope.types, &scope.regions, spec)?;
            Ok((TExpr::TSizeOf(t), size_type()))
        },
        AtomicExpr::BorrowRead(name) => type_borrow(env, scope, name, BorrowingMode::ReadBorrow),
        AtomicExpr::BorrowWrite(name) => type_borrow(env, scope, name, BorrowingMode::WriteBorrow),
        AtomicExpr::ReBorrow(name) => type_reborrow(env, scope, name),
        AtomicExpr::Deref(inner) => type_deref(env, scope, inner),
        _ => Ok(type_constant(a, expected)),
    }
}

/// Types a constant.
fn type_constant(a: &AtomicExpr, expected: Option<&Ty>) -> (r: (TExpr, Ty))
    ensures
        typed_constant(a.deep_view(), asked(expected)) == Ok::<(TExprView, TyView), TypeErrorKind>(
            (r.0.deep_view(), r.1@),
        ),
{
    match a {
        AtomicExpr::ConstBool(b) => (TExpr::TBoolConstant(*b), Ty::Boolean),
        AtomicExpr::ConstChar(c) => {
            let code = decimal_text(*c as u64);
            (cast_node(int_constant(code), char_type()), char_type())
        },
        AtomicExpr::ConstInt(n) => {
            let ty = integer_literal_type(*n, expected);
            literal_with(TExpr::TIntConstant(decimal_text(*n)), int32_type(), ty)
        },
        AtomicExpr::ConstFloat(s) => {
            let ty = float_literal_type(expected);
            literal_with(TExpr::TFloatConstant(s.clone()), Ty::DoubleFloat, ty)
        },
        AtomicExpr::ConstStr(s) => (TExpr::TStringConstant(s.clone()), string_type()),
        _ => (TExpr::TNilConstant, Ty::Unit),
    }
}

fn type_ref_path(
    env: &Env,
    scope: &Scope,
    path: &PathExpr,
) -> (r: Result<(TExpr, Ty), TypeErrorKind>)
    ensures
        typed_as(r, typed_ref_path(context(env, scope), path.deep_view())),
    decreases path, 1nat,
{
    proof {
        reveal(typed_ref_path);
        reveal(typed_path);
    }
    let (place, t) = type_path(env, scope, path)?;
    let region = current_region(scope)?;
    let ty = borrow_type(BorrowingMode::ReadBorrow, &t, region);
    Ok((TExpr::TRefPath(Box::new(place), ty.clone()), ty))
}

fn type_embed(
    env: &Env,
    scope: &Scope,
    intrinsic: &IntrinExpr,
) -> (r: Result<(TExpr, Ty), TypeErrorKind>)
    ensures
        typed_as(r, typed_embed(context(env, scope), intrinsic.deep_view())),
    decreases intrinsic, 1nat,
{
    proof {
        reveal(typed_embed);
        reveal(typed_each);
    }
    match intrinsic {
        IntrinExpr::Embed { ty, exp, args } => {
            assert(intrinsic.deep_view()->Embed_args =~= args.deep_view());
            let t = resolve_type(&scope.types, &scope.regions, ty)?;
            let values = type_each(env, scope, args)?;
            let ghost listed = values.deep_view();
            let node = TExpr::TEmbed(t.clone(), exp.clone(), values);
            assert(node.deep_view()->TEmbed_2 =~= boxed(listed));
            Ok((node, t))
        },
    }
}

fn type_reborrow(env: &Env, scope: &Scope, name: &Ident) -> (r: Result<(TExpr, Ty), TypeErrorKind>)
    ensures
        typed_as(r, typed_reborrow(context(env, scope), name.deep_view())),
{
    match find_variable(&scope.variables, name) {
        None => Err(TypeErrorKind::UndefinedSymbol),
        Some(i) => {
            let region = current_region(scope)?;
            assert(scope.deep_view().variables[i as int] == scope.variables[i as int].deep_view());
            match &scope.variables[i].ty {
                Ty::WriteRef(t, _) => {
                    let ty = borrow_type(BorrowingMode::WriteBorrow, t, region);
                    Ok((TExpr::TReborrow(name_of(name), region, ty.clone()), ty))
                },
                _ => Err(TypeErrorKind::TypeMismatch),
            }
        },
    }
}

fn type_deref(
    env: &Env,
    scope: &Scope,
    inner: &AtomicExpr,
) -> (r: Result<(TExpr, Ty), TypeErrorKind>)
    ensures
        typed_as(r, typed_deref(context(env, scope), inner.deep_view())),
    decreases inner, 3nat,
{
    proof {
        reveal(typed_deref);
        reveal(typed_atomic);
    }
    let (e, t) = type_atomic(env, scope, inner, None)?;
    let target = deref_type(&t)?;
    Ok((TExpr::TDeref(Box::new(e)), target))
}

fn int32_type() -> (r: Ty)
    ensures
        r@ == int32(),
{
    Ty::Integer(Signedness::Signed, IntegerWidth::Width32)
}

fn type_borrow(env: &Env, scope: &Scope, name: &Ident, mode: BorrowingMode) -> (r: Result<
    (TExpr, Ty),
    TypeErrorKind,
>)
    ensures
        typed_as(r, typed_borrow(context(env, scope), name.deep_view(), mode)),
{
    match find_variable(&scope.variables, name) {
        None => Err(TypeErrorKind::UndefinedSymbol),
        Some(i) => {
            let region = current_region(scope)?;
            assert(scope.deep_view().variables[i as int] == scope.variables[i as int].deep_view());
            let ty = borrow_type(mode, &scope.variables[i].ty, region);
            Ok((TExpr::TBorrowExpr(mode, name_of(name), region, ty.clone()), ty))
        },
    }
}

/// Types each of a list of expressions, none with a type asked for.
fn type_each(env: &Env, scope: &Scope, es: &Vec<Expression>) -> (r: Result<
    Vec<Box<TExpr>>,
    TypeErrorKind,
>)
    ensures
        typed_list_as(r, typed_each(context(env, scope), es.deep_view(), 0, Seq::empty())),
    decreases es, 0nat,
{
    proof {
        reveal(typed_each);
        reveal(typed_expression);
    }
    let mut out: Vec<Box<TExpr>> = Vec::new();
    let mut k: usize = 0;
    assert(out.deep_view() =~= Seq::empty());
    while k < es.len()
        invariant
            0 <= k <= es.len(),
            typed_each(context(env, scope), es.deep_view(), 0, Seq::empty()) == typed_each(
                context(env, scope),
                es.deep_view(),
                k as nat,
                out.deep_view(),
            ),
        decreases es.len() - k,
    {
        proof {
            reveal(typed_each);
            reveal(typed_expression);
        }
        assert(es.deep_view()[k as int] == es[k as int].deep_view());
        let (e, _) = type_expression(env, scope, &es[k], None)?;
        let ghost before = out.deep_view();
        let ghost added = e.deep_view();
        out.push(Box::new(e));
        assert(out.deep_view() =~= before.push(added));
        k = k + 1;
    }
    Ok(out)
}

/// Types a path.
pub fn type_path(
    env: &Env,
    scope: &Scope,
    path: &PathExpr,
) -> (r: Result<(TExpr, Ty), TypeErrorKind>)
    ensures
        typed_as(r, typed_path(context(env, scope), path.deep_view())),
    decreases path, 0nat,
{
    proof {
        reveal(typed_path);
        reveal(typed_segments);
    }
    assert(path.deep_view().extra =~= path.extra.deep_view());
    match find_variable(&scope.variables, &path.first) {
        Some(i) => {
            assert(scope.deep_view().variables[i as int] == scope.variables[i as int].deep_view());
            let head = variable_node(&scope.variables[i]);
            let ty = scope.variables[i].ty.clone();
            type_segments(env, scope, &path.extra, head, ty)
        },
        None => match find_constant(&env.constants, &path.first) {
            Some(i) => {
                assert(env.deep_view().constants[i as int] == env.constants[i as int].deep_view());
                let head = TExpr::TConstVar(
                    env.constants[i].name.clone(),
                    env.constants[i].ty.clone(),
                );
                let ty = env.constants[i].ty.clone();
                type_segments(env, scope, &path.extra, head, ty)
            },
            None => Err(TypeErrorKind::UndefinedSymbol),
        },
    }
}

fn record_slot_type(
    records: &Vec<RecordInfo>,
    ty: &Ty,
    name: &Ident,
) -> (r: Result<Ty, TypeErrorKind>)
    ensures
        gives_ty(r, record_slot_ty(records.deep_view(), ty@, name.deep_view())),
{
    match find_record_of(records, ty) {
        None => Err(TypeErrorKind::TypeMismatch),
        Some(i) => {
            assert(records.deep_view()[i as int] == records[i as int].deep_view());
            match find_slot(&records[i].slots, name) {
                None => Err(TypeErrorKind::UndefinedSymbol),
                Some(s) => {
                    assert(records[i as int].slots.deep_view()[s as int] == records[i as int].slots[s as int].deep_view());
                    Ok(records[i].slots[s].ty.clone())
                },
            }
        },
    }
}

fn is_pointer(ty: &Ty) -> (r: bool)
    ensures
        r == (ty@ is Pointer),
{
    match ty {
        Ty::Pointer(_) => true,
        _ => false,
    }
}

fn type_segments(env: &Env, scope: &Scope, segments: &Vec<PathSegment>, head: TExpr, head_ty: Ty) -> (r: Result<
    (TExpr, Ty),
    TypeErrorKind,
>)
    ensures
        typed_as(
            r,
            typed_segments(
                context(env, scope),
                segments.deep_view(),
                0,
                head.deep_view(),
                head_ty@,
            ),
        ),
    decreases segments, 0nat,
{
    proof {
        reveal(typed_segments);
        reveal(typed_expression);
    }
    let mut place = head;
    let mut ty = head_ty;
    let mut k: usize = 0;
    while k < segments.len()
        invariant
            0 <= k <= segments.len(),
            typed_segments(context(env, scope), segments.deep_view(), 0, head.deep_view(), head_ty@)
                == typed_segments(
                context(env, scope),
                segments.deep_view(),
                k as nat,
                place.deep_view(),
                ty@,
            ),
        decreases segments.len() - k,
    {
        proof {
            reveal(typed_segments);
            reveal(typed_expression);
        }
        assert(segments.deep_view()[k as int] == segments[k as int].deep_view());
        match &segments[k] {
            PathSegment::SlotAccess(name) => {
                let slot = record_slot_type(&env.records, &ty, name)?;
                place = TExpr::TSlotAccessor(Box::new(place), name_of(name), slot.clone());
                ty = slot;
            },
            PathSegment::PtrSlotAccess(name) => {
                let slot = match &ty {
                    Ty::Pointer(target) => record_slot_type(&env.records, target, name)?,
                    _ => {
                        return Err(TypeErrorKind::TypeMismatch);
                    },
                };
                place = TExpr::TPointerSlotAccessor(Box::new(place), name_of(name), slot.clone());
                ty = slot;
            },
            PathSegment::ArrayIndex(index) => {
                let (i, it) = type_expression(env, scope, index, None)?;
                let element = index_type(&ty, &it)?;
                if is_pointer(&ty) {
                    place = TExpr::TArrayIndex(Box::new(place), Box::new(i), element.clone());
                } else {
                    place = TExpr::TSpanIndex(Box::new(place), Box::new(i), element.clone());
                }
                ty = element;
            },
        }
        k = k + 1;
    }
    Ok((place, ty))
}

fn find_union_with_case(unions: &Vec<UnionInfo>, name: &Ident) -> (r: Option<(usize, usize)>)
    ensures
        match find_union_with_case_in(unions.deep_view(), name.deep_view(), 0) {
            Some(u) => r matches Some(found) && found.0 == u && 0 <= u < unions.len()
                && find_case_in(unions.deep_view()[u].cases, name.deep_view(), 0) == Some(
                found.1 as int,
            ) && found.1 < unions[u].cases.len(),
            None => r is None,
        },
{
    let mut k: usize = 0;
    while k < unions.len()
        invariant
            0 <= k <= unions.len(),
            find_union_with_case_in(unions.deep_view(), name.deep_view(), 0)
                == find_union_with_case_in(unions.deep_view(), name.deep_view(), k as int),
        decreases unions.len() - k,
    {
        assert(unions.deep_view()[k as int] == unions[k as int].deep_view());
        match find_case(&unions[k].cases, name) {
            Some(c) => {
                return Some((k, c));
            },
            None => {},
        }
        k = k + 1;
    }
    None
}

/// The slots with the expressions that fill them, pair by pair.
fn pair_up(slots: &Vec<ValueParameter>, args: Vec<Box<TExpr>>) -> (r: Vec<(Identifier, Box<TExpr>)>)
    requires
        slots.len() == args.len(),
    ensures
        paired(r@, slots@, args@),
{
    let ghost all = args@;
    let mut rest = args;
    let mut reversed: Vec<(Identifier, Box<TExpr>)> = Vec::new();
    while rest.len() > 0
        invariant
            slots.len() == all.len(),
            reversed.len() + rest.len() == all.len(),
            forall|i: int| 0 <= i < rest.len() ==> rest[i] == all[i],
            forall|i: int|
                0 <= i < reversed.len() ==> reversed[i].1 == all[all.len() - 1 - i] && reversed[i].0@
                    == slots[all.len() - 1 - i].name@,
        decreases rest.len(),
    {
        let k = rest.len() - 1;
        let ghost taken = rest[k as int];
        assert(taken == all[k as int]);
        match rest.pop() {
            Some(e) => {
                assert(e == taken);
                reversed.push((slots[k].name.clone(), e));
                assert(reversed[reversed.len() - 1].1 == all[all.len() - 1 - (reversed.len() - 1)]);
            },
            None => {},
        }
    }
    let mut out: Vec<(Identifier, Box<TExpr>)> = Vec::new();
    while reversed.len() > 0
        invariant
            slots.len() == all.len(),
            out.len() + reversed.len() == all.len(),
            forall|i: int|
                0 <= i < reversed.len() ==> reversed[i].1 == all[all.len() - 1 - i] && reversed[i].0@
                    == slots[all.len() - 1 - i].name@,
            forall|i: int|
                0 <= i < out.len() ==> (#[trigger] out[i]).1 == all[i] && out[i].0@ == slots[i].name@,
        decreases reversed.len(),
    {
        let ghost last = reversed[reversed.len() - 1];
        assert(last.1 == all[out.len() as int] && last.0@ == slots[out.len() as int].name@);
        match reversed.pop() {
            Some(pair) => {
                assert(pair == last);
                out.push(pair);
            },
            None => {},
        }
    }
    out
}

/// Whether pairs are the given slots' names with the given expressions, in
/// order.
pub open spec fn paired(
    pairs: Seq<(Identifier, Box<TExpr>)>,
    slots: Seq<ValueParameter>,
    args: Seq<Box<TExpr>>,
) -> bool {
    &&& pairs.len() == args.len()
    &&& forall|i: int|
        0 <= i < pairs.len() ==> (#[trigger] pairs[i]).1 == args[i] && pairs[i].0@ == slots[i].name@
}

/// Types a call.
pub fn type_call(
    env: &Env,
    scope: &Scope,
    call: &FnCallExpr,
) -> (r: Result<(TExpr, Ty), TypeErrorKind>)
    ensures
        typed_as(r, typed_call(context(env, scope), call.deep_view())),
    decreases call, 1nat,
{
    proof {
        reveal(typed_call);
        reveal(typed_function_call);
        reveal(typed_record);
        reveal(typed_union_case);
        reveal(typed_method_call);
    }
    match find_function(&env.functions, &call.target) {
        Some(i) => {
            assert(env.deep_view().functions[i as int] == env.functions[i as int].deep_view());
            type_function_call(env, scope, &env.functions[i], call)
        },
        None => match find_record(&env.records, &call.target) {
            Some(i) => {
                assert(env.deep_view().records[i as int] == env.records[i as int].deep_view());
                type_record(env, scope, &env.records[i], call)
            },
            None => match find_union_with_case(&env.unions, &call.target) {
                None => match find_method(&env.methods, &call.target) {
                    None => Err(TypeErrorKind::UndefinedSymbol),
                    Some(m) => {
                        assert(env.deep_view().methods[m as int] == env.methods[m as int].deep_view());
                        type_method_call(env, scope, &env.methods[m], call)
                    },
                },
                Some((u, c)) => {
                    assert(env.deep_view().unions[u as int] == env.unions[u as int].deep_view());
                    assert(env.unions[u as int].cases.deep_view()[c as int] == env.unions[u as int].cases[c as int].deep_view());
                    type_union_case(env, scope, &env.unions[u], &env.unions[u].cases[c], call)
                },
            },
        },
    }
}

fn type_function_call(env: &Env, scope: &Scope, f: &FunctionSig, call: &FnCallExpr) -> (r: Result<
    (TExpr, Ty),
    TypeErrorKind,
>)
    ensures
        typed_as(r, typed_function_call(context(env, scope), f.deep_view(), call.deep_view())),
    decreases call, 0nat,
{
    proof {
        reveal(typed_function_call);
        reveal(typed_arguments);
        reveal(typed_instantiation);
    }
    if f.variables.len() == 0 {
        let args = type_arguments(env, scope, &f.params, &call.args)?;
        let ghost listed = args.deep_view();
        let node = TExpr::TFuncall(f.id, f.name.clone(), args, f.ret.clone());
        assert(node.deep_view()->TFuncall_2 =~= boxed(listed));
        Ok((node, f.ret.clone()))
    } else {
        let bindings = type_instantiation(env, scope, f, &call.args)?;
        let params = instantiate_params(&f.params, &bindings);
        let args = type_arguments(env, scope, &params, &call.args)?;
        let ghost listed = args.deep_view();
        let ret = instantiate(&f.ret, &bindings);
        let node = TExpr::TFuncall(f.id, f.name.clone(), args, ret.clone());
        assert(node.deep_view()->TFuncall_2 =~= boxed(listed));
        Ok((node, ret))
    }
}

fn type_instantiation(env: &Env, scope: &Scope, f: &FunctionSig, args: &FnCallArgs) -> (r: Result<
    Vec<TypeBinding>,
    TypeErrorKind,
>)
    ensures
        match (
            r,
            typed_instantiation(
                context(env, scope),
                f.deep_view(),
                args.deep_view(),
                0,
                Seq::empty(),
            ),
        ) {
            (Ok(x), Ok(v)) => x.deep_view() == v,
            (Err(a), Err(b)) => a == b,
            _ => false,
        },
    decreases args, 1nat,
{
    proof {
        reveal(typed_instantiation);
        reveal(typed_dispatch);
    }
    let mut out: Vec<TypeBinding> = Vec::new();
    let mut k: usize = 0;
    assert(out.deep_view() =~= Seq::empty());
    while k < f.variables.len()
        invariant
            0 <= k <= f.variables.len(),
            typed_instantiation(
                context(env, scope),
                f.deep_view(),
                args.deep_view(),
                0,
                Seq::empty(),
            )
                == typed_instantiation(
                context(env, scope),
                f.deep_view(),
                args.deep_view(),
                k as nat,
                out.deep_view(),
            ),
        decreases f.variables.len() - k,
    {
        proof {
            reveal(typed_instantiation);
            reveal(typed_dispatch);
        }
        assert(f.deep_view().variables[k as int] == f.variables[k as int].deep_view());
        match dispatch_parameter(&f.params, f.variables[k].id) {
            None => {
                return Err(TypeErrorKind::TypeMismatch);
            },
            Some(i) => {
                assert(f.deep_view().params[i as int] == f.params[i as int].deep_view());
                let d = type_dispatch(env, scope, &f.params[i], args, i)?;
                if !can_instantiate(type_universe(&f.variables[k].ty), &d) {
                    return Err(TypeErrorKind::UniverseMismatch);
                }
                let added = TypeBinding { variable: f.variables[k].id, ty: d };
                let ghost before = out.deep_view();
                let ghost view = added.deep_view();
                out.push(added);
                assert(out.deep_view() =~= before.push(view));
            },
        }
        k = k + 1;
    }
    Ok(out)
}

/// Computes `instantiated_params`.
pub fn instantiate_params(params: &Vec<ValueParameter>, bindings: &Vec<TypeBinding>) -> (r: Vec<
    ValueParameter,
>)
    ensures
        r.deep_view() == instantiated_params(params.deep_view(), bindings.deep_view()),
{
    let mut out: Vec<ValueParameter> = Vec::new();
    let mut k: usize = 0;
    while k < params.len()
        invariant
            0 <= k <= params.len(),
            out.len() == k,
            forall|i: int|
                0 <= i < k ==> (#[trigger] out[i]).deep_view() == (ValueParameterView {
                    name: params[i].name@,
                    ty: instantiated(params[i].ty@, bindings.deep_view()),
                }),
        decreases params.len() - k,
    {
        out.push(
            ValueParameter {
                name: params[k].name.clone(),
                ty: instantiate(&params[k].ty, bindings),
            },
        );
        k = k + 1;
    }
    assert(out.deep_view() =~= instantiated_params(params.deep_view(), bindings.deep_view()));
    out
}

fn type_record(env: &Env, scope: &Scope, record: &RecordInfo, call: &FnCallExpr) -> (r: Result<
    (TExpr, Ty),
    TypeErrorKind,
>)
    ensures
        typed_as(r, typed_record(context(env, scope), record.deep_view(), call.deep_view())),
    decreases call, 0nat,
{
    proof {
        reveal(typed_record);
        reveal(typed_arguments);
    }
    let args = type_arguments(env, scope, &record.slots, &call.args)?;
    let ghost listed = args.deep_view();
    proof {
        lemma_typed_arguments_len(
            context(env, scope),
            record.slots.deep_view(),
            call.args.deep_view(),
        );
    }
    let pairs = pair_up(&record.slots, args);
    let node = TExpr::TRecordConstructor(record.ty.clone(), pairs);
    assert(node.deep_view()->TRecordConstructor_1 =~= filled(record.slots.deep_view(), listed));
    Ok((node, record.ty.clone()))
}

fn type_union_case(env: &Env, scope: &Scope, union: &UnionInfo, case: &CaseInfo, call: &FnCallExpr) -> (r: Result<
    (TExpr, Ty),
    TypeErrorKind,
>)
    ensures
        typed_as(
            r,
            typed_union_case(
                context(env, scope),
                union.deep_view(),
                case.deep_view(),
                call.deep_view(),
            ),
        ),
    decreases call, 0nat,
{
    proof {
        reveal(typed_union_case);
        reveal(typed_arguments);
    }
    let args = type_arguments(env, scope, &case.slots, &call.args)?;
    let ghost listed = args.deep_view();
    proof {
        lemma_typed_arguments_len(
            context(env, scope),
            case.slots.deep_view(),
            call.args.deep_view(),
        );
    }
    let pairs = pair_up(&case.slots, args);
    let node = TExpr::TUnionConstructor(union.ty.clone(), case.name.clone(), pairs);
    assert(node.deep_view()->TUnionConstructor_2 =~= filled(case.slots.deep_view(), listed));
    Ok((node, union.ty.clone()))
}

/// The typed arguments of a call are as many as the parameters.
pub proof fn lemma_typed_arguments_len(
    cx: Context,
    params: Seq<ValueParameterView>,
    args: FnCallArgsView,
)
    ensures
        typed_arguments(cx, params, args) matches Ok(es) ==> es.len() == params.len(),
{
    reveal(typed_arguments);
    reveal(typed_positional);
    reveal(typed_named);
    reveal(typed_positional);
    reveal(typed_argument);
    reveal(typed_named);
    reveal(typed_argument);
    match args {
        FnCallArgsView::Positional(values) => {
            if values.len() == params.len() {
                lemma_typed_positional_len(cx, params, values, 0, Seq::empty());
            }
        },
        FnCallArgsView::Named(pairs) => {
            lemma_typed_named_len(cx, params, pairs, 0, Seq::empty());
        },
        FnCallArgsView::Empty => {},
    }
}

proof fn lemma_typed_positional_len(
    cx: Context,
    params: Seq<ValueParameterView>,
    values: Seq<ExpressionView>,
    k: nat,
    acc: Seq<TExprView>,
)
    requires
        values.len() == params.len(),
        k <= values.len(),
        acc.len() == k,
    ensures
        typed_positional(cx, params, values, k, acc) matches Ok(es) ==> es.len() == params.len(),
    decreases values.len() - k,
{
    reveal(typed_positional);
    reveal(typed_argument);
    reveal(typed_argument);
    reveal(typed_expression);
    if k < values.len() {
        if let Ok(e) = typed_argument(cx, params[k as int], values[k as int]) {
            lemma_typed_positional_len(cx, params, values, k + 1, acc.push(e));
        }
    }
}

proof fn lemma_typed_named_len(
    cx: Context,
    params: Seq<ValueParameterView>,
    pairs: Seq<NamedArgView>,
    k: nat,
    acc: Seq<TExprView>,
)
    requires
        k <= params.len(),
        acc.len() == k,
    ensures
        typed_named(cx, params, pairs, k, acc) matches Ok(es) ==> es.len() == params.len(),
    decreases params.len() - k,
{
    reveal(typed_named);
    reveal(typed_argument);
    reveal(typed_argument);
    reveal(typed_expression);
    if k < params.len() {
        if let Some(j) = find_named_arg_in(pairs, params[k as int].name, 0) {
            if 0 <= j < pairs.len() {
                if let Ok(e) = typed_argument(cx, params[k as int], pairs[j].value) {
                    lemma_typed_named_len(cx, params, pairs, k + 1, acc.push(e));
                }
            }
        }
    }
}

fn find_named_arg(pairs: &Vec<NamedArg>, name: &Identifier) -> (r: Option<usize>)
    ensures
        match find_named_arg_in(pairs.deep_view(), name@, 0) {
            Some(i) => r == Some(i as usize) && 0 <= i < pairs.len(),
            None => r is None,
        },
{
    let mut k: usize = 0;
    while k < pairs.len()
        invariant
            0 <= k <= pairs.len(),
            find_named_arg_in(pairs.deep_view(), name@, 0) == find_named_arg_in(
                pairs.deep_view(),
                name@,
                k as int,
            ),
        decreases pairs.len() - k,
    {
        assert(pairs.deep_view()[k as int] == pairs[k as int].deep_view());
        if names(&pairs[k].name, name) {
            return Some(k);
        }
        k = k + 1;
    }
    None
}

/// Whether no name is given two arguments.
pub open spec fn named_once(pairs: Seq<NamedArgView>) -> bool {
    forall|i: int, j: int| 0 <= i < j < pairs.len() ==> pairs[i].name != pairs[j].name
}

/// Computes `named_once`.
pub fn every_name_once(pairs: &Vec<NamedArg>) -> (r: bool)
    ensures
        r == named_once(pairs.deep_view()),
{
    let ghost pv = pairs.deep_view();
    let mut j: usize = 0;
    while j < pairs.len()
        invariant
            0 <= j <= pairs.len(),
            pv == pairs.deep_view(),
            forall|a: int, b: int| 0 <= a < b < j ==> pv[a].name != pv[b].name,
        decreases pairs.len() - j,
    {
        let mut i: usize = 0;
        while i < j
            invariant
                0 <= i <= j < pairs.len(),
                pv == pairs.deep_view(),
                forall|a: int| 0 <= a < i ==> pv[a].name != pv[j as int].name,
            decreases j - i,
        {
            assert(pv[i as int] == pairs[i as int].deep_view());
            assert(pv[j as int] == pairs[j as int].deep_view());
            if pairs[i].name.name == pairs[j].name.name {
                return false;
            }
            i = i + 1;
        }
        j = j + 1;
    }
    true
}

/// In a call that the checker accepts no name is given two arguments: the
/// named arguments of an accepted call are a map from the names of the
/// parameters to their values.
pub proof fn law_named_arguments_occur_once(
    cx: Context,
    params: Seq<ValueParameterView>,
    pairs: Seq<NamedArgView>,
)
    requires
        typed_arguments(cx, params, FnCallArgsView::Named(pairs)) is Ok,
    ensures
        named_once(pairs),
        pairs.len() == params.len(),
{
    reveal(typed_arguments);
}

fn every_parameter_named(params: &Vec<ValueParameter>, pairs: &Vec<NamedArg>) -> (r: bool)
    ensures
        r == all_named(params.deep_view(), pairs.deep_view(), 0),
{
    let mut k: usize = params.len();
    while k > 0
        invariant
            0 <= k <= params.len(),
            all_named(params.deep_view(), pairs.deep_view(), k as int),
        decreases k,
    {
        assert(params.deep_view()[k - 1] == params[k - 1].deep_view());
        if find_named_arg(pairs, &params[k - 1].name).is_none() {
            proof {
                lemma_not_all_named(params.deep_view(), pairs.deep_view(), 0, k - 1);
            }
            return false;
        }
        k = k - 1;
    }
    true
}

/// If one parameter has no named argument, not all have.
proof fn lemma_not_all_named(
    params: Seq<ValueParameterView>,
    pairs: Seq<NamedArgView>,
    from: int,
    k: int,
)
    requires
        0 <= from <= k < params.len(),
        find_named_arg_in(pairs, params[k].name, 0) is None,
    ensures
        !all_named(params, pairs, from),
    decreases k - from,
{
    if from < k {
        lemma_not_all_named(params, pairs, from + 1, k);
    }
}

/// Types the arguments of a call against the parameters of what is called,
/// and gives them in the order of the parameters.
pub fn type_arguments(env: &Env, scope: &Scope, params: &Vec<ValueParameter>, args: &FnCallArgs) -> (r: Result<
    Vec<Box<TExpr>>,
    TypeErrorKind,
>)
    ensures
        typed_list_as(
            r,
            typed_arguments(context(env, scope), params.deep_view(), args.deep_view()),
        ),
    decreases args, 2nat,
{
    proof {
        reveal(typed_arguments);
        reveal(typed_positional);
        reveal(typed_named);
    }
    match args {
        FnCallArgs::Empty => {
            if params.len() == 0 {
                let none: Vec<Box<TExpr>> = Vec::new();
                assert(none.deep_view() =~= Seq::empty());
                Ok(none)
            } else {
                Err(TypeErrorKind::ArityMismatch)
            }
        },
        FnCallArgs::Positional(values) => {
            assert(args.deep_view()->Positional_0 =~= values.deep_view());
            if values.len() != params.len() {
                Err(TypeErrorKind::ArityMismatch)
            } else {
                type_positional(env, scope, params, values)
            }
        },
        FnCallArgs::Named(pairs) => {
            assert(args.deep_view()->Named_0 =~= pairs.deep_view());
            if pairs.len() != params.len() || !every_parameter_named(params, pairs)
                || !every_name_once(pairs) {
                Err(TypeErrorKind::ArityMismatch)
            } else {
                type_named(env, scope, params, pairs)
            }
        },
    }
}

fn type_argument(env: &Env, scope: &Scope, param: &ValueParameter, value: &Expression) -> (r: Result<
    TExpr,
    TypeErrorKind,
>)
    ensures
        match (r, typed_argument(context(env, scope), param.deep_view(), value.deep_view())) {
            (Ok(e), Ok(v)) => e.deep_view() == v,
            (Err(a), Err(b)) => a == b,
            _ => false,
        },
    decreases value, 4nat,
{
    proof {
        reveal(typed_argument);
        reveal(typed_expression);
    }
    let (e, t) = type_expression(env, scope, value, Some(&param.ty))?;
    if t.equals(&param.ty) {
        Ok(e)
    } else {
        Err(TypeErrorKind::TypeMismatch)
    }
}

fn type_positional(env: &Env, scope: &Scope, params: &Vec<ValueParameter>, values: &Vec<Expression>) -> (r: Result<
    Vec<Box<TExpr>>,
    TypeErrorKind,
>)
    requires
        values.len() == params.len(),
    ensures
        typed_list_as(
            r,
            typed_positional(
                context(env, scope),
                params.deep_view(),
                values.deep_view(),
                0,
                Seq::empty(),
            ),
        ),
    decreases values, 0nat,
{
    proof {
        reveal(typed_positional);
        reveal(typed_argument);
    }
    let mut out: Vec<Box<TExpr>> = Vec::new();
    let mut k: usize = 0;
    assert(out.deep_view() =~= Seq::empty());
    while k < values.len()
        invariant
            0 <= k <= values.len(),
            values.len() == params.len(),
            typed_positional(
                context(env, scope),
                params.deep_view(),
                values.deep_view(),
                0,
                Seq::empty(),
            )
                == typed_positional(
                context(env, scope),
                params.deep_view(),
                values.deep_view(),
                k as nat,
                out.deep_view(),
            ),
        decreases values.len() - k,
    {
        proof {
            reveal(typed_positional);
            reveal(typed_argument);
        }
        assert(values.deep_view()[k as int] == values[k as int].deep_view());
        assert(params.deep_view()[k as int] == params[k as int].deep_view());
        let e = type_argument(env, scope, &params[k], &values[k])?;
        let ghost before = out.deep_view();
        let ghost added = e.deep_view();
        out.push(Box::new(e));
        assert(out.deep_view() =~= before.push(added));
        k = k + 1;
    }
    Ok(out)
}

fn type_named(env: &Env, scope: &Scope, params: &Vec<ValueParameter>, pairs: &Vec<NamedArg>) -> (r: Result<
    Vec<Box<TExpr>>,
    TypeErrorKind,
>)
    ensures
        typed_list_as(
            r,
            typed_named(
                context(env, scope),
                params.deep_view(),
                pairs.deep_view(),
                0,
                Seq::empty(),
            ),
        ),
    decreases pairs, 0nat,
{
    proof {
        reveal(typed_named);
        reveal(typed_argument);
    }
    let mut out: Vec<Box<TExpr>> = Vec::new();
    let mut k: usize = 0;
    assert(out.deep_view() =~= Seq::empty());
    while k < params.len()
        invariant
            0 <= k <= params.len(),
            typed_named(context(env, scope), params.deep_view(), pairs.deep_view(), 0, Seq::empty())
                == typed_named(
                context(env, scope),
                params.deep_view(),
                pairs.deep_view(),
                k as nat,
                out.deep_view(),
            ),
        decreases params.len() - k,
    {
        proof {
            reveal(typed_named);
            reveal(typed_argument);
        }
        assert(params.deep_view()[k as int] == params[k as int].deep_view());
        let j = match find_named_arg(pairs, &params[k].name) {
            Some(j) => j,
            None => {
                return Err(TypeErrorKind::ArityMismatch);
            },
        };
        assert(pairs.deep_view()[j as int] == pairs[j as int].deep_view());
        let e = type_argument(env, scope, &params[k], &pairs[j].value)?;
        let ghost before = out.deep_view();
        let ghost added = e.deep_view();
        out.push(Box::new(e));
        assert(out.deep_view() =~= before.push(added));
        k = k + 1;
    }
    Ok(out)
}

/// Types a compound expression.
pub fn type_compound(env: &Env, scope: &Scope, c: &CompoundExpr, expected: Option<&Ty>) -> (r: Result<
    (TExpr, Ty),
    TypeErrorKind,
>)
    ensures
        typed_as(r, typed_compound(context(env, scope), c.deep_view(), asked(expected))),
    decreases c, 2nat,
{
    proof {
        reveal(typed_compound);
        reveal(typed_not);
        reveal(typed_negative);
        reveal(typed_select);
        reveal(typed_cast);
        reveal(typed_binary);
    }
    match c {
        CompoundExpr::Logic(LogicExpr::Not(operand)) => type_not(env, scope, operand),
        CompoundExpr::Arith(ArithExpr::Neg(operand)) => type_negative(
            env,
            scope,
            operand,
            expected,
        ),
        CompoundExpr::Select(e) => type_select(env, scope, e, expected),
        CompoundExpr::Cast(e) => type_cast(env, scope, e),
        CompoundExpr::Cmp(e) => type_comparison(env, scope, c, e),
        CompoundExpr::Logic(e) => type_logic(env, scope, c, e),
        CompoundExpr::Arith(e) => type_arithmetic(env, scope, c, e, expected),
    }
}

fn type_not(
    env: &Env,
    scope: &Scope,
    operand: &AtomicExpr,
) -> (r: Result<(TExpr, Ty), TypeErrorKind>)
    ensures
        typed_as(r, typed_not(context(env, scope), operand.deep_view())),
    decreases operand, 3nat,
{
    proof {
        reveal(typed_not);
        reveal(typed_atomic);
    }
    let (a, at) = type_atomic(env, scope, operand, None)?;
    let t = negation_type(&at)?;
    Ok((TExpr::TNegation(Box::new(a)), t))
}

fn type_negative(env: &Env, scope: &Scope, operand: &AtomicExpr, expected: Option<&Ty>) -> (r: Result<
    (TExpr, Ty),
    TypeErrorKind,
>)
    ensures
        typed_as(r, typed_negative(context(env, scope), operand.deep_view(), asked(expected))),
    decreases operand, 3nat,
{
    proof {
        reveal(typed_negative);
        reveal(typed_atomic);
    }
    let (a, at) = type_atomic(env, scope, operand, expected)?;
    let t = minus_type(&at)?;
    let zero = cast_node(int_constant(decimal_text(0)), t.clone());
    Ok((TExpr::TArithmetic(ArithmeticOperator::Subtract, Box::new(zero), Box::new(a)), t))
}

fn type_select(env: &Env, scope: &Scope, e: &SelectExpr, expected: Option<&Ty>) -> (r: Result<
    (TExpr, Ty),
    TypeErrorKind,
>)
    ensures
        typed_as(r, typed_select(context(env, scope), e.deep_view(), asked(expected))),
    decreases e, 1nat,
{
    proof {
        reveal(typed_select);
        reveal(typed_expression);
    }
    let boolean = Ty::Boolean;
    let (cond, ct) = type_expression(env, scope, &e.condition, Some(&boolean))?;
    let (a, at) = type_expression(env, scope, &e.value_true, expected)?;
    let (b, bt) = type_expression(env, scope, &e.value_false, Some(&at))?;
    let t = conditional_type(&ct, &at, &bt)?;
    Ok((TExpr::TIfExpression(Box::new(cond), Box::new(a), Box::new(b)), t))
}

fn type_cast(env: &Env, scope: &Scope, e: &CastExpr) -> (r: Result<(TExpr, Ty), TypeErrorKind>)
    ensures
        typed_as(r, typed_cast(context(env, scope), e.deep_view())),
    decreases e, 1nat,
{
    proof {
        reveal(typed_cast);
        reveal(typed_atomic);
    }
    let target = resolve_type(&scope.types, &scope.regions, &e.ty)?;
    let (value, from) = type_atomic(env, scope, &e.value, Some(&target))?;
    let t = cast_type(&from, &target)?;
    Ok(literal_with(value, from, t))
}

fn type_comparison(env: &Env, scope: &Scope, c: &CompoundExpr, e: &CmpExpr) -> (r: Result<
    (TExpr, Ty),
    TypeErrorKind,
>)
    requires
        *c == CompoundExpr::Cmp(*e),
    ensures
        typed_as(r, typed_binary(context(env, scope), c.deep_view(), None)),
    decreases c, 1nat,
{
    proof {
        reveal(typed_binary);
        reveal(typed_atomic);
    }
    let (op, lhs, rhs) = match e {
        CmpExpr::Eq(a, b) => (ComparisonOperator::Equal, a, b),
        CmpExpr::NotEq(a, b) => (ComparisonOperator::NotEqual, a, b),
        CmpExpr::Lt(a, b) => (ComparisonOperator::LessThan, a, b),
        CmpExpr::LtEq(a, b) => (ComparisonOperator::LessThanOrEqual, a, b),
        CmpExpr::Gt(a, b) => (ComparisonOperator::GreaterThan, a, b),
        CmpExpr::GtEq(a, b) => (ComparisonOperator::GreaterThanOrEqual, a, b),
    };
    let swap = number_literal(lhs) && !number_literal(rhs);
    let ((a, at), (b, bt)) = if swap {
        let second = type_atomic(env, scope, rhs, None)?;
        let first = type_atomic(env, scope, lhs, Some(&second.1))?;
        (first, second)
    } else {
        let first = type_atomic(env, scope, lhs, None)?;
        let second = type_atomic(env, scope, rhs, Some(&first.1))?;
        (first, second)
    };
    let t = comparison_type(&at, &bt)?;
    Ok((TExpr::TComparison(op, Box::new(a), Box::new(b)), t))
}

fn type_logic(env: &Env, scope: &Scope, c: &CompoundExpr, e: &LogicExpr) -> (r: Result<
    (TExpr, Ty),
    TypeErrorKind,
>)
    requires
        *c == CompoundExpr::Logic(*e),
        !(e is Not),
    ensures
        typed_as(r, typed_binary(context(env, scope), c.deep_view(), None)),
    decreases c, 1nat,
{
    proof {
        reveal(typed_binary);
        reveal(typed_atomic);
    }
    let (conjunction, lhs, rhs) = match e {
        LogicExpr::And(a, b) => (true, a, b),
        LogicExpr::Or(a, b) => (false, a, b),
        LogicExpr::Not(a) => (true, a, a),
    };
    let swap = number_literal(lhs) && !number_literal(rhs);
    let ((a, at), (b, bt)) = if swap {
        let second = type_atomic(env, scope, rhs, None)?;
        let first = type_atomic(env, scope, lhs, Some(&second.1))?;
        (first, second)
    } else {
        let first = type_atomic(env, scope, lhs, None)?;
        let second = type_atomic(env, scope, rhs, Some(&first.1))?;
        (first, second)
    };
    let t = logic_type(&at, &bt)?;
    if conjunction {
        Ok((TExpr::TConjunction(Box::new(a), Box::new(b)), t))
    } else {
        Ok((TExpr::TDisjunction(Box::new(a), Box::new(b)), t))
    }
}

fn type_arithmetic(env: &Env, scope: &Scope, c: &CompoundExpr, e: &ArithExpr, expected: Option<&Ty>) -> (r: Result<
    (TExpr, Ty),
    TypeErrorKind,
>)
    requires
        *c == CompoundExpr::Arith(*e),
        !(e is Neg),
    ensures
        typed_as(r, typed_binary(context(env, scope), c.deep_view(), asked(expected))),
    decreases c, 1nat,
{
    proof {
        reveal(typed_binary);
        reveal(typed_atomic);
    }
    let (op, lhs, rhs) = match e {
        ArithExpr::Add(a, b) => (ArithmeticOperator::Add, a, b),
        ArithExpr::Sub(a, b) => (ArithmeticOperator::Subtract, a, b),
        ArithExpr::Mul(a, b) => (ArithmeticOperator::Multiply, a, b),
        ArithExpr::Div(a, b) => (ArithmeticOperator::Divide, a, b),
        ArithExpr::Neg(a) => (ArithmeticOperator::Subtract, a, a),
    };
    let swap = number_literal(lhs) && !number_literal(rhs);
    let ((a, at), (b, bt)) = if swap {
        let second = type_atomic(env, scope, rhs, expected)?;
        let first = type_atomic(env, scope, lhs, Some(&second.1))?;
        (first, second)
    } else {
        let first = type_atomic(env, scope, lhs, expected)?;
        let second = type_atomic(env, scope, rhs, Some(&first.1))?;
        (first, second)
    };
    let t = arithmetic_type(&at, &bt)?;
    Ok((TExpr::TArithmetic(op, Box::new(a), Box::new(b)), t))
}

/// The index of the first method that goes by a name.
pub open spec fn find_method_in(
    items: Seq<MethodInfoView>,
    name: Seq<char>,
    from: int,
) -> Option<int>
    decreases items.len() - from,
{
    if from < 0 || from >= items.len() {
        None
    } else if items[from].name == name {
        Some(from)
    } else {
        find_method_in(items, name, from + 1)
    }
}

/// The index of the first method of a typeclass that goes by a name.
pub open spec fn find_method_of_in(
    items: Seq<MethodInfoView>,
    class: Seq<char>,
    name: Seq<char>,
    from: int,
) -> Option<int>
    decreases items.len() - from,
{
    if from < 0 || from >= items.len() {
        None
    } else if items[from].typeclass == class && items[from].name == name {
        Some(from)
    } else {
        find_method_of_in(items, class, name, from + 1)
    }
}

/// The index of the first instance of a typeclass for a type, from an
/// index on.
pub open spec fn find_instance_in(
    items: Seq<InstanceInfoView>,
    class: Seq<char>,
    arg: TyView,
    from: int,
) -> Option<int>
    decreases items.len() - from,
{
    if from < 0 || from >= items.len() {
        None
    } else if items[from].typeclass == class && items[from].arg == arg {
        Some(from)
    } else {
        find_instance_in(items, class, arg, from + 1)
    }
}

/// The instance of a typeclass for a type: the one instance in scope that
/// is for the type. There must be one, and no other.
pub open spec fn instance_of(items: Seq<InstanceInfoView>, class: Seq<char>, arg: TyView) -> Result<
    int,
    TypeErrorKind,
> {
    match find_instance_in(items, class, arg, 0) {
        None => Err(TypeErrorKind::MissingInstance),
        Some(i) => if find_instance_in(items, class, arg, i + 1) is Some {
            Err(TypeErrorKind::OverlappingInstance)
        } else {
            Ok(i)
        },
    }
}

/// The index of the first parameter whose type is the type variable of the
/// typeclass: the argument given for it decides the instance.
pub open spec fn dispatch_position(
    params: Seq<ValueParameterView>,
    variable: u64,
    from: int,
) -> Option<
    int,
>
    decreases params.len() - from,
{
    if from < 0 || from >= params.len() {
        None
    } else if params[from].ty matches TyView::TyVar(v, _, _) && v == variable {
        Some(from)
    } else {
        dispatch_position(params, variable, from + 1)
    }
}

/// Parameters with a type put for the type variable.
pub open spec fn bound_params(params: Seq<ValueParameterView>, variable: u64, with: TyView) -> Seq<
    ValueParameterView,
> {
    Seq::new(
        params.len(),
        |i: int|
            ValueParameterView {
                name: params[i].name,
                ty: substituted(params[i].ty, variable, with),
            },
    )
}

/// Whether a type can be put for a type variable of a universe: a variable
/// of the type universe stands for any type that is no region, any other
/// for a type of its own universe.
pub open spec fn instantiable(universe: Universe, with: TyView) -> bool {
    if universe == Universe::TypeUniverse {
        universe_of(with) != Universe::RegionUniverse
    } else {
        universe_of(with) == universe
    }
}

/// The name of a method, qualified by its typeclass.
pub open spec fn method_name(m: MethodInfoView) -> QIdentView {
    QIdentView { source: m.typeclass, original: m.name, local: m.name }
}

/// The type of the argument that decides the instance: the argument given
/// for the parameter at `i`, typed as it stands.
#[verifier::opaque]
pub open spec fn typed_dispatch(
    cx: Context,
    param: ValueParameterView,
    args: FnCallArgsView,
    i: int,
) -> Result<
    TyView,
    TypeErrorKind,
>
    decreases args, 0nat,
{
    match args {
        FnCallArgsView::Empty => Err(TypeErrorKind::ArityMismatch),
        FnCallArgsView::Positional(values) => if 0 <= i < values.len() {
            match typed_expression(cx, values[i], None) {
                Err(kind) => Err(kind),
                Ok((_, t)) => Ok(t),
            }
        } else {
            Err(TypeErrorKind::ArityMismatch)
        },
        FnCallArgsView::Named(pairs) => match find_named_arg_in(pairs, param.name, 0) {
            None => Err(TypeErrorKind::ArityMismatch),
            Some(j) => if 0 <= j < pairs.len() {
                match typed_expression(cx, pairs[j].value, None) {
                    Err(kind) => Err(kind),
                    Ok((_, t)) => Ok(t),
                }
            } else {
                Err(TypeErrorKind::ArityMismatch)
            },
        },
    }
}

/// Whether a type is a type variable that a typeclass constrains.
pub open spec fn constrained_by(ty: TyView, class: Seq<char>) -> bool {
    ty matches TyView::TyVar(_, _, constraints) && exists|i: int|
        0 <= i < constraints.len() && constraints[i] == class
}

/// The number of a typeclass: that of its type variable, as far as the
/// numbers of declarations go.
pub open spec fn class_number(variable: u64) -> DeclId {
    if variable <= i32::MAX {
        DeclId(variable as i32)
    } else {
        DeclId(i32::MAX)
    }
}

/// The typed form of a call of a method of a typeclass. The argument for
/// the first parameter of the type of the typeclass decides the instance:
/// its type must be one that the type variable can stand for. Where it is
/// a type variable that the typeclass constrains, the instance is that of
/// the type that the variable will stand for, and the call is typed as a
/// call through the variable. Otherwise one instance in scope, no more,
/// must be for the type. The arguments are typed against the parameters
/// with the type put for the variable of the typeclass.
#[verifier::opaque]
pub open spec fn typed_method_call(cx: Context, m: MethodInfoView, call: FnCallExprView) -> Typed
    decreases call, 0nat,
{
    match dispatch_position(m.params, m.variable, 0) {
        None => Err(TypeErrorKind::MissingInstance),
        Some(i) => match typed_dispatch(cx, m.params[i], call.args, i) {
            Err(kind) => Err(kind),
            Ok(d) => if !instantiable(m.universe, d) {
                Err(TypeErrorKind::UniverseMismatch)
            } else if constrained_by(d, m.typeclass) {
                match typed_arguments(cx, bound_params(m.params, m.variable, d), call.args) {
                    Err(kind) => Err(kind),
                    Ok(args) => Ok(
                        (
                            TExprView::TVarMethodCall {
                                source_module_name: m.typeclass,
                                typeclass_id: class_number(m.variable),
                                params: bound_params(m.params, m.variable, d),
                                method_name: method_name(m),
                                args: boxed(args),
                                dispatch_ty: d,
                                rt: substituted(m.ret, m.variable, d),
                            },
                            substituted(m.ret, m.variable, d),
                        ),
                    ),
                }
            } else {
                match instance_of(cx.env.instances, m.typeclass, d) {
                    Err(kind) => Err(kind),
                    Ok(n) => match typed_arguments(
                        cx,
                        bound_params(m.params, m.variable, d),
                        call.args,
                    ) {
                        Err(kind) => Err(kind),
                        Ok(args) => Ok(
                            (
                                TExprView::TMethodCall(
                                    cx.env.instances[n].id,
                                    method_name(m),
                                    boxed(args),
                                    substituted(m.ret, m.variable, d),
                                ),
                                substituted(m.ret, m.variable, d),
                            ),
                        ),
                    },
                }
            },
        },
    }
}

/// Computes `find_method_in`.
pub fn find_method(items: &Vec<MethodInfo>, name: &Ident) -> (r: Option<usize>)
    ensures
        match find_method_in(items.deep_view(), name.deep_view(), 0) {
            Some(i) => r == Some(i as usize) && 0 <= i < items.len(),
            None => r is None,
        },
{
    let mut k: usize = 0;
    while k < items.len()
        invariant
            0 <= k <= items.len(),
            find_method_in(items.deep_view(), name.deep_view(), 0) == find_method_in(
                items.deep_view(),
                name.deep_view(),
                k as int,
            ),
        decreases items.len() - k,
    {
        assert(items.deep_view()[k as int] == items[k as int].deep_view());
        if names(name, &items[k].name) {
            return Some(k);
        }
        k = k + 1;
    }
    None
}

/// Computes `find_method_of_in`.
pub fn find_method_of(
    items: &Vec<MethodInfo>,
    class: &Identifier,
    name: &Ident,
) -> (r: Option<usize>)
    ensures
        match find_method_of_in(items.deep_view(), class@, name.deep_view(), 0) {
            Some(i) => r == Some(i as usize) && 0 <= i < items.len(),
            None => r is None,
        },
{
    let mut k: usize = 0;
    while k < items.len()
        invariant
            0 <= k <= items.len(),
            find_method_of_in(items.deep_view(), class@, name.deep_view(), 0) == find_method_of_in(
                items.deep_view(),
                class@,
                name.deep_view(),
                k as int,
            ),
        decreases items.len() - k,
    {
        assert(items.deep_view()[k as int] == items[k as int].deep_view());
        if items[k].typeclass.same(class) && names(name, &items[k].name) {
            return Some(k);
        }
        k = k + 1;
    }
    None
}

/// Computes `find_instance_in`.
pub fn find_instance(items: &Vec<InstanceInfo>, class: &Identifier, arg: &Ty, from: usize) -> (r: Option<
    usize,
>)
    ensures
        match find_instance_in(items.deep_view(), class@, arg@, from as int) {
            Some(i) => r == Some(i as usize) && from <= i < items.len(),
            None => r is None,
        },
{
    let mut k: usize = from;
    while k < items.len()
        invariant
            from <= k,
            find_instance_in(items.deep_view(), class@, arg@, from as int) == find_instance_in(
                items.deep_view(),
                class@,
                arg@,
                k as int,
            ),
        decreases items.len() - k,
    {
        assert(items.deep_view()[k as int] == items[k as int].deep_view());
        if items[k].typeclass.same(class) && items[k].arg.equals(arg) {
            return Some(k);
        }
        k = k + 1;
    }
    None
}

/// Computes `instance_of`.
pub fn select_instance_of(items: &Vec<InstanceInfo>, class: &Identifier, arg: &Ty) -> (r: Result<
    usize,
    TypeErrorKind,
>)
    ensures
        match instance_of(items.deep_view(), class@, arg@) {
            Ok(i) => r == Ok::<usize, TypeErrorKind>(i as usize) && 0 <= i < items.len(),
            Err(kind) => r == Err::<usize, TypeErrorKind>(kind),
        },
{
    match find_instance(items, class, arg, 0) {
        None => Err(TypeErrorKind::MissingInstance),
        Some(i) => match find_instance(items, class, arg, i + 1) {
            Some(_) => Err(TypeErrorKind::OverlappingInstance),
            None => Ok(i),
        },
    }
}

/// Computes `dispatch_position`.
pub fn dispatch_parameter(params: &Vec<ValueParameter>, variable: u64) -> (r: Option<usize>)
    ensures
        match dispatch_position(params.deep_view(), variable, 0) {
            Some(i) => r == Some(i as usize) && 0 <= i < params.len(),
            None => r is None,
        },
{
    let mut k: usize = 0;
    while k < params.len()
        invariant
            0 <= k <= params.len(),
            dispatch_position(params.deep_view(), variable, 0) == dispatch_position(
                params.deep_view(),
                variable,
                k as int,
            ),
        decreases params.len() - k,
    {
        assert(params.deep_view()[k as int] == params[k as int].deep_view());
        let found = match &params[k].ty {
            Ty::TyVar(v) => v.id == variable,
            _ => false,
        };
        if found {
            return Some(k);
        }
        k = k + 1;
    }
    None
}

/// Computes `bound_params`.
pub fn bind_params(
    params: &Vec<ValueParameter>,
    variable: u64,
    with: &Ty,
) -> (r: Vec<ValueParameter>)
    ensures
        r.deep_view() == bound_params(params.deep_view(), variable, with@),
{
    let mut out: Vec<ValueParameter> = Vec::new();
    let mut k: usize = 0;
    while k < params.len()
        invariant
            0 <= k <= params.len(),
            out.len() == k,
            forall|i: int|
                0 <= i < k ==> (#[trigger] out[i]).deep_view() == (ValueParameterView {
                    name: params[i].name@,
                    ty: substituted(params[i].ty@, variable, with@),
                }),
        decreases params.len() - k,
    {
        out.push(
            ValueParameter {
                name: params[k].name.clone(),
                ty: substitute(&params[k].ty, variable, with),
            },
        );
        k = k + 1;
    }
    assert(out.deep_view() =~= bound_params(params.deep_view(), variable, with@));
    out
}

/// Computes `constrained_by`.
pub fn is_constrained_by(ty: &Ty, class: &Identifier) -> (r: bool)
    ensures
        r == constrained_by(ty@, class@),
{
    match ty {
        Ty::TyVar(v) => {
            let ghost constraints = ty@->TyVar_2;
            assert(constraints.len() == v.constraints.len());
            let mut k: usize = 0;
            while k < v.constraints.len()
                invariant
                    0 <= k <= v.constraints.len(),
                    ty@ is TyVar,
                    constraints == ty@->TyVar_2,
                    constraints.len() == v.constraints.len(),
                    forall|i: int| 0 <= i < constraints.len() ==> constraints[i] == v.constraints[i]@,
                    forall|i: int| 0 <= i < k ==> constraints[i] != class@,
                decreases v.constraints.len() - k,
            {
                if v.constraints[k].same(class) {
                    assert(constraints[k as int] == class@);
                    return true;
                }
                k = k + 1;
            }
            false
        },
        _ => false,
    }
}

fn number_class(variable: u64) -> (r: DeclId)
    ensures
        r == class_number(variable),
{
    if variable <= 0x7fff_ffff {
        DeclId(variable as i32)
    } else {
        DeclId(0x7fff_ffff)
    }
}

/// Computes `instantiable`.
pub fn can_instantiate(universe: Universe, with: &Ty) -> (r: bool)
    ensures
        r == instantiable(universe, with@),
{
    let of = type_universe(with);
    match universe {
        Universe::TypeUniverse => match of {
            Universe::RegionUniverse => false,
            _ => true,
        },
        _ => of == universe,
    }
}

fn type_dispatch(env: &Env, scope: &Scope, param: &ValueParameter, args: &FnCallArgs, i: usize) -> (r: Result<
    Ty,
    TypeErrorKind,
>)
    ensures
        gives_ty(
            r,
            typed_dispatch(context(env, scope), param.deep_view(), args.deep_view(), i as int),
        ),
    decreases args, 0nat,
{
    proof {
        reveal(typed_dispatch);
        reveal(typed_expression);
    }
    match args {
        FnCallArgs::Empty => Err(TypeErrorKind::ArityMismatch),
        FnCallArgs::Positional(values) => {
            assert(args.deep_view()->Positional_0 =~= values.deep_view());
            if i < values.len() {
                assert(values.deep_view()[i as int] == values[i as int].deep_view());
                let (_, t) = type_expression(env, scope, &values[i], None)?;
                Ok(t)
            } else {
                Err(TypeErrorKind::ArityMismatch)
            }
        },
        FnCallArgs::Named(pairs) => {
            assert(args.deep_view()->Named_0 =~= pairs.deep_view());
            match find_named_arg(pairs, &param.name) {
                None => Err(TypeErrorKind::ArityMismatch),
                Some(j) => {
                    assert(pairs.deep_view()[j as int] == pairs[j as int].deep_view());
                    let (_, t) = type_expression(env, scope, &pairs[j].value, None)?;
                    Ok(t)
                },
            }
        },
    }
}

fn type_method_call(env: &Env, scope: &Scope, m: &MethodInfo, call: &FnCallExpr) -> (r: Result<
    (TExpr, Ty),
    TypeErrorKind,
>)
    ensures
        typed_as(r, typed_method_call(context(env, scope), m.deep_view(), call.deep_view())),
    decreases call, 0nat,
{
    proof {
        reveal(typed_method_call);
        reveal(typed_dispatch);
        reveal(typed_arguments);
    }
    match dispatch_parameter(&m.params, m.variable) {
        None => Err(TypeErrorKind::MissingInstance),
        Some(i) => {
            assert(m.deep_view().params[i as int] == m.params[i as int].deep_view());
            let d = type_dispatch(env, scope, &m.params[i], &call.args, i)?;
            if !can_instantiate(m.universe, &d) {
                return Err(TypeErrorKind::UniverseMismatch);
            }
            let name = QIdent {
                source: ModuleName(m.typeclass.0.clone()),
                original: m.name.clone(),
                local: m.name.clone(),
            };
            if is_constrained_by(&d, &m.typeclass) {
                let params = bind_params(&m.params, m.variable, &d);
                let args = type_arguments(env, scope, &params, &call.args)?;
                let ghost listed = args.deep_view();
                let ret = substitute(&m.ret, m.variable, &d);
                let node = TExpr::TVarMethodCall {
                    source_module_name: ModuleName(m.typeclass.0.clone()),
                    typeclass_id: number_class(m.variable),
                    params,
                    method_name: name,
                    args,
                    dispatch_ty: d,
                    rt: ret.clone(),
                };
                assert(node.deep_view()->TVarMethodCall_args =~= boxed(listed));
                return Ok((node, ret));
            }
            let n = select_instance_of(&env.instances, &m.typeclass, &d)?;
            assert(env.deep_view().instances[n as int] == env.instances[n as int].deep_view());
            let params = bind_params(&m.params, m.variable, &d);
            let args = type_arguments(env, scope, &params, &call.args)?;
            let ghost listed = args.deep_view();
            let ret = substitute(&m.ret, m.variable, &d);
            let node = TExpr::TMethodCall(env.instances[n].id, name, args, ret.clone());
            assert(node.deep_view()->TMethodCall_2 =~= boxed(listed));
            Ok((node, ret))
        },
    }
}

} // verus!
