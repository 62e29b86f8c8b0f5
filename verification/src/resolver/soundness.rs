//! Type soundness of the checker: in every tree that it accepts, every
//! type that a node carries is closed, which is to say that each
//! reference and span inside it is bound to a region.

use crate::ast::common::TypeParamView;
use crate::ast::constants::ConstantDefView;
use crate::ast::expressions::{
    ArithExprView, AtomicExprView, CastExprView, CompoundExprView, ExpressionView,
    FnCallArgsView, FnCallExprView, IntrinExprView, LogicExprView, NamedArgView, PathExprView,
    PathSegmentView, SelectExprView,
};
use crate::ast::functions::{FunctionDefView, MethodDeclView, MethodDefView, ParamView};
use crate::ast::modules::{ModuleBaseView, ModuleDeclItemView, ModuleDefItemView};
use crate::ast::records::SlotView;
use crate::ast::statements::{
    AssignStmtView, BindingView, BorrowStmtView, CaseStmtView, CaseWhenView, ForStmtView,
    IfStmtView, LetStmtTargetView, LetStmtView, StatementView, WhileStmtView,
};
use crate::ast::types::TypeSpecView;
use crate::ast::unions::CaseView;
use crate::common::{BorrowingMode, Mutability};
use crate::resolver::{
    bound_params, Context, dispatch_position, find_case_in, find_constant_in, find_function_in,
    find_instance_in, find_method_in, find_method_of_in, find_named_arg_in, find_record_in,
    find_record_of_in, find_slot_in, find_type_in, find_union_of_in, find_union_with_case_in,
    find_variable_in, instantiated_params, is_number_literal, operands_of, record_slot_ty,
    resolved_ty, Typed, typed_argument, typed_arguments, typed_atomic, typed_binary,
    typed_borrow, typed_call, typed_cast, typed_compound, typed_constant, typed_deref,
    typed_dispatch, typed_each, typed_embed, typed_expression, typed_function_call,
    typed_instantiation, typed_method_call, typed_named, typed_negative, typed_not, typed_path,
    typed_positional, typed_reborrow, typed_record, typed_ref_path, typed_segments,
    typed_select, typed_union_case, variable_expr,
};
use crate::resolver::modules::{
    body_instances, case_of, cases_of, class_defaults, class_methods, class_types,
    constant_scope, constants_of, declared_universe, DeclaredView, environment_of,
    exported_constants, exported_functions, function_number, function_scope, function_ty,
    generic_types, interface_instances, interfaces_instances, method_of, methods_of, named_ty,
    parameter_variables, qualified_name, record_of, records_of, signature_of, signatures_of,
    sources_of, SourceView, type_names, type_parameters, typed_constant_def, typed_constants,
    typed_default, typed_defaults, typed_function, typed_functions, typed_instance,
    typed_instances, typed_method, typed_methods, typed_module, typed_params, typed_slots,
    unions_of, universe_named, variable_number,
};
use crate::resolver::statements::{
    borrow_scope, let_scope, LetHeadView, mutability_of, scope_plus, scope_plus_bindings,
    scope_plus_region, typed_assign, typed_binding, typed_bindings, typed_block,
    typed_borrow_statement, typed_bounds, typed_case, typed_condition, typed_discard, typed_for,
    typed_if, typed_let, typed_origin, typed_otherwise, typed_return, typed_statement,
    typed_when, typed_whens, typed_while, TypedStmt, within,
};
use crate::stages::{TExprView, TStmtView, TypedBindingView, TypedWhenView, ValueParameterView};
use crate::ty::{TyView, Universe};
use crate::type_check::{index_ty, size_ty, TypeErrorKind};
use crate::type_env::{
    CaseInfoView, ConstantInfoView, EnvView, ExportView, FunctionSigView, InstanceInfoView,
    MethodInfoView, RecordInfoView, RegionNameView, ScopeView, TypedConstantView,
    TypedFunctionView, TypedInstanceView, TypedModuleView, TypeNameView, TypeParameterView,
    UnionInfoView, VariableKind, VariableView,
};
use crate::type_system::{
    closed_bindings_of, lemma_instantiated_closed, lemma_substituted_closed, regions_closed,
    TypeBindingView,
};
use vstd::prelude::*;

verus! {

/// Whether every type that a typed expression carries is closed.
pub open spec fn closed_expr(e: TExprView) -> bool
    decreases e,
{
    match e {
        TExprView::TConstVar(_, t) => regions_closed(t),
        TExprView::TParamVar(_, t) => regions_closed(t),
        TExprView::TLocalVar(_, t) => regions_closed(t),
        TExprView::TFunVar(_, t) => regions_closed(t),
        TExprView::TTemporary(_, t) => regions_closed(t),
        TExprView::TFuncall(_, _, args, t) => regions_closed(t) && forall|i: int|
            0 <= i < args.len() ==> closed_expr(*#[trigger] args[i]),
        TExprView::TMethodCall(_, _, args, t) => regions_closed(t) && forall|i: int|
            0 <= i < args.len() ==> closed_expr(*#[trigger] args[i]),
        TExprView::TVarMethodCall {
            params,
            args,
            dispatch_ty,
            rt,
            ..
        } => regions_closed(dispatch_ty)
            && regions_closed(rt) && closed_slots(params) && forall|i: int|
            0 <= i < args.len() ==> closed_expr(*#[trigger] args[i]),
        TExprView::TFptrCall(_, args, t) => regions_closed(t) && forall|i: int|
            0 <= i < args.len() ==> closed_expr(*#[trigger] args[i]),
        TExprView::TCast(a, t) => closed_expr(*a) && regions_closed(t),
        TExprView::TArithmetic(_, a, b) => closed_expr(*a) && closed_expr(*b),
        TExprView::TComparison(_, a, b) => closed_expr(*a) && closed_expr(*b),
        TExprView::TConjunction(a, b) => closed_expr(*a) && closed_expr(*b),
        TExprView::TDisjunction(a, b) => closed_expr(*a) && closed_expr(*b),
        TExprView::TNegation(a) => closed_expr(*a),
        TExprView::TIfExpression(c, a, b) => closed_expr(*c) && closed_expr(*a) && closed_expr(*b),
        TExprView::TRecordConstructor(t, fields) => regions_closed(t) && forall|i: int|
            0 <= i < fields.len() ==> closed_expr(*(#[trigger] fields[i]).1),
        TExprView::TUnionConstructor(t, _, fields) => regions_closed(t) && forall|i: int|
            0 <= i < fields.len() ==> closed_expr(*(#[trigger] fields[i]).1),
        TExprView::TSlotAccessor(a, _, t) => closed_expr(*a) && regions_closed(t),
        TExprView::TPointerSlotAccessor(a, _, t) => closed_expr(*a) && regions_closed(t),
        TExprView::TArrayIndex(a, i, t) => closed_expr(*a) && closed_expr(*i) && regions_closed(t),
        TExprView::TSpanIndex(a, i, t) => closed_expr(*a) && closed_expr(*i) && regions_closed(t),
        TExprView::TEmbed(t, _, args) => regions_closed(t) && forall|i: int|
            0 <= i < args.len() ==> closed_expr(*#[trigger] args[i]),
        TExprView::TDeref(a) => closed_expr(*a),
        TExprView::TSizeOf(t) => regions_closed(t),
        TExprView::TBorrowExpr(_, _, _, t) => regions_closed(t),
        TExprView::TReborrow(_, _, t) => regions_closed(t),
        TExprView::TRefPath(a, t) => closed_expr(*a) && regions_closed(t),
        _ => true,
    }
}

/// Whether the type of every slot or parameter of a list is closed.
pub open spec fn closed_slots(slots: Seq<ValueParameterView>) -> bool {
    forall|i: int| 0 <= i < slots.len() ==> regions_closed((#[trigger] slots[i]).ty)
}

/// Whether every one of a list of typed expressions is closed.
pub open spec fn closed_all(es: Seq<TExprView>) -> bool {
    forall|i: int| 0 <= i < es.len() ==> closed_expr(#[trigger] es[i])
}

/// Whether the type of a record and the types of its slots are closed.
pub open spec fn closed_record(r: RecordInfoView) -> bool {
    regions_closed(r.ty) && closed_slots(r.slots)
}

/// Whether the types of the slots of a case are closed.
pub open spec fn closed_case(c: CaseInfoView) -> bool {
    closed_slots(c.slots)
}

/// Whether the type of a union and the types of the slots of its cases are
/// closed.
pub open spec fn closed_union(u: UnionInfoView) -> bool {
    regions_closed(u.ty) && forall|i: int| 0 <= i < u.cases.len() ==> closed_case(#[trigger] u.cases[i])
}

/// Whether the types in the signature of a function are closed.
pub open spec fn closed_function(f: FunctionSigView) -> bool {
    regions_closed(f.ret) && closed_slots(f.params) && closed_variables(f.variables)
}

/// Whether the type of every type parameter of a list is closed.
pub open spec fn closed_variables(variables: Seq<TypeParameterView>) -> bool {
    forall|i: int| 0 <= i < variables.len() ==> regions_closed((#[trigger] variables[i]).ty)
}

/// Whether the type of every name in the table of types is closed.
pub open spec fn closed_types(types: Seq<TypeNameView>) -> bool {
    forall|i: int| 0 <= i < types.len() ==> regions_closed((#[trigger] types[i]).ty)
}

/// Whether every type that an environment holds is closed.
pub open spec fn closed_env(env: EnvView) -> bool {
    &&& closed_types(env.types)
    &&& forall|i: int| 0 <= i < env.records.len() ==> closed_record(#[trigger] env.records[i])
    &&& forall|i: int| 0 <= i < env.unions.len() ==> closed_union(#[trigger] env.unions[i])
    &&& forall|i: int| 0 <= i < env.constants.len() ==> regions_closed((#[trigger] env.constants[i]).ty)
    &&& forall|i: int| 0 <= i < env.functions.len() ==> closed_function(#[trigger] env.functions[i])
    &&& closed_methods(env.methods)
    &&& closed_instances(env.instances)
}

/// Whether the types in the signature of a method are closed.
pub open spec fn closed_method(m: MethodInfoView) -> bool {
    regions_closed(m.ret) && closed_slots(m.params)
}

/// Whether every method of a list is closed.
pub open spec fn closed_methods(methods: Seq<MethodInfoView>) -> bool {
    forall|i: int| 0 <= i < methods.len() ==> closed_method(#[trigger] methods[i])
}

/// Whether the type of every instance of a list is closed.
pub open spec fn closed_instances(instances: Seq<InstanceInfoView>) -> bool {
    forall|i: int| 0 <= i < instances.len() ==> regions_closed((#[trigger] instances[i]).arg)
}

/// Whether the type of every variable in scope, and the type that the
/// function returns, is closed.
pub open spec fn closed_scope(scope: ScopeView) -> bool {
    closed_types(scope.types) && regions_closed(scope.ret) && forall|i: int|
        0 <= i < scope.variables.len() ==> regions_closed((#[trigger] scope.variables[i]).ty)
}

/// Whether every type that the checker starts from is closed.
pub open spec fn closed_context(cx: Context) -> bool {
    closed_env(cx.env) && closed_scope(cx.scope)
}

/// Whether a typed expression, if there is one, is closed and of a closed
/// type.
pub open spec fn sound(r: Typed) -> bool {
    r matches Ok(typed) ==> regions_closed(typed.1) && closed_expr(typed.0)
}

/// The same of a list of typed expressions.
pub open spec fn sound_all(r: Result<Seq<TExprView>, TypeErrorKind>) -> bool {
    r matches Ok(es) ==> closed_all(es)
}

/// What the search finds is a place in the list.
pub proof fn lemma_find_variable(items: Seq<VariableView>, name: Seq<char>)
    ensures
        find_variable_in(items, name) matches Some(i) ==> 0 <= i < items.len(),
    decreases items.len(),
{
    if items.len() > 0 && items.last().name != name {
        lemma_find_variable(items.drop_last(), name);
    }
}

/// What the search finds is a place in the list.
pub proof fn lemma_find_type(items: Seq<TypeNameView>, name: Seq<char>, from: int)
    requires
        0 <= from,
    ensures
        find_type_in(items, name, from) matches Some(i) ==> 0 <= i < items.len(),
    decreases items.len() - from,
{
    if from < items.len() && items[from].name != name {
        lemma_find_type(items, name, from + 1);
    }
}

/// What the search finds is a place in the list.
pub proof fn lemma_find_record(items: Seq<RecordInfoView>, name: Seq<char>, from: int)
    requires
        0 <= from,
    ensures
        find_record_in(items, name, from) matches Some(i) ==> 0 <= i < items.len(),
    decreases items.len() - from,
{
    if from < items.len() && items[from].name != name {
        lemma_find_record(items, name, from + 1);
    }
}

/// What the search finds is a place in the list.
pub proof fn lemma_find_record_of(items: Seq<RecordInfoView>, ty: TyView, from: int)
    requires
        0 <= from,
    ensures
        find_record_of_in(items, ty, from) matches Some(i) ==> 0 <= i < items.len(),
    decreases items.len() - from,
{
    if from < items.len() && items[from].ty != ty {
        lemma_find_record_of(items, ty, from + 1);
    }
}

/// What the search finds is a place in the list.
pub proof fn lemma_find_union_of(items: Seq<UnionInfoView>, ty: TyView, from: int)
    requires
        0 <= from,
    ensures
        find_union_of_in(items, ty, from) matches Some(i) ==> 0 <= i < items.len(),
    decreases items.len() - from,
{
    if from < items.len() && items[from].ty != ty {
        lemma_find_union_of(items, ty, from + 1);
    }
}

/// What the search finds is a place in the list.
pub proof fn lemma_find_case(items: Seq<CaseInfoView>, name: Seq<char>, from: int)
    requires
        0 <= from,
    ensures
        find_case_in(items, name, from) matches Some(i) ==> 0 <= i < items.len(),
    decreases items.len() - from,
{
    if from < items.len() && items[from].name != name {
        lemma_find_case(items, name, from + 1);
    }
}

/// What the search finds is a place in the list.
pub proof fn lemma_find_slot(items: Seq<ValueParameterView>, name: Seq<char>, from: int)
    requires
        0 <= from,
    ensures
        find_slot_in(items, name, from) matches Some(i) ==> 0 <= i < items.len(),
    decreases items.len() - from,
{
    if from < items.len() && items[from].name != name {
        lemma_find_slot(items, name, from + 1);
    }
}

/// What the search finds is a place in the list.
pub proof fn lemma_find_function(items: Seq<FunctionSigView>, name: Seq<char>, from: int)
    requires
        0 <= from,
    ensures
        find_function_in(items, name, from) matches Some(i) ==> 0 <= i < items.len(),
    decreases items.len() - from,
{
    if from < items.len() && items[from].name.local != name {
        lemma_find_function(items, name, from + 1);
    }
}

/// What the search finds is a place in the list.
pub proof fn lemma_find_constant(items: Seq<ConstantInfoView>, name: Seq<char>, from: int)
    requires
        0 <= from,
    ensures
        find_constant_in(items, name, from) matches Some(i) ==> 0 <= i < items.len(),
    decreases items.len() - from,
{
    if from < items.len() && items[from].name.local != name {
        lemma_find_constant(items, name, from + 1);
    }
}

/// What the search finds is a place in the list.
pub proof fn lemma_find_union_with_case(unions: Seq<UnionInfoView>, name: Seq<char>, from: int)
    requires
        0 <= from,
    ensures
        find_union_with_case_in(unions, name, from) matches Some(i) ==> 0 <= i < unions.len()
            && find_case_in(unions[i].cases, name, 0) is Some,
    decreases unions.len() - from,
{
    if from < unions.len() && !(find_case_in(unions[from].cases, name, 0) is Some) {
        lemma_find_union_with_case(unions, name, from + 1);
    }
}

/// A type specification resolves to a closed type where the names of types
/// stand for closed types: a reference or a span that it writes is bound
/// to the region it names.
pub proof fn lemma_resolved_closed(
    types: Seq<TypeNameView>,
    regions: Seq<RegionNameView>,
    spec: TypeSpecView,
)
    requires
        closed_types(types),
    ensures
        resolved_ty(types, regions, spec) matches Ok(t) ==> regions_closed(t),
    decreases spec,
{
    reveal_with_fuel(regions_closed, 2);
    match spec {
        TypeSpecView::Simple { name } => {
            lemma_find_type(types, name, 0);
        },
        TypeSpecView::Generic { name, type_params } => {
            if type_params.len() == 1 {
                lemma_resolved_closed(types, regions, type_params[0]);
            }
        },
        TypeSpecView::BorrowRead { lhs, rhs } => {
            lemma_resolved_closed(types, regions, *lhs);
        },
        TypeSpecView::BorrowWrite { lhs, rhs } => {
            lemma_resolved_closed(types, regions, *lhs);
        },
        TypeSpecView::SpanRead { lhs, rhs } => {
            lemma_resolved_closed(types, regions, *lhs);
        },
        TypeSpecView::SpanWrite { lhs, rhs } => {
            lemma_resolved_closed(types, regions, *lhs);
        },
    }
}

proof fn lemma_expression(cx: Context, e: ExpressionView, expected: Option<TyView>)
    requires
        closed_context(cx),
    ensures
        sound(typed_expression(cx, e, expected)),
    decreases e, 3nat,
{
    reveal(typed_expression);
    reveal(typed_atomic);
    reveal(typed_compound);
    match e {
        ExpressionView::Atomic(a) => lemma_atomic(cx, a, expected),
        ExpressionView::Compound(c) => lemma_compound(cx, c, expected),
    }
}

proof fn lemma_atomic(cx: Context, a: AtomicExprView, expected: Option<TyView>)
    requires
        closed_context(cx),
    ensures
        sound(typed_atomic(cx, a, expected)),
    decreases a, 2nat,
{
    reveal(typed_atomic);
    reveal(typed_call);
    reveal(typed_path);
    reveal(typed_ref_path);
    reveal(typed_expression);
    reveal(typed_embed);
    reveal(typed_deref);
    match a {
        AtomicExprView::FnCall(call) => lemma_call(cx, call),
        AtomicExprView::Path(path) => lemma_path(cx, path),
        AtomicExprView::RefPath(path) => lemma_ref_path(cx, path),
        AtomicExprView::Paren(inner) => lemma_expression(cx, *inner, expected),
        AtomicExprView::Intrinsic(intrinsic) => lemma_embed(cx, intrinsic),
        AtomicExprView::SizeOf(spec) => {
            lemma_resolved_closed(cx.scope.types, cx.scope.regions, spec);
            lemma_literals(a, expected);
        },
        AtomicExprView::BorrowRead(name) => lemma_borrow(cx, name, BorrowingMode::ReadBorrow),
        AtomicExprView::BorrowWrite(name) => lemma_borrow(cx, name, BorrowingMode::WriteBorrow),
        AtomicExprView::ReBorrow(name) => lemma_reborrow(cx, name),
        AtomicExprView::Deref(inner) => lemma_deref(cx, *inner),
        _ => lemma_literals(a, expected),
    }
}

proof fn lemma_literals(a: AtomicExprView, expected: Option<TyView>)
    ensures
        sound(typed_constant(a, expected)),
        regions_closed(size_ty()),
{
    reveal_with_fuel(regions_closed, 3);
    reveal_with_fuel(closed_expr, 3);
}

proof fn lemma_borrow(cx: Context, name: Seq<char>, mode: BorrowingMode)
    requires
        closed_context(cx),
    ensures
        sound(typed_borrow(cx, name, mode)),
{
    reveal_with_fuel(regions_closed, 2);
    lemma_find_variable(cx.scope.variables, name);
}

proof fn lemma_reborrow(cx: Context, name: Seq<char>)
    requires
        closed_context(cx),
    ensures
        sound(typed_reborrow(cx, name)),
{
    reveal_with_fuel(regions_closed, 2);
    lemma_find_variable(cx.scope.variables, name);
}

proof fn lemma_ref_path(cx: Context, path: PathExprView)
    requires
        closed_context(cx),
    ensures
        sound(typed_ref_path(cx, path)),
    decreases path, 1nat,
{
    reveal(typed_ref_path);
    reveal(typed_path);
    reveal_with_fuel(regions_closed, 2);
    lemma_path(cx, path);
}

proof fn lemma_embed(cx: Context, intrinsic: IntrinExprView)
    requires
        closed_context(cx),
    ensures
        sound(typed_embed(cx, intrinsic)),
    decreases intrinsic, 1nat,
{
    reveal(typed_embed);
    reveal(typed_each);
    match intrinsic {
        IntrinExprView::Embed { ty, exp, args } => {
            lemma_resolved_closed(cx.scope.types, cx.scope.regions, ty);
            lemma_each(cx, args, 0, Seq::empty());
        },
    }
}

proof fn lemma_deref(cx: Context, inner: AtomicExprView)
    requires
        closed_context(cx),
    ensures
        sound(typed_deref(cx, inner)),
    decreases inner, 3nat,
{
    reveal(typed_deref);
    reveal(typed_atomic);
    lemma_atomic(cx, inner, None);
}

proof fn lemma_each(cx: Context, es: Seq<ExpressionView>, k: nat, acc: Seq<TExprView>)
    requires
        closed_context(cx),
        closed_all(acc),
    ensures
        sound_all(typed_each(cx, es, k, acc)),
    decreases es, es.len() - k,
{
    reveal(typed_each);
    reveal(typed_expression);
    if k < es.len() {
        lemma_expression(cx, es[k as int], None);
        match typed_expression(cx, es[k as int], None) {
            Ok((e, _)) => lemma_each(cx, es, k + 1, acc.push(e)),
            Err(_) => {},
        }
    }
}

proof fn lemma_path(cx: Context, path: PathExprView)
    requires
        closed_context(cx),
    ensures
        sound(typed_path(cx, path)),
    decreases path, 0nat,
{
    reveal(typed_path);
    reveal(typed_segments);
    lemma_find_variable(cx.scope.variables, path.first);
    lemma_find_constant(cx.env.constants, path.first, 0);
    match find_variable_in(cx.scope.variables, path.first) {
        Some(i) => lemma_segments(
            cx,
            path.extra,
            0,
            variable_expr(cx.scope.variables[i]),
            cx.scope.variables[i].ty,
        ),
        None => match find_constant_in(cx.env.constants, path.first, 0) {
            Some(i) => lemma_segments(
                cx,
                path.extra,
                0,
                TExprView::TConstVar(cx.env.constants[i].name, cx.env.constants[i].ty),
                cx.env.constants[i].ty,
            ),
            None => {},
        },
    }
}

proof fn lemma_record_slot(records: Seq<RecordInfoView>, ty: TyView, name: Seq<char>)
    requires
        forall|i: int| 0 <= i < records.len() ==> closed_record(#[trigger] records[i]),
    ensures
        record_slot_ty(records, ty, name) matches Ok(t) ==> regions_closed(t),
{
    lemma_find_record_of(records, ty, 0);
    match find_record_of_in(records, ty, 0) {
        Some(r) => {
            lemma_find_slot(records[r].slots, name, 0);
        },
        None => {},
    }
}

proof fn lemma_segments(
    cx: Context,
    segments: Seq<PathSegmentView>,
    k: nat,
    place: TExprView,
    ty: TyView,
)
    requires
        closed_context(cx),
        closed_expr(place),
        regions_closed(ty),
    ensures
        sound(typed_segments(cx, segments, k, place, ty)),
    decreases segments, segments.len() - k,
{
    reveal(typed_segments);
    reveal(typed_expression);
    if k < segments.len() {
        match segments[k as int] {
            PathSegmentView::SlotAccess(name) => {
                lemma_record_slot(cx.env.records, ty, name);
                match record_slot_ty(cx.env.records, ty, name) {
                    Ok(slot) => lemma_segments(
                        cx,
                        segments,
                        k + 1,
                        TExprView::TSlotAccessor(Box::new(place), name, slot),
                        slot,
                    ),
                    Err(_) => {},
                }
            },
            PathSegmentView::PtrSlotAccess(name) => match ty {
                TyView::Pointer(target) => {
                    lemma_record_slot(cx.env.records, *target, name);
                    match record_slot_ty(cx.env.records, *target, name) {
                        Ok(slot) => lemma_segments(
                            cx,
                            segments,
                            k + 1,
                            TExprView::TPointerSlotAccessor(Box::new(place), name, slot),
                            slot,
                        ),
                        Err(_) => {},
                    }
                },
                _ => {},
            },
            PathSegmentView::ArrayIndex(index) => {
                lemma_expression(cx, *index, None);
                match typed_expression(cx, *index, None) {
                    Ok((i, it)) => match index_ty(ty, it) {
                        Ok(element) => lemma_segments(
                            cx,
                            segments,
                            k + 1,
                            if ty is Pointer {
                                TExprView::TArrayIndex(Box::new(place), Box::new(i), element)
                            } else {
                                TExprView::TSpanIndex(Box::new(place), Box::new(i), element)
                            },
                            element,
                        ),
                        Err(_) => {},
                    },
                    Err(_) => {},
                }
            },
        }
    }
}

proof fn lemma_call(cx: Context, call: FnCallExprView)
    requires
        closed_context(cx),
    ensures
        sound(typed_call(cx, call)),
    decreases call, 1nat,
{
    reveal(typed_call);
    reveal(typed_function_call);
    reveal(typed_record);
    reveal(typed_union_case);
    reveal(typed_method_call);
    lemma_find_function(cx.env.functions, call.target, 0);
    lemma_find_record(cx.env.records, call.target, 0);
    lemma_find_union_with_case(cx.env.unions, call.target, 0);
    lemma_find_method(cx.env.methods, call.target, 0);
    match find_function_in(cx.env.functions, call.target, 0) {
        Some(i) => lemma_function_call(cx, cx.env.functions[i], call),
        None => match find_record_in(cx.env.records, call.target, 0) {
            Some(r) => lemma_record(cx, cx.env.records[r], call),
            None => match find_union_with_case_in(cx.env.unions, call.target, 0) {
                None => match find_method_in(cx.env.methods, call.target, 0) {
                    None => {},
                    Some(m) => lemma_method_call(cx, cx.env.methods[m], call),
                },
                Some(u) => {
                    lemma_find_case(cx.env.unions[u].cases, call.target, 0);
                    lemma_union_case(
                        cx,
                        cx.env.unions[u],
                        cx.env.unions[u].cases[find_case_in(cx.env.unions[u].cases, call.target, 0)->0],
                        call,
                    );
                },
            },
        },
    }
}

/// What the search finds is a place in the list.
pub proof fn lemma_find_method(items: Seq<MethodInfoView>, name: Seq<char>, from: int)
    requires
        0 <= from,
    ensures
        find_method_in(items, name, from) matches Some(i) ==> 0 <= i < items.len(),
    decreases items.len() - from,
{
    if from < items.len() && items[from].name != name {
        lemma_find_method(items, name, from + 1);
    }
}

/// What the search finds is a place in the list.
pub proof fn lemma_find_method_of(
    items: Seq<MethodInfoView>,
    class: Seq<char>,
    name: Seq<char>,
    from: int,
)
    requires
        0 <= from,
    ensures
        find_method_of_in(items, class, name, from) matches Some(i) ==> 0 <= i < items.len(),
    decreases items.len() - from,
{
    if from < items.len() && !(items[from].typeclass == class && items[from].name == name) {
        lemma_find_method_of(items, class, name, from + 1);
    }
}

/// What the search finds is a place in the list.
pub proof fn lemma_find_instance(
    items: Seq<InstanceInfoView>,
    class: Seq<char>,
    arg: TyView,
    from: int,
)
    requires
        0 <= from,
    ensures
        find_instance_in(items, class, arg, from) matches Some(i) ==> 0 <= i < items.len(),
    decreases items.len() - from,
{
    if from < items.len() && !(items[from].typeclass == class && items[from].arg == arg) {
        lemma_find_instance(items, class, arg, from + 1);
    }
}

/// What the search finds is a place in the list.
pub proof fn lemma_dispatch_position(params: Seq<ValueParameterView>, variable: u64, from: int)
    requires
        0 <= from,
    ensures
        dispatch_position(params, variable, from) matches Some(i) ==> 0 <= i < params.len(),
    decreases params.len() - from,
{
    if from < params.len() && !(params[from].ty matches TyView::TyVar(v, _, _) && v == variable) {
        lemma_dispatch_position(params, variable, from + 1);
    }
}

/// Parameters of closed types are of closed types again when a closed type
/// is put for a type variable.
pub proof fn lemma_bound_params(params: Seq<ValueParameterView>, variable: u64, with: TyView)
    requires
        closed_slots(params),
        regions_closed(with),
    ensures
        closed_slots(bound_params(params, variable, with)),
{
    let bound = bound_params(params, variable, with);
    assert forall|i: int| 0 <= i < bound.len() implies regions_closed((#[trigger] bound[i]).ty) by {
        assert(regions_closed(params[i].ty));
        lemma_substituted_closed(params[i].ty, variable, with);
    }
}

proof fn lemma_dispatch(cx: Context, param: ValueParameterView, args: FnCallArgsView, i: int)
    requires
        closed_context(cx),
    ensures
        typed_dispatch(cx, param, args, i) matches Ok(d) ==> regions_closed(d),
    decreases args, 0nat,
{
    reveal(typed_dispatch);
    reveal(typed_expression);
    match args {
        FnCallArgsView::Empty => {},
        FnCallArgsView::Positional(values) => {
            if 0 <= i < values.len() {
                lemma_expression(cx, values[i], None);
            }
        },
        FnCallArgsView::Named(pairs) => match find_named_arg_in(pairs, param.name, 0) {
            None => {},
            Some(j) => if 0 <= j < pairs.len() {
                lemma_expression(cx, pairs[j].value, None);
            },
        },
    }
}

proof fn lemma_method_call(cx: Context, m: MethodInfoView, call: FnCallExprView)
    requires
        closed_context(cx),
        closed_method(m),
    ensures
        sound(typed_method_call(cx, m, call)),
    decreases call, 0nat,
{
    reveal(typed_method_call);
    reveal(typed_dispatch);
    reveal(typed_arguments);
    lemma_dispatch_position(m.params, m.variable, 0);
    match dispatch_position(m.params, m.variable, 0) {
        None => {},
        Some(i) => {
            lemma_dispatch(cx, m.params[i], call.args, i);
            match typed_dispatch(cx, m.params[i], call.args, i) {
                Err(_) => {},
                Ok(d) => {
                    lemma_bound_params(m.params, m.variable, d);
                    lemma_substituted_closed(m.ret, m.variable, d);
                    lemma_arguments(cx, bound_params(m.params, m.variable, d), call.args);
                },
            }
        },
    }
}

proof fn lemma_function_call(cx: Context, f: FunctionSigView, call: FnCallExprView)
    requires
        closed_context(cx),
        closed_function(f),
    ensures
        sound(typed_function_call(cx, f, call)),
    decreases call, 0nat,
{
    reveal(typed_function_call);
    reveal(typed_arguments);
    reveal(typed_instantiation);
    if f.variables.len() == 0 {
        lemma_arguments(cx, f.params, call.args);
    } else {
        lemma_instantiation(cx, f, call.args, 0, Seq::empty());
        match typed_instantiation(cx, f, call.args, 0, Seq::empty()) {
            Ok(bindings) => {
                lemma_instantiated_params(f.params, bindings);
                lemma_instantiated_closed(f.ret, bindings);
                lemma_arguments(cx, instantiated_params(f.params, bindings), call.args);
            },
            Err(_) => {},
        }
    }
}

/// Parameters of closed types are of closed types again when closed types
/// are put for their type variables.
pub proof fn lemma_instantiated_params(
    params: Seq<ValueParameterView>,
    bindings: Seq<TypeBindingView>,
)
    requires
        closed_slots(params),
        closed_bindings_of(bindings),
    ensures
        closed_slots(instantiated_params(params, bindings)),
{
    let bound = instantiated_params(params, bindings);
    assert forall|i: int| 0 <= i < bound.len() implies regions_closed((#[trigger] bound[i]).ty) by {
        assert(regions_closed(params[i].ty));
        lemma_instantiated_closed(params[i].ty, bindings);
    }
}

proof fn lemma_instantiation(
    cx: Context,
    f: FunctionSigView,
    args: FnCallArgsView,
    k: nat,
    acc: Seq<TypeBindingView>,
)
    requires
        closed_context(cx),
        closed_bindings_of(acc),
    ensures
        typed_instantiation(cx, f, args, k, acc) matches Ok(r) ==> closed_bindings_of(r),
    decreases args, f.variables.len() - k + 1,
{
    reveal(typed_instantiation);
    reveal(typed_dispatch);
    if k < f.variables.len() {
        lemma_dispatch_position(f.params, f.variables[k as int].id, 0);
        match dispatch_position(f.params, f.variables[k as int].id, 0) {
            None => {},
            Some(i) => {
                lemma_dispatch(cx, f.params[i], args, i);
                match typed_dispatch(cx, f.params[i], args, i) {
                    Err(_) => {},
                    Ok(d) => lemma_instantiation(
                        cx,
                        f,
                        args,
                        k + 1,
                        acc.push(TypeBindingView { variable: f.variables[k as int].id, ty: d }),
                    ),
                }
            },
        }
    }
}

proof fn lemma_record(cx: Context, record: RecordInfoView, call: FnCallExprView)
    requires
        closed_context(cx),
        closed_record(record),
    ensures
        sound(typed_record(cx, record, call)),
    decreases call, 0nat,
{
    reveal(typed_record);
    reveal(typed_arguments);
    lemma_arguments(cx, record.slots, call.args);
}

proof fn lemma_union_case(
    cx: Context,
    union: UnionInfoView,
    case: CaseInfoView,
    call: FnCallExprView,
)
    requires
        closed_context(cx),
        closed_union(union),
    ensures
        sound(typed_union_case(cx, union, case, call)),
    decreases call, 0nat,
{
    reveal(typed_union_case);
    reveal(typed_arguments);
    lemma_arguments(cx, case.slots, call.args);
}

proof fn lemma_arguments(cx: Context, params: Seq<ValueParameterView>, args: FnCallArgsView)
    requires
        closed_context(cx),
    ensures
        sound_all(typed_arguments(cx, params, args)),
    decreases args, 0nat,
{
    reveal(typed_arguments);
    reveal(typed_positional);
    reveal(typed_named);
    match args {
        FnCallArgsView::Empty => {},
        FnCallArgsView::Positional(values) => lemma_positional(cx, params, values, 0, Seq::empty()),
        FnCallArgsView::Named(pairs) => lemma_named(cx, params, pairs, 0, Seq::empty()),
    }
}

proof fn lemma_argument(cx: Context, param: ValueParameterView, value: ExpressionView)
    requires
        closed_context(cx),
    ensures
        typed_argument(cx, param, value) matches Ok(e) ==> closed_expr(e),
    decreases value, 4nat,
{
    reveal(typed_argument);
    reveal(typed_expression);
    lemma_expression(cx, value, Some(param.ty));
}

proof fn lemma_positional(
    cx: Context,
    params: Seq<ValueParameterView>,
    values: Seq<ExpressionView>,
    k: nat,
    acc: Seq<TExprView>,
)
    requires
        closed_context(cx),
        closed_all(acc),
    ensures
        sound_all(typed_positional(cx, params, values, k, acc)),
    decreases values, values.len() - k,
{
    reveal(typed_positional);
    reveal(typed_argument);
    if k < values.len() && k < params.len() {
        lemma_argument(cx, params[k as int], values[k as int]);
        match typed_argument(cx, params[k as int], values[k as int]) {
            Ok(e) => lemma_positional(cx, params, values, k + 1, acc.push(e)),
            Err(_) => {},
        }
    }
}

proof fn lemma_named(
    cx: Context,
    params: Seq<ValueParameterView>,
    pairs: Seq<NamedArgView>,
    k: nat,
    acc: Seq<TExprView>,
)
    requires
        closed_context(cx),
        closed_all(acc),
    ensures
        sound_all(typed_named(cx, params, pairs, k, acc)),
    decreases pairs, params.len() - k,
{
    reveal(typed_named);
    reveal(typed_argument);
    if k < params.len() {
        match find_named_arg_in(pairs, params[k as int].name, 0) {
            None => {},
            Some(j) => if 0 <= j < pairs.len() {
                lemma_argument(cx, params[k as int], pairs[j].value);
                match typed_argument(cx, params[k as int], pairs[j].value) {
                    Ok(e) => lemma_named(cx, params, pairs, k + 1, acc.push(e)),
                    Err(_) => {},
                }
            },
        }
    }
}

proof fn lemma_compound(cx: Context, c: CompoundExprView, expected: Option<TyView>)
    requires
        closed_context(cx),
    ensures
        sound(typed_compound(cx, c, expected)),
    decreases c, 2nat,
{
    reveal(typed_compound);
    reveal(typed_not);
    reveal(typed_negative);
    reveal(typed_select);
    reveal(typed_cast);
    reveal(typed_binary);
    match c {
        CompoundExprView::Logic(LogicExprView::Not(operand)) => lemma_not(cx, operand),
        CompoundExprView::Arith(ArithExprView::Neg(operand)) => lemma_negative(
            cx,
            operand,
            expected,
        ),
        CompoundExprView::Select(e) => lemma_select(cx, e, expected),
        CompoundExprView::Cast(e) => lemma_cast(cx, e),
        _ => lemma_binary(cx, c, expected),
    }
}

proof fn lemma_not(cx: Context, operand: AtomicExprView)
    requires
        closed_context(cx),
    ensures
        sound(typed_not(cx, operand)),
    decreases operand, 3nat,
{
    reveal(typed_not);
    reveal(typed_atomic);
    lemma_atomic(cx, operand, None);
}

proof fn lemma_negative(cx: Context, operand: AtomicExprView, expected: Option<TyView>)
    requires
        closed_context(cx),
    ensures
        sound(typed_negative(cx, operand, expected)),
    decreases operand, 3nat,
{
    reveal(typed_negative);
    reveal(typed_atomic);
    reveal_with_fuel(closed_expr, 3);
    lemma_atomic(cx, operand, expected);
}

proof fn lemma_select(cx: Context, e: SelectExprView, expected: Option<TyView>)
    requires
        closed_context(cx),
    ensures
        sound(typed_select(cx, e, expected)),
    decreases e, 1nat,
{
    reveal(typed_select);
    reveal(typed_expression);
    lemma_expression(cx, *e.condition, Some(TyView::Boolean));
    lemma_expression(cx, *e.value_true, expected);
    match typed_expression(cx, *e.value_true, expected) {
        Ok((a, at)) => lemma_expression(cx, *e.value_false, Some(at)),
        Err(_) => {},
    }
}

proof fn lemma_cast(cx: Context, e: CastExprView)
    requires
        closed_context(cx),
    ensures
        sound(typed_cast(cx, e)),
    decreases e, 1nat,
{
    reveal(typed_cast);
    reveal(typed_atomic);
    lemma_resolved_closed(cx.scope.types, cx.scope.regions, e.ty);
    match resolved_ty(cx.scope.types, cx.scope.regions, e.ty) {
        Ok(target) => lemma_atomic(cx, e.value, Some(target)),
        Err(_) => {},
    }
}

proof fn lemma_binary(cx: Context, c: CompoundExprView, expected: Option<TyView>)
    requires
        closed_context(cx),
    ensures
        sound(typed_binary(cx, c, expected)),
    decreases c, 1nat,
{
    reveal(typed_binary);
    reveal(typed_atomic);
    match operands_of(c) {
        None => {},
        Some((lhs, rhs)) => {
            let wanted = if c is Arith {
                expected
            } else {
                None
            };
            if is_number_literal(lhs) && !is_number_literal(rhs) {
                lemma_atomic(cx, rhs, wanted);
                match typed_atomic(cx, rhs, wanted) {
                    Ok(second) => lemma_atomic(cx, lhs, Some(second.1)),
                    Err(_) => {},
                }
            } else {
                lemma_atomic(cx, lhs, wanted);
                match typed_atomic(cx, lhs, wanted) {
                    Ok(first) => lemma_atomic(cx, rhs, Some(first.1)),
                    Err(_) => {},
                }
            }
        },
    }
}

/// Type soundness of expressions. Where every type that the environment
/// and the scope hold is closed, the expression that the checker accepts
/// is of a closed type, and so is every expression inside its typed form.
pub proof fn law_typed_expressions_are_closed(
    cx: Context,
    e: ExpressionView,
    expected: Option<TyView>,
)
    requires
        closed_context(cx),
    ensures
        typed_expression(cx, e, expected) matches Ok(typed) ==> regions_closed(typed.1) && closed_expr(
            typed.0,
        ),
{
    lemma_expression(cx, e, expected);
}

/// Whether the type of every binding of a list is closed.
pub open spec fn closed_bindings(bs: Seq<TypedBindingView>) -> bool {
    forall|i: int| 0 <= i < bs.len() ==> regions_closed((#[trigger] bs[i]).ty)
}

/// Whether every type that a typed statement carries is closed.
pub open spec fn closed_stmt(s: TStmtView) -> bool
    decreases s,
{
    match s {
        TStmtView::TSkip(_) => true,
        TStmtView::TLet(
            _,
            _,
            e,
            _,
            ty,
            body,
        ) => closed_expr(*e) && regions_closed(ty) && closed_stmt(*body),
        TStmtView::TDestructure(
            _,
            _,
            bindings,
            e,
            body,
        ) => closed_bindings(bindings) && closed_expr(*e)
            && closed_stmt(*body),
        TStmtView::TAssign(_, a, b) => closed_expr(*a) && closed_expr(*b),
        TStmtView::TAssignVar(_, _, e) => closed_expr(*e),
        TStmtView::TInitialAssign(_, e) => closed_expr(*e),
        TStmtView::TIf(_, c, a, b) => closed_expr(*c) && closed_stmt(*a) && closed_stmt(*b),
        TStmtView::TCase(_, e, whens, _) => closed_expr(*e) && forall|i: int|
            0 <= i < whens.len() ==> closed_bindings((#[trigger] whens[i]).1) && closed_stmt(*whens[i].2),
        TStmtView::TWhile(_, c, body) => closed_expr(*c) && closed_stmt(*body),
        TStmtView::TFor(
            _,
            _,
            a,
            b,
            body,
        ) => closed_expr(*a) && closed_expr(*b) && closed_stmt(*body),
        TStmtView::TBorrow { orig_type, ref_type, body, .. } => regions_closed(orig_type) && regions_closed(
            ref_type,
        ) && closed_stmt(*body),
        TStmtView::TBlock(_, a, b) => closed_stmt(*a) && closed_stmt(*b),
        TStmtView::TDiscarding(_, e) => closed_expr(*e),
        TStmtView::TReturn(_, e) => closed_expr(*e),
        TStmtView::TLetTmp(_, ty, e) => regions_closed(ty) && closed_expr(*e),
        TStmtView::TAssignTmp(_, e) => closed_expr(*e),
    }
}

/// Whether a typed statement, if there is one, is closed.
pub open spec fn sound_stmt(r: TypedStmt) -> bool {
    r matches Ok(s) ==> closed_stmt(s)
}

/// Whether what a `let` binds is closed.
pub open spec fn closed_head(head: LetHeadView) -> bool {
    match head {
        LetHeadView::Simple(_, value, _, ty) => closed_expr(value) && regions_closed(ty),
        LetHeadView::Destructure(
            _,
            bindings,
            value,
        ) => closed_bindings(bindings) && closed_expr(value),
    }
}

proof fn lemma_scope_plus(scope: ScopeView, name: Seq<char>, ty: TyView, mutability: Mutability)
    requires
        closed_scope(scope),
        regions_closed(ty),
    ensures
        closed_scope(scope_plus(scope, name, ty, mutability)),
{
    let after = scope_plus(scope, name, ty, mutability);
    assert forall|i: int| 0 <= i < after.variables.len() implies regions_closed(
        (#[trigger] after.variables[i]).ty,
    ) by {
        if i < scope.variables.len() {
            assert(after.variables[i] == scope.variables[i]);
        }
    }
}

proof fn lemma_scope_plus_bindings(
    scope: ScopeView,
    bindings: Seq<TypedBindingView>,
    mutability: Mutability,
    k: nat,
)
    requires
        closed_scope(scope),
        closed_bindings(bindings),
    ensures
        closed_scope(scope_plus_bindings(scope, bindings, mutability, k)),
    decreases bindings.len() - k,
{
    if k < bindings.len() {
        lemma_scope_plus(scope, bindings[k as int].rename, bindings[k as int].ty, mutability);
        lemma_scope_plus_bindings(
            scope_plus(scope, bindings[k as int].rename, bindings[k as int].ty, mutability),
            bindings,
            mutability,
            k + 1,
        );
    }
}

proof fn lemma_bindings(cx: Context, bs: Seq<BindingView>, k: nat, acc: Seq<TypedBindingView>)
    requires
        closed_context(cx),
        closed_bindings(acc),
    ensures
        typed_bindings(cx, bs, k, acc) matches Ok(r) ==> closed_bindings(r),
    decreases bs.len() - k,
{
    if k < bs.len() {
        lemma_resolved_closed(cx.scope.types, cx.scope.regions, bs[k as int].ty);
        match typed_binding(cx, bs[k as int]) {
            Ok(b) => lemma_bindings(cx, bs, k + 1, acc.push(b)),
            Err(_) => {},
        }
    }
}

proof fn lemma_let(cx: Context, s: LetStmtView)
    requires
        closed_context(cx),
    ensures
        typed_let(
            cx,
            s,
        ) matches Ok(head) ==> closed_head(head) && closed_scope(let_scope(cx.scope, head)),
{
    match s.target {
        LetStmtTargetView::Simple { name, ty } => {
            lemma_resolved_closed(cx.scope.types, cx.scope.regions, ty);
            match resolved_ty(cx.scope.types, cx.scope.regions, ty) {
                Ok(t) => {
                    lemma_expression(cx, s.value, Some(t));
                    lemma_scope_plus(cx.scope, name, t, mutability_of(s.is_mutable));
                },
                Err(_) => {},
            }
        },
        LetStmtTargetView::Destructure(bs) => {
            lemma_expression(cx, s.value, None);
            lemma_bindings(cx, bs, 0, Seq::empty());
            match typed_bindings(cx, bs, 0, Seq::empty()) {
                Ok(bindings) => lemma_scope_plus_bindings(
                    cx.scope,
                    bindings,
                    mutability_of(s.is_mutable),
                    0,
                ),
                Err(_) => {},
            }
        },
    }
}

proof fn lemma_assign(cx: Context, a: AssignStmtView)
    requires
        closed_context(cx),
    ensures
        sound_stmt(typed_assign(cx, a)),
{
    lemma_path(cx, a.target);
    match typed_path(cx, a.target) {
        Ok((_, pt)) => lemma_expression(cx, a.value, Some(pt)),
        Err(_) => {},
    }
}

proof fn lemma_plain_statements(cx: Context, e: ExpressionView)
    requires
        closed_context(cx),
    ensures
        sound_stmt(typed_return(cx, e)),
        sound_stmt(typed_discard(cx, e)),
        typed_condition(cx, e) matches Ok(c) ==> closed_expr(c),
{
    lemma_expression(cx, e, Some(cx.scope.ret));
    lemma_expression(cx, e, None);
}

proof fn lemma_bounds(cx: Context, f: ForStmtView)
    requires
        closed_context(cx),
    ensures
        typed_bounds(
            cx,
            f,
        ) matches Ok(b) ==> closed_expr(b.0) && closed_expr(b.1) && regions_closed(b.2),
{
    lemma_expression(cx, f.start, None);
    match typed_expression(cx, f.start, None) {
        Ok((_, ft)) => lemma_expression(cx, f.end, Some(ft)),
        Err(_) => {},
    }
}

proof fn lemma_origin(cx: Context, b: BorrowStmtView)
    requires
        closed_context(cx),
    ensures
        typed_origin(cx, b) matches Ok(found) ==> regions_closed(found.0) && regions_closed(found.1)
            && closed_scope(borrow_scope(cx.scope, b, found.1)),
{
    reveal_with_fuel(regions_closed, 2);
    lemma_find_variable(cx.scope.variables, b.orig);
    match typed_origin(cx, b) {
        Ok(found) => {
            let opened = scope_plus_region(cx.scope, b.reg);
            assert(closed_scope(opened));
            lemma_scope_plus(opened, b.name, found.1, Mutability::Immutable);
        },
        Err(_) => {},
    }
}

proof fn lemma_block(cx: Context, stmts: Seq<StatementView>, k: nat)
    requires
        closed_context(cx),
    ensures
        sound_stmt(typed_block(cx, stmts, k)),
    decreases stmts, stmts.len() - k,
{
    reveal(typed_block);
    reveal(typed_statement);
    if k < stmts.len() {
        match stmts[k as int] {
            StatementView::Let(s) => {
                lemma_let(cx, s);
                match typed_let(cx, s) {
                    Ok(head) => lemma_block(within(cx, let_scope(cx.scope, head)), stmts, k + 1),
                    Err(_) => {},
                }
            },
            other => {
                lemma_statement(cx, other);
                lemma_block(cx, stmts, k + 1);
            },
        }
    }
}

proof fn lemma_statement(cx: Context, s: StatementView)
    requires
        closed_context(cx),
    ensures
        sound_stmt(typed_statement(cx, s)),
    decreases s, 1nat,
{
    reveal(typed_statement);
    reveal(typed_borrow_statement);
    reveal(typed_case);
    reveal(typed_for);
    reveal(typed_if);
    reveal(typed_while);
    reveal_with_fuel(closed_stmt, 2);
    match s {
        StatementView::Assign(a) => lemma_assign(cx, a),
        StatementView::Borrow(b) => lemma_borrow_statement(cx, b),
        StatementView::Case(c) => lemma_case(cx, c),
        StatementView::Discard(e) => lemma_plain_statements(cx, e),
        StatementView::For(f) => lemma_for(cx, f),
        StatementView::If(i) => lemma_if(cx, i),
        StatementView::Let(l) => lemma_let(cx, l),
        StatementView::Return(e) => lemma_plain_statements(cx, e),
        StatementView::While(w) => lemma_while(cx, w),
    }
}

proof fn lemma_borrow_statement(cx: Context, b: BorrowStmtView)
    requires
        closed_context(cx),
    ensures
        sound_stmt(typed_borrow_statement(cx, b)),
    decreases b, 0nat,
{
    reveal(typed_borrow_statement);
    reveal(typed_block);
    lemma_origin(cx, b);
    match typed_origin(cx, b) {
        Ok((_, reference)) => lemma_block(
            within(cx, borrow_scope(cx.scope, b, reference)),
            b.body,
            0,
        ),
        Err(_) => {},
    }
}

proof fn lemma_case(cx: Context, c: CaseStmtView)
    requires
        closed_context(cx),
    ensures
        sound_stmt(typed_case(cx, c)),
    decreases c, 0nat,
{
    reveal(typed_case);
    reveal(typed_whens);
    lemma_expression(cx, c.value, None);
    match typed_expression(cx, c.value, None) {
        Ok((_, t)) => {
            lemma_find_union_of(cx.env.unions, t, 0);
            match find_union_of_in(cx.env.unions, t, 0) {
                Some(i) => lemma_whens(cx, cx.env.unions[i].cases, c.variants, 0, Seq::empty()),
                None => {},
            }
        },
        Err(_) => {},
    }
}

/// Whether every `when` clause of a list is closed.
pub open spec fn closed_whens(whens: Seq<TypedWhenView>) -> bool {
    forall|i: int|
        0 <= i < whens.len() ==> closed_bindings((#[trigger] whens[i]).1) && closed_stmt(*whens[i].2)
}

proof fn lemma_whens(
    cx: Context,
    cases: Seq<CaseInfoView>,
    whens: Seq<CaseWhenView>,
    k: nat,
    acc: Seq<TypedWhenView>,
)
    requires
        closed_context(cx),
        closed_whens(acc),
    ensures
        typed_whens(cx, cases, whens, k, acc) matches Ok(r) ==> closed_whens(r),
    decreases whens, whens.len() - k,
{
    reveal(typed_whens);
    reveal(typed_when);
    if k < whens.len() {
        lemma_when(cx, cases, whens[k as int]);
        match typed_when(cx, cases, whens[k as int]) {
            Ok(w) => lemma_whens(cx, cases, whens, k + 1, acc.push(w)),
            Err(_) => {},
        }
    }
}

proof fn lemma_when(cx: Context, cases: Seq<CaseInfoView>, w: CaseWhenView)
    requires
        closed_context(cx),
    ensures
        typed_when(cx, cases, w) matches Ok(r) ==> closed_bindings(r.1) && closed_stmt(*r.2),
    decreases w, 0nat,
{
    reveal(typed_when);
    reveal(typed_block);
    lemma_bindings(cx, w.bindings, 0, Seq::empty());
    match typed_bindings(cx, w.bindings, 0, Seq::empty()) {
        Ok(bindings) => {
            lemma_scope_plus_bindings(cx.scope, bindings, Mutability::Immutable, 0);
            lemma_block(
                within(cx, scope_plus_bindings(cx.scope, bindings, Mutability::Immutable, 0)),
                w.block,
                0,
            );
        },
        Err(_) => {},
    }
}

proof fn lemma_for(cx: Context, f: ForStmtView)
    requires
        closed_context(cx),
    ensures
        sound_stmt(typed_for(cx, f)),
    decreases f, 0nat,
{
    reveal(typed_for);
    reveal(typed_block);
    lemma_bounds(cx, f);
    match typed_bounds(cx, f) {
        Ok((_, _, t)) => {
            lemma_scope_plus(cx.scope, f.name, t, Mutability::Immutable);
            lemma_block(
                within(cx, scope_plus(cx.scope, f.name, t, Mutability::Immutable)),
                f.contents,
                0,
            );
        },
        Err(_) => {},
    }
}

proof fn lemma_if(cx: Context, i: IfStmtView)
    requires
        closed_context(cx),
    ensures
        sound_stmt(typed_if(cx, i)),
    decreases i, 1nat,
{
    reveal(typed_if);
    reveal(typed_otherwise);
    reveal(typed_block);
    lemma_plain_statements(cx, i.value);
    lemma_block(cx, i.contents, 0);
    lemma_otherwise(cx, i);
}

proof fn lemma_otherwise(cx: Context, i: IfStmtView)
    requires
        closed_context(cx),
    ensures
        sound_stmt(typed_otherwise(cx, i)),
    decreases i, 0nat,
{
    reveal(typed_otherwise);
    reveal(typed_block);
    match i.otherwise {
        Some(stmts) => lemma_block(cx, stmts, 0),
        None => {},
    }
}

proof fn lemma_while(cx: Context, w: WhileStmtView)
    requires
        closed_context(cx),
    ensures
        sound_stmt(typed_while(cx, w)),
    decreases w, 0nat,
{
    reveal(typed_while);
    reveal(typed_block);
    lemma_plain_statements(cx, w.value);
    lemma_block(cx, w.contents, 0);
}

/// Type soundness of statements. Where every type that the environment
/// and the scope hold is closed, every type in the typed form of a block
/// that the checker accepts is closed.
pub proof fn law_typed_statements_are_closed(cx: Context, stmts: Seq<StatementView>)
    requires
        closed_context(cx),
    ensures
        typed_block(cx, stmts, 0) matches Ok(s) ==> closed_stmt(s),
{
    lemma_block(cx, stmts, 0);
}

/// Whether every record of a list is closed.
pub open spec fn closed_records(records: Seq<RecordInfoView>) -> bool {
    forall|i: int| 0 <= i < records.len() ==> closed_record(#[trigger] records[i])
}

/// Whether every case of a list is closed.
pub open spec fn closed_cases(cases: Seq<CaseInfoView>) -> bool {
    forall|i: int| 0 <= i < cases.len() ==> closed_case(#[trigger] cases[i])
}

/// Whether every union of a list is closed.
pub open spec fn closed_unions(unions: Seq<UnionInfoView>) -> bool {
    forall|i: int| 0 <= i < unions.len() ==> closed_union(#[trigger] unions[i])
}

/// Whether the type of every constant of a list is closed.
pub open spec fn closed_constants(constants: Seq<ConstantInfoView>) -> bool {
    forall|i: int| 0 <= i < constants.len() ==> regions_closed((#[trigger] constants[i]).ty)
}

/// Whether every signature of a list is closed.
pub open spec fn closed_functions(functions: Seq<FunctionSigView>) -> bool {
    forall|i: int| 0 <= i < functions.len() ==> closed_function(#[trigger] functions[i])
}

proof fn lemma_type_names(sources: Seq<SourceView>, k: nat, acc: Seq<TypeNameView>)
    requires
        closed_types(acc),
    ensures
        closed_types(type_names(sources, k, acc)),
    decreases sources.len() - k,
{
    if k < sources.len() {
        match declared_universe(sources[k as int].item) {
            Some(u) => {
                let added = TypeNameView {
                    name: sources[k as int].local,
                    ty: named_ty(sources[k as int], u),
                };
                assert(regions_closed(added.ty));
                lemma_type_names(sources, k + 1, acc.push(added));
            },
            None => lemma_type_names(sources, k + 1, acc),
        }
    }
}

proof fn lemma_slots(
    types: Seq<TypeNameView>,
    slots: Seq<SlotView>,
    k: nat,
    acc: Seq<ValueParameterView>,
)
    requires
        closed_types(types),
        closed_slots(acc),
    ensures
        typed_slots(types, slots, k, acc) matches Ok(r) ==> closed_slots(r),
    decreases slots.len() - k,
{
    if k < slots.len() {
        lemma_resolved_closed(types, Seq::empty(), slots[k as int].ty);
        match resolved_ty(types, Seq::empty(), slots[k as int].ty) {
            Ok(ty) => lemma_slots(
                types,
                slots,
                k + 1,
                acc.push(ValueParameterView { name: slots[k as int].name, ty }),
            ),
            Err(_) => {},
        }
    }
}

proof fn lemma_params(
    types: Seq<TypeNameView>,
    params: Seq<ParamView>,
    k: nat,
    acc: Seq<ValueParameterView>,
)
    requires
        closed_types(types),
        closed_slots(acc),
    ensures
        typed_params(types, params, k, acc) matches Ok(r) ==> closed_slots(r),
    decreases params.len() - k,
{
    if k < params.len() {
        lemma_resolved_closed(types, Seq::empty(), params[k as int].ty);
        match resolved_ty(types, Seq::empty(), params[k as int].ty) {
            Ok(ty) => lemma_params(
                types,
                params,
                k + 1,
                acc.push(ValueParameterView { name: params[k as int].name, ty }),
            ),
            Err(_) => {},
        }
    }
}

proof fn lemma_records(
    types: Seq<TypeNameView>,
    sources: Seq<SourceView>,
    k: nat,
    acc: Seq<RecordInfoView>,
)
    requires
        closed_types(types),
        closed_records(acc),
    ensures
        records_of(types, sources, k, acc) matches Ok(r) ==> closed_records(r),
    decreases sources.len() - k,
{
    if k < sources.len() {
        match sources[k as int].item {
            DeclaredView::Record(r) => {
                lemma_slots(types, r.slots, 0, Seq::empty());
                match record_of(types, sources[k as int], r) {
                    Ok(info) => {
                        assert(regions_closed(info.ty));
                        lemma_records(types, sources, k + 1, acc.push(info));
                    },
                    Err(_) => {},
                }
            },
            _ => lemma_records(types, sources, k + 1, acc),
        }
    }
}

proof fn lemma_cases(types: Seq<TypeNameView>, cases: Seq<CaseView>, k: nat, acc: Seq<CaseInfoView>)
    requires
        closed_types(types),
        closed_cases(acc),
    ensures
        cases_of(types, cases, k, acc) matches Ok(r) ==> closed_cases(r),
    decreases cases.len() - k,
{
    if k < cases.len() {
        lemma_slots(types, cases[k as int].fields, 0, Seq::empty());
        match case_of(types, cases[k as int]) {
            Ok(info) => lemma_cases(types, cases, k + 1, acc.push(info)),
            Err(_) => {},
        }
    }
}

proof fn lemma_unions(
    types: Seq<TypeNameView>,
    sources: Seq<SourceView>,
    k: nat,
    acc: Seq<UnionInfoView>,
)
    requires
        closed_types(types),
        closed_unions(acc),
    ensures
        unions_of(types, sources, k, acc) matches Ok(r) ==> closed_unions(r),
    decreases sources.len() - k,
{
    if k < sources.len() {
        match sources[k as int].item {
            DeclaredView::Union(u) => {
                lemma_cases(types, u.cases, 0, Seq::empty());
                match cases_of(types, u.cases, 0, Seq::empty()) {
                    Ok(cases) => {
                        let info = UnionInfoView {
                            name: sources[k as int].local,
                            ty: named_ty(sources[k as int], Universe::FreeUniverse),
                            cases,
                        };
                        assert(regions_closed(info.ty));
                        assert(closed_union(info));
                        lemma_unions(types, sources, k + 1, acc.push(info));
                    },
                    Err(_) => {},
                }
            },
            _ => lemma_unions(types, sources, k + 1, acc),
        }
    }
}

proof fn lemma_constants(
    types: Seq<TypeNameView>,
    sources: Seq<SourceView>,
    k: nat,
    acc: Seq<ConstantInfoView>,
)
    requires
        closed_types(types),
        closed_constants(acc),
    ensures
        constants_of(types, sources, k, acc) matches Ok(r) ==> closed_constants(r),
    decreases sources.len() - k,
{
    if k < sources.len() {
        match sources[k as int].item {
            DeclaredView::Constant(c) => {
                lemma_resolved_closed(types, Seq::empty(), c.ty);
                match resolved_ty(types, Seq::empty(), c.ty) {
                    Ok(ty) => lemma_constants(
                        types,
                        sources,
                        k + 1,
                        acc.push(ConstantInfoView { name: qualified_name(sources[k as int]), ty }),
                    ),
                    Err(_) => {},
                }
            },
            _ => lemma_constants(types, sources, k + 1, acc),
        }
    }
}

proof fn lemma_type_parameters(params: Seq<TypeParamView>, k: nat, acc: Seq<TypeParameterView>)
    requires
        closed_variables(acc),
    ensures
        closed_variables(type_parameters(params, k, acc)),
    decreases params.len() - k,
{
    if k < params.len() {
        let added = TypeParameterView {
            name: params[k as int].name,
            id: variable_number(k),
            ty: TyView::TyVar(
                variable_number(k),
                universe_named(params[k as int].universe),
                params[k as int].params,
            ),
        };
        assert(regions_closed(added.ty));
        lemma_type_parameters(params, k + 1, acc.push(added));
    }
}

/// The names of types inside a generic declaration stand for closed types
/// if those in scope do.
proof fn lemma_generic_types(types: Seq<TypeNameView>, variables: Seq<TypeParameterView>, k: nat)
    requires
        closed_types(types),
        closed_variables(variables),
    ensures
        closed_types(generic_types(types, variables, k)),
    decreases variables.len() - k,
{
    if k < variables.len() {
        lemma_generic_types(types, variables, k + 1);
        let rest = generic_types(types, variables, k + 1);
        let inside = generic_types(types, variables, k);
        assert forall|i: int| 0 <= i < inside.len() implies regions_closed((#[trigger] inside[i]).ty) by {
            if i > 0 {
                assert(inside[i] == rest[i - 1]);
            } else {
                assert(regions_closed(variables[k as int].ty));
            }
        }
    }
}

proof fn lemma_signatures(
    types: Seq<TypeNameView>,
    sources: Seq<SourceView>,
    k: nat,
    acc: Seq<FunctionSigView>,
)
    requires
        closed_types(types),
        closed_functions(acc),
    ensures
        signatures_of(types, sources, k, acc) matches Ok(r) ==> closed_functions(r),
    decreases sources.len() - k,
{
    if k < sources.len() {
        match sources[k as int].item {
            DeclaredView::Function(f) => {
                let variables = type_parameters(f.type_params, 0, Seq::empty());
                let inside = generic_types(types, variables, 0);
                lemma_type_parameters(f.type_params, 0, Seq::empty());
                lemma_generic_types(types, variables, 0);
                lemma_params(inside, f.params, 0, Seq::empty());
                lemma_resolved_closed(inside, Seq::empty(), f.ret_type);
                match signature_of(types, sources[k as int], f, acc.len()) {
                    Ok(sig) => lemma_signatures(types, sources, k + 1, acc.push(sig)),
                    Err(_) => {},
                }
            },
            _ => lemma_signatures(types, sources, k + 1, acc),
        }
    }
}

/// The names of types inside a typeclass stand for closed types if those
/// in scope do.
proof fn lemma_class_types(
    types: Seq<TypeNameView>,
    class: Seq<char>,
    param: TypeParamView,
    variable: u64,
)
    requires
        closed_types(types),
    ensures
        closed_types(class_types(types, class, param, variable)),
{
    let inside = class_types(types, class, param, variable);
    assert forall|i: int| 0 <= i < inside.len() implies regions_closed((#[trigger] inside[i]).ty) by {
        if i > 0 {
            assert(inside[i] == types[i - 1]);
        }
    }
}

proof fn lemma_class_methods(
    types: Seq<TypeNameView>,
    class: Seq<char>,
    param: TypeParamView,
    variable: u64,
    methods: Seq<MethodDeclView>,
    k: nat,
    acc: Seq<MethodInfoView>,
)
    requires
        closed_types(types),
        closed_methods(acc),
    ensures
        class_methods(
            types,
            class,
            param,
            variable,
            methods,
            k,
            acc,
        ) matches Ok(r) ==> closed_methods(r),
    decreases methods.len() - k,
{
    if k < methods.len() {
        lemma_params(types, methods[k as int].params, 0, Seq::empty());
        lemma_resolved_closed(types, Seq::empty(), methods[k as int].ret_ty);
        match method_of(types, class, param, variable, methods[k as int]) {
            Ok(info) => lemma_class_methods(
                types,
                class,
                param,
                variable,
                methods,
                k + 1,
                acc.push(info),
            ),
            Err(_) => {},
        }
    }
}

proof fn lemma_methods(
    types: Seq<TypeNameView>,
    sources: Seq<SourceView>,
    k: nat,
    count: nat,
    acc: Seq<MethodInfoView>,
)
    requires
        closed_types(types),
        closed_methods(acc),
    ensures
        methods_of(types, sources, k, count, acc) matches Ok(r) ==> closed_methods(r),
    decreases sources.len() - k,
{
    if k < sources.len() {
        match sources[k as int].item {
            DeclaredView::TypeClass(c) => {
                let inside = class_types(
                    types,
                    sources[k as int].local,
                    c.type_param,
                    variable_number(count),
                );
                lemma_class_types(
                    types,
                    sources[k as int].local,
                    c.type_param,
                    variable_number(count),
                );
                lemma_class_methods(
                    inside,
                    sources[k as int].local,
                    c.type_param,
                    variable_number(count),
                    c.methods,
                    0,
                    acc,
                );
                match class_methods(
                    inside,
                    sources[k as int].local,
                    c.type_param,
                    variable_number(count),
                    c.methods,
                    0,
                    acc,
                ) {
                    Ok(more) => lemma_methods(types, sources, k + 1, count + 1, more),
                    Err(_) => {},
                }
            },
            _ => lemma_methods(types, sources, k + 1, count, acc),
        }
    }
}

proof fn lemma_interface_instances(
    types: Seq<TypeNameView>,
    items: Seq<ModuleDeclItemView>,
    k: nat,
    acc: Seq<InstanceInfoView>,
)
    requires
        closed_types(types),
        closed_instances(acc),
    ensures
        closed_instances(interface_instances(types, items, k, acc)),
    decreases items.len() - k,
{
    if k < items.len() {
        match items[k as int] {
            ModuleDeclItemView::Instance(inst) => {
                lemma_resolved_closed(types, Seq::empty(), inst.arg);
                match resolved_ty(types, Seq::empty(), inst.arg) {
                    Err(_) => lemma_interface_instances(types, items, k + 1, acc),
                    Ok(arg) => lemma_interface_instances(
                        types,
                        items,
                        k + 1,
                        acc.push(
                            InstanceInfoView {
                                id: function_number(acc.len()),
                                typeclass: inst.name,
                                arg,
                            },
                        ),
                    ),
                }
            },
            _ => lemma_interface_instances(types, items, k + 1, acc),
        }
    }
}

proof fn lemma_interfaces_instances(
    types: Seq<TypeNameView>,
    module: Seq<char>,
    interfaces: Seq<ModuleBaseView<ModuleDeclItemView>>,
    k: nat,
    acc: Seq<InstanceInfoView>,
)
    requires
        closed_types(types),
        closed_instances(acc),
    ensures
        closed_instances(interfaces_instances(types, module, interfaces, k, acc)),
    decreases interfaces.len() - k,
{
    if k < interfaces.len() {
        if interfaces[k as int].name == module {
            lemma_interfaces_instances(types, module, interfaces, k + 1, acc);
        } else {
            lemma_interface_instances(types, interfaces[k as int].contents, 0, acc);
            lemma_interfaces_instances(
                types,
                module,
                interfaces,
                k + 1,
                interface_instances(types, interfaces[k as int].contents, 0, acc),
            );
        }
    }
}

proof fn lemma_body_instances(
    types: Seq<TypeNameView>,
    items: Seq<ModuleDefItemView>,
    k: nat,
    acc: Seq<InstanceInfoView>,
)
    requires
        closed_types(types),
        closed_instances(acc),
    ensures
        body_instances(types, items, k, acc) matches Ok(r) ==> closed_instances(r),
    decreases items.len() - k,
{
    if k < items.len() {
        match items[k as int] {
            ModuleDefItemView::Instance(inst) => {
                lemma_resolved_closed(types, Seq::empty(), inst.arg);
                match resolved_ty(types, Seq::empty(), inst.arg) {
                    Err(_) => {},
                    Ok(arg) => lemma_body_instances(
                        types,
                        items,
                        k + 1,
                        acc.push(
                            InstanceInfoView {
                                id: function_number(acc.len()),
                                typeclass: inst.name,
                                arg,
                            },
                        ),
                    ),
                }
            },
            _ => lemma_body_instances(types, items, k + 1, acc),
        }
    }
}

/// Every type that the environment of a body holds is closed.
pub proof fn lemma_environment(
    module: ModuleBaseView<ModuleDefItemView>,
    interfaces: Seq<ModuleBaseView<ModuleDeclItemView>>,
)
    ensures
        environment_of(module, interfaces) matches Ok(env) ==> closed_env(env),
{
    match sources_of(module, interfaces) {
        Ok(sources) => {
            let types = type_names(sources, 0, Seq::empty());
            lemma_type_names(sources, 0, Seq::empty());
            lemma_records(types, sources, 0, Seq::empty());
            lemma_unions(types, sources, 0, Seq::empty());
            lemma_constants(types, sources, 0, Seq::empty());
            lemma_signatures(types, sources, 0, Seq::empty());
            lemma_methods(types, sources, 0, 0, Seq::empty());
            lemma_interfaces_instances(types, module.name, interfaces, 0, Seq::empty());
            lemma_body_instances(
                types,
                module.contents,
                0,
                interfaces_instances(types, module.name, interfaces, 0, Seq::empty()),
            );
        },
        Err(_) => {},
    }
}

proof fn lemma_parameter_variables(params: Seq<ValueParameterView>, k: nat, acc: Seq<VariableView>)
    requires
        closed_slots(params),
        forall|i: int| 0 <= i < acc.len() ==> regions_closed((#[trigger] acc[i]).ty),
    ensures
        forall|i: int|
            0 <= i < parameter_variables(params, k, acc).len() ==> regions_closed(
                (#[trigger] parameter_variables(params, k, acc)[i]).ty,
            ),
    decreases params.len() - k,
{
    if k < params.len() {
        lemma_parameter_variables(
            params,
            k + 1,
            acc.push(
                VariableView {
                    name: params[k as int].name,
                    ty: params[k as int].ty,
                    mutability: Mutability::Immutable,
                    kind: VariableKind::Parameter,
                },
            ),
        );
    }
}

/// Whether every type in a typed function is closed.
pub open spec fn closed_typed_function(f: TypedFunctionView) -> bool {
    closed_slots(f.params) && regions_closed(f.ret) && closed_stmt(f.body)
}

/// Whether every type in a typed constant is closed.
pub open spec fn closed_typed_constant(c: TypedConstantView) -> bool {
    regions_closed(c.ty) && closed_expr(c.value)
}

/// Whether every typed function of a list is closed.
pub open spec fn closed_typed_functions(functions: Seq<TypedFunctionView>) -> bool {
    forall|i: int| 0 <= i < functions.len() ==> closed_typed_function(#[trigger] functions[i])
}

/// Whether every typed constant of a list is closed.
pub open spec fn closed_typed_constants(constants: Seq<TypedConstantView>) -> bool {
    forall|i: int| 0 <= i < constants.len() ==> closed_typed_constant(#[trigger] constants[i])
}

/// Whether the type of every entry of an export table is closed.
pub open spec fn closed_exports(exports: Seq<ExportView>) -> bool {
    forall|i: int| 0 <= i < exports.len() ==> regions_closed((#[trigger] exports[i]).ty)
}

/// Whether every type in a typed instance is closed.
pub open spec fn closed_typed_instance(i: TypedInstanceView) -> bool {
    regions_closed(i.arg) && closed_typed_functions(i.methods)
}

/// Whether every typed instance of a list is closed.
pub open spec fn closed_typed_instances(instances: Seq<TypedInstanceView>) -> bool {
    forall|i: int| 0 <= i < instances.len() ==> closed_typed_instance(#[trigger] instances[i])
}

/// Whether every type in a typed module is closed: in its constants, in
/// its functions, in its instances, in the bodies that its typeclasses
/// give their methods, and in its export table.
pub open spec fn closed_module(m: TypedModuleView) -> bool {
    closed_typed_constants(m.constants) && closed_typed_functions(m.functions)
        && closed_typed_instances(m.instances) && closed_typed_functions(m.defaults)
        && closed_exports(m.exports)
}

proof fn lemma_class_defaults(
    env: EnvView,
    class: Seq<char>,
    param: TypeParamView,
    methods: Seq<MethodDefView>,
    k: nat,
    acc: Seq<TypedFunctionView>,
)
    requires
        closed_env(env),
        closed_typed_functions(acc),
    ensures
        class_defaults(
            env,
            class,
            param,
            methods,
            k,
            acc,
        ) matches Ok(r) ==> closed_typed_functions(r),
    decreases methods.len() - k,
{
    if k < methods.len() {
        let m = methods[k as int];
        lemma_find_method_of(env.methods, class, m.decl.name, 0);
        match find_method_of_in(env.methods, class, m.decl.name, 0) {
            Some(i) => {
                let info = env.methods[i];
                assert(closed_method(info));
                lemma_parameter_variables(info.params, 0, Seq::empty());
                lemma_class_types(env.types, class, param, info.variable);
                lemma_block(
                    Context {
                        env,
                        scope: function_scope(
                            class_types(env.types, class, param, info.variable),
                            info.params,
                            info.ret,
                        ),
                    },
                    m.body,
                    0,
                );
            },
            None => {},
        }
        match typed_default(env, class, param, m) {
            Ok(typed) => lemma_class_defaults(env, class, param, methods, k + 1, acc.push(typed)),
            Err(_) => {},
        }
    }
}

proof fn lemma_typed_defaults(
    env: EnvView,
    items: Seq<ModuleDefItemView>,
    k: nat,
    acc: Seq<TypedFunctionView>,
)
    requires
        closed_env(env),
        closed_typed_functions(acc),
    ensures
        typed_defaults(env, items, k, acc) matches Ok(r) ==> closed_typed_functions(r),
    decreases items.len() - k,
{
    if k < items.len() {
        match items[k as int] {
            ModuleDefItemView::TypeClass(c) => {
                lemma_class_defaults(env, c.name, c.type_param, c.methods, 0, acc);
                match class_defaults(env, c.name, c.type_param, c.methods, 0, acc) {
                    Ok(more) => lemma_typed_defaults(env, items, k + 1, more),
                    Err(_) => {},
                }
            },
            _ => lemma_typed_defaults(env, items, k + 1, acc),
        }
    }
}

proof fn lemma_method(env: EnvView, class: Seq<char>, arg: TyView, m: MethodDefView)
    requires
        closed_env(env),
    ensures
        typed_method(env, class, arg, m) matches Ok(typed) ==> closed_typed_function(typed),
{
    lemma_params(env.types, m.decl.params, 0, Seq::empty());
    lemma_resolved_closed(env.types, Seq::empty(), m.decl.ret_ty);
    match typed_params(env.types, m.decl.params, 0, Seq::empty()) {
        Ok(params) => match resolved_ty(env.types, Seq::empty(), m.decl.ret_ty) {
            Ok(ret) => {
                lemma_parameter_variables(params, 0, Seq::empty());
                lemma_block(
                    Context { env, scope: function_scope(env.types, params, ret) },
                    m.body,
                    0,
                );
            },
            Err(_) => {},
        },
        Err(_) => {},
    }
}

proof fn lemma_typed_methods(
    env: EnvView,
    class: Seq<char>,
    arg: TyView,
    methods: Seq<MethodDefView>,
    k: nat,
    acc: Seq<TypedFunctionView>,
)
    requires
        closed_env(env),
        closed_typed_functions(acc),
    ensures
        typed_methods(env, class, arg, methods, k, acc) matches Ok(r) ==> closed_typed_functions(r),
    decreases methods.len() - k,
{
    if k < methods.len() {
        lemma_method(env, class, arg, methods[k as int]);
        match typed_method(env, class, arg, methods[k as int]) {
            Ok(typed) => lemma_typed_methods(env, class, arg, methods, k + 1, acc.push(typed)),
            Err(_) => {},
        }
    }
}

proof fn lemma_typed_instances(
    env: EnvView,
    items: Seq<ModuleDefItemView>,
    k: nat,
    acc: Seq<TypedInstanceView>,
)
    requires
        closed_env(env),
        closed_typed_instances(acc),
    ensures
        typed_instances(env, items, k, acc) matches Ok(r) ==> closed_typed_instances(r),
    decreases items.len() - k,
{
    if k < items.len() {
        match items[k as int] {
            ModuleDefItemView::Instance(inst) => {
                lemma_resolved_closed(env.types, Seq::empty(), inst.arg);
                match resolved_ty(env.types, Seq::empty(), inst.arg) {
                    Ok(arg) => lemma_typed_methods(
                        env,
                        inst.name,
                        arg,
                        inst.methods,
                        0,
                        Seq::empty(),
                    ),
                    Err(_) => {},
                }
                match typed_instance(env, inst) {
                    Ok(typed) => lemma_typed_instances(env, items, k + 1, acc.push(typed)),
                    Err(_) => {},
                }
            },
            _ => lemma_typed_instances(env, items, k + 1, acc),
        }
    }
}

proof fn lemma_function(env: EnvView, f: FunctionDefView)
    requires
        closed_env(env),
    ensures
        typed_function(env, f) matches Ok(typed) ==> closed_typed_function(typed),
{
    lemma_find_function(env.functions, f.decl.name, 0);
    match find_function_in(env.functions, f.decl.name, 0) {
        Some(i) => {
            let sig = env.functions[i];
            assert(closed_function(sig));
            lemma_parameter_variables(sig.params, 0, Seq::empty());
            lemma_generic_types(env.types, sig.variables, 0);
            lemma_block(
                Context {
                    env,
                    scope: function_scope(
                        generic_types(env.types, sig.variables, 0),
                        sig.params,
                        sig.ret,
                    ),
                },
                f.body,
                0,
            );
        },
        None => {},
    }
}

proof fn lemma_constant_def(env: EnvView, c: ConstantDefView)
    requires
        closed_env(env),
    ensures
        typed_constant_def(env, c) matches Ok(typed) ==> closed_typed_constant(typed),
{
    lemma_find_constant(env.constants, c.decl.name, 0);
    match find_constant_in(env.constants, c.decl.name, 0) {
        Some(i) => {
            let ty = env.constants[i].ty;
            lemma_expression(
                Context { env, scope: constant_scope(env.types, ty) },
                c.value,
                Some(ty),
            );
        },
        None => {},
    }
}

proof fn lemma_functions(
    env: EnvView,
    items: Seq<ModuleDefItemView>,
    k: nat,
    acc: Seq<TypedFunctionView>,
)
    requires
        closed_env(env),
        closed_typed_functions(acc),
    ensures
        typed_functions(env, items, k, acc) matches Ok(r) ==> closed_typed_functions(r),
    decreases items.len() - k,
{
    if k < items.len() {
        match items[k as int] {
            ModuleDefItemView::Function(f) => {
                lemma_function(env, f);
                match typed_function(env, f) {
                    Ok(typed) => lemma_functions(env, items, k + 1, acc.push(typed)),
                    Err(_) => {},
                }
            },
            _ => lemma_functions(env, items, k + 1, acc),
        }
    }
}

proof fn lemma_constant_defs(
    env: EnvView,
    items: Seq<ModuleDefItemView>,
    k: nat,
    acc: Seq<TypedConstantView>,
)
    requires
        closed_env(env),
        closed_typed_constants(acc),
    ensures
        typed_constants(env, items, k, acc) matches Ok(r) ==> closed_typed_constants(r),
    decreases items.len() - k,
{
    if k < items.len() {
        match items[k as int] {
            ModuleDefItemView::Constant(c) => {
                lemma_constant_def(env, c);
                match typed_constant_def(env, c) {
                    Ok(typed) => lemma_constant_defs(env, items, k + 1, acc.push(typed)),
                    Err(_) => {},
                }
            },
            _ => lemma_constant_defs(env, items, k + 1, acc),
        }
    }
}

proof fn lemma_exported_constants(constants: Seq<TypedConstantView>, k: nat, acc: Seq<ExportView>)
    requires
        closed_typed_constants(constants),
        closed_exports(acc),
    ensures
        closed_exports(exported_constants(constants, k, acc)),
    decreases constants.len() - k,
{
    if k < constants.len() {
        assert(closed_typed_constant(constants[k as int]));
        lemma_exported_constants(
            constants,
            k + 1,
            acc.push(ExportView { name: constants[k as int].name, ty: constants[k as int].ty }),
        );
    }
}

proof fn lemma_exported_functions(functions: Seq<TypedFunctionView>, k: nat, acc: Seq<ExportView>)
    requires
        closed_typed_functions(functions),
        closed_exports(acc),
    ensures
        closed_exports(exported_functions(functions, k, acc)),
    decreases functions.len() - k,
{
    if k < functions.len() {
        let f = functions[k as int];
        assert(closed_typed_function(f));
        assert(regions_closed(function_ty(f.params, f.ret))) by {
            let params = Seq::new(f.params.len(), |i: int| f.params[i].ty);
            assert forall|i: int| 0 <= i < params.len() implies regions_closed(#[trigger] params[i]) by {
                assert(regions_closed(f.params[i].ty));
            }
        }
        lemma_exported_functions(
            functions,
            k + 1,
            acc.push(ExportView { name: f.name, ty: function_ty(f.params, f.ret) }),
        );
    }
}

/// Type soundness. In the typed tree of a module that the checker accepts,
/// every type that a node carries is closed: each reference and span
/// inside it is bound to a region, so that its universe is the universe of
/// a well-formed type. The same holds of the types of the export table.
pub proof fn law_type_soundness(
    module: ModuleBaseView<ModuleDefItemView>,
    interfaces: Seq<ModuleBaseView<ModuleDeclItemView>>,
)
    ensures
        typed_module(module, interfaces) matches Ok(m) ==> closed_module(m),
{
    lemma_environment(module, interfaces);
    match environment_of(module, interfaces) {
        Ok(env) => {
            lemma_constant_defs(env, module.contents, 0, Seq::empty());
            lemma_functions(env, module.contents, 0, Seq::empty());
            lemma_typed_instances(env, module.contents, 0, Seq::empty());
            lemma_typed_defaults(env, module.contents, 0, Seq::empty());
            match typed_constants(env, module.contents, 0, Seq::empty()) {
                Ok(constants) => match typed_functions(env, module.contents, 0, Seq::empty()) {
                    Ok(functions) => {
                        lemma_exported_constants(constants, 0, Seq::empty());
                        lemma_exported_functions(
                            functions,
                            0,
                            exported_constants(constants, 0, Seq::empty()),
                        );
                    },
                    Err(_) => {},
                },
                Err(_) => {},
            }
        },
        Err(_) => {},
    }
}

} // verus!
