//! Typing of statements: a block of the untyped tree becomes one typed
//! statement, in which each `let` holds what follows it as its scope.

use crate::ast::expressions::{Expression, ExpressionView, PathExpr, PathExprView};
use crate::ast::statements::{
    AssignStmt, AssignStmtView, Binding, BindingView, BorrowMode, BorrowMutMode, BorrowStmt,
    BorrowStmtView, CaseStmt, CaseStmtView, CaseWhen, CaseWhenView, ForStmt, ForStmtView,
    IfStmt, IfStmtView, LetStmt, LetStmtTarget, LetStmtTargetView, LetStmtView, Statement,
    StatementView, WhileStmt, WhileStmtView,
};
use crate::common::{BorrowingMode, Identifier, Mutability};
use crate::linearity_check::no_span;
use crate::resolver::{
    blank_span, Context, context, find_case, find_case_in, find_record_of, find_record_of_in,
    find_union_of, find_union_of_in, find_variable, find_variable_in, gives_ty, name_of,
    resolve_type, resolved_ty, type_expression, type_path, typed_expression, typed_path,
};
use crate::stages::{
    BorrowStmtKind, CaseRef, TExpr, TExprView, TStmt, TStmtView, TypedBinding, TypedBindingView,
    TypedWhen, TypedWhenView,
};
use crate::ty::{Region, Ty, TyView};
use crate::type_check::{
    assignment_fits, borrow_ty, borrow_type, check_assignment, check_condition,
    check_destructure, check_same_type, destructure_fits, loop_variable_ty, loop_variable_type,
    same_ty, TypeErrorKind,
};
use crate::type_env::{
    CaseInfo, CaseInfoView, Env, RegionName, RegionNameView, Scope, ScopeView, TypeName,
    Variable, VariableKind, VariableView,
};
use vstd::prelude::*;

verus! {

/// What typing a statement gives: the typed statement, or the kind of error
/// it holds.
pub type TypedStmt = Result<TStmtView, TypeErrorKind>;

/// Whether what the type checker computed for a statement is what the rules
/// give.
pub open spec fn statement_as(r: Result<TStmt, TypeErrorKind>, rule: TypedStmt) -> bool {
    match (r, rule) {
        (Ok(s), Ok(v)) => s.deep_view() == v,
        (Err(a), Err(b)) => a == b,
        _ => false,
    }
}

/// A scope with one more local variable, which hides those of its name.
pub open spec fn scope_plus(
    scope: ScopeView,
    name: Seq<char>,
    ty: TyView,
    mutability: Mutability,
) -> ScopeView {
    ScopeView {
        types: scope.types,
        variables: scope.variables.push(VariableView { name, ty, mutability, kind: VariableKind::Local }),
        regions: scope.regions,
        ret: scope.ret,
    }
}

/// A scope with the variables of the bindings from index `k` on.
pub open spec fn scope_plus_bindings(
    scope: ScopeView,
    bindings: Seq<TypedBindingView>,
    mutability: Mutability,
    k: nat,
) -> ScopeView
    decreases bindings.len() - k,
{
    if k >= bindings.len() {
        scope
    } else {
        scope_plus_bindings(
            scope_plus(scope, bindings[k as int].rename, bindings[k as int].ty, mutability),
            bindings,
            mutability,
            k + 1,
        )
    }
}

/// The region that a borrow statement in this scope opens: its number is
/// the count of the regions around it.
pub open spec fn fresh_region(scope: ScopeView) -> Region {
    Region { id: scope.regions.len() as u64 }
}

/// A scope with one more region, the innermost.
pub open spec fn scope_plus_region(scope: ScopeView, name: Seq<char>) -> ScopeView {
    ScopeView {
        types: scope.types,
        variables: scope.variables,
        regions: scope.regions.push(RegionNameView { name, region: fresh_region(scope) }),
        ret: scope.ret,
    }
}

/// The context in another scope.
pub open spec fn within(cx: Context, scope: ScopeView) -> Context {
    Context { env: cx.env, scope }
}

/// The mutability that `var` or `let` gives a binding.
pub open spec fn mutability_of(is_mutable: bool) -> Mutability {
    if is_mutable {
        Mutability::Mutable
    } else {
        Mutability::Immutable
    }
}

/// A binding with its type resolved. It binds the variable it renames the
/// slot to, or one named like the slot.
pub open spec fn typed_binding(
    cx: Context,
    b: BindingView,
) -> Result<TypedBindingView, TypeErrorKind> {
    match resolved_ty(cx.scope.types, cx.scope.regions, b.ty) {
        Err(kind) => Err(kind),
        Ok(ty) => Ok(
            TypedBindingView {
                name: b.name,
                ty,
                rename: match b.rename {
                    Some(other) => other,
                    None => b.name,
                },
            },
        ),
    }
}

/// The bindings from index `k` on with their types resolved, added to those
/// before.
pub open spec fn typed_bindings(
    cx: Context,
    bs: Seq<BindingView>,
    k: nat,
    acc: Seq<TypedBindingView>,
) -> Result<
    Seq<TypedBindingView>,
    TypeErrorKind,
>
    decreases bs.len() - k,
{
    if k >= bs.len() {
        Ok(acc)
    } else {
        match typed_binding(cx, bs[k as int]) {
            Err(kind) => Err(kind),
            Ok(b) => typed_bindings(cx, bs, k + 1, acc.push(b)),
        }
    }
}

/// What a `let` binds: one variable to a value, or the slots of a record to
/// variables.
#[derive(Debug)]
pub enum LetHead {
    Simple(Identifier, TExpr, Mutability, Ty),
    Destructure(Mutability, Vec<TypedBinding>, TExpr),
}

/// A value of `LetHead` as plain data.
pub enum LetHeadView {
    Simple(Seq<char>, TExprView, Mutability, TyView),
    Destructure(Mutability, Seq<TypedBindingView>, TExprView),
}

impl DeepView for LetHead {
    type V = LetHeadView;

    open spec fn deep_view(&self) -> LetHeadView {
        match self {
            LetHead::Simple(name, value, mutability, ty) => LetHeadView::Simple(
                name@,
                value.deep_view(),
                *mutability,
                ty@,
            ),
            LetHead::Destructure(mutability, bindings, value) => LetHeadView::Destructure(
                *mutability,
                bindings.deep_view(),
                value.deep_view(),
            ),
        }
    }
}

/// What a `let` binds. With a name, the value is typed against the type
/// written and must be of it. With a pattern, the value must be a record,
/// every binding must name a slot and ask for its type, and every slot must
/// be bound.
pub open spec fn typed_let(cx: Context, s: LetStmtView) -> Result<LetHeadView, TypeErrorKind> {
    match s.target {
        LetStmtTargetView::Simple { name, ty } => match resolved_ty(
            cx.scope.types,
            cx.scope.regions,
            ty,
        ) {
            Err(kind) => Err(kind),
            Ok(t) => match typed_expression(cx, s.value, Some(t)) {
                Err(kind) => Err(kind),
                Ok((e, et)) => match same_ty(t, et) {
                    Err(kind) => Err(kind),
                    Ok(_) => Ok(LetHeadView::Simple(name, e, mutability_of(s.is_mutable), t)),
                },
            },
        },
        LetStmtTargetView::Destructure(bs) => match typed_expression(cx, s.value, None) {
            Err(kind) => Err(kind),
            Ok((e, et)) => match find_record_of_in(cx.env.records, et, 0) {
                None => Err(TypeErrorKind::TypeMismatch),
                Some(i) => match typed_bindings(cx, bs, 0, Seq::empty()) {
                    Err(kind) => Err(kind),
                    Ok(bindings) => match destructure_fits(cx.env.records[i].slots, bindings) {
                        Err(kind) => Err(kind),
                        Ok(_) => Ok(LetHeadView::Destructure(mutability_of(s.is_mutable), bindings, e)),
                    },
                },
            },
        },
    }
}

/// The scope of what follows a `let`.
pub open spec fn let_scope(scope: ScopeView, head: LetHeadView) -> ScopeView {
    match head {
        LetHeadView::Simple(name, _, mutability, ty) => scope_plus(scope, name, ty, mutability),
        LetHeadView::Destructure(mutability, bindings, _) => scope_plus_bindings(
            scope,
            bindings,
            mutability,
            0,
        ),
    }
}

/// The typed `let`: what it binds, and what follows it.
pub open spec fn let_stmt(head: LetHeadView, rest: TStmtView) -> TStmtView {
    match head {
        LetHeadView::Simple(name, value, mutability, ty) => TStmtView::TLet(
            no_span(),
            name,
            Box::new(value),
            mutability,
            ty,
            Box::new(rest),
        ),
        LetHeadView::Destructure(mutability, bindings, value) => TStmtView::TDestructure(
            no_span(),
            mutability,
            bindings,
            Box::new(value),
            Box::new(rest),
        ),
    }
}

/// Whether the variable that an assignment writes was bound by `var`, if
/// the place it writes is a variable.
pub open spec fn assigned_variable(scope: ScopeView, path: PathExprView) -> Option<Mutability> {
    if path.extra.len() == 0 {
        match find_variable_in(scope.variables, path.first) {
            Some(i) => Some(scope.variables[i].mutability),
            None => None,
        }
    } else {
        None
    }
}

/// The typed assignment: the value is typed against the type of the place.
pub open spec fn typed_assign(cx: Context, a: AssignStmtView) -> TypedStmt {
    match typed_path(cx, a.target) {
        Err(kind) => Err(kind),
        Ok((place, pt)) => match typed_expression(cx, a.value, Some(pt)) {
            Err(kind) => Err(kind),
            Ok((value, vt)) => match assignment_fits(
                pt,
                assigned_variable(cx.scope, a.target),
                vt,
            ) {
                Err(kind) => Err(kind),
                Ok(_) => Ok(TStmtView::TAssign(no_span(), Box::new(place), Box::new(value))),
            },
        },
    }
}

/// The typed `return`: the value is typed against the type the function
/// returns and must be of it.
pub open spec fn typed_return(cx: Context, e: ExpressionView) -> TypedStmt {
    match typed_expression(cx, e, Some(cx.scope.ret)) {
        Err(kind) => Err(kind),
        Ok((value, t)) => match same_ty(cx.scope.ret, t) {
            Err(kind) => Err(kind),
            Ok(_) => Ok(TStmtView::TReturn(no_span(), Box::new(value))),
        },
    }
}

/// The typed form of an expression whose value is discarded.
pub open spec fn typed_discard(cx: Context, e: ExpressionView) -> TypedStmt {
    match typed_expression(cx, e, None) {
        Err(kind) => Err(kind),
        Ok((value, _)) => Ok(TStmtView::TDiscarding(no_span(), Box::new(value))),
    }
}

/// The typed condition of an `if` or a `while`: a boolean.
pub open spec fn typed_condition(
    cx: Context,
    e: ExpressionView,
) -> Result<TExprView, TypeErrorKind> {
    match typed_expression(cx, e, None) {
        Err(kind) => Err(kind),
        Ok((value, t)) => match same_ty(TyView::Boolean, t) {
            Err(kind) => Err(kind),
            Ok(_) => Ok(value),
        },
    }
}

/// The bounds of a `for` and the type of its variable: the first bound is
/// typed as it stands, the second against the type of the first.
pub open spec fn typed_bounds(cx: Context, f: ForStmtView) -> Result<(
    TExprView,
    TExprView,
    TyView,
), TypeErrorKind> {
    match typed_expression(cx, f.start, None) {
        Err(kind) => Err(kind),
        Ok((from, ft)) => match typed_expression(cx, f.end, Some(ft)) {
            Err(kind) => Err(kind),
            Ok((to, tt)) => match loop_variable_ty(ft, tt) {
                Err(kind) => Err(kind),
                Ok(t) => Ok((from, to, t)),
            },
        },
    }
}

/// The kind of a typed borrow statement, from the way the statement takes its
/// origin.
pub open spec fn borrow_kind(mode: BorrowMode) -> BorrowStmtKind {
    match mode {
        BorrowMode::Read => BorrowStmtKind::Read,
        BorrowMode::Write => BorrowStmtKind::Write,
        BorrowMode::ReBorrow => BorrowStmtKind::Reborrow,
    }
}

/// The mode of the reference that a borrow statement binds, from the type it
/// writes.
pub open spec fn reference_mode(mode: BorrowMutMode) -> BorrowingMode {
    match mode {
        BorrowMutMode::Read => BorrowingMode::ReadBorrow,
        BorrowMutMode::Write => BorrowingMode::WriteBorrow,
    }
}

/// What a borrow statement refers to, given the type of its origin and the
/// type it writes: `&x` and `&!x` refer to the origin, which is of the type
/// written, and give a reference of their own mode; `&~x` refers to what a
/// write reference refers to.
pub open spec fn referent_of(
    b: BorrowStmtView,
    origin: TyView,
    written: TyView,
) -> Result<TyView, TypeErrorKind> {
    match b.mode {
        BorrowMode::Read => if origin == written && b.mut_mode == BorrowMutMode::Read {
            Ok(origin)
        } else {
            Err(TypeErrorKind::TypeMismatch)
        },
        BorrowMode::Write => if origin == written && b.mut_mode == BorrowMutMode::Write {
            Ok(origin)
        } else {
            Err(TypeErrorKind::TypeMismatch)
        },
        BorrowMode::ReBorrow => match origin {
            TyView::WriteRef(t, _) => if *t == written {
                Ok(*t)
            } else {
                Err(TypeErrorKind::TypeMismatch)
            },
            _ => Err(TypeErrorKind::TypeMismatch),
        },
    }
}

/// The type of the origin of a borrow statement and the type of the
/// reference it binds, which is in the region that the statement opens.
pub open spec fn typed_origin(
    cx: Context,
    b: BorrowStmtView,
) -> Result<(TyView, TyView), TypeErrorKind> {
    match find_variable_in(cx.scope.variables, b.orig) {
        None => Err(TypeErrorKind::UndefinedSymbol),
        Some(i) => match resolved_ty(cx.scope.types, cx.scope.regions, b.ty) {
            Err(kind) => Err(kind),
            Ok(written) => match referent_of(b, cx.scope.variables[i].ty, written) {
                Err(kind) => Err(kind),
                Ok(referent) => Ok(
                    (
                        cx.scope.variables[i].ty,
                        borrow_ty(reference_mode(b.mut_mode), referent, fresh_region(cx.scope)),
                    ),
                ),
            },
        },
    }
}

/// The scope of the body of a borrow statement: its region, and the
/// reference it binds.
pub open spec fn borrow_scope(scope: ScopeView, b: BorrowStmtView, reference: TyView) -> ScopeView {
    scope_plus(scope_plus_region(scope, b.reg), b.name, reference, Mutability::Immutable)
}

/// The typed form of the statements of a block from index `k` on. A `let`
/// holds the statements after it, typed in its scope; any other statement
/// is followed by the rest of the block.
#[verifier::opaque]
pub open spec fn typed_block(cx: Context, stmts: Seq<StatementView>, k: nat) -> TypedStmt
    decreases stmts, stmts.len() - k,
{
    if k >= stmts.len() {
        Ok(TStmtView::TSkip(no_span()))
    } else {
        match stmts[k as int] {
            StatementView::Let(s) => match typed_let(cx, s) {
                Err(kind) => Err(kind),
                Ok(head) => match typed_block(within(cx, let_scope(cx.scope, head)), stmts, k + 1) {
                    Err(kind) => Err(kind),
                    Ok(rest) => Ok(let_stmt(head, rest)),
                },
            },
            other => match typed_statement(cx, other) {
                Err(kind) => Err(kind),
                Ok(first) => if k + 1 == stmts.len() {
                    Ok(first)
                } else {
                    match typed_block(cx, stmts, k + 1) {
                        Err(kind) => Err(kind),
                        Ok(rest) => Ok(TStmtView::TBlock(no_span(), Box::new(first), Box::new(rest))),
                    }
                },
            },
        }
    }
}

/// The typed form of one statement.
#[verifier::opaque]
pub open spec fn typed_statement(cx: Context, s: StatementView) -> TypedStmt
    decreases s, 1nat,
{
    match s {
        StatementView::Assign(a) => typed_assign(cx, a),
        StatementView::Borrow(b) => typed_borrow_statement(cx, b),
        StatementView::Case(c) => typed_case(cx, c),
        StatementView::Discard(e) => typed_discard(cx, e),
        StatementView::For(f) => typed_for(cx, f),
        StatementView::If(i) => typed_if(cx, i),
        StatementView::Let(l) => match typed_let(cx, l) {
            Err(kind) => Err(kind),
            Ok(head) => Ok(let_stmt(head, TStmtView::TSkip(no_span()))),
        },
        StatementView::Return(e) => typed_return(cx, e),
        StatementView::While(w) => typed_while(cx, w),
    }
}

/// The typed borrow statement: its body is typed in the region it opens,
/// with the reference it binds.
#[verifier::opaque]
pub open spec fn typed_borrow_statement(cx: Context, b: BorrowStmtView) -> TypedStmt
    decreases b, 0nat,
{
    match typed_origin(cx, b) {
        Err(kind) => Err(kind),
        Ok((origin, reference)) => match typed_block(
            within(cx, borrow_scope(cx.scope, b, reference)),
            b.body,
            0,
        ) {
            Err(kind) => Err(kind),
            Ok(body) => Ok(
                TStmtView::TBorrow {
                    span: no_span(),
                    original: b.orig,
                    rename: b.name,
                    region: b.reg,
                    orig_type: origin,
                    ref_type: reference,
                    body: Box::new(body),
                    mode: borrow_kind(b.mode),
                },
            ),
        },
    }
}

/// The typed `case`: its value is of a union, and each `when` names a case
/// of that union.
#[verifier::opaque]
pub open spec fn typed_case(cx: Context, c: CaseStmtView) -> TypedStmt
    decreases c, 0nat,
{
    match typed_expression(cx, c.value, None) {
        Err(kind) => Err(kind),
        Ok((value, t)) => match find_union_of_in(cx.env.unions, t, 0) {
            None => Err(TypeErrorKind::TypeMismatch),
            Some(i) => match typed_whens(cx, cx.env.unions[i].cases, c.variants, 0, Seq::empty()) {
                Err(kind) => Err(kind),
                Ok(whens) => Ok(TStmtView::TCase(no_span(), Box::new(value), whens, CaseRef::CasePlain)),
            },
        },
    }
}

/// The typed `when` clauses from index `k` on, added to those before.
#[verifier::opaque]
pub open spec fn typed_whens(
    cx: Context,
    cases: Seq<CaseInfoView>,
    whens: Seq<CaseWhenView>,
    k: nat,
    acc: Seq<TypedWhenView>,
) -> Result<Seq<TypedWhenView>, TypeErrorKind>
    decreases whens, whens.len() - k,
{
    if k >= whens.len() {
        Ok(acc)
    } else {
        match typed_when(cx, cases, whens[k as int]) {
            Err(kind) => Err(kind),
            Ok(w) => typed_whens(cx, cases, whens, k + 1, acc.push(w)),
        }
    }
}

/// The typed `when` clause: it names a case, its bindings fit the slots of
/// that case, and its body is typed with the variables it binds.
#[verifier::opaque]
pub open spec fn typed_when(cx: Context, cases: Seq<CaseInfoView>, w: CaseWhenView) -> Result<
    TypedWhenView,
    TypeErrorKind,
>
    decreases w, 0nat,
{
    match find_case_in(cases, w.ident, 0) {
        None => Err(TypeErrorKind::UndefinedSymbol),
        Some(i) => match typed_bindings(cx, w.bindings, 0, Seq::empty()) {
            Err(kind) => Err(kind),
            Ok(bindings) => match destructure_fits(cases[i].slots, bindings) {
                Err(kind) => Err(kind),
                Ok(_) => match typed_block(
                    within(cx, scope_plus_bindings(cx.scope, bindings, Mutability::Immutable, 0)),
                    w.block,
                    0,
                ) {
                    Err(kind) => Err(kind),
                    Ok(body) => Ok(TypedWhenView(w.ident, bindings, Box::new(body))),
                },
            },
        },
    }
}

/// The typed `for`: its body is typed with the loop's variable, which is
/// of the type of the bounds and cannot be assigned.
#[verifier::opaque]
pub open spec fn typed_for(cx: Context, f: ForStmtView) -> TypedStmt
    decreases f, 0nat,
{
    match typed_bounds(cx, f) {
        Err(kind) => Err(kind),
        Ok((from, to, t)) => match typed_block(
            within(cx, scope_plus(cx.scope, f.name, t, Mutability::Immutable)),
            f.contents,
            0,
        ) {
            Err(kind) => Err(kind),
            Ok(body) => Ok(TStmtView::TFor(no_span(), f.name, Box::new(from), Box::new(to), Box::new(body))),
        },
    }
}

/// The typed `if`. Without an `else` the other branch does nothing.
#[verifier::opaque]
pub open spec fn typed_if(cx: Context, i: IfStmtView) -> TypedStmt
    decreases i, 1nat,
{
    match typed_condition(cx, i.value) {
        Err(kind) => Err(kind),
        Ok(condition) => match typed_block(cx, i.contents, 0) {
            Err(kind) => Err(kind),
            Ok(then) => match typed_otherwise(cx, i) {
                Err(kind) => Err(kind),
                Ok(otherwise) => Ok(
                    TStmtView::TIf(
                        no_span(),
                        Box::new(condition),
                        Box::new(then),
                        Box::new(otherwise),
                    ),
                ),
            },
        },
    }
}

/// The typed `else` branch of an `if`.
#[verifier::opaque]
pub open spec fn typed_otherwise(cx: Context, i: IfStmtView) -> TypedStmt
    decreases i, 0nat,
{
    match i.otherwise {
        Some(stmts) => typed_block(cx, stmts, 0),
        None => Ok(TStmtView::TSkip(no_span())),
    }
}

/// The typed `while`.
#[verifier::opaque]
pub open spec fn typed_while(cx: Context, w: WhileStmtView) -> TypedStmt
    decreases w, 0nat,
{
    match typed_condition(cx, w.value) {
        Err(kind) => Err(kind),
        Ok(condition) => match typed_block(cx, w.contents, 0) {
            Err(kind) => Err(kind),
            Ok(body) => Ok(TStmtView::TWhile(no_span(), Box::new(condition), Box::new(body))),
        },
    }
}

/// Whether what was computed for a list of bindings is what the rules give.
pub open spec fn bindings_as(
    r: Result<Vec<TypedBinding>, TypeErrorKind>,
    rule: Result<Seq<TypedBindingView>, TypeErrorKind>,
) -> bool {
    match (r, rule) {
        (Ok(bs), Ok(vs)) => bs.deep_view() == vs,
        (Err(a), Err(b)) => a == b,
        _ => false,
    }
}

/// Whether what was computed for a `let` is what the rules give.
pub open spec fn head_as(
    r: Result<LetHead, TypeErrorKind>,
    rule: Result<LetHeadView, TypeErrorKind>,
) -> bool {
    match (r, rule) {
        (Ok(h), Ok(v)) => h.deep_view() == v,
        (Err(a), Err(b)) => a == b,
        _ => false,
    }
}

fn skip() -> (r: TStmt)
    ensures
        r.deep_view() == TStmtView::TSkip(no_span()),
{
    TStmt::TSkip(blank_span())
}

fn copy_variables(items: &Vec<Variable>) -> (r: Vec<Variable>)
    ensures
        r.deep_view() == items.deep_view(),
{
    let mut out: Vec<Variable> = Vec::new();
    let mut k: usize = 0;
    while k < items.len()
        invariant
            0 <= k <= items.len(),
            out.len() == k,
            forall|i: int| 0 <= i < k ==> (#[trigger] out[i]).deep_view() == items[i].deep_view(),
        decreases items.len() - k,
    {
        let v = &items[k];
        out.push(Variable { name: v.name.clone(), ty: v.ty.clone(), mutability: v.mutability, kind: v.kind });
        k = k + 1;
    }
    assert(out.deep_view() =~= items.deep_view());
    out
}

/// Copies of the names of types of a list, in order.
pub fn copy_type_names(items: &Vec<TypeName>) -> (r: Vec<TypeName>)
    ensures
        r.deep_view() == items.deep_view(),
{
    let mut out: Vec<TypeName> = Vec::new();
    let mut k: usize = 0;
    while k < items.len()
        invariant
            0 <= k <= items.len(),
            out.len() == k,
            forall|i: int| 0 <= i < k ==> (#[trigger] out[i]).deep_view() == items[i].deep_view(),
        decreases items.len() - k,
    {
        out.push(TypeName { name: items[k].name.clone(), ty: items[k].ty.clone() });
        k = k + 1;
    }
    assert(out.deep_view() =~= items.deep_view());
    out
}

fn copy_regions(items: &Vec<RegionName>) -> (r: Vec<RegionName>)
    ensures
        r.deep_view() == items.deep_view(),
{
    let mut out: Vec<RegionName> = Vec::new();
    let mut k: usize = 0;
    while k < items.len()
        invariant
            0 <= k <= items.len(),
            out.len() == k,
            forall|i: int| 0 <= i < k ==> (#[trigger] out[i]).deep_view() == items[i].deep_view(),
        decreases items.len() - k,
    {
        let v = &items[k];
        out.push(RegionName { name: v.name.clone(), region: v.region });
        k = k + 1;
    }
    assert(out.deep_view() =~= items.deep_view());
    out
}

fn copy_scope(scope: &Scope) -> (r: Scope)
    ensures
        r.deep_view() == scope.deep_view(),
{
    Scope {
        types: copy_type_names(&scope.types),
        variables: copy_variables(&scope.variables),
        regions: copy_regions(&scope.regions),
        ret: scope.ret.clone(),
    }
}

/// The scope with one more local variable.
pub fn scope_with(scope: &Scope, name: Identifier, ty: Ty, mutability: Mutability) -> (r: Scope)
    ensures
        r.deep_view() == scope_plus(scope.deep_view(), name@, ty@, mutability),
{
    let mut inner = copy_scope(scope);
    let ghost before = inner.variables.deep_view();
    let v = Variable { name, ty, mutability, kind: VariableKind::Local };
    let ghost added = v.deep_view();
    inner.variables.push(v);
    assert(inner.variables.deep_view() =~= before.push(added));
    inner
}

/// The scope with the variables that a list of bindings binds.
pub fn scope_with_bindings(
    scope: &Scope,
    bindings: &Vec<TypedBinding>,
    mutability: Mutability,
) -> (r: Scope)
    ensures
        r.deep_view() == scope_plus_bindings(
            scope.deep_view(),
            bindings.deep_view(),
            mutability,
            0,
        ),
{
    let mut inner = copy_scope(scope);
    let mut k: usize = 0;
    while k < bindings.len()
        invariant
            0 <= k <= bindings.len(),
            scope_plus_bindings(scope.deep_view(), bindings.deep_view(), mutability, 0)
                == scope_plus_bindings(
                    inner.deep_view(),
                    bindings.deep_view(),
                    mutability,
                    k as nat,
                ),
        decreases bindings.len() - k,
    {
        assert(bindings.deep_view()[k as int] == bindings[k as int].deep_view());
        let ghost before = inner.deep_view();
        let v = Variable {
            name: bindings[k].rename.clone(),
            ty: bindings[k].ty.clone(),
            mutability,
            kind: VariableKind::Local,
        };
        let ghost added = v.deep_view();
        inner.variables.push(v);
        assert(inner.variables.deep_view() =~= before.variables.push(added));
        k = k + 1;
    }
    inner
}

/// The scope with one more region, the innermost.
pub fn scope_with_region(scope: &Scope, name: Identifier) -> (r: Scope)
    ensures
        r.deep_view() == scope_plus_region(scope.deep_view(), name@),
{
    let mut inner = copy_scope(scope);
    let ghost before = inner.regions.deep_view();
    let added = RegionName { name, region: Region { id: inner.regions.len() as u64 } };
    let ghost view = added.deep_view();
    inner.regions.push(added);
    assert(inner.regions.deep_view() =~= before.push(view));
    inner
}

fn type_binding(env: &Env, scope: &Scope, b: &Binding) -> (r: Result<TypedBinding, TypeErrorKind>)
    ensures
        match (r, typed_binding(context(env, scope), b.deep_view())) {
            (Ok(x), Ok(v)) => x.deep_view() == v,
            (Err(a), Err(c)) => a == c,
            _ => false,
        },
{
    let ty = resolve_type(&scope.types, &scope.regions, &b.ty)?;
    let rename = match &b.rename {
        Some(other) => name_of(other),
        None => name_of(&b.name),
    };
    Ok(TypedBinding { name: name_of(&b.name), ty, rename })
}

/// Resolves the types of a list of bindings.
pub fn type_bindings(env: &Env, scope: &Scope, bs: &Vec<Binding>) -> (r: Result<
    Vec<TypedBinding>,
    TypeErrorKind,
>)
    ensures
        bindings_as(r, typed_bindings(context(env, scope), bs.deep_view(), 0, Seq::empty())),
{
    let mut out: Vec<TypedBinding> = Vec::new();
    let mut k: usize = 0;
    assert(out.deep_view() =~= Seq::empty());
    while k < bs.len()
        invariant
            0 <= k <= bs.len(),
            typed_bindings(context(env, scope), bs.deep_view(), 0, Seq::empty()) == typed_bindings(
                context(env, scope),
                bs.deep_view(),
                k as nat,
                out.deep_view(),
            ),
        decreases bs.len() - k,
    {
        assert(bs.deep_view()[k as int] == bs[k as int].deep_view());
        let b = type_binding(env, scope, &bs[k])?;
        let ghost before = out.deep_view();
        let ghost added = b.deep_view();
        out.push(b);
        assert(out.deep_view() =~= before.push(added));
        k = k + 1;
    }
    Ok(out)
}

fn mutability(is_mutable: bool) -> (r: Mutability)
    ensures
        r == mutability_of(is_mutable),
{
    if is_mutable {
        Mutability::Mutable
    } else {
        Mutability::Immutable
    }
}

/// Types what a `let` binds.
pub fn type_let(env: &Env, scope: &Scope, s: &LetStmt) -> (r: Result<LetHead, TypeErrorKind>)
    ensures
        head_as(r, typed_let(context(env, scope), s.deep_view())),
{
    match &s.target {
        LetStmtTarget::Simple { name, ty } => {
            let t = resolve_type(&scope.types, &scope.regions, ty)?;
            let (e, et) = type_expression(env, scope, &s.value, Some(&t))?;
            check_same_type(&t, &et)?;
            Ok(LetHead::Simple(name_of(name), e, mutability(s.is_mutable), t))
        },
        LetStmtTarget::Destructure(bs) => {
            let (e, et) = type_expression(env, scope, &s.value, None)?;
            match find_record_of(&env.records, &et) {
                None => Err(TypeErrorKind::TypeMismatch),
                Some(i) => {
                    assert(env.deep_view().records[i as int] == env.records[i as int].deep_view());
                    let bindings = type_bindings(env, scope, bs)?;
                    check_destructure(&env.records[i].slots, &bindings)?;
                    Ok(LetHead::Destructure(mutability(s.is_mutable), bindings, e))
                },
            }
        },
    }
}

fn let_scope_of(scope: &Scope, head: &LetHead) -> (r: Scope)
    ensures
        r.deep_view() == let_scope(scope.deep_view(), head.deep_view()),
{
    match head {
        LetHead::Simple(name, _, mutability, ty) => scope_with(
            scope,
            name.clone(),
            ty.clone(),
            *mutability,
        ),
        LetHead::Destructure(mutability, bindings, _) => scope_with_bindings(
            scope,
            bindings,
            *mutability,
        ),
    }
}

fn let_statement(head: LetHead, rest: TStmt) -> (r: TStmt)
    ensures
        r.deep_view() == let_stmt(head.deep_view(), rest.deep_view()),
{
    match head {
        LetHead::Simple(name, value, mutability, ty) => TStmt::TLet(
            blank_span(),
            name,
            Box::new(value),
            mutability,
            ty,
            Box::new(rest),
        ),
        LetHead::Destructure(mutability, bindings, value) => TStmt::TDestructure(
            blank_span(),
            mutability,
            bindings,
            Box::new(value),
            Box::new(rest),
        ),
    }
}

fn written_variable(scope: &Scope, path: &PathExpr) -> (r: Option<Mutability>)
    ensures
        r == assigned_variable(scope.deep_view(), path.deep_view()),
{
    if path.extra.len() == 0 {
        match find_variable(&scope.variables, &path.first) {
            Some(i) => {
                assert(scope.deep_view().variables[i as int] == scope.variables[i as int].deep_view());
                Some(scope.variables[i].mutability)
            },
            None => None,
        }
    } else {
        None
    }
}

/// Types an assignment.
pub fn type_assign(env: &Env, scope: &Scope, a: &AssignStmt) -> (r: Result<TStmt, TypeErrorKind>)
    ensures
        statement_as(r, typed_assign(context(env, scope), a.deep_view())),
{
    let (place, pt) = type_path(env, scope, &a.target)?;
    let (value, vt) = type_expression(env, scope, &a.value, Some(&pt))?;
    check_assignment(&pt, written_variable(scope, &a.target), &vt)?;
    Ok(TStmt::TAssign(blank_span(), Box::new(place), Box::new(value)))
}

/// Types a `return`.
pub fn type_return(env: &Env, scope: &Scope, e: &Expression) -> (r: Result<TStmt, TypeErrorKind>)
    ensures
        statement_as(r, typed_return(context(env, scope), e.deep_view())),
{
    let (value, t) = type_expression(env, scope, e, Some(&scope.ret))?;
    check_same_type(&scope.ret, &t)?;
    Ok(TStmt::TReturn(blank_span(), Box::new(value)))
}

/// Types an expression whose value is discarded.
pub fn type_discard(env: &Env, scope: &Scope, e: &Expression) -> (r: Result<TStmt, TypeErrorKind>)
    ensures
        statement_as(r, typed_discard(context(env, scope), e.deep_view())),
{
    let (value, _) = type_expression(env, scope, e, None)?;
    Ok(TStmt::TDiscarding(blank_span(), Box::new(value)))
}

fn type_condition(env: &Env, scope: &Scope, e: &Expression) -> (r: Result<TExpr, TypeErrorKind>)
    ensures
        match (r, typed_condition(context(env, scope), e.deep_view())) {
            (Ok(x), Ok(v)) => x.deep_view() == v,
            (Err(a), Err(c)) => a == c,
            _ => false,
        },
{
    let (value, t) = type_expression(env, scope, e, None)?;
    check_condition(&t)?;
    Ok(value)
}

fn type_bounds(
    env: &Env,
    scope: &Scope,
    f: &ForStmt,
) -> (r: Result<(TExpr, TExpr, Ty), TypeErrorKind>)
    ensures
        match (r, typed_bounds(context(env, scope), f.deep_view())) {
            (Ok(x), Ok(v)) => x.0.deep_view() == v.0 && x.1.deep_view() == v.1 && x.2@ == v.2,
            (Err(a), Err(c)) => a == c,
            _ => false,
        },
{
    let (from, ft) = type_expression(env, scope, &f.start, None)?;
    let (to, tt) = type_expression(env, scope, &f.end, Some(&ft))?;
    let t = loop_variable_type(&ft, &tt)?;
    Ok((from, to, t))
}

fn kind_of_borrow(mode: BorrowMode) -> (r: BorrowStmtKind)
    ensures
        r == borrow_kind(mode),
{
    match mode {
        BorrowMode::Read => BorrowStmtKind::Read,
        BorrowMode::Write => BorrowStmtKind::Write,
        BorrowMode::ReBorrow => BorrowStmtKind::Reborrow,
    }
}

fn mode_of_reference(mode: BorrowMutMode) -> (r: BorrowingMode)
    ensures
        r == reference_mode(mode),
{
    match mode {
        BorrowMutMode::Read => BorrowingMode::ReadBorrow,
        BorrowMutMode::Write => BorrowingMode::WriteBorrow,
    }
}

fn referent(b: &BorrowStmt, origin: &Ty, written: &Ty) -> (r: Result<Ty, TypeErrorKind>)
    ensures
        gives_ty(r, referent_of(b.deep_view(), origin@, written@)),
{
    match b.mode {
        BorrowMode::Read => {
            let reads = match b.mut_mode {
                BorrowMutMode::Read => true,
                BorrowMutMode::Write => false,
            };
            if origin.equals(written) && reads {
                Ok(origin.clone())
            } else {
                Err(TypeErrorKind::TypeMismatch)
            }
        },
        BorrowMode::Write => {
            let writes = match b.mut_mode {
                BorrowMutMode::Read => false,
                BorrowMutMode::Write => true,
            };
            if origin.equals(written) && writes {
                Ok(origin.clone())
            } else {
                Err(TypeErrorKind::TypeMismatch)
            }
        },
        BorrowMode::ReBorrow => match origin {
            Ty::WriteRef(t, _) => {
                if t.equals(written) {
                    Ok((**t).clone())
                } else {
                    Err(TypeErrorKind::TypeMismatch)
                }
            },
            _ => Err(TypeErrorKind::TypeMismatch),
        },
    }
}

fn type_origin(env: &Env, scope: &Scope, b: &BorrowStmt) -> (r: Result<(Ty, Ty), TypeErrorKind>)
    ensures
        match (r, typed_origin(context(env, scope), b.deep_view())) {
            (Ok(x), Ok(v)) => x.0@ == v.0 && x.1@ == v.1,
            (Err(a), Err(c)) => a == c,
            _ => false,
        },
{
    match find_variable(&scope.variables, &b.orig) {
        None => Err(TypeErrorKind::UndefinedSymbol),
        Some(i) => {
            assert(scope.deep_view().variables[i as int] == scope.variables[i as int].deep_view());
            let written = resolve_type(&scope.types, &scope.regions, &b.ty)?;
            let to = referent(b, &scope.variables[i].ty, &written)?;
            let region = Region { id: scope.regions.len() as u64 };
            Ok((scope.variables[i].ty.clone(), borrow_type(mode_of_reference(b.mut_mode), &to, region)))
        },
    }
}

/// Types the statements of a block from index `k` on.
pub fn type_block(env: &Env, scope: &Scope, stmts: &Vec<Statement>, k: usize) -> (r: Result<
    TStmt,
    TypeErrorKind,
>)
    ensures
        statement_as(r, typed_block(context(env, scope), stmts.deep_view(), k as nat)),
    decreases stmts, stmts.len() - k,
{
    proof {
        reveal(typed_block);
        reveal(typed_statement);
    }
    if k >= stmts.len() {
        return Ok(skip());
    }
    assert(stmts.deep_view()[k as int] == stmts[k as int].deep_view());
    match &stmts[k] {
        Statement::Let(s) => {
            let head = type_let(env, scope, s)?;
            let inner = let_scope_of(scope, &head);
            let rest = type_block(env, &inner, stmts, k + 1)?;
            Ok(let_statement(head, rest))
        },
        other => {
            let first = type_statement(env, scope, other)?;
            if k + 1 == stmts.len() {
                Ok(first)
            } else {
                let rest = type_block(env, scope, stmts, k + 1)?;
                Ok(TStmt::TBlock(blank_span(), Box::new(first), Box::new(rest)))
            }
        },
    }
}

/// Types one statement.
pub fn type_statement(env: &Env, scope: &Scope, s: &Statement) -> (r: Result<TStmt, TypeErrorKind>)
    ensures
        statement_as(r, typed_statement(context(env, scope), s.deep_view())),
    decreases s, 1nat,
{
    proof {
        reveal(typed_statement);
        reveal(typed_borrow_statement);
        reveal(typed_case);
        reveal(typed_for);
        reveal(typed_if);
        reveal(typed_while);
    }
    match s {
        Statement::Assign(a) => type_assign(env, scope, a),
        Statement::Borrow(b) => type_borrow_statement(env, scope, b),
        Statement::Case(c) => type_case(env, scope, c),
        Statement::Discard(e) => type_discard(env, scope, e),
        Statement::For(f) => type_for(env, scope, f),
        Statement::If(i) => type_if(env, scope, i),
        Statement::Let(l) => {
            let head = type_let(env, scope, l)?;
            Ok(let_statement(head, skip()))
        },
        Statement::Return(e) => type_return(env, scope, e),
        Statement::While(w) => type_while(env, scope, w),
    }
}

fn type_borrow_statement(
    env: &Env,
    scope: &Scope,
    b: &BorrowStmt,
) -> (r: Result<TStmt, TypeErrorKind>)
    ensures
        statement_as(r, typed_borrow_statement(context(env, scope), b.deep_view())),
    decreases b, 0nat,
{
    proof {
        reveal(typed_borrow_statement);
        reveal(typed_block);
    }
    let (origin, reference) = type_origin(env, scope, b)?;
    let outer = scope_with_region(scope, name_of(&b.reg));
    let inner = scope_with(&outer, name_of(&b.name), reference.clone(), Mutability::Immutable);
    assert(b.deep_view().body =~= b.body.deep_view());
    let body = type_block(env, &inner, &b.body, 0)?;
    Ok(
        TStmt::TBorrow {
            span: blank_span(),
            original: name_of(&b.orig),
            rename: name_of(&b.name),
            region: name_of(&b.reg),
            orig_type: origin,
            ref_type: reference,
            body: Box::new(body),
            mode: kind_of_borrow(b.mode),
        },
    )
}

fn type_case(env: &Env, scope: &Scope, c: &CaseStmt) -> (r: Result<TStmt, TypeErrorKind>)
    ensures
        statement_as(r, typed_case(context(env, scope), c.deep_view())),
    decreases c, 1nat,
{
    proof {
        reveal(typed_case);
        reveal(typed_whens);
    }
    let (value, t) = type_expression(env, scope, &c.value, None)?;
    match find_union_of(&env.unions, &t) {
        None => Err(TypeErrorKind::TypeMismatch),
        Some(i) => {
            assert(env.deep_view().unions[i as int] == env.unions[i as int].deep_view());
            assert(c.deep_view().variants =~= c.variants.deep_view());
            let whens = type_whens(env, scope, &env.unions[i].cases, &c.variants)?;
            let r = TStmt::TCase(blank_span(), Box::new(value), whens, CaseRef::CasePlain);
            assert(r.deep_view()->TCase_2 =~= whens.deep_view());
            Ok(r)
        },
    }
}

fn type_whens(env: &Env, scope: &Scope, cases: &Vec<CaseInfo>, whens: &Vec<CaseWhen>) -> (r: Result<
    Vec<TypedWhen>,
    TypeErrorKind,
>)
    ensures
        match (
            r,
            typed_whens(context(env, scope), cases.deep_view(), whens.deep_view(), 0, Seq::empty()),
        ) {
            (Ok(x), Ok(v)) => x.deep_view() == v,
            (Err(a), Err(c)) => a == c,
            _ => false,
        },
    decreases whens, 0nat,
{
    proof {
        reveal(typed_whens);
        reveal(typed_when);
    }
    let mut out: Vec<TypedWhen> = Vec::new();
    let mut k: usize = 0;
    assert(out.deep_view() =~= Seq::empty());
    while k < whens.len()
        invariant
            0 <= k <= whens.len(),
            typed_whens(context(env, scope), cases.deep_view(), whens.deep_view(), 0, Seq::empty())
                == typed_whens(
                context(env, scope),
                cases.deep_view(),
                whens.deep_view(),
                k as nat,
                out.deep_view(),
            ),
        decreases whens.len() - k,
    {
        proof {
            reveal(typed_whens);
            reveal(typed_when);
        }
        assert(whens.deep_view()[k as int] == whens[k as int].deep_view());
        let w = type_when(env, scope, cases, &whens[k])?;
        let ghost before = out.deep_view();
        let ghost added = w.deep_view();
        out.push(w);
        assert(out.deep_view() =~= before.push(added));
        k = k + 1;
    }
    Ok(out)
}

fn type_when(env: &Env, scope: &Scope, cases: &Vec<CaseInfo>, w: &CaseWhen) -> (r: Result<
    TypedWhen,
    TypeErrorKind,
>)
    ensures
        match (r, typed_when(context(env, scope), cases.deep_view(), w.deep_view())) {
            (Ok(x), Ok(v)) => x.deep_view() == v,
            (Err(a), Err(c)) => a == c,
            _ => false,
        },
    decreases w, 0nat,
{
    proof {
        reveal(typed_when);
        reveal(typed_block);
    }
    match find_case(cases, &w.ident) {
        None => Err(TypeErrorKind::UndefinedSymbol),
        Some(i) => {
            assert(cases.deep_view()[i as int] == cases[i as int].deep_view());
            let bindings = type_bindings(env, scope, &w.bindings)?;
            check_destructure(&cases[i].slots, &bindings)?;
            let inner = scope_with_bindings(scope, &bindings, Mutability::Immutable);
            assert(w.deep_view().block =~= w.block.deep_view());
            let body = type_block(env, &inner, &w.block, 0)?;
            Ok(TypedWhen(name_of(&w.ident), bindings, Box::new(body)))
        },
    }
}

fn type_for(env: &Env, scope: &Scope, f: &ForStmt) -> (r: Result<TStmt, TypeErrorKind>)
    ensures
        statement_as(r, typed_for(context(env, scope), f.deep_view())),
    decreases f, 0nat,
{
    proof {
        reveal(typed_for);
        reveal(typed_block);
    }
    let (from, to, t) = type_bounds(env, scope, f)?;
    let inner = scope_with(scope, name_of(&f.name), t, Mutability::Immutable);
    assert(f.deep_view().contents =~= f.contents.deep_view());
    let body = type_block(env, &inner, &f.contents, 0)?;
    Ok(TStmt::TFor(blank_span(), name_of(&f.name), Box::new(from), Box::new(to), Box::new(body)))
}

fn type_if(env: &Env, scope: &Scope, i: &IfStmt) -> (r: Result<TStmt, TypeErrorKind>)
    ensures
        statement_as(r, typed_if(context(env, scope), i.deep_view())),
    decreases i, 1nat,
{
    proof {
        reveal(typed_if);
        reveal(typed_otherwise);
        reveal(typed_block);
    }
    let condition = type_condition(env, scope, &i.value)?;
    assert(i.deep_view().contents =~= i.contents.deep_view());
    let then = type_block(env, scope, &i.contents, 0)?;
    let otherwise = match &i.otherwise {
        Some(stmts) => {
            assert(i.deep_view().otherwise->Some_0 =~= stmts.deep_view());
            type_block(env, scope, stmts, 0)?
        },
        None => skip(),
    };
    Ok(TStmt::TIf(blank_span(), Box::new(condition), Box::new(then), Box::new(otherwise)))
}

fn type_while(env: &Env, scope: &Scope, w: &WhileStmt) -> (r: Result<TStmt, TypeErrorKind>)
    ensures
        statement_as(r, typed_while(context(env, scope), w.deep_view())),
    decreases w, 0nat,
{
    proof {
        reveal(typed_while);
        reveal(typed_block);
    }
    let condition = type_condition(env, scope, &w.value)?;
    assert(w.deep_view().contents =~= w.contents.deep_view());
    let body = type_block(env, scope, &w.contents, 0)?;
    Ok(TStmt::TWhile(blank_span(), Box::new(condition), Box::new(body)))
}

} // verus!
