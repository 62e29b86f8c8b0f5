//! The universe function and the simple predicates on types.

use crate::ty::{Ty, TyView, Universe};
use vstd::prelude::*;

verus! {

/// The universe of a type. Scalars, addresses, pointers, function pointers,
/// read references and read spans are free; write references and mutable
/// spans are linear; a region is in the region universe; a named type and a
/// type variable carry their universe with them.
pub open spec fn universe_of(ty: TyView) -> Universe {
    match ty {
        TyView::WriteRef(_, _) | TyView::SpanMut(_, _) => Universe::LinearUniverse,
        TyView::RegionTy(_) => Universe::RegionUniverse,
        TyView::NamedType(_, _, u) => u,
        TyView::TyVar(_, u, _) => u,
        _ => Universe::FreeUniverse,
    }
}

/// Integers and floats are the numeric types.
pub open spec fn numeric(ty: TyView) -> bool {
    ty is Integer || ty is SingleFloat || ty is DoubleFloat
}

/// A type is linear when its universe is the linear one.
pub open spec fn linear(ty: TyView) -> bool {
    universe_of(ty) == Universe::LinearUniverse
}

/// The order on universes that a declaration's slots must respect: every
/// universe is below itself, and the free universe is below the linear one
/// and below the type universe.
pub open spec fn universe_below(a: Universe, b: Universe) -> bool {
    a == b || (a == Universe::FreeUniverse && (b == Universe::LinearUniverse || b
        == Universe::TypeUniverse))
}

/// Whether every reference and span inside a type is bound to a region: the
/// second argument of each is of the region universe.
pub open spec fn regions_closed(ty: TyView) -> bool
    decreases ty,
{
    match ty {
        TyView::ReadRef(t, r) => regions_closed(*t) && regions_closed(*r) && universe_of(*r)
            == Universe::RegionUniverse,
        TyView::WriteRef(t, r) => regions_closed(*t) && regions_closed(*r) && universe_of(*r)
            == Universe::RegionUniverse,
        TyView::Span(t, r) => regions_closed(*t) && regions_closed(*r) && universe_of(*r)
            == Universe::RegionUniverse,
        TyView::SpanMut(t, r) => regions_closed(*t) && regions_closed(*r) && universe_of(*r)
            == Universe::RegionUniverse,
        TyView::Address(t) => regions_closed(*t),
        TyView::Pointer(t) => regions_closed(*t),
        TyView::NamedType(_, args, _) => forall|i: int|
            0 <= i < args.len() ==> regions_closed(#[trigger] args[i]),
        TyView::FnPtr(params, ret) => regions_closed(*ret) && forall|i: int|
            0 <= i < params.len() ==> regions_closed(#[trigger] params[i]),
        _ => true,
    }
}

/// Computes `universe_of`.
pub fn type_universe(ty: &Ty) -> (r: Universe)
    ensures
        r == universe_of(ty@),
{
    match ty {
        Ty::Unit => Universe::FreeUniverse,
        Ty::Boolean => Universe::FreeUniverse,
        Ty::Integer(_, _) => Universe::FreeUniverse,
        Ty::SingleFloat => Universe::FreeUniverse,
        Ty::DoubleFloat => Universe::FreeUniverse,
        Ty::NamedType(_, _, u) => *u,
        Ty::RegionTy(_) => Universe::RegionUniverse,
        Ty::ReadRef(_, _) => Universe::FreeUniverse,
        Ty::WriteRef(_, _) => Universe::LinearUniverse,
        Ty::Span(_, _) => Universe::FreeUniverse,
        Ty::SpanMut(_, _) => Universe::LinearUniverse,
        Ty::TyVar(v) => v.universe,
        Ty::Address(_) => Universe::FreeUniverse,
        Ty::Pointer(_) => Universe::FreeUniverse,
        Ty::FnPtr(_, _) => Universe::FreeUniverse,
    }
}

/// Computes `numeric`.
pub fn is_numeric(ty: &Ty) -> (r: bool)
    ensures
        r == numeric(ty@),
{
    match ty {
        Ty::Integer(_, _) => true,
        Ty::SingleFloat => true,
        Ty::DoubleFloat => true,
        _ => false,
    }
}

/// Whether a type is an integer type.
pub fn is_integer(ty: &Ty) -> (r: bool)
    ensures
        r == (ty@ is Integer),
{
    match ty {
        Ty::Integer(_, _) => true,
        _ => false,
    }
}

/// Whether a type is a float type.
pub fn is_float(ty: &Ty) -> (r: bool)
    ensures
        r == (ty@ is SingleFloat || ty@ is DoubleFloat),
{
    match ty {
        Ty::SingleFloat => true,
        Ty::DoubleFloat => true,
        _ => false,
    }
}

/// Computes `linear`.
pub fn is_linear(ty: &Ty) -> (r: bool)
    ensures
        r == linear(ty@),
{
    match type_universe(ty) {
        Universe::LinearUniverse => true,
        _ => false,
    }
}

/// Whether a slot of universe `a` may stand in a declaration of universe `b`.
pub fn universe_fits(a: Universe, b: Universe) -> (r: bool)
    ensures
        r == universe_below(a, b),
{
    match (a, b) {
        (Universe::FreeUniverse, Universe::FreeUniverse) => true,
        (Universe::FreeUniverse, Universe::LinearUniverse) => true,
        (Universe::FreeUniverse, Universe::TypeUniverse) => true,
        (Universe::LinearUniverse, Universe::LinearUniverse) => true,
        (Universe::TypeUniverse, Universe::TypeUniverse) => true,
        (Universe::RegionUniverse, Universe::RegionUniverse) => true,
        _ => false,
    }
}

/// Whether every reference and span inside the type is bound to a region.
pub fn is_closed(ty: &Ty) -> (ok: bool)
    ensures
        ok == regions_closed(ty@),
    decreases ty,
{
    match ty {
        Ty::ReadRef(t, region) => {
            let in_region = type_universe(region) == Universe::RegionUniverse;
            is_closed(t) && is_closed(region) && in_region
        },
        Ty::WriteRef(t, region) => {
            let in_region = type_universe(region) == Universe::RegionUniverse;
            is_closed(t) && is_closed(region) && in_region
        },
        Ty::Span(t, region) => {
            let in_region = type_universe(region) == Universe::RegionUniverse;
            is_closed(t) && is_closed(region) && in_region
        },
        Ty::SpanMut(t, region) => {
            let in_region = type_universe(region) == Universe::RegionUniverse;
            is_closed(t) && is_closed(region) && in_region
        },
        Ty::Address(t) | Ty::Pointer(t) => is_closed(t),
        Ty::NamedType(_, args, _) => {
            let ok = all_closed(args);
            proof {
                let s = ty@->NamedType_1;
                assert forall|i: int| 0 <= i < args.len() implies s[i] == args[i]@ by {}
                if ok {
                    assert forall|i: int| 0 <= i < s.len() implies regions_closed(
                        #[trigger] s[i],
                    ) by {
                        assert(regions_closed(args[i]@));
                    }
                } else {
                    let j = choose|j: int| 0 <= j < args.len() && !regions_closed(args[j]@);
                    assert(!regions_closed(s[j]));
                }
            }
            ok
        },
        Ty::FnPtr(params, ret) => {
            let ok = all_closed(params);
            proof {
                let s = ty@->FnPtr_0;
                assert forall|i: int| 0 <= i < params.len() implies s[i] == params[i]@ by {}
                if ok {
                    assert forall|i: int| 0 <= i < s.len() implies regions_closed(
                        #[trigger] s[i],
                    ) by {
                        assert(regions_closed(params[i]@));
                    }
                } else {
                    let j = choose|j: int| 0 <= j < params.len() && !regions_closed(params[j]@);
                    assert(!regions_closed(s[j]));
                }
            }
            is_closed(ret) && ok
        },
        _ => true,
    }
}

fn all_closed(tys: &Vec<Ty>) -> (r: bool)
    ensures
        r == forall|i: int| 0 <= i < tys.len() ==> regions_closed(#[trigger] tys[i]@),
    decreases tys,
{
    let mut i: usize = 0;
    while i < tys.len()
        invariant
            0 <= i <= tys.len(),
            forall|j: int| 0 <= j < i ==> regions_closed(#[trigger] tys[j]@),
        decreases tys.len() - i,
    {
        if !is_closed(&tys[i]) {
            return false;
        }
        i = i + 1;
    }
    true
}

/// In a closed type, the second argument of a reference or of a span is
/// of the region universe, and what the reference or the span holds is
/// closed again.
pub proof fn law_references_are_bound(ty: TyView)
    requires
        regions_closed(ty),
    ensures
        ty matches TyView::ReadRef(t, r) ==> regions_closed(*t) && universe_of(*r)
            == Universe::RegionUniverse,
        ty matches TyView::WriteRef(t, r) ==> regions_closed(*t) && universe_of(*r)
            == Universe::RegionUniverse,
        ty matches TyView::Span(t, r) ==> regions_closed(*t) && universe_of(*r)
            == Universe::RegionUniverse,
        ty matches TyView::SpanMut(t, r) ==> regions_closed(*t) && universe_of(*r)
            == Universe::RegionUniverse,
{
}

/// A type with a type variable replaced by a type. A variable of the
/// region universe stands for a region and is left as it is.
pub open spec fn substituted(ty: TyView, id: u64, with: TyView) -> TyView
    decreases ty,
{
    match ty {
        TyView::TyVar(v, u, _) => if v == id && u != Universe::RegionUniverse {
            with
        } else {
            ty
        },
        TyView::NamedType(name, args, u) => TyView::NamedType(
            name,
            Seq::new(
                args.len(),
                |i: int|
                    if 0 <= i < args.len() {
                        substituted(args[i], id, with)
                    } else {
                        TyView::Unit
                    },
            ),
            u,
        ),
        TyView::ReadRef(t, r) => TyView::ReadRef(
            Box::new(substituted(*t, id, with)),
            Box::new(substituted(*r, id, with)),
        ),
        TyView::WriteRef(t, r) => TyView::WriteRef(
            Box::new(substituted(*t, id, with)),
            Box::new(substituted(*r, id, with)),
        ),
        TyView::Span(t, r) => TyView::Span(
            Box::new(substituted(*t, id, with)),
            Box::new(substituted(*r, id, with)),
        ),
        TyView::SpanMut(t, r) => TyView::SpanMut(
            Box::new(substituted(*t, id, with)),
            Box::new(substituted(*r, id, with)),
        ),
        TyView::Address(t) => TyView::Address(Box::new(substituted(*t, id, with))),
        TyView::Pointer(t) => TyView::Pointer(Box::new(substituted(*t, id, with))),
        TyView::FnPtr(params, ret) => TyView::FnPtr(
            Seq::new(
                params.len(),
                |i: int|
                    if 0 <= i < params.len() {
                        substituted(params[i], id, with)
                    } else {
                        TyView::Unit
                    },
            ),
            Box::new(substituted(*ret, id, with)),
        ),
        _ => ty,
    }
}

/// Replaces a type variable in a type.
pub fn substitute(ty: &Ty, id: u64, with: &Ty) -> (r: Ty)
    ensures
        r@ == substituted(ty@, id, with@),
    decreases ty,
{
    match ty {
        Ty::TyVar(v) => {
            let regional = match v.universe {
                Universe::RegionUniverse => true,
                _ => false,
            };
            if v.id == id && !regional {
                with.clone()
            } else {
                ty.clone()
            }
        },
        Ty::NamedType(name, args, u) => {
            let changed = substitute_all(args, id, with);
            let r = Ty::NamedType(name.clone(), changed, *u);
            assert(r@->NamedType_1 =~= substituted(ty@, id, with@)->NamedType_1);
            r
        },
        Ty::ReadRef(t, r) => Ty::ReadRef(
            Box::new(substitute(&**t, id, with)),
            Box::new(substitute(&**r, id, with)),
        ),
        Ty::WriteRef(t, r) => Ty::WriteRef(
            Box::new(substitute(&**t, id, with)),
            Box::new(substitute(&**r, id, with)),
        ),
        Ty::Span(t, r) => Ty::Span(
            Box::new(substitute(&**t, id, with)),
            Box::new(substitute(&**r, id, with)),
        ),
        Ty::SpanMut(t, r) => Ty::SpanMut(
            Box::new(substitute(&**t, id, with)),
            Box::new(substitute(&**r, id, with)),
        ),
        Ty::Address(t) => Ty::Address(Box::new(substitute(&**t, id, with))),
        Ty::Pointer(t) => Ty::Pointer(Box::new(substitute(&**t, id, with))),
        Ty::FnPtr(params, ret) => {
            let changed = substitute_all(params, id, with);
            let r = Ty::FnPtr(changed, Box::new(substitute(&**ret, id, with)));
            assert(r@->FnPtr_0 =~= substituted(ty@, id, with@)->FnPtr_0);
            r
        },
        _ => ty.clone(),
    }
}

fn substitute_all(tys: &Vec<Ty>, id: u64, with: &Ty) -> (r: Vec<Ty>)
    ensures
        r.len() == tys.len(),
        forall|i: int| 0 <= i < r.len() ==> r[i]@ == substituted(tys[i]@, id, with@),
    decreases tys,
{
    let mut out: Vec<Ty> = Vec::new();
    let mut i: usize = 0;
    while i < tys.len()
        invariant
            0 <= i <= tys.len(),
            out.len() == i,
            forall|j: int| 0 <= j < i ==> out[j]@ == substituted(tys[j]@, id, with@),
        decreases tys.len() - i,
    {
        out.push(substitute(&tys[i], id, with));
        i = i + 1;
    }
    out
}

/// Replacing a type variable keeps the universe of every type but the
/// variable itself.
pub proof fn lemma_substituted_universe(ty: TyView, id: u64, with: TyView)
    ensures
        !(ty matches TyView::TyVar(v, u, _) && v == id && u != Universe::RegionUniverse)
            ==> universe_of(substituted(ty, id, with)) == universe_of(ty),
{
}

/// Replacing a type variable in a closed type by a closed type gives a
/// closed type.
pub proof fn lemma_substituted_closed(ty: TyView, id: u64, with: TyView)
    requires
        regions_closed(ty),
        regions_closed(with),
    ensures
        regions_closed(substituted(ty, id, with)),
    decreases ty,
{
    match ty {
        TyView::NamedType(_, args, _) => {
            let changed = substituted(ty, id, with)->NamedType_1;
            assert forall|i: int| 0 <= i < changed.len() implies regions_closed(
                #[trigger] changed[i],
            ) by {
                assert(regions_closed(args[i]));
                lemma_substituted_closed(args[i], id, with);
            }
        },
        TyView::ReadRef(t, r) => {
            lemma_substituted_closed(*t, id, with);
            lemma_substituted_closed(*r, id, with);
            lemma_substituted_universe(*r, id, with);
        },
        TyView::WriteRef(t, r) => {
            lemma_substituted_closed(*t, id, with);
            lemma_substituted_closed(*r, id, with);
            lemma_substituted_universe(*r, id, with);
        },
        TyView::Span(t, r) => {
            lemma_substituted_closed(*t, id, with);
            lemma_substituted_closed(*r, id, with);
            lemma_substituted_universe(*r, id, with);
        },
        TyView::SpanMut(t, r) => {
            lemma_substituted_closed(*t, id, with);
            lemma_substituted_closed(*r, id, with);
            lemma_substituted_universe(*r, id, with);
        },
        TyView::Address(t) => {
            lemma_substituted_closed(*t, id, with);
        },
        TyView::Pointer(t) => {
            lemma_substituted_closed(*t, id, with);
        },
        TyView::FnPtr(params, ret) => {
            lemma_substituted_closed(*ret, id, with);
            let changed = substituted(ty, id, with)->FnPtr_0;
            assert forall|i: int| 0 <= i < changed.len() implies regions_closed(
                #[trigger] changed[i],
            ) by {
                assert(regions_closed(params[i]));
                lemma_substituted_closed(params[i], id, with);
            }
        },
        _ => {},
    }
}

/// A type put for a type variable.
pub struct TypeBinding {
    pub variable: u64,
    pub ty: Ty,
}

/// A value of `TypeBinding` as plain data.
pub struct TypeBindingView {
    pub variable: u64,
    pub ty: TyView,
}

impl DeepView for TypeBinding {
    type V = TypeBindingView;

    open spec fn deep_view(&self) -> TypeBindingView {
        TypeBindingView { variable: self.variable, ty: self.ty@ }
    }
}

/// The index of the first binding of a type variable.
pub open spec fn find_binding_in(
    bindings: Seq<TypeBindingView>,
    variable: u64,
    from: int,
) -> Option<int>
    decreases bindings.len() - from,
{
    if from < 0 || from >= bindings.len() {
        None
    } else if bindings[from].variable == variable {
        Some(from)
    } else {
        find_binding_in(bindings, variable, from + 1)
    }
}

/// A type with types put for type variables, all at once: what is put for
/// a variable is left as it is. A variable of the region universe stands
/// for a region and is left as it is, and so is a variable that nothing is
/// put for.
pub open spec fn instantiated(ty: TyView, bindings: Seq<TypeBindingView>) -> TyView
    decreases ty,
{
    match ty {
        TyView::TyVar(v, u, _) => if u != Universe::RegionUniverse {
            match find_binding_in(bindings, v, 0) {
                Some(i) => bindings[i].ty,
                None => ty,
            }
        } else {
            ty
        },
        TyView::NamedType(name, args, u) => TyView::NamedType(
            name,
            Seq::new(
                args.len(),
                |i: int|
                    if 0 <= i < args.len() {
                        instantiated(args[i], bindings)
                    } else {
                        TyView::Unit
                    },
            ),
            u,
        ),
        TyView::ReadRef(t, r) => TyView::ReadRef(
            Box::new(instantiated(*t, bindings)),
            Box::new(instantiated(*r, bindings)),
        ),
        TyView::WriteRef(t, r) => TyView::WriteRef(
            Box::new(instantiated(*t, bindings)),
            Box::new(instantiated(*r, bindings)),
        ),
        TyView::Span(t, r) => TyView::Span(
            Box::new(instantiated(*t, bindings)),
            Box::new(instantiated(*r, bindings)),
        ),
        TyView::SpanMut(t, r) => TyView::SpanMut(
            Box::new(instantiated(*t, bindings)),
            Box::new(instantiated(*r, bindings)),
        ),
        TyView::Address(t) => TyView::Address(Box::new(instantiated(*t, bindings))),
        TyView::Pointer(t) => TyView::Pointer(Box::new(instantiated(*t, bindings))),
        TyView::FnPtr(params, ret) => TyView::FnPtr(
            Seq::new(
                params.len(),
                |i: int|
                    if 0 <= i < params.len() {
                        instantiated(params[i], bindings)
                    } else {
                        TyView::Unit
                    },
            ),
            Box::new(instantiated(*ret, bindings)),
        ),
        _ => ty,
    }
}

/// Computes `find_binding_in`.
pub fn find_binding(bindings: &Vec<TypeBinding>, variable: u64) -> (r: Option<usize>)
    ensures
        match find_binding_in(bindings.deep_view(), variable, 0) {
            Some(i) => r == Some(i as usize) && 0 <= i < bindings.len(),
            None => r is None,
        },
{
    let mut k: usize = 0;
    while k < bindings.len()
        invariant
            0 <= k <= bindings.len(),
            find_binding_in(bindings.deep_view(), variable, 0) == find_binding_in(
                bindings.deep_view(),
                variable,
                k as int,
            ),
        decreases bindings.len() - k,
    {
        assert(bindings.deep_view()[k as int] == bindings[k as int].deep_view());
        if bindings[k].variable == variable {
            return Some(k);
        }
        k = k + 1;
    }
    None
}

/// Puts types for the type variables of a type.
pub fn instantiate(ty: &Ty, bindings: &Vec<TypeBinding>) -> (r: Ty)
    ensures
        r@ == instantiated(ty@, bindings.deep_view()),
    decreases ty,
{
    match ty {
        Ty::TyVar(v) => {
            let regional = match v.universe {
                Universe::RegionUniverse => true,
                _ => false,
            };
            if regional {
                ty.clone()
            } else {
                match find_binding(bindings, v.id) {
                    Some(i) => {
                        assert(bindings.deep_view()[i as int] == bindings[i as int].deep_view());
                        bindings[i].ty.clone()
                    },
                    None => ty.clone(),
                }
            }
        },
        Ty::NamedType(name, args, u) => {
            let changed = instantiate_all(args, bindings);
            let r = Ty::NamedType(name.clone(), changed, *u);
            assert(r@->NamedType_1 =~= instantiated(ty@, bindings.deep_view())->NamedType_1);
            r
        },
        Ty::ReadRef(t, r) => Ty::ReadRef(
            Box::new(instantiate(&**t, bindings)),
            Box::new(instantiate(&**r, bindings)),
        ),
        Ty::WriteRef(t, r) => Ty::WriteRef(
            Box::new(instantiate(&**t, bindings)),
            Box::new(instantiate(&**r, bindings)),
        ),
        Ty::Span(t, r) => Ty::Span(
            Box::new(instantiate(&**t, bindings)),
            Box::new(instantiate(&**r, bindings)),
        ),
        Ty::SpanMut(t, r) => Ty::SpanMut(
            Box::new(instantiate(&**t, bindings)),
            Box::new(instantiate(&**r, bindings)),
        ),
        Ty::Address(t) => Ty::Address(Box::new(instantiate(&**t, bindings))),
        Ty::Pointer(t) => Ty::Pointer(Box::new(instantiate(&**t, bindings))),
        Ty::FnPtr(params, ret) => {
            let changed = instantiate_all(params, bindings);
            let r = Ty::FnPtr(changed, Box::new(instantiate(&**ret, bindings)));
            assert(r@->FnPtr_0 =~= instantiated(ty@, bindings.deep_view())->FnPtr_0);
            r
        },
        _ => ty.clone(),
    }
}

fn instantiate_all(tys: &Vec<Ty>, bindings: &Vec<TypeBinding>) -> (r: Vec<Ty>)
    ensures
        r.len() == tys.len(),
        forall|i: int| 0 <= i < r.len() ==> r[i]@ == instantiated(tys[i]@, bindings.deep_view()),
    decreases tys,
{
    let mut out: Vec<Ty> = Vec::new();
    let mut i: usize = 0;
    while i < tys.len()
        invariant
            0 <= i <= tys.len(),
            out.len() == i,
            forall|j: int| 0 <= j < i ==> out[j]@ == instantiated(tys[j]@, bindings.deep_view()),
        decreases tys.len() - i,
    {
        out.push(instantiate(&tys[i], bindings));
        i = i + 1;
    }
    out
}

/// Whether every type of a list of bindings is closed.
pub open spec fn closed_bindings_of(bindings: Seq<TypeBindingView>) -> bool {
    forall|i: int| 0 <= i < bindings.len() ==> regions_closed((#[trigger] bindings[i]).ty)
}

/// The binding that is found is one of the list.
pub proof fn lemma_find_binding(bindings: Seq<TypeBindingView>, variable: u64, from: int)
    requires
        0 <= from,
    ensures
        find_binding_in(bindings, variable, from) matches Some(i) ==> 0 <= i < bindings.len(),
    decreases bindings.len() - from,
{
    if from < bindings.len() && bindings[from].variable != variable {
        lemma_find_binding(bindings, variable, from + 1);
    }
}

/// Putting types for type variables keeps the universe of every type but
/// the variables themselves.
pub proof fn lemma_instantiated_universe(ty: TyView, bindings: Seq<TypeBindingView>)
    ensures
        !(ty matches TyView::TyVar(_, u, _) && u != Universe::RegionUniverse) ==> universe_of(
            instantiated(ty, bindings),
        ) == universe_of(ty),
{
}

/// Putting closed types for the type variables of a closed type gives a
/// closed type.
pub proof fn lemma_instantiated_closed(ty: TyView, bindings: Seq<TypeBindingView>)
    requires
        regions_closed(ty),
        closed_bindings_of(bindings),
    ensures
        regions_closed(instantiated(ty, bindings)),
    decreases ty,
{
    match ty {
        TyView::TyVar(v, _, _) => {
            lemma_find_binding(bindings, v, 0);
        },
        TyView::NamedType(_, args, _) => {
            let changed = instantiated(ty, bindings)->NamedType_1;
            assert forall|i: int| 0 <= i < changed.len() implies regions_closed(
                #[trigger] changed[i],
            ) by {
                assert(regions_closed(args[i]));
                lemma_instantiated_closed(args[i], bindings);
            }
        },
        TyView::ReadRef(t, r) => {
            lemma_instantiated_closed(*t, bindings);
            lemma_instantiated_closed(*r, bindings);
            lemma_instantiated_universe(*r, bindings);
        },
        TyView::WriteRef(t, r) => {
            lemma_instantiated_closed(*t, bindings);
            lemma_instantiated_closed(*r, bindings);
            lemma_instantiated_universe(*r, bindings);
        },
        TyView::Span(t, r) => {
            lemma_instantiated_closed(*t, bindings);
            lemma_instantiated_closed(*r, bindings);
            lemma_instantiated_universe(*r, bindings);
        },
        TyView::SpanMut(t, r) => {
            lemma_instantiated_closed(*t, bindings);
            lemma_instantiated_closed(*r, bindings);
            lemma_instantiated_universe(*r, bindings);
        },
        TyView::Address(t) => {
            lemma_instantiated_closed(*t, bindings);
        },
        TyView::Pointer(t) => {
            lemma_instantiated_closed(*t, bindings);
        },
        TyView::FnPtr(params, ret) => {
            lemma_instantiated_closed(*ret, bindings);
            let changed = instantiated(ty, bindings)->FnPtr_0;
            assert forall|i: int| 0 <= i < changed.len() implies regions_closed(
                #[trigger] changed[i],
            ) by {
                assert(regions_closed(params[i]));
                lemma_instantiated_closed(params[i], bindings);
            }
        },
        _ => {},
    }
}

} // verus!
