//! The type representation: universes, base types, references and spans bound
//! to regions, pointers, function pointers, named types and type variables.

use crate::common::{Identifier, QIdent, QIdentView};
use vstd::prelude::*;

verus! {

/// The four universes in which a type can live.
#[derive(Clone, Copy, Debug, PartialEq, Eq, Structural)]
pub enum Universe {
    FreeUniverse,
    LinearUniverse,
    TypeUniverse,
    RegionUniverse,
}

/// Whether an integer type has a sign.
#[derive(Clone, Copy, Debug, PartialEq, Eq, Structural)]
pub enum Signedness {
    Unsigned,
    Signed,
}

/// The width of an integer type: a number of bits, or that of sizes or of
/// indices.
#[derive(Clone, Copy, Debug, PartialEq, Eq, Structural)]
pub enum IntegerWidth {
    Width8,
    Width16,
    Width32,
    Width64,
    WidthByteSize,
    WidthIndex,
}

/// The compile-time name of a borrow's lifetime.
#[derive(Clone, Copy, Debug, PartialEq, Eq, Structural)]
pub struct Region {
    pub id: u64,
}

/// A type variable: its number, the universe it ranges over and the
/// typeclasses that constrain it.
#[derive(Debug)]
pub struct TypeVariable {
    pub id: u64,
    pub universe: Universe,
    pub constraints: Vec<Identifier>,
}

/// A type.
#[derive(Debug)]
pub enum Ty {
    Unit,
    Boolean,
    Integer(Signedness, IntegerWidth),
    SingleFloat,
    DoubleFloat,
    NamedType(QIdent, Vec<Ty>, Universe),
    RegionTy(Region),
    ReadRef(Box<Ty>, Box<Ty>),
    WriteRef(Box<Ty>, Box<Ty>),
    Span(Box<Ty>, Box<Ty>),
    SpanMut(Box<Ty>, Box<Ty>),
    TyVar(TypeVariable),
    Address(Box<Ty>),
    Pointer(Box<Ty>),
    FnPtr(Vec<Ty>, Box<Ty>),
}

/// A type as a mathematical value: names are sequences of characters and
/// argument lists are sequences of types.
pub enum TyView {
    Unit,
    Boolean,
    Integer(Signedness, IntegerWidth),
    SingleFloat,
    DoubleFloat,
    NamedType(QIdentView, Seq<TyView>, Universe),
    RegionTy(Region),
    ReadRef(Box<TyView>, Box<TyView>),
    WriteRef(Box<TyView>, Box<TyView>),
    Span(Box<TyView>, Box<TyView>),
    SpanMut(Box<TyView>, Box<TyView>),
    TyVar(u64, Universe, Seq<Seq<char>>),
    Address(Box<TyView>),
    Pointer(Box<TyView>),
    FnPtr(Seq<TyView>, Box<TyView>),
}

impl Ty {
    /// The mathematical value of a type.
    pub open spec fn model(self) -> TyView
        decreases self,
    {
        match self {
            Ty::Unit => TyView::Unit,
            Ty::Boolean => TyView::Boolean,
            Ty::Integer(s, w) => TyView::Integer(s, w),
            Ty::SingleFloat => TyView::SingleFloat,
            Ty::DoubleFloat => TyView::DoubleFloat,
            Ty::NamedType(name, args, u) => TyView::NamedType(
                name@,
                Seq::new(
                    args.len() as nat,
                    |i: int|
                        if 0 <= i < args.len() {
                            args[i].model()
                        } else {
                            TyView::Unit
                        },
                ),
                u,
            ),
            Ty::RegionTy(r) => TyView::RegionTy(r),
            Ty::ReadRef(t, r) => TyView::ReadRef(Box::new(t.model()), Box::new(r.model())),
            Ty::WriteRef(t, r) => TyView::WriteRef(Box::new(t.model()), Box::new(r.model())),
            Ty::Span(t, r) => TyView::Span(Box::new(t.model()), Box::new(r.model())),
            Ty::SpanMut(t, r) => TyView::SpanMut(Box::new(t.model()), Box::new(r.model())),
            Ty::TyVar(v) => TyView::TyVar(
                v.id,
                v.universe,
                Seq::new(v.constraints.len() as nat, |i: int| v.constraints[i]@),
            ),
            Ty::Address(t) => TyView::Address(Box::new(t.model())),
            Ty::Pointer(t) => TyView::Pointer(Box::new(t.model())),
            Ty::FnPtr(params, ret) => TyView::FnPtr(
                Seq::new(
                    params.len() as nat,
                    |i: int|
                        if 0 <= i < params.len() {
                            params[i].model()
                        } else {
                            TyView::Unit
                        },
                ),
                Box::new(ret.model()),
            ),
        }
    }

    /// Structural equality: the same constructor with equal arguments.
    pub fn equals(&self, other: &Ty) -> (r: bool)
        ensures
            r == (self@ == other@),
        decreases self,
    {
        match (self, other) {
            (Ty::Unit, Ty::Unit) => true,
            (Ty::Boolean, Ty::Boolean) => true,
            (Ty::Integer(s1, w1), Ty::Integer(s2, w2)) => *s1 == *s2 && *w1 == *w2,
            (Ty::SingleFloat, Ty::SingleFloat) => true,
            (Ty::DoubleFloat, Ty::DoubleFloat) => true,
            (Ty::NamedType(n1, a1, u1), Ty::NamedType(n2, a2, u2)) => {
                let same_args = Ty::all_equal(a1, a2);
                proof {
                    let s1 = self@->NamedType_1;
                    let s2 = other@->NamedType_1;
                    assert(same_args ==> s1 =~= s2);
                    if s1 == s2 {
                        assert(a1.len() == s1.len() && a2.len() == s2.len());
                        assert forall|i: int| 0 <= i < a1.len() implies a1[i]@ == a2[i]@ by {
                            assert(s1[i] == s2[i]);
                        }
                    }
                }
                n1.same(n2) && same_args && *u1 == *u2
            },
            (Ty::RegionTy(r1), Ty::RegionTy(r2)) => r1.id == r2.id,
            (Ty::ReadRef(t1, r1), Ty::ReadRef(t2, r2)) => t1.equals(t2) && r1.equals(r2),
            (Ty::WriteRef(t1, r1), Ty::WriteRef(t2, r2)) => t1.equals(t2) && r1.equals(r2),
            (Ty::Span(t1, r1), Ty::Span(t2, r2)) => t1.equals(t2) && r1.equals(r2),
            (Ty::SpanMut(t1, r1), Ty::SpanMut(t2, r2)) => t1.equals(t2) && r1.equals(r2),
            (Ty::TyVar(v1), Ty::TyVar(v2)) => {
                let same_constraints = same_names(&v1.constraints, &v2.constraints);
                proof {
                    let s1 = self@->TyVar_2;
                    let s2 = other@->TyVar_2;
                    assert(same_constraints ==> s1 =~= s2);
                    if s1 == s2 {
                        assert(v1.constraints.len() == s1.len() && v2.constraints.len()
                            == s2.len());
                        assert forall|i: int| 0 <= i < v1.constraints.len() implies v1.constraints[i]@
                            == v2.constraints[i]@ by {
                            assert(s1[i] == s2[i]);
                        }
                    }
                }
                v1.id == v2.id && v1.universe == v2.universe && same_constraints
            },
            (Ty::Address(t1), Ty::Address(t2)) => t1.equals(t2),
            (Ty::Pointer(t1), Ty::Pointer(t2)) => t1.equals(t2),
            (Ty::FnPtr(p1, r1), Ty::FnPtr(p2, r2)) => {
                let same_params = Ty::all_equal(p1, p2);
                proof {
                    let s1 = self@->FnPtr_0;
                    let s2 = other@->FnPtr_0;
                    assert(same_params ==> s1 =~= s2);
                    if s1 == s2 {
                        assert(p1.len() == s1.len() && p2.len() == s2.len());
                        assert forall|i: int| 0 <= i < p1.len() implies p1[i]@ == p2[i]@ by {
                            assert(s1[i] == s2[i]);
                        }
                    }
                }
                same_params && r1.equals(r2)
            },
            _ => false,
        }
    }

    /// Whether two lists of types have the same length and equal types at
    /// every index.
    fn all_equal(a: &Vec<Ty>, b: &Vec<Ty>) -> (r: bool)
        ensures
            r == (a.len() == b.len() && forall|i: int| 0 <= i < a.len() ==> a[i]@ == b[i]@),
        decreases a,
    {
        if a.len() != b.len() {
            return false;
        }
        let mut i: usize = 0;
        while i < a.len()
            invariant
                a.len() == b.len(),
                0 <= i <= a.len(),
                forall|j: int| 0 <= j < i ==> a[j]@ == b[j]@,
            decreases a.len() - i,
        {
            if !a[i].equals(&b[i]) {
                return false;
            }
            i = i + 1;
        }
        true
    }
}

impl View for Ty {
    type V = TyView;

    open spec fn view(&self) -> TyView {
        self.model()
    }
}

/// Whether two lists of identifiers spell the same names in the same order.
pub fn same_names(a: &Vec<Identifier>, b: &Vec<Identifier>) -> (r: bool)
    ensures
        r == (a.len() == b.len() && forall|i: int| 0 <= i < a.len() ==> a[i]@ == b[i]@),
{
    if a.len() != b.len() {
        return false;
    }
    let mut i: usize = 0;
    while i < a.len()
        invariant
            a.len() == b.len(),
            0 <= i <= a.len(),
            forall|j: int| 0 <= j < i ==> a[j]@ == b[j]@,
        decreases a.len() - i,
    {
        if !a[i].same(&b[i]) {
            return false;
        }
        i = i + 1;
    }
    true
}

impl Clone for TypeVariable {
    fn clone(&self) -> (r: Self)
        ensures
            r.id == self.id,
            r.universe == self.universe,
            r.constraints@.len() == self.constraints@.len(),
            forall|i: int| 0 <= i < r.constraints@.len() ==> r.constraints@[i]@ == self.constraints@[i]@,
    {
        let mut constraints: Vec<Identifier> = Vec::new();
        let mut i: usize = 0;
        while i < self.constraints.len()
            invariant
                0 <= i <= self.constraints.len(),
                constraints.len() == i,
                forall|j: int| 0 <= j < i ==> constraints@[j]@ == self.constraints@[j]@,
            decreases self.constraints.len() - i,
        {
            constraints.push(self.constraints[i].clone());
            i = i + 1;
        }
        TypeVariable { id: self.id, universe: self.universe, constraints }
    }
}

impl Clone for Ty {
    fn clone(&self) -> (r: Self)
        ensures
            r@ == self@,
        decreases self,
    {
        match self {
            Ty::Unit => Ty::Unit,
            Ty::Boolean => Ty::Boolean,
            Ty::Integer(s, w) => Ty::Integer(*s, *w),
            Ty::SingleFloat => Ty::SingleFloat,
            Ty::DoubleFloat => Ty::DoubleFloat,
            Ty::NamedType(name, args, u) => {
                let copy = Ty::clone_all(args);
                let r = Ty::NamedType(name.clone(), copy, *u);
                assert(r@->NamedType_1 =~= self@->NamedType_1);
                r
            },
            Ty::RegionTy(r) => Ty::RegionTy(*r),
            Ty::ReadRef(t, r) => Ty::ReadRef(Box::new((**t).clone()), Box::new((**r).clone())),
            Ty::WriteRef(t, r) => Ty::WriteRef(Box::new((**t).clone()), Box::new((**r).clone())),
            Ty::Span(t, r) => Ty::Span(Box::new((**t).clone()), Box::new((**r).clone())),
            Ty::SpanMut(t, r) => Ty::SpanMut(Box::new((**t).clone()), Box::new((**r).clone())),
            Ty::TyVar(v) => {
                let r = Ty::TyVar(v.clone());
                assert(r@->TyVar_2 =~= self@->TyVar_2);
                r
            },
            Ty::Address(t) => Ty::Address(Box::new((**t).clone())),
            Ty::Pointer(t) => Ty::Pointer(Box::new((**t).clone())),
            Ty::FnPtr(params, ret) => {
                let copy = Ty::clone_all(params);
                let r = Ty::FnPtr(copy, Box::new((**ret).clone()));
                assert(r@->FnPtr_0 =~= self@->FnPtr_0);
                r
            },
        }
    }
}

impl Ty {
    /// Copies of the types of a list, in order.
    fn clone_all(tys: &Vec<Ty>) -> (r: Vec<Ty>)
        ensures
            r.len() == tys.len(),
            forall|i: int| 0 <= i < r.len() ==> r[i]@ == tys[i]@,
        decreases tys,
    {
        let mut copy: Vec<Ty> = Vec::new();
        let mut i: usize = 0;
        while i < tys.len()
            invariant
                0 <= i <= tys.len(),
                copy.len() == i,
                forall|j: int| 0 <= j < i ==> copy[j]@ == tys[j]@,
            decreases tys.len() - i,
        {
            copy.push(tys[i].clone());
            i = i + 1;
        }
        copy
    }
}

impl DeepView for Ty {
    type V = TyView;

    open spec fn deep_view(&self) -> TyView {
        self.model()
    }
}

impl DeepView for Region {
    type V = Region;

    open spec fn deep_view(&self) -> Region {
        *self
    }
}

impl DeepView for Universe {
    type V = Universe;

    open spec fn deep_view(&self) -> Universe {
        *self
    }
}

impl DeepView for Signedness {
    type V = Signedness;

    open spec fn deep_view(&self) -> Signedness {
        *self
    }
}

impl DeepView for IntegerWidth {
    type V = IntegerWidth;

    open spec fn deep_view(&self) -> IntegerWidth {
        *self
    }
}

} // verus!
