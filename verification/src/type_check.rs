//! The typing rules: what type an expression has from the types of its
//! parts, and when a statement or a declaration is well typed.

use crate::common::{BorrowingMode, Identifier, Mutability};
use crate::span::Span;
use crate::stages::{TypedBinding, TypedBindingView, ValueParameter, ValueParameterView};
use crate::ty::{IntegerWidth, Region, Signedness, Ty, TyView, Universe};
use crate::type_system::{
    is_float, is_integer, is_numeric, numeric, regions_closed, type_universe, universe_below,
    universe_fits, universe_of,
};
use vstd::prelude::*;

verus! {

/// The ways in which a program can be ill typed.
#[derive(Clone, Copy, Debug, PartialEq, Eq, Structural)]
pub enum TypeErrorKind {
    UndefinedSymbol,
    ArityMismatch,
    TypeMismatch,
    UniverseMismatch,
    BadCast,
    MixedArgumentStyle,
    NonExhaustiveDestructure,
    OverlappingInstance,
    MissingInstance,
}

/// A type error: where it was found, what kind it is, and a detail such as
/// the name concerned.
#[derive(Debug)]
pub struct TypeError {
    pub span: Span,
    pub kind: TypeErrorKind,
    pub detail: String,
}

/// Whether an integer of the given signedness and width can hold `value`.
/// The widths of sizes and indices are taken as 64 bits.
pub open spec fn fits(value: u64, sign: Signedness, width: IntegerWidth) -> bool {
    match (sign, width) {
        (Signedness::Unsigned, IntegerWidth::Width8) => value <= 0xff,
        (Signedness::Unsigned, IntegerWidth::Width16) => value <= 0xffff,
        (Signedness::Unsigned, IntegerWidth::Width32) => value <= 0xffff_ffff,
        (Signedness::Unsigned, _) => true,
        (Signedness::Signed, IntegerWidth::Width8) => value <= 0x7f,
        (Signedness::Signed, IntegerWidth::Width16) => value <= 0x7fff,
        (Signedness::Signed, IntegerWidth::Width32) => value <= 0x7fff_ffff,
        (Signedness::Signed, _) => value <= 0x7fff_ffff_ffff_ffff,
    }
}

/// The type of integer literals by themselves: a signed integer of 32 bits.
pub open spec fn int32() -> TyView {
    TyView::Integer(Signedness::Signed, IntegerWidth::Width32)
}

/// The type of characters: an unsigned integer of eight bits.
pub open spec fn char_ty() -> TyView {
    TyView::Integer(Signedness::Unsigned, IntegerWidth::Width8)
}

/// The type of sizes.
pub open spec fn size_ty() -> TyView {
    TyView::Integer(Signedness::Unsigned, IntegerWidth::WidthByteSize)
}

/// The region of what lives as long as the program does.
pub open spec fn static_region() -> Region {
    Region { id: 0 }
}

/// The type of string literals: a span of bytes in the static region.
pub open spec fn string_ty() -> TyView {
    TyView::Span(Box::new(char_ty()), Box::new(TyView::RegionTy(static_region())))
}

/// The type of an integer literal. It takes the type that its place asks
/// for if that is an integer type that can hold its value, or a float type;
/// otherwise it is a signed integer of 32 bits.
pub open spec fn integer_literal_ty(value: u64, expected: Option<TyView>) -> TyView {
    match expected {
        Some(TyView::Integer(sign, width)) => if fits(value, sign, width) {
            TyView::Integer(sign, width)
        } else {
            int32()
        },
        Some(TyView::SingleFloat) => TyView::SingleFloat,
        Some(TyView::DoubleFloat) => TyView::DoubleFloat,
        _ => int32(),
    }
}

/// The type of a float literal: the single float if its place asks for
/// that, otherwise the double float.
pub open spec fn float_literal_ty(expected: Option<TyView>) -> TyView {
    match expected {
        Some(TyView::SingleFloat) => TyView::SingleFloat,
        _ => TyView::DoubleFloat,
    }
}

/// The type of `a + b`, `a - b`, `a * b` and `a / b`: both operands are of
/// one numeric type, which is the type of the result.
pub open spec fn arithmetic_ty(a: TyView, b: TyView) -> Result<TyView, TypeErrorKind> {
    if numeric(a) && a == b {
        Ok(a)
    } else {
        Err(TypeErrorKind::TypeMismatch)
    }
}

/// The type of a comparison: both operands are of one numeric type (a
/// character is a number); the result is a boolean.
pub open spec fn comparison_ty(a: TyView, b: TyView) -> Result<TyView, TypeErrorKind> {
    if numeric(a) && a == b {
        Ok(TyView::Boolean)
    } else {
        Err(TypeErrorKind::TypeMismatch)
    }
}

/// The type of `a and b` and `a or b`: booleans give a boolean.
pub open spec fn logic_ty(a: TyView, b: TyView) -> Result<TyView, TypeErrorKind> {
    if a is Boolean && b is Boolean {
        Ok(TyView::Boolean)
    } else {
        Err(TypeErrorKind::TypeMismatch)
    }
}

/// The type of `not a`: a boolean gives a boolean.
pub open spec fn negation_ty(a: TyView) -> Result<TyView, TypeErrorKind> {
    if a is Boolean {
        Ok(TyView::Boolean)
    } else {
        Err(TypeErrorKind::TypeMismatch)
    }
}

/// The type of `-a`: a number gives a number of its type.
pub open spec fn minus_ty(a: TyView) -> Result<TyView, TypeErrorKind> {
    if numeric(a) {
        Ok(a)
    } else {
        Err(TypeErrorKind::TypeMismatch)
    }
}

/// The type of `if c then a else b`: the condition is a boolean and the
/// branches are of one type, which is the type of the result.
pub open spec fn conditional_ty(c: TyView, a: TyView, b: TyView) -> Result<TyView, TypeErrorKind> {
    if c is Boolean && a == b {
        Ok(a)
    } else {
        Err(TypeErrorKind::TypeMismatch)
    }
}

/// Whether a value of type `from` can be cast to `to`: a number to any
/// numeric type, and an address to the pointer to the same type.
pub open spec fn castable(from: TyView, to: TyView) -> bool {
    (numeric(from) && numeric(to)) || (from matches TyView::Address(a) && to matches TyView::Pointer(
        p,
    ) && a == p)
}

/// The type of `e : T`: `T`, if the type of `e` can be cast to it.
pub open spec fn cast_ty(from: TyView, to: TyView) -> Result<TyView, TypeErrorKind> {
    if castable(from, to) {
        Ok(to)
    } else {
        Err(TypeErrorKind::BadCast)
    }
}

/// The type of `&x` and `&!x` inside a borrow of the region `region`: a
/// read or a write reference to the type of `x` in that region.
pub open spec fn borrow_ty(mode: BorrowingMode, referent: TyView, region: Region) -> TyView {
    match mode {
        BorrowingMode::ReadBorrow => TyView::ReadRef(
            Box::new(referent),
            Box::new(TyView::RegionTy(region)),
        ),
        BorrowingMode::WriteBorrow => TyView::WriteRef(
            Box::new(referent),
            Box::new(TyView::RegionTy(region)),
        ),
    }
}

/// The type of `!e`: what a reference, an address or a pointer refers to.
pub open spec fn deref_ty(a: TyView) -> Result<TyView, TypeErrorKind> {
    match a {
        TyView::ReadRef(t, _) => Ok(*t),
        TyView::WriteRef(t, _) => Ok(*t),
        TyView::Pointer(t) => Ok(*t),
        TyView::Address(t) => Ok(*t),
        _ => Err(TypeErrorKind::TypeMismatch),
    }
}

/// The type of `a[i]`: the elements of a span or of what a pointer points
/// to, if the index is an integer.
pub open spec fn index_ty(a: TyView, i: TyView) -> Result<TyView, TypeErrorKind> {
    if !(i is Integer) {
        Err(TypeErrorKind::TypeMismatch)
    } else {
        match a {
            TyView::Span(t, _) => Ok(*t),
            TyView::SpanMut(t, _) => Ok(*t),
            TyView::Pointer(t) => Ok(*t),
            _ => Err(TypeErrorKind::TypeMismatch),
        }
    }
}

/// Computes `fits`.
pub fn integer_fits(value: u64, sign: Signedness, width: IntegerWidth) -> (r: bool)
    ensures
        r == fits(value, sign, width),
{
    match (sign, width) {
        (Signedness::Unsigned, IntegerWidth::Width8) => value <= 0xff,
        (Signedness::Unsigned, IntegerWidth::Width16) => value <= 0xffff,
        (Signedness::Unsigned, IntegerWidth::Width32) => value <= 0xffff_ffff,
        (Signedness::Unsigned, _) => true,
        (Signedness::Signed, IntegerWidth::Width8) => value <= 0x7f,
        (Signedness::Signed, IntegerWidth::Width16) => value <= 0x7fff,
        (Signedness::Signed, IntegerWidth::Width32) => value <= 0x7fff_ffff,
        (Signedness::Signed, _) => value <= 0x7fff_ffff_ffff_ffff,
    }
}

/// The type that a place asks for, as a plain value.
pub open spec fn asked(expected: Option<&Ty>) -> Option<TyView> {
    match expected {
        Some(t) => Some(t@),
        None => None,
    }
}

/// Computes `integer_literal_ty`.
pub fn integer_literal_type(value: u64, expected: Option<&Ty>) -> (r: Ty)
    ensures
        r@ == integer_literal_ty(value, asked(expected)),
{
    match expected {
        Some(Ty::Integer(sign, width)) => {
            if integer_fits(value, *sign, *width) {
                Ty::Integer(*sign, *width)
            } else {
                Ty::Integer(Signedness::Signed, IntegerWidth::Width32)
            }
        },
        Some(Ty::SingleFloat) => Ty::SingleFloat,
        Some(Ty::DoubleFloat) => Ty::DoubleFloat,
        _ => Ty::Integer(Signedness::Signed, IntegerWidth::Width32),
    }
}

/// Computes `float_literal_ty`.
pub fn float_literal_type(expected: Option<&Ty>) -> (r: Ty)
    ensures
        r@ == float_literal_ty(asked(expected)),
{
    match expected {
        Some(Ty::SingleFloat) => Ty::SingleFloat,
        _ => Ty::DoubleFloat,
    }
}

/// Computes `char_ty`.
pub fn char_type() -> (r: Ty)
    ensures
        r@ == char_ty(),
{
    Ty::Integer(Signedness::Unsigned, IntegerWidth::Width8)
}

/// Computes `size_ty`.
pub fn size_type() -> (r: Ty)
    ensures
        r@ == size_ty(),
{
    Ty::Integer(Signedness::Unsigned, IntegerWidth::WidthByteSize)
}

/// Computes `string_ty`.
pub fn string_type() -> (r: Ty)
    ensures
        r@ == string_ty(),
{
    proof {
        reveal_with_fuel(Ty::model, 2);
    }
    Ty::Span(
        Box::new(Ty::Integer(Signedness::Unsigned, IntegerWidth::Width8)),
        Box::new(Ty::RegionTy(Region { id: 0 })),
    )
}

/// Computes `arithmetic_ty`.
pub fn arithmetic_type(a: &Ty, b: &Ty) -> (r: Result<Ty, TypeErrorKind>)
    ensures
        match arithmetic_ty(a@, b@) {
            Ok(t) => r is Ok && r->Ok_0@ == t,
            Err(k) => r == Err::<Ty, TypeErrorKind>(k),
        },
{
    if is_numeric(a) && a.equals(b) {
        Ok(a.clone())
    } else {
        Err(TypeErrorKind::TypeMismatch)
    }
}

/// Computes `comparison_ty`.
pub fn comparison_type(a: &Ty, b: &Ty) -> (r: Result<Ty, TypeErrorKind>)
    ensures
        match comparison_ty(a@, b@) {
            Ok(t) => r is Ok && r->Ok_0@ == t,
            Err(k) => r == Err::<Ty, TypeErrorKind>(k),
        },
{
    if is_numeric(a) && a.equals(b) {
        Ok(Ty::Boolean)
    } else {
        Err(TypeErrorKind::TypeMismatch)
    }
}

fn is_boolean(a: &Ty) -> (r: bool)
    ensures
        r == (a@ is Boolean),
{
    match a {
        Ty::Boolean => true,
        _ => false,
    }
}

/// Computes `logic_ty`.
pub fn logic_type(a: &Ty, b: &Ty) -> (r: Result<Ty, TypeErrorKind>)
    ensures
        match logic_ty(a@, b@) {
            Ok(t) => r is Ok && r->Ok_0@ == t,
            Err(k) => r == Err::<Ty, TypeErrorKind>(k),
        },
{
    if is_boolean(a) && is_boolean(b) {
        Ok(Ty::Boolean)
    } else {
        Err(TypeErrorKind::TypeMismatch)
    }
}

/// Computes `negation_ty`.
pub fn negation_type(a: &Ty) -> (r: Result<Ty, TypeErrorKind>)
    ensures
        match negation_ty(a@) {
            Ok(t) => r is Ok && r->Ok_0@ == t,
            Err(k) => r == Err::<Ty, TypeErrorKind>(k),
        },
{
    if is_boolean(a) {
        Ok(Ty::Boolean)
    } else {
        Err(TypeErrorKind::TypeMismatch)
    }
}

/// Computes `minus_ty`.
pub fn minus_type(a: &Ty) -> (r: Result<Ty, TypeErrorKind>)
    ensures
        match minus_ty(a@) {
            Ok(t) => r is Ok && r->Ok_0@ == t,
            Err(k) => r == Err::<Ty, TypeErrorKind>(k),
        },
{
    if is_numeric(a) {
        Ok(a.clone())
    } else {
        Err(TypeErrorKind::TypeMismatch)
    }
}

/// Computes `conditional_ty`.
pub fn conditional_type(c: &Ty, a: &Ty, b: &Ty) -> (r: Result<Ty, TypeErrorKind>)
    ensures
        match conditional_ty(c@, a@, b@) {
            Ok(t) => r is Ok && r->Ok_0@ == t,
            Err(k) => r == Err::<Ty, TypeErrorKind>(k),
        },
{
    if is_boolean(c) && a.equals(b) {
        Ok(a.clone())
    } else {
        Err(TypeErrorKind::TypeMismatch)
    }
}

/// Computes `castable`.
pub fn can_cast(from: &Ty, to: &Ty) -> (r: bool)
    ensures
        r == castable(from@, to@),
{
    if is_numeric(from) && is_numeric(to) {
        return true;
    }
    match (from, to) {
        (Ty::Address(a), Ty::Pointer(p)) => a.equals(p),
        _ => false,
    }
}

/// Computes `cast_ty`.
pub fn cast_type(from: &Ty, to: &Ty) -> (r: Result<Ty, TypeErrorKind>)
    ensures
        match cast_ty(from@, to@) {
            Ok(t) => r is Ok && r->Ok_0@ == t,
            Err(k) => r == Err::<Ty, TypeErrorKind>(k),
        },
{
    if can_cast(from, to) {
        Ok(to.clone())
    } else {
        Err(TypeErrorKind::BadCast)
    }
}

/// Computes `borrow_ty`.
pub fn borrow_type(mode: BorrowingMode, referent: &Ty, region: Region) -> (r: Ty)
    ensures
        r@ == borrow_ty(mode, referent@, region),
{
    proof {
        reveal_with_fuel(Ty::model, 2);
    }
    match mode {
        BorrowingMode::ReadBorrow => Ty::ReadRef(
            Box::new(referent.clone()),
            Box::new(Ty::RegionTy(region)),
        ),
        BorrowingMode::WriteBorrow => Ty::WriteRef(
            Box::new(referent.clone()),
            Box::new(Ty::RegionTy(region)),
        ),
    }
}

/// Computes `deref_ty`.
pub fn deref_type(a: &Ty) -> (r: Result<Ty, TypeErrorKind>)
    ensures
        match deref_ty(a@) {
            Ok(t) => r is Ok && r->Ok_0@ == t,
            Err(k) => r == Err::<Ty, TypeErrorKind>(k),
        },
{
    match a {
        Ty::ReadRef(t, _) => Ok((**t).clone()),
        Ty::WriteRef(t, _) => Ok((**t).clone()),
        Ty::Pointer(t) => Ok((**t).clone()),
        Ty::Address(t) => Ok((**t).clone()),
        _ => Err(TypeErrorKind::TypeMismatch),
    }
}

/// Computes `index_ty`.
pub fn index_type(a: &Ty, i: &Ty) -> (r: Result<Ty, TypeErrorKind>)
    ensures
        match index_ty(a@, i@) {
            Ok(t) => r is Ok && r->Ok_0@ == t,
            Err(k) => r == Err::<Ty, TypeErrorKind>(k),
        },
{
    if !is_integer(i) {
        return Err(TypeErrorKind::TypeMismatch);
    }
    match a {
        Ty::Span(t, _) => Ok((**t).clone()),
        Ty::SpanMut(t, _) => Ok((**t).clone()),
        Ty::Pointer(t) => Ok((**t).clone()),
        _ => Err(TypeErrorKind::TypeMismatch),
    }
}

/// How the arguments of a call are given.
#[derive(Clone, Copy, Debug, PartialEq, Eq, Structural)]
pub enum ArgumentStyle {
    Empty,
    Positional,
    Named,
}

/// The style of a list of arguments of which each has a name or has none:
/// no argument is the empty style; if one argument has a name all must
/// have, and if one has none, none may have.
pub open spec fn style_of(names: Vec<Option<Identifier>>) -> Result<ArgumentStyle, TypeErrorKind> {
    if names.len() == 0 {
        Ok(ArgumentStyle::Empty)
    } else if forall|i: int| 0 <= i < names.len() ==> names[i] is None {
        Ok(ArgumentStyle::Positional)
    } else if forall|i: int| 0 <= i < names.len() ==> names[i] is Some {
        Ok(ArgumentStyle::Named)
    } else {
        Err(TypeErrorKind::MixedArgumentStyle)
    }
}

/// Computes `style_of`.
pub fn argument_style(names: &Vec<Option<Identifier>>) -> (r: Result<ArgumentStyle, TypeErrorKind>)
    ensures
        r == style_of(*names),
{
    if names.len() == 0 {
        return Ok(ArgumentStyle::Empty);
    }
    let mut named: usize = 0;
    let mut i: usize = 0;
    while i < names.len()
        invariant
            0 <= i <= names.len(),
            named <= i,
            named == i <==> forall|j: int| 0 <= j < i ==> names[j] is Some,
            named == 0 <==> forall|j: int| 0 <= j < i ==> names[j] is None,
        decreases names.len() - i,
    {
        if names[i].is_some() {
            named = named + 1;
        }
        i = i + 1;
    }
    if named == 0 {
        Ok(ArgumentStyle::Positional)
    } else if named == names.len() {
        Ok(ArgumentStyle::Named)
    } else {
        Err(TypeErrorKind::MixedArgumentStyle)
    }
}

/// The types of the arguments of a call.
#[derive(Debug)]
pub enum TypedArguments {
    Empty,
    Positional(Vec<Ty>),
    Named(Vec<ValueParameter>),
}

/// The index of the first of the given names and types that goes by `name`.
pub open spec fn position_of(named: Seq<ValueParameterView>, name: Seq<char>, from: int) -> Option<
    int,
>
    decreases named.len() - from,
{
    if from < 0 || from >= named.len() {
        None
    } else if named[from].name == name {
        Some(from)
    } else {
        position_of(named, name, from + 1)
    }
}

/// The position that a name is found at holds the name, and no earlier position
/// from the start does.
pub proof fn lemma_position_of(named: Seq<ValueParameterView>, name: Seq<char>, from: int)
    requires
        0 <= from,
    ensures
        match position_of(named, name, from) {
            Some(i) => from <= i < named.len() && named[i].name == name && forall|j: int|
                from <= j < i ==> named[j].name != name,
            None => forall|j: int| from <= j < named.len() ==> named[j].name != name,
        },
    decreases named.len() - from,
{
    if from < named.len() && named[from].name != name {
        lemma_position_of(named, name, from + 1);
    }
}

/// Finds the first of the given names and types that goes by `name`.
pub fn find_named(named: &Vec<ValueParameter>, name: &Identifier) -> (r: Option<usize>)
    ensures
        match position_of(named.deep_view(), name@, 0) {
            Some(i) => r == Some(i as usize) && 0 <= i < named.len(),
            None => r is None,
        },
{
    let mut i: usize = 0;
    while i < named.len()
        invariant
            0 <= i <= named.len(),
            position_of(named.deep_view(), name@, 0) == position_of(
                named.deep_view(),
                name@,
                i as int,
            ),
        decreases named.len() - i,
    {
        assert(named.deep_view()[i as int] == named[i as int].deep_view());
        if named[i].name.same(name) {
            return Some(i);
        }
        i = i + 1;
    }
    None
}

/// Which argument fills the parameter at index `k`: the argument at `k`
/// where arguments are positional, the argument of the parameter's name
/// where they are named.
pub open spec fn filler(params: Vec<ValueParameter>, args: TypedArguments, k: int) -> Option<int> {
    match args {
        TypedArguments::Empty => None,
        TypedArguments::Positional(types) => if 0 <= k < types.len() {
            Some(k)
        } else {
            None
        },
        TypedArguments::Named(named) => position_of(named.deep_view(), params[k].name@, 0),
    }
}

/// The type of the argument at an index.
pub open spec fn argument_ty(args: TypedArguments, i: int) -> TyView {
    match args {
        TypedArguments::Empty => TyView::Unit,
        TypedArguments::Positional(types) => types[i]@,
        TypedArguments::Named(named) => named[i].ty@,
    }
}

/// The number of arguments of a call.
pub open spec fn argument_count(args: TypedArguments) -> nat {
    match args {
        TypedArguments::Empty => 0,
        TypedArguments::Positional(types) => types.len() as nat,
        TypedArguments::Named(named) => named.len() as nat,
    }
}

/// Whether the argument that fills the parameter at `k` is of the
/// parameter's type.
pub open spec fn argument_matches(
    params: Vec<ValueParameter>,
    args: TypedArguments,
    k: int,
) -> bool {
    filler(params, args, k) matches Some(i) && argument_ty(args, i) == params[k].ty@
}

/// Whether the arguments of a call fit the parameters of what is called.
/// There must be as many arguments as parameters and an argument for every
/// parameter, which for named arguments means that the names of the
/// arguments are exactly those of the parameters; and each argument must be
/// of the type of its parameter.
pub open spec fn arguments_fit(params: Vec<ValueParameter>, args: TypedArguments) -> Result<
    (),
    TypeErrorKind,
> {
    if argument_count(args) != params.len() {
        Err(TypeErrorKind::ArityMismatch)
    } else if !(forall|k: int|
        0 <= k < params.len() ==> (#[trigger] filler(params, args, k)) is Some) {
        Err(TypeErrorKind::ArityMismatch)
    } else if !(forall|k: int| 0 <= k < params.len() ==> #[trigger] argument_matches(params, args, k)) {
        Err(TypeErrorKind::TypeMismatch)
    } else {
        Ok(())
    }
}

/// Checks the arguments of a call against the parameters, and says for each
/// parameter which argument fills it.
pub fn check_arguments(params: &Vec<ValueParameter>, args: &TypedArguments) -> (r: Result<
    Vec<usize>,
    TypeErrorKind,
>)
    ensures
        match arguments_fit(*params, *args) {
            Ok(_) => r is Ok && r->Ok_0.len() == params.len() && forall|k: int|
                0 <= k < params.len() ==> #[trigger] filler(*params, *args, k) == Some(
                    r->Ok_0[k] as int,
                ),
            Err(kind) => r == Err::<Vec<usize>, TypeErrorKind>(kind),
        },
{
    let count = match args {
        TypedArguments::Empty => 0,
        TypedArguments::Positional(types) => types.len(),
        TypedArguments::Named(named) => named.len(),
    };
    if count != params.len() {
        return Err(TypeErrorKind::ArityMismatch);
    }
    let mut order: Vec<usize> = Vec::new();
    let mut k: usize = 0;
    while k < params.len()
        invariant
            0 <= k <= params.len(),
            argument_count(*args) == params.len(),
            order.len() == k,
            forall|j: int|
                0 <= j < k ==> #[trigger] filler(*params, *args, j) == Some(order[j] as int),
            forall|j: int| 0 <= j < k ==> (#[trigger] order[j]) < argument_count(*args),
        decreases params.len() - k,
    {
        let found = match args {
            TypedArguments::Empty => None,
            TypedArguments::Positional(_) => Some(k),
            TypedArguments::Named(named) => find_named(named, &params[k].name),
        };
        match found {
            Some(i) => {
                order.push(i);
            },
            None => {
                assert(filler(*params, *args, k as int) is None);
                return Err(TypeErrorKind::ArityMismatch);
            },
        }
        k = k + 1;
    }
    let mut k: usize = 0;
    while k < params.len()
        invariant
            0 <= k <= params.len(),
            argument_count(*args) == params.len(),
            order.len() == params.len(),
            forall|j: int|
                0 <= j < params.len() ==> #[trigger] filler(*params, *args, j) == Some(
                    order[j] as int,
                ),
            forall|j: int| 0 <= j < params.len() ==> (#[trigger] order[j]) < argument_count(*args),
            forall|j: int| 0 <= j < k ==> #[trigger] argument_matches(*params, *args, j),
        decreases params.len() - k,
    {
        let i = order[k];
        assert(filler(*params, *args, k as int) == Some(order[k as int] as int));
        let same = match args {
            TypedArguments::Empty => true,
            TypedArguments::Positional(types) => types[i].equals(&params[k].ty),
            TypedArguments::Named(named) => named[i].ty.equals(&params[k].ty),
        };
        if !same {
            assert(!argument_matches(*params, *args, k as int));
            return Err(TypeErrorKind::TypeMismatch);
        }
        k = k + 1;
    }
    Ok(order)
}

/// The type of the slot `name` of a record with the given slots.
pub open spec fn slot_ty(slots: Seq<ValueParameterView>, name: Seq<char>) -> Result<
    TyView,
    TypeErrorKind,
> {
    match position_of(slots, name, 0) {
        Some(i) => Ok(slots[i].ty),
        None => Err(TypeErrorKind::UndefinedSymbol),
    }
}

/// Computes `slot_ty`.
pub fn slot_type(slots: &Vec<ValueParameter>, name: &Identifier) -> (r: Result<Ty, TypeErrorKind>)
    ensures
        match slot_ty(slots.deep_view(), name@) {
            Ok(t) => r is Ok && r->Ok_0@ == t,
            Err(k) => r == Err::<Ty, TypeErrorKind>(k),
        },
{
    match find_named(slots, name) {
        Some(i) => {
            assert(slots.deep_view()[i as int] == slots[i as int].deep_view());
            Ok(slots[i].ty.clone())
        },
        None => Err(TypeErrorKind::UndefinedSymbol),
    }
}

/// The index of the first of the bindings that binds the slot `name`.
pub open spec fn binding_of(bindings: Seq<TypedBindingView>, name: Seq<char>, from: int) -> Option<
    int,
>
    decreases bindings.len() - from,
{
    if from < 0 || from >= bindings.len() {
        None
    } else if bindings[from].name == name {
        Some(from)
    } else {
        binding_of(bindings, name, from + 1)
    }
}

/// Whether the binding at `i` names a slot of the record.
pub open spec fn names_slot(
    slots: Seq<ValueParameterView>,
    bindings: Seq<TypedBindingView>,
    i: int,
) -> bool {
    position_of(slots, bindings[i].name, 0) is Some
}

/// Whether the binding at `i` asks for the type of the slot it names.
pub open spec fn asks_slot_type(
    slots: Seq<ValueParameterView>,
    bindings: Seq<TypedBindingView>,
    i: int,
) -> bool {
    position_of(slots, bindings[i].name, 0) matches Some(k) && slots[k].ty == bindings[i].ty
}

/// Whether some binding binds the slot at `k`.
pub open spec fn is_bound(
    slots: Seq<ValueParameterView>,
    bindings: Seq<TypedBindingView>,
    k: int,
) -> bool {
    binding_of(bindings, slots[k].name, 0) is Some
}

/// Whether a destructuring fits a record: every binding names a slot of the
/// record and asks for the slot's type, and every slot is bound.
pub open spec fn destructure_fits(
    slots: Seq<ValueParameterView>,
    bindings: Seq<TypedBindingView>,
) -> Result<
    (),
    TypeErrorKind,
> {
    if !(forall|i: int| 0 <= i < bindings.len() ==> #[trigger] names_slot(slots, bindings, i)) {
        Err(TypeErrorKind::UndefinedSymbol)
    } else if !(forall|i: int| 0 <= i < bindings.len() ==> #[trigger] asks_slot_type(slots, bindings, i)) {
        Err(TypeErrorKind::TypeMismatch)
    } else if !(forall|k: int| 0 <= k < slots.len() ==> #[trigger] is_bound(slots, bindings, k)) {
        Err(TypeErrorKind::NonExhaustiveDestructure)
    } else {
        Ok(())
    }
}

fn binds_slot(bindings: &Vec<TypedBinding>, name: &Identifier) -> (r: bool)
    ensures
        r == binding_of(bindings.deep_view(), name@, 0) is Some,
{
    let mut i: usize = 0;
    while i < bindings.len()
        invariant
            0 <= i <= bindings.len(),
            binding_of(bindings.deep_view(), name@, 0) == binding_of(
                bindings.deep_view(),
                name@,
                i as int,
            ),
        decreases bindings.len() - i,
    {
        assert(bindings.deep_view()[i as int] == bindings[i as int].deep_view());
        if bindings[i].name.same(name) {
            return true;
        }
        i = i + 1;
    }
    false
}

/// Computes `destructure_fits`.
pub fn check_destructure(slots: &Vec<ValueParameter>, bindings: &Vec<TypedBinding>) -> (r: Result<
    (),
    TypeErrorKind,
>)
    ensures
        r == destructure_fits(slots.deep_view(), bindings.deep_view()),
{
    let ghost sv = slots.deep_view();
    let ghost bv = bindings.deep_view();
    let mut i: usize = 0;
    while i < bindings.len()
        invariant
            0 <= i <= bindings.len(),
            sv == slots.deep_view(),
            bv == bindings.deep_view(),
            forall|j: int| 0 <= j < i ==> #[trigger] names_slot(sv, bv, j),
        decreases bindings.len() - i,
    {
        assert(bv[i as int] == bindings[i as int].deep_view());
        if find_named(slots, &bindings[i].name).is_none() {
            assert(!names_slot(sv, bv, i as int));
            return Err(TypeErrorKind::UndefinedSymbol);
        }
        i = i + 1;
    }
    let mut i: usize = 0;
    while i < bindings.len()
        invariant
            0 <= i <= bindings.len(),
            sv == slots.deep_view(),
            bv == bindings.deep_view(),
            forall|j: int| 0 <= j < bindings.len() ==> #[trigger] names_slot(sv, bv, j),
            forall|j: int| 0 <= j < i ==> #[trigger] asks_slot_type(sv, bv, j),
        decreases bindings.len() - i,
    {
        assert(names_slot(sv, bv, i as int));
        assert(bv[i as int] == bindings[i as int].deep_view());
        match find_named(slots, &bindings[i].name) {
            Some(k) => {
                assert(sv[k as int] == slots[k as int].deep_view());
                if !slots[k].ty.equals(&bindings[i].ty) {
                    assert(!asks_slot_type(sv, bv, i as int));
                    return Err(TypeErrorKind::TypeMismatch);
                }
            },
            None => {},
        }
        i = i + 1;
    }
    let mut k: usize = 0;
    while k < slots.len()
        invariant
            0 <= k <= slots.len(),
            sv == slots.deep_view(),
            bv == bindings.deep_view(),
            forall|j: int| 0 <= j < bindings.len() ==> #[trigger] names_slot(sv, bv, j),
            forall|j: int| 0 <= j < bindings.len() ==> #[trigger] asks_slot_type(sv, bv, j),
            forall|j: int| 0 <= j < k ==> #[trigger] is_bound(sv, bv, j),
        decreases slots.len() - k,
    {
        assert(sv[k as int] == slots[k as int].deep_view());
        if !binds_slot(bindings, &slots[k].name) {
            assert(!is_bound(sv, bv, k as int));
            return Err(TypeErrorKind::NonExhaustiveDestructure);
        }
        k = k + 1;
    }
    Ok(())
}

/// Whether the slots of a declaration fit its universe: the universe of
/// each slot's type is below the declared one.
pub open spec fn slots_fit_universe(declared: Universe, slots: Seq<ValueParameterView>) -> Result<
    (),
    TypeErrorKind,
> {
    if forall|i: int|
        0 <= i < slots.len() ==> universe_below(universe_of((#[trigger] slots[i]).ty), declared) {
        Ok(())
    } else {
        Err(TypeErrorKind::UniverseMismatch)
    }
}

/// Computes `slots_fit_universe`.
pub fn check_slot_universes(declared: Universe, slots: &Vec<ValueParameter>) -> (r: Result<
    (),
    TypeErrorKind,
>)
    ensures
        r == slots_fit_universe(declared, slots.deep_view()),
{
    let ghost sv = slots.deep_view();
    let mut i: usize = 0;
    while i < slots.len()
        invariant
            0 <= i <= slots.len(),
            sv == slots.deep_view(),
            forall|j: int| 0 <= j < i ==> universe_below(
                universe_of((#[trigger] sv[j]).ty),
                declared,
            ),
        decreases slots.len() - i,
    {
        assert(sv[i as int] == slots[i as int].deep_view());
        if !universe_fits(type_universe(&slots[i].ty), declared) {
            return Err(TypeErrorKind::UniverseMismatch);
        }
        i = i + 1;
    }
    Ok(())
}

/// How many of the first `n` instances are instances for the type `ty`.
pub open spec fn matching_instances(instances: Vec<Ty>, ty: TyView, n: nat) -> nat
    decreases n,
{
    if n == 0 || n > instances.len() {
        0
    } else {
        matching_instances(instances, ty, (n - 1) as nat) + (if instances[n - 1]@ == ty {
            1nat
        } else {
            0nat
        })
    }
}

/// The instance of a typeclass for a type: the one instance among those in
/// scope that is for the type. None is a missing instance and more than one
/// an overlap.
pub open spec fn instance_for(instances: Vec<Ty>, ty: TyView) -> Result<int, TypeErrorKind> {
    let n = matching_instances(instances, ty, instances.len() as nat);
    if n == 0 {
        Err(TypeErrorKind::MissingInstance)
    } else if n > 1 {
        Err(TypeErrorKind::OverlappingInstance)
    } else {
        Ok(choose|i: int| 0 <= i < instances.len() && instances[i]@ == ty)
    }
}

/// With one matching instance, the instance chosen is that one.
pub proof fn lemma_one_instance(instances: Vec<Ty>, ty: TyView, n: nat, i: int)
    requires
        n <= instances.len(),
        matching_instances(instances, ty, n) == 1,
        0 <= i < n,
        instances[i]@ == ty,
    ensures
        forall|j: int| 0 <= j < n && instances[j]@ == ty ==> j == i,
    decreases n,
{
    if n > 0 {
        if instances[n - 1]@ == ty {
            lemma_no_instance(instances, ty, (n - 1) as nat);
        } else {
            lemma_one_instance(instances, ty, (n - 1) as nat, i);
        }
    }
}

/// Where none of the first `n` instances is of a type, none of them matches it.
pub proof fn lemma_no_instance(instances: Vec<Ty>, ty: TyView, n: nat)
    requires
        n <= instances.len(),
        matching_instances(instances, ty, n) == 0,
    ensures
        forall|j: int| 0 <= j < n ==> instances[j]@ != ty,
    decreases n,
{
    if n > 0 {
        lemma_no_instance(instances, ty, (n - 1) as nat);
    }
}

/// Computes `instance_for`.
pub fn select_instance(instances: &Vec<Ty>, ty: &Ty) -> (r: Result<usize, TypeErrorKind>)
    ensures
        match instance_for(*instances, ty@) {
            Ok(i) => r == Ok::<usize, TypeErrorKind>(i as usize) && 0 <= i < instances.len(),
            Err(k) => r == Err::<usize, TypeErrorKind>(k),
        },
{
    let mut found: Option<usize> = None;
    let mut i: usize = 0;
    while i < instances.len()
        invariant
            0 <= i <= instances.len(),
            found is None <==> matching_instances(*instances, ty@, i as nat) == 0,
            found is Some ==> matching_instances(*instances, ty@, i as nat) == 1 && found->0 < i
                && instances[found->0 as int]@ == ty@,
        decreases instances.len() - i,
    {
        if instances[i].equals(ty) {
            if found.is_some() {
                proof {
                    assert(matching_instances(*instances, ty@, (i + 1) as nat) == 2);
                    lemma_instances_grow(*instances, ty@, (i + 1) as nat, instances.len() as nat);
                }
                return Err(TypeErrorKind::OverlappingInstance);
            }
            found = Some(i);
        }
        i = i + 1;
    }
    match found {
        Some(k) => {
            proof {
                lemma_one_instance(*instances, ty@, instances.len() as nat, k as int);
            }
            Ok(k)
        },
        None => Err(TypeErrorKind::MissingInstance),
    }
}

/// The instances that match among the first `n` are among those that match
/// among the first `m`, if `n` is at most `m`.
pub proof fn lemma_instances_grow(instances: Vec<Ty>, ty: TyView, n: nat, m: nat)
    requires
        n <= m <= instances.len(),
    ensures
        matching_instances(instances, ty, n) <= matching_instances(instances, ty, m),
    decreases m - n,
{
    if n < m {
        lemma_instances_grow(instances, ty, n, (m - 1) as nat);
    }
}

/// Whether a value of type `value` can stand where the type `declared` is
/// asked for: in a `let`, in a `return`, as an argument. The types must be
/// equal.
pub open spec fn same_ty(declared: TyView, value: TyView) -> Result<(), TypeErrorKind> {
    if declared == value {
        Ok(())
    } else {
        Err(TypeErrorKind::TypeMismatch)
    }
}

/// Computes `same_ty`.
pub fn check_same_type(declared: &Ty, value: &Ty) -> (r: Result<(), TypeErrorKind>)
    ensures
        r == same_ty(declared@, value@),
{
    if declared.equals(value) {
        Ok(())
    } else {
        Err(TypeErrorKind::TypeMismatch)
    }
}

/// Whether an assignment is well typed: the value is of the type of the
/// place, and if the place is a variable, the variable was bound by `var`.
pub open spec fn assignment_fits(
    place: TyView,
    variable: Option<Mutability>,
    value: TyView,
) -> Result<
    (),
    TypeErrorKind,
> {
    if place == value && variable != Some(Mutability::Immutable) {
        Ok(())
    } else {
        Err(TypeErrorKind::TypeMismatch)
    }
}

/// Computes `assignment_fits`.
pub fn check_assignment(place: &Ty, variable: Option<Mutability>, value: &Ty) -> (r: Result<
    (),
    TypeErrorKind,
>)
    ensures
        r == assignment_fits(place@, variable, value@),
{
    let mutable = match variable {
        Some(Mutability::Immutable) => false,
        _ => true,
    };
    if place.equals(value) && mutable {
        Ok(())
    } else {
        Err(TypeErrorKind::TypeMismatch)
    }
}

/// The type of the variable of `for i from a to b`: the bounds are of one
/// numeric type, which is the type of the variable.
pub open spec fn loop_variable_ty(from: TyView, to: TyView) -> Result<TyView, TypeErrorKind> {
    arithmetic_ty(from, to)
}

/// Computes `loop_variable_ty`.
pub fn loop_variable_type(from: &Ty, to: &Ty) -> (r: Result<Ty, TypeErrorKind>)
    ensures
        match loop_variable_ty(from@, to@) {
            Ok(t) => r is Ok && r->Ok_0@ == t,
            Err(k) => r == Err::<Ty, TypeErrorKind>(k),
        },
{
    arithmetic_type(from, to)
}

/// Whether a type can be the condition of an `if` or a `while`: it must be
/// the boolean type.
pub fn check_condition(condition: &Ty) -> (r: Result<(), TypeErrorKind>)
    ensures
        r == same_ty(TyView::Boolean, condition@),
{
    if is_boolean(condition) {
        Ok(())
    } else {
        Err(TypeErrorKind::TypeMismatch)
    }
}

/// Type soundness of the rules. The type that a rule gives is closed if the
/// types it is given are: every reference and span inside it is bound to a
/// region. The types of the literals are closed.
pub proof fn law_rules_give_closed_types(
    a: TyView,
    b: TyView,
    c: TyView,
    region: Region,
    mode: BorrowingMode,
    value: u64,
)
    requires
        regions_closed(a),
        regions_closed(b),
        regions_closed(c),
    ensures
        arithmetic_ty(a, b) matches Ok(t) ==> regions_closed(t),
        comparison_ty(a, b) matches Ok(t) ==> regions_closed(t),
        logic_ty(a, b) matches Ok(t) ==> regions_closed(t),
        negation_ty(a) matches Ok(t) ==> regions_closed(t),
        minus_ty(a) matches Ok(t) ==> regions_closed(t),
        conditional_ty(c, a, b) matches Ok(t) ==> regions_closed(t),
        cast_ty(a, b) matches Ok(t) ==> regions_closed(t),
        deref_ty(a) matches Ok(t) ==> regions_closed(t),
        index_ty(a, b) matches Ok(t) ==> regions_closed(t),
        regions_closed(borrow_ty(mode, a, region)),
        regions_closed(integer_literal_ty(value, Some(a))),
        regions_closed(integer_literal_ty(value, None)),
        regions_closed(float_literal_ty(Some(a))),
        regions_closed(float_literal_ty(None)),
        regions_closed(string_ty()),
        regions_closed(char_ty()),
        regions_closed(size_ty()),
{
    reveal_with_fuel(regions_closed, 3);
}

} // verus!
