use austral_lib::common::{BorrowingMode, Identifier, ModuleName, Mutability, QIdent};
use austral_lib::stages::{TypedBinding, ValueParameter};
use austral_lib::ty::{IntegerWidth, Region, Signedness, Ty, TypeVariable, Universe};
use austral_lib::type_check::{
    argument_style, arithmetic_type, borrow_type, can_cast, cast_type, char_type, check_arguments,
    check_assignment, check_condition, check_destructure, check_same_type, check_slot_universes,
    comparison_type, conditional_type, deref_type, find_named, float_literal_type, index_type,
    integer_fits, integer_literal_type, logic_type, loop_variable_type, minus_type, negation_type,
    select_instance, size_type, slot_type, string_type, ArgumentStyle, TypeErrorKind, TypedArguments,
};
use austral_lib::type_system::{
    is_closed, is_float, is_integer, is_linear, is_numeric, type_universe, universe_fits,
};

fn integer(sign: Signedness, width: IntegerWidth) -> Ty {
    Ty::Integer(sign, width)
}

fn int32() -> Ty {
    integer(Signedness::Signed, IntegerWidth::Width32)
}

fn int64() -> Ty {
    integer(Signedness::Signed, IntegerWidth::Width64)
}

fn nat8() -> Ty {
    integer(Signedness::Unsigned, IntegerWidth::Width8)
}

fn region(id: u64) -> Box<Ty> {
    Box::new(Ty::RegionTy(Region { id }))
}

fn named(name: &str, universe: Universe) -> Ty {
    Ty::NamedType(
        QIdent {
            source: ModuleName("M".to_string()),
            original: Identifier::new(name),
            local: Identifier::new(name),
        },
        vec![],
        universe,
    )
}

fn param(name: &str, ty: Ty) -> ValueParameter {
    ValueParameter { name: Identifier::new(name), ty }
}

fn same(a: &Ty, b: &Ty) -> bool {
    a.equals(b)
}

#[test]
fn universes_of_types() {
    let free = [
        Ty::Unit,
        Ty::Boolean,
        int32(),
        Ty::SingleFloat,
        Ty::DoubleFloat,
        Ty::ReadRef(Box::new(int32()), region(1)),
        Ty::Span(Box::new(int32()), region(1)),
        Ty::Address(Box::new(int32())),
        Ty::Pointer(Box::new(int32())),
        Ty::FnPtr(vec![int32()], Box::new(Ty::Unit)),
    ];
    for ty in free.iter() {
        assert_eq!(type_universe(ty), Universe::FreeUniverse);
        assert!(!is_linear(ty));
    }
    for ty in [Ty::WriteRef(Box::new(int32()), region(1)), Ty::SpanMut(Box::new(int32()), region(1))].iter() {
        assert_eq!(type_universe(ty), Universe::LinearUniverse);
        assert!(is_linear(ty));
    }
    assert_eq!(type_universe(&Ty::RegionTy(Region { id: 3 })), Universe::RegionUniverse);
    assert_eq!(type_universe(&named("R", Universe::LinearUniverse)), Universe::LinearUniverse);
    assert_eq!(type_universe(&named("P", Universe::FreeUniverse)), Universe::FreeUniverse);
    let var = Ty::TyVar(TypeVariable { id: 1, universe: Universe::TypeUniverse, constraints: vec![] });
    assert_eq!(type_universe(&var), Universe::TypeUniverse);
}

#[test]
fn simple_predicates() {
    assert!(is_numeric(&int32()) && is_integer(&int32()) && !is_float(&int32()));
    assert!(is_numeric(&Ty::SingleFloat) && !is_integer(&Ty::SingleFloat) && is_float(&Ty::SingleFloat));
    assert!(is_numeric(&Ty::DoubleFloat) && is_float(&Ty::DoubleFloat));
    for ty in [Ty::Unit, Ty::Boolean, Ty::Address(Box::new(int32())), named("R", Universe::FreeUniverse)].iter() {
        assert!(!is_numeric(ty) && !is_integer(ty) && !is_float(ty));
    }
}

#[test]
fn structural_equality_of_types() {
    assert!(same(&int32(), &int32()));
    assert!(!same(&int32(), &int64()));
    assert!(!same(&int32(), &integer(Signedness::Unsigned, IntegerWidth::Width32)));
    let a = Ty::FnPtr(vec![int32(), Ty::Boolean], Box::new(Ty::Unit));
    assert!(same(&a, &a.clone()));
    assert!(!same(&a, &Ty::FnPtr(vec![int32()], Box::new(Ty::Unit))));
    assert!(!same(&a, &Ty::FnPtr(vec![int32(), Ty::Unit], Box::new(Ty::Unit))));
    assert!(!same(&Ty::ReadRef(Box::new(int32()), region(1)), &Ty::ReadRef(Box::new(int32()), region(2))));
    assert!(!same(&Ty::ReadRef(Box::new(int32()), region(1)), &Ty::WriteRef(Box::new(int32()), region(1))));
    assert!(!same(&named("A", Universe::FreeUniverse), &named("B", Universe::FreeUniverse)));
    assert!(!same(&named("A", Universe::FreeUniverse), &named("A", Universe::LinearUniverse)));
    let v = |id, names: Vec<&str>| {
        Ty::TyVar(TypeVariable {
            id,
            universe: Universe::TypeUniverse,
            constraints: names.into_iter().map(Identifier::new).collect(),
        })
    };
    assert!(same(&v(1, vec!["Ord"]), &v(1, vec!["Ord"])));
    assert!(!same(&v(1, vec!["Ord"]), &v(2, vec!["Ord"])));
    assert!(!same(&v(1, vec!["Ord"]), &v(1, vec!["Eq"])));
}

#[test]
fn references_must_be_bound_to_regions() {
    assert!(is_closed(&Ty::ReadRef(Box::new(int32()), region(1))));
    assert!(!is_closed(&Ty::ReadRef(Box::new(int32()), Box::new(Ty::Boolean))));
    assert!(!is_closed(&Ty::Pointer(Box::new(Ty::SpanMut(Box::new(int32()), Box::new(int32()))))));
    assert!(is_closed(&Ty::FnPtr(vec![Ty::Span(Box::new(nat8()), region(0))], Box::new(Ty::Unit))));
    assert!(!is_closed(&Ty::FnPtr(vec![Ty::Span(Box::new(nat8()), Box::new(Ty::Unit))], Box::new(Ty::Unit))));
    assert!(is_closed(&string_type()));
}

#[test]
fn universe_order() {
    for u in [Universe::FreeUniverse, Universe::LinearUniverse, Universe::TypeUniverse, Universe::RegionUniverse] {
        assert!(universe_fits(u, u));
    }
    assert!(universe_fits(Universe::FreeUniverse, Universe::LinearUniverse));
    assert!(universe_fits(Universe::FreeUniverse, Universe::TypeUniverse));
    assert!(!universe_fits(Universe::FreeUniverse, Universe::RegionUniverse));
    assert!(!universe_fits(Universe::LinearUniverse, Universe::FreeUniverse));
    assert!(!universe_fits(Universe::LinearUniverse, Universe::TypeUniverse));
    assert!(!universe_fits(Universe::TypeUniverse, Universe::FreeUniverse));
}

#[test]
fn literal_types() {
    assert!(same(&integer_literal_type(1, None), &int32()));
    assert!(same(&integer_literal_type(1, Some(&int64())), &int64()));
    assert!(same(&integer_literal_type(255, Some(&nat8())), &nat8()));
    assert!(same(&integer_literal_type(256, Some(&nat8())), &int32()));
    assert!(same(&integer_literal_type(1, Some(&Ty::DoubleFloat)), &Ty::DoubleFloat));
    assert!(same(&integer_literal_type(1, Some(&Ty::SingleFloat)), &Ty::SingleFloat));
    assert!(same(&integer_literal_type(1, Some(&Ty::Boolean)), &int32()));
    assert!(same(&float_literal_type(None), &Ty::DoubleFloat));
    assert!(same(&float_literal_type(Some(&Ty::SingleFloat)), &Ty::SingleFloat));
    assert!(same(&float_literal_type(Some(&int32())), &Ty::DoubleFloat));
    assert!(same(&char_type(), &nat8()));
    assert!(same(&size_type(), &integer(Signedness::Unsigned, IntegerWidth::WidthByteSize)));
    assert!(same(&string_type(), &Ty::Span(Box::new(nat8()), region(0))));
}

#[test]
fn what_fits_an_integer_type() {
    assert!(integer_fits(255, Signedness::Unsigned, IntegerWidth::Width8) && !integer_fits(256, Signedness::Unsigned, IntegerWidth::Width8));
    assert!(integer_fits(127, Signedness::Signed, IntegerWidth::Width8) && !integer_fits(128, Signedness::Signed, IntegerWidth::Width8));
    assert!(integer_fits(65535, Signedness::Unsigned, IntegerWidth::Width16) && !integer_fits(65536, Signedness::Unsigned, IntegerWidth::Width16));
    assert!(integer_fits(32767, Signedness::Signed, IntegerWidth::Width16) && !integer_fits(32768, Signedness::Signed, IntegerWidth::Width16));
    assert!(integer_fits(4294967295, Signedness::Unsigned, IntegerWidth::Width32) && !integer_fits(4294967296, Signedness::Unsigned, IntegerWidth::Width32));
    assert!(integer_fits(2147483647, Signedness::Signed, IntegerWidth::Width32) && !integer_fits(2147483648, Signedness::Signed, IntegerWidth::Width32));
    assert!(integer_fits(u64::MAX, Signedness::Unsigned, IntegerWidth::Width64));
    assert!(integer_fits(u64::MAX, Signedness::Unsigned, IntegerWidth::WidthIndex) && integer_fits(u64::MAX, Signedness::Unsigned, IntegerWidth::WidthByteSize));
    assert!(integer_fits(i64::MAX as u64, Signedness::Signed, IntegerWidth::Width64) && !integer_fits(i64::MAX as u64 + 1, Signedness::Signed, IntegerWidth::Width64));
}

#[test]
fn operator_rules() {
    assert!(same(&arithmetic_type(&int32(), &int32()).unwrap(), &int32()));
    assert!(same(&arithmetic_type(&Ty::DoubleFloat, &Ty::DoubleFloat).unwrap(), &Ty::DoubleFloat));
    assert_eq!(arithmetic_type(&int32(), &int64()).unwrap_err(), TypeErrorKind::TypeMismatch);
    assert_eq!(arithmetic_type(&Ty::Boolean, &Ty::Boolean).unwrap_err(), TypeErrorKind::TypeMismatch);
    assert!(same(&comparison_type(&nat8(), &nat8()).unwrap(), &Ty::Boolean));
    assert_eq!(comparison_type(&nat8(), &int32()).unwrap_err(), TypeErrorKind::TypeMismatch);
    assert_eq!(comparison_type(&Ty::Unit, &Ty::Unit).unwrap_err(), TypeErrorKind::TypeMismatch);
    assert!(same(&logic_type(&Ty::Boolean, &Ty::Boolean).unwrap(), &Ty::Boolean));
    assert_eq!(logic_type(&Ty::Boolean, &int32()).unwrap_err(), TypeErrorKind::TypeMismatch);
    assert!(same(&negation_type(&Ty::Boolean).unwrap(), &Ty::Boolean));
    assert_eq!(negation_type(&int32()).unwrap_err(), TypeErrorKind::TypeMismatch);
    assert!(same(&minus_type(&int64()).unwrap(), &int64()));
    assert_eq!(minus_type(&Ty::Boolean).unwrap_err(), TypeErrorKind::TypeMismatch);
    assert!(same(&conditional_type(&Ty::Boolean, &int32(), &int32()).unwrap(), &int32()));
    assert_eq!(conditional_type(&int32(), &int32(), &int32()).unwrap_err(), TypeErrorKind::TypeMismatch);
    assert_eq!(conditional_type(&Ty::Boolean, &int32(), &int64()).unwrap_err(), TypeErrorKind::TypeMismatch);
    assert!(same(&loop_variable_type(&int32(), &int32()).unwrap(), &int32()));
    assert_eq!(loop_variable_type(&int32(), &nat8()).unwrap_err(), TypeErrorKind::TypeMismatch);
    assert!(check_condition(&Ty::Boolean).is_ok());
    assert_eq!(check_condition(&int32()).unwrap_err(), TypeErrorKind::TypeMismatch);
}

#[test]
fn casts() {
    assert!(can_cast(&int32(), &int64()));
    assert!(can_cast(&int64(), &nat8()));
    assert!(can_cast(&int32(), &Ty::DoubleFloat));
    assert!(can_cast(&Ty::SingleFloat, &int32()));
    assert!(can_cast(&Ty::Address(Box::new(int32())), &Ty::Pointer(Box::new(int32()))));
    assert!(!can_cast(&Ty::Address(Box::new(int32())), &Ty::Pointer(Box::new(int64()))));
    assert!(!can_cast(&Ty::Pointer(Box::new(int32())), &Ty::Address(Box::new(int32()))));
    assert!(!can_cast(&Ty::Boolean, &int32()));
    assert!(same(&cast_type(&int32(), &int64()).unwrap(), &int64()));
    assert_eq!(cast_type(&Ty::Boolean, &int32()).unwrap_err(), TypeErrorKind::BadCast);
    assert_eq!(cast_type(&int32(), &Ty::Unit).unwrap_err(), TypeErrorKind::BadCast);
}

#[test]
fn references_and_indices() {
    let r = Region { id: 7 };
    assert!(same(
        &borrow_type(BorrowingMode::ReadBorrow, &int32(), r),
        &Ty::ReadRef(Box::new(int32()), region(7))
    ));
    assert!(same(
        &borrow_type(BorrowingMode::WriteBorrow, &int32(), r),
        &Ty::WriteRef(Box::new(int32()), region(7))
    ));
    assert!(same(&deref_type(&Ty::ReadRef(Box::new(int32()), region(7))).unwrap(), &int32()));
    assert!(same(&deref_type(&Ty::Pointer(Box::new(Ty::Boolean))).unwrap(), &Ty::Boolean));
    assert_eq!(deref_type(&int32()).unwrap_err(), TypeErrorKind::TypeMismatch);
    assert!(same(&index_type(&Ty::Span(Box::new(nat8()), region(0)), &int32()).unwrap(), &nat8()));
    assert!(same(&index_type(&Ty::SpanMut(Box::new(nat8()), region(0)), &int64()).unwrap(), &nat8()));
    assert!(same(&index_type(&Ty::Pointer(Box::new(int32())), &int32()).unwrap(), &int32()));
    assert_eq!(index_type(&Ty::Span(Box::new(nat8()), region(0)), &Ty::Boolean).unwrap_err(), TypeErrorKind::TypeMismatch);
    assert_eq!(index_type(&int32(), &int32()).unwrap_err(), TypeErrorKind::TypeMismatch);
}

#[test]
fn named_arguments_must_cover_the_parameters() {
    // f(a => 1, b => 2) against function f(a : Int32, b : Int32, c : Int32)
    let params = vec![param("a", int32()), param("b", int32()), param("c", int32())];
    let args = TypedArguments::Named(vec![param("a", int32()), param("b", int32())]);
    assert_eq!(check_arguments(&params, &args).unwrap_err(), TypeErrorKind::ArityMismatch);
    // f(a => 1, 2, 3) mixes the styles
    let names = vec![Some(Identifier::new("a")), None, None];
    assert_eq!(argument_style(&names).unwrap_err(), TypeErrorKind::MixedArgumentStyle);
}

#[test]
fn argument_styles() {
    assert_eq!(argument_style(&vec![]), Ok(ArgumentStyle::Empty));
    assert_eq!(argument_style(&vec![None, None]), Ok(ArgumentStyle::Positional));
    assert_eq!(
        argument_style(&vec![Some(Identifier::new("a")), Some(Identifier::new("b"))]),
        Ok(ArgumentStyle::Named)
    );
    assert_eq!(
        argument_style(&vec![None, Some(Identifier::new("b"))]),
        Err(TypeErrorKind::MixedArgumentStyle)
    );
}

#[test]
fn arguments_against_parameters() {
    let params = vec![param("a", int32()), param("b", Ty::Boolean)];
    assert_eq!(check_arguments(&params, &TypedArguments::Positional(vec![int32(), Ty::Boolean])), Ok(vec![0, 1]));
    assert_eq!(
        check_arguments(&params, &TypedArguments::Positional(vec![Ty::Boolean, int32()])),
        Err(TypeErrorKind::TypeMismatch)
    );
    assert_eq!(
        check_arguments(&params, &TypedArguments::Positional(vec![int32()])),
        Err(TypeErrorKind::ArityMismatch)
    );
    assert_eq!(check_arguments(&params, &TypedArguments::Empty), Err(TypeErrorKind::ArityMismatch));
    assert_eq!(check_arguments(&vec![], &TypedArguments::Empty), Ok(vec![]));
    // named arguments come in any order
    let swapped = TypedArguments::Named(vec![param("b", Ty::Boolean), param("a", int32())]);
    assert_eq!(check_arguments(&params, &swapped), Ok(vec![1, 0]));
    let wrong_name = TypedArguments::Named(vec![param("a", int32()), param("z", Ty::Boolean)]);
    assert_eq!(check_arguments(&params, &wrong_name), Err(TypeErrorKind::ArityMismatch));
    let twice = TypedArguments::Named(vec![param("a", int32()), param("a", int32())]);
    assert_eq!(check_arguments(&params, &twice), Err(TypeErrorKind::ArityMismatch));
    let wrong_type = TypedArguments::Named(vec![param("a", int32()), param("b", int32())]);
    assert_eq!(check_arguments(&params, &wrong_type), Err(TypeErrorKind::TypeMismatch));
}

#[test]
fn slots_and_destructuring() {
    let slots = vec![param("x", int32()), param("y", Ty::Boolean)];
    assert!(same(&slot_type(&slots, &Identifier::new("y")).unwrap(), &Ty::Boolean));
    assert_eq!(slot_type(&slots, &Identifier::new("z")).unwrap_err(), TypeErrorKind::UndefinedSymbol);
    assert_eq!(find_named(&slots, &Identifier::new("x")), Some(0));
    let binding = |name: &str, ty: Ty, rename: &str| TypedBinding {
        name: Identifier::new(name),
        ty,
        rename: Identifier::new(rename),
    };
    let all = vec![binding("y", Ty::Boolean, "b"), binding("x", int32(), "x")];
    assert_eq!(check_destructure(&slots, &all), Ok(()));
    let missing = vec![binding("x", int32(), "x")];
    assert_eq!(check_destructure(&slots, &missing), Err(TypeErrorKind::NonExhaustiveDestructure));
    let unknown = vec![binding("x", int32(), "x"), binding("y", Ty::Boolean, "y"), binding("z", int32(), "z")];
    assert_eq!(check_destructure(&slots, &unknown), Err(TypeErrorKind::UndefinedSymbol));
    let wrong = vec![binding("x", int64(), "x"), binding("y", Ty::Boolean, "y")];
    assert_eq!(check_destructure(&slots, &wrong), Err(TypeErrorKind::TypeMismatch));
}

#[test]
fn slots_must_fit_the_universe_of_the_declaration() {
    let linear = named("R", Universe::LinearUniverse);
    let free_slots = vec![param("x", int32())];
    let linear_slots = vec![param("x", int32()), param("r", linear)];
    assert_eq!(check_slot_universes(Universe::FreeUniverse, &free_slots), Ok(()));
    assert_eq!(check_slot_universes(Universe::LinearUniverse, &free_slots), Ok(()));
    assert_eq!(check_slot_universes(Universe::TypeUniverse, &free_slots), Ok(()));
    assert_eq!(check_slot_universes(Universe::LinearUniverse, &linear_slots), Ok(()));
    assert_eq!(check_slot_universes(Universe::FreeUniverse, &linear_slots), Err(TypeErrorKind::UniverseMismatch));
    assert_eq!(check_slot_universes(Universe::FreeUniverse, &vec![]), Ok(()));
}

#[test]
fn instance_selection() {
    let instances = vec![int32(), Ty::Boolean, int64()];
    assert_eq!(select_instance(&instances, &Ty::Boolean), Ok(1));
    assert_eq!(select_instance(&instances, &Ty::Unit), Err(TypeErrorKind::MissingInstance));
    assert_eq!(select_instance(&vec![], &Ty::Unit), Err(TypeErrorKind::MissingInstance));
    let overlapping = vec![int32(), Ty::Boolean, int32()];
    assert_eq!(select_instance(&overlapping, &int32()), Err(TypeErrorKind::OverlappingInstance));
}

#[test]
fn statements() {
    assert_eq!(check_same_type(&int32(), &int32()), Ok(()));
    assert_eq!(check_same_type(&int32(), &int64()), Err(TypeErrorKind::TypeMismatch));
    assert_eq!(check_assignment(&int32(), Some(Mutability::Mutable), &int32()), Ok(()));
    assert_eq!(check_assignment(&int32(), None, &int32()), Ok(()));
    assert_eq!(
        check_assignment(&int32(), Some(Mutability::Immutable), &int32()),
        Err(TypeErrorKind::TypeMismatch)
    );
    assert_eq!(
        check_assignment(&int32(), Some(Mutability::Mutable), &Ty::Boolean),
        Err(TypeErrorKind::TypeMismatch)
    );
}
