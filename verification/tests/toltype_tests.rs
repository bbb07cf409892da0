use tol::error::ErrorKind;
use tol::toltype::TolType;

fn array(inner: TolType, len: Option<usize>) -> TolType {
    TolType::Array(Box::new(inner), len)
}

fn integers() -> Vec<TolType> {
    vec![
        TolType::I8,
        TolType::I16,
        TolType::I32,
        TolType::I64,
        TolType::ISukat,
        TolType::U8,
        TolType::U16,
        TolType::U32,
        TolType::U64,
        TolType::USukat,
    ]
}

#[test]
fn integer_types_are_integers() {
    for t in integers() {
        assert!(t.is_integer());
        assert!(!t.is_float());
    }
    assert!(TolType::UnsizedInt.is_integer());
    assert!(!TolType::Lutang.is_integer());
    assert!(!TolType::Bool.is_integer());
    assert!(!TolType::Bagay("A".to_string()).is_integer());
}

#[test]
fn float_types_are_floats() {
    assert!(TolType::Lutang.is_float());
    assert!(TolType::DobleTang.is_float());
    assert!(TolType::UnsizedFloat.is_float());
    assert!(!TolType::I32.is_float());
}

#[test]
fn test_arithmetic_compatibility() {
    assert!(TolType::I8.is_arithmetic_compatible(&TolType::I64));
    assert!(TolType::U8.is_arithmetic_compatible(&TolType::U64));
    assert!(TolType::I8.is_arithmetic_compatible(&TolType::U64));
    assert!(TolType::Lutang.is_arithmetic_compatible(&TolType::DobleTang));
    assert!(TolType::UnsizedInt.is_arithmetic_compatible(&TolType::I32));
    assert!(!TolType::I32.is_arithmetic_compatible(&TolType::Lutang));
    assert!(!TolType::I64.is_arithmetic_compatible(&TolType::DobleTang));
    assert!(!TolType::Bool.is_arithmetic_compatible(&TolType::Bool));
}

#[test]
fn identical_types_are_assignable() {
    for t in integers() {
        assert!(t.is_assignment_compatible(&t, 1, 1).is_ok());
    }
    assert!(TolType::Bool.is_assignment_compatible(&TolType::Bool, 1, 1).is_ok());
    assert!(TolType::Unknown.is_assignment_compatible(&TolType::Unknown, 1, 1).is_ok());
    let p = TolType::Pointer(Box::new(TolType::I32));
    assert!(p.is_assignment_compatible(&TolType::Pointer(Box::new(TolType::I32)), 1, 1).is_ok());
}

#[test]
fn integer_literals_fit_every_integer_type_only() {
    for t in integers() {
        assert!(TolType::UnsizedInt.is_assignment_compatible(&t, 1, 1).is_ok());
        assert!(TolType::UnsizedFloat.is_assignment_compatible(&t, 1, 1).is_err());
    }
    assert!(TolType::UnsizedInt.is_assignment_compatible(&TolType::Lutang, 1, 1).is_err());
    assert!(TolType::UnsizedInt.is_assignment_compatible(&TolType::Bool, 1, 1).is_err());
}

#[test]
fn float_literals_fit_every_float_type_only() {
    assert!(TolType::UnsizedFloat.is_assignment_compatible(&TolType::Lutang, 1, 1).is_ok());
    assert!(TolType::UnsizedFloat.is_assignment_compatible(&TolType::DobleTang, 1, 1).is_ok());
    assert!(TolType::UnsizedFloat.is_assignment_compatible(&TolType::I32, 1, 1).is_err());
}

#[test]
fn different_widths_are_not_assignable() {
    assert!(TolType::I8.is_assignment_compatible(&TolType::I16, 1, 1).is_err());
    assert!(TolType::I32.is_assignment_compatible(&TolType::UnsizedInt, 1, 1).is_err());
    assert!(TolType::Lutang.is_assignment_compatible(&TolType::DobleTang, 1, 1).is_err());
}

#[test]
fn records_fit_their_unresolved_name() {
    let record = TolType::Bagay("Point".to_string());
    let name = TolType::UnknownIdentifier("Point".to_string());
    let other = TolType::UnknownIdentifier("Line".to_string());
    assert!(record.is_assignment_compatible(&name, 1, 1).is_ok());
    assert!(name.is_assignment_compatible(&record, 1, 1).is_ok());
    assert!(record.is_assignment_compatible(&other, 1, 1).is_err());
    assert!(other.is_assignment_compatible(&record, 1, 1).is_err());
}

#[test]
fn array_lengths_decide() {
    let value = |len| array(TolType::I32, len);
    assert!(value(None).is_assignment_compatible(&value(None), 1, 1).is_ok());
    assert!(value(Some(2)).is_assignment_compatible(&value(Some(3)), 1, 1).is_ok());
    assert!(value(Some(3)).is_assignment_compatible(&value(Some(3)), 1, 1).is_ok());
    assert!(value(Some(4)).is_assignment_compatible(&value(Some(3)), 1, 1).is_err());
    assert!(value(Some(2)).is_assignment_compatible(&value(None), 1, 1).is_ok());
    assert!(value(Some(0)).is_assignment_compatible(&value(None), 1, 1).is_err());
    assert!(value(None).is_assignment_compatible(&value(Some(3)), 1, 1).is_err());
}

#[test]
fn array_elements_decide() {
    let literal = array(TolType::UnsizedInt, Some(2));
    assert!(literal.is_assignment_compatible(&array(TolType::I32, Some(3)), 1, 1).is_ok());
    assert!(literal.is_assignment_compatible(&array(TolType::Lutang, Some(3)), 1, 1).is_err());
    let nested = array(array(TolType::UnsizedInt, Some(1)), Some(1));
    let target = array(array(TolType::U8, Some(2)), Some(2));
    assert!(nested.is_assignment_compatible(&target, 1, 1).is_ok());
}

#[test]
fn mismatch_names_both_types() {
    let e = TolType::UnsizedFloat.is_assignment_compatible(&TolType::I32, 3, 7).unwrap_err();
    assert_eq!(e.message(), "Ang tipong `literal na lutang` ay hindi bagay sa tipong `i32`");
    assert_eq!(e.kind(), ErrorKind::Error);
    assert_eq!(e.line(), 3);
    assert_eq!(e.column(), 7);
    assert!(e.notes().is_empty());
    assert!(e.helps().is_empty());
}

#[test]
fn mismatch_of_lengths_names_both_lengths() {
    let e = array(TolType::I32, Some(4))
        .is_assignment_compatible(&array(TolType::I32, Some(3)), 1, 2)
        .unwrap_err();
    assert_eq!(
        e.message(),
        "Mas maliit ang sukat na ibinigay sa tipo (3) kumpara sa expresyon (4)"
    );
}

#[test]
fn empty_array_without_length_is_rejected() {
    let e = array(TolType::I32, Some(0))
        .is_assignment_compatible(&array(TolType::I32, None), 1, 2)
        .unwrap_err();
    assert_eq!(
        e.message(),
        "Hindi pwede ang walang laman na array kung walang ibinigay na sukat sa tipo"
    );
}

#[test]
fn mismatch_of_elements_names_the_elements() {
    let e = array(TolType::UnsizedFloat, Some(1))
        .is_assignment_compatible(&array(TolType::I32, Some(1)), 1, 2)
        .unwrap_err();
    assert_eq!(e.message(), "Ang tipong `literal na lutang` ay hindi bagay sa tipong `i32`");
}

#[test]
fn c_names_of_primitives() {
    let table = [
        (TolType::I8, "int8_t"),
        (TolType::I16, "int16_t"),
        (TolType::I32, "int32_t"),
        (TolType::I64, "int64_t"),
        (TolType::ISukat, "ptrdiff_t"),
        (TolType::U8, "uint8_t"),
        (TolType::U16, "uint16_t"),
        (TolType::U32, "uint32_t"),
        (TolType::U64, "uint64_t"),
        (TolType::USukat, "size_t"),
        (TolType::Lutang, "float"),
        (TolType::DobleTang, "double"),
        (TolType::Bool, "bool"),
        (TolType::Kar, "char"),
        (TolType::Wala, "void"),
    ];
    for (t, c) in table {
        assert_eq!(t.c_name(), Some(c.to_string()));
        assert_eq!(t.as_c(), c);
    }
}

#[test]
fn c_names_of_named_and_array_types() {
    assert_eq!(TolType::Bagay("Point".to_string()).as_c(), "Point");
    assert_eq!(TolType::UnknownIdentifier("Point".to_string()).as_c(), "Point");
    assert_eq!(array(TolType::I32, Some(3)).as_c(), "TOL_Array_int32_t");
    assert_eq!(array(array(TolType::U8, None), None).as_c(), "TOL_Array_TOL_Array_uint8_t");
}

#[test]
fn some_types_have_no_c_name() {
    assert_eq!(TolType::UnsizedInt.c_name(), None);
    assert_eq!(TolType::UnsizedFloat.c_name(), None);
    assert_eq!(TolType::AkoType.c_name(), None);
    assert_eq!(TolType::Unknown.c_name(), None);
    assert_eq!(TolType::Pointer(Box::new(TolType::I32)).c_name(), None);
    assert_eq!(array(TolType::Unknown, None).c_name(), None);
}

#[test]
fn array_suffixes() {
    assert_eq!(TolType::I32.array_suffix(), "");
    assert_eq!(array(TolType::I32, Some(3)).array_suffix(), "[3]");
    assert_eq!(array(TolType::I32, None).array_suffix(), "[]");
    assert_eq!(array(array(TolType::I32, None), Some(12)).array_suffix(), "[12][]");
    assert_eq!(array(TolType::I32, Some(0)).array_suffix(), "[0]");
}

#[test]
fn types_as_text() {
    assert_eq!(TolType::I32.to_text(), "i32");
    assert_eq!(TolType::USukat.to_text(), "usukat");
    assert_eq!(TolType::UnsizedInt.to_text(), "literal na integer");
    assert_eq!(TolType::UnsizedFloat.to_text(), "literal na lutang");
    assert_eq!(TolType::Bagay("Point".to_string()).to_text(), "Point");
    assert_eq!(array(TolType::Kar, Some(2)).to_text(), "[kar]");
    assert_eq!(TolType::Pointer(Box::new(TolType::I32)).to_text(), "<hindi_tipo>");
    assert_eq!(TolType::Unknown.to_text(), "<hindi_tipo>");
}

#[test]
fn same_as_compares_structure() {
    assert!(array(TolType::I32, Some(3)).same_as(&array(TolType::I32, Some(3))));
    assert!(!array(TolType::I32, Some(3)).same_as(&array(TolType::I32, Some(2))));
    assert!(!array(TolType::I32, Some(3)).same_as(&array(TolType::I32, None)));
    assert!(!array(TolType::I32, None).same_as(&array(TolType::I64, None)));
    assert!(TolType::Bagay("A".to_string()).same_as(&TolType::Bagay("A".to_string())));
    assert!(!TolType::Bagay("A".to_string()).same_as(&TolType::UnknownIdentifier("A".to_string())));
}

#[test]
fn clone_keeps_the_type() {
    let t = array(TolType::MutablePointer(Box::new(TolType::Bagay("P".to_string()))), Some(9));
    assert_eq!(t.clone(), t);
}
