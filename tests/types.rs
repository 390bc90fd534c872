use c_api_tools::{DType, DTypeIdentifier};

#[test]
fn real_and_complex_kinds() {
    assert!(DType::F32.is_real());
    assert!(DType::I64.is_real());
    assert!(DType::U8.is_real());
    assert!(!DType::C32.is_real());
    assert!(!DType::Undefined.is_real());
    assert!(DType::C64.is_complex());
    assert!(!DType::F64.is_complex());
    assert!(!DType::Undefined.is_complex());
}

#[test]
fn associated_types() {
    assert_eq!(DType::C32.real_type(), DType::F32);
    assert_eq!(DType::C64.real_type(), DType::F64);
    assert_eq!(DType::I32.real_type(), DType::I32);
    assert_eq!(DType::F32.complex_type(), DType::C32);
    assert_eq!(DType::F64.complex_type(), DType::C64);
    assert_eq!(DType::U32.complex_type(), DType::Undefined);
    assert_eq!(DType::C32.complex_type(), DType::Undefined);
}

#[test]
fn integer_identifiers() {
    assert_eq!(<u8 as DTypeIdentifier>::dtype(), DType::U8);
    assert_eq!(<u32 as DTypeIdentifier>::dtype(), DType::U32);
    assert_eq!(<u64 as DTypeIdentifier>::dtype(), DType::U64);
    assert_eq!(<i8 as DTypeIdentifier>::dtype(), DType::I8);
    assert_eq!(<i32 as DTypeIdentifier>::dtype(), DType::I32);
    assert_eq!(<i64 as DTypeIdentifier>::dtype(), DType::I64);
}
