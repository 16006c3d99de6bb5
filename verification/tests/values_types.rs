use winter_core::error::ErrorKind;
use winter_core::types::{
    NumType, RefType, ValType, functype_parser, globaltype_parser, limits_parser, numtype_parser,
    reftype_parser, resulttype_parser, tabletype_parser, valtype_parser,
};
use winter_core::values::{name_parser, vector_count_parser, vector_parser};

#[test]
fn test_vector_data() {
    let value = vector_parser(&[0x1, 0x2, 0x3, 0x4], 0);
    assert_eq!(value.unwrap(), (&[0x2][..], 2));

    let value = vector_parser(&[0x2, 0x2, 0x3, 0x4], 0);
    assert_eq!(value.unwrap(), (&[0x2, 0x3][..], 3));

    let value = vector_parser(&[0x1], 0);
    assert!(value.is_err());
}

#[test]
fn byte_vector_leaves_the_rest() {
    // a two-byte payload, with one byte of the input left over
    let value = vector_parser(&[0x02, 0xAA, 0xBB, 0xCC], 0);
    assert_eq!(value.unwrap(), (&[0xAA, 0xBB][..], 3));
}

#[test]
fn vector_count_reads_the_length_alone() {
    assert_eq!(vector_count_parser(&[0x05, 0xAA], 0).unwrap(), (5, 1));
}

#[test]
fn test_name() {
    let value = name_parser(&[0x2, 0x41, 0x42, 0x43], 0);
    assert_eq!(value.unwrap(), ("AB", 3));
}

#[test]
fn invalid_utf8_name_is_encoding_error() {
    let e = name_parser(&[0x01, 0xFF], 0).unwrap_err();
    assert_eq!(e.kind, ErrorKind::Encoding);
}

#[test]
fn test_valtype() {
    let value = valtype_parser(&[0x7C], 0);
    assert_eq!(value.unwrap(), (ValType::NumType(NumType::F64), 1));
}

#[test]
fn valtype_tags() {
    assert_eq!(
        valtype_parser(&[0x70], 0).unwrap(),
        (ValType::RefType(RefType::FuncRef), 1)
    );
    assert_eq!(
        valtype_parser(&[0x7F], 0).unwrap(),
        (ValType::NumType(NumType::I32), 1)
    );
    let e = valtype_parser(&[0x00], 0).unwrap_err();
    assert_eq!(e.kind, ErrorKind::Malformed);
}

#[test]
fn numtype_and_reftype_tags() {
    assert_eq!(numtype_parser(&[0x7E], 0).unwrap(), (NumType::I64, 1));
    assert_eq!(numtype_parser(&[0x7D], 0).unwrap(), (NumType::F32, 1));
    assert_eq!(reftype_parser(&[0x6F], 0).unwrap(), (RefType::ExternRef, 1));
    let e = numtype_parser(&[0x70], 0).unwrap_err();
    assert_eq!(e.kind, ErrorKind::Encoding);
    let e = reftype_parser(&[0x7F], 0).unwrap_err();
    assert_eq!(e.kind, ErrorKind::Encoding);
}

#[test]
fn resulttype_counts_exactly() {
    let (v, end) = resulttype_parser(&[0x02, 0x7F, 0x7E, 0x7D], 0).unwrap();
    assert_eq!(end, 3);
    assert_eq!(v.len(), 2);
    assert_eq!(v[0], ValType::NumType(NumType::I32));
    assert_eq!(v[1], ValType::NumType(NumType::I64));
    // an element count the input cannot satisfy
    assert!(resulttype_parser(&[0x03, 0x7F], 0).is_err());
}

#[test]
fn functype_needs_its_tag() {
    let (ft, end) = functype_parser(&[0x60, 0x01, 0x7F, 0x01, 0x7E], 0).unwrap();
    assert_eq!(end, 5);
    assert_eq!(ft.params.len(), 1);
    assert_eq!(ft.params[0], ValType::NumType(NumType::I32));
    assert_eq!(ft.ret.len(), 1);
    assert_eq!(ft.ret[0], ValType::NumType(NumType::I64));
    let e = functype_parser(&[0x61, 0x00, 0x00], 0).unwrap_err();
    assert_eq!(e.kind, ErrorKind::Malformed);
}

#[test]
fn limits_flag_selects_the_maximum() {
    let (l, end) = limits_parser(&[0x00, 0x05], 0).unwrap();
    assert_eq!(end, 2);
    assert_eq!(l.min, 5);
    assert!(l.max.is_none());
    let (l, end) = limits_parser(&[0x01, 0x05, 0x0A], 0).unwrap();
    assert_eq!(end, 3);
    assert_eq!(l.min, 5);
    assert_eq!(l.max, Some(10));
    let e = limits_parser(&[0x02, 0x05, 0x0A], 0).unwrap_err();
    assert_eq!(e.kind, ErrorKind::Malformed);
}

#[test]
fn tabletype_is_reftype_then_limits() {
    let (t, end) = tabletype_parser(&[0x70, 0x00, 0x01], 0).unwrap();
    assert_eq!(end, 3);
    assert_eq!(t.ref_type, RefType::FuncRef);
    assert_eq!(t.limits.min, 1);
}

#[test]
fn globaltype_mutability_byte() {
    let (g, end) = globaltype_parser(&[0x7F, 0x00], 0).unwrap();
    assert_eq!(end, 2);
    assert!(!g.mutable);
    let (g, _) = globaltype_parser(&[0x7F, 0x01], 0).unwrap();
    assert!(g.mutable);
    let e = globaltype_parser(&[0x7F, 0x02], 0).unwrap_err();
    assert_eq!(e.kind, ErrorKind::Malformed);
}
