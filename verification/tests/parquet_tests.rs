use hfs::parquet::{hex_encode, map_primitive_type, ConvertedType, LogicalType, PhysicalType};
use hfs::schema::FieldType;

#[test]
fn test_map_primitive_boolean() {
    let ft = map_primitive_type(PhysicalType::BOOLEAN, None, ConvertedType::NONE);
    assert!(matches!(ft, FieldType::Boolean));
}

#[test]
fn test_map_primitive_int32_date_logical() {
    let ft = map_primitive_type(
        PhysicalType::INT32,
        Some(LogicalType::Date),
        ConvertedType::NONE,
    );
    assert!(matches!(ft, FieldType::Date32));
}

#[test]
fn test_map_primitive_int32_date_converted() {
    let ft = map_primitive_type(PhysicalType::INT32, None, ConvertedType::DATE);
    assert!(matches!(ft, FieldType::Date32));
}

#[test]
fn test_map_primitive_byte_array_utf8_logical() {
    let ft = map_primitive_type(
        PhysicalType::BYTE_ARRAY,
        Some(LogicalType::String),
        ConvertedType::NONE,
    );
    assert!(matches!(ft, FieldType::Utf8));
}

#[test]
fn test_map_primitive_byte_array_utf8_converted() {
    let ft = map_primitive_type(PhysicalType::BYTE_ARRAY, None, ConvertedType::UTF8);
    assert!(matches!(ft, FieldType::Utf8));
}

#[test]
fn test_map_primitive_byte_array_binary() {
    let ft = map_primitive_type(PhysicalType::BYTE_ARRAY, None, ConvertedType::NONE);
    assert!(matches!(ft, FieldType::Binary));
}

#[test]
fn test_map_primitive_int32_int8() {
    let ft = map_primitive_type(
        PhysicalType::INT32,
        Some(LogicalType::Integer {
            bit_width: 8,
            is_signed: true,
        }),
        ConvertedType::NONE,
    );
    assert!(matches!(ft, FieldType::Int8));
}

#[test]
fn test_hex_encode() {
    assert_eq!(hex_encode(&[0xDE, 0xAD, 0xBE, 0xEF]), "deadbeef");
}
