use std::sync::Arc;

use hfs::parquet::{
    format_stat_bytes, map_primitive_type, parse_footer, ConvertedType, LogicalType, ParquetInspector,
    ParquetMeta, PhysicalType, Repetition,
};
use hfs::footer_check::check_footer;
use hfs::parquet_stats::{build_column_stats, ChunkStat};
use hfs::parquet_tree::{fields_of_schema_nodes, leaf_columns, map_group_type, schema_tree, FlatElement};
use hfs::schema::{FieldType, SchemaSource};
use parquet::data_type::{ByteArray, ByteArrayType, Int32Type};
use parquet::file::metadata::KeyValue;
use parquet::file::properties::WriterProperties;
use parquet::file::writer::SerializedFileWriter;
use parquet::schema::parser::parse_message_type;

fn render_f32(bits: u32) -> String {
    format!("{:.6}", f32::from_bits(bits))
}

fn render_f64(bits: u64) -> String {
    format!("{:.6}", f64::from_bits(bits))
}

/// A Parquet file with two row groups of three rows each.
fn sample_file() -> Vec<u8> {
    let schema = Arc::new(
        parse_message_type(
            "message spark_schema {
                required int32 id;
                optional binary name (UTF8);
                optional group tags (LIST) {
                    repeated group list {
                        optional binary element (UTF8);
                    }
                }
            }",
        )
        .unwrap(),
    );
    let props = Arc::new(
        WriterProperties::builder()
            .set_created_by("hfs-test".to_string())
            .set_key_value_metadata(Some(vec![
                KeyValue::new("writer".to_string(), "tests".to_string()),
                KeyValue { key: "no-value".to_string(), value: None },
            ]))
            .build(),
    );
    let mut buf: Vec<u8> = Vec::new();
    {
        let mut w = SerializedFileWriter::new(&mut buf, schema, props).unwrap();
        for base in [0, 10] {
            let mut rg = w.next_row_group().unwrap();
            let mut col = rg.next_column().unwrap().unwrap();
            col.typed::<Int32Type>()
                .write_batch(&[base + 1, base + 2, base + 3], None, None)
                .unwrap();
            col.close().unwrap();
            let mut col = rg.next_column().unwrap().unwrap();
            col.typed::<ByteArrayType>()
                .write_batch(&[ByteArray::from("a"), ByteArray::from("b")], Some(&[1, 0, 1]), None)
                .unwrap();
            col.close().unwrap();
            let mut col = rg.next_column().unwrap().unwrap();
            col.typed::<ByteArrayType>()
                .write_batch(&[ByteArray::from("x")], Some(&[3, 0, 0]), Some(&[0, 0, 0]))
                .unwrap();
            col.close().unwrap();
            rg.close().unwrap();
        }
        w.close().unwrap();
    }
    buf
}

fn inspect(data: &[u8], path: &str) -> Result<ParquetMeta, String> {
    let size = data.len() as u64;
    let tail_at = ParquetInspector::tail_offset(size)?;
    let tail = &data[tail_at as usize..];
    let (offset, len) = ParquetInspector::footer_range(tail, size)?;
    let footer = &data[offset as usize..(offset + len) as usize];
    parse_footer(footer, path, &render_f32, &render_f64)
}

#[test]
fn footer_of_a_written_file() {
    let data = sample_file();
    let meta = inspect(&data, "/data/t.parquet").expect("inspect");
    assert_eq!(meta.row_group_count, 2);
    assert_eq!(meta.row_count, 6);
    assert_eq!(meta.created_by.as_deref(), Some("hfs-test"));
    assert_eq!(meta.key_value_metadata.get("writer").map(String::as_str), Some("tests"));
    assert!(!meta.key_value_metadata.contains_key("no-value"));
    let f = &meta.schema.fields;
    assert_eq!(f.len(), 3);
    assert_eq!(f[0].name, "id");
    assert!(matches!(f[0].field_type, FieldType::Int32));
    assert!(!f[0].nullable);
    assert_eq!(f[1].name, "name");
    assert!(matches!(f[1].field_type, FieldType::Utf8));
    assert!(f[1].nullable);
    assert_eq!(f[2].name, "tags");
    assert!(matches!(&f[2].field_type, FieldType::List(e) if matches!(**e, FieldType::Utf8)));
    assert!(matches!(
        &meta.schema.source,
        SchemaSource::Parquet { path, row_groups: 2, row_count: 6 } if path == "/data/t.parquet"
    ));
    let s = &meta.column_stats;
    assert_eq!(s.len(), 3);
    assert_eq!(s[0].name, "id");
    assert_eq!(s[0].null_count, Some(0));
    assert_eq!(s[0].min_value.as_deref(), Some("1"));
    assert_eq!(s[0].max_value.as_deref(), Some("3"));
    assert_eq!(s[1].name, "name");
    assert_eq!(s[1].null_count, Some(2));
    assert_eq!(s[1].min_value.as_deref(), Some("a"));
    assert_eq!(s[1].max_value.as_deref(), Some("b"));
    assert_eq!(s[2].name, "tags.list.element");
    assert!(matches!(s[2].field_type, FieldType::Utf8));
}

#[test]
fn garbage_footer_fails_to_decode() {
    let r = parse_footer(&[0xff, 0xff, 0xff, 0xff], "/x", &render_f32, &render_f64);
    assert!(matches!(r, Err(m) if m.starts_with("Failed to decode Parquet footer: ")));
}

#[test]
fn test_inspect_rejects_too_small_file() {
    let data = vec![0u8; 4];
    let err = inspect(&data, "/test.parquet").unwrap_err();
    assert!(err.contains("too small"));
    assert_eq!(err, "File too small to be a valid Parquet file: 4 bytes");
}

#[test]
fn test_inspect_rejects_wrong_magic() {
    let mut data = vec![0u8; 12];
    data[4..8].copy_from_slice(&4u32.to_le_bytes());
    data[8..12].copy_from_slice(b"NOPE");
    let err = inspect(&data, "/test.parquet").unwrap_err();
    assert!(err.contains("magic"));
}

#[test]
fn footer_length_beyond_the_file_is_refused() {
    let mut data = vec![0u8; 12];
    data[4..8].copy_from_slice(&5u32.to_le_bytes());
    data[8..12].copy_from_slice(b"PAR1");
    assert_eq!(inspect(&data, "/t").unwrap_err(), "Invalid Parquet footer length: 5");
    data[4..8].copy_from_slice(&0u32.to_le_bytes());
    assert_eq!(inspect(&data, "/t").unwrap_err(), "Invalid Parquet footer length: 0");
}

#[test]
fn footer_sits_right_before_the_tail() {
    let mut tail = 100u32.to_le_bytes().to_vec();
    tail.extend_from_slice(b"PAR1");
    assert_eq!(ParquetInspector::footer_range(&tail, 1000), Ok((892, 100)));
    assert_eq!(ParquetInspector::tail_offset(1000), Ok(992));
}

#[test]
fn short_tail_read_is_an_error() {
    let msg = "Not a Parquet file: magic bytes mismatch (expected PAR1)".to_string();
    assert_eq!(ParquetInspector::footer_range(b"PAR1", 1000), Err(msg.clone()));
    assert_eq!(ParquetInspector::footer_range(&[], 1000), Err(msg));
}

fn element(name: &str, physical: Option<PhysicalType>, logical: Option<LogicalType>, children: Option<i32>) -> FlatElement {
    FlatElement {
        name: name.to_string(),
        physical,
        repetition: Some(Repetition::OPTIONAL),
        converted: ConvertedType::NONE,
        logical,
        num_children: children,
    }
}

#[test]
fn map_groups_and_structs() {
    let es = vec![
        element("root", None, None, Some(3)),
        element("m", None, Some(LogicalType::MapOf), Some(1)),
        element("key_value", None, None, Some(2)),
        element("key", Some(PhysicalType::BYTE_ARRAY), Some(LogicalType::String), None),
        element("value", Some(PhysicalType::INT64), None, None),
        element("s", None, None, Some(2)),
        element("a", Some(PhysicalType::BOOLEAN), None, None),
        element("b", Some(PhysicalType::DOUBLE), None, None),
        element("e", None, Some(LogicalType::MapOf), Some(0)),
    ];
    let tree = schema_tree(&es);
    assert_eq!(tree.len(), 3);
    let fields = fields_of_schema_nodes(&tree);
    assert!(matches!(&fields[0].field_type,
        FieldType::MapOf { key, value } if matches!(**key, FieldType::Utf8) && matches!(**value, FieldType::Int64)));
    assert!(matches!(&fields[1].field_type,
        FieldType::Struct(fs) if fs.len() == 2 && fs[0].name == "a" && matches!(fs[1].field_type, FieldType::Float64)));
    assert!(matches!(&fields[2].field_type,
        FieldType::MapOf { key, value } if matches!(&**key, FieldType::Unknown(k) if k == "key")
            && matches!(&**value, FieldType::Unknown(v) if v == "value")));
    let leaves = leaf_columns(&tree);
    let paths: Vec<&str> = leaves.iter().map(|l| l.path.as_str()).collect();
    assert_eq!(paths, vec!["m.key_value.key", "m.key_value.value", "s.a", "s.b"]);
}

#[test]
fn lists_with_a_primitive_repeated_field_or_no_element() {
    let es = vec![
        element("root", None, None, Some(2)),
        element("l1", None, Some(LogicalType::List), Some(1)),
        element("item", Some(PhysicalType::INT32), None, None),
        element("l2", None, Some(LogicalType::List), Some(0)),
    ];
    let tree = schema_tree(&es);
    assert!(matches!(map_group_type(&tree[0].children, Some(LogicalType::List)),
        FieldType::List(e) if matches!(*e, FieldType::Int32)));
    assert!(matches!(map_group_type(&tree[1].children, Some(LogicalType::List)),
        FieldType::List(e) if matches!(&*e, FieldType::Unknown(n) if n == "element")));
}

#[test]
fn truncated_element_list_gives_no_fields() {
    let es = vec![element("root", None, None, Some(2)), element("only", Some(PhysicalType::INT32), None, None)];
    assert!(schema_tree(&es).is_empty());
    assert!(schema_tree(&Vec::new()).is_empty());
}

fn chunk(physical: PhysicalType, nulls: u64, distinct: Option<u64>, min: Option<Vec<u8>>, max: Option<Vec<u8>>) -> Option<ChunkStat> {
    Some(ChunkStat { physical, null_count: nulls, distinct_count: distinct, min, max })
}

#[test]
fn statistics_aggregate_over_row_groups() {
    let es = vec![
        element("root", None, None, Some(2)),
        element("n", Some(PhysicalType::INT64), None, None),
        element("f", Some(PhysicalType::FIXED_LEN_BYTE_ARRAY), None, None),
    ];
    let leaves = leaf_columns(&schema_tree(&es));
    let rgs = vec![
        vec![chunk(PhysicalType::INT64, 2, Some(5), None, None), chunk(PhysicalType::FIXED_LEN_BYTE_ARRAY, 0, None, Some(vec![1]), Some(vec![2]))],
        vec![chunk(PhysicalType::INT64, 3, Some(9), Some((-7i64).to_le_bytes().to_vec()), Some(42i64.to_le_bytes().to_vec())), None],
        vec![chunk(PhysicalType::INT64, u64::MAX, Some(4), Some(vec![0; 8]), Some(vec![0; 8])), chunk(PhysicalType::FIXED_LEN_BYTE_ARRAY, 1, None, None, None), chunk(PhysicalType::INT64, 100, None, None, None)],
    ];
    let stats = build_column_stats(&leaves, &rgs, &render_f32, &render_f64);
    assert_eq!(stats.len(), 2);
    assert_eq!(stats[0].null_count, Some(4));
    assert_eq!(stats[0].distinct_count, Some(9));
    assert_eq!(stats[0].min_value.as_deref(), Some("-7"));
    assert_eq!(stats[0].max_value.as_deref(), Some("42"));
    assert_eq!(stats[1].null_count, Some(1));
    assert_eq!(stats[1].distinct_count, None);
    assert_eq!(stats[1].min_value, None);
    assert_eq!(stats[1].max_value, None);
}

#[test]
fn statistics_bytes_by_physical_type() {
    let t = |b: &[u8], p| format_stat_bytes(b, p, &render_f32, &render_f64);
    assert_eq!(t(&[1], PhysicalType::BOOLEAN).as_deref(), Some("true"));
    assert_eq!(t(&[], PhysicalType::BOOLEAN).as_deref(), Some("false"));
    assert_eq!(t(&(-123i32).to_le_bytes(), PhysicalType::INT32).as_deref(), Some("-123"));
    assert_eq!(t(&[1, 2, 3], PhysicalType::INT32), None);
    assert_eq!(t(&i64::MIN.to_le_bytes(), PhysicalType::INT64).as_deref(), Some("-9223372036854775808"));
    assert_eq!(t(&1.5f32.to_le_bytes(), PhysicalType::FLOAT).as_deref(), Some("1.500000"));
    assert_eq!(t(&2.25f64.to_le_bytes(), PhysicalType::DOUBLE).as_deref(), Some("2.250000"));
    assert_eq!(t(b"hello", PhysicalType::BYTE_ARRAY).as_deref(), Some("hello"));
    assert_eq!(t(&[0xff, 0x00], PhysicalType::BYTE_ARRAY).as_deref(), Some("0xff00"));
    assert_eq!(t(&[0; 12], PhysicalType::INT96), None);
}

#[test]
fn timestamps_decimals_and_legacy_annotations() {
    assert!(matches!(map_primitive_type(PhysicalType::INT64, Some(LogicalType::Timestamp { is_adjusted_to_u_t_c: true }), ConvertedType::NONE),
        FieldType::Timestamp { timezone: Some(z) } if z == "UTC"));
    assert!(matches!(map_primitive_type(PhysicalType::INT64, None, ConvertedType::TIMESTAMP_MICROS),
        FieldType::Timestamp { timezone: None }));
    assert!(matches!(map_primitive_type(PhysicalType::FIXED_LEN_BYTE_ARRAY, Some(LogicalType::Decimal { scale: 2, precision: 10 }), ConvertedType::DECIMAL),
        FieldType::Decimal { precision: 10, scale: 2 }));
    assert!(matches!(map_primitive_type(PhysicalType::INT32, None, ConvertedType::DECIMAL),
        FieldType::Decimal { precision: 0, scale: 0 }));
    assert!(matches!(map_primitive_type(PhysicalType::INT96, None, ConvertedType::NONE), FieldType::Timestamp { timezone: None }));
    assert!(matches!(map_primitive_type(PhysicalType::FIXED_LEN_BYTE_ARRAY, Some(LogicalType::Uuid), ConvertedType::NONE), FieldType::Utf8));
    assert!(matches!(map_primitive_type(PhysicalType::BYTE_ARRAY, None, ConvertedType::ENUM), FieldType::Utf8));
    assert!(matches!(map_primitive_type(PhysicalType::INT32, Some(LogicalType::Integer { bit_width: 16, is_signed: false }), ConvertedType::NONE), FieldType::Int16));
}

/// FileMetaData with version 1, a root group `r` holding one optional INT32
/// column `a`, no rows, no row groups, then `orders` column orders.
fn hand_footer(orders: u8) -> Vec<u8> {
    let mut b = vec![0x15, 0x02, 0x19, 0x2C];
    b.extend_from_slice(&[0x48, 0x01, b'r', 0x15, 0x02, 0x00]);
    b.extend_from_slice(&[0x15, 0x02, 0x25, 0x02, 0x18, 0x01, b'a', 0x00]);
    b.extend_from_slice(&[0x16, 0x00, 0x19, 0x0C]);
    if orders > 0 {
        b.push(0x39);
        b.push((orders << 4) | 0x0C);
        for _ in 0..orders {
            b.extend_from_slice(&[0x1C, 0x00, 0x00]);
        }
    }
    b.push(0x00);
    b
}

#[test]
fn footer_check_accepts_a_well_formed_footer() {
    let b = hand_footer(1);
    assert!(check_footer(&b));
    let meta = parse_footer(&b, "/h.parquet", &render_f32, &render_f64).expect("decodes");
    assert_eq!(meta.schema.fields.len(), 1);
    assert_eq!(meta.row_group_count, 0);
}

#[test]
fn footer_check_refuses_what_the_decoder_would_panic_on() {
    let refused = "Failed to decode Parquet footer: malformed or unsupported metadata".to_string();
    // two column orders for one leaf column
    let b = hand_footer(2);
    assert!(!check_footer(&b));
    assert_eq!(parse_footer(&b, "/h", &render_f32, &render_f64).unwrap_err(), refused);
    // a root schema element that is a primitive column
    let root_leaf = vec![0x15, 0x02, 0x19, 0x1C, 0x15, 0x02, 0x25, 0x00, 0x18, 0x01, b'a', 0x00, 0x16, 0x00, 0x19, 0x0C, 0x00];
    assert!(!check_footer(&root_leaf));
    assert_eq!(parse_footer(&root_leaf, "/h", &render_f32, &render_f64).unwrap_err(), refused);
    // a schema list whose length reads as negative
    let negative = vec![0x15, 0x02, 0x19, 0xFC, 0xFF, 0xFF, 0xFF, 0xFF, 0x0F, 0x00];
    assert!(!check_footer(&negative));
    assert_eq!(parse_footer(&negative, "/h", &render_f32, &render_f64).unwrap_err(), refused);
}

#[test]
fn written_files_pass_the_footer_check() {
    let data = sample_file();
    let size = data.len();
    let len = u32::from_le_bytes(data[size - 8..size - 4].try_into().unwrap()) as usize;
    assert!(check_footer(&data[size - 8 - len..size - 8]));
}
