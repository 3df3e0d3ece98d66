//! Parquet schema and statistics from the file footer alone.
//!
//! A Parquet file ends with its footer:
//! `[ROW_GROUP_0]...[FOOTER_BYTES][4-byte footer_len][b"PAR1"]`, so reading
//! the schema takes the last 8 bytes and then the footer itself.
use vstd::prelude::*;
use crate::footer_check::{check_footer, footer_checked};
use crate::props::StringMap;
use crate::parquet_stats::{
    ChunkStat, ChunkStatView, ColumnStats, build_column_stats, chunk_view, column_stats_rel, row_groups_view,
};
use crate::parquet_tree::{
    FlatElement, FlatElementView, elements_view, fields_of_nodes, fields_of_schema_nodes, leaf_columns,
    leaves_of_nodes, leaves_view, schema_roots, schema_tree,
};
use crate::schema::{FieldType, FieldTypeView, Schema, SchemaSource, fields_view, ft_view};
use crate::parquet_footer::{
    created_by, decode_footer, flatten_schema, footer_created_by, footer_decode_error, footer_elements,
    footer_pairs, footer_row_counts, footer_row_group_stats, key_values, read_chunk_stats, read_schema,
    row_group_rows,
};
use crate::text::{
    concat2, concat3, copy_str, decimal_digits, i64_to_decimal, opt_view, signed_decimal, u64_to_decimal,
};

verus! {

// ─── Parquet's type vocabulary ──────────────────────────────────────────────

/// Physical (storage) type of a Parquet column.
#[allow(non_camel_case_types)]
#[derive(Debug, Clone, Copy, PartialEq, Eq, Structural)]
pub enum PhysicalType {
    BOOLEAN,
    INT32,
    INT64,
    INT96,
    FLOAT,
    DOUBLE,
    BYTE_ARRAY,
    FIXED_LEN_BYTE_ARRAY,
}

/// Legacy annotation of a Parquet column.
#[allow(non_camel_case_types)]
#[derive(Debug, Clone, Copy, PartialEq, Eq, Structural)]
pub enum ConvertedType {
    NONE,
    UTF8,
    MAP,
    MAP_KEY_VALUE,
    LIST,
    ENUM,
    DECIMAL,
    DATE,
    TIME_MILLIS,
    TIME_MICROS,
    TIMESTAMP_MILLIS,
    TIMESTAMP_MICROS,
    UINT_8,
    UINT_16,
    UINT_32,
    UINT_64,
    INT_8,
    INT_16,
    INT_32,
    INT_64,
    JSON,
    BSON,
    INTERVAL,
}

/// Logical annotation of a Parquet column or group (the unit of time of
/// `Time` and `Timestamp` is not kept: nothing here reads it).
#[derive(Debug, Clone, Copy, PartialEq, Eq, Structural)]
pub enum LogicalType {
    String,
    /// A map group (Parquet's `MAP` annotation).
    MapOf,
    List,
    Enum,
    Decimal { scale: i32, precision: i32 },
    Date,
    Time { is_adjusted_to_u_t_c: bool },
    Timestamp { is_adjusted_to_u_t_c: bool },
    Integer { bit_width: i8, is_signed: bool },
    Unknown,
    Json,
    Bson,
    Uuid,
    Float16,
}

/// Repetition of a Parquet field.
#[allow(non_camel_case_types)]
#[derive(Debug, Clone, Copy, PartialEq, Eq, Structural)]
pub enum Repetition {
    REQUIRED,
    OPTIONAL,
    REPEATED,
}

// ─── Type mapping ───────────────────────────────────────────────────────────

pub open spec fn decimal_view(precision: i32, scale: i32) -> FieldTypeView {
    FieldTypeView::Decimal { precision: precision as u8, scale: scale as i8 }
}

/// The field type of a primitive column: the logical annotation decides
/// first, then the legacy converted type, then the physical type.
pub open spec fn primitive_type_spec(
    physical: PhysicalType,
    logical: Option<LogicalType>,
    converted: ConvertedType,
) -> FieldTypeView {
    match physical {
        PhysicalType::BOOLEAN => FieldTypeView::Boolean,
        PhysicalType::INT32 => match logical {
            Some(LogicalType::Integer { bit_width, .. }) if bit_width == 8 => FieldTypeView::Int8,
            Some(LogicalType::Integer { bit_width, .. }) if bit_width == 16 => FieldTypeView::Int16,
            Some(LogicalType::Date) => FieldTypeView::Date32,
            Some(LogicalType::Decimal { precision, scale }) => decimal_view(precision, scale),
            _ => if converted == ConvertedType::DATE {
                FieldTypeView::Date32
            } else if converted == ConvertedType::DECIMAL {
                FieldTypeView::Decimal { precision: 0, scale: 0 }
            } else {
                FieldTypeView::Int32
            },
        },
        PhysicalType::INT64 => match logical {
            Some(LogicalType::Timestamp { is_adjusted_to_u_t_c, .. }) => FieldTypeView::Timestamp {
                timezone: if is_adjusted_to_u_t_c { Some("UTC"@) } else { None },
            },
            Some(LogicalType::Decimal { precision, scale }) => decimal_view(precision, scale),
            _ => if converted == ConvertedType::TIMESTAMP_MILLIS || converted
                == ConvertedType::TIMESTAMP_MICROS {
                FieldTypeView::Timestamp { timezone: None }
            } else {
                FieldTypeView::Int64
            },
        },
        PhysicalType::INT96 => FieldTypeView::Timestamp { timezone: None },
        PhysicalType::FLOAT => FieldTypeView::Float32,
        PhysicalType::DOUBLE => FieldTypeView::Float64,
        PhysicalType::BYTE_ARRAY => match logical {
            Some(LogicalType::String) => FieldTypeView::Utf8,
            Some(LogicalType::Json) => FieldTypeView::Utf8,
            Some(LogicalType::Decimal { precision, scale }) => decimal_view(precision, scale),
            _ => if converted == ConvertedType::UTF8 || converted == ConvertedType::ENUM
                || converted == ConvertedType::JSON {
                FieldTypeView::Utf8
            } else {
                FieldTypeView::Binary
            },
        },
        PhysicalType::FIXED_LEN_BYTE_ARRAY => match logical {
            Some(LogicalType::Decimal { precision, scale }) => decimal_view(precision, scale),
            Some(LogicalType::Uuid) => FieldTypeView::Utf8,
            _ => if converted == ConvertedType::DECIMAL {
                FieldTypeView::Decimal { precision: 0, scale: 0 }
            } else {
                FieldTypeView::Binary
            },
        },
    }
}

/// The field type of a primitive Parquet column.
pub fn map_primitive_type(
    physical: PhysicalType,
    logical: Option<LogicalType>,
    converted: ConvertedType,
) -> (t: FieldType)
    ensures
        ft_view(t) == primitive_type_spec(physical, logical, converted),
{
    match physical {
        PhysicalType::BOOLEAN => FieldType::Boolean,
        PhysicalType::INT32 => match logical {
            Some(LogicalType::Integer { bit_width: 8, .. }) => FieldType::Int8,
            Some(LogicalType::Integer { bit_width: 16, .. }) => FieldType::Int16,
            Some(LogicalType::Date) => FieldType::Date32,
            Some(LogicalType::Decimal { precision, scale }) => FieldType::Decimal {
                precision: precision as u8,
                scale: scale as i8,
            },
            _ => if converted == ConvertedType::DATE {
                FieldType::Date32
            } else if converted == ConvertedType::DECIMAL {
                FieldType::Decimal { precision: 0, scale: 0 }
            } else {
                FieldType::Int32
            },
        },
        PhysicalType::INT64 => match logical {
            Some(LogicalType::Timestamp { is_adjusted_to_u_t_c, .. }) => FieldType::Timestamp {
                timezone: if is_adjusted_to_u_t_c { Some(copy_str("UTC")) } else { None },
            },
            Some(LogicalType::Decimal { precision, scale }) => FieldType::Decimal {
                precision: precision as u8,
                scale: scale as i8,
            },
            _ => if converted == ConvertedType::TIMESTAMP_MILLIS || converted
                == ConvertedType::TIMESTAMP_MICROS {
                FieldType::Timestamp { timezone: None }
            } else {
                FieldType::Int64
            },
        },
        PhysicalType::INT96 => FieldType::Timestamp { timezone: None },
        PhysicalType::FLOAT => FieldType::Float32,
        PhysicalType::DOUBLE => FieldType::Float64,
        PhysicalType::BYTE_ARRAY => match logical {
            Some(LogicalType::String) | Some(LogicalType::Json) => FieldType::Utf8,
            Some(LogicalType::Decimal { precision, scale }) => FieldType::Decimal {
                precision: precision as u8,
                scale: scale as i8,
            },
            _ => if converted == ConvertedType::UTF8 || converted == ConvertedType::ENUM
                || converted == ConvertedType::JSON {
                FieldType::Utf8
            } else {
                FieldType::Binary
            },
        },
        PhysicalType::FIXED_LEN_BYTE_ARRAY => match logical {
            Some(LogicalType::Decimal { precision, scale }) => FieldType::Decimal {
                precision: precision as u8,
                scale: scale as i8,
            },
            Some(LogicalType::Uuid) => FieldType::Utf8,
            _ => if converted == ConvertedType::DECIMAL {
                FieldType::Decimal { precision: 0, scale: 0 }
            } else {
                FieldType::Binary
            },
        },
    }
}

// ─── Statistics rendering ───────────────────────────────────────────────────

pub open spec fn hex_digit(n: u8) -> char {
    if n < 10 {
        (n + 48) as char
    } else {
        (n + 87) as char
    }
}

/// Lower-case hexadecimal, two digits per byte.
pub open spec fn hex_spec(b: Seq<u8>) -> Seq<char>
    decreases b.len(),
{
    if b.len() == 0 {
        Seq::empty()
    } else {
        hex_spec(b.drop_last()) + seq![hex_digit(b.last() / 16), hex_digit(b.last() % 16)]
    }
}

/// Lower-case hexadecimal encoding of `bytes`.
pub fn hex_encode(bytes: &[u8]) -> (s: String)
    ensures
        s@ == hex_spec(bytes@),
{
    let mut out: Vec<char> = Vec::new();
    let mut i: usize = 0;
    while i < bytes.len()
        invariant
            i <= bytes.len(),
            out@ == hex_spec(bytes@.take(i as int)),
        decreases bytes.len() - i,
    {
        let b = bytes[i];
        let hi = b / 16;
        let lo = b % 16;
        let ch = if hi < 10 { (hi + 48) as char } else { (hi + 87) as char };
        let cl = if lo < 10 { (lo + 48) as char } else { (lo + 87) as char };
        out.push(ch);
        out.push(cl);
        proof {
            assert(bytes@.take(i + 1).drop_last() =~= bytes@.take(i as int));
            assert(out@ =~= hex_spec(bytes@.take(i as int)) + seq![hex_digit(hi), hex_digit(lo)]);
        }
        i += 1;
    }
    assert(bytes@.take(bytes.len() as int) =~= bytes@);
    crate::text::chars_to_string(out)
}

/// The unsigned number that 4 little-endian bytes encode.
pub open spec fn le4(b: Seq<u8>) -> nat {
    (b[0] + 256 * b[1] + 65536 * b[2] + 16777216 * b[3]) as nat
}

/// The unsigned number that 8 little-endian bytes encode.
pub open spec fn le8(b: Seq<u8>) -> nat {
    (le4(b) + 4294967296 * le4(b.skip(4))) as nat
}

/// Two's complement reading of an `n`-bit unsigned number.
pub open spec fn twos_complement(x: nat, bits: nat) -> int {
    if x >= vstd::arithmetic::power2::pow2((bits - 1) as nat) {
        x - vstd::arithmetic::power2::pow2(bits)
    } else {
        x as int
    }
}

/// How a statistic of a non-floating-point column reads: booleans as
/// `true`/`false`, 4- and 8-byte integers in decimal, byte arrays as their
/// UTF-8 text or else `0x` and their hexadecimal; `None` for other types and
/// integers of the wrong width.
pub open spec fn stat_text_spec(bytes: Seq<u8>, physical: PhysicalType) -> Option<Seq<char>> {
    match physical {
        PhysicalType::BOOLEAN => Some(
            if bytes.len() > 0 && bytes[0] != 0 { "true"@ } else { "false"@ },
        ),
        PhysicalType::INT32 => if bytes.len() == 4 {
            Some(signed_decimal(twos_complement(le4(bytes), 32)))
        } else {
            None
        },
        PhysicalType::INT64 => if bytes.len() == 8 {
            Some(signed_decimal(twos_complement(le8(bytes), 64)))
        } else {
            None
        },
        PhysicalType::BYTE_ARRAY => if vstd::utf8::valid_utf8(bytes) {
            Some(vstd::utf8::decode_utf8(bytes))
        } else {
            Some("0x"@ + hex_spec(bytes))
        },
        _ => None,
    }
}

fn le4_exec(b: &[u8], at: usize) -> (r: u64)
    requires
        at + 4 <= b@.len(),
    ensures
        r == le4(b@.skip(at as int)),
{
    let v = (b[at] as u64) + 256 * (b[at + 1] as u64) + 65536 * (b[at + 2] as u64) + 16777216 * (
    b[at + 3] as u64);
    v
}

/// Whether `format_stat_bytes` gives a text for a statistic: for floating
/// point where the width is right, otherwise where `stat_text_spec` does.
pub open spec fn stat_text_given(bytes: Seq<u8>, physical: PhysicalType) -> bool {
    match physical {
        PhysicalType::FLOAT => bytes.len() == 4,
        PhysicalType::DOUBLE => bytes.len() == 8,
        _ => stat_text_spec(bytes, physical) is Some,
    }
}

/// What `format_stat_bytes` gives for `bytes` of type `physical`: a float is
/// whatever the renderer makes of its bit pattern.
pub open spec fn stat_text_rel<F: Fn(u32) -> String, D: Fn(u64) -> String>(
    r: Option<String>,
    bytes: Seq<u8>,
    physical: PhysicalType,
    render_f32: F,
    render_f64: D,
) -> bool {
    if physical == PhysicalType::FLOAT {
        if bytes.len() == 4 {
            r matches Some(s) && call_ensures(render_f32, (le4(bytes) as u32,), s)
        } else {
            r is None
        }
    } else if physical == PhysicalType::DOUBLE {
        if bytes.len() == 8 {
            r matches Some(s) && call_ensures(render_f64, (le8(bytes) as u64,), s)
        } else {
            r is None
        }
    } else {
        match r {
            Some(s) => stat_text_spec(bytes, physical) == Some(s@),
            None => stat_text_spec(bytes, physical) is None,
        }
    }
}

pub proof fn lemma_stat_text_given<F: Fn(u32) -> String, D: Fn(u64) -> String>(
    r: Option<String>,
    bytes: Seq<u8>,
    physical: PhysicalType,
    render_f32: F,
    render_f64: D,
)
    requires
        stat_text_rel(r, bytes, physical, render_f32, render_f64),
    ensures
        r is Some <==> stat_text_given(bytes, physical),
{
}

/// Interpret the raw bytes of a min/max statistic of a column of physical type
/// `physical`. Floating-point values are rendered by `render_f32` and
/// `render_f64`, which receive the bit pattern of the number.
pub fn format_stat_bytes<F, D>(bytes: &[u8], physical: PhysicalType, render_f32: &F, render_f64: &D) -> (r:
    Option<String>) where F: Fn(u32) -> String, D: Fn(u64) -> String
    requires
        forall|x: u32| call_requires(*render_f32, (x,)),
        forall|x: u64| call_requires(*render_f64, (x,)),
    ensures
        stat_text_rel(r, bytes@, physical, *render_f32, *render_f64),
{
    proof {
        vstd::arithmetic::power2::lemma2_to64();
        vstd::arithmetic::power2::lemma2_to64_rest();
        assert(bytes@.skip(0) =~= bytes@);
    }
    match physical {
        PhysicalType::BOOLEAN => {
            if bytes.len() > 0 && bytes[0] != 0 {
                Some(copy_str("true"))
            } else {
                Some(copy_str("false"))
            }
        },
        PhysicalType::INT32 => {
            if bytes.len() != 4 {
                return None;
            }
            let x = le4_exec(bytes, 0);
            let v: i64 = if x >= 2147483648 { x as i64 - 4294967296 } else { x as i64 };
            Some(i64_to_decimal(v))
        },
        PhysicalType::INT64 => {
            if bytes.len() != 8 {
                return None;
            }
            let lo = le4_exec(bytes, 0);
            let hi = le4_exec(bytes, 4);
            let x: u128 = (lo as u128) + 4294967296 * (hi as u128);
            let v: i64 = if x >= 9223372036854775808 {
                (x as i128 - 18446744073709551616) as i64
            } else {
                x as i64
            };
            Some(i64_to_decimal(v))
        },
        PhysicalType::FLOAT => {
            if bytes.len() != 4 {
                return None;
            }
            let x = le4_exec(bytes, 0);
            Some(render_f32(x as u32))
        },
        PhysicalType::DOUBLE => {
            if bytes.len() != 8 {
                return None;
            }
            let lo = le4_exec(bytes, 0);
            let hi = le4_exec(bytes, 4);
            let x: u128 = (lo as u128) + 4294967296 * (hi as u128);
            Some(render_f64(x as u64))
        },
        PhysicalType::BYTE_ARRAY => match crate::text::utf8_text(bytes) {
            Some(s) => Some(s),
            None => {
                let hex = hex_encode(bytes);
                Some(concat2("0x", hex.as_str()))
            },
        },
        _ => None,
    }
}

// ─── Assembling the metadata ────────────────────────────────────────────────

/// All metadata extracted from the footer, without reading any data blocks.
#[derive(Debug)]
pub struct ParquetMeta {
    pub schema: Schema,
    pub row_group_count: usize,
    pub row_count: u64,
    pub column_stats: Vec<ColumnStats>,
    pub created_by: Option<String>,
    pub key_value_metadata: StringMap,
}

/// The row counts of all row groups, each taken as `u64`, summed (wrapping).
pub open spec fn rows_total(rows: Seq<i64>) -> u64
    decreases rows.len(),
{
    if rows.len() == 0 {
        0
    } else {
        rows_total(rows.drop_last()).wrapping_add(rows.last() as u64)
    }
}

/// The key/value pairs that have a value, a later key replacing an earlier.
pub open spec fn kv_map(kvs: Seq<(Seq<char>, Option<Seq<char>>)>) -> Map<Seq<char>, Seq<char>>
    decreases kvs.len(),
{
    if kvs.len() == 0 {
        Map::empty()
    } else {
        match kvs.last().1 {
            Some(v) => kv_map(kvs.drop_last()).insert(kvs.last().0, v),
            None => kv_map(kvs.drop_last()),
        }
    }
}

pub open spec fn kvs_view(s: Seq<(String, Option<String>)>) -> Seq<(Seq<char>, Option<Seq<char>>)> {
    s.map_values(|p: (String, Option<String>)| (p.0@, opt_view(p.1)))
}

/// What the metadata of a footer is, from the parts the footer holds: its
/// schema elements depth-first, the row counts of its row groups, its writer,
/// its key/value pairs and the statistics of each column chunk.
pub open spec fn parquet_meta_rel<F: Fn(u32) -> String, D: Fn(u64) -> String>(
    m: ParquetMeta,
    elements: Seq<FlatElementView>,
    rows: Seq<i64>,
    created_by: Option<Seq<char>>,
    kvs: Seq<(Seq<char>, Option<Seq<char>>)>,
    rgs: Seq<Seq<Option<ChunkStatView>>>,
    path: Seq<char>,
    render_f32: F,
    render_f64: D,
) -> bool {
    let leaves = leaves_of_nodes(schema_roots(elements), None);
    &&& fields_view(m.schema.fields@) == fields_of_nodes(schema_roots(elements))
    &&& crate::schema::source_view(m.schema.source) == crate::schema::SourceView::Parquet {
        path,
        row_groups: rows.len() as usize,
        row_count: rows_total(rows),
    }
    &&& m.row_group_count == rows.len()
    &&& m.row_count == rows_total(rows)
    &&& opt_view(m.created_by) == created_by
    &&& m.key_value_metadata@ == kv_map(kvs)
    &&& m.column_stats@.len() == leaves.len()
    &&& forall|c: int|
        0 <= c < leaves.len() ==> column_stats_rel(
            #[trigger] m.column_stats@[c],
            leaves[c],
            rgs,
            c,
            render_f32,
            render_f64,
        )
}

/// The metadata of a footer from its parts: the schema tree and its fields,
/// the row count summed over the row groups, the key/value pairs that have a
/// value, and the statistics of each leaf column.
pub fn assemble_footer<F, D>(
    elements: &Vec<FlatElement>,
    row_counts: &Vec<i64>,
    created_by: Option<String>,
    key_values: &Vec<(String, Option<String>)>,
    row_group_stats: &Vec<Vec<Option<ChunkStat>>>,
    path: &str,
    render_f32: &F,
    render_f64: &D,
) -> (m: ParquetMeta) where F: Fn(u32) -> String, D: Fn(u64) -> String
    requires
        row_counts@.len() <= usize::MAX,
        forall|x: u32| call_requires(*render_f32, (x,)),
        forall|x: u64| call_requires(*render_f64, (x,)),
    ensures
        parquet_meta_rel(
            m,
            elements_view(elements@),
            row_counts@,
            opt_view(created_by),
            kvs_view(key_values@),
            row_groups_view(row_group_stats@),
            path@,
            *render_f32,
            *render_f64,
        ),
{
    let tree = schema_tree(elements);
    let fields = fields_of_schema_nodes(&tree);
    let mut row_count: u64 = 0;
    let mut i: usize = 0;
    while i < row_counts.len()
        invariant
            i <= row_counts@.len(),
            row_count == rows_total(row_counts@.take(i as int)),
        decreases row_counts@.len() - i,
    {
        proof {
            assert(row_counts@.take(i + 1).drop_last() =~= row_counts@.take(i as int));
        }
        row_count = row_count.wrapping_add(row_counts[i] as u64);
        i += 1;
    }
    assert(row_counts@.take(row_counts@.len() as int) =~= row_counts@);
    let mut kv = StringMap::new();
    let mut j: usize = 0;
    while j < key_values.len()
        invariant
            j <= key_values@.len(),
            kv@ == kv_map(kvs_view(key_values@).take(j as int)),
        decreases key_values@.len() - j,
    {
        let pair = &key_values[j];
        proof {
            assert(kvs_view(key_values@).take(j + 1).drop_last() =~= kvs_view(key_values@).take(
                j as int,
            ));
        }
        match &pair.1 {
            Some(v) => {
                kv.insert(pair.0.clone(), v.clone());
            },
            None => {},
        }
        j += 1;
    }
    assert(kvs_view(key_values@).take(key_values@.len() as int) =~= kvs_view(key_values@));
    let leaves = leaf_columns(&tree);
    let column_stats = build_column_stats(&leaves, row_group_stats, render_f32, render_f64);
    let row_group_count = row_counts.len();
    let schema = Schema {
        fields,
        source: SchemaSource::Parquet { path: copy_str(path), row_groups: row_group_count, row_count },
    };
    proof {
        let lv = leaves_of_nodes(schema_roots(elements_view(elements@)), None);
        assert forall|c: int| 0 <= c < lv.len() implies leaves@[c]@ == lv[c] by {
            assert(leaves_view(leaves@)[c] == leaves@[c]@);
        }
    }
    ParquetMeta { schema, row_group_count, row_count, column_stats, created_by, key_value_metadata: kv }
}

/// The statistics of every row group of decoded footer bytes.
pub open spec fn footer_stats(bytes: Seq<u8>) -> Seq<Seq<Option<ChunkStatView>>> {
    Seq::new(footer_row_counts(bytes).len(), |g: int| footer_row_group_stats(bytes, g))
}

/// Why footer bytes are refused: the footer check refuses them, or the
/// decoder does, with its message.
pub open spec fn parse_footer_error(bytes: Seq<u8>) -> Option<Seq<char>> {
    if !footer_checked(bytes) {
        Some("Failed to decode Parquet footer: malformed or unsupported metadata"@)
    } else {
        match footer_decode_error(bytes) {
            Some(e) => Some("Failed to decode Parquet footer: "@ + e),
            None => None,
        }
    }
}

/// Decode a Thrift-encoded footer and read its metadata. Footer bytes that
/// the footer check (`footer_check`) refuses are refused before decoding;
/// the others fail, with the decoder's message, exactly where they do not
/// decode.
pub fn parse_footer<F, D>(footer_bytes: &[u8], path: &str, render_f32: &F, render_f64: &D) -> (r: Result<
    ParquetMeta,
    String,
>) where F: Fn(u32) -> String, D: Fn(u64) -> String
    requires
        forall|x: u32| call_requires(*render_f32, (x,)),
        forall|x: u64| call_requires(*render_f64, (x,)),
    ensures
        match r {
            Err(m) => parse_footer_error(footer_bytes@) == Some(m@),
            Ok(m) => parse_footer_error(footer_bytes@) is None && parquet_meta_rel(
                m,
                footer_elements(footer_bytes@),
                footer_row_counts(footer_bytes@),
                footer_created_by(footer_bytes@),
                footer_pairs(footer_bytes@),
                footer_stats(footer_bytes@),
                path@,
                *render_f32,
                *render_f64,
            ),
        },
{
    if !check_footer(footer_bytes) {
        return Err(copy_str("Failed to decode Parquet footer: malformed or unsupported metadata"));
    }
    let footer = match decode_footer(footer_bytes) {
        Ok(f) => f,
        Err(e) => {
            return Err(concat2("Failed to decode Parquet footer: ", e.as_str()));
        },
    };
    let flat = flatten_schema(&footer);
    let elements = read_schema(&flat);
    let rows = row_group_rows(&footer);
    let mut stats: Vec<Vec<Option<ChunkStat>>> = Vec::new();
    let mut g: usize = 0;
    while g < rows.len()
        invariant
            g <= rows@.len(),
            rows@ == footer_row_counts(footer@),
            footer@ == footer_bytes@,
            stats@.len() == g,
            forall|k: int| 0 <= k < g ==> (#[trigger] stats@[k])@.map_values(|o: Option<ChunkStat>| chunk_view(o))
                == footer_row_group_stats(footer_bytes@, k),
        decreases rows@.len() - g,
    {
        let s = read_chunk_stats(&footer, g);
        stats.push(s);
        g += 1;
    }
    let kvs = match key_values(&footer) {
        Some(v) => v,
        None => Vec::new(),
    };
    let writer = created_by(&footer);
    proof {
        assert(row_groups_view(stats@) =~= footer_stats(footer_bytes@));
        assert(kvs_view(kvs@) =~= footer_pairs(footer_bytes@));
    }
    let meta = assemble_footer(&elements, &rows, writer, &kvs, &stats, path, render_f32, render_f64);
    Ok(meta)
}

// ─── Reading the footer ─────────────────────────────────────────────────────

pub struct ParquetInspector;

/// Magic bytes that end every Parquet file.
pub open spec fn is_par1(b: Seq<u8>) -> bool {
    b.len() == 4 && b[0] == 80 && b[1] == 65 && b[2] == 82 && b[3] == 49
}

impl ParquetInspector {
    /// First step of reading a footer: a Parquet file has at least 12 bytes
    /// (magic, footer length, magic). Gives the offset of the last 8 bytes to read.
    pub fn tail_offset(file_size: u64) -> (r: Result<u64, String>)
        ensures
            file_size >= 12 ==> r == Ok::<u64, String>((file_size - 8) as u64),
            file_size < 12 ==> (r matches Err(m) && m@ == "File too small to be a valid Parquet file: "@
                + decimal_digits(file_size as nat) + " bytes"@),
    {
        if file_size < 12 {
            let n = u64_to_decimal(file_size);
            return Err(concat3("File too small to be a valid Parquet file: ", n.as_str(), " bytes"));
        }
        Ok(file_size - 8)
    }

    /// Second step: from the last 8 bytes (footer length, little-endian, then
    /// `PAR1`), the offset and length of the footer to read. A read that came
    /// back with fewer than 8 bytes holds no magic and is refused like a
    /// mismatch.
    pub fn footer_range(tail: &[u8], file_size: u64) -> (r: Result<(u64, u64), String>)
        requires
            file_size >= 12,
        ensures
            (tail@.len() < 8 || !is_par1(tail@.subrange(4, 8))) ==> (r matches Err(m) && m@
                == "Not a Parquet file: magic bytes mismatch (expected PAR1)"@),
            tail@.len() >= 8 && is_par1(tail@.subrange(4, 8)) && (le4(tail@) == 0 || le4(tail@)
                > file_size - 8) ==> (r matches Err(m) && m@ == "Invalid Parquet footer length: "@
                + decimal_digits(le4(tail@))),
            tail@.len() >= 8 && is_par1(tail@.subrange(4, 8)) && 0 < le4(tail@) <= file_size - 8
                ==> r == Ok::<(u64, u64), String>(
                ((file_size - 8 - le4(tail@)) as u64, le4(tail@) as u64),
            ),
    {
        if tail.len() < 8 || !(tail[4] == 80 && tail[5] == 65 && tail[6] == 82 && tail[7] == 49) {
            return Err(copy_str("Not a Parquet file: magic bytes mismatch (expected PAR1)"));
        }
        proof {
            assert(tail@.skip(0) =~= tail@);
        }
        let footer_len = le4_exec(tail, 0);
        if footer_len == 0 || footer_len > file_size - 8 {
            let n = u64_to_decimal(footer_len);
            return Err(concat2("Invalid Parquet footer length: ", n.as_str()));
        }
        Ok((file_size - 8 - footer_len, footer_len))
    }
}

} // verus!
