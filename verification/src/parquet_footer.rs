//! Decoding a Parquet footer with the `parquet` crate, and the plain values
//! that the rest of the library reads out of it.
//!
//! The footer is Thrift-encoded `FileMetaData`. The `parquet` crate decodes
//! it; what the library needs of the result (the schema flattened depth-first,
//! the row counts, the writer, the key/value pairs and the column-chunk
//! statistics) is taken out as plain values, each a function of the footer
//! bytes.
use vstd::prelude::*;
use crate::footer_check::footer_checked;
use crate::parquet::{ConvertedType, LogicalType, PhysicalType, Repetition};
use crate::parquet_stats::{ChunkStat, ChunkStatView, chunk_view};
use crate::parquet_tree::{FlatElement, FlatElementView, elements_view};
use parquet::basic::LogicalType as BasicLogical;

verus! {

/// `parquet::file::metadata::ParquetMetaData`, the decoded footer; opaque here.
#[verifier::external_type_specification]
#[verifier::external_body]
pub struct ExParquetMetaData(parquet::file::metadata::ParquetMetaData);

/// `parquet::format::SchemaElement`, one Thrift schema element; opaque here.
#[verifier::external_type_specification]
#[verifier::external_body]
pub struct ExThriftSchemaElement(parquet::format::SchemaElement);

/// Footer metadata as the `parquet` crate decoded it from some bytes; its
/// view is those bytes.
pub struct DecodedFooter {
    meta: parquet::file::metadata::ParquetMetaData,
    bytes: Ghost<Seq<u8>>,
}

impl View for DecodedFooter {
    type V = Seq<u8>;

    closed spec fn view(&self) -> Seq<u8> {
        self.bytes@
    }
}

/// The schema of a decoded footer as the Thrift elements it flattens to;
/// its view is the footer bytes.
pub struct FlatSchema {
    elements: Vec<parquet::format::SchemaElement>,
    bytes: Ghost<Seq<u8>>,
}

impl View for FlatSchema {
    type V = Seq<u8>;

    closed spec fn view(&self) -> Seq<u8> {
        self.bytes@
    }
}

impl FlatSchema {
    /// The elements are those that the footer's schema flattens to.
    #[verifier::type_invariant]
    closed spec fn holds_footer_schema(&self) -> bool {
        self.elements@.len() == footer_schema(self.bytes@).len()
    }

    pub closed spec fn spec_len(&self) -> nat {
        self.elements@.len()
    }

    /// Number of elements.
    pub fn len(&self) -> (n: usize)
        ensures
            n == self.spec_len(),
    {
        self.elements.len()
    }
}

/// One element of a flattened schema with its enumerations as the numbers
/// that the Parquet format gives them.
pub struct FooterElement {
    pub name: String,
    pub physical: Option<i32>,
    pub repetition: Option<i32>,
    pub converted: Option<i32>,
    pub num_children: Option<i32>,
}

pub struct FooterElementView {
    pub name: Seq<char>,
    pub physical: Option<i32>,
    pub repetition: Option<i32>,
    pub converted: Option<i32>,
    pub num_children: Option<i32>,
    pub logical: Option<LogicalType>,
}

/// Statistics of one column chunk, the physical type by its number.
pub struct FooterChunk {
    pub physical: i32,
    pub null_count: u64,
    pub distinct_count: Option<u64>,
    pub min: Option<Vec<u8>>,
    pub max: Option<Vec<u8>>,
}

pub struct FooterChunkView {
    pub physical: i32,
    pub null_count: u64,
    pub distinct_count: Option<u64>,
    pub min: Option<Seq<u8>>,
    pub max: Option<Seq<u8>>,
}

pub open spec fn opt_bytes(o: Option<Vec<u8>>) -> Option<Seq<u8>> {
    match o {
        Some(v) => Some(v@),
        None => None,
    }
}

impl View for FooterChunk {
    type V = FooterChunkView;

    open spec fn view(&self) -> FooterChunkView {
        FooterChunkView {
            physical: self.physical,
            null_count: self.null_count,
            distinct_count: self.distinct_count,
            min: opt_bytes(self.min),
            max: opt_bytes(self.max),
        }
    }
}

/// The message with which `parquet::file::footer::decode_metadata` refuses
/// footer bytes, `None` where it decodes them.
pub uninterp spec fn footer_decode_error(bytes: Seq<u8>) -> Option<Seq<char>>;

/// What `parquet::schema::types::to_thrift` flattens the schema of decoded
/// footer bytes to: every node depth-first, the root first.
pub uninterp spec fn footer_schema(bytes: Seq<u8>) -> Seq<FooterElementView>;

/// `RowGroupMetaData::num_rows` of each row group of decoded footer bytes.
pub uninterp spec fn footer_row_counts(bytes: Seq<u8>) -> Seq<i64>;

/// `FileMetaData::created_by` of decoded footer bytes.
pub uninterp spec fn footer_created_by(bytes: Seq<u8>) -> Option<Seq<char>>;

/// `FileMetaData::key_value_metadata` of decoded footer bytes.
pub uninterp spec fn footer_key_values(bytes: Seq<u8>) -> Option<Seq<(Seq<char>, Option<Seq<char>>)>>;

/// `ColumnChunkMetaData::statistics` of each column chunk of one row group of
/// decoded footer bytes.
pub uninterp spec fn footer_chunk_stats(bytes: Seq<u8>, row_group: int) -> Seq<Option<FooterChunkView>>;

/// Wraps `parquet::file::footer::decode_metadata`, which reads Thrift-encoded
/// footer metadata; an error carries its display text. The call is made only
/// on bytes that pass the footer check (`footer_checked`): on those the
/// crate's Thrift reader and its conversion to `ParquetMetaData` return,
/// because the check refuses every input on which they panic (see the
/// module `footer_check`). Running out of memory is not considered.
#[verifier::external_body]
pub(crate) fn decode_footer(bytes: &[u8]) -> (r: Result<DecodedFooter, String>)
    requires
        footer_checked(bytes@),
    ensures
        match r {
            Ok(f) => f@ == bytes@ && footer_decode_error(bytes@) is None,
            Err(m) => footer_decode_error(bytes@) == Some(m@),
        },
{
    #[allow(deprecated)]
    let decoded = parquet::file::footer::decode_metadata(bytes);
    match decoded {
        Ok(meta) => Ok(DecodedFooter { meta, bytes: Ghost(bytes@) }),
        Err(e) => Err(e.to_string()),
    }
}

/// Wraps `parquet::schema::types::to_thrift` on the root of the decoded
/// schema (a group, so it does not fail). The elements it returns are the
/// ones `footer_schema` names, as many of them: the invariant of
/// `FlatSchema`, which this function is trusted to establish.
#[verifier::external_body]
pub(crate) fn flatten_schema(f: &DecodedFooter) -> (r: FlatSchema)
    ensures
        r@ == f@,
{
    let root = f.meta.file_metadata().schema_descr().root_schema();
    let elements = parquet::schema::types::to_thrift(root).unwrap_or_default();
    FlatSchema { elements, bytes: Ghost(f@) }
}

/// The name and numbered enumerations of one flattened element. `to_thrift`
/// writes them from the crate's enumerations, so each number is one that the
/// format defines.
#[verifier::external_body]
pub(crate) fn element_codes(s: &FlatSchema, i: usize) -> (r: FooterElement)
    requires
        i < s.spec_len(),
    ensures
        r.name@ == footer_schema(s@)[i as int].name,
        r.physical == footer_schema(s@)[i as int].physical,
        r.repetition == footer_schema(s@)[i as int].repetition,
        r.converted == footer_schema(s@)[i as int].converted,
        r.num_children == footer_schema(s@)[i as int].num_children,
        r.physical matches Some(c) ==> 0 <= c < 8,
        r.repetition matches Some(c) ==> 0 <= c < 3,
        r.converted matches Some(c) ==> 0 <= c < 22,
{
    let e = &s.elements[i];
    FooterElement {
        name: e.name.clone(),
        physical: e.type_.map(|t| t.0),
        repetition: e.repetition_type.map(|t| t.0),
        converted: e.converted_type.map(|t| t.0),
        num_children: e.num_children,
    }
}

/// The logical annotation of one flattened element (through the crate's
/// `From` into `parquet::basic::LogicalType`), told apart variant by variant.
#[verifier::external_body]
pub(crate) fn element_logical(s: &FlatSchema, i: usize) -> (r: Option<LogicalType>)
    requires
        i < s.spec_len(),
    ensures
        r == footer_schema(s@)[i as int].logical,
{
    let l = s.elements[i].logical_type.clone()?;
    Some(match BasicLogical::from(l) {
        BasicLogical::String => LogicalType::String, BasicLogical::Map => LogicalType::MapOf,
        BasicLogical::List => LogicalType::List, BasicLogical::Enum => LogicalType::Enum,
        BasicLogical::Decimal { scale, precision } => LogicalType::Decimal { scale, precision },
        BasicLogical::Date => LogicalType::Date,
        BasicLogical::Time { is_adjusted_to_u_t_c, .. } => LogicalType::Time { is_adjusted_to_u_t_c },
        BasicLogical::Timestamp { is_adjusted_to_u_t_c, .. } => LogicalType::Timestamp { is_adjusted_to_u_t_c },
        BasicLogical::Integer { bit_width, is_signed } => LogicalType::Integer { bit_width, is_signed },
        BasicLogical::Unknown => LogicalType::Unknown, BasicLogical::Json => LogicalType::Json,
        BasicLogical::Bson => LogicalType::Bson, BasicLogical::Uuid => LogicalType::Uuid,
        BasicLogical::Float16 => LogicalType::Float16,
    })
}

/// Wraps `RowGroupMetaData::num_rows`, for each row group in order.
#[verifier::external_body]
pub(crate) fn row_group_rows(f: &DecodedFooter) -> (r: Vec<i64>)
    ensures
        r@ == footer_row_counts(f@),
{
    f.meta.row_groups().iter().map(|rg| rg.num_rows()).collect()
}

/// Wraps `FileMetaData::created_by`.
#[verifier::external_body]
pub(crate) fn created_by(f: &DecodedFooter) -> (r: Option<String>)
    ensures
        match r {
            Some(s) => footer_created_by(f@) == Some(s@),
            None => footer_created_by(f@) is None,
        },
{
    f.meta.file_metadata().created_by().map(str::to_string)
}

/// Wraps `FileMetaData::key_value_metadata`, each pair as key and value.
#[verifier::external_body]
pub(crate) fn key_values(f: &DecodedFooter) -> (r: Option<Vec<(String, Option<String>)>>)
    ensures
        match r {
            Some(v) => footer_key_values(f@) == Some(crate::parquet::kvs_view(v@)),
            None => footer_key_values(f@) is None,
        },
{
    let kvs = f.meta.file_metadata().key_value_metadata();
    kvs.map(|v| v.iter().map(|kv| (kv.key.clone(), kv.value.clone())).collect())
}

/// The key/value pairs of decoded footer bytes, none where it has no list.
pub open spec fn footer_pairs(bytes: Seq<u8>) -> Seq<(Seq<char>, Option<Seq<char>>)> {
    match footer_key_values(bytes) {
        Some(s) => s,
        None => Seq::empty(),
    }
}

/// Wraps `ColumnChunkMetaData::statistics` for each column chunk of row group
/// `rg`: the physical type of the statistics, `null_count` (0 where unknown),
/// `distinct_count` and the raw bytes of the minimum and maximum.
#[verifier::external_body]
pub(crate) fn chunk_stats(f: &DecodedFooter, rg: usize) -> (r: Vec<Option<FooterChunk>>)
    requires
        rg < footer_row_counts(f@).len(),
    ensures
        r@.len() == footer_chunk_stats(f@, rg as int).len(),
        forall|i: int| 0 <= i < r@.len() ==> match #[trigger] r@[i] {
            Some(c) => footer_chunk_stats(f@, rg as int)[i] == Some(c@) && 0 <= c.physical < 8,
            None => footer_chunk_stats(f@, rg as int)[i] is None,
        },
{
    #[allow(deprecated)]
    f.meta.row_group(rg).columns().iter().map(|c| c.statistics().map(|s| FooterChunk {
        physical: parquet::format::Type::from(s.physical_type()).0,
        null_count: s.null_count(), distinct_count: s.distinct_count(),
        min: s.min_bytes_opt().map(|b| b.to_vec()), max: s.max_bytes_opt().map(|b| b.to_vec()),
    })).collect()
}

// ─── The format's numbering ─────────────────────────────────────────────────

pub open spec fn physical_spec(c: i32) -> PhysicalType {
    match c {
        0 => PhysicalType::BOOLEAN,
        1 => PhysicalType::INT32,
        2 => PhysicalType::INT64,
        3 => PhysicalType::INT96,
        4 => PhysicalType::FLOAT,
        5 => PhysicalType::DOUBLE,
        6 => PhysicalType::BYTE_ARRAY,
        _ => PhysicalType::FIXED_LEN_BYTE_ARRAY,
    }
}

/// The physical type that the format numbers `c` (0 to 7).
pub fn physical_of_code(c: i32) -> (t: PhysicalType)
    ensures
        t == physical_spec(c),
{
    match c {
        0 => PhysicalType::BOOLEAN,
        1 => PhysicalType::INT32,
        2 => PhysicalType::INT64,
        3 => PhysicalType::INT96,
        4 => PhysicalType::FLOAT,
        5 => PhysicalType::DOUBLE,
        6 => PhysicalType::BYTE_ARRAY,
        _ => PhysicalType::FIXED_LEN_BYTE_ARRAY,
    }
}

pub open spec fn repetition_spec(c: i32) -> Repetition {
    match c {
        0 => Repetition::REQUIRED,
        1 => Repetition::OPTIONAL,
        _ => Repetition::REPEATED,
    }
}

/// The repetition that the format numbers `c` (0 to 2).
pub fn repetition_of_code(c: i32) -> (r: Repetition)
    ensures
        r == repetition_spec(c),
{
    match c {
        0 => Repetition::REQUIRED,
        1 => Repetition::OPTIONAL,
        _ => Repetition::REPEATED,
    }
}

/// The converted type that the format numbers `c` (0 to 21); no number is
/// `NONE`.
pub open spec fn converted_spec(c: Option<i32>) -> ConvertedType {
    match c {
        None => ConvertedType::NONE,
        Some(n) => match n {
            0 => ConvertedType::UTF8,
            1 => ConvertedType::MAP,
            2 => ConvertedType::MAP_KEY_VALUE,
            3 => ConvertedType::LIST,
            4 => ConvertedType::ENUM,
            5 => ConvertedType::DECIMAL,
            6 => ConvertedType::DATE,
            7 => ConvertedType::TIME_MILLIS,
            8 => ConvertedType::TIME_MICROS,
            9 => ConvertedType::TIMESTAMP_MILLIS,
            10 => ConvertedType::TIMESTAMP_MICROS,
            11 => ConvertedType::UINT_8,
            12 => ConvertedType::UINT_16,
            13 => ConvertedType::UINT_32,
            14 => ConvertedType::UINT_64,
            15 => ConvertedType::INT_8,
            16 => ConvertedType::INT_16,
            17 => ConvertedType::INT_32,
            18 => ConvertedType::INT_64,
            19 => ConvertedType::JSON,
            20 => ConvertedType::BSON,
            _ => ConvertedType::INTERVAL,
        },
    }
}

pub fn converted_of_code(c: Option<i32>) -> (t: ConvertedType)
    ensures
        t == converted_spec(c),
{
    match c {
        None => ConvertedType::NONE,
        Some(n) => match n {
            0 => ConvertedType::UTF8,
            1 => ConvertedType::MAP,
            2 => ConvertedType::MAP_KEY_VALUE,
            3 => ConvertedType::LIST,
            4 => ConvertedType::ENUM,
            5 => ConvertedType::DECIMAL,
            6 => ConvertedType::DATE,
            7 => ConvertedType::TIME_MILLIS,
            8 => ConvertedType::TIME_MICROS,
            9 => ConvertedType::TIMESTAMP_MILLIS,
            10 => ConvertedType::TIMESTAMP_MICROS,
            11 => ConvertedType::UINT_8,
            12 => ConvertedType::UINT_16,
            13 => ConvertedType::UINT_32,
            14 => ConvertedType::UINT_64,
            15 => ConvertedType::INT_8,
            16 => ConvertedType::INT_16,
            17 => ConvertedType::INT_32,
            18 => ConvertedType::INT_64,
            19 => ConvertedType::JSON,
            20 => ConvertedType::BSON,
            _ => ConvertedType::INTERVAL,
        },
    }
}

// ─── Plain values out of a decoded footer ───────────────────────────────────

/// A flattened element with its enumerations read.
pub open spec fn element_spec(e: FooterElementView) -> FlatElementView {
    FlatElementView {
        name: e.name,
        physical: match e.physical {
            Some(c) => Some(physical_spec(c)),
            None => None,
        },
        repetition: match e.repetition {
            Some(c) => Some(repetition_spec(c)),
            None => None,
        },
        converted: converted_spec(e.converted),
        logical: e.logical,
        num_children: e.num_children,
    }
}

/// The schema elements of decoded footer bytes, depth-first.
pub open spec fn footer_elements(bytes: Seq<u8>) -> Seq<FlatElementView> {
    footer_schema(bytes).map_values(|e: FooterElementView| element_spec(e))
}

/// The flattened schema with its enumerations read.
pub(crate) fn read_schema(s: &FlatSchema) -> (r: Vec<FlatElement>)
    ensures
        elements_view(r@) == footer_elements(s@),
{
    let n = s.len();
    proof {
        use_type_invariant(s);
    }
    let mut out: Vec<FlatElement> = Vec::new();
    let mut i: usize = 0;
    while i < n
        invariant
            i <= n,
            n == s.spec_len(),
            n == footer_schema(s@).len(),
            out@.len() == i,
            forall|j: int| 0 <= j < i ==> (#[trigger] out@[j])@ == element_spec(footer_schema(s@)[j]),
        decreases n - i,
    {
        let codes = element_codes(s, i);
        let logical = element_logical(s, i);
        let physical = match codes.physical {
            Some(c) => Some(physical_of_code(c)),
            None => None,
        };
        let repetition = match codes.repetition {
            Some(c) => Some(repetition_of_code(c)),
            None => None,
        };
        let converted = converted_of_code(codes.converted);
        out.push(
            FlatElement {
                name: codes.name,
                physical,
                repetition,
                converted,
                logical,
                num_children: codes.num_children,
            },
        );
        i += 1;
    }
    assert(elements_view(out@) =~= footer_elements(s@));
    out
}

/// A chunk's statistics with the physical type read.
pub open spec fn chunk_spec(o: Option<FooterChunkView>) -> Option<ChunkStatView> {
    match o {
        Some(c) => Some(
            ChunkStatView {
                physical: physical_spec(c.physical),
                null_count: c.null_count,
                distinct_count: c.distinct_count,
                min: c.min,
                max: c.max,
            },
        ),
        None => None,
    }
}

/// The statistics of the column chunks of row group `g` of decoded footer
/// bytes.
pub open spec fn footer_row_group_stats(bytes: Seq<u8>, g: int) -> Seq<Option<ChunkStatView>> {
    footer_chunk_stats(bytes, g).map_values(|o: Option<FooterChunkView>| chunk_spec(o))
}

/// The column-chunk statistics of row group `rg`.
pub(crate) fn read_chunk_stats(f: &DecodedFooter, rg: usize) -> (r: Vec<Option<ChunkStat>>)
    requires
        rg < footer_row_counts(f@).len(),
    ensures
        r@.map_values(|o: Option<ChunkStat>| chunk_view(o)) == footer_row_group_stats(f@, rg as int),
{
    let raw = chunk_stats(f, rg);
    let mut out: Vec<Option<ChunkStat>> = Vec::new();
    let mut i: usize = 0;
    while i < raw.len()
        invariant
            i <= raw@.len(),
            raw@.len() == footer_chunk_stats(f@, rg as int).len(),
            forall|j: int| 0 <= j < raw@.len() ==> match #[trigger] raw@[j] {
                Some(c) => footer_chunk_stats(f@, rg as int)[j] == Some(c@),
                None => footer_chunk_stats(f@, rg as int)[j] is None,
            },
            out@.len() == i,
            forall|j: int| 0 <= j < i ==> chunk_view(#[trigger] out@[j]) == chunk_spec(
                footer_chunk_stats(f@, rg as int)[j],
            ),
        decreases raw@.len() - i,
    {
        let item = match &raw[i] {
            Some(c) => Some(
                ChunkStat {
                    physical: physical_of_code(c.physical),
                    null_count: c.null_count,
                    distinct_count: c.distinct_count,
                    min: clone_bytes(&c.min),
                    max: clone_bytes(&c.max),
                },
            ),
            None => None,
        };
        out.push(item);
        i += 1;
    }
    assert(out@.map_values(|o: Option<ChunkStat>| chunk_view(o)) =~= footer_row_group_stats(
        f@,
        rg as int,
    ));
    out
}

fn clone_bytes(o: &Option<Vec<u8>>) -> (r: Option<Vec<u8>>)
    ensures
        opt_bytes(r) == opt_bytes(*o),
{
    match o {
        Some(v) => Some(v.clone()),
        None => None,
    }
}

} // verus!
