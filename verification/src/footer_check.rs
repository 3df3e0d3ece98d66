//! A check of Thrift-encoded Parquet footer metadata, made before the
//! `parquet` crate decodes it.
//!
//! The check reads the bytes with the Thrift compact protocol the way the
//! crate's generated reader does: every field that the reader knows must come
//! with the wire type that the reader expects, every other field is skipped as
//! the reader skips it. Along the way it refuses what the crate would not
//! return from: negative or oversized list lengths, over-long varints, field
//! ids past the 16-bit range, set and map values, truncated doubles; an integer
//! logical type of another bit width than 8, 16, 32 or 64; a fixed length that
//! overflows the decimal precision check; column statistics shorter than their
//! physical type; a first schema element that is not a group; a group without
//! repetition below the root; a column-order list whose length is not the
//! number of leaf columns; a schema nested deeper than `MAX_SCHEMA_DEPTH`.
use vstd::prelude::*;

verus! {

/// How deep the check follows nested Thrift values (structs and lists).
pub const CHECK_DEPTH: u64 = 80;

/// The deepest schema nesting that is accepted.
pub const MAX_SCHEMA_DEPTH: u64 = 64;

/// The longest footer that is accepted.
pub const MAX_FOOTER_LEN: u64 = 0x7fff_ffff;

/// The Thrift structs of footer metadata that the reader knows.
#[derive(Clone, Copy)]
pub enum Kind {
    FileMeta, SchemaElem, LogicalType, IntType, DecimalType, TimeType, TimeUnit, Empty, RowGroup, ColumnChunk, ColumnMeta, Statistics, KeyValue, SortingColumn, PageEncStats, SizeStats, ColumnOrder, EncAlgo, AesGcm, CryptoMeta, EncColumnKey
}

/// A list element that a known field holds.
#[derive(Clone, Copy)]
pub enum Item {
    I32,
    I64,
    Bin,
    Rec(Kind),
}

/// The value that a known field holds.
#[derive(Clone, Copy)]
pub enum Exp {
    Bool,
    I8,
    I16,
    I32,
    I64,
    Bin,
    Rec(Kind),
    List(Item),
}

/// What the reader expects of field `id` of struct `k`; `None` for a field
/// it skips.
pub open spec fn expect(k: Kind, id: int) -> Option<Exp> {
    match k {
        Kind::FileMeta => {
            if id == 1 {
                Some(Exp::I32)
            } else if id == 2 {
                Some(Exp::List(Item::Rec(Kind::SchemaElem)))
            } else if id == 3 {
                Some(Exp::I64)
            } else if id == 4 {
                Some(Exp::List(Item::Rec(Kind::RowGroup)))
            } else if id == 5 {
                Some(Exp::List(Item::Rec(Kind::KeyValue)))
            } else if id == 6 {
                Some(Exp::Bin)
            } else if id == 7 {
                Some(Exp::List(Item::Rec(Kind::ColumnOrder)))
            } else if id == 8 {
                Some(Exp::Rec(Kind::EncAlgo))
            } else if id == 9 {
                Some(Exp::Bin)
            } else {
                None
            }
        },
        Kind::SchemaElem => {
            if id == 1 {
                Some(Exp::I32)
            } else if id == 2 {
                Some(Exp::I32)
            } else if id == 3 {
                Some(Exp::I32)
            } else if id == 4 {
                Some(Exp::Bin)
            } else if id == 5 {
                Some(Exp::I32)
            } else if id == 6 {
                Some(Exp::I32)
            } else if id == 7 {
                Some(Exp::I32)
            } else if id == 8 {
                Some(Exp::I32)
            } else if id == 9 {
                Some(Exp::I32)
            } else if id == 10 {
                Some(Exp::Rec(Kind::LogicalType))
            } else {
                None
            }
        },
        Kind::LogicalType => {
            if id == 1 {
                Some(Exp::Rec(Kind::Empty))
            } else if id == 2 {
                Some(Exp::Rec(Kind::Empty))
            } else if id == 3 {
                Some(Exp::Rec(Kind::Empty))
            } else if id == 4 {
                Some(Exp::Rec(Kind::Empty))
            } else if id == 5 {
                Some(Exp::Rec(Kind::DecimalType))
            } else if id == 6 {
                Some(Exp::Rec(Kind::Empty))
            } else if id == 7 {
                Some(Exp::Rec(Kind::TimeType))
            } else if id == 8 {
                Some(Exp::Rec(Kind::TimeType))
            } else if id == 10 {
                Some(Exp::Rec(Kind::IntType))
            } else if id == 11 {
                Some(Exp::Rec(Kind::Empty))
            } else if id == 12 {
                Some(Exp::Rec(Kind::Empty))
            } else if id == 13 {
                Some(Exp::Rec(Kind::Empty))
            } else if id == 14 {
                Some(Exp::Rec(Kind::Empty))
            } else if id == 15 {
                Some(Exp::Rec(Kind::Empty))
            } else {
                None
            }
        },
        Kind::IntType => {
            if id == 1 {
                Some(Exp::I8)
            } else if id == 2 {
                Some(Exp::Bool)
            } else {
                None
            }
        },
        Kind::DecimalType => {
            if id == 1 {
                Some(Exp::I32)
            } else if id == 2 {
                Some(Exp::I32)
            } else {
                None
            }
        },
        Kind::TimeType => {
            if id == 1 {
                Some(Exp::Bool)
            } else if id == 2 {
                Some(Exp::Rec(Kind::TimeUnit))
            } else {
                None
            }
        },
        Kind::TimeUnit => {
            if id == 1 {
                Some(Exp::Rec(Kind::Empty))
            } else if id == 2 {
                Some(Exp::Rec(Kind::Empty))
            } else if id == 3 {
                Some(Exp::Rec(Kind::Empty))
            } else {
                None
            }
        },
        Kind::Empty => None,
        Kind::RowGroup => {
            if id == 1 {
                Some(Exp::List(Item::Rec(Kind::ColumnChunk)))
            } else if id == 2 {
                Some(Exp::I64)
            } else if id == 3 {
                Some(Exp::I64)
            } else if id == 4 {
                Some(Exp::List(Item::Rec(Kind::SortingColumn)))
            } else if id == 5 {
                Some(Exp::I64)
            } else if id == 6 {
                Some(Exp::I64)
            } else if id == 7 {
                Some(Exp::I16)
            } else {
                None
            }
        },
        Kind::ColumnChunk => {
            if id == 1 {
                Some(Exp::Bin)
            } else if id == 2 {
                Some(Exp::I64)
            } else if id == 3 {
                Some(Exp::Rec(Kind::ColumnMeta))
            } else if id == 4 {
                Some(Exp::I64)
            } else if id == 5 {
                Some(Exp::I32)
            } else if id == 6 {
                Some(Exp::I64)
            } else if id == 7 {
                Some(Exp::I32)
            } else if id == 8 {
                Some(Exp::Rec(Kind::CryptoMeta))
            } else if id == 9 {
                Some(Exp::Bin)
            } else {
                None
            }
        },
        Kind::ColumnMeta => {
            if id == 1 {
                Some(Exp::I32)
            } else if id == 2 {
                Some(Exp::List(Item::I32))
            } else if id == 3 {
                Some(Exp::List(Item::Bin))
            } else if id == 4 {
                Some(Exp::I32)
            } else if id == 5 {
                Some(Exp::I64)
            } else if id == 6 {
                Some(Exp::I64)
            } else if id == 7 {
                Some(Exp::I64)
            } else if id == 8 {
                Some(Exp::List(Item::Rec(Kind::KeyValue)))
            } else if id == 9 {
                Some(Exp::I64)
            } else if id == 10 {
                Some(Exp::I64)
            } else if id == 11 {
                Some(Exp::I64)
            } else if id == 12 {
                Some(Exp::Rec(Kind::Statistics))
            } else if id == 13 {
                Some(Exp::List(Item::Rec(Kind::PageEncStats)))
            } else if id == 14 {
                Some(Exp::I64)
            } else if id == 15 {
                Some(Exp::I32)
            } else if id == 16 {
                Some(Exp::Rec(Kind::SizeStats))
            } else {
                None
            }
        },
        Kind::Statistics => {
            if id == 1 {
                Some(Exp::Bin)
            } else if id == 2 {
                Some(Exp::Bin)
            } else if id == 3 {
                Some(Exp::I64)
            } else if id == 4 {
                Some(Exp::I64)
            } else if id == 5 {
                Some(Exp::Bin)
            } else if id == 6 {
                Some(Exp::Bin)
            } else if id == 7 {
                Some(Exp::Bool)
            } else if id == 8 {
                Some(Exp::Bool)
            } else {
                None
            }
        },
        Kind::KeyValue => {
            if id == 1 {
                Some(Exp::Bin)
            } else if id == 2 {
                Some(Exp::Bin)
            } else {
                None
            }
        },
        Kind::SortingColumn => {
            if id == 1 {
                Some(Exp::I32)
            } else if id == 2 {
                Some(Exp::Bool)
            } else if id == 3 {
                Some(Exp::Bool)
            } else {
                None
            }
        },
        Kind::PageEncStats => {
            if id == 1 {
                Some(Exp::I32)
            } else if id == 2 {
                Some(Exp::I32)
            } else if id == 3 {
                Some(Exp::I32)
            } else {
                None
            }
        },
        Kind::SizeStats => {
            if id == 1 {
                Some(Exp::I64)
            } else if id == 2 {
                Some(Exp::List(Item::I64))
            } else if id == 3 {
                Some(Exp::List(Item::I64))
            } else {
                None
            }
        },
        Kind::ColumnOrder => {
            if id == 1 {
                Some(Exp::Rec(Kind::Empty))
            } else {
                None
            }
        },
        Kind::EncAlgo => {
            if id == 1 {
                Some(Exp::Rec(Kind::AesGcm))
            } else if id == 2 {
                Some(Exp::Rec(Kind::AesGcm))
            } else {
                None
            }
        },
        Kind::AesGcm => {
            if id == 1 {
                Some(Exp::Bin)
            } else if id == 2 {
                Some(Exp::Bin)
            } else if id == 3 {
                Some(Exp::Bool)
            } else {
                None
            }
        },
        Kind::CryptoMeta => {
            if id == 1 {
                Some(Exp::Rec(Kind::Empty))
            } else if id == 2 {
                Some(Exp::Rec(Kind::EncColumnKey))
            } else {
                None
            }
        },
        Kind::EncColumnKey => {
            if id == 1 {
                Some(Exp::List(Item::Bin))
            } else if id == 2 {
                Some(Exp::Bin)
            } else {
                None
            }
        },
    }
}

fn expect_exec(k: Kind, id: i64) -> (r: Option<Exp>)
    ensures
        r == expect(k, id as int),
{
    match k {
        Kind::FileMeta => {
            if id == 1 {
                Some(Exp::I32)
            } else if id == 2 {
                Some(Exp::List(Item::Rec(Kind::SchemaElem)))
            } else if id == 3 {
                Some(Exp::I64)
            } else if id == 4 {
                Some(Exp::List(Item::Rec(Kind::RowGroup)))
            } else if id == 5 {
                Some(Exp::List(Item::Rec(Kind::KeyValue)))
            } else if id == 6 {
                Some(Exp::Bin)
            } else if id == 7 {
                Some(Exp::List(Item::Rec(Kind::ColumnOrder)))
            } else if id == 8 {
                Some(Exp::Rec(Kind::EncAlgo))
            } else if id == 9 {
                Some(Exp::Bin)
            } else {
                None
            }
        },
        Kind::SchemaElem => {
            if id == 1 {
                Some(Exp::I32)
            } else if id == 2 {
                Some(Exp::I32)
            } else if id == 3 {
                Some(Exp::I32)
            } else if id == 4 {
                Some(Exp::Bin)
            } else if id == 5 {
                Some(Exp::I32)
            } else if id == 6 {
                Some(Exp::I32)
            } else if id == 7 {
                Some(Exp::I32)
            } else if id == 8 {
                Some(Exp::I32)
            } else if id == 9 {
                Some(Exp::I32)
            } else if id == 10 {
                Some(Exp::Rec(Kind::LogicalType))
            } else {
                None
            }
        },
        Kind::LogicalType => {
            if id == 1 {
                Some(Exp::Rec(Kind::Empty))
            } else if id == 2 {
                Some(Exp::Rec(Kind::Empty))
            } else if id == 3 {
                Some(Exp::Rec(Kind::Empty))
            } else if id == 4 {
                Some(Exp::Rec(Kind::Empty))
            } else if id == 5 {
                Some(Exp::Rec(Kind::DecimalType))
            } else if id == 6 {
                Some(Exp::Rec(Kind::Empty))
            } else if id == 7 {
                Some(Exp::Rec(Kind::TimeType))
            } else if id == 8 {
                Some(Exp::Rec(Kind::TimeType))
            } else if id == 10 {
                Some(Exp::Rec(Kind::IntType))
            } else if id == 11 {
                Some(Exp::Rec(Kind::Empty))
            } else if id == 12 {
                Some(Exp::Rec(Kind::Empty))
            } else if id == 13 {
                Some(Exp::Rec(Kind::Empty))
            } else if id == 14 {
                Some(Exp::Rec(Kind::Empty))
            } else if id == 15 {
                Some(Exp::Rec(Kind::Empty))
            } else {
                None
            }
        },
        Kind::IntType => {
            if id == 1 {
                Some(Exp::I8)
            } else if id == 2 {
                Some(Exp::Bool)
            } else {
                None
            }
        },
        Kind::DecimalType => {
            if id == 1 {
                Some(Exp::I32)
            } else if id == 2 {
                Some(Exp::I32)
            } else {
                None
            }
        },
        Kind::TimeType => {
            if id == 1 {
                Some(Exp::Bool)
            } else if id == 2 {
                Some(Exp::Rec(Kind::TimeUnit))
            } else {
                None
            }
        },
        Kind::TimeUnit => {
            if id == 1 {
                Some(Exp::Rec(Kind::Empty))
            } else if id == 2 {
                Some(Exp::Rec(Kind::Empty))
            } else if id == 3 {
                Some(Exp::Rec(Kind::Empty))
            } else {
                None
            }
        },
        Kind::Empty => None,
        Kind::RowGroup => {
            if id == 1 {
                Some(Exp::List(Item::Rec(Kind::ColumnChunk)))
            } else if id == 2 {
                Some(Exp::I64)
            } else if id == 3 {
                Some(Exp::I64)
            } else if id == 4 {
                Some(Exp::List(Item::Rec(Kind::SortingColumn)))
            } else if id == 5 {
                Some(Exp::I64)
            } else if id == 6 {
                Some(Exp::I64)
            } else if id == 7 {
                Some(Exp::I16)
            } else {
                None
            }
        },
        Kind::ColumnChunk => {
            if id == 1 {
                Some(Exp::Bin)
            } else if id == 2 {
                Some(Exp::I64)
            } else if id == 3 {
                Some(Exp::Rec(Kind::ColumnMeta))
            } else if id == 4 {
                Some(Exp::I64)
            } else if id == 5 {
                Some(Exp::I32)
            } else if id == 6 {
                Some(Exp::I64)
            } else if id == 7 {
                Some(Exp::I32)
            } else if id == 8 {
                Some(Exp::Rec(Kind::CryptoMeta))
            } else if id == 9 {
                Some(Exp::Bin)
            } else {
                None
            }
        },
        Kind::ColumnMeta => {
            if id == 1 {
                Some(Exp::I32)
            } else if id == 2 {
                Some(Exp::List(Item::I32))
            } else if id == 3 {
                Some(Exp::List(Item::Bin))
            } else if id == 4 {
                Some(Exp::I32)
            } else if id == 5 {
                Some(Exp::I64)
            } else if id == 6 {
                Some(Exp::I64)
            } else if id == 7 {
                Some(Exp::I64)
            } else if id == 8 {
                Some(Exp::List(Item::Rec(Kind::KeyValue)))
            } else if id == 9 {
                Some(Exp::I64)
            } else if id == 10 {
                Some(Exp::I64)
            } else if id == 11 {
                Some(Exp::I64)
            } else if id == 12 {
                Some(Exp::Rec(Kind::Statistics))
            } else if id == 13 {
                Some(Exp::List(Item::Rec(Kind::PageEncStats)))
            } else if id == 14 {
                Some(Exp::I64)
            } else if id == 15 {
                Some(Exp::I32)
            } else if id == 16 {
                Some(Exp::Rec(Kind::SizeStats))
            } else {
                None
            }
        },
        Kind::Statistics => {
            if id == 1 {
                Some(Exp::Bin)
            } else if id == 2 {
                Some(Exp::Bin)
            } else if id == 3 {
                Some(Exp::I64)
            } else if id == 4 {
                Some(Exp::I64)
            } else if id == 5 {
                Some(Exp::Bin)
            } else if id == 6 {
                Some(Exp::Bin)
            } else if id == 7 {
                Some(Exp::Bool)
            } else if id == 8 {
                Some(Exp::Bool)
            } else {
                None
            }
        },
        Kind::KeyValue => {
            if id == 1 {
                Some(Exp::Bin)
            } else if id == 2 {
                Some(Exp::Bin)
            } else {
                None
            }
        },
        Kind::SortingColumn => {
            if id == 1 {
                Some(Exp::I32)
            } else if id == 2 {
                Some(Exp::Bool)
            } else if id == 3 {
                Some(Exp::Bool)
            } else {
                None
            }
        },
        Kind::PageEncStats => {
            if id == 1 {
                Some(Exp::I32)
            } else if id == 2 {
                Some(Exp::I32)
            } else if id == 3 {
                Some(Exp::I32)
            } else {
                None
            }
        },
        Kind::SizeStats => {
            if id == 1 {
                Some(Exp::I64)
            } else if id == 2 {
                Some(Exp::List(Item::I64))
            } else if id == 3 {
                Some(Exp::List(Item::I64))
            } else {
                None
            }
        },
        Kind::ColumnOrder => {
            if id == 1 {
                Some(Exp::Rec(Kind::Empty))
            } else {
                None
            }
        },
        Kind::EncAlgo => {
            if id == 1 {
                Some(Exp::Rec(Kind::AesGcm))
            } else if id == 2 {
                Some(Exp::Rec(Kind::AesGcm))
            } else {
                None
            }
        },
        Kind::AesGcm => {
            if id == 1 {
                Some(Exp::Bin)
            } else if id == 2 {
                Some(Exp::Bin)
            } else if id == 3 {
                Some(Exp::Bool)
            } else {
                None
            }
        },
        Kind::CryptoMeta => {
            if id == 1 {
                Some(Exp::Rec(Kind::Empty))
            } else if id == 2 {
                Some(Exp::Rec(Kind::EncColumnKey))
            } else {
                None
            }
        },
        Kind::EncColumnKey => {
            if id == 1 {
                Some(Exp::List(Item::Bin))
            } else if id == 2 {
                Some(Exp::Bin)
            } else {
                None
            }
        },
    }
}

/// The Thrift compact wire code of a list element.
pub open spec fn item_wire(item: Item) -> u8 {
    match item {
        Item::I32 => 5,
        Item::I64 => 6,
        Item::Bin => 8,
        Item::Rec(_) => 12,
    }
}

fn item_wire_exec(item: Item) -> (r: u8)
    ensures
        r == item_wire(item),
{
    match item {
        Item::I32 => 5,
        Item::I64 => 6,
        Item::Bin => 8,
        Item::Rec(_) => 12,
    }
}

pub open spec fn item_exp(item: Item) -> Exp {
    match item {
        Item::I32 => Exp::I32,
        Item::I64 => Exp::I64,
        Item::Bin => Exp::Bin,
        Item::Rec(k) => Exp::Rec(k),
    }
}

fn item_exp_exec(item: Item) -> (r: Exp)
    ensures
        r == item_exp(item),
{
    match item {
        Item::I32 => Exp::I32,
        Item::I64 => Exp::I64,
        Item::Bin => Exp::Bin,
        Item::Rec(k) => Exp::Rec(k),
    }
}

/// What the schema needs to know of one schema element.
#[derive(Clone, Copy)]
pub struct ElemInfo {
    pub has_type: bool,
    pub num_children: Option<i64>,
    pub has_repetition: bool,
}

/// The lengths of the four statistics values, where present.
#[derive(Clone, Copy)]
pub struct StatLens {
    pub max: Option<u64>,
    pub min: Option<u64>,
    pub max_value: Option<u64>,
    pub min_value: Option<u64>,
}

/// What a struct hands to the struct that holds it.
#[derive(Clone, Copy)]
pub struct Summary {
    pub info: ElemInfo,
    pub stats: StatLens,
}

/// What has been read of the fields of one struct.
pub struct Facts {
    pub int1: Option<i64>,
    pub int2: Option<i64>,
    pub int5: Option<i64>,
    pub has3: bool,
    pub b1: Option<u64>,
    pub b2: Option<u64>,
    pub b5: Option<u64>,
    pub b6: Option<u64>,
    pub stats12: Option<StatLens>,
    pub elems: Vec<ElemInfo>,
    pub count7: Option<u64>,
}

pub struct FactsView {
    pub int1: Option<i64>,
    pub int2: Option<i64>,
    pub int5: Option<i64>,
    pub has3: bool,
    pub b1: Option<u64>,
    pub b2: Option<u64>,
    pub b5: Option<u64>,
    pub b6: Option<u64>,
    pub stats12: Option<StatLens>,
    pub elems: Seq<ElemInfo>,
    pub count7: Option<u64>,
}

impl View for Facts {
    type V = FactsView;

    open spec fn view(&self) -> FactsView {
        FactsView {
            int1: self.int1,
            int2: self.int2,
            int5: self.int5,
            has3: self.has3,
            b1: self.b1,
            b2: self.b2,
            b5: self.b5,
            b6: self.b6,
            stats12: self.stats12,
            elems: self.elems@,
            count7: self.count7,
        }
    }
}

pub open spec fn empty_facts() -> FactsView {
    FactsView {
        int1: None,
        int2: None,
        int5: None,
        has3: false,
        b1: None,
        b2: None,
        b5: None,
        b6: None,
        stats12: None,
        elems: Seq::empty(),
        count7: None,
    }
}

/// The value of one field as far as the check keeps it.
pub enum Val {
    Nothing,
    Int(i64),
    Len(u64),
    Sub(Summary),
    Items(u64, Vec<ElemInfo>),
}

pub enum ValView {
    Nothing,
    Int(i64),
    Len(u64),
    Sub(Summary),
    Items(u64, Seq<ElemInfo>),
}

impl View for Val {
    type V = ValView;

    open spec fn view(&self) -> ValView {
        match self {
            Val::Nothing => ValView::Nothing,
            Val::Int(x) => ValView::Int(*x),
            Val::Len(n) => ValView::Len(*n),
            Val::Sub(s) => ValView::Sub(*s),
            Val::Items(c, v) => ValView::Items(*c, v@),
        }
    }
}

/// Keeps what the checks need of field `id`: integer fields 1, 2 and 5,
/// the presence of field 3, the lengths of binary fields 1, 2, 5 and 6, the
/// statistics of field 12, the schema elements of field 2 and the length of
/// the list in field 7. A later field with the same id replaces an earlier
/// one, as in the reader.
pub open spec fn record(id: int, v: ValView, f: FactsView) -> FactsView {
    match v {
        ValView::Int(x) => if id == 1 {
            FactsView { int1: Some(x), ..f }
        } else if id == 2 {
            FactsView { int2: Some(x), ..f }
        } else if id == 3 {
            FactsView { has3: true, ..f }
        } else if id == 5 {
            FactsView { int5: Some(x), ..f }
        } else {
            f
        },
        ValView::Len(n) => if id == 1 {
            FactsView { b1: Some(n), ..f }
        } else if id == 2 {
            FactsView { b2: Some(n), ..f }
        } else if id == 5 {
            FactsView { b5: Some(n), ..f }
        } else if id == 6 {
            FactsView { b6: Some(n), ..f }
        } else {
            f
        },
        ValView::Sub(s) => if id == 12 {
            FactsView { stats12: Some(s.stats), ..f }
        } else {
            f
        },
        ValView::Items(c, infos) => if id == 2 {
            FactsView { elems: infos, ..f }
        } else if id == 7 {
            FactsView { count7: Some(c), ..f }
        } else {
            f
        },
        ValView::Nothing => f,
    }
}

pub open spec fn summarize(f: FactsView) -> Summary {
    Summary {
        info: ElemInfo { has_type: f.int1 is Some, num_children: f.int5, has_repetition: f.has3 },
        stats: StatLens { max: f.b1, min: f.b2, max_value: f.b5, min_value: f.b6 },
    }
}

/// A statistics value of `len` bytes is long enough for physical type `t`:
/// one byte for BOOLEAN, four for INT32 and FLOAT, eight for INT64 and
/// DOUBLE, exactly twelve for INT96.
pub open spec fn stat_len_ok(t: i64, len: Option<u64>) -> bool {
    match len {
        None => true,
        Some(n) => if t == 0 {
            n >= 1
        } else if t == 1 || t == 4 {
            n >= 4
        } else if t == 2 || t == 5 {
            n >= 8
        } else if t == 3 {
            n == 12
        } else {
            true
        },
    }
}

/// The statistics of a column chunk of type `t` hold values that the crate
/// can read: the minimum and maximum values, or where neither is present
/// the deprecated minimum and maximum.
pub open spec fn stats_ok(t: Option<i64>, s: Option<StatLens>) -> bool {
    match (t, s) {
        (Some(t), Some(s)) => {
            let old = s.min_value is None && s.max_value is None;
            let mn = if old { s.min } else { s.min_value };
            let mx = if old { s.max } else { s.max_value };
            stat_len_ok(t, mn) && stat_len_ok(t, mx)
        },
        _ => true,
    }
}

/// A schema element without children (or with zero).
pub open spec fn leafish(e: ElemInfo) -> bool {
    match e.num_children {
        None => true,
        Some(n) => n == 0,
    }
}

/// The leaf columns among the elements before `i` that follow the root.
pub open spec fn leaf_count(e: Seq<ElemInfo>, i: int) -> nat
    decreases i,
{
    if i <= 1 || i > e.len() {
        0
    } else {
        leaf_count(e, i - 1) + if leafish(e[i - 1]) && e[i - 1].has_type { 1nat } else { 0nat }
    }
}

/// `s` without its finished groups at the end.
pub open spec fn pop_done(s: Seq<i64>) -> Seq<i64>
    decreases s.len(),
{
    if s.len() > 0 && s.last() <= 0 {
        pop_done(s.drop_last())
    } else {
        s
    }
}

/// The schema elements from `i` on nest no deeper than `MAX_SCHEMA_DEPTH`,
/// `stack` holding the children still to come of each enclosing group.
pub open spec fn nest_ok(e: Seq<ElemInfo>, i: int, stack: Seq<i64>) -> bool
    decreases e.len() - i,
{
    if i < 0 || i >= e.len() {
        true
    } else {
        let s = pop_done(stack);
        if s.len() > MAX_SCHEMA_DEPTH {
            false
        } else {
            let s2 = if s.len() > 0 { s.update(s.len() - 1, (s.last() - 1) as i64) } else { s };
            let s3 = match e[i].num_children {
                Some(n) => if n > 0 { s2.push(n) } else { s2 },
                None => s2,
            };
            nest_ok(e, i + 1, s3)
        }
    }
}

/// The schema that the elements describe can be built: the first element is
/// a group, every group below it has a repetition, a column-order list has one
/// entry per leaf column, and the nesting stays within `MAX_SCHEMA_DEPTH`.
pub open spec fn schema_ok(e: Seq<ElemInfo>, orders: Option<u64>) -> bool {
    &&& (e.len() > 0 ==> !(leafish(e[0]) && e[0].has_type))
    &&& forall|i: int|
        1 <= i < e.len() ==> ((#[trigger] e[i]).num_children matches Some(n) && n > 0 ==> e[i].has_repetition)
    &&& (orders matches Some(c) ==> c == leaf_count(e, e.len() as int))
    &&& nest_ok(e, 0, Seq::empty())
}

/// The checks made when a struct of kind `k` ends.
pub open spec fn kind_ok(k: Kind, f: FactsView) -> bool {
    match k {
        Kind::IntType => match f.int1 {
            Some(w) => w == 8 || w == 16 || w == 32 || w == 64,
            None => true,
        },
        Kind::SchemaElem => match f.int2 {
            Some(l) => l <= 268435455,
            None => true,
        },
        Kind::ColumnMeta => stats_ok(f.int1, f.stats12),
        Kind::FileMeta => schema_ok(f.elems, f.count7),
        _ => true,
    }
}

// ─── The compact protocol ───────────────────────────────────────────────────

pub open spec fn pow128(i: nat) -> nat
    decreases i,
{
    if i == 0 {
        1
    } else {
        128 * pow128((i - 1) as nat)
    }
}

/// A varint of at most ten bytes from `pos + i` on, `acc` holding the value
/// of the bytes before; refused where its value does not fit 64 bits.
pub open spec fn varint_from(b: Seq<u8>, pos: int, i: nat, acc: nat) -> Option<(int, u64)>
    decreases 10 - i,
{
    if i >= 10 || pos < 0 || pos + i >= b.len() {
        None
    } else {
        let byte = b[pos + i];
        let acc2 = acc + (byte % 128) as nat * pow128(i);
        if byte < 128 {
            if acc2 <= u64::MAX {
                Some((pos + i + 1, acc2 as u64))
            } else {
                None
            }
        } else {
            varint_from(b, pos, i + 1, acc2)
        }
    }
}

pub open spec fn varint(b: Seq<u8>, pos: int) -> Option<(int, u64)> {
    varint_from(b, pos, 0, 0)
}

pub open spec fn zigzag(v: u64) -> int {
    if v % 2 == 0 {
        (v / 2) as int
    } else {
        -((v / 2) as int) - 1
    }
}

/// A field header after field `last`: the position after it, the wire type
/// (0 for the end of the struct) and the field id.
pub open spec fn field_header(b: Seq<u8>, pos: int, last: int) -> Option<(int, u8, int)> {
    if pos < 0 || pos >= b.len() {
        None
    } else {
        let h = b[pos];
        let t = h % 16;
        let d = h / 16;
        if t == 0 {
            Some((pos + 1, 0u8, last))
        } else if t > 12 {
            None
        } else if d != 0 {
            if last + d > 32767 {
                None
            } else {
                Some((pos + 1, t, last + d))
            }
        } else {
            match varint(b, pos + 1) {
                None => None,
                Some((p, v)) => {
                    let z = zigzag(v);
                    if z < -32768 || z > 32767 {
                        None
                    } else {
                        Some((p, t, z))
                    }
                },
            }
        }
    }
}

/// A list header: the position after it, the element type and the count,
/// refused where the count exceeds the bytes that remain.
pub open spec fn list_header(b: Seq<u8>, pos: int) -> Option<(int, u8, int)> {
    if pos < 0 || pos >= b.len() {
        None
    } else {
        let h = b[pos];
        let e = h % 16;
        let c = h / 16;
        if c != 15 {
            if c as int > b.len() - (pos + 1) {
                None
            } else {
                Some((pos + 1, e, c as int))
            }
        } else {
            match varint(b, pos + 1) {
                None => None,
                Some((p, v)) => if v as int > b.len() - p {
                    None
                } else {
                    Some((p, e, v as int))
                },
            }
        }
    }
}

/// Element types that the reader can skip in a list.
pub open spec fn skippable_elem(e: u8) -> bool {
    e == 1 || (3 <= e && e <= 9) || e == 12
}

// ─── Skipping ───────────────────────────────────────────────────────────────

/// Skipping a value of wire type `wire`, as the reader skips an unknown
/// field (`in_list` for a list element, where a boolean takes a byte).
pub open spec fn skip_value(b: Seq<u8>, pos: int, wire: u8, depth: nat, in_list: bool) -> Option<int>
    decreases depth, b.len() - pos, 2nat,
{
    if depth == 0 || pos < 0 || pos > b.len() {
        None
    } else if wire == 1 || wire == 2 {
        if !in_list {
            Some(pos)
        } else if pos < b.len() {
            Some(pos + 1)
        } else {
            None
        }
    } else if wire == 3 {
        if pos < b.len() {
            Some(pos + 1)
        } else {
            None
        }
    } else if wire == 4 || wire == 5 || wire == 6 {
        match varint(b, pos) {
            Some((p, _)) => Some(p),
            None => None,
        }
    } else if wire == 7 {
        if pos + 8 <= b.len() {
            Some(pos + 8)
        } else {
            None
        }
    } else if wire == 8 {
        match varint(b, pos) {
            Some((p, n)) => if n as int <= b.len() - p {
                Some(p + n)
            } else {
                None
            },
            None => None,
        }
    } else if wire == 9 {
        match list_header(b, pos) {
            Some((p, e, n)) => if !skippable_elem(e) || p <= pos || p > b.len() {
                None
            } else {
                skip_items(b, p, e, n, depth)
            },
            None => None,
        }
    } else if wire == 12 {
        skip_fields(b, pos, depth, 0)
    } else {
        None
    }
}

pub open spec fn skip_fields(b: Seq<u8>, pos: int, depth: nat, last: int) -> Option<int>
    decreases depth, b.len() - pos, 1nat,
{
    if depth == 0 || pos < 0 || pos > b.len() {
        None
    } else {
        match field_header(b, pos, last) {
            None => None,
            Some((p, t, id)) => if t == 0 {
                Some(p)
            } else {
                match skip_value(b, p, t, (depth - 1) as nat, false) {
                    None => None,
                    Some(p2) => if p2 <= pos || p2 > b.len() {
                        None
                    } else {
                        skip_fields(b, p2, depth, id)
                    },
                }
            },
        }
    }
}

pub open spec fn skip_items(b: Seq<u8>, pos: int, e: u8, n: int, depth: nat) -> Option<int>
    decreases depth, b.len() - pos, 0nat,
{
    if depth == 0 || pos < 0 || pos > b.len() {
        None
    } else if n <= 0 {
        Some(pos)
    } else {
        match skip_value(b, pos, e, (depth - 1) as nat, true) {
            None => None,
            Some(p) => if p <= pos || p > b.len() {
                None
            } else {
                skip_items(b, p, e, n - 1, depth)
            },
        }
    }
}

// ─── Walking the known structs ──────────────────────────────────────────────

/// Walking a struct of kind `k`: its fields, then the checks of its kind.
pub open spec fn walk_struct(b: Seq<u8>, pos: int, k: Kind, depth: nat) -> Option<(int, Summary)>
    decreases depth, b.len() - pos, 2nat,
{
    if depth == 0 || pos < 0 || pos > b.len() {
        None
    } else {
        match walk_fields(b, pos, k, depth, 0, empty_facts()) {
            None => None,
            Some((p, f)) => if kind_ok(k, f) {
                Some((p, summarize(f)))
            } else {
                None
            },
        }
    }
}

pub open spec fn walk_fields(b: Seq<u8>, pos: int, k: Kind, depth: nat, last: int, f: FactsView) -> Option<
    (int, FactsView),
>
    decreases depth, b.len() - pos, 1nat,
{
    if depth == 0 || pos < 0 || pos > b.len() {
        None
    } else {
        match field_header(b, pos, last) {
            None => None,
            Some((p, t, id)) => if t == 0 {
                Some((p, f))
            } else {
                let r = match expect(k, id) {
                    None => match skip_value(b, p, t, (depth - 1) as nat, false) {
                        Some(p2) => Some((p2, ValView::Nothing)),
                        None => None,
                    },
                    Some(e) => walk_value(b, p, e, t, (depth - 1) as nat),
                };
                match r {
                    None => None,
                    Some((p2, v)) => if p2 <= pos || p2 > b.len() {
                        None
                    } else {
                        walk_fields(b, p2, k, depth, id, record(id, v, f))
                    },
                }
            },
        }
    }
}

/// Reading a value that the reader expects to be `e`, which came with wire
/// type `t`.
pub open spec fn walk_value(b: Seq<u8>, pos: int, e: Exp, t: u8, depth: nat) -> Option<(int, ValView)>
    decreases depth, b.len() - pos, 3nat,
{
    if depth == 0 || pos < 0 || pos > b.len() {
        None
    } else {
        match e {
            Exp::Bool => if t == 1 || t == 2 {
                Some((pos, ValView::Nothing))
            } else {
                None
            },
            Exp::I8 => if t == 3 && pos < b.len() {
                Some((pos + 1, ValView::Int(b[pos] as i64)))
            } else {
                None
            },
            Exp::I16 => if t == 4 {
                match varint(b, pos) {
                    Some((p, _)) => Some((p, ValView::Nothing)),
                    None => None,
                }
            } else {
                None
            },
            Exp::I32 => if t == 5 {
                match varint(b, pos) {
                    Some((p, v)) => {
                        let z = zigzag(v);
                        if z < i32::MIN || z > i32::MAX {
                            None
                        } else {
                            Some((p, ValView::Int(z as i64)))
                        }
                    },
                    None => None,
                }
            } else {
                None
            },
            Exp::I64 => if t == 6 {
                match varint(b, pos) {
                    Some((p, _)) => Some((p, ValView::Nothing)),
                    None => None,
                }
            } else {
                None
            },
            Exp::Bin => if t == 8 {
                match varint(b, pos) {
                    Some((p, n)) => if n as int <= b.len() - p {
                        Some((p + n, ValView::Len(n)))
                    } else {
                        None
                    },
                    None => None,
                }
            } else {
                None
            },
            Exp::Rec(k) => if t == 12 {
                match walk_struct(b, pos, k, depth) {
                    Some((p, s)) => Some((p, ValView::Sub(s))),
                    None => None,
                }
            } else {
                None
            },
            Exp::List(item) => if t == 9 {
                match list_header(b, pos) {
                    Some((p, el, n)) => if el == item_wire(item) && pos < p <= b.len() {
                        match walk_items(b, p, item, n, depth, Seq::empty()) {
                            Some((p2, infos)) => Some((p2, ValView::Items(n as u64, infos))),
                            None => None,
                        }
                    } else {
                        None
                    },
                    None => None,
                }
            } else {
                None
            },
        }
    }
}

pub open spec fn walk_items(b: Seq<u8>, pos: int, item: Item, n: int, depth: nat, acc: Seq<ElemInfo>) -> Option<
    (int, Seq<ElemInfo>),
>
    decreases depth, b.len() - pos, 0nat,
{
    if depth == 0 || pos < 0 || pos > b.len() {
        None
    } else if n <= 0 {
        Some((pos, acc))
    } else {
        match walk_value(b, pos, item_exp(item), item_wire(item), (depth - 1) as nat) {
            None => None,
            Some((p, v)) => if p <= pos || p > b.len() {
                None
            } else {
                walk_items(
                    b,
                    p,
                    item,
                    n - 1,
                    depth,
                    match v {
                        ValView::Sub(s) => acc.push(s.info),
                        _ => acc,
                    },
                )
            },
        }
    }
}

/// Footer bytes that the check accepts.
pub open spec fn footer_checked(b: Seq<u8>) -> bool {
    b.len() <= MAX_FOOTER_LEN && walk_struct(b, 0, Kind::FileMeta, CHECK_DEPTH as nat) is Some
}

// ─── The check, executed ────────────────────────────────────────────────────

proof fn lemma_pow128_bound(i: nat)
    requires
        i <= 9,
    ensures
        pow128(i) <= pow128(9),
        pow128(9) == 0x8000_0000_0000_0000,
    decreases 9 - i,
{
    reveal_with_fuel(pow128, 10);
    if i < 9 {
        lemma_pow128_bound(i + 1);
    }
}

proof fn lemma_varint_too_big(b: Seq<u8>, pos: int, i: nat, acc: nat)
    requires
        acc > u64::MAX,
    ensures
        varint_from(b, pos, i, acc) is None,
    decreases 10 - i,
{
    if !(i >= 10 || pos < 0 || pos + i >= b.len()) {
        let byte = b[pos + i];
        let acc2 = acc + (byte % 128) as nat * pow128(i);
        if byte >= 128 {
            lemma_varint_too_big(b, pos, i + 1, acc2);
        }
    }
}

fn read_varint(b: &[u8], pos: usize) -> (r: Option<(usize, u64)>)
    ensures
        match r {
            Some((p, v)) => varint(b@, pos as int) == Some((p as int, v)) && pos < p <= b.len(),
            None => varint(b@, pos as int) is None,
        },
{
    let mut i: usize = 0;
    let mut acc: u64 = 0;
    let mut mult: u64 = 1;
    while i < 10
        invariant
            i <= 10,
            i <= 9 ==> mult as nat == pow128(i as nat),
            varint_from(b@, pos as int, i as nat, acc as nat) == varint(b@, pos as int),
        decreases 10 - i,
    {
        if pos >= b.len() || i >= b.len() - pos {
            return None;
        }
        let byte = b[pos + i];
        let digit = (byte % 128) as u64;
        proof {
            lemma_pow128_bound(i as nat);
        }
        let acc2 = match digit.checked_mul(mult) {
            Some(x) => acc.checked_add(x),
            None => None,
        };
        if byte < 128 {
            return match acc2 {
                Some(v) => Some((pos + i + 1, v)),
                None => None,
            };
        }
        match acc2 {
            Some(v) => {
                acc = v;
            },
            None => {
                proof {
                    lemma_varint_too_big(
                        b@,
                        pos as int,
                        (i + 1) as nat,
                        acc as nat + (byte % 128) as nat * pow128(i as nat),
                    );
                }
                return None;
            },
        }
        if i < 9 {
            proof {
                lemma_pow128_bound((i + 1) as nat);
            }
            mult = mult * 128;
        }
        i += 1;
    }
    None
}

fn zigzag_exec(v: u64) -> (z: i128)
    ensures
        z as int == zigzag(v),
{
    let h = (v / 2) as i128;
    if v % 2 == 0 {
        h
    } else {
        -h - 1
    }
}

fn read_field_header(b: &[u8], pos: usize, last: i64) -> (r: Option<(usize, u8, i64)>)
    requires
        -32768 <= last <= 32767,
    ensures
        match r {
            Some((p, t, id)) => field_header(b@, pos as int, last as int) == Some((p as int, t, id as int))
                && pos < p <= b.len() && -32768 <= id <= 32767,
            None => field_header(b@, pos as int, last as int) is None,
        },
{
    if pos >= b.len() {
        return None;
    }
    let h = b[pos];
    let t = h % 16;
    let d = h / 16;
    if t == 0 {
        return Some((pos + 1, 0u8, last));
    }
    if t > 12 {
        return None;
    }
    if d != 0 {
        let id = last + d as i64;
        if id > 32767 {
            return None;
        }
        return Some((pos + 1, t, id));
    }
    match read_varint(b, pos + 1) {
        None => None,
        Some((p, v)) => {
            let z = zigzag_exec(v);
            if z < -32768 || z > 32767 {
                None
            } else {
                Some((p, t, z as i64))
            }
        },
    }
}

fn read_list_header(b: &[u8], pos: usize) -> (r: Option<(usize, u8, u64)>)
    ensures
        match r {
            Some((p, e, n)) => list_header(b@, pos as int) == Some((p as int, e, n as int)) && pos < p
                <= b.len() && n <= b.len() - p,
            None => list_header(b@, pos as int) is None,
        },
{
    if pos >= b.len() {
        return None;
    }
    let h = b[pos];
    let e = h % 16;
    let c = h / 16;
    if c != 15 {
        if c as usize > b.len() - (pos + 1) {
            return None;
        }
        return Some((pos + 1, e, c as u64));
    }
    match read_varint(b, pos + 1) {
        None => None,
        Some((p, v)) => if v > (b.len() - p) as u64 {
            None
        } else {
            Some((p, e, v))
        },
    }
}

fn skip_value_exec(b: &[u8], pos: usize, wire: u8, depth: u64, in_list: bool) -> (r: Option<usize>)
    requires
        pos <= b.len(),
    ensures
        match r {
            Some(p) => skip_value(b@, pos as int, wire, depth as nat, in_list) == Some(p as int) && p <= b.len(),
            None => skip_value(b@, pos as int, wire, depth as nat, in_list) is None,
        },
    decreases depth,
{
    if depth == 0 {
        return None;
    }
    if wire == 1 || wire == 2 {
        if !in_list {
            Some(pos)
        } else if pos < b.len() {
            Some(pos + 1)
        } else {
            None
        }
    } else if wire == 3 {
        if pos < b.len() {
            Some(pos + 1)
        } else {
            None
        }
    } else if wire == 4 || wire == 5 || wire == 6 {
        match read_varint(b, pos) {
            Some((p, _)) => Some(p),
            None => None,
        }
    } else if wire == 7 {
        if b.len() - pos >= 8 {
            Some(pos + 8)
        } else {
            None
        }
    } else if wire == 8 {
        match read_varint(b, pos) {
            Some((p, n)) => if n <= (b.len() - p) as u64 {
                Some(p + n as usize)
            } else {
                None
            },
            None => None,
        }
    } else if wire == 9 {
        match read_list_header(b, pos) {
            None => None,
            Some((p, e, n)) => {
                if !(e == 1 || (3 <= e && e <= 9) || e == 12) {
                    return None;
                }
                let mut cur = p;
                let mut left = n;
                assert(skip_value(b@, pos as int, wire, depth as nat, in_list) == skip_items(
                    b@,
                    p as int,
                    e,
                    n as int,
                    depth as nat,
                ));
                while left > 0
                    invariant
                        cur <= b.len(),
                        depth > 0,
                        skip_items(b@, cur as int, e, left as int, depth as nat) == skip_value(
                            b@,
                            pos as int,
                            wire,
                            depth as nat,
                            in_list,
                        ),
                    decreases left,
                {
                    match skip_value_exec(b, cur, e, depth - 1, true) {
                        None => {
                            return None;
                        },
                        Some(q) => {
                            if q <= cur || q > b.len() {
                                return None;
                            }
                            cur = q;
                            left = left - 1;
                        },
                    }
                }
                Some(cur)
            },
        }
    } else if wire == 12 {
        let mut cur = pos;
        let mut last: i64 = 0;
        assert(skip_value(b@, pos as int, wire, depth as nat, in_list) == skip_fields(
            b@,
            pos as int,
            depth as nat,
            0,
        ));
        loop
            invariant
                cur <= b.len(),
                depth > 0,
                -32768 <= last <= 32767,
                skip_fields(b@, cur as int, depth as nat, last as int) == skip_value(
                    b@,
                    pos as int,
                    wire,
                    depth as nat,
                    in_list,
                ),
            decreases b.len() - cur,
        {
            match read_field_header(b, cur, last) {
                None => {
                    return None;
                },
                Some((p, t, id)) => {
                    if t == 0 {
                        return Some(p);
                    }
                    match skip_value_exec(b, p, t, depth - 1, false) {
                        None => {
                            return None;
                        },
                        Some(q) => {
                            if q <= cur || q > b.len() {
                                return None;
                            }
                            cur = q;
                            last = id;
                        },
                    }
                },
            }
        }
    } else {
        None
    }
}

fn record_exec(id: i64, v: Val, f: Facts) -> (r: Facts)
    ensures
        r@ == record(id as int, v@, f@),
{
    match v {
        Val::Int(x) => if id == 1 {
            Facts { int1: Some(x), ..f }
        } else if id == 2 {
            Facts { int2: Some(x), ..f }
        } else if id == 3 {
            Facts { has3: true, ..f }
        } else if id == 5 {
            Facts { int5: Some(x), ..f }
        } else {
            f
        },
        Val::Len(n) => if id == 1 {
            Facts { b1: Some(n), ..f }
        } else if id == 2 {
            Facts { b2: Some(n), ..f }
        } else if id == 5 {
            Facts { b5: Some(n), ..f }
        } else if id == 6 {
            Facts { b6: Some(n), ..f }
        } else {
            f
        },
        Val::Sub(s) => if id == 12 {
            Facts { stats12: Some(s.stats), ..f }
        } else {
            f
        },
        Val::Items(c, infos) => if id == 2 {
            Facts { elems: infos, ..f }
        } else if id == 7 {
            Facts { count7: Some(c), ..f }
        } else {
            f
        },
        Val::Nothing => f,
    }
}

fn summarize_exec(f: &Facts) -> (s: Summary)
    ensures
        s == summarize(f@),
{
    Summary {
        info: ElemInfo { has_type: f.int1.is_some(), num_children: f.int5, has_repetition: f.has3 },
        stats: StatLens { max: f.b1, min: f.b2, max_value: f.b5, min_value: f.b6 },
    }
}

fn stat_len_ok_exec(t: i64, len: Option<u64>) -> (r: bool)
    ensures
        r == stat_len_ok(t, len),
{
    match len {
        None => true,
        Some(n) => if t == 0 {
            n >= 1
        } else if t == 1 || t == 4 {
            n >= 4
        } else if t == 2 || t == 5 {
            n >= 8
        } else if t == 3 {
            n == 12
        } else {
            true
        },
    }
}

fn stats_ok_exec(t: Option<i64>, s: Option<StatLens>) -> (r: bool)
    ensures
        r == stats_ok(t, s),
{
    match (t, s) {
        (Some(t), Some(s)) => {
            let old = s.min_value.is_none() && s.max_value.is_none();
            let mn = if old { s.min } else { s.min_value };
            let mx = if old { s.max } else { s.max_value };
            stat_len_ok_exec(t, mn) && stat_len_ok_exec(t, mx)
        },
        _ => true,
    }
}

fn leafish_exec(e: ElemInfo) -> (r: bool)
    ensures
        r == leafish(e),
{
    match e.num_children {
        None => true,
        Some(n) => n == 0,
    }
}

fn nest_ok_exec(e: &Vec<ElemInfo>) -> (r: bool)
    ensures
        r == nest_ok(e@, 0, Seq::empty()),
{
    let mut stack: Vec<i64> = Vec::new();
    let mut i: usize = 0;
    while i < e.len()
        invariant
            i <= e.len(),
            nest_ok(e@, i as int, stack@) == nest_ok(e@, 0, Seq::empty()),
        decreases e.len() - i,
    {
        let ghost before = stack@;
        while stack.len() > 0 && stack[stack.len() - 1] <= 0
            invariant
                pop_done(stack@) == pop_done(before),
            decreases stack.len(),
        {
            let ghost s0 = stack@;
            stack.pop();
            assert(stack@ == s0.drop_last());
        }
        assert(stack@ == pop_done(before));
        if stack.len() as u64 > MAX_SCHEMA_DEPTH {
            return false;
        }
        if stack.len() > 0 {
            let l = stack.len() - 1;
            let v = stack[l];
            stack.set(l, v - 1);
        }
        match e[i].num_children {
            Some(n) => if n > 0 {
                stack.push(n);
            },
            None => {},
        }
        i += 1;
    }
    true
}

fn schema_ok_exec(e: &Vec<ElemInfo>, orders: Option<u64>) -> (r: bool)
    ensures
        r == schema_ok(e@, orders),
{
    if e.len() == 0 {
        return match orders {
            Some(c) => c == 0,
            None => true,
        } && nest_ok_exec(e);
    }
    let e0 = e[0];
    if leafish_exec(e0) && e0.has_type {
        return false;
    }
    let mut i: usize = 1;
    let mut leaves: u64 = 0;
    while i < e.len()
        invariant
            1 <= i <= e.len(),
            leaves == leaf_count(e@, i as int),
            leaves <= i,
            forall|j: int|
                1 <= j < i ==> ((#[trigger] e@[j]).num_children matches Some(n) && n > 0 ==> e@[j].has_repetition),
        decreases e.len() - i,
    {
        let x = e[i];
        match x.num_children {
            Some(n) => if n > 0 && !x.has_repetition {
                return false;
            },
            None => {},
        }
        if leafish_exec(x) && x.has_type {
            leaves = leaves + 1;
        }
        i += 1;
    }
    let orders_ok = match orders {
        Some(c) => c == leaves,
        None => true,
    };
    orders_ok && nest_ok_exec(e)
}

fn kind_ok_exec(k: Kind, f: &Facts) -> (r: bool)
    ensures
        r == kind_ok(k, f@),
{
    match k {
        Kind::IntType => match f.int1 {
            Some(w) => w == 8 || w == 16 || w == 32 || w == 64,
            None => true,
        },
        Kind::SchemaElem => match f.int2 {
            Some(l) => l <= 268435455,
            None => true,
        },
        Kind::ColumnMeta => stats_ok_exec(f.int1, f.stats12),
        Kind::FileMeta => schema_ok_exec(&f.elems, f.count7),
        _ => true,
    }
}

fn walk_struct_exec(b: &[u8], pos: usize, k: Kind, depth: u64) -> (r: Option<(usize, Summary)>)
    requires
        pos <= b.len(),
    ensures
        match r {
            Some((p, s)) => walk_struct(b@, pos as int, k, depth as nat) == Some((p as int, s)) && p <= b.len(),
            None => walk_struct(b@, pos as int, k, depth as nat) is None,
        },
    decreases depth, 0int,
{
    if depth == 0 {
        return None;
    }
    let mut f = Facts {
        int1: None,
        int2: None,
        int5: None,
        has3: false,
        b1: None,
        b2: None,
        b5: None,
        b6: None,
        stats12: None,
        elems: Vec::new(),
        count7: None,
    };
    assert(f@ == empty_facts()) by {
        assert(f@.elems =~= Seq::<ElemInfo>::empty());
    }
    let mut cur = pos;
    let mut last: i64 = 0;
    loop
        invariant
            cur <= b.len(),
            depth > 0,
            -32768 <= last <= 32767,
            walk_struct(b@, pos as int, k, depth as nat) == match walk_fields(
                b@,
                cur as int,
                k,
                depth as nat,
                last as int,
                f@,
            ) {
                None => None,
                Some((p, ff)) => if kind_ok(k, ff) {
                    Some((p, summarize(ff)))
                } else {
                    None
                },
            },
        decreases b.len() - cur,
    {
        match read_field_header(b, cur, last) {
            None => {
                return None;
            },
            Some((p, t, id)) => {
                if t == 0 {
                    if kind_ok_exec(k, &f) {
                        return Some((p, summarize_exec(&f)));
                    } else {
                        return None;
                    }
                }
                let r = match expect_exec(k, id) {
                    None => match skip_value_exec(b, p, t, depth - 1, false) {
                        Some(p2) => Some((p2, Val::Nothing)),
                        None => None,
                    },
                    Some(e) => walk_value_exec(b, p, e, t, depth - 1),
                };
                match r {
                    None => {
                        return None;
                    },
                    Some((p2, v)) => {
                        if p2 <= cur || p2 > b.len() {
                            return None;
                        }
                        f = record_exec(id, v, f);
                        cur = p2;
                        last = id;
                    },
                }
            },
        }
    }
}

fn walk_value_exec(b: &[u8], pos: usize, e: Exp, t: u8, depth: u64) -> (r: Option<(usize, Val)>)
    requires
        pos <= b.len(),
    ensures
        match r {
            Some((p, v)) => walk_value(b@, pos as int, e, t, depth as nat) == Some((p as int, v@)) && p <= b.len(),
            None => walk_value(b@, pos as int, e, t, depth as nat) is None,
        },
    decreases depth, 1int,
{
    if depth == 0 {
        return None;
    }
    match e {
        Exp::Bool => if t == 1 || t == 2 {
            Some((pos, Val::Nothing))
        } else {
            None
        },
        Exp::I8 => if t == 3 && pos < b.len() {
            Some((pos + 1, Val::Int(b[pos] as i64)))
        } else {
            None
        },
        Exp::I16 => if t == 4 {
            match read_varint(b, pos) {
                Some((p, _)) => Some((p, Val::Nothing)),
                None => None,
            }
        } else {
            None
        },
        Exp::I32 => if t == 5 {
            match read_varint(b, pos) {
                Some((p, v)) => {
                    let z = zigzag_exec(v);
                    if z < -2147483648 || z > 2147483647 {
                        None
                    } else {
                        Some((p, Val::Int(z as i64)))
                    }
                },
                None => None,
            }
        } else {
            None
        },
        Exp::I64 => if t == 6 {
            match read_varint(b, pos) {
                Some((p, _)) => Some((p, Val::Nothing)),
                None => None,
            }
        } else {
            None
        },
        Exp::Bin => if t == 8 {
            match read_varint(b, pos) {
                Some((p, n)) => if n <= (b.len() - p) as u64 {
                    Some((p + n as usize, Val::Len(n)))
                } else {
                    None
                },
                None => None,
            }
        } else {
            None
        },
        Exp::Rec(k) => if t == 12 {
            match walk_struct_exec(b, pos, k, depth) {
                Some((p, s)) => Some((p, Val::Sub(s))),
                None => None,
            }
        } else {
            None
        },
        Exp::List(item) => if t == 9 {
            match read_list_header(b, pos) {
                None => None,
                Some((p, el, n)) => {
                    if el != item_wire_exec(item) {
                        return None;
                    }
                    let ie = item_exp_exec(item);
                    let iw = item_wire_exec(item);
                    let mut acc: Vec<ElemInfo> = Vec::new();
                    let mut cur = p;
                    let mut left = n;
                    assert(acc@ =~= Seq::<ElemInfo>::empty());
                    while left > 0
                        invariant
                            cur <= b.len(),
                            depth > 0,
                            ie == item_exp(item),
                            iw == item_wire(item),
                            walk_value(b@, pos as int, e, t, depth as nat) == match walk_items(
                                b@,
                                cur as int,
                                item,
                                left as int,
                                depth as nat,
                                acc@,
                            ) {
                                Some((p2, infos)) => Some((p2, ValView::Items(n, infos))),
                                None => None,
                            },
                        decreases left,
                    {
                        match walk_value_exec(b, cur, ie, iw, depth - 1) {
                            None => {
                                return None;
                            },
                            Some((q, v)) => {
                                if q <= cur || q > b.len() {
                                    return None;
                                }
                                match v {
                                    Val::Sub(s) => {
                                        acc.push(s.info);
                                    },
                                    _ => {},
                                }
                                cur = q;
                                left = left - 1;
                            },
                        }
                    }
                    Some((cur, Val::Items(n, acc)))
                },
            }
        } else {
            None
        },
    }
}

/// Whether the `parquet` crate can be handed `bytes` as footer metadata:
/// the check described at the top of this module.
pub fn check_footer(bytes: &[u8]) -> (r: bool)
    ensures
        r == footer_checked(bytes@),
{
    if bytes.len() as u64 > MAX_FOOTER_LEN {
        return false;
    }
    match walk_struct_exec(bytes, 0, Kind::FileMeta, CHECK_DEPTH) {
        Some(_) => true,
        None => false,
    }
}


} // verus!
