//! A schema representation shared by Parquet, Avro, ORC and Hive, and the
//! comparison of two schemas.
use vstd::prelude::*;
use crate::props::StringMap;
use crate::text::str_eq;

verus! {

#[derive(Debug)]
pub struct Schema {
    pub fields: Vec<Field>,
    pub source: SchemaSource,
}

#[derive(Debug)]
pub struct Field {
    pub name: String,
    pub field_type: FieldType,
    pub nullable: bool,
    pub metadata: StringMap,
}

#[derive(Debug)]
pub enum FieldType {
    Boolean,
    Int8,
    Int16,
    Int32,
    Int64,
    Float32,
    Float64,
    Decimal { precision: u8, scale: i8 },
    Utf8,
    LargeUtf8,
    Binary,
    LargeBinary,
    Date32,
    Date64,
    Timestamp { timezone: Option<String> },
    List(Box<FieldType>),
    /// A map from `key` to `value` values.
    MapOf { key: Box<FieldType>, value: Box<FieldType> },
    Struct(Vec<Field>),
    /// A type with no mapping; keeps the original name.
    Unknown(String),
}

#[derive(Debug)]
pub enum SchemaSource {
    Parquet { path: String, row_groups: usize, row_count: u64 },
    Avro { path: String },
    Orc { path: String },
    Hive { database: String, table: String },
}

/// The result of comparing two schemas.
#[derive(Debug)]
pub struct SchemaDiff {
    pub source_a: SchemaSource,
    pub source_b: SchemaSource,
    pub changes: Vec<DiffResult>,
    /// false when some change breaks readers of the old schema
    pub compatible: bool,
}

#[derive(Debug)]
pub enum DiffResult {
    /// A field of B that A lacks.
    Added { field: Field },
    /// A field of A that B lacks (breaking).
    Removed { field: Field },
    Changed { name: String, from: FieldType, to: FieldType, breaking: bool },
    Reordered { name: String, from_pos: usize, to_pos: usize },
}

// ─── Views ──────────────────────────────────────────────────────────────────

pub enum FieldTypeView {
    Boolean,
    Int8,
    Int16,
    Int32,
    Int64,
    Float32,
    Float64,
    Decimal { precision: u8, scale: i8 },
    Utf8,
    LargeUtf8,
    Binary,
    LargeBinary,
    Date32,
    Date64,
    Timestamp { timezone: Option<Seq<char>> },
    List(Box<FieldTypeView>),
    MapOf { key: Box<FieldTypeView>, value: Box<FieldTypeView> },
    Struct(Seq<FieldView>),
    Unknown(Seq<char>),
}

pub struct FieldView {
    pub name: Seq<char>,
    pub field_type: FieldTypeView,
    pub nullable: bool,
    pub metadata: Map<Seq<char>, Seq<char>>,
}

pub enum SourceView {
    Parquet { path: Seq<char>, row_groups: usize, row_count: u64 },
    Avro { path: Seq<char> },
    Orc { path: Seq<char> },
    Hive { database: Seq<char>, table: Seq<char> },
}

pub enum DiffView {
    Added { field: FieldView },
    Removed { field: FieldView },
    Changed { name: Seq<char>, from: FieldTypeView, to: FieldTypeView, breaking: bool },
    Reordered { name: Seq<char>, from_pos: usize, to_pos: usize },
}

pub open spec fn ft_view(t: FieldType) -> FieldTypeView
    decreases t,
{
    match t {
        FieldType::Boolean => FieldTypeView::Boolean,
        FieldType::Int8 => FieldTypeView::Int8,
        FieldType::Int16 => FieldTypeView::Int16,
        FieldType::Int32 => FieldTypeView::Int32,
        FieldType::Int64 => FieldTypeView::Int64,
        FieldType::Float32 => FieldTypeView::Float32,
        FieldType::Float64 => FieldTypeView::Float64,
        FieldType::Decimal { precision, scale } => FieldTypeView::Decimal { precision, scale },
        FieldType::Utf8 => FieldTypeView::Utf8,
        FieldType::LargeUtf8 => FieldTypeView::LargeUtf8,
        FieldType::Binary => FieldTypeView::Binary,
        FieldType::LargeBinary => FieldTypeView::LargeBinary,
        FieldType::Date32 => FieldTypeView::Date32,
        FieldType::Date64 => FieldTypeView::Date64,
        FieldType::Timestamp { timezone } => FieldTypeView::Timestamp {
            timezone: match timezone {
                Some(z) => Some(z@),
                None => None,
            },
        },
        FieldType::List(e) => FieldTypeView::List(Box::new(ft_view(*e))),
        FieldType::MapOf { key, value } => FieldTypeView::MapOf {
            key: Box::new(ft_view(*key)),
            value: Box::new(ft_view(*value)),
        },
        FieldType::Struct(fs) => FieldTypeView::Struct(fields_view(fs@)),
        FieldType::Unknown(n) => FieldTypeView::Unknown(n@),
    }
}

pub open spec fn fields_view(fs: Seq<Field>) -> Seq<FieldView>
    decreases fs,
{
    if fs.len() == 0 {
        Seq::empty()
    } else {
        fields_view(fs.drop_last()).push(field_view(fs.last()))
    }
}

pub open spec fn field_view(f: Field) -> FieldView
    decreases f,
{
    FieldView {
        name: f.name@,
        field_type: ft_view(f.field_type),
        nullable: f.nullable,
        metadata: f.metadata@,
    }
}

pub open spec fn source_view(s: SchemaSource) -> SourceView {
    match s {
        SchemaSource::Parquet { path, row_groups, row_count } => SourceView::Parquet {
            path: path@,
            row_groups,
            row_count,
        },
        SchemaSource::Avro { path } => SourceView::Avro { path: path@ },
        SchemaSource::Orc { path } => SourceView::Orc { path: path@ },
        SchemaSource::Hive { database, table } => SourceView::Hive {
            database: database@,
            table: table@,
        },
    }
}

pub open spec fn diff_view(d: DiffResult) -> DiffView {
    match d {
        DiffResult::Added { field } => DiffView::Added { field: field_view(field) },
        DiffResult::Removed { field } => DiffView::Removed { field: field_view(field) },
        DiffResult::Changed { name, from, to, breaking } => DiffView::Changed {
            name: name@,
            from: ft_view(from),
            to: ft_view(to),
            breaking,
        },
        DiffResult::Reordered { name, from_pos, to_pos } => DiffView::Reordered {
            name: name@,
            from_pos,
            to_pos,
        },
    }
}

pub open spec fn diffs_view(ds: Seq<DiffResult>) -> Seq<DiffView> {
    ds.map_values(|d: DiffResult| diff_view(d))
}

// ─── Copying and equality ───────────────────────────────────────────────────

proof fn lemma_fields_view_len(s: Seq<Field>)
    ensures
        fields_view(s).len() == s.len(),
    decreases s.len(),
{
    if s.len() > 0 {
        lemma_fields_view_len(s.drop_last());
    }
}

proof fn lemma_fields_view_index(s: Seq<Field>, i: int)
    requires
        0 <= i < s.len(),
    ensures
        fields_view(s)[i] == field_view(s[i]),
    decreases s.len(),
{
    lemma_fields_view_len(s.drop_last());
    if i < s.len() - 1 {
        lemma_fields_view_index(s.drop_last(), i);
    }
}

proof fn lemma_fields_view_take(s: Seq<Field>, i: int)
    requires
        0 <= i < s.len(),
    ensures
        fields_view(s.take(i + 1)) == fields_view(s.take(i)).push(field_view(s[i])),
{
    assert(s.take(i + 1).drop_last() =~= s.take(i));
}

/// A copy of a field type.
pub fn clone_field_type(t: &FieldType) -> (r: FieldType)
    ensures
        ft_view(r) == ft_view(*t),
    decreases t,
{
    match t {
        FieldType::Boolean => FieldType::Boolean,
        FieldType::Int8 => FieldType::Int8,
        FieldType::Int16 => FieldType::Int16,
        FieldType::Int32 => FieldType::Int32,
        FieldType::Int64 => FieldType::Int64,
        FieldType::Float32 => FieldType::Float32,
        FieldType::Float64 => FieldType::Float64,
        FieldType::Decimal { precision, scale } => FieldType::Decimal {
            precision: *precision,
            scale: *scale,
        },
        FieldType::Utf8 => FieldType::Utf8,
        FieldType::LargeUtf8 => FieldType::LargeUtf8,
        FieldType::Binary => FieldType::Binary,
        FieldType::LargeBinary => FieldType::LargeBinary,
        FieldType::Date32 => FieldType::Date32,
        FieldType::Date64 => FieldType::Date64,
        FieldType::Timestamp { timezone } => FieldType::Timestamp {
            timezone: match timezone {
                Some(z) => Some(z.clone()),
                None => None,
            },
        },
        FieldType::List(e) => FieldType::List(Box::new(clone_field_type(e))),
        FieldType::MapOf { key, value } => FieldType::MapOf {
            key: Box::new(clone_field_type(key)),
            value: Box::new(clone_field_type(value)),
        },
        FieldType::Struct(fs) => FieldType::Struct(clone_fields(fs)),
        FieldType::Unknown(n) => FieldType::Unknown(n.clone()),
    }
}

/// A copy of a list of fields.
pub fn clone_fields(fs: &Vec<Field>) -> (r: Vec<Field>)
    ensures
        fields_view(r@) == fields_view(fs@),
    decreases fs,
{
    let mut out: Vec<Field> = Vec::new();
    let mut i: usize = 0;
    while i < fs.len()
        invariant
            i <= fs.len(),
            fields_view(out@) == fields_view(fs@.take(i as int)),
        decreases fs.len() - i,
    {
        let f = clone_field(&fs[i]);
        proof {
            lemma_fields_view_take(fs@, i as int);
            assert(out@.push(f).drop_last() =~= out@);
        }
        out.push(f);
        i += 1;
    }
    assert(fs@.take(fs.len() as int) =~= fs@);
    out
}

/// A copy of a field.
pub fn clone_field(f: &Field) -> (r: Field)
    ensures
        field_view(r) == field_view(*f),
    decreases f,
{
    Field {
        name: f.name.clone(),
        field_type: clone_field_type(&f.field_type),
        nullable: f.nullable,
        metadata: f.metadata.clone(),
    }
}

fn opt_string_eq(a: &Option<String>, b: &Option<String>) -> (r: bool)
    ensures
        r == (match (a, b) {
            (Some(x), Some(y)) => x@ == y@,
            (None, None) => true,
            _ => false,
        }),
{
    match (a, b) {
        (Some(x), Some(y)) => str_eq(x.as_str(), y.as_str()),
        (None, None) => true,
        _ => false,
    }
}

/// Whether two field types are the same type.
pub fn field_type_eq(a: &FieldType, b: &FieldType) -> (r: bool)
    ensures
        r == (ft_view(*a) == ft_view(*b)),
    decreases a,
{
    match (a, b) {
        (FieldType::Boolean, FieldType::Boolean) => true,
        (FieldType::Int8, FieldType::Int8) => true,
        (FieldType::Int16, FieldType::Int16) => true,
        (FieldType::Int32, FieldType::Int32) => true,
        (FieldType::Int64, FieldType::Int64) => true,
        (FieldType::Float32, FieldType::Float32) => true,
        (FieldType::Float64, FieldType::Float64) => true,
        (
            FieldType::Decimal { precision: p1, scale: s1 },
            FieldType::Decimal { precision: p2, scale: s2 },
        ) => *p1 == *p2 && *s1 == *s2,
        (FieldType::Utf8, FieldType::Utf8) => true,
        (FieldType::LargeUtf8, FieldType::LargeUtf8) => true,
        (FieldType::Binary, FieldType::Binary) => true,
        (FieldType::LargeBinary, FieldType::LargeBinary) => true,
        (FieldType::Date32, FieldType::Date32) => true,
        (FieldType::Date64, FieldType::Date64) => true,
        (FieldType::Timestamp { timezone: z1 }, FieldType::Timestamp { timezone: z2 }) => {
            opt_string_eq(z1, z2)
        },
        (FieldType::List(e1), FieldType::List(e2)) => field_type_eq(e1, e2),
        (FieldType::MapOf { key: k1, value: v1 }, FieldType::MapOf { key: k2, value: v2 }) => {
            field_type_eq(k1, k2) && field_type_eq(v1, v2)
        },
        (FieldType::Struct(f1), FieldType::Struct(f2)) => fields_eq(f1, f2),
        (FieldType::Unknown(n1), FieldType::Unknown(n2)) => str_eq(n1.as_str(), n2.as_str()),
        _ => false,
    }
}

fn fields_eq(a: &Vec<Field>, b: &Vec<Field>) -> (r: bool)
    ensures
        r == (fields_view(a@) == fields_view(b@)),
    decreases a,
{
    proof {
        lemma_fields_view_len(a@);
        lemma_fields_view_len(b@);
    }
    if a.len() != b.len() {
        return false;
    }
    let mut i: usize = 0;
    while i < a.len()
        invariant
            a.len() == b.len(),
            i <= a.len(),
            fields_view(a@).len() == a.len(),
            fields_view(b@).len() == b.len(),
            forall|j: int| 0 <= j < i ==> fields_view(a@)[j] == fields_view(b@)[j],
        decreases a.len() - i,
    {
        proof {
            lemma_fields_view_index(a@, i as int);
            lemma_fields_view_index(b@, i as int);
        }
        if !field_eq(&a[i], &b[i]) {
            return false;
        }
        i += 1;
    }
    assert(fields_view(a@) =~= fields_view(b@));
    true
}

fn field_eq(a: &Field, b: &Field) -> (r: bool)
    ensures
        r == (field_view(*a) == field_view(*b)),
    decreases a,
{
    str_eq(a.name.as_str(), b.name.as_str()) && field_type_eq(&a.field_type, &b.field_type)
        && a.nullable == b.nullable && a.metadata.same_as(&b.metadata)
}

/// A copy of a schema source.
pub fn clone_source(s: &SchemaSource) -> (r: SchemaSource)
    ensures
        source_view(r) == source_view(*s),
{
    match s {
        SchemaSource::Parquet { path, row_groups, row_count } => SchemaSource::Parquet {
            path: path.clone(),
            row_groups: *row_groups,
            row_count: *row_count,
        },
        SchemaSource::Avro { path } => SchemaSource::Avro { path: path.clone() },
        SchemaSource::Orc { path } => SchemaSource::Orc { path: path.clone() },
        SchemaSource::Hive { database, table } => SchemaSource::Hive {
            database: database.clone(),
            table: table.clone(),
        },
    }
}

// ─── Comparison ─────────────────────────────────────────────────────────────

/// The first field of `fs` named `n`.
pub open spec fn first_named(fs: Seq<FieldView>, n: Seq<char>) -> Option<FieldView>
    decreases fs.len(),
{
    if fs.len() == 0 {
        None
    } else if fs[0].name == n {
        Some(fs[0])
    } else {
        first_named(fs.drop_first(), n)
    }
}

/// A type change that keeps old data readable: a widening.
pub open spec fn compatible_change_spec(from: FieldTypeView, to: FieldTypeView) -> bool {
    ||| (from is Int32 && to is Int64)
    ||| (from is Float32 && to is Float64)
    ||| (from is Utf8 && to is LargeUtf8)
    ||| (from is Binary && to is LargeBinary)
}

/// One `Removed` for each field of `a`, in order, whose name `b` lacks.
pub open spec fn removed_spec(a: Seq<FieldView>, b: Seq<FieldView>) -> Seq<DiffView>
    decreases a.len(),
{
    if a.len() == 0 {
        Seq::empty()
    } else {
        let rest = removed_spec(a.drop_last(), b);
        if first_named(b, a.last().name) is None {
            rest.push(DiffView::Removed { field: a.last() })
        } else {
            rest
        }
    }
}

/// For each field of `b`, in order: `Added` when `a` has no field of its
/// name, `Changed` when the first such field of `a` has another type.
pub open spec fn added_changed_spec(a: Seq<FieldView>, b: Seq<FieldView>) -> Seq<DiffView>
    decreases b.len(),
{
    if b.len() == 0 {
        Seq::empty()
    } else {
        let rest = added_changed_spec(a, b.drop_last());
        let fb = b.last();
        match first_named(a, fb.name) {
            None => rest.push(DiffView::Added { field: fb }),
            Some(fa) => if fa.field_type != fb.field_type {
                rest.push(
                    DiffView::Changed {
                        name: fb.name,
                        from: fa.field_type,
                        to: fb.field_type,
                        breaking: !compatible_change_spec(fa.field_type, fb.field_type),
                    },
                )
            } else {
                rest
            },
        }
    }
}

/// The changes from schema `a` to schema `b`: removals first, then additions and changes.
pub open spec fn changes_spec(a: Seq<FieldView>, b: Seq<FieldView>) -> Seq<DiffView> {
    removed_spec(a, b) + added_changed_spec(a, b)
}

/// A removal, or a change that is not a widening.
pub open spec fn is_breaking(d: DiffView) -> bool {
    ||| d is Removed
    ||| (d matches DiffView::Changed { breaking, .. } && breaking)
}

pub open spec fn no_breaking(ds: Seq<DiffView>) -> bool {
    forall|i: int| 0 <= i < ds.len() ==> !is_breaking(#[trigger] ds[i])
}

fn find_named(fs: &Vec<Field>, n: &String) -> (r: Option<usize>)
    ensures
        match r {
            Some(i) => i < fs.len() && first_named(fields_view(fs@), n@) == Some(
                field_view(fs@[i as int]),
            ),
            None => first_named(fields_view(fs@), n@) is None,
        },
{
    let ghost fv = fields_view(fs@);
    proof {
        lemma_fields_view_len(fs@);
        assert(fv.skip(0) =~= fv);
    }
    let mut i: usize = 0;
    while i < fs.len()
        invariant
            i <= fs.len(),
            fv == fields_view(fs@),
            fv.len() == fs.len(),
            first_named(fv, n@) == first_named(fv.skip(i as int), n@),
        decreases fs.len() - i,
    {
        proof {
            lemma_fields_view_index(fs@, i as int);
            assert(fv.skip(i as int).drop_first() =~= fv.skip(i + 1));
        }
        if str_eq(fs[i].name.as_str(), n.as_str()) {
            return Some(i);
        }
        i += 1;
    }
    None
}

fn is_compatible_change(from: &FieldType, to: &FieldType) -> (r: bool)
    ensures
        r == compatible_change_spec(ft_view(*from), ft_view(*to)),
{
    match (from, to) {
        (FieldType::Int32, FieldType::Int64) => true,
        (FieldType::Float32, FieldType::Float64) => true,
        (FieldType::Utf8, FieldType::LargeUtf8) => true,
        (FieldType::Binary, FieldType::LargeBinary) => true,
        _ => false,
    }
}

impl SchemaDiff {
    /// Compare schema `a` with schema `b`. The result lists the fields that
    /// `b` lost, then those it gained or whose type it changed, and is
    /// compatible when no field was lost and every type change is a widening.
    pub fn compare(a: &Schema, b: &Schema) -> (d: SchemaDiff)
        ensures
            source_view(d.source_a) == source_view(a.source),
            source_view(d.source_b) == source_view(b.source),
            diffs_view(d.changes@) == changes_spec(fields_view(a.fields@), fields_view(b.fields@)),
            d.compatible == no_breaking(diffs_view(d.changes@)),
    {
        let ghost av = fields_view(a.fields@);
        let ghost bv = fields_view(b.fields@);
        proof {
            lemma_fields_view_len(a.fields@);
            lemma_fields_view_len(b.fields@);
        }
        let mut changes: Vec<DiffResult> = Vec::new();
        let mut i: usize = 0;
        while i < a.fields.len()
            invariant
                i <= a.fields.len(),
                av == fields_view(a.fields@),
                bv == fields_view(b.fields@),
                av.len() == a.fields.len(),
                diffs_view(changes@) == removed_spec(av.take(i as int), bv),
            decreases a.fields.len() - i,
        {
            let fa = &a.fields[i];
            let found = find_named(&b.fields, &fa.name);
            proof {
                lemma_fields_view_index(a.fields@, i as int);
                assert(av.take(i + 1).drop_last() =~= av.take(i as int));
            }
            if found.is_none() {
                let d = DiffResult::Removed { field: clone_field(fa) };
                proof {
                    assert(diffs_view(changes@.push(d)) =~= diffs_view(changes@).push(diff_view(d)));
                }
                changes.push(d);
            }
            i += 1;
        }
        assert(av.take(a.fields.len() as int) =~= av);
        let ghost removed = diffs_view(changes@);
        let mut j: usize = 0;
        while j < b.fields.len()
            invariant
                j <= b.fields.len(),
                av == fields_view(a.fields@),
                bv == fields_view(b.fields@),
                bv.len() == b.fields.len(),
                removed == removed_spec(av, bv),
                diffs_view(changes@) == removed + added_changed_spec(av, bv.take(j as int)),
            decreases b.fields.len() - j,
        {
            let fb = &b.fields[j];
            let found = find_named(&a.fields, &fb.name);
            proof {
                lemma_fields_view_index(b.fields@, j as int);
                assert(bv.take(j + 1).drop_last() =~= bv.take(j as int));
            }
            match found {
                None => {
                    let d = DiffResult::Added { field: clone_field(fb) };
                    proof {
                        assert(diffs_view(changes@.push(d)) =~= diffs_view(changes@).push(diff_view(d)));
                    }
                    changes.push(d);
                },
                Some(k) => {
                    let fa = &a.fields[k];
                    if !field_type_eq(&fa.field_type, &fb.field_type) {
                        let breaking = !is_compatible_change(&fa.field_type, &fb.field_type);
                        let d = DiffResult::Changed {
                            name: fb.name.clone(),
                            from: clone_field_type(&fa.field_type),
                            to: clone_field_type(&fb.field_type),
                            breaking,
                        };
                        proof {
                            assert(diffs_view(changes@.push(d)) =~= diffs_view(changes@).push(
                                diff_view(d),
                            ));
                        }
                        changes.push(d);
                    }
                },
            }
            proof {
                assert(removed + added_changed_spec(av, bv.take(j + 1)) =~= diffs_view(changes@));
            }
            j += 1;
        }
        assert(bv.take(b.fields.len() as int) =~= bv);
        let mut compatible = true;
        let mut k: usize = 0;
        while k < changes.len()
            invariant
                k <= changes.len(),
                compatible == no_breaking(diffs_view(changes@).take(k as int)),
            decreases changes.len() - k,
        {
            let breaks = match &changes[k] {
                DiffResult::Removed { .. } => true,
                DiffResult::Changed { breaking, .. } => *breaking,
                _ => false,
            };
            proof {
                let dv = diffs_view(changes@);
                assert(dv.take(k + 1).drop_last() =~= dv.take(k as int));
                assert(dv.take(k + 1)[k as int] == diff_view(changes@[k as int]));
                if !compatible {
                    let w = choose|w: int| 0 <= w < k && is_breaking(#[trigger] dv.take(k as int)[w]);
                    assert(dv.take(k + 1)[w] == dv.take(k as int)[w]);
                }
            }
            if breaks {
                compatible = false;
            }
            k += 1;
        }
        assert(diffs_view(changes@).take(changes.len() as int) =~= diffs_view(changes@));
        SchemaDiff {
            source_a: clone_source(&a.source),
            source_b: clone_source(&b.source),
            changes,
            compatible,
        }
    }
}

} // verus!
