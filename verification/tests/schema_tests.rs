use hfs::props::StringMap;
use hfs::schema::{DiffResult, Field, FieldType, Schema, SchemaDiff, SchemaSource};

fn field(name: &str, t: FieldType) -> Field {
    Field { name: name.to_string(), field_type: t, nullable: true, metadata: StringMap::new() }
}

fn schema(fields: Vec<Field>) -> Schema {
    Schema { fields, source: SchemaSource::Avro { path: "/data/x.avro".to_string() } }
}

#[test]
fn comparing_a_schema_with_itself_finds_nothing() {
    let a = schema(vec![field("id", FieldType::Int64), field("name", FieldType::Utf8)]);
    let b = schema(vec![field("id", FieldType::Int64), field("name", FieldType::Utf8)]);
    let d = SchemaDiff::compare(&a, &b);
    assert!(d.changes.is_empty());
    assert!(d.compatible);
}

#[test]
fn removed_field_is_breaking() {
    let a = schema(vec![field("id", FieldType::Int64), field("name", FieldType::Utf8)]);
    let b = schema(vec![field("id", FieldType::Int64)]);
    let d = SchemaDiff::compare(&a, &b);
    assert_eq!(d.changes.len(), 1);
    assert!(matches!(&d.changes[0], DiffResult::Removed { field } if field.name == "name"));
    assert!(!d.compatible);
}

#[test]
fn added_fields_are_compatible() {
    let a = schema(vec![field("id", FieldType::Int64)]);
    let b = schema(vec![field("id", FieldType::Int64), field("extra", FieldType::Boolean)]);
    let d = SchemaDiff::compare(&a, &b);
    assert_eq!(d.changes.len(), 1);
    assert!(matches!(&d.changes[0], DiffResult::Added { field } if field.name == "extra"));
    assert!(d.compatible);
}

#[test]
fn widening_is_compatible_and_narrowing_breaks() {
    let a = schema(vec![field("n", FieldType::Int32), field("f", FieldType::Float64)]);
    let b = schema(vec![field("n", FieldType::Int64), field("f", FieldType::Float32)]);
    let d = SchemaDiff::compare(&a, &b);
    assert_eq!(d.changes.len(), 2);
    assert!(matches!(&d.changes[0], DiffResult::Changed { name, breaking: false, .. } if name == "n"));
    assert!(matches!(&d.changes[1], DiffResult::Changed { name, breaking: true, .. } if name == "f"));
    assert!(!d.compatible);
}

#[test]
fn removals_come_before_additions() {
    let a = schema(vec![field("old", FieldType::Utf8)]);
    let b = schema(vec![field("new", FieldType::Utf8)]);
    let d = SchemaDiff::compare(&a, &b);
    assert!(matches!(&d.changes[0], DiffResult::Removed { .. }));
    assert!(matches!(&d.changes[1], DiffResult::Added { .. }));
    assert!(matches!(d.source_a, SchemaSource::Avro { ref path } if path == "/data/x.avro"));
}

#[test]
fn nested_types_are_compared_deeply() {
    let a = schema(vec![field("l", FieldType::List(Box::new(FieldType::Int32)))]);
    let b = schema(vec![field("l", FieldType::List(Box::new(FieldType::Int64)))]);
    let d = SchemaDiff::compare(&a, &b);
    assert_eq!(d.changes.len(), 1);
    assert!(!d.compatible);
}

#[test]
fn reordering_fields_is_no_change() {
    let a = schema(vec![field("id", FieldType::Int64), field("name", FieldType::Utf8), field("ok", FieldType::Boolean)]);
    let mut moved = field("id", FieldType::Int64);
    moved.nullable = false;
    let b = schema(vec![field("ok", FieldType::Boolean), moved, field("name", FieldType::Utf8)]);
    let d = SchemaDiff::compare(&a, &b);
    assert!(d.changes.is_empty());
    assert!(d.compatible);
}

#[test]
fn each_lost_and_gained_field_is_reported_once() {
    let a = schema(vec![field("id", FieldType::Int64), field("old", FieldType::Utf8), field("gone", FieldType::Boolean)]);
    let b = schema(vec![field("new", FieldType::Date32), field("id", FieldType::Int64)]);
    let d = SchemaDiff::compare(&a, &b);
    assert_eq!(d.changes.len(), 3);
    assert!(matches!(&d.changes[0], DiffResult::Removed { field } if field.name == "old"));
    assert!(matches!(&d.changes[1], DiffResult::Removed { field } if field.name == "gone"));
    assert!(matches!(&d.changes[2], DiffResult::Added { field } if field.name == "new"));
    assert!(!d.compatible);
}

#[test]
fn type_change_is_taken_from_the_first_field_of_that_name() {
    let a = schema(vec![field("v", FieldType::Int32), field("v", FieldType::Utf8)]);
    let b = schema(vec![field("v", FieldType::Int64)]);
    let d = SchemaDiff::compare(&a, &b);
    assert_eq!(d.changes.len(), 1);
    assert!(matches!(
        &d.changes[0],
        DiffResult::Changed { name, from: FieldType::Int32, to: FieldType::Int64, breaking: false } if name == "v"
    ));
    assert!(d.compatible);
}
