//! Schema unification behavior: union of names, first-seen-wins types,
//! forced nullability, first-encounter ordering, and the conflict
//! policy.

use arrow::datatypes::DataType;

use colmerge::ConflictPolicy;
use colmerge::Error;
use colmerge::FieldDef;
use colmerge::SchemaDef;
use colmerge::unify_schemas;

fn field(name: &str, native: DataType, nullable: bool) -> FieldDef {
    FieldDef { name: String::from(name), native, nullable }
}

fn schema(fields: Vec<FieldDef>) -> SchemaDef {
    SchemaDef { fields }
}

#[test]
fn two_files_merge_to_union_in_first_seen_order() {
    let a = schema(vec![
        field("id", DataType::Int64, false),
        field("name", DataType::Utf8, false),
    ]);
    let b = schema(vec![
        field("id", DataType::Int64, false),
        field("age", DataType::Int32, false),
    ]);
    let unified = unify_schemas(&vec![a, b], ConflictPolicy::FirstWins).unwrap();
    assert_eq!(unified.fields.len(), 3);
    assert_eq!(unified.fields[0].name, "id");
    assert_eq!(unified.fields[0].native, DataType::Int64);
    assert_eq!(unified.fields[1].name, "name");
    assert_eq!(unified.fields[1].native, DataType::Utf8);
    assert_eq!(unified.fields[2].name, "age");
    assert_eq!(unified.fields[2].native, DataType::Int32);
}

#[test]
fn every_unified_field_is_nullable() {
    let a = schema(vec![field("id", DataType::Int64, false)]);
    let b = schema(vec![field("age", DataType::Int32, false)]);
    let unified = unify_schemas(&vec![a, b], ConflictPolicy::FirstWins).unwrap();
    for f in &unified.fields {
        assert!(f.nullable);
    }
}

#[test]
fn first_seen_type_wins_over_later_disagreements() {
    let a = schema(vec![field("x", DataType::Int64, false)]);
    let b = schema(vec![field("x", DataType::Utf8, false)]);
    let c = schema(vec![field("x", DataType::Float64, false)]);
    let unified = unify_schemas(&vec![a, b, c], ConflictPolicy::FirstWins).unwrap();
    assert_eq!(unified.fields.len(), 1);
    assert_eq!(unified.fields[0].native, DataType::Int64);
}

#[test]
fn error_on_conflict_refuses_disagreeing_types() {
    let a = schema(vec![field("x", DataType::Int64, false)]);
    let b = schema(vec![field("x", DataType::Utf8, false)]);
    match unify_schemas(&vec![a, b], ConflictPolicy::ErrorOnConflict) {
        Err(Error::SchemaConflict(n)) => assert_eq!(n, "x"),
        _ => panic!("a type conflict must be refused under ErrorOnConflict"),
    }
}

#[test]
fn error_on_conflict_accepts_agreeing_reoccurrence() {
    let a = schema(vec![field("x", DataType::Int64, false)]);
    let b = schema(vec![field("x", DataType::Int64, true)]);
    let unified = unify_schemas(&vec![a, b], ConflictPolicy::ErrorOnConflict).unwrap();
    assert_eq!(unified.fields.len(), 1);
    assert_eq!(unified.fields[0].native, DataType::Int64);
}

#[test]
fn duplicate_input_changes_nothing() {
    let s = vec![
        field("id", DataType::Int64, false),
        field("name", DataType::Utf8, true),
    ];
    let once = unify_schemas(&vec![schema(s.clone())], ConflictPolicy::FirstWins).unwrap();
    let twice = unify_schemas(
        &vec![schema(s.clone()), schema(s)],
        ConflictPolicy::FirstWins,
    )
    .unwrap();
    assert_eq!(once.fields.len(), twice.fields.len());
    for (f, g) in once.fields.iter().zip(twice.fields.iter()) {
        assert_eq!(f.name, g.name);
        assert_eq!(f.native, g.native);
        assert_eq!(f.nullable, g.nullable);
    }
}

#[test]
fn no_inputs_yield_an_empty_schema() {
    let unified = unify_schemas(&vec![], ConflictPolicy::FirstWins).unwrap();
    assert_eq!(unified.fields.len(), 0);
}

#[test]
fn duplicate_name_within_one_file_keeps_the_first() {
    let a = schema(vec![
        field("x", DataType::Int64, false),
        field("x", DataType::Utf8, false),
    ]);
    let unified = unify_schemas(&vec![a], ConflictPolicy::FirstWins).unwrap();
    assert_eq!(unified.fields.len(), 1);
    assert_eq!(unified.fields[0].native, DataType::Int64);
}
