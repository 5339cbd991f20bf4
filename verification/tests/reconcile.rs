//! Batch reconciliation behavior: column count and lengths, pass-through
//! without casting, synthesized defaults (all-null vs. empty strings),
//! the composite-kind refusal, and row-count conservation.

use std::sync::Arc;

use arrow::array::Array;
use arrow::array::Int32Array;
use arrow::array::Int64Array;
use arrow::array::StringArray;
use arrow::array::make_array;
use arrow::datatypes::DataType;
use arrow::datatypes::Field;

use colmerge::ConflictPolicy;
use colmerge::Error;
use colmerge::FieldDef;
use colmerge::Merger;
use colmerge::SchemaDef;
use colmerge::SourceBatch;
use colmerge::SourceColumn;
use colmerge::reconcile_batch;
use colmerge::unify_schemas;

fn field(name: &str, native: DataType) -> FieldDef {
    FieldDef { name: String::from(name), native, nullable: false }
}

fn unified_ab() -> SchemaDef {
    let a = SchemaDef {
        fields: vec![field("id", DataType::Int64), field("name", DataType::Utf8)],
    };
    let b = SchemaDef {
        fields: vec![field("id", DataType::Int64), field("age", DataType::Int32)],
    };
    unify_schemas(&vec![a, b], ConflictPolicy::FirstWins).unwrap()
}

fn batch_from_a() -> SourceBatch {
    let id = Int64Array::from(vec![1i64, 2]);
    let name = StringArray::from(vec!["ada", "bo"]);
    SourceBatch::new(
        vec![
            SourceColumn { name: String::from("id"), data: id.into_data() },
            SourceColumn { name: String::from("name"), data: name.into_data() },
        ],
        2,
    )
    .unwrap()
}

fn batch_from_b() -> SourceBatch {
    let id = Int64Array::from(vec![7i64, 8, 9]);
    let age = Int32Array::from(vec![30i32, 40, 50]);
    SourceBatch::new(
        vec![
            SourceColumn { name: String::from("id"), data: id.into_data() },
            SourceColumn { name: String::from("age"), data: age.into_data() },
        ],
        3,
    )
    .unwrap()
}

#[test]
fn reconciled_batch_has_one_column_per_unified_field_of_batch_length() {
    let unified = unified_ab();
    let out = reconcile_batch(&unified, &batch_from_a()).unwrap();
    assert_eq!(out.columns.len(), unified.fields.len());
    assert_eq!(out.num_rows, 2);
    for col in &out.columns {
        assert_eq!(col.len(), 2);
    }
}

#[test]
fn present_columns_pass_through_unchanged() {
    let unified = unified_ab();
    let batch = batch_from_a();
    let id = Int64Array::from(vec![1i64, 2]);
    let name = StringArray::from(vec!["ada", "bo"]);
    let out = reconcile_batch(&unified, &batch).unwrap();
    assert_eq!(out.columns[0], id.into_data());
    assert_eq!(out.columns[1], name.into_data());
}

#[test]
fn absent_non_textual_field_becomes_all_null() {
    let unified = unified_ab();
    let out = reconcile_batch(&unified, &batch_from_a()).unwrap();
    // the third unified field is `age`, absent from file a
    let age = make_array(out.columns[2].clone());
    assert_eq!(age.data_type(), &DataType::Int32);
    assert_eq!(age.len(), 2);
    assert_eq!(age.null_count(), 2);
}

#[test]
fn absent_textual_field_becomes_empty_strings_not_nulls() {
    let unified = unified_ab();
    let out = reconcile_batch(&unified, &batch_from_b()).unwrap();
    // the second unified field is `name`, absent from file b
    let name = make_array(out.columns[1].clone());
    assert_eq!(name.data_type(), &DataType::Utf8);
    assert_eq!(name.len(), 3);
    assert_eq!(name.null_count(), 0);
    let name = name.as_any().downcast_ref::<StringArray>().unwrap();
    for t in 0..3 {
        assert_eq!(name.value(t), "");
    }
}

#[test]
fn conflicting_column_passes_through_without_casting() {
    // the unified type of `x` is Int64 (first seen), but this batch
    // holds `x` as text: the payload must pass through untouched
    let a = SchemaDef { fields: vec![field("x", DataType::Int64)] };
    let b = SchemaDef { fields: vec![field("x", DataType::Utf8)] };
    let unified = unify_schemas(&vec![a, b], ConflictPolicy::FirstWins).unwrap();
    let x = StringArray::from(vec!["1", "2"]);
    let batch = SourceBatch::new(
        vec![SourceColumn { name: String::from("x"), data: x.into_data() }],
        2,
    )
    .unwrap();
    let out = reconcile_batch(&unified, &batch).unwrap();
    let x = StringArray::from(vec!["1", "2"]);
    assert_eq!(out.columns[0], x.into_data());
}

#[test]
fn absent_composite_field_is_a_fatal_error() {
    let item = Arc::new(Field::new("item", DataType::Int64, true));
    let a = SchemaDef { fields: vec![field("id", DataType::Int64)] };
    let c = SchemaDef { fields: vec![field("tags", DataType::List(item))] };
    let unified = unify_schemas(&vec![a, c], ConflictPolicy::FirstWins).unwrap();
    let id = Int64Array::from(vec![1i64]);
    let batch = SourceBatch::new(
        vec![SourceColumn { name: String::from("id"), data: id.into_data() }],
        1,
    )
    .unwrap();
    match reconcile_batch(&unified, &batch) {
        Err(Error::UnsupportedColumnType(n)) => assert_eq!(n, "tags"),
        _ => panic!("a composite default must be refused"),
    }
}

#[test]
fn merger_conserves_row_counts_across_batches() {
    let a = SchemaDef {
        fields: vec![field("id", DataType::Int64), field("name", DataType::Utf8)],
    };
    let b = SchemaDef {
        fields: vec![field("id", DataType::Int64), field("age", DataType::Int32)],
    };
    let mut merger = Merger::new(&vec![a, b], ConflictPolicy::FirstWins).unwrap();
    assert_eq!(merger.unified().fields.len(), 3);
    let out_a = merger.process_batch(&batch_from_a()).unwrap();
    let out_b = merger.process_batch(&batch_from_b()).unwrap();
    assert_eq!(out_a.num_rows + out_b.num_rows, 2 + 3);
}

#[test]
fn merging_one_file_listed_twice_doubles_the_rows() {
    let a = SchemaDef {
        fields: vec![field("id", DataType::Int64), field("name", DataType::Utf8)],
    };
    let schemas = vec![
        SchemaDef { fields: a.fields.clone() },
        SchemaDef { fields: a.fields.clone() },
    ];
    let mut merger = Merger::new(&schemas, ConflictPolicy::FirstWins).unwrap();
    assert_eq!(merger.unified().fields.len(), 2);
    let out_first = merger.process_batch(&batch_from_a()).unwrap();
    let out_second = merger.process_batch(&batch_from_a()).unwrap();
    assert_eq!(out_first.num_rows + out_second.num_rows, 2 * 2);
}

#[test]
fn mismatched_column_length_is_refused_at_batch_assembly() {
    let id = Int64Array::from(vec![1i64, 2]);
    let r = SourceBatch::new(
        vec![SourceColumn { name: String::from("id"), data: id.into_data() }],
        3,
    );
    assert!(r.is_none());
}
