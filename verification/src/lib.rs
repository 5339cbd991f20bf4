//! Merge several columnar data files whose schemas may differ into one
//! output file under a single unified schema.
//!
//! The verified core is the schema-unification and batch-reconciliation
//! engine: folding the schemas of all input files into one merged schema
//! (union of field names, first-seen type wins, every field forced
//! nullable), and rewriting each file's record batches so that their
//! columns match the merged schema exactly, synthesizing default columns
//! for fields a file lacks.

mod batch;
mod cli;
mod errors;
mod format;
mod native;
mod pipeline;
mod schema;

pub use batch::BatchModel;
pub use batch::ColumnModel;
pub use batch::ReconciledBatch;
pub use batch::SourceBatch;
pub use batch::SourceColumn;
pub use batch::blocked_field;
pub use batch::columns_model;
pub use batch::first_column_with;
pub use batch::has_column;
pub use batch::reconcile_batch;
pub use batch::reconciled_column;
pub use cli::FileMergeArgs;
pub use cli::handle_input;
pub use errors::Error;
pub use format::FileType;
pub use format::classify_extension;
pub use format::extension_of;
pub use format::file_type_of;
pub use format::get_file_type;
pub use format::rfind_dot;
pub use native::array_len;
pub use native::empty_text_array_of;
pub use native::is_utf8_native;
pub use native::null_array_of;
pub use native::null_default_supported;
pub use pipeline::Merger;
pub use pipeline::check_output_path;
pub use pipeline::lemma_sum_rows_push;
pub use pipeline::sum_rows;
pub use schema::ConflictPolicy;
pub use schema::FieldDef;
pub use schema::FieldModel;
pub use schema::SchemaDef;
pub use schema::conflicting_name;
pub use schema::contains_name;
pub use schema::fields_model;
pub use schema::first_with_name;
pub use schema::flat;
pub use schema::force_nullable;
pub use schema::lemma_duplicate_input;
pub use schema::lemma_first_encounter_order;
pub use schema::lemma_first_seen_wins;
pub use schema::lemma_unified_field_names;
pub use schema::names_of;
pub use schema::schema_views;
pub use schema::unified_model;
pub use schema::unify_schemas;
pub use schema::union_of_names;
pub use schema::unique_names;
