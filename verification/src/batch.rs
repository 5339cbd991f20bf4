//! Batch reconciliation.
//!
//! Given the unified schema and one record batch read from a source
//! file, reconciliation produces the batch's columns re-arranged to
//! match the unified schema exactly, in name and position: a column the
//! source has is passed through unchanged, with no casting; an absent
//! field is synthesized as a default column of the batch's row count —
//! empty strings for the primary textual kind, all-null for every other
//! kind, and a fatal error for the composite kinds.

use vstd::prelude::*;

use arrow::array::ArrayData;

use crate::errors::Error;
use crate::native::array_data_len;
use crate::native::array_len;
use crate::native::can_synthesize_null;
use crate::native::empty_text_array_of;
use crate::native::is_textual;
use crate::native::is_utf8_native;
use crate::native::make_empty_text_array;
use crate::native::make_null_array;
use crate::native::null_array_of;
use crate::native::null_default_supported;
use crate::schema::FieldModel;
use crate::schema::SchemaDef;

verus! {

/// One named column taken from a source batch; the payload is opaque.
pub struct SourceColumn {
    pub name: String,
    pub data: ArrayData,
}

/// The mathematical content of a source column.
pub ghost struct ColumnModel {
    pub name: Seq<char>,
    pub data: ArrayData,
}

impl View for SourceColumn {
    type V = ColumnModel;

    open spec fn view(&self) -> ColumnModel {
        ColumnModel { name: self.name@, data: self.data }
    }
}

/// The models of a sequence of source columns, in order.
pub open spec fn columns_model(cs: Seq<SourceColumn>) -> Seq<ColumnModel> {
    Seq::new(cs.len(), |i: int| cs[i]@)
}

/// The mathematical content of a batch: its columns and its row count.
pub ghost struct BatchModel {
    pub columns: Seq<ColumnModel>,
    pub rows: nat,
}

impl BatchModel {
    /// Every column payload holds exactly the batch's row count.
    pub open spec fn wf(self) -> bool {
        forall|i: int| 0 <= i < self.columns.len() ==> array_len(#[trigger] self.columns[i].data)
            == self.rows
    }
}

/// A record batch read from one source file: named columns sharing one
/// row count. Built only through `new`, which checks that sharing.
pub struct SourceBatch {
    columns: Vec<SourceColumn>,
    num_rows: usize,
}

impl View for SourceBatch {
    type V = BatchModel;

    closed spec fn view(&self) -> BatchModel {
        BatchModel { columns: columns_model(self.columns@), rows: self.num_rows as nat }
    }
}

impl SourceBatch {
    /// Assembles a batch, refusing column payloads whose length differs
    /// from the stated row count.
    pub fn new(columns: Vec<SourceColumn>, num_rows: usize) -> (r: Option<SourceBatch>)
        ensures
            match r {
                Some(b) => {
                    &&& b@.columns == columns_model(columns@)
                    &&& b@.rows == num_rows as nat
                    &&& b@.wf()
                },
                None => exists|i: int|
                    0 <= i < columns@.len() && array_len(#[trigger] columns@[i]@.data)
                        != num_rows as nat,
            },
    {
        let mut i: usize = 0;
        while i < columns.len()
            invariant
                i <= columns@.len(),
                forall|t: int| 0 <= t < i ==> array_len(#[trigger] columns_model(columns@)[t].data)
                    == num_rows as nat,
            decreases columns@.len() - i,
        {
            if array_data_len(&columns[i].data) != num_rows {
                assert(columns@[i as int]@.data == columns_model(columns@)[i as int].data);
                return None;
            }
            i += 1;
        }
        Some(SourceBatch { columns, num_rows })
    }

    /// The batch's row count.
    pub fn num_rows(&self) -> (n: usize)
        ensures
            n as nat == self@.rows,
    {
        self.num_rows
    }
}

/// Some column of `cs` is named `name`.
pub open spec fn has_column(cs: Seq<ColumnModel>, name: Seq<char>) -> bool {
    exists|i: int| 0 <= i < cs.len() && cs[i].name == name
}

/// The position of the earliest column of `cs` named `name`; `cs.len()`
/// when no column is.
pub open spec fn first_column_with(cs: Seq<ColumnModel>, name: Seq<char>) -> int
    decreases cs.len(),
{
    if cs.len() == 0 {
        0
    } else if cs[0].name == name {
        0
    } else {
        1 + first_column_with(cs.drop_first(), name)
    }
}

/// A matching position with no earlier match is the earliest one.
proof fn lemma_first_column_at(cs: Seq<ColumnModel>, name: Seq<char>, m: int)
    requires
        0 <= m < cs.len(),
        cs[m].name == name,
        forall|t: int| 0 <= t < m ==> cs[t].name != name,
    ensures
        first_column_with(cs, name) == m,
    decreases m,
{
    if m == 0 {
    } else {
        assert forall|t: int| 0 <= t < m - 1 implies cs.drop_first()[t].name != name by {
            assert(cs.drop_first()[t] == cs[t + 1]);
        }
        lemma_first_column_at(cs.drop_first(), name, m - 1);
    }
}

/// The position of the earliest column of `cs` named `name`, none when
/// no column is.
fn find_column(cs: &Vec<SourceColumn>, name: &String) -> (r: Option<usize>)
    ensures
        match r {
            Some(m) => {
                &&& m < cs@.len()
                &&& columns_model(cs@)[m as int].name == name@
                &&& first_column_with(columns_model(cs@), name@) == m as int
                &&& has_column(columns_model(cs@), name@)
            },
            None => !has_column(columns_model(cs@), name@),
        },
{
    let mut m: usize = 0;
    while m < cs.len()
        invariant
            m <= cs@.len(),
            forall|t: int| 0 <= t < m ==> columns_model(cs@)[t].name != name@,
        decreases cs@.len() - m,
    {
        if cs[m].name == *name {
            proof {
                lemma_first_column_at(columns_model(cs@), name@, m as int);
            }
            return Some(m);
        }
        m += 1;
    }
    None
}

/// What reconciliation makes of one unified field: a column the source
/// has (earliest occurrence of the name) passes through unchanged, with
/// no casting; an absent textual field becomes a column of empty
/// strings; any other absent field becomes an all-null column.
pub open spec fn reconciled_column(f: FieldModel, b: BatchModel, col: ArrayData) -> bool {
    if has_column(b.columns, f.name) {
        col == b.columns[first_column_with(b.columns, f.name)].data
    } else if is_utf8_native(f.native) {
        col == empty_text_array_of(b.rows)
    } else {
        col == null_array_of(f.native, b.rows)
    }
}

/// A unified field the batch lacks whose default column cannot be
/// synthesized: its kind is composite.
pub open spec fn blocked_field(f: FieldModel, b: BatchModel) -> bool {
    &&& !has_column(b.columns, f.name)
    &&& !is_utf8_native(f.native)
    &&& !null_default_supported(f.native)
}

/// A batch reconciled to the unified schema: one column per unified
/// field, in schema order, all of the source batch's row count.
pub struct ReconciledBatch {
    pub columns: Vec<ArrayData>,
    pub num_rows: usize,
}

/// Reconciles one source batch to the unified schema. Succeeds exactly
/// when no absent field is of a composite kind; the reconciled batch
/// then has one column per unified field, in schema order, each of the
/// batch's row count, passed through or synthesized as
/// `reconciled_column` states.
pub fn reconcile_batch(unified: &SchemaDef, batch: &SourceBatch) -> (r: Result<
    ReconciledBatch,
    Error,
>)
    requires
        batch@.wf(),
    ensures
        match r {
            Ok(out) => {
                &&& out.columns@.len() == unified@.len()
                &&& out.num_rows as nat == batch@.rows
                &&& forall|t: int| 0 <= t < unified@.len() ==> array_len(#[trigger] out.columns@[t])
                    == batch@.rows
                &&& forall|t: int| 0 <= t < unified@.len() ==> reconciled_column(
                    unified@[t],
                    batch@,
                    #[trigger] out.columns@[t],
                )
                &&& forall|t: int| 0 <= t < unified@.len() ==> !blocked_field(
                    #[trigger] unified@[t],
                    batch@,
                )
            },
            Err(e) => {
                &&& exists|t: int| 0 <= t < unified@.len() && blocked_field(
                    #[trigger] unified@[t],
                    batch@,
                )
                &&& match e {
                    Error::UnsupportedColumnType(n) => exists|t: int|
                        0 <= t < unified@.len() && blocked_field(#[trigger] unified@[t], batch@)
                            && unified@[t].name == n@,
                    _ => false,
                }
            },
        },
{
    let mut cols: Vec<ArrayData> = Vec::new();
    let mut j: usize = 0;
    while j < unified.fields.len()
        invariant
            j <= unified@.len(),
            cols@.len() == j,
            batch@.wf(),
            forall|t: int| 0 <= t < j ==> array_len(#[trigger] cols@[t]) == batch@.rows,
            forall|t: int| 0 <= t < j ==> reconciled_column(unified@[t], batch@, #[trigger] cols@[t]),
            forall|t: int| 0 <= t < j ==> !blocked_field(#[trigger] unified@[t], batch@),
        decreases unified@.len() - j,
    {
        let fld = &unified.fields[j];
        assert(unified@[j as int] == fld@);
        match find_column(&batch.columns, &fld.name) {
            Some(m) => {
                cols.push(batch.columns[m].data.clone());
                proof {
                    assert(cols@[j as int] == batch@.columns[m as int].data);
                    assert(array_len(batch@.columns[m as int].data) == batch@.rows);
                }
            },
            None => {
                if is_textual(&fld.native) {
                    cols.push(make_empty_text_array(batch.num_rows));
                } else if can_synthesize_null(&fld.native) {
                    cols.push(make_null_array(&fld.native, batch.num_rows));
                } else {
                    assert(blocked_field(unified@[j as int], batch@));
                    return Err(Error::UnsupportedColumnType(fld.name.clone()));
                }
            },
        }
        j += 1;
    }
    Ok(ReconciledBatch { columns: cols, num_rows: batch.num_rows })
}

} // verus!
