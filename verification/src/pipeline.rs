//! The merge run's driver.
//!
//! A run has two stages. While unifying, only schemas are read and no
//! writer is open; constructing a `Merger` performs that whole stage at
//! once. While reconciling, batches flow one at a time through the
//! fixed unified schema, in file order and, within a file, in the
//! file's own batch order; the ghost log of written row counts records
//! that order, and its sum is the output's total row count.

use vstd::prelude::*;

use crate::batch::BatchModel;
use crate::batch::ReconciledBatch;
use crate::batch::SourceBatch;
use crate::batch::blocked_field;
use crate::batch::reconcile_batch;
use crate::batch::reconciled_column;
use crate::errors::Error;
use crate::native::array_len;
use crate::schema::ConflictPolicy;
use crate::schema::FieldModel;
use crate::schema::SchemaDef;
use crate::schema::conflicting_name;
use crate::schema::schema_views;
use crate::schema::unified_model;
use crate::schema::unify_schemas;

verus! {

/// The total row count of a log of written batches.
pub open spec fn sum_rows(s: Seq<nat>) -> nat
    decreases s.len(),
{
    if s.len() == 0 {
        0
    } else {
        s[0] + sum_rows(s.drop_first())
    }
}

/// Law: row-count conservation, one batch at a time — writing one more
/// reconciled batch grows the output's total row count by exactly that
/// batch's row count, so the total equals the sum of all input batches'
/// row counts.
pub proof fn lemma_sum_rows_push(s: Seq<nat>, v: nat)
    ensures
        sum_rows(s.push(v)) == sum_rows(s) + v,
    decreases s.len(),
{
    if s.len() == 0 {
        assert(s.push(v)[0] == v);
        assert(s.push(v).drop_first() =~= Seq::<nat>::empty());
        assert(sum_rows(Seq::<nat>::empty()) == 0);
    } else {
        assert(s.push(v)[0] == s[0]);
        assert(s.push(v).drop_first() =~= s.drop_first().push(v));
        lemma_sum_rows_push(s.drop_first(), v);
    }
}

/// A merge run that has finished unifying and is reconciling: the
/// unified schema is fixed, and every processed batch's row count is
/// logged in order.
pub struct Merger {
    unified: SchemaDef,
    written: Ghost<Seq<nat>>,
}

impl Merger {
    /// The unified schema the run reconciles against.
    pub closed spec fn schema_model(&self) -> Seq<FieldModel> {
        self.unified@
    }

    /// The row counts of the batches processed so far, in order.
    pub closed spec fn written_rows(&self) -> Seq<nat> {
        self.written@
    }

    /// Performs the unifying stage: folds every input schema once, in
    /// input order. The run then moves to the reconciling stage, with
    /// nothing processed yet; there is no way back.
    pub fn new(schemas: &Vec<SchemaDef>, policy: ConflictPolicy) -> (r: Result<Merger, Error>)
        ensures
            match r {
                Ok(m) => {
                    &&& m.schema_model() == unified_model(schema_views(schemas@))
                    &&& m.written_rows() == Seq::<nat>::empty()
                    &&& policy == ConflictPolicy::ErrorOnConflict ==> forall|name: Seq<char>|
                        !conflicting_name(schema_views(schemas@), name)
                },
                Err(e) => {
                    &&& policy == ConflictPolicy::ErrorOnConflict
                    &&& match e {
                        Error::SchemaConflict(n) => conflicting_name(schema_views(schemas@), n@),
                        _ => false,
                    }
                },
            },
    {
        match unify_schemas(schemas, policy) {
            Ok(unified) => Ok(Merger { unified, written: Ghost(Seq::empty()) }),
            Err(e) => Err(e),
        }
    }

    /// The unified schema, for the writer to lay the output out with.
    pub fn unified(&self) -> (s: &SchemaDef)
        ensures
            s@ == self.schema_model(),
    {
        &self.unified
    }

    /// Reconciles one source batch against the unified schema and logs
    /// its row count as written. The schema never changes; the log only
    /// grows, by exactly this batch's row count, and only on success.
    pub fn process_batch(&mut self, batch: &SourceBatch) -> (r: Result<ReconciledBatch, Error>)
        requires
            batch@.wf(),
        ensures
            final (self).schema_model() == old(self).schema_model(),
            match r {
                Ok(out) => {
                    &&& final (self).written_rows() == old(self).written_rows().push(batch@.rows)
                    &&& out.columns@.len() == old(self).schema_model().len()
                    &&& out.num_rows as nat == batch@.rows
                    &&& forall|t: int| 0 <= t < old(self).schema_model().len() ==> array_len(
                        #[trigger] out.columns@[t],
                    ) == batch@.rows
                    &&& forall|t: int| 0 <= t < old(self).schema_model().len() ==> reconciled_column(
                        old(self).schema_model()[t],
                        batch@,
                        #[trigger] out.columns@[t],
                    )
                },
                Err(e) => {
                    &&& final (self).written_rows() == old(self).written_rows()
                    &&& exists|t: int|
                        0 <= t < old(self).schema_model().len() && blocked_field(
                            #[trigger] old(self).schema_model()[t],
                            batch@,
                        )
                    &&& e matches Error::UnsupportedColumnType(_)
                },
            },
    {
        match reconcile_batch(&self.unified, batch) {
            Ok(out) => {
                proof {
                    self.written@ = self.written@.push(batch@.rows);
                    assert(self.schema_model() == old(self).schema_model());
                    assert(self.written_rows() == old(self).written_rows().push(batch@.rows));
                }
                Ok(out)
            },
            Err(e) => Err(e),
        }
    }
}

/// The writer's precondition: a new output container is created only at
/// a path not yet present; an existing file is refused untouched, never
/// overwritten or appended to.
pub fn check_output_path(output: &String, already_exists: bool) -> (r: Result<(), Error>)
    ensures
        match r {
            Ok(()) => !already_exists,
            Err(e) => {
                &&& already_exists
                &&& match e {
                    Error::OutputAlreadyExists(p) => p@ == output@,
                    _ => false,
                }
            },
        },
{
    if already_exists {
        Err(Error::OutputAlreadyExists(output.clone()))
    } else {
        Ok(())
    }
}

} // verus!
