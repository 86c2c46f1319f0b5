//! What holds of the job table over any run of operations.

use vstd::prelude::*;
use crate::job::JobView;
use crate::status::{is_terminal, JobStatus};
use crate::store::{
    after_cas, after_create, after_update, cas_applies, create_failure, find_row, has_row,
    insert_position, is_expired, kept, lemma_find_row_at, lemma_kept, lemma_update_keeps_table,
    output_missing, rewritten, row_index, sorted_by_creation, table_ok, unexpired,
    update_failure,
};

verus! {

/// An operation that writes to the table without deleting from it.
pub enum StoreOp {
    /// Add the row `job`.
    Create { job: JobView },
    /// Rewrite the row of `job` at `now`.
    Update { job: JobView, now: int },
    /// Change the status of the row for `id` at `now`, if it has the
    /// expected status where one is given.
    ChangeStatus { id: Seq<char>, new_status: JobStatus, expected: Option<JobStatus>, now: int },
}

/// The table after one operation.
pub open spec fn apply_op(rows: Seq<JobView>, op: StoreOp) -> Seq<JobView> {
    match op {
        StoreOp::Create { job } => after_create(rows, job),
        StoreOp::Update { job, now } => after_update(rows, job, now),
        StoreOp::ChangeStatus { id, new_status, expected, now } => after_cas(
            rows,
            id,
            new_status,
            expected,
            now,
        ),
    }
}

/// The table after a run of operations, applied in order.
pub open spec fn apply_ops(rows: Seq<JobView>, ops: Seq<StoreOp>) -> Seq<JobView>
    decreases ops.len(),
{
    if ops.len() == 0 {
        rows
    } else {
        apply_op(apply_ops(rows, ops.drop_last()), ops.last())
    }
}

/// `later` is what `earlier` may have become: the same job, changed no
/// earlier, and still in its final status if it had reached one.
pub open spec fn carries_on(earlier: JobView, later: JobView) -> bool {
    &&& later.id == earlier.id
    &&& later.url == earlier.url
    &&& later.created_at == earlier.created_at
    &&& later.updated_at >= earlier.updated_at
    &&& is_terminal(earlier.status) ==> later.status == earlier.status
}

/// Where a new row goes, the rows before it were created no later and the
/// rows after it were created later.
pub proof fn lemma_insert_position(rows: Seq<JobView>, created_at: int)
    requires
        sorted_by_creation(rows),
    ensures
        0 <= insert_position(rows, created_at) <= rows.len(),
        forall|j: int|
            0 <= j < insert_position(rows, created_at) ==> (#[trigger] rows[j]).created_at
                <= created_at,
        forall|j: int|
            insert_position(rows, created_at) <= j < rows.len() ==> (
            #[trigger] rows[j]).created_at > created_at,
    decreases rows.len(),
{
    if rows.len() > 0 {
        let front = rows.drop_last();
        assert forall|i: int, j: int| 0 <= i <= j < front.len() implies (
        #[trigger] front[i]).created_at <= (#[trigger] front[j]).created_at by {
            assert(front[i] == rows[i]);
            assert(front[j] == rows[j]);
        }
        if rows.last().created_at > created_at {
            lemma_insert_position(front, created_at);
            let p = insert_position(front, created_at);
            assert forall|j: int| 0 <= j < p implies (#[trigger] rows[j]).created_at
                <= created_at by {
                assert(front[j] == rows[j]);
            }
            assert forall|j: int| p <= j < rows.len() implies (#[trigger] rows[j]).created_at
                > created_at by {
                if j < front.len() {
                    assert(front[j] == rows[j]);
                }
            }
        } else {
            assert forall|j: int| 0 <= j < rows.len() implies (#[trigger] rows[j]).created_at
                <= created_at by {
                assert(rows[j].created_at <= rows[rows.len() - 1].created_at);
            }
        }
    }
}

/// Adding a row keeps the table as it should be and leaves every other row
/// to be found as before.
pub proof fn lemma_create_keeps_rows(rows: Seq<JobView>, job: JobView)
    requires
        table_ok(rows),
    ensures
        table_ok(after_create(rows, job)),
        forall|id: Seq<char>|
            has_row(rows, id) ==> #[trigger] find_row(after_create(rows, job), id) == find_row(
                rows,
                id,
            ),
{
    if create_failure(rows, job) is None {
        lemma_insert_position(rows, job.created_at);
        let p = insert_position(rows, job.created_at);
        let after = rows.insert(p, job);
        assert forall|i: int| 0 <= i < after.len() implies #[trigger] after[i] == (if i < p {
            rows[i]
        } else if i == p {
            job
        } else {
            rows[i - 1]
        }) by {}
        assert forall|i: int, j: int|
            0 <= i < after.len() && 0 <= j < after.len() && i != j implies (
        #[trigger] after[i]).id != (#[trigger] after[j]).id by {
            let a = if i < p {
                i
            } else {
                i - 1
            };
            let b = if j < p {
                j
            } else {
                j - 1
            };
            if i != p {
                assert(rows[a].id == after[i].id);
            }
            if j != p {
                assert(rows[b].id == after[j].id);
            }
        }
        assert forall|i: int, j: int| 0 <= i <= j < after.len() implies (
        #[trigger] after[i]).created_at <= (#[trigger] after[j]).created_at by {
            let a = if i < p {
                i
            } else {
                i - 1
            };
            let b = if j < p {
                j
            } else {
                j - 1
            };
            if i != p {
                assert(rows[a] == after[i]);
            }
            if j != p {
                assert(rows[b] == after[j]);
            }
        }
        assert forall|i: int| 0 <= i < after.len() implies !output_missing(#[trigger] after[i]) by {
            if i < p {
                assert(after[i] == rows[i]);
            } else if i > p {
                assert(after[i] == rows[i - 1]);
            }
        }
        assert forall|id: Seq<char>| has_row(rows, id) implies #[trigger] find_row(after, id)
            == find_row(rows, id) by {
            let k = row_index(rows, id);
            let to = if k < p {
                k
            } else {
                k + 1
            };
            assert(after[to] == rows[k]);
            lemma_find_row_at(after, to);
        }
    }
}

/// One operation keeps the table as it should be, and every row it finds
/// is there afterwards, carried on.
pub proof fn lemma_op_carries_rows_on(rows: Seq<JobView>, op: StoreOp, id: Seq<char>)
    requires
        table_ok(rows),
        has_row(rows, id),
    ensures
        table_ok(apply_op(rows, op)),
        has_row(apply_op(rows, op), id),
        carries_on(find_row(rows, id)->0, find_row(apply_op(rows, op), id)->0),
{
    let after = apply_op(rows, op);
    let k = row_index(rows, id);
    lemma_find_row_at(rows, k);
    match op {
        StoreOp::Create { job } => {
            lemma_create_keeps_rows(rows, job);
            assert(find_row(after, id) == find_row(rows, id));
        },
        StoreOp::Update { job, now } => {
            if update_failure(rows, job) is None {
                let at = row_index(rows, job.id);
                let next = rewritten(rows[at], job, now);
                lemma_find_row_at(rows, at);
                lemma_update_keeps_table(rows, at, next);
                assert(row_index(after, id) == k);
                assert(after[at] == next);
                if at != k {
                    assert(after[k] == rows[k]);
                }
            }
        },
        StoreOp::ChangeStatus { id: target, new_status, expected, now } => {
            if cas_applies(rows, target, new_status, expected) {
                let at = row_index(rows, target);
                lemma_find_row_at(rows, at);
                let next = JobView {
                    status: new_status,
                    updated_at: crate::job::later_of(rows[at].updated_at, now),
                    ..rows[at]
                };
                lemma_update_keeps_table(rows, at, next);
                assert(row_index(after, id) == k);
                assert(after[at] == next);
                if at != k {
                    assert(after[k] == rows[k]);
                }
            }
        },
    }
}

/// No row ever leaves a final status: whatever run of creations, rewrites
/// and status changes is applied to a table, a row that was there is still
/// there, was last changed no earlier than before, and, if it had reached
/// a final status, has that same status.
pub proof fn lemma_terminal_is_final(rows: Seq<JobView>, ops: Seq<StoreOp>, id: Seq<char>)
    requires
        table_ok(rows),
        has_row(rows, id),
    ensures
        table_ok(apply_ops(rows, ops)),
        has_row(apply_ops(rows, ops), id),
        carries_on(find_row(rows, id)->0, find_row(apply_ops(rows, ops), id)->0),
    decreases ops.len(),
{
    if ops.len() > 0 {
        lemma_terminal_is_final(rows, ops.drop_last(), id);
        lemma_op_carries_rows_on(apply_ops(rows, ops.drop_last()), ops.last(), id);
    }
}

/// A completed job has its output recorded, whatever run of creations,
/// rewrites and status changes the table has been through.
pub proof fn lemma_completed_has_output(rows: Seq<JobView>, ops: Seq<StoreOp>, id: Seq<char>)
    requires
        table_ok(rows),
        find_row(apply_ops(rows, ops), id) matches Some(row) && row.status == JobStatus::Completed,
    ensures
        find_row(apply_ops(rows, ops), id)->0.processed_path is Some,
{
    lemma_ops_keep_table(rows, ops);
    let after = apply_ops(rows, ops);
    let k = row_index(after, id);
    assert(!output_missing(after[k]));
}

/// A run of operations keeps the table as it should be.
pub proof fn lemma_ops_keep_table(rows: Seq<JobView>, ops: Seq<StoreOp>)
    requires
        table_ok(rows),
    ensures
        table_ok(apply_ops(rows, ops)),
    decreases ops.len(),
{
    if ops.len() > 0 {
        lemma_ops_keep_table(rows, ops.drop_last());
        let before = apply_ops(rows, ops.drop_last());
        match ops.last() {
            StoreOp::Create { job } => {
                lemma_create_keeps_rows(before, job);
            },
            StoreOp::Update { job, now } => {
                if update_failure(before, job) is None {
                    let at = row_index(before, job.id);
                    lemma_find_row_at(before, at);
                    lemma_update_keeps_table(before, at, rewritten(before[at], job, now));
                }
            },
            StoreOp::ChangeStatus { id, new_status, expected, now } => {
                if cas_applies(before, id, new_status, expected) {
                    let at = row_index(before, id);
                    lemma_find_row_at(before, at);
                    lemma_update_keeps_table(
                        before,
                        at,
                        JobView {
                            status: new_status,
                            updated_at: crate::job::later_of(before[at].updated_at, now),
                            ..before[at]
                        },
                    );
                }
            },
        }
    }
}

/// Of two claims of the same job made one after the other, at most one
/// succeeds; and if the job was pending, the first succeeds and the second
/// does not.
pub proof fn lemma_claim_is_exclusive(rows: Seq<JobView>, id: Seq<char>, first: int, second: int)
    requires
        table_ok(rows),
    ensures
        ({
            let won_first = cas_applies(rows, id, JobStatus::Claimed, Some(JobStatus::Pending));
            let between = after_cas(rows, id, JobStatus::Claimed, Some(JobStatus::Pending), first);
            let won_second = cas_applies(
                between,
                id,
                JobStatus::Claimed,
                Some(JobStatus::Pending),
            );
            &&& !(won_first && won_second)
            &&& (find_row(rows, id) matches Some(row) && row.status == JobStatus::Pending)
                ==> won_first && !won_second
        }),
{
    let won_first = cas_applies(rows, id, JobStatus::Claimed, Some(JobStatus::Pending));
    if won_first {
        let k = row_index(rows, id);
        lemma_find_row_at(rows, k);
        let next = JobView {
            status: JobStatus::Claimed,
            updated_at: crate::job::later_of(rows[k].updated_at, first),
            ..rows[k]
        };
        lemma_update_keeps_table(rows, k, next);
        let between = rows.update(k, next);
        assert(between[k] == next);
        lemma_find_row_at(between, k);
    }
}

/// Retention deletes a row only if the job is finished and the row is
/// older than the cutoff: every other row is still in the table
/// afterwards, unchanged, and a deleted row is gone.
pub proof fn lemma_retention_scope(rows: Seq<JobView>, cutoff: int, k: int)
    requires
        table_ok(rows),
        0 <= k < rows.len(),
    ensures
        table_ok(kept(rows, unexpired(cutoff))),
        !is_terminal(rows[k].status) ==> kept(rows, unexpired(cutoff)).contains(rows[k]),
        kept(rows, unexpired(cutoff)).contains(rows[k]) <==> !is_expired(rows[k], cutoff),
{
    lemma_kept(rows, unexpired(cutoff));
    assert(rows.contains(rows[k]));
}

} // verus!
