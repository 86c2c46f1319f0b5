//! What holds of submissions and cancellations.

use vstd::prelude::*;
use crate::engine::{after_cancel, cancel_failure, cancelled_row, submitted, EngineView};
use crate::error::ErrorKind;
use crate::job::JobView;
use crate::queue::{
    arrival_stamp, in_arrival_order, is_queued, lemma_arrival_keeps_order,
    lemma_cancel_keeps_order, queue_full_message, JobPriority, QueuedJobView,
};
use crate::text::{has_substring, occurs_at};
use crate::security::input_failure;
use crate::status::{is_terminal, JobStatus};
use crate::store::{
    find_row, has_row, insert_position, lemma_find_row_at, lemma_update_keeps_table,
    newest_active, rewritten, row_index, table_ok, update_failure,
};

verus! {

/// A row that counts for the URL: it has the URL and its job waits or runs.
pub open spec fn is_active_for(row: JobView, url: Seq<char>) -> bool {
    row.url == url && !is_terminal(row.status)
}

/// The newest active row for a URL is the last row that counts for it.
pub proof fn lemma_newest_active(rows: Seq<JobView>, url: Seq<char>)
    ensures
        match newest_active(rows, url) {
            Some(row) => exists|k: int|
                0 <= k < rows.len() && #[trigger] rows[k] == row && is_active_for(row, url)
                    && forall|j: int| k < j < rows.len() ==> !is_active_for(#[trigger] rows[j], url),
            None => forall|j: int| 0 <= j < rows.len() ==> !is_active_for(#[trigger] rows[j], url),
        },
    decreases rows.len(),
{
    if rows.len() > 0 {
        let front = rows.drop_last();
        if is_active_for(rows.last(), url) {
            assert(rows[rows.len() - 1] == rows.last());
        } else {
            lemma_newest_active(front, url);
            match newest_active(front, url) {
                Some(row) => {
                    let k = choose|k: int|
                        0 <= k < front.len() && #[trigger] front[k] == row && is_active_for(row, url)
                            && forall|j: int|
                            k < j < front.len() ==> !is_active_for(#[trigger] front[j], url);
                    assert(rows[k] == row);
                    assert forall|j: int| k < j < rows.len() implies !is_active_for(
                        #[trigger] rows[j],
                        url,
                    ) by {
                        if j < front.len() {
                            assert(front[j] == rows[j]);
                        }
                    }
                },
                None => {
                    assert forall|j: int| 0 <= j < rows.len() implies !is_active_for(
                        #[trigger] rows[j],
                        url,
                    ) by {
                        if j < front.len() {
                            assert(front[j] == rows[j]);
                        }
                    }
                },
            }
        }
    }
}

/// If exactly one row counts for a URL, it is the newest active row.
pub proof fn lemma_only_active(rows: Seq<JobView>, url: Seq<char>, k: int)
    requires
        0 <= k < rows.len(),
        is_active_for(rows[k], url),
        forall|j: int| 0 <= j < rows.len() && j != k ==> !is_active_for(#[trigger] rows[j], url),
    ensures
        newest_active(rows, url) == Some(rows[k]),
{
    lemma_newest_active(rows, url);
    match newest_active(rows, url) {
        Some(row) => {
            let at = choose|at: int|
                0 <= at < rows.len() && #[trigger] rows[at] == row && is_active_for(row, url)
                    && forall|j: int| at < j < rows.len() ==> !is_active_for(#[trigger] rows[j], url);
            assert(at == k);
        },
        None => {
            assert(!is_active_for(rows[k], url));
        },
    }
}

/// Submitting a URL again while its job waits or runs gives the same job
/// and changes nothing: if a first submission was answered with a job, a
/// second submission of the same URL right after it is answered with that
/// job, whatever identifier, instant and priority it brings.
pub proof fn lemma_resubmission_is_deduplicated(
    before: EngineView,
    between: EngineView,
    after: EngineView,
    first_answer: Result<JobView, (ErrorKind, Seq<char>)>,
    second_answer: Result<JobView, (ErrorKind, Seq<char>)>,
    url: Seq<char>,
    first_priority: JobPriority,
    second_priority: JobPriority,
    first_id: Seq<char>,
    first_now: int,
    second_id: Seq<char>,
    second_now: int,
)
    requires
        table_ok(before.rows),
        submitted(before, between, first_answer, url, first_priority, first_id, first_now),
        first_answer is Ok,
        submitted(between, after, second_answer, url, second_priority, second_id, second_now),
    ensures
        second_answer == first_answer,
        after == between,
{
    match newest_active(before.rows, url) {
        Some(existing) => {},
        None => {
            let fresh = JobView::fresh(first_id, url, first_now);
            let p = insert_position(before.rows, first_now);
            crate::store_laws::lemma_insert_position(before.rows, first_now);
            let added = before.rows.insert(p, fresh);
            assert(between.rows == added);
            lemma_newest_active(before.rows, url);
            assert(added[p] == fresh);
            assert forall|j: int| 0 <= j < added.len() && j != p implies !is_active_for(
                #[trigger] added[j],
                url,
            ) by {
                if j < p {
                    assert(added[j] == before.rows[j]);
                } else {
                    assert(added[j] == before.rows[j - 1]);
                }
            }
            lemma_only_active(added, url, p);
        },
    }
}

/// Once the job for a URL has reached a final status, submitting the URL
/// again creates a new job: if no job for the URL waits or runs, a
/// submission with an unused identifier that the queue takes is answered
/// with a new pending job under that identifier.
pub proof fn lemma_submission_after_finish_creates(
    before: EngineView,
    after: EngineView,
    answer: Result<JobView, (ErrorKind, Seq<char>)>,
    url: Seq<char>,
    priority: JobPriority,
    id: Seq<char>,
    now: int,
)
    requires
        forall|j: int| 0 <= j < before.rows.len() ==> !is_active_for(#[trigger] before.rows[j], url),
        !has_row(before.rows, id),
        before.queue.refusal() is None,
        submitted(before, after, answer, url, priority, id, now),
    ensures
        answer == Ok::<JobView, (ErrorKind, Seq<char>)>(JobView::fresh(id, url, now)),
        has_row(after.rows, id),
{
    lemma_newest_active(before.rows, url);
    let p = insert_position(before.rows, now);
    let fresh = JobView::fresh(id, url, now);
    if newest_active(before.rows, url) is Some {
        let row = newest_active(before.rows, url)->0;
        let k = choose|k: int|
            0 <= k < before.rows.len() && #[trigger] before.rows[k] == row && is_active_for(row, url)
                && forall|j: int|
                k < j < before.rows.len() ==> !is_active_for(#[trigger] before.rows[j], url);
        assert(false);
    }
    let added = before.rows.insert(p, fresh);
    assert(0 <= p <= before.rows.len()) by {
        lemma_position_in_range(before.rows, now);
    }
    assert(added[p] == fresh);
    assert(added[p].id == id);
}

/// The position for a new row lies within the table or at its end.
pub proof fn lemma_position_in_range(rows: Seq<JobView>, created_at: int)
    ensures
        0 <= insert_position(rows, created_at) <= rows.len(),
    decreases rows.len(),
{
    if rows.len() > 0 && rows.last().created_at > created_at {
        lemma_position_in_range(rows.drop_last(), created_at);
    }
}

/// Cancelling a job that has reached a final status fails and changes
/// nothing.
pub proof fn lemma_cancel_spares_finished_jobs(before: EngineView, job_id: Seq<char>, now: int)
    requires
        find_row(before.rows, job_id) matches Some(row) && is_terminal(row.status),
    ensures
        cancel_failure(before, job_id) is Some,
        after_cancel(before, job_id, now) == before,
{
}

/// Cancelling a job that has not reached a final status succeeds and
/// leaves its row `Cancelled`, wherever the job stands: waiting in the
/// queue, running, or known to the table alone. The job is neither queued
/// nor running afterwards, and every other row stays as it is.
pub proof fn lemma_cancel_reaches_live_jobs(before: EngineView, job_id: Seq<char>, now: int)
    requires
        table_ok(before.rows),
        input_failure(job_id, "job_id"@, 100) is None,
        find_row(before.rows, job_id) matches Some(row) && !is_terminal(row.status),
    ensures
        cancel_failure(before, job_id) is None,
        table_ok(after_cancel(before, job_id, now).rows),
        find_row(after_cancel(before, job_id, now).rows, job_id) matches Some(row) && row.status
            == JobStatus::Cancelled && row.error_message == Some("Job cancelled by user"@),
        !is_queued(after_cancel(before, job_id, now).queue.queued, job_id),
        !after_cancel(before, job_id, now).queue.active.contains(job_id),
        forall|other: Seq<char>|
            other != job_id ==> #[trigger] find_row(after_cancel(before, job_id, now).rows, other)
                == find_row(before.rows, other),
{
    crate::queue::lemma_without_job(before.queue.queued, job_id);
    crate::queue::lemma_without_id(before.queue.active, job_id);
    let rows = before.rows;
    let k = row_index(rows, job_id);
    lemma_find_row_at(rows, k);
    let target = cancelled_row(rows[k]);
    assert(update_failure(rows, target) is None);
    let next = rewritten(rows[k], target, now);
    lemma_update_keeps_table(rows, k, next);
    let after = rows.update(k, next);
    assert(after[k] == next);
    lemma_find_row_at(after, k);
    assert forall|other: Seq<char>| other != job_id implies #[trigger] find_row(after, other)
        == find_row(rows, other) by {
        if has_row(rows, other) {
            let at = row_index(rows, other);
            lemma_find_row_at(rows, at);
            assert(after[at] == rows[at]);
            lemma_find_row_at(after, at);
        }
    }
}

/// A submission to a full queue is refused with a server error whose
/// words hold `Queue is full`: if no job for the URL waits or runs, the
/// identifier is unused and the open queue holds as many jobs as it may,
/// the answer is an internal failure, the queue is as before, and the row
/// of the new job stays in the table.
pub proof fn lemma_full_queue_refuses_submission(
    before: EngineView,
    after: EngineView,
    answer: Result<JobView, (ErrorKind, Seq<char>)>,
    url: Seq<char>,
    priority: JobPriority,
    id: Seq<char>,
    now: int,
)
    requires
        newest_active(before.rows, url) is None,
        !has_row(before.rows, id),
        !before.queue.shutting_down,
        before.queue.queued.len() >= before.queue.max_queue_size,
        submitted(before, after, answer, url, priority, id, now),
    ensures
        answer matches Err(e) && e.0 == ErrorKind::Internal && crate::error::status_of(e.0) == 500
            && has_substring(e.1, "Queue is full"@),
        after.queue == before.queue,
        has_row(after.rows, id),
{
    let lead = "Failed to queue job: "@;
    let head = "Queue is full (max "@;
    let words = queue_full_message(before.queue.max_queue_size);
    let message = lead + words;
    reveal_strlit("Failed to queue job: ");
    reveal_strlit("Queue is full (max ");
    reveal_strlit("Queue is full");
    assert(words.subrange(0, 13) =~= "Queue is full"@) by {
        assert(words.subrange(0, 19) =~= head);
        assert forall|i: int| 0 <= i < 13 implies words[i] == "Queue is full"@[i] by {
            assert(words.subrange(0, 19)[i] == head[i]);
        }
    }
    assert(message.subrange(21, 34) =~= words.subrange(0, 13));
    assert(occurs_at(message, "Queue is full"@, 21));
    lemma_position_in_range(before.rows, now);
    let p = insert_position(before.rows, now);
    let added = before.rows.insert(p, JobView::fresh(id, url, now));
    assert(added[p].id == id);
}

/// A submission keeps the queue in arrival order.
pub proof fn lemma_submission_keeps_arrival_order(
    before: EngineView,
    after: EngineView,
    answer: Result<JobView, (ErrorKind, Seq<char>)>,
    url: Seq<char>,
    priority: JobPriority,
    id: Seq<char>,
    now: int,
)
    requires
        in_arrival_order(before.queue.queued),
        submitted(before, after, answer, url, priority, id, now),
    ensures
        in_arrival_order(after.queue.queued),
{
    lemma_arrival_keeps_order(
        before.queue.queued,
        QueuedJobView {
            job: JobView::fresh(id, url, now),
            priority,
            queued_at: arrival_stamp(before.queue.queued, now),
        },
        now,
    );
}

/// A cancellation keeps the queue in arrival order.
pub proof fn lemma_cancel_keeps_arrival_order(before: EngineView, job_id: Seq<char>, now: int)
    requires
        in_arrival_order(before.queue.queued),
    ensures
        in_arrival_order(after_cancel(before, job_id, now).queue.queued),
{
    lemma_cancel_keeps_order(before.queue.queued, job_id);
}

} // verus!
