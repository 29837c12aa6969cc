//! Properties of the locking rule that hold across scheduling calls.
use vstd::prelude::*;

use crate::page::{is_heaviest, PageInner};
use crate::lock_spec::{
    among_first, grant, lockable, locked_prefix, queue_extended, reader_wake, registered,
    valid_attempts,
};
use crate::task::{Task, UniqueWeight};
use crate::usage::{reader_count_saturated, RequestedUsage};

verus! {

/// Mutual exclusion: a write lock is granted only on a page nobody holds and leaves the page
/// `Writable`; a `Writable` page then grants no lock at all, so no task that touches it can be
/// scheduled until the page is released.
pub proof fn lemma_mutual_exclusion(
    pages: Seq<PageInner>,
    after: Seq<PageInner>,
    writer: Task,
    i: int,
    other: Task,
    j: int,
)
    requires
        valid_attempts(pages, writer.lock_attempts@),
        lockable(pages, writer.unique_weight, writer.lock_attempts@),
        locked_prefix(
            pages,
            after,
            writer.unique_weight,
            writer.lock_attempts@,
            writer.lock_attempts@.len() as int,
        ),
        0 <= i < writer.lock_attempts@.len(),
        writer.lock_attempts@[i].requested_usage is Writable,
        0 <= j < other.lock_attempts@.len(),
        other.lock_attempts@[j].page == writer.lock_attempts@[i].page,
    ensures
        pages[writer.lock_attempts@[i].page.0 as int].usage is Unused,
        after[writer.lock_attempts@[i].page.0 as int].usage is Writable,
        !lockable(after, other.unique_weight, other.lock_attempts@),
{
    let a = writer.lock_attempts@[i];
    assert(grant(pages, writer.unique_weight, a) is Some);
    assert(grant(after, other.unique_weight, other.lock_attempts@[j]) is None);
}

/// Whether page `p` lets readers in freely: nobody writes it, no writer waits on it, and its
/// reader count has room.
pub open spec fn open_to_readers(pages: Seq<PageInner>, p: int) -> bool {
    &&& !(pages[p].usage is Writable)
    &&& forall|k: UniqueWeight| !(#[trigger] pages[p].writable_blocked_tasks@.contains_key(k))
    &&& !reader_count_saturated(pages[p].usage)
}

/// Shared reads: a task that only reads pages open to readers gets all its locks, whatever its
/// weight, and its pages stay free of writers afterwards, so any number of such readers can
/// be scheduled one after another without blocking each other.
pub proof fn lemma_shared_read_concurrency(pages: Seq<PageInner>, after: Seq<PageInner>, reader: Task)
    requires
        valid_attempts(pages, reader.lock_attempts@),
        forall|j: int| 0 <= j < reader.lock_attempts@.len()
            ==> (#[trigger] reader.lock_attempts@[j]).requested_usage is Readonly
                && open_to_readers(pages, reader.lock_attempts@[j].page.0 as int),
    ensures
        lockable(pages, reader.unique_weight, reader.lock_attempts@),
        locked_prefix(pages, after, reader.unique_weight, reader.lock_attempts@, reader.lock_attempts@.len() as int)
            ==> forall|p: int| 0 <= p < pages.len() && open_to_readers(pages, p)
                ==> (#[trigger] after[p]).writable_blocked_tasks@ == pages[p].writable_blocked_tasks@
                    && !(after[p].usage is Writable),
{
    let attempts = reader.lock_attempts@;
    let n = attempts.len() as int;
    assert forall|j: int| 0 <= j < n implies (#[trigger] grant(pages, reader.unique_weight, attempts[j])) is Some by {
        assert(attempts[j].requested_usage is Readonly);
        let page = pages[attempts[j].page.0 as int];
        assert(page.admits(reader.unique_weight, RequestedUsage::Readonly));
    }
    if locked_prefix(pages, after, reader.unique_weight, attempts, n) {
        assert forall|p: int| 0 <= p < pages.len() && open_to_readers(pages, p)
            implies (#[trigger] after[p]).writable_blocked_tasks@ == pages[p].writable_blocked_tasks@
                && !(after[p].usage is Writable) by {
            if among_first(attempts, n, p) {
                let j = choose|j: int| 0 <= j < n && (#[trigger] attempts[j]).page.0 == p;
                assert(grant(pages, reader.unique_weight, attempts[j]) is Some);
            }
        }
    }
}

/// Readers wake readers: when a retried task that reads page `p` succeeds, the heaviest task
/// still waiting to read `p` is in the retry queue afterwards, without another release.
pub proof fn lemma_reader_wake(
    queue_before: Map<UniqueWeight, Task>,
    queue_after: Map<UniqueWeight, Task>,
    pages_after: Seq<PageInner>,
    retried: Task,
    j: int,
    k: UniqueWeight,
    t: Task,
)
    requires
        queue_extended(
            queue_before,
            queue_after,
            |k2: UniqueWeight, t2: Task|
                reader_wake(pages_after, retried.lock_attempts@, retried.lock_attempts@.len() as int, k2, t2),
        ),
        0 <= j < retried.lock_attempts@.len(),
        retried.lock_attempts@[j].requested_usage is Readonly,
        is_heaviest(
            pages_after[retried.lock_attempts@[j].page.0 as int].readonly_blocked_tasks@,
            Some((k, t)),
        ),
    ensures
        queue_after.contains_key(k),
{
    let attempts = retried.lock_attempts@;
    let candidate = |k2: UniqueWeight, t2: Task|
        reader_wake(pages_after, attempts, attempts.len() as int, k2, t2);
    assert(reader_wake(pages_after, attempts, attempts.len() as int, k, t));
    assert(candidate(k, t));
}

/// Rollback: a fresh task that fails to get all its locks leaves every page's usage as it
/// found it, including the pages it did lock before the conflict.
pub proof fn lemma_failed_schedule_keeps_usages(before: Seq<PageInner>, after: Seq<PageInner>, task: Task)
    requires
        valid_attempts(before, task.lock_attempts@),
        registered(before, after, task),
    ensures
        forall|p: int| 0 <= p < before.len() ==> (#[trigger] after[p]).usage == before[p].usage,
{
    let attempts = task.lock_attempts@;
    let n = attempts.len() as int;
    assert forall|p: int| 0 <= p < before.len() implies (#[trigger] after[p]).usage == before[p].usage by {
        if among_first(attempts, n, p) {
            let j = choose|j: int| 0 <= j < n && (#[trigger] attempts[j]).page.0 == p;
        }
    }
}

} // verus!
