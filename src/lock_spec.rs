//! The lock rule and the state changes of scheduling calls, stated over sequences of pages.
use vstd::prelude::*;

use crate::page::{is_heaviest, PageInner};
use crate::task::{LockAttempt, Task, UniqueWeight};
use crate::usage::{granted_usage, reader_count_saturated, releasable, released_usage, RequestedUsage, Usage};

verus! {

/// Whether one of the first `n` locks in `attempts` is on page `p`.
pub open spec fn among_first(attempts: Seq<LockAttempt>, n: int, p: int) -> bool {
    exists|j: int| 0 <= j < n && (#[trigger] attempts[j]).page.0 == p
}

/// What page `a` of `pages` answers to a request of weight `unique_weight`.
pub open spec fn grant(pages: Seq<PageInner>, unique_weight: UniqueWeight, a: LockAttempt) -> Option<Usage> {
    pages[a.page.0 as int].lock_result(unique_weight, a.requested_usage)
}

/// Whether every lock in `attempts` names a distinct page of `pages`.
pub open spec fn valid_attempts(pages: Seq<PageInner>, attempts: Seq<LockAttempt>) -> bool {
    &&& forall|i: int| 0 <= i < attempts.len() ==> (#[trigger] attempts[i]).page.0 < pages.len()
    &&& forall|i: int, j: int|
        0 <= i < attempts.len() && 0 <= j < attempts.len() && i != j
            ==> (#[trigger] attempts[i]).page != (#[trigger] attempts[j]).page
}

/// Whether no read lock in `attempts` lands on a page whose reader count is at its maximum.
pub open spec fn readers_fit(pages: Seq<PageInner>, attempts: Seq<LockAttempt>) -> bool {
    forall|i: int|
        0 <= i < attempts.len() && (#[trigger] attempts[i]).requested_usage is Readonly
            ==> !reader_count_saturated(pages[attempts[i].page.0 as int].usage)
}

/// Whether every page of `pages` would grant its lock in `attempts` to weight `unique_weight`.
pub open spec fn lockable(pages: Seq<PageInner>, unique_weight: UniqueWeight, attempts: Seq<LockAttempt>) -> bool {
    forall|i: int| 0 <= i < attempts.len() ==> (#[trigger] grant(pages, unique_weight, attempts[i])) is Some
}

/// Whether `after` is `before` with the pages of the first `n` locks of `attempts` moved to
/// the usage that they grant to weight `unique_weight`, and every other page unchanged.
pub open spec fn locked_prefix(
    before: Seq<PageInner>,
    after: Seq<PageInner>,
    unique_weight: UniqueWeight,
    attempts: Seq<LockAttempt>,
    n: int,
) -> bool {
    &&& after.len() == before.len()
    &&& forall|j: int| 0 <= j < n ==> {
        let p = (#[trigger] attempts[j]).page.0 as int;
        after[p] == before[p].with_usage(grant(before, unique_weight, attempts[j])->0)
    }
    &&& forall|p: int| 0 <= p < before.len() && !among_first(attempts, n, p)
        ==> #[trigger] after[p] == before[p]
}

/// Whether `after` is `before` with `task` waiting on each of its pages for the access it
/// asked for there, and every other page unchanged.
pub open spec fn registered(before: Seq<PageInner>, after: Seq<PageInner>, task: Task) -> bool {
    let attempts = task.lock_attempts@;
    &&& after.len() == before.len()
    &&& forall|j: int| 0 <= j < attempts.len() ==> {
        let a = #[trigger] attempts[j];
        let p = a.page.0 as int;
        after[p].is_before_with_blocked(
            before[p],
            a.requested_usage,
            before[p].blocked(a.requested_usage).insert(task.unique_weight, task),
        )
    }
    &&& forall|p: int| 0 <= p < before.len() && !among_first(attempts, attempts.len() as int, p)
        ==> #[trigger] after[p] == before[p]
}

/// Whether no page is read-held with a count of zero.
pub open spec fn counts_positive(pages: Seq<PageInner>) -> bool {
    forall|p: int| 0 <= p < pages.len() ==> match (#[trigger] pages[p]).usage {
        Usage::Readonly(count) => count.0 >= 1,
        _ => true,
    }
}

/// Whether `task` waits, under its weight, on each of its pages for the access it asked for.
pub open spec fn parked_everywhere(pages: Seq<PageInner>, task: Task) -> bool {
    forall|j: int| 0 <= j < task.lock_attempts@.len() ==> {
        let a = #[trigger] task.lock_attempts@[j];
        pages[a.page.0 as int].blocked(a.requested_usage).contains_key(task.unique_weight)
    }
}

/// Whether no page of `task` has a waiter of the task's weight for the access the task asks.
pub open spec fn parked_nowhere(pages: Seq<PageInner>, task: Task) -> bool {
    forall|j: int| 0 <= j < task.lock_attempts@.len() ==> {
        let a = #[trigger] task.lock_attempts@[j];
        !pages[a.page.0 as int].blocked(a.requested_usage).contains_key(task.unique_weight)
    }
}

/// Whether `after` is `before` with each page of `task` moved to `usages` (by position) and
/// the task no longer waiting there, every other page unchanged.
pub open spec fn unparked_with(
    before: Seq<PageInner>,
    after: Seq<PageInner>,
    task: Task,
    usages: Seq<Usage>,
) -> bool {
    let attempts = task.lock_attempts@;
    &&& after.len() == before.len()
    &&& forall|j: int| 0 <= j < attempts.len() ==> {
        let a = #[trigger] attempts[j];
        let p = a.page.0 as int;
        after[p].is_before_with_blocked(
            before[p].with_usage(usages[j]),
            a.requested_usage,
            before[p].blocked(a.requested_usage).remove(task.unique_weight),
        )
    }
    &&& forall|p: int| 0 <= p < before.len() && !among_first(attempts, attempts.len() as int, p)
        ==> #[trigger] after[p] == before[p]
}

/// The usages that `attempts` are granted on `pages`, by position.
pub open spec fn granted_usages(
    pages: Seq<PageInner>,
    unique_weight: UniqueWeight,
    attempts: Seq<LockAttempt>,
) -> Seq<Usage> {
    Seq::new(attempts.len(), |j: int| grant(pages, unique_weight, attempts[j])->0)
}

/// Whether `(k, t)` is the heaviest waiting reader of a page that one of the first `n` locks
/// of `attempts` reads.
pub open spec fn reader_wake(
    pages: Seq<PageInner>,
    attempts: Seq<LockAttempt>,
    n: int,
    k: UniqueWeight,
    t: Task,
) -> bool {
    exists|j: int|
        0 <= j < n && (#[trigger] attempts[j]).requested_usage is Readonly && is_heaviest(
            pages[attempts[j].page.0 as int].readonly_blocked_tasks@,
            Some((k, t)),
        )
}

/// Whether `(k, t)` is the heaviest waiter of a page of the first `n` locks of `attempts` that
/// has no holder left once that lock is given back.
pub open spec fn release_wake(
    pages: Seq<PageInner>,
    attempts: Seq<LockAttempt>,
    n: int,
    k: UniqueWeight,
    t: Task,
) -> bool {
    exists|j: int|
        0 <= j < n && released_usage(pages[(#[trigger] attempts[j]).page.0 as int].usage) is Unused
            && is_heaviest(pages[attempts[j].page.0 as int].all_blocked(), Some((k, t)))
}

/// Whether `after` keeps every entry of `before`, adds only entries that `candidate` allows
/// under weights not queued before, and holds the weight of every allowed entry.
pub open spec fn queue_extended(
    before: Map<UniqueWeight, Task>,
    after: Map<UniqueWeight, Task>,
    candidate: spec_fn(UniqueWeight, Task) -> bool,
) -> bool {
    &&& forall|k: UniqueWeight| #[trigger] before.contains_key(k) ==> after.contains_key(k) && after[k] == before[k]
    &&& forall|k: UniqueWeight| #[trigger] after.contains_key(k) && !before.contains_key(k) ==> candidate(k, after[k])
    &&& forall|k: UniqueWeight, t: Task| #[trigger] candidate(k, t) ==> after.contains_key(k)
}

/// Giving back a lock right after it was granted restores the page's usage.
pub proof fn lemma_release_undoes_grant(usage: Usage, requested_usage: RequestedUsage)
    requires
        granted_usage(usage, requested_usage) is Some,
        match usage {
            Usage::Readonly(count) => count.0 >= 1 && (requested_usage is Readonly ==> count.0 < u32::MAX),
            _ => true,
        },
    ensures
        releasable(granted_usage(usage, requested_usage)->0, requested_usage),
        released_usage(granted_usage(usage, requested_usage)->0) == usage,
{
}

} // verus!
