use vstd::prelude::*;

use crate::counter::Counter;
use crate::lock_spec::{
    among_first, counts_positive, grant, granted_usages, lemma_release_undoes_grant, lockable,
    locked_prefix, parked_everywhere, parked_nowhere, queue_extended, reader_wake, readers_fit,
    registered, release_wake, unparked_with, valid_attempts,
};
use crate::page::{is_heaviest, pop_last_entry, Page, PageInner, TaskMap};
use crate::task::{LockAttempt, PageLoader, SanitizedTransaction, Task, TaskInner, UniqueWeight};
use crate::waiting::{
    lemma_page_added, lemma_queue_grows_consistently, lemma_register_keeps_waiting,
    lemma_unpark_keeps_waiting, lemma_waiting_unchanged, parked_as_itself, queue_consistent,
    waiting_consistent, weight_parked,
};
use crate::usage::{
    reader_count_saturated, releasable, released_usage, LockStatus, RequestedUsage, Usage,
};
use std::collections::BTreeMap;
use std::sync::Arc;

verus! {

/// Where a task comes from when it asks for its locks.
enum TaskSource {
    Runnable,
    Retryable,
}

/// The single-threaded lock manager: it owns every page's lock record and the queue of tasks
/// that may now succeed on a retry.
pub struct SchedulingStateMachine {
    pages: Vec<PageInner>,
    retryable_task_queue: TaskMap,
    active_task_count: Counter,
    handled_task_count: Counter,
    reschedule_count: Counter,
    rescheduled_task_count: Counter,
    total_task_count: Counter,
}

impl SchedulingStateMachine {
    /// The lock record of every page, indexed by the page handle.
    pub closed spec fn pages(&self) -> Seq<PageInner> {
        self.pages@
    }

    /// The tasks waiting for a retry, by weight.
    pub closed spec fn retryable(&self) -> Map<UniqueWeight, Task> {
        self.retryable_task_queue@
    }

    pub closed spec fn active(&self) -> int {
        self.active_task_count.0 as int
    }

    pub closed spec fn handled(&self) -> int {
        self.handled_task_count.0 as int
    }

    pub closed spec fn reschedules(&self) -> int {
        self.reschedule_count.0 as int
    }

    pub closed spec fn rescheduled(&self) -> int {
        self.rescheduled_task_count.0 as int
    }

    pub closed spec fn total(&self) -> int {
        self.total_task_count.0 as int
    }

    /// Every task ever offered is either still active or handled, no page is read-held by
    /// zero readers, the waiting lists agree with the tasks in them, and every queued task is
    /// parked on all its pages.
    pub closed spec fn wf(&self) -> bool {
        &&& self.total() == self.active() + self.handled()
        &&& counts_positive(self.pages@)
        &&& waiting_consistent(self.pages@)
        &&& queue_consistent(self.pages@, self.retryable_task_queue@)
    }

    /// Every task offered so far is either still active or handled, in every reachable state.
    pub proof fn lemma_task_counts_balance(&self)
        requires
            self.wf(),
        ensures
            self.total() == self.active() + self.handled(),
    {
    }

    /// Every queued task waits, under its weight, on each of its pages; so a retry that fails
    /// leaves the task where a later release of any of its pages can queue it again.
    pub proof fn lemma_queued_task_is_parked(&self, k: UniqueWeight)
        requires
            self.wf(),
            self.retryable().contains_key(k),
        ensures
            self.retryable()[k].unique_weight == k,
            parked_as_itself(self.pages(), self.retryable()[k]),
    {
    }

    pub fn is_empty(&self) -> (r: bool)
        ensures
            r == (self.active() == 0),
    {
        self.active_task_count.is_zero()
    }

    pub fn retryable_task_count(&self) -> (r: usize)
        ensures
            r == self.retryable().len(),
    {
        self.retryable_task_queue.len()
    }

    pub fn active_task_count(&self) -> (r: u32)
        ensures
            r == self.active(),
    {
        self.active_task_count.current()
    }

    pub fn handled_task_count(&self) -> (r: u32)
        ensures
            r == self.handled(),
    {
        self.handled_task_count.current()
    }

    pub fn reschedule_count(&self) -> (r: u32)
        ensures
            r == self.reschedules(),
    {
        self.reschedule_count.current()
    }

    pub fn rescheduled_task_count(&self) -> (r: u32)
        ensures
            r == self.rescheduled(),
    {
        self.rescheduled_task_count.current()
    }

    pub fn total_task_count(&self) -> (r: u32)
        ensures
            r == self.total(),
    {
        self.total_task_count.current()
    }

    pub fn has_retryable_task(&self) -> (r: bool)
        ensures
            r == (self.retryable().len() > 0),
    {
        !self.retryable_task_queue.is_empty()
    }

    /// Adds a fresh, unused page with nobody waiting on it, and returns its handle.
    pub fn create_page(&mut self) -> (r: Page)
        requires
            old(self).wf(),
        ensures
            final(self).wf(),
            r.0 == old(self).pages().len(),
            final(self).pages() == old(self).pages().push(final(self).pages()[r.0 as int]),
            final(self).pages()[r.0 as int].usage is Unused,
            final(self).pages()[r.0 as int].all_blocked() == Map::<UniqueWeight, Task>::empty(),
            final(self).retryable() == old(self).retryable(),
            final(self).active() == old(self).active(),
            final(self).handled() == old(self).handled(),
            final(self).reschedules() == old(self).reschedules(),
            final(self).rescheduled() == old(self).rescheduled(),
            final(self).total() == old(self).total(),
    {
        let index = self.pages.len();
        let ghost old_pages = self.pages@;
        self.pages.push(PageInner::new());
        proof {
            assert(self.pages@[index as int].all_blocked() =~= Map::<UniqueWeight, Task>::empty());
            lemma_page_added(old_pages, self.pages@, self.retryable_task_queue@);
        }
        Page(index)
    }

    /// The current usage of `page`.
    pub fn page_usage(&self, page: Page) -> (r: Usage)
        requires
            page.0 < self.pages().len(),
        ensures
            r == self.pages()[page.0 as int].usage,
    {
        self.pages[page.0].usage
    }

    fn attempt_lock_address(
        page: &PageInner,
        this_unique_weight: UniqueWeight,
        requested_usage: RequestedUsage,
    ) -> (r: LockStatus)
        requires
            requested_usage is Readonly ==> !reader_count_saturated(page.usage),
        ensures
            match r {
                LockStatus::Succeded(u) => page.lock_result(this_unique_weight, requested_usage)
                    == Some(u),
                LockStatus::Failed => page.lock_result(this_unique_weight, requested_usage) is None,
            },
    {
        let mut lock_status = match page.usage {
            Usage::Unused => LockStatus::Succeded(Usage::renew(requested_usage)),
            Usage::Readonly(count) => match requested_usage {
                RequestedUsage::Readonly => LockStatus::Succeded(Usage::Readonly(count.increment())),
                RequestedUsage::Writable => LockStatus::Failed,
            },
            Usage::Writable => LockStatus::Failed,
        };

        if let LockStatus::Succeded(_) = lock_status {
            // this weight is the heaviest among all other tasks blocked on this page.
            let outranks_all = match page.heaviest_blocked_task() {
                Some((existing_unique_weight, _)) => this_unique_weight >= existing_unique_weight,
                None => true,
            };
            // a read-only request that is heavier than every contended write lock.
            let outranks_writers = match requested_usage {
                RequestedUsage::Readonly => match page.heaviest_blocked_writing_task() {
                    Some((existing_unique_weight, _)) => this_unique_weight > existing_unique_weight,
                    None => true,
                },
                RequestedUsage::Writable => false,
            };
            if !(outranks_all || outranks_writers) {
                lock_status = LockStatus::Failed;
            }
        }
        lock_status
    }

    /// Tries each lock of `attempts` in order and stops at the first refusal; returns how many
    /// were granted. Granted usages go straight into the pages when `rollback_on_failure`, and
    /// into `staged` otherwise.
    fn attempt_lock_for_execution(
        pages: &mut Vec<PageInner>,
        unique_weight: UniqueWeight,
        attempts: &Vec<LockAttempt>,
        rollback_on_failure: bool,
        staged: &mut Vec<Usage>,
    ) -> (r: usize)
        requires
            valid_attempts(old(pages)@, attempts@),
            readers_fit(old(pages)@, attempts@),
            old(staged)@.len() == 0,
        ensures
            r <= attempts@.len(),
            forall|j: int| 0 <= j < r ==> (#[trigger] grant(old(pages)@, unique_weight, attempts@[j])) is Some,
            r < attempts@.len() ==> grant(old(pages)@, unique_weight, attempts@[r as int]) is None,
            final(pages)@.len() == old(pages)@.len(),
            rollback_on_failure ==> locked_prefix(old(pages)@, final(pages)@, unique_weight, attempts@, r as int),
            !rollback_on_failure ==> final(pages)@ == old(pages)@,
            !rollback_on_failure ==> final(staged)@.len() == r,
            !rollback_on_failure ==> forall|j: int| 0 <= j < r ==>
                Some(#[trigger] final(staged)@[j]) == grant(old(pages)@, unique_weight, attempts@[j]),
    {
        let ghost old_pages = pages@;
        let mut lock_count: usize = 0;
        while lock_count < attempts.len()
            invariant
                valid_attempts(old_pages, attempts@),
                readers_fit(old_pages, attempts@),
                0 <= lock_count <= attempts@.len(),
                pages@.len() == old_pages.len(),
                forall|j: int| 0 <= j < lock_count ==> (#[trigger] grant(old_pages, unique_weight, attempts@[j])) is Some,
                rollback_on_failure ==> locked_prefix(old_pages, pages@, unique_weight, attempts@, lock_count as int),
                !rollback_on_failure ==> pages@ == old_pages,
                !rollback_on_failure ==> staged@.len() == lock_count,
                !rollback_on_failure ==> forall|j: int| 0 <= j < lock_count ==>
                    Some(#[trigger] staged@[j]) == grant(old_pages, unique_weight, attempts@[j]),
            ensures
                lock_count <= attempts@.len(),
                lock_count < attempts@.len() ==> grant(old_pages, unique_weight, attempts@[lock_count as int]) is None,
            decreases attempts@.len() - lock_count,
        {
            let attempt = attempts[lock_count];
            let p = attempt.page.0;
            proof {
                assert(attempts@[lock_count as int] == attempt);
                if rollback_on_failure {
                    assert(!among_first(attempts@, lock_count as int, p as int)) by {
                        if among_first(attempts@, lock_count as int, p as int) {
                            let j = choose|j: int| 0 <= j < lock_count && (#[trigger] attempts@[j]).page.0 == p;
                            assert(attempts@[j].page == attempts@[lock_count as int].page);
                        }
                    }
                }
                assert(pages@[p as int] == old_pages[p as int]);
            }
            match Self::attempt_lock_address(&pages[p], unique_weight, attempt.requested_usage) {
                LockStatus::Succeded(usage) => {
                    if rollback_on_failure {
                        pages[p].usage = usage;
                        proof {
                            assert forall|q: int|
                                0 <= q < old_pages.len() && !among_first(attempts@, lock_count + 1, q)
                                    implies #[trigger] pages@[q] == old_pages[q] by {
                                assert(!among_first(attempts@, lock_count as int, q)) by {
                                    if among_first(attempts@, lock_count as int, q) {
                                        let j = choose|j: int| 0 <= j < lock_count && (#[trigger] attempts@[j]).page.0 == q;
                                        assert(0 <= j < lock_count + 1 && attempts@[j].page.0 == q);
                                    }
                                }
                                assert(q != p) by {
                                    assert(attempts@[lock_count as int].page.0 == p);
                                }
                            }
                            assert forall|j: int| 0 <= j < lock_count + 1 implies {
                                let pj = (#[trigger] attempts@[j]).page.0 as int;
                                pages@[pj] == old_pages[pj].with_usage(grant(old_pages, unique_weight, attempts@[j])->0)
                            } by {
                                if j < lock_count {
                                    assert(attempts@[j].page != attempts@[lock_count as int].page);
                                }
                            }
                        }
                    } else {
                        staged.push(usage);
                    }
                    lock_count = lock_count + 1;
                },
                LockStatus::Failed => {
                    assert(grant(old_pages, unique_weight, attempts@[lock_count as int]) is None);
                    break;
                },
            }
        }
        lock_count
    }

    /// Gives back one lock; returns whether the page has no holder left.
    fn unlock(page: &mut PageInner, requested_usage: RequestedUsage) -> (r: bool)
        requires
            releasable(old(page).usage, requested_usage),
        ensures
            *final(page) == old(page).with_usage(released_usage(old(page).usage)),
            r == (final(page).usage is Unused),
    {
        let mut is_unused_now = false;
        match page.usage {
            Usage::Readonly(count) => {
                if count.is_one() {
                    is_unused_now = true;
                } else {
                    page.usage = Usage::Readonly(count.decrement());
                }
            },
            Usage::Writable => {
                is_unused_now = true;
            },
            Usage::Unused => {},
        }
        if is_unused_now {
            page.usage = Usage::Unused;
        }
        is_unused_now
    }

    /// Gives back the first `lock_count` locks of `attempts`.
    fn rollback_locking(pages: &mut Vec<PageInner>, attempts: &Vec<LockAttempt>, lock_count: usize)
        requires
            lock_count <= attempts@.len(),
            valid_attempts(old(pages)@, attempts@),
            forall|j: int| 0 <= j < lock_count ==> releasable(
                old(pages)@[(#[trigger] attempts@[j]).page.0 as int].usage,
                attempts@[j].requested_usage,
            ),
        ensures
            final(pages)@.len() == old(pages)@.len(),
            forall|j: int| 0 <= j < lock_count ==> {
                let p = (#[trigger] attempts@[j]).page.0 as int;
                final(pages)@[p] == old(pages)@[p].with_usage(released_usage(old(pages)@[p].usage))
            },
            forall|p: int| 0 <= p < old(pages)@.len() && !among_first(attempts@, lock_count as int, p)
                ==> #[trigger] final(pages)@[p] == old(pages)@[p],
    {
        let ghost old_pages = pages@;
        let mut i: usize = 0;
        while i < lock_count
            invariant
                lock_count <= attempts@.len(),
                valid_attempts(old_pages, attempts@),
                forall|j: int| 0 <= j < lock_count ==> releasable(
                    old_pages[(#[trigger] attempts@[j]).page.0 as int].usage,
                    attempts@[j].requested_usage,
                ),
                0 <= i <= lock_count,
                pages@.len() == old_pages.len(),
                forall|j: int| 0 <= j < i ==> {
                    let p = (#[trigger] attempts@[j]).page.0 as int;
                    pages@[p] == old_pages[p].with_usage(released_usage(old_pages[p].usage))
                },
                forall|p: int| 0 <= p < old_pages.len() && !among_first(attempts@, i as int, p)
                    ==> #[trigger] pages@[p] == old_pages[p],
            decreases lock_count - i,
        {
            let attempt = attempts[i];
            let p = attempt.page.0;
            proof {
                assert(attempts@[i as int] == attempt);
                assert(!among_first(attempts@, i as int, p as int)) by {
                    if among_first(attempts@, i as int, p as int) {
                        let j = choose|j: int| 0 <= j < i && (#[trigger] attempts@[j]).page.0 == p;
                        assert(attempts@[j].page == attempts@[i as int].page);
                    }
                }
            }
            Self::unlock(&mut pages[p], attempt.requested_usage);
            proof {
                assert forall|q: int| 0 <= q < old_pages.len() && !among_first(attempts@, i + 1, q)
                    implies #[trigger] pages@[q] == old_pages[q] by {
                    assert(!among_first(attempts@, i as int, q)) by {
                        if among_first(attempts@, i as int, q) {
                            let j = choose|j: int| 0 <= j < i && (#[trigger] attempts@[j]).page.0 == q;
                            assert(0 <= j < i + 1 && attempts@[j].page.0 == q);
                        }
                    }
                    assert(q != p) by {
                        assert(attempts@[i as int].page.0 == p);
                    }
                }
                assert forall|j: int| 0 <= j < i + 1 implies {
                    let pj = (#[trigger] attempts@[j]).page.0 as int;
                    pages@[pj] == old_pages[pj].with_usage(released_usage(old_pages[pj].usage))
                } by {
                    if j < i {
                        assert(attempts@[j].page != attempts@[i as int].page);
                    }
                }
            }
            i = i + 1;
        }
    }

    /// Parks `task` on every one of its pages, under the access it asked for there.
    fn register_blocked_task_into_pages(pages: &mut Vec<PageInner>, task: &Task)
        requires
            valid_attempts(old(pages)@, task.lock_attempts@),
            forall|j: int| 0 <= j < task.lock_attempts@.len() ==> {
                let a = #[trigger] task.lock_attempts@[j];
                !old(pages)@[a.page.0 as int].blocked(a.requested_usage).contains_key(task.unique_weight)
            },
        ensures
            registered(old(pages)@, final(pages)@, *task),
    {
        let ghost old_pages = pages@;
        let attempts = &task.lock_attempts;
        let mut i: usize = 0;
        while i < attempts.len()
            invariant
                attempts == &task.lock_attempts,
                valid_attempts(old_pages, attempts@),
                forall|j: int| 0 <= j < attempts@.len() ==> {
                    let a = #[trigger] attempts@[j];
                    !old_pages[a.page.0 as int].blocked(a.requested_usage).contains_key(task.unique_weight)
                },
                0 <= i <= attempts@.len(),
                pages@.len() == old_pages.len(),
                forall|j: int| 0 <= j < i ==> {
                    let a = #[trigger] attempts@[j];
                    let p = a.page.0 as int;
                    pages@[p].is_before_with_blocked(
                        old_pages[p],
                        a.requested_usage,
                        old_pages[p].blocked(a.requested_usage).insert(task.unique_weight, *task),
                    )
                },
                forall|p: int| 0 <= p < old_pages.len() && !among_first(attempts@, i as int, p)
                    ==> #[trigger] pages@[p] == old_pages[p],
            decreases attempts@.len() - i,
        {
            let attempt = attempts[i];
            let p = attempt.page.0;
            proof {
                assert(attempts@[i as int] == attempt);
                assert(!among_first(attempts@, i as int, p as int)) by {
                    if among_first(attempts@, i as int, p as int) {
                        let j = choose|j: int| 0 <= j < i && (#[trigger] attempts@[j]).page.0 == p;
                        assert(attempts@[j].page == attempts@[i as int].page);
                    }
                }
            }
            let cloned = task.clone();
            assert(cloned == *task);
            pages[p].insert_blocked_task(cloned, attempt.requested_usage);
            proof {
                assert forall|q: int| 0 <= q < old_pages.len() && !among_first(attempts@, i + 1, q)
                    implies #[trigger] pages@[q] == old_pages[q] by {
                    assert(!among_first(attempts@, i as int, q)) by {
                        if among_first(attempts@, i as int, q) {
                            let j = choose|j: int| 0 <= j < i && (#[trigger] attempts@[j]).page.0 == q;
                            assert(0 <= j < i + 1 && attempts@[j].page.0 == q);
                        }
                    }
                    assert(q != p) by {
                        assert(attempts@[i as int].page.0 == p);
                    }
                }
                assert forall|j: int| 0 <= j < i + 1 implies {
                    let a = #[trigger] attempts@[j];
                    let pj = a.page.0 as int;
                    pages@[pj].is_before_with_blocked(
                        old_pages[pj],
                        a.requested_usage,
                        old_pages[pj].blocked(a.requested_usage).insert(task.unique_weight, *task),
                    )
                } by {
                    if j < i {
                        assert(attempts@[j].page != attempts@[i as int].page);
                    }
                }
            }
            i = i + 1;
        }
    }

    /// Moves each page of a retried task to its staged usage and takes the task off the page's
    /// waiting list.
    fn commit_staged_locks(pages: &mut Vec<PageInner>, task: &Task, staged: &Vec<Usage>)
        requires
            valid_attempts(old(pages)@, task.lock_attempts@),
            parked_everywhere(old(pages)@, *task),
            staged@.len() == task.lock_attempts@.len(),
        ensures
            unparked_with(old(pages)@, final(pages)@, *task, staged@),
    {
        let ghost old_pages = pages@;
        let attempts = &task.lock_attempts;
        let mut i: usize = 0;
        while i < attempts.len()
            invariant
                attempts == &task.lock_attempts,
                valid_attempts(old_pages, attempts@),
                parked_everywhere(old_pages, *task),
                staged@.len() == attempts@.len(),
                0 <= i <= attempts@.len(),
                pages@.len() == old_pages.len(),
                forall|j: int| 0 <= j < i ==> {
                    let a = #[trigger] attempts@[j];
                    let p = a.page.0 as int;
                    pages@[p].is_before_with_blocked(
                        old_pages[p].with_usage(staged@[j]),
                        a.requested_usage,
                        old_pages[p].blocked(a.requested_usage).remove(task.unique_weight),
                    )
                },
                forall|p: int| 0 <= p < old_pages.len() && !among_first(attempts@, i as int, p)
                    ==> #[trigger] pages@[p] == old_pages[p],
            decreases attempts@.len() - i,
        {
            let attempt = attempts[i];
            let p = attempt.page.0;
            proof {
                assert(attempts@[i as int] == attempt);
                assert(!among_first(attempts@, i as int, p as int)) by {
                    if among_first(attempts@, i as int, p as int) {
                        let j = choose|j: int| 0 <= j < i && (#[trigger] attempts@[j]).page.0 == p;
                        assert(attempts@[j].page == attempts@[i as int].page);
                    }
                }
            }
            pages[p].usage = staged[i];
            pages[p].remove_blocked_task(attempt.requested_usage, task.unique_weight);
            proof {
                assert forall|q: int| 0 <= q < old_pages.len() && !among_first(attempts@, i + 1, q)
                    implies #[trigger] pages@[q] == old_pages[q] by {
                    assert(!among_first(attempts@, i as int, q)) by {
                        if among_first(attempts@, i as int, q) {
                            let j = choose|j: int| 0 <= j < i && (#[trigger] attempts@[j]).page.0 == q;
                            assert(0 <= j < i + 1 && attempts@[j].page.0 == q);
                        }
                    }
                    assert(q != p) by {
                        assert(attempts@[i as int].page.0 == p);
                    }
                }
                assert forall|j: int| 0 <= j < i + 1 implies {
                    let a = #[trigger] attempts@[j];
                    let pj = a.page.0 as int;
                    pages@[pj].is_before_with_blocked(
                        old_pages[pj].with_usage(staged@[j]),
                        a.requested_usage,
                        old_pages[pj].blocked(a.requested_usage).remove(task.unique_weight),
                    )
                } by {
                    if j < i {
                        assert(attempts@[j].page != attempts@[i as int].page);
                    }
                }
            }
            i = i + 1;
        }
    }

    /// For each page that `attempts` reads, queues its heaviest waiting reader unless a task
    /// of that weight is queued already.
    fn enqueue_heaviest_readers(pages: &Vec<PageInner>, queue: &mut TaskMap, attempts: &Vec<LockAttempt>)
        requires
            forall|i: int| 0 <= i < attempts@.len() ==> (#[trigger] attempts@[i]).page.0 < pages@.len(),
        ensures
            queue_extended(
                old(queue)@,
                final(queue)@,
                |k: UniqueWeight, t: Task| reader_wake(pages@, attempts@, attempts@.len() as int, k, t),
            ),
    {
        let ghost old_queue = queue@;
        let mut i: usize = 0;
        while i < attempts.len()
            invariant
                forall|i: int| 0 <= i < attempts@.len() ==> (#[trigger] attempts@[i]).page.0 < pages@.len(),
                0 <= i <= attempts@.len(),
                queue_extended(
                    old_queue,
                    queue@,
                    |k: UniqueWeight, t: Task| reader_wake(pages@, attempts@, i as int, k, t),
                ),
            decreases attempts@.len() - i,
        {
            let attempt = attempts[i];
            let ghost before = queue@;
            let ghost mut heaviest: Option<(UniqueWeight, Task)> = None;
            if let RequestedUsage::Readonly = attempt.requested_usage {
                let found = pages[attempt.page.0].heaviest_blocked_readonly_task();
                proof {
                    heaviest = found;
                }
                if let Some((heaviest_unique_weight, heaviest_task)) = found {
                    if !queue.contains_key(&heaviest_unique_weight) {
                        queue.insert(heaviest_unique_weight, heaviest_task);
                    }
                }
            }
            proof {
                assert(attempts@[i as int] == attempt);
                let m = pages@[attempt.page.0 as int].readonly_blocked_tasks@;
                assert forall|k: UniqueWeight, t: Task|
                    #[trigger] reader_wake(pages@, attempts@, i + 1, k, t) implies queue@.contains_key(k) by {
                    let j = choose|j: int|
                        0 <= j < i + 1 && (#[trigger] attempts@[j]).requested_usage is Readonly && is_heaviest(
                            pages@[attempts@[j].page.0 as int].readonly_blocked_tasks@,
                            Some((k, t)),
                        );
                    if j < i {
                        let cand = |k: UniqueWeight, t: Task| reader_wake(pages@, attempts@, i as int, k, t);
                        assert(cand(k, t));
                    } else {
                        assert(is_heaviest(m, heaviest));
                        let (k2, t2) = heaviest->0;
                        assert(k <= k2 && k2 <= k);
                    }
                }
                assert forall|k: UniqueWeight| #[trigger] queue@.contains_key(k) && !old_queue.contains_key(k)
                    implies reader_wake(pages@, attempts@, i + 1, k, queue@[k]) by {
                    if before.contains_key(k) {
                        assert(reader_wake(pages@, attempts@, i as int, k, queue@[k]));
                        let j = choose|j: int|
                            0 <= j < i && (#[trigger] attempts@[j]).requested_usage is Readonly && is_heaviest(
                                pages@[attempts@[j].page.0 as int].readonly_blocked_tasks@,
                                Some((k, queue@[k])),
                            );
                        assert(0 <= j < i + 1);
                    } else {
                        assert(attempts@[i as int].requested_usage is Readonly);
                    }
                }
            }
            i = i + 1;
        }
    }

    /// Gives back every lock of `task`; for each page left without a holder, queues its
    /// heaviest waiter unless a task of that weight is queued already.
    fn unlock_after_execution(pages: &mut Vec<PageInner>, queue: &mut TaskMap, task: &Task)
        requires
            valid_attempts(old(pages)@, task.lock_attempts@),
            forall|j: int| 0 <= j < task.lock_attempts@.len() ==> releasable(
                old(pages)@[(#[trigger] task.lock_attempts@[j]).page.0 as int].usage,
                task.lock_attempts@[j].requested_usage,
            ),
        ensures
            final(pages)@.len() == old(pages)@.len(),
            forall|j: int| 0 <= j < task.lock_attempts@.len() ==> {
                let p = (#[trigger] task.lock_attempts@[j]).page.0 as int;
                final(pages)@[p] == old(pages)@[p].with_usage(released_usage(old(pages)@[p].usage))
            },
            forall|p: int| 0 <= p < old(pages)@.len() && !among_first(task.lock_attempts@, task.lock_attempts@.len() as int, p)
                ==> #[trigger] final(pages)@[p] == old(pages)@[p],
            queue_extended(
                old(queue)@,
                final(queue)@,
                |k: UniqueWeight, t: Task| release_wake(old(pages)@, task.lock_attempts@, task.lock_attempts@.len() as int, k, t),
            ),
    {
        let ghost old_pages = pages@;
        let ghost old_queue = queue@;
        let attempts = &task.lock_attempts;
        let mut i: usize = 0;
        while i < attempts.len()
            invariant
                attempts == &task.lock_attempts,
                valid_attempts(old_pages, attempts@),
                forall|j: int| 0 <= j < attempts@.len() ==> releasable(
                    old_pages[(#[trigger] attempts@[j]).page.0 as int].usage,
                    attempts@[j].requested_usage,
                ),
                0 <= i <= attempts@.len(),
                pages@.len() == old_pages.len(),
                forall|j: int| 0 <= j < i ==> {
                    let p = (#[trigger] attempts@[j]).page.0 as int;
                    pages@[p] == old_pages[p].with_usage(released_usage(old_pages[p].usage))
                },
                forall|p: int| 0 <= p < old_pages.len() && !among_first(attempts@, i as int, p)
                    ==> #[trigger] pages@[p] == old_pages[p],
                queue_extended(
                    old_queue,
                    queue@,
                    |k: UniqueWeight, t: Task| release_wake(old_pages, attempts@, i as int, k, t),
                ),
            decreases attempts@.len() - i,
        {
            let attempt = attempts[i];
            let p = attempt.page.0;
            let ghost before = queue@;
            proof {
                assert(attempts@[i as int] == attempt);
                assert(!among_first(attempts@, i as int, p as int)) by {
                    if among_first(attempts@, i as int, p as int) {
                        let j = choose|j: int| 0 <= j < i && (#[trigger] attempts@[j]).page.0 == p;
                        assert(attempts@[j].page == attempts@[i as int].page);
                    }
                }
            }
            let is_unused_now = Self::unlock(&mut pages[p], attempt.requested_usage);
            let ghost mut heaviest: Option<(UniqueWeight, Task)> = None;
            if is_unused_now {
                let found = pages[p].heaviest_blocked_task();
                proof {
                    heaviest = found;
                }
                if let Some((heaviest_unique_weight, heaviest_task)) = found {
                    if !queue.contains_key(&heaviest_unique_weight) {
                        queue.insert(heaviest_unique_weight, heaviest_task);
                    }
                }
            }
            proof {
                assert(pages@[p as int].all_blocked() == old_pages[p as int].all_blocked());
                assert forall|q: int| 0 <= q < old_pages.len() && !among_first(attempts@, i + 1, q)
                    implies #[trigger] pages@[q] == old_pages[q] by {
                    assert(!among_first(attempts@, i as int, q)) by {
                        if among_first(attempts@, i as int, q) {
                            let j = choose|j: int| 0 <= j < i && (#[trigger] attempts@[j]).page.0 == q;
                            assert(0 <= j < i + 1 && attempts@[j].page.0 == q);
                        }
                    }
                    assert(q != p) by {
                        assert(attempts@[i as int].page.0 == p);
                    }
                }
                assert forall|j: int| 0 <= j < i + 1 implies {
                    let pj = (#[trigger] attempts@[j]).page.0 as int;
                    pages@[pj] == old_pages[pj].with_usage(released_usage(old_pages[pj].usage))
                } by {
                    if j < i {
                        assert(attempts@[j].page != attempts@[i as int].page);
                    }
                }
                assert forall|k: UniqueWeight, t: Task|
                    #[trigger] release_wake(old_pages, attempts@, i + 1, k, t) implies queue@.contains_key(k) by {
                    let j = choose|j: int|
                        0 <= j < i + 1 && released_usage(old_pages[(#[trigger] attempts@[j]).page.0 as int].usage) is Unused
                            && is_heaviest(old_pages[attempts@[j].page.0 as int].all_blocked(), Some((k, t)));
                    if j < i {
                        let cand = |k: UniqueWeight, t: Task| release_wake(old_pages, attempts@, i as int, k, t);
                        assert(cand(k, t));
                    } else {
                        assert(is_heaviest(old_pages[p as int].all_blocked(), heaviest));
                        let (k2, t2) = heaviest->0;
                        assert(k <= k2 && k2 <= k);
                    }
                }
                assert forall|k: UniqueWeight| #[trigger] queue@.contains_key(k) && !old_queue.contains_key(k)
                    implies release_wake(old_pages, attempts@, i + 1, k, queue@[k]) by {
                    if before.contains_key(k) {
                        assert(release_wake(old_pages, attempts@, i as int, k, queue@[k]));
                        let j = choose|j: int|
                            0 <= j < i && released_usage(old_pages[(#[trigger] attempts@[j]).page.0 as int].usage) is Unused
                                && is_heaviest(old_pages[attempts@[j].page.0 as int].all_blocked(), Some((k, queue@[k])));
                        assert(0 <= j < i + 1);
                    }
                }
            }
            i = i + 1;
        }
    }

    /// Tries to take every lock of `task`. A fresh task that fails gives back what it took
    /// and waits on all its pages; a retried task that fails changes nothing. On success
    /// `on_success` runs on the task, and a retried task commits its staged usages, leaves its
    /// pages' waiting lists and wakes the heaviest waiting reader of each page it reads.
    fn try_lock_for_task<R, F: FnOnce(&Task) -> R>(
        &mut self,
        task_source: TaskSource,
        task: Task,
        on_success: F,
    ) -> (r: Option<R>)
        requires
            valid_attempts(old(self).pages@, task.lock_attempts@),
            readers_fit(old(self).pages@, task.lock_attempts@),
            counts_positive(old(self).pages@),
            on_success.requires((&task,)),
            task_source is Runnable && !lockable(old(self).pages@, task.unique_weight, task.lock_attempts@)
                ==> parked_nowhere(old(self).pages@, task),
            task_source is Retryable && lockable(old(self).pages@, task.unique_weight, task.lock_attempts@)
                ==> parked_everywhere(old(self).pages@, task),
        ensures
            r is Some <==> lockable(old(self).pages@, task.unique_weight, task.lock_attempts@),
            r matches Some(v) ==> on_success.ensures((&task,), v),
            counts_positive(final(self).pages@),
            final(self).active_task_count == old(self).active_task_count,
            final(self).handled_task_count == old(self).handled_task_count,
            final(self).reschedule_count == old(self).reschedule_count,
            final(self).rescheduled_task_count == old(self).rescheduled_task_count,
            final(self).total_task_count == old(self).total_task_count,
            task_source is Runnable ==> final(self).retryable_task_queue@ == old(self).retryable_task_queue@,
            task_source is Runnable && r is Some ==> locked_prefix(
                old(self).pages@,
                final(self).pages@,
                task.unique_weight,
                task.lock_attempts@,
                task.lock_attempts@.len() as int,
            ),
            task_source is Runnable && r is None ==> registered(old(self).pages@, final(self).pages@, task),
            task_source is Retryable && r is None ==> final(self).pages@ == old(self).pages@
                && final(self).retryable_task_queue@ == old(self).retryable_task_queue@,
            task_source is Retryable && r is Some ==> unparked_with(
                old(self).pages@,
                final(self).pages@,
                task,
                granted_usages(old(self).pages@, task.unique_weight, task.lock_attempts@),
            ),
            task_source is Retryable && r is Some ==> queue_extended(
                old(self).retryable_task_queue@,
                final(self).retryable_task_queue@,
                |k: UniqueWeight, t: Task| reader_wake(final(self).pages@, task.lock_attempts@, task.lock_attempts@.len() as int, k, t),
            ),
    {
        let ghost old_pages = self.pages@;
        let rollback_on_failure = match task_source {
            TaskSource::Runnable => true,
            TaskSource::Retryable => false,
        };
        let mut staged: Vec<Usage> = Vec::new();
        let lock_count = Self::attempt_lock_for_execution(
            &mut self.pages,
            task.unique_weight,
            &task.lock_attempts,
            rollback_on_failure,
            &mut staged,
        );
        let ghost attempts = task.lock_attempts@;
        let ghost n = attempts.len() as int;
        if lock_count < task.lock_attempts.len() {
            proof {
                assert(!lockable(old_pages, task.unique_weight, attempts)) by {
                    assert(grant(old_pages, task.unique_weight, attempts[lock_count as int]) is None);
                }
            }
            if rollback_on_failure {
                let ghost mid = self.pages@;
                proof {
                    assert forall|j: int| 0 <= j < lock_count implies releasable(
                        mid[(#[trigger] attempts[j]).page.0 as int].usage,
                        attempts[j].requested_usage,
                    ) by {
                        let p = attempts[j].page.0 as int;
                        assert(grant(old_pages, task.unique_weight, attempts[j]) is Some);
                        lemma_release_undoes_grant(old_pages[p].usage, attempts[j].requested_usage);
                    }
                }
                Self::rollback_locking(&mut self.pages, &task.lock_attempts, lock_count);
                proof {
                    assert forall|p: int| 0 <= p < old_pages.len() implies #[trigger] self.pages@[p] == old_pages[p] by {
                        if among_first(attempts, lock_count as int, p) {
                            let j = choose|j: int| 0 <= j < lock_count && (#[trigger] attempts[j]).page.0 == p;
                            assert(grant(old_pages, task.unique_weight, attempts[j]) is Some);
                            lemma_release_undoes_grant(old_pages[p].usage, attempts[j].requested_usage);
                        }
                    }
                    assert(self.pages@ =~= old_pages);
                }
                Self::register_blocked_task_into_pages(&mut self.pages, &task);
                proof {
                    assert forall|p: int| 0 <= p < self.pages@.len() implies match (#[trigger] self.pages@[p]).usage {
                        Usage::Readonly(count) => count.0 >= 1,
                        _ => true,
                    } by {
                        if among_first(attempts, n, p) {
                            let j = choose|j: int| 0 <= j < n && (#[trigger] attempts[j]).page.0 == p;
                            assert(self.pages@[p].usage == old_pages[p].usage);
                        } else {
                            assert(self.pages@[p] == old_pages[p]);
                        }
                    }
                }
            }
            None
        } else {
            proof {
                assert(lockable(old_pages, task.unique_weight, attempts));
            }
            let ret = on_success(&task);
            if let TaskSource::Retryable = task_source {
                proof {
                    assert(staged@ =~= granted_usages(old_pages, task.unique_weight, attempts));
                }
                Self::commit_staged_locks(&mut self.pages, &task, &staged);
                Self::enqueue_heaviest_readers(&self.pages, &mut self.retryable_task_queue, &task.lock_attempts);
            }
            proof {
                assert forall|p: int| 0 <= p < self.pages@.len() implies match (#[trigger] self.pages@[p]).usage {
                    Usage::Readonly(count) => count.0 >= 1,
                    _ => true,
                } by {
                    if among_first(attempts, n, p) {
                        let j = choose|j: int| 0 <= j < n && (#[trigger] attempts[j]).page.0 == p;
                        assert(grant(old_pages, task.unique_weight, attempts[j]) is Some);
                    } else {
                        assert(self.pages@[p] == old_pages[p]);
                    }
                }
            }
            Some(ret)
        }
    }

    /// Offers a new task. When every lock is granted, the locks are taken and `on_success`'s
    /// result is returned; otherwise nothing stays locked, the task waits on all its pages, and
    /// `None` is returned. Either way the task counts as active.
    pub fn schedule_task<R, F: FnOnce(&Task) -> R>(&mut self, task: Task, on_success: F) -> (r: Option<R>)
        requires
            old(self).wf(),
            old(self).total() < u32::MAX,
            valid_attempts(old(self).pages(), task.lock_attempts@),
            readers_fit(old(self).pages(), task.lock_attempts@),
            on_success.requires((&task,)),
            !lockable(old(self).pages(), task.unique_weight, task.lock_attempts@)
                ==> !weight_parked(old(self).pages(), task.unique_weight),
        ensures
            final(self).wf(),
            r is Some <==> lockable(old(self).pages(), task.unique_weight, task.lock_attempts@),
            r matches Some(v) ==> on_success.ensures((&task,), v),
            r is Some ==> locked_prefix(
                old(self).pages(),
                final(self).pages(),
                task.unique_weight,
                task.lock_attempts@,
                task.lock_attempts@.len() as int,
            ),
            r is None ==> registered(old(self).pages(), final(self).pages(), task),
            final(self).retryable() == old(self).retryable(),
            final(self).total() == old(self).total() + 1,
            final(self).active() == old(self).active() + 1,
            final(self).handled() == old(self).handled(),
            final(self).reschedules() == old(self).reschedules(),
            final(self).rescheduled() == old(self).rescheduled(),
    {
        let ghost old_pages = self.pages@;
        let ghost attempts = task.lock_attempts@;
        let ghost n = attempts.len() as int;
        proof {
            if !lockable(old_pages, task.unique_weight, attempts) {
                assert forall|j: int| 0 <= j < n implies {
                    let a = #[trigger] attempts[j];
                    !old_pages[a.page.0 as int].blocked(a.requested_usage).contains_key(task.unique_weight)
                } by {
                    let a = attempts[j];
                    if old_pages[a.page.0 as int].blocked(a.requested_usage).contains_key(task.unique_weight) {
                        assert(weight_parked(old_pages, task.unique_weight));
                    }
                }
            }
        }
        let ghost task_copy = task;
        let ret = self.try_lock_for_task(TaskSource::Runnable, task, on_success);
        proof {
            if ret is Some {
                assert forall|p: int| 0 <= p < old_pages.len() implies (#[trigger] self.pages@[p]).writable_blocked_tasks@
                    == old_pages[p].writable_blocked_tasks@ && self.pages@[p].readonly_blocked_tasks@
                    == old_pages[p].readonly_blocked_tasks@ by {
                    if among_first(attempts, n, p) {
                        let j = choose|j: int| 0 <= j < n && (#[trigger] attempts[j]).page.0 == p;
                    }
                }
                lemma_waiting_unchanged(old_pages, self.pages@, self.retryable_task_queue@);
            } else {
                lemma_register_keeps_waiting(old_pages, self.pages@, task_copy, self.retryable_task_queue@);
            }
        }
        self.total_task_count.increment_self();
        self.active_task_count.increment_self();
        ret
    }

    /// `schedule_task` that hands back the task itself on success.
    pub fn schedule_task_for_test(&mut self, task: Task) -> (r: Option<Task>)
        requires
            old(self).wf(),
            old(self).total() < u32::MAX,
            valid_attempts(old(self).pages(), task.lock_attempts@),
            readers_fit(old(self).pages(), task.lock_attempts@),
            !lockable(old(self).pages(), task.unique_weight, task.lock_attempts@)
                ==> !weight_parked(old(self).pages(), task.unique_weight),
        ensures
            final(self).wf(),
            r is Some <==> lockable(old(self).pages(), task.unique_weight, task.lock_attempts@),
            r matches Some(t) ==> t == task,
            r is Some ==> locked_prefix(
                old(self).pages(),
                final(self).pages(),
                task.unique_weight,
                task.lock_attempts@,
                task.lock_attempts@.len() as int,
            ),
            r is None ==> registered(old(self).pages(), final(self).pages(), task),
            final(self).retryable() == old(self).retryable(),
            final(self).total() == old(self).total() + 1,
            final(self).active() == old(self).active() + 1,
            final(self).handled() == old(self).handled(),
            final(self).reschedules() == old(self).reschedules(),
            final(self).rescheduled() == old(self).rescheduled(),
    {
        self.schedule_task(task, |task: &Task| -> (r: Task)
            ensures
                r == *task,
            { task.clone() })
    }

    /// Forgets every task queued for a retry.
    pub fn clear_retryable_tasks(&mut self)
        requires
            old(self).wf(),
        ensures
            final(self).wf(),
            final(self).retryable() == Map::<UniqueWeight, Task>::empty(),
            final(self).pages() == old(self).pages(),
            final(self).total() == old(self).total(),
            final(self).active() == old(self).active(),
            final(self).handled() == old(self).handled(),
            final(self).reschedules() == old(self).reschedules(),
            final(self).rescheduled() == old(self).rescheduled(),
    {
        self.retryable_task_queue.clear()
    }

    /// Takes the heaviest task off the retry queue, if any, and tries its locks again. On
    /// success the locks are taken, the task stops waiting on its pages, the heaviest waiting
    /// reader of each page it reads is queued, and `on_success`'s result is returned. On
    /// failure nothing else changes.
    pub fn schedule_retryable_task<R, F: FnOnce(&Task) -> R>(&mut self, on_success: F) -> (r: Option<R>)
        requires
            old(self).wf(),
            old(self).reschedules() < u32::MAX,
            old(self).rescheduled() < u32::MAX,
            forall|k: UniqueWeight, t: Task| #[trigger] is_heaviest(old(self).retryable(), Some((k, t))) ==> {
                &&& readers_fit(old(self).pages(), t.lock_attempts@)
                &&& on_success.requires((&t,))
            },
        ensures
            final(self).wf(),
            final(self).total() == old(self).total(),
            final(self).active() == old(self).active(),
            final(self).handled() == old(self).handled(),
            is_heaviest(old(self).retryable(), None) ==> {
                &&& r is None
                &&& final(self).pages() == old(self).pages()
                &&& final(self).retryable() == old(self).retryable()
                &&& final(self).reschedules() == old(self).reschedules()
                &&& final(self).rescheduled() == old(self).rescheduled()
            },
            forall|k: UniqueWeight, t: Task| #[trigger] is_heaviest(old(self).retryable(), Some((k, t))) ==> {
                let w = t.unique_weight;
                let attempts = t.lock_attempts@;
                &&& final(self).reschedules() == old(self).reschedules() + 1
                &&& (r is Some <==> lockable(old(self).pages(), w, attempts))
                &&& (r matches Some(v) ==> on_success.ensures((&t,), v))
                &&& r is Some ==> {
                    &&& final(self).rescheduled() == old(self).rescheduled() + 1
                    &&& unparked_with(old(self).pages(), final(self).pages(), t, granted_usages(old(self).pages(), w, attempts))
                    &&& queue_extended(
                        old(self).retryable().remove(k),
                        final(self).retryable(),
                        |k2: UniqueWeight, t2: Task| reader_wake(final(self).pages(), attempts, attempts.len() as int, k2, t2),
                    )
                }
                &&& r is None ==> {
                    &&& final(self).rescheduled() == old(self).rescheduled()
                    &&& final(self).pages() == old(self).pages()
                    &&& final(self).retryable() == old(self).retryable().remove(k)
                }
            },
    {
        let ghost old_queue = self.retryable();
        let ghost old_pages = self.pages();
        match pop_last_entry(&mut self.retryable_task_queue) {
            None => None,
            Some((unique_weight, task)) => {
                assert(is_heaviest(old_queue, Some((unique_weight, task))));
                assert(old_queue.contains_key(unique_weight));
                let ghost popped = self.retryable_task_queue@;
                let ghost task_copy = task;
                proof {
                    assert(parked_as_itself(old_pages, task));
                }
                let ret = self.try_lock_for_task(TaskSource::Retryable, task, on_success);
                proof {
                    let attempts = task_copy.lock_attempts@;
                    if ret is Some {
                        lemma_unpark_keeps_waiting(
                            old_pages,
                            self.pages@,
                            task_copy,
                            granted_usages(old_pages, task_copy.unique_weight, attempts),
                            popped,
                        );
                        let pages = self.pages@;
                        let candidate = |k2: UniqueWeight, t2: Task| reader_wake(pages, attempts, attempts.len() as int, k2, t2);
                        assert forall|k2: UniqueWeight, t2: Task| #[trigger] candidate(k2, t2) implies exists|p: int, req: RequestedUsage|
                            0 <= p < pages.len() && #[trigger] pages[p].blocked(req).contains_key(k2) && pages[p].blocked(req)[k2] == t2 by {
                            let j = choose|j: int|
                                0 <= j < attempts.len() && (#[trigger] attempts[j]).requested_usage is Readonly && is_heaviest(
                                    pages[attempts[j].page.0 as int].readonly_blocked_tasks@,
                                    Some((k2, t2)),
                                );
                            let p = attempts[j].page.0 as int;
                            assert(pages[p].blocked(RequestedUsage::Readonly).contains_key(k2));
                        }
                        lemma_queue_grows_consistently(pages, popped, self.retryable_task_queue@, candidate);
                    }
                }
                self.reschedule_count.increment_self();
                if ret.is_some() {
                    self.rescheduled_task_count.increment_self();
                }
                ret
            },
        }
    }

    /// `schedule_retryable_task` that hands back the task itself on success.
    pub fn schedule_retryable_task_for_test(&mut self) -> (r: Option<Task>)
        requires
            old(self).wf(),
            old(self).reschedules() < u32::MAX,
            old(self).rescheduled() < u32::MAX,
            forall|k: UniqueWeight, t: Task| #[trigger] is_heaviest(old(self).retryable(), Some((k, t)))
                ==> readers_fit(old(self).pages(), t.lock_attempts@),
        ensures
            final(self).wf(),
            final(self).total() == old(self).total(),
            final(self).active() == old(self).active(),
            final(self).handled() == old(self).handled(),
            is_heaviest(old(self).retryable(), None) ==> {
                &&& r is None
                &&& final(self).pages() == old(self).pages()
                &&& final(self).retryable() == old(self).retryable()
                &&& final(self).reschedules() == old(self).reschedules()
                &&& final(self).rescheduled() == old(self).rescheduled()
            },
            forall|k: UniqueWeight, t: Task| #[trigger] is_heaviest(old(self).retryable(), Some((k, t))) ==> {
                let w = t.unique_weight;
                let attempts = t.lock_attempts@;
                &&& final(self).reschedules() == old(self).reschedules() + 1
                &&& (r is Some <==> lockable(old(self).pages(), w, attempts))
                &&& (r matches Some(v) ==> v == t)
                &&& r is Some ==> {
                    &&& final(self).rescheduled() == old(self).rescheduled() + 1
                    &&& unparked_with(old(self).pages(), final(self).pages(), t, granted_usages(old(self).pages(), w, attempts))
                    &&& queue_extended(
                        old(self).retryable().remove(k),
                        final(self).retryable(),
                        |k2: UniqueWeight, t2: Task| reader_wake(final(self).pages(), attempts, attempts.len() as int, k2, t2),
                    )
                }
                &&& r is None ==> {
                    &&& final(self).rescheduled() == old(self).rescheduled()
                    &&& final(self).pages() == old(self).pages()
                    &&& final(self).retryable() == old(self).retryable().remove(k)
                }
            },
    {
        self.schedule_retryable_task(|task: &Task| -> (r: Task)
            ensures
                r == *task,
            { task.clone() })
    }

    /// Marks `task` as handled and gives back all its locks. For each page left without a
    /// holder, its heaviest waiting task is queued for a retry unless a task of that weight is
    /// queued already.
    pub fn deschedule_task(&mut self, task: &Task)
        requires
            old(self).wf(),
            old(self).active() > 0,
            valid_attempts(old(self).pages(), task.lock_attempts@),
            forall|j: int| 0 <= j < task.lock_attempts@.len() ==> releasable(
                old(self).pages()[(#[trigger] task.lock_attempts@[j]).page.0 as int].usage,
                task.lock_attempts@[j].requested_usage,
            ),
        ensures
            final(self).wf(),
            final(self).active() == old(self).active() - 1,
            final(self).handled() == old(self).handled() + 1,
            final(self).total() == old(self).total(),
            final(self).reschedules() == old(self).reschedules(),
            final(self).rescheduled() == old(self).rescheduled(),
            final(self).pages().len() == old(self).pages().len(),
            forall|j: int| 0 <= j < task.lock_attempts@.len() ==> {
                let p = (#[trigger] task.lock_attempts@[j]).page.0 as int;
                final(self).pages()[p] == old(self).pages()[p].with_usage(released_usage(old(self).pages()[p].usage))
            },
            forall|p: int| 0 <= p < old(self).pages().len()
                && !among_first(task.lock_attempts@, task.lock_attempts@.len() as int, p)
                ==> #[trigger] final(self).pages()[p] == old(self).pages()[p],
            queue_extended(
                old(self).retryable(),
                final(self).retryable(),
                |k: UniqueWeight, t: Task| release_wake(old(self).pages(), task.lock_attempts@, task.lock_attempts@.len() as int, k, t),
            ),
    {
        self.active_task_count.decrement_self();
        self.handled_task_count.increment_self();
        let ghost old_pages = self.pages@;
        let ghost old_queue = self.retryable_task_queue@;
        Self::unlock_after_execution(&mut self.pages, &mut self.retryable_task_queue, task);
        proof {
            let attempts = task.lock_attempts@;
            let n = attempts.len() as int;
            let pages = self.pages@;
            assert forall|p: int| 0 <= p < old_pages.len() implies (#[trigger] pages[p]).writable_blocked_tasks@
                == old_pages[p].writable_blocked_tasks@ && pages[p].readonly_blocked_tasks@
                == old_pages[p].readonly_blocked_tasks@ by {
                if among_first(attempts, n, p) {
                    let j = choose|j: int| 0 <= j < n && (#[trigger] attempts[j]).page.0 == p;
                }
            }
            lemma_waiting_unchanged(old_pages, pages, old_queue);
            let candidate = |k: UniqueWeight, t: Task| release_wake(old_pages, attempts, n, k, t);
            assert forall|k: UniqueWeight, t: Task| #[trigger] candidate(k, t) implies exists|p: int, req: RequestedUsage|
                0 <= p < pages.len() && #[trigger] pages[p].blocked(req).contains_key(k) && pages[p].blocked(req)[k] == t by {
                let j = choose|j: int|
                    0 <= j < n && released_usage(old_pages[(#[trigger] attempts[j]).page.0 as int].usage) is Unused
                        && is_heaviest(old_pages[attempts[j].page.0 as int].all_blocked(), Some((k, t)));
                let p = attempts[j].page.0 as int;
                if old_pages[p].readonly_blocked_tasks@.contains_key(k) {
                    assert(pages[p].blocked(RequestedUsage::Readonly).contains_key(k));
                } else {
                    assert(pages[p].blocked(RequestedUsage::Writable).contains_key(k));
                }
            }
            lemma_queue_grows_consistently(pages, old_queue, self.retryable_task_queue@, candidate);
            let attempts = task.lock_attempts@;
            let n = attempts.len() as int;
            assert forall|p: int| 0 <= p < self.pages@.len() implies match (#[trigger] self.pages@[p]).usage {
                Usage::Readonly(count) => count.0 >= 1,
                _ => true,
            } by {
                if among_first(attempts, n, p) {
                    let j = choose|j: int| 0 <= j < n && (#[trigger] attempts[j]).page.0 == p;
                    assert(self.pages@[p].usage == released_usage(old_pages[p].usage));
                } else {
                    assert(self.pages@[p] == old_pages[p]);
                }
            }
        }
    }

    /// Builds the task for `transaction`, the `index`-th of its batch: one lock per writable
    /// account, then one per read-only account, each on the page `page_loader` gives for that
    /// address. Earlier transactions get greater weights.
    pub fn create_task<L: PageLoader>(
        transaction: SanitizedTransaction,
        index: usize,
        page_loader: &mut L,
    ) -> (r: Task)
        ensures
            r.unique_weight == u64::MAX - index,
            r.transaction == transaction,
            r.lock_attempts@.len() == transaction.writable_accounts@.len()
                + transaction.readonly_accounts@.len(),
            forall|i: int| 0 <= i < transaction.writable_accounts@.len()
                ==> (#[trigger] r.lock_attempts@[i]).requested_usage is Writable,
            forall|i: int| transaction.writable_accounts@.len() <= i < r.lock_attempts@.len()
                ==> (#[trigger] r.lock_attempts@[i]).requested_usage is Readonly,
    {
        let mut lock_attempts: Vec<LockAttempt> = Vec::new();
        let mut i: usize = 0;
        while i < transaction.writable_accounts.len()
            invariant
                0 <= i <= transaction.writable_accounts@.len(),
                lock_attempts@.len() == i,
                forall|j: int| 0 <= j < i ==> (#[trigger] lock_attempts@[j]).requested_usage is Writable,
            decreases transaction.writable_accounts@.len() - i,
        {
            let page = page_loader.load_page(transaction.writable_accounts[i]);
            lock_attempts.push(LockAttempt::new(page, RequestedUsage::Writable));
            i = i + 1;
        }
        let n_writable = transaction.writable_accounts.len();
        let mut i: usize = 0;
        while i < transaction.readonly_accounts.len()
            invariant
                n_writable == transaction.writable_accounts@.len(),
                0 <= i <= transaction.readonly_accounts@.len(),
                lock_attempts@.len() == n_writable + i,
                forall|j: int| 0 <= j < n_writable ==> (#[trigger] lock_attempts@[j]).requested_usage is Writable,
                forall|j: int| n_writable <= j < n_writable + i ==> (#[trigger] lock_attempts@[j]).requested_usage is Readonly,
            decreases transaction.readonly_accounts@.len() - i,
        {
            let page = page_loader.load_page(transaction.readonly_accounts[i]);
            lock_attempts.push(LockAttempt::new(page, RequestedUsage::Readonly));
            i = i + 1;
        }
        let unique_weight = UniqueWeight::MAX - index as UniqueWeight;
        Arc::new(TaskInner { unique_weight, transaction, lock_attempts })
    }
}

impl Default for SchedulingStateMachine {
    fn default() -> (r: Self)
        ensures
            r.wf(),
            r.pages().len() == 0,
            r.retryable() == Map::<UniqueWeight, Task>::empty(),
            r.total() == 0,
            r.active() == 0,
            r.handled() == 0,
            r.reschedules() == 0,
            r.rescheduled() == 0,
    {
        SchedulingStateMachine {
            pages: Vec::new(),
            retryable_task_queue: BTreeMap::new(),
            active_task_count: Counter::zero(),
            handled_task_count: Counter::zero(),
            reschedule_count: Counter::zero(),
            rescheduled_task_count: Counter::zero(),
            total_task_count: Counter::zero(),
        }
    }
}

} // verus!
