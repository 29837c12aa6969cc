//! Consistency of the waiting lists: every parked entry is its task, under the task's weight,
//! on exactly the pages and for exactly the access the task asked for.
use vstd::prelude::*;

use crate::page::PageInner;
use crate::lock_spec::{among_first, queue_extended, registered, unparked_with, valid_attempts};
use crate::task::{Task, UniqueWeight};
use crate::usage::{RequestedUsage, Usage};

verus! {

/// Whether `task` waits, as itself and under its own weight, on each of its pages for the
/// access it asked for there, and its locks name distinct pages of `pages`.
pub open spec fn parked_as_itself(pages: Seq<PageInner>, task: Task) -> bool {
    &&& valid_attempts(pages, task.lock_attempts@)
    &&& forall|j: int| 0 <= j < task.lock_attempts@.len() ==> {
        let a = #[trigger] task.lock_attempts@[j];
        &&& pages[a.page.0 as int].blocked(a.requested_usage).contains_key(task.unique_weight)
        &&& pages[a.page.0 as int].blocked(a.requested_usage)[task.unique_weight] == task
    }
}

/// Whether `task` has a lock on page `p` for access `requested_usage`.
pub open spec fn asks(task: Task, p: int, requested_usage: RequestedUsage) -> bool {
    exists|i: int|
        0 <= i < task.lock_attempts@.len() && (#[trigger] task.lock_attempts@[i]).page.0 == p
            && task.lock_attempts@[i].requested_usage == requested_usage
}

/// Whether the waiting lists of `pages` agree with the tasks in them, and one weight never
/// stands for two different tasks.
pub open spec fn waiting_consistent(pages: Seq<PageInner>) -> bool {
    &&& forall|p: int, req: RequestedUsage, k: UniqueWeight|
        0 <= p < pages.len() && #[trigger] pages[p].blocked(req).contains_key(k) ==> {
            let t = pages[p].blocked(req)[k];
            &&& t.unique_weight == k
            &&& parked_as_itself(pages, t)
            &&& asks(t, p, req)
        }
    &&& forall|p: int, q: int, r1: RequestedUsage, r2: RequestedUsage, k: UniqueWeight|
        0 <= p < pages.len() && 0 <= q < pages.len() && #[trigger] pages[p].blocked(r1).contains_key(k)
            && #[trigger] pages[q].blocked(r2).contains_key(k)
            ==> pages[p].blocked(r1)[k] == pages[q].blocked(r2)[k]
}

/// Whether every queued task is queued under its weight and is parked as itself.
pub open spec fn queue_consistent(pages: Seq<PageInner>, queue: Map<UniqueWeight, Task>) -> bool {
    forall|k: UniqueWeight| #[trigger] queue.contains_key(k) ==> {
        &&& queue[k].unique_weight == k
        &&& queue[k].lock_attempts@.len() > 0
        &&& parked_as_itself(pages, queue[k])
    }
}

/// Whether some task of weight `w` waits on some page.
pub open spec fn weight_parked(pages: Seq<PageInner>, w: UniqueWeight) -> bool {
    exists|p: int, req: RequestedUsage| 0 <= p < pages.len() && #[trigger] pages[p].blocked(req).contains_key(w)
}

/// Whether `a` and `b` have the same number of pages and, at every key other than `w`, the
/// same waiting lists.
pub open spec fn same_waiting_except(a: Seq<PageInner>, b: Seq<PageInner>, w: UniqueWeight) -> bool {
    &&& a.len() == b.len()
    &&& forall|p: int, req: RequestedUsage, k: UniqueWeight|
        0 <= p < a.len() && k != w ==> {
            &&& (#[trigger] b[p].blocked(req).contains_key(k)) == a[p].blocked(req).contains_key(k)
            &&& b[p].blocked(req)[k] == a[p].blocked(req)[k]
        }
}

/// A task whose weight is not `w` stays parked as itself when only key `w` changes.
proof fn lemma_parked_frame(a: Seq<PageInner>, b: Seq<PageInner>, w: UniqueWeight, t: Task)
    requires
        same_waiting_except(a, b, w),
        parked_as_itself(a, t),
        t.unique_weight != w,
    ensures
        parked_as_itself(b, t),
{
    assert forall|j: int| 0 <= j < t.lock_attempts@.len() implies {
        let x = #[trigger] t.lock_attempts@[j];
        &&& b[x.page.0 as int].blocked(x.requested_usage).contains_key(t.unique_weight)
        &&& b[x.page.0 as int].blocked(x.requested_usage)[t.unique_weight] == t
    } by {
        let x = t.lock_attempts@[j];
        assert(b[x.page.0 as int].blocked(x.requested_usage).contains_key(t.unique_weight)
            == a[x.page.0 as int].blocked(x.requested_usage).contains_key(t.unique_weight));
    }
}

/// The waiting lists stay consistent when nothing but usages change.
pub proof fn lemma_waiting_unchanged(a: Seq<PageInner>, b: Seq<PageInner>, queue: Map<UniqueWeight, Task>)
    requires
        a.len() == b.len(),
        forall|p: int| 0 <= p < a.len() ==> (#[trigger] b[p]).writable_blocked_tasks@ == a[p].writable_blocked_tasks@
            && b[p].readonly_blocked_tasks@ == a[p].readonly_blocked_tasks@,
        waiting_consistent(a),
        queue_consistent(a, queue),
    ensures
        waiting_consistent(b),
        queue_consistent(b, queue),
        forall|t: Task| parked_as_itself(a, t) ==> #[trigger] parked_as_itself(b, t),
{
    assert forall|p: int, req: RequestedUsage| 0 <= p < a.len() implies #[trigger] b[p].blocked(req) == a[p].blocked(req) by {
        assert(b[p].writable_blocked_tasks@ == a[p].writable_blocked_tasks@);
    }
    assert forall|t: Task| parked_as_itself(a, t) implies #[trigger] parked_as_itself(b, t) by {
        assert forall|j: int| 0 <= j < t.lock_attempts@.len() implies {
            let x = #[trigger] t.lock_attempts@[j];
            &&& b[x.page.0 as int].blocked(x.requested_usage).contains_key(t.unique_weight)
            &&& b[x.page.0 as int].blocked(x.requested_usage)[t.unique_weight] == t
        } by {
            let x = t.lock_attempts@[j];
            assert(b[x.page.0 as int].blocked(x.requested_usage) == a[x.page.0 as int].blocked(x.requested_usage));
        }
    }
    assert forall|p: int, req: RequestedUsage, k: UniqueWeight|
        0 <= p < b.len() && #[trigger] b[p].blocked(req).contains_key(k) implies {
            let t = b[p].blocked(req)[k];
            &&& t.unique_weight == k
            &&& parked_as_itself(b, t)
            &&& asks(t, p, req)
        } by {
        assert(b[p].blocked(req) == a[p].blocked(req));
        assert(a[p].blocked(req).contains_key(k));
    }
    assert forall|p: int, q: int, r1: RequestedUsage, r2: RequestedUsage, k: UniqueWeight|
        0 <= p < b.len() && 0 <= q < b.len() && #[trigger] b[p].blocked(r1).contains_key(k)
            && #[trigger] b[q].blocked(r2).contains_key(k)
        implies b[p].blocked(r1)[k] == b[q].blocked(r2)[k] by {
        assert(b[p].blocked(r1) == a[p].blocked(r1));
        assert(b[q].blocked(r2) == a[q].blocked(r2));
        assert(a[p].blocked(r1).contains_key(k) && a[q].blocked(r2).contains_key(k));
    }
}

/// Where `t` was just registered, each waiting list is the old one with `t` added exactly
/// where `t` asks.
proof fn lemma_registered_list(a: Seq<PageInner>, b: Seq<PageInner>, t: Task, p: int, req: RequestedUsage)
    requires
        registered(a, b, t),
        valid_attempts(a, t.lock_attempts@),
        0 <= p < a.len(),
    ensures
        b[p].blocked(req) == if asks(t, p, req) {
            a[p].blocked(req).insert(t.unique_weight, t)
        } else {
            a[p].blocked(req)
        },
{
    let attempts = t.lock_attempts@;
    let n = attempts.len() as int;
    if among_first(attempts, n, p) {
        let j = choose|j: int| 0 <= j < n && (#[trigger] attempts[j]).page.0 == p;
        if req == attempts[j].requested_usage {
            assert(asks(t, p, req));
        } else {
            assert(!asks(t, p, req)) by {
                if asks(t, p, req) {
                    let i = choose|i: int|
                        0 <= i < n && (#[trigger] attempts[i]).page.0 == p && attempts[i].requested_usage == req;
                    assert(attempts[i].page == attempts[j].page);
                }
            }
        }
    } else {
        assert(!asks(t, p, req)) by {
            if asks(t, p, req) {
                let i = choose|i: int| 0 <= i < n && (#[trigger] attempts[i]).page.0 == p && attempts[i].requested_usage == req;
                assert(among_first(attempts, n, p));
            }
        }
    }
}

/// Registering a task whose weight waits nowhere keeps the waiting lists and the queue
/// consistent.
pub proof fn lemma_register_keeps_waiting(
    a: Seq<PageInner>,
    b: Seq<PageInner>,
    t: Task,
    queue: Map<UniqueWeight, Task>,
)
    requires
        registered(a, b, t),
        valid_attempts(a, t.lock_attempts@),
        !weight_parked(a, t.unique_weight),
        waiting_consistent(a),
        queue_consistent(a, queue),
    ensures
        waiting_consistent(b),
        queue_consistent(b, queue),
{
    let w = t.unique_weight;
    let attempts = t.lock_attempts@;
    assert forall|p: int, req: RequestedUsage| 0 <= p < a.len() implies #[trigger] b[p].blocked(req)
        == if asks(t, p, req) { a[p].blocked(req).insert(w, t) } else { a[p].blocked(req) } by {
        lemma_registered_list(a, b, t, p, req);
    }
    assert(same_waiting_except(a, b, w));
    assert(parked_as_itself(b, t)) by {
        assert forall|j: int| 0 <= j < attempts.len() implies {
            let x = #[trigger] attempts[j];
            &&& b[x.page.0 as int].blocked(x.requested_usage).contains_key(w)
            &&& b[x.page.0 as int].blocked(x.requested_usage)[w] == t
        } by {
            let x = attempts[j];
            assert(asks(t, x.page.0 as int, x.requested_usage));
        }
    }
    assert forall|p: int, req: RequestedUsage, k: UniqueWeight|
        0 <= p < b.len() && #[trigger] b[p].blocked(req).contains_key(k) implies {
            let u = b[p].blocked(req)[k];
            &&& u.unique_weight == k
            &&& parked_as_itself(b, u)
            &&& asks(u, p, req)
        } by {
        if k == w {
            assert(!a[p].blocked(req).contains_key(w));
            assert(asks(t, p, req));
        } else {
            assert(a[p].blocked(req).contains_key(k));
            lemma_parked_frame(a, b, w, a[p].blocked(req)[k]);
        }
    }
    assert forall|p: int, q: int, r1: RequestedUsage, r2: RequestedUsage, k: UniqueWeight|
        0 <= p < b.len() && 0 <= q < b.len() && #[trigger] b[p].blocked(r1).contains_key(k)
            && #[trigger] b[q].blocked(r2).contains_key(k)
        implies b[p].blocked(r1)[k] == b[q].blocked(r2)[k] by {
        if k == w {
            assert(!a[p].blocked(r1).contains_key(w));
            assert(!a[q].blocked(r2).contains_key(w));
        } else {
            assert(a[p].blocked(r1).contains_key(k) && a[q].blocked(r2).contains_key(k));
        }
    }
    assert forall|k: UniqueWeight| #[trigger] queue.contains_key(k) implies {
        &&& queue[k].unique_weight == k
        &&& queue[k].lock_attempts@.len() > 0
        &&& parked_as_itself(b, queue[k])
    } by {
        let u = queue[k];
        if k == w {
            if u.lock_attempts@.len() > 0 {
                let x = u.lock_attempts@[0];
                assert(a[x.page.0 as int].blocked(x.requested_usage).contains_key(w));
            }
        } else {
            lemma_parked_frame(a, b, w, u);
        }
    }
}

/// Where `t` just left its pages, each waiting list is the old one without `t`'s weight
/// exactly where `t` asks.
proof fn lemma_unparked_list(
    a: Seq<PageInner>,
    b: Seq<PageInner>,
    t: Task,
    usages: Seq<Usage>,
    p: int,
    req: RequestedUsage,
)
    requires
        unparked_with(a, b, t, usages),
        valid_attempts(a, t.lock_attempts@),
        0 <= p < a.len(),
    ensures
        b[p].blocked(req) == if asks(t, p, req) {
            a[p].blocked(req).remove(t.unique_weight)
        } else {
            a[p].blocked(req)
        },
{
    let attempts = t.lock_attempts@;
    let n = attempts.len() as int;
    if among_first(attempts, n, p) {
        let j = choose|j: int| 0 <= j < n && (#[trigger] attempts[j]).page.0 == p;
        if req == attempts[j].requested_usage {
            assert(asks(t, p, req));
        } else {
            assert(!asks(t, p, req)) by {
                if asks(t, p, req) {
                    let i = choose|i: int|
                        0 <= i < n && (#[trigger] attempts[i]).page.0 == p && attempts[i].requested_usage == req;
                    assert(attempts[i].page == attempts[j].page);
                }
            }
        }
    } else {
        assert(!asks(t, p, req)) by {
            if asks(t, p, req) {
                let i = choose|i: int| 0 <= i < n && (#[trigger] attempts[i]).page.0 == p && attempts[i].requested_usage == req;
                assert(among_first(attempts, n, p));
            }
        }
    }
}

/// Taking a parked task off all its pages keeps the waiting lists consistent, leaves its weight
/// waiting nowhere, and keeps a queue that does not hold that weight consistent.
pub proof fn lemma_unpark_keeps_waiting(
    a: Seq<PageInner>,
    b: Seq<PageInner>,
    t: Task,
    usages: Seq<Usage>,
    queue: Map<UniqueWeight, Task>,
)
    requires
        unparked_with(a, b, t, usages),
        parked_as_itself(a, t),
        t.lock_attempts@.len() > 0,
        waiting_consistent(a),
        queue_consistent(a, queue),
        !queue.contains_key(t.unique_weight),
    ensures
        waiting_consistent(b),
        queue_consistent(b, queue),
        !weight_parked(b, t.unique_weight),
{
    let w = t.unique_weight;
    let attempts = t.lock_attempts@;
    let x0 = attempts[0];
    assert(a[x0.page.0 as int].blocked(x0.requested_usage).contains_key(w));
    assert forall|p: int, req: RequestedUsage| 0 <= p < a.len() implies #[trigger] b[p].blocked(req)
        == if asks(t, p, req) { a[p].blocked(req).remove(w) } else { a[p].blocked(req) } by {
        lemma_unparked_list(a, b, t, usages, p, req);
    }
    assert(same_waiting_except(a, b, w));
    assert forall|p: int, req: RequestedUsage| 0 <= p < b.len() implies !(#[trigger] b[p].blocked(req).contains_key(w)) by {
        if !asks(t, p, req) && a[p].blocked(req).contains_key(w) {
            let u = a[p].blocked(req)[w];
            assert(u == a[x0.page.0 as int].blocked(x0.requested_usage)[w]);
        }
    }
    assert forall|p: int, req: RequestedUsage, k: UniqueWeight|
        0 <= p < b.len() && #[trigger] b[p].blocked(req).contains_key(k) implies {
            let u = b[p].blocked(req)[k];
            &&& u.unique_weight == k
            &&& parked_as_itself(b, u)
            &&& asks(u, p, req)
        } by {
        assert(k != w);
        assert(a[p].blocked(req).contains_key(k));
        lemma_parked_frame(a, b, w, a[p].blocked(req)[k]);
    }
    assert forall|p: int, q: int, r1: RequestedUsage, r2: RequestedUsage, k: UniqueWeight|
        0 <= p < b.len() && 0 <= q < b.len() && #[trigger] b[p].blocked(r1).contains_key(k)
            && #[trigger] b[q].blocked(r2).contains_key(k)
        implies b[p].blocked(r1)[k] == b[q].blocked(r2)[k] by {
        assert(k != w);
        assert(a[p].blocked(r1).contains_key(k) && a[q].blocked(r2).contains_key(k));
    }
    assert forall|k: UniqueWeight| #[trigger] queue.contains_key(k) implies {
        &&& queue[k].unique_weight == k
        &&& queue[k].lock_attempts@.len() > 0
        &&& parked_as_itself(b, queue[k])
    } by {
        lemma_parked_frame(a, b, w, queue[k]);
    }
}

/// A queue that grows only by entries found in consistent waiting lists stays consistent.
pub proof fn lemma_queue_grows_consistently(
    pages: Seq<PageInner>,
    before: Map<UniqueWeight, Task>,
    after: Map<UniqueWeight, Task>,
    candidate: spec_fn(UniqueWeight, Task) -> bool,
)
    requires
        waiting_consistent(pages),
        queue_consistent(pages, before),
        queue_extended(before, after, candidate),
        forall|k: UniqueWeight, t: Task| #[trigger] candidate(k, t) ==> exists|p: int, req: RequestedUsage|
            0 <= p < pages.len() && #[trigger] pages[p].blocked(req).contains_key(k) && pages[p].blocked(req)[k] == t,
    ensures
        queue_consistent(pages, after),
{
    assert(forall|k: UniqueWeight| #[trigger] after.contains_key(k) && !before.contains_key(k) ==> candidate(k, after[k]));
    assert forall|k: UniqueWeight| #[trigger] after.contains_key(k) implies {
        &&& after[k].unique_weight == k
        &&& parked_as_itself(pages, after[k])
    } by {
        if !before.contains_key(k) {
            assert(candidate(k, after[k]));
            let (p, req) = choose|p: int, req: RequestedUsage|
                0 <= p < pages.len() && #[trigger] pages[p].blocked(req).contains_key(k) && pages[p].blocked(req)[k] == after[k];
            let i = choose|i: int|
                0 <= i < after[k].lock_attempts@.len() && (#[trigger] after[k].lock_attempts@[i]).page.0 == p
                    && after[k].lock_attempts@[i].requested_usage == req;
        }
    }
}

/// A new page with nobody waiting keeps the waiting lists and the queue consistent.
pub proof fn lemma_page_added(a: Seq<PageInner>, b: Seq<PageInner>, queue: Map<UniqueWeight, Task>)
    requires
        b.len() == a.len() + 1,
        forall|p: int| 0 <= p < a.len() ==> #[trigger] b[p] == a[p],
        b[a.len() as int].all_blocked() == Map::<UniqueWeight, Task>::empty(),
        waiting_consistent(a),
        queue_consistent(a, queue),
    ensures
        waiting_consistent(b),
        queue_consistent(b, queue),
{
    let last = a.len() as int;
    assert forall|req: RequestedUsage, k: UniqueWeight| !(#[trigger] b[last].blocked(req).contains_key(k)) by {
        assert(!b[last].all_blocked().contains_key(k));
    }
    assert forall|t: Task| parked_as_itself(a, t) implies #[trigger] parked_as_itself(b, t) by {
        assert forall|j: int| 0 <= j < t.lock_attempts@.len() implies {
            let x = #[trigger] t.lock_attempts@[j];
            &&& b[x.page.0 as int].blocked(x.requested_usage).contains_key(t.unique_weight)
            &&& b[x.page.0 as int].blocked(x.requested_usage)[t.unique_weight] == t
        } by {
            let x = t.lock_attempts@[j];
            assert(b[x.page.0 as int] == a[x.page.0 as int]);
        }
    }
    assert forall|p: int, req: RequestedUsage, k: UniqueWeight|
        0 <= p < b.len() && #[trigger] b[p].blocked(req).contains_key(k) implies {
            let u = b[p].blocked(req)[k];
            &&& u.unique_weight == k
            &&& parked_as_itself(b, u)
            &&& asks(u, p, req)
        } by {
        assert(p != last);
        assert(b[p] == a[p]);
        assert(parked_as_itself(a, a[p].blocked(req)[k]));
    }
    assert forall|p: int, q: int, r1: RequestedUsage, r2: RequestedUsage, k: UniqueWeight|
        0 <= p < b.len() && 0 <= q < b.len() && #[trigger] b[p].blocked(r1).contains_key(k)
            && #[trigger] b[q].blocked(r2).contains_key(k)
        implies b[p].blocked(r1)[k] == b[q].blocked(r2)[k] by {
        assert(p != last && q != last);
        assert(b[p] == a[p] && b[q] == a[q]);
    }
    assert forall|k: UniqueWeight| #[trigger] queue.contains_key(k) implies {
        &&& queue[k].unique_weight == k
        &&& queue[k].lock_attempts@.len() > 0
        &&& parked_as_itself(b, queue[k])
    } by {
        assert(parked_as_itself(a, queue[k]));
    }
}

} // verus!
