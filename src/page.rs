use vstd::prelude::*;

use crate::task::{Task, UniqueWeight};
use crate::usage::{granted_usage, RequestedUsage, Usage};
use std::collections::BTreeMap;

verus! {

/// Handle of one address's lock record inside a scheduling state machine.
#[derive(Debug, Clone, Copy, PartialEq, Eq, Structural, Hash)]
pub struct Page(pub usize);

/// Tasks keyed by weight.
pub type TaskMap = BTreeMap<UniqueWeight, Task>;

/// Whether `r` is the entry of `m` with the greatest key, or `None` exactly when `m` is empty.
pub open spec fn is_heaviest(m: Map<UniqueWeight, Task>, r: Option<(UniqueWeight, Task)>) -> bool {
    match r {
        None => forall|k: UniqueWeight| !m.contains_key(k),
        Some((k, t)) => {
            &&& m.contains_key(k)
            &&& m[k] == t
            &&& forall|j: UniqueWeight| m.contains_key(j) ==> j <= k
        },
    }
}

/// Relies on BTreeMap::last_key_value: the entry with the maximum key, if any.
#[verifier::external_body]
pub(crate) fn last_entry(m: &TaskMap) -> (r: Option<(UniqueWeight, Task)>)
    ensures
        is_heaviest(m@, r),
{
    m.last_key_value().map(|(k, t)| (*k, t.clone()))
}

/// Relies on BTreeMap::pop_last: removes and returns the entry with the maximum key, if any.
#[verifier::external_body]
pub(crate) fn pop_last_entry(m: &mut TaskMap) -> (r: Option<(UniqueWeight, Task)>)
    ensures
        is_heaviest(old(m)@, r),
        match r {
            None => final(m)@ == old(m)@,
            Some((k, _)) => final(m)@ == old(m)@.remove(k),
        },
{
    m.pop_last()
}

/// The lock state of one address: its current holders and the tasks waiting on it.
#[derive(Debug)]
pub struct PageInner {
    pub usage: Usage,
    pub writable_blocked_tasks: TaskMap,
    pub readonly_blocked_tasks: TaskMap,
}

impl PageInner {
    /// The waiting tasks that asked for `requested_usage`.
    pub open spec fn blocked(&self, requested_usage: RequestedUsage) -> Map<UniqueWeight, Task> {
        match requested_usage {
            RequestedUsage::Readonly => self.readonly_blocked_tasks@,
            RequestedUsage::Writable => self.writable_blocked_tasks@,
        }
    }

    /// All waiting tasks; where a weight waits in both maps, the reader's entry.
    pub open spec fn all_blocked(&self) -> Map<UniqueWeight, Task> {
        self.writable_blocked_tasks@.union_prefer_right(self.readonly_blocked_tasks@)
    }

    /// The weight rule on contention: nobody waiting here outranks `unique_weight`, or the
    /// request is a read that outranks every waiting writer.
    pub open spec fn admits(&self, unique_weight: UniqueWeight, requested_usage: RequestedUsage) -> bool {
        ||| forall|k: UniqueWeight| #[trigger] self.all_blocked().contains_key(k) ==> k <= unique_weight
        ||| (requested_usage is Readonly && forall|k: UniqueWeight|
            #[trigger] self.writable_blocked_tasks@.contains_key(k) ==> k < unique_weight)
    }

    /// The usage this page moves to when a task of weight `unique_weight` asks for
    /// `requested_usage`, or `None` when the request is refused.
    pub open spec fn lock_result(&self, unique_weight: UniqueWeight, requested_usage: RequestedUsage) -> Option<Usage> {
        match granted_usage(self.usage, requested_usage) {
            Some(u) => if self.admits(unique_weight, requested_usage) {
                Some(u)
            } else {
                None
            },
            None => None,
        }
    }

    /// The same page with `usage` as its holders.
    pub open spec fn with_usage(self, usage: Usage) -> PageInner {
        PageInner { usage, ..self }
    }

    /// Whether this page is `before` with `m` as its waiting tasks for `requested_usage`
    /// and nothing else changed.
    pub open spec fn is_before_with_blocked(
        self,
        before: PageInner,
        requested_usage: RequestedUsage,
        m: Map<UniqueWeight, Task>,
    ) -> bool {
        &&& self.usage == before.usage
        &&& match requested_usage {
            RequestedUsage::Readonly => {
                &&& self.readonly_blocked_tasks@ == m
                &&& self.writable_blocked_tasks@ == before.writable_blocked_tasks@
            },
            RequestedUsage::Writable => {
                &&& self.writable_blocked_tasks@ == m
                &&& self.readonly_blocked_tasks@ == before.readonly_blocked_tasks@
            },
        }
    }

    pub fn new() -> (r: Self)
        ensures
            r.usage is Unused,
            r.writable_blocked_tasks@ == Map::<UniqueWeight, Task>::empty(),
            r.readonly_blocked_tasks@ == Map::<UniqueWeight, Task>::empty(),
    {
        PageInner {
            usage: Usage::Unused,
            writable_blocked_tasks: BTreeMap::new(),
            readonly_blocked_tasks: BTreeMap::new(),
        }
    }

    pub fn insert_blocked_task(&mut self, task: Task, requested_usage: RequestedUsage)
        requires
            !old(self).blocked(requested_usage).contains_key(task.unique_weight),
        ensures
            final(self).is_before_with_blocked(
                *old(self),
                requested_usage,
                old(self).blocked(requested_usage).insert(task.unique_weight, task),
            ),
    {
        let unique_weight = task.unique_weight;
        let pre_existed = match requested_usage {
            RequestedUsage::Readonly => self.readonly_blocked_tasks.insert(unique_weight, task),
            RequestedUsage::Writable => self.writable_blocked_tasks.insert(unique_weight, task),
        };
        assert(pre_existed.is_none());
    }

    pub fn remove_blocked_task(&mut self, requested_usage: RequestedUsage, unique_weight: UniqueWeight)
        requires
            old(self).blocked(requested_usage).contains_key(unique_weight),
        ensures
            final(self).is_before_with_blocked(
                *old(self),
                requested_usage,
                old(self).blocked(requested_usage).remove(unique_weight),
            ),
    {
        let removed_entry = match requested_usage {
            RequestedUsage::Readonly => self.readonly_blocked_tasks.remove(&unique_weight),
            RequestedUsage::Writable => self.writable_blocked_tasks.remove(&unique_weight),
        };
        assert(removed_entry.is_some());
    }

    pub fn heaviest_blocked_writing_task(&self) -> (r: Option<(UniqueWeight, Task)>)
        ensures
            is_heaviest(self.writable_blocked_tasks@, r),
    {
        last_entry(&self.writable_blocked_tasks)
    }

    pub fn heaviest_blocked_readonly_task(&self) -> (r: Option<(UniqueWeight, Task)>)
        ensures
            is_heaviest(self.readonly_blocked_tasks@, r),
    {
        last_entry(&self.readonly_blocked_tasks)
    }

    pub fn heaviest_blocked_task(&self) -> (r: Option<(UniqueWeight, Task)>)
        ensures
            is_heaviest(self.all_blocked(), r),
    {
        Self::heavier_task(
            self.heaviest_blocked_writing_task(),
            self.heaviest_blocked_readonly_task(),
        )
    }

    /// The greater of two optional entries by key, `None` being the least; on equal keys, `y`.
    pub fn heavier_task(
        x: Option<(UniqueWeight, Task)>,
        y: Option<(UniqueWeight, Task)>,
    ) -> (r: Option<(UniqueWeight, Task)>)
        ensures
            r == (match (x, y) {
                (Some(a), Some(b)) => if a.0 > b.0 {
                    x
                } else {
                    y
                },
                (Some(_), None) => x,
                (None, _) => y,
            }),
    {
        match (&x, &y) {
            (Some(a), Some(b)) => if a.0 > b.0 {
                x
            } else {
                y
            },
            (Some(_), None) => x,
            (None, _) => y,
        }
    }
}

} // verus!
