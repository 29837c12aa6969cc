use vstd::prelude::*;

use crate::page::Page;
use crate::pubkey::Pubkey;
use crate::usage::RequestedUsage;
use std::sync::Arc;

verus! {

/// Ordering key of a task: a greater weight is scheduled and unblocked first.
pub type UniqueWeight = u64;

/// A transaction as the scheduler sees it: the accounts it writes and the accounts it only
/// reads, each list in the transaction's own order.
#[derive(Debug, Clone, PartialEq, Eq)]
pub struct SanitizedTransaction {
    pub writable_accounts: Vec<Pubkey>,
    pub readonly_accounts: Vec<Pubkey>,
}

impl SanitizedTransaction {
    pub fn new(writable_accounts: Vec<Pubkey>, readonly_accounts: Vec<Pubkey>) -> (r: Self)
        ensures
            r.writable_accounts@ == writable_accounts@,
            r.readonly_accounts@ == readonly_accounts@,
    {
        SanitizedTransaction { writable_accounts, readonly_accounts }
    }
}

/// Maps an account address to the shared lock record of that address. Implementations
/// usually cache, so that every task touching one address gets the same page.
pub trait PageLoader {
    fn load_page(&mut self, address: Pubkey) -> Page;
}

/// One requested lock of a task: which page, and for what kind of access.
#[derive(Debug, Clone, Copy)]
pub struct LockAttempt {
    pub page: Page,
    pub requested_usage: RequestedUsage,
}

impl LockAttempt {
    pub fn new(page: Page, requested_usage: RequestedUsage) -> (r: Self)
        ensures
            r.page == page,
            r.requested_usage == requested_usage,
    {
        LockAttempt { page, requested_usage }
    }
}

/// A schedulable unit of work: a transaction, its weight, and the locks it needs (its writable
/// accounts first, then its read-only ones).
#[derive(Debug)]
pub struct TaskInner {
    pub unique_weight: UniqueWeight,
    pub transaction: SanitizedTransaction,
    pub lock_attempts: Vec<LockAttempt>,
}

/// Shared handle to a task; pages that the task waits on hold clones of it.
pub type Task = Arc<TaskInner>;

impl TaskInner {
    pub fn transaction(&self) -> (r: &SanitizedTransaction)
        ensures
            r == &self.transaction,
    {
        &self.transaction
    }

    pub fn lock_attempts(&self) -> (r: &Vec<LockAttempt>)
        ensures
            r == &self.lock_attempts,
    {
        &self.lock_attempts
    }

    /// The position of the transaction in its batch, recovered from the weight.
    pub fn task_index(&self) -> (r: usize)
        ensures
            r as int == (u64::MAX - self.unique_weight) as usize,
    {
        (UniqueWeight::MAX - self.unique_weight) as usize
    }
}

} // verus!
