//! Lock-state bookkeeping for a parallel transaction scheduler, and a few small helpers.
use vstd::prelude::*;

pub mod compute_budget;
pub mod counter;
pub mod lock_laws;
pub mod lock_spec;
pub mod metrics;
pub mod page;
pub mod pubkey;
pub mod state_machine;
pub mod storage_contract;
pub mod task;
pub mod usage;
pub mod use_snapshot_archives_at_startup;
pub mod vote_program;
pub mod waiting;
pub mod zk_instruction;
