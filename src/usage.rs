use vstd::prelude::*;

use crate::counter::Counter;

verus! {

/// The kind of access that one task asks for on one address.
#[derive(Debug, Clone, Copy, PartialEq, Eq, Structural)]
pub enum RequestedUsage {
    Readonly,
    Writable,
}

/// Who currently holds an address: nobody, some readers, or a single writer.
#[derive(Debug, Clone, Copy, Default)]
pub enum Usage {
    #[default]
    Unused,
    Readonly(Counter),
    Writable,
}

/// The outcome of one lock attempt: the usage the address would move to, or a refusal.
#[derive(Debug, Clone, Copy)]
pub enum LockStatus {
    Succeded(Usage),
    Failed,
}

/// The usage that a first holder of an unused address brings it to.
pub open spec fn renewed(requested_usage: RequestedUsage) -> Usage {
    match requested_usage {
        RequestedUsage::Readonly => Usage::Readonly(Counter(1)),
        RequestedUsage::Writable => Usage::Writable,
    }
}

/// The usage after one more holder is admitted with `requested_usage`, when the current usage
/// is compatible with it.
pub open spec fn granted_usage(usage: Usage, requested_usage: RequestedUsage) -> Option<Usage> {
    match usage {
        Usage::Unused => Some(renewed(requested_usage)),
        Usage::Readonly(count) => match requested_usage {
            RequestedUsage::Readonly => Some(Usage::Readonly(Counter((count.0 + 1) as u32))),
            RequestedUsage::Writable => None,
        },
        Usage::Writable => None,
    }
}

/// Whether a holder with `requested_usage` can give the address back in this state.
pub open spec fn releasable(usage: Usage, requested_usage: RequestedUsage) -> bool {
    match usage {
        Usage::Readonly(count) => requested_usage == RequestedUsage::Readonly && count.0 >= 1,
        Usage::Writable => requested_usage == RequestedUsage::Writable,
        Usage::Unused => false,
    }
}

/// The usage after a holder with `requested_usage` gives the address back.
pub open spec fn released_usage(usage: Usage) -> Usage {
    match usage {
        Usage::Readonly(count) => if count.0 == 1 {
            Usage::Unused
        } else {
            Usage::Readonly(Counter((count.0 - 1) as u32))
        },
        _ => Usage::Unused,
    }
}

/// Whether one more reader would overflow the reader count.
pub open spec fn reader_count_saturated(usage: Usage) -> bool {
    match usage {
        Usage::Readonly(count) => count.0 == u32::MAX,
        _ => false,
    }
}

impl Usage {
    pub fn renew(requested_usage: RequestedUsage) -> (r: Self)
        ensures
            r == renewed(requested_usage),
    {
        match requested_usage {
            RequestedUsage::Readonly => Usage::Readonly(Counter::one()),
            RequestedUsage::Writable => Usage::Writable,
        }
    }
}

} // verus!
