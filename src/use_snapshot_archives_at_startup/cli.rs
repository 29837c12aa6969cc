use vstd::prelude::*;

use super::UseSnapshotArchivesAtStartup;

verus! {

pub fn name() -> (r: &'static str)
    ensures
        r@ == "use_snapshot_archives_at_startup"@,
{
    "use_snapshot_archives_at_startup"
}

pub fn long_name() -> (r: &'static str)
    ensures
        r@ == "use-snapshot-archives-at-startup"@,
{
    "use-snapshot-archives-at-startup"
}

pub fn help() -> (r: &'static str)
    ensures
        r@ == "When should snapshot archives be used at startup?"@,
{
    "When should snapshot archives be used at startup?"
}

pub fn long_help() -> (r: &'static str)
    ensures
        r@ == "At startup, when should snapshot archives be extracted versus using what is already on disk? \nSpecifying \"always\" will always startup by extracting snapshot archives and disregard any snapshot-related state already on disk. Note that starting up from snapshot archives will incur the runtime costs associated with extracting the archives and rebuilding the local state. \nSpecifying \"never\" will never startup from snapshot archives and will only use snapshot-related state already on disk. If there is no state already on disk, startup will fail. Note, this will use the latest state available, which may be newer than the latest snapshot archive."@,
{
    "At startup, when should snapshot archives be extracted versus using what is already on disk? \nSpecifying \"always\" will always startup by extracting snapshot archives and disregard any snapshot-related state already on disk. Note that starting up from snapshot archives will incur the runtime costs associated with extracting the archives and rebuilding the local state. \nSpecifying \"never\" will never startup from snapshot archives and will only use snapshot-related state already on disk. If there is no state already on disk, startup will fail. Note, this will use the latest state available, which may be newer than the latest snapshot archive."
}

/// The accepted values of the option.
pub fn possible_values() -> (r: &'static [&'static str])
    ensures
        r@.len() == 2,
        r@[0]@ == "always"@,
        r@[1]@ == "never"@,
{
    UseSnapshotArchivesAtStartup::variants()
}

/// The value of the option when it is not given: the name of the default variant.
pub fn default_value() -> (r: &'static str)
    ensures
        r@ == "always"@,
{
    let default_variant = UseSnapshotArchivesAtStartup::Always;
    default_variant.as_str()
}

} // verus!
