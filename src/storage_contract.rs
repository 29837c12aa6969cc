use vstd::prelude::*;

verus! {

/// The storage credits of an account across epochs.
#[derive(Default, Debug, Clone, Copy, PartialEq, Eq, Structural)]
pub struct Credits {
    /// The epoch the pending credits belong to.
    pub epoch: u64,
    /// Credits earned in the last epoch.
    pub last_epoch: u64,
    /// Currently pending credits.
    pub current_epoch: u64,
    /// Credits ready to be claimed.
    pub redeemable: u64,
}

#[derive(Debug, Clone, Copy, PartialEq, Eq, Structural)]
pub enum StorageError {
    InvalidSegment,
    InvalidBlockhash,
    InvalidProofMask,
    DuplicateProof,
    RewardPoolDepleted,
    InvalidOwner,
    ProofLimitReached,
}

#[derive(Debug, Clone, Copy, PartialEq, Eq, Structural, Default)]
pub enum ProofStatus {
    #[default]
    Skipped,
    Valid,
    NotValid,
}

/// Rolls `credits` over to `current_epoch`: when the epoch changes, the pending credits become
/// the last epoch's and are added to the redeemable ones, and nothing is pending any more.
pub fn update_credits(credits: &mut Credits, current_epoch: u64)
    requires
        old(credits).epoch != current_epoch ==> old(credits).redeemable + old(credits).current_epoch
            <= u64::MAX,
    ensures
        old(credits).epoch == current_epoch ==> *final(credits) == *old(credits),
        old(credits).epoch != current_epoch ==> *final(credits) == (Credits {
            epoch: current_epoch,
            last_epoch: old(credits).current_epoch,
            current_epoch: 0,
            redeemable: (old(credits).redeemable + old(credits).current_epoch) as u64,
        }),
{
    if credits.epoch != current_epoch {
        credits.epoch = current_epoch;
        credits.last_epoch = credits.current_epoch;
        credits.redeemable = credits.redeemable + credits.current_epoch;
        credits.current_epoch = 0;
    }
}

} // verus!
