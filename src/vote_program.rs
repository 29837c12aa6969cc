//! Vote program: receives and processes votes from validators.
use vstd::prelude::*;

use crate::pubkey::Pubkey;
use std::collections::{HashMap, VecDeque};

verus! {

pub const VOTE_PROGRAM_ID: [u8; 32] = [
    132, 0, 0, 0, 0, 0, 0, 0, 0, 0, 0, 0, 0, 0, 0, 0, 0, 0, 0, 0, 0, 0, 0, 0, 0, 0, 0, 0, 0, 0, 0,
    0,
];

/// Maximum number of votes to keep around.
pub const MAX_VOTE_HISTORY: usize = 32;

/// Whether `program_id` is the vote program's address.
pub fn check_id(program_id: &Pubkey) -> (r: bool)
    ensures
        r == (program_id.0@ == VOTE_PROGRAM_ID@),
{
    let expected = VOTE_PROGRAM_ID;
    let mut i: usize = 0;
    while i < 32
        invariant
            0 <= i <= 32,
            expected@ == VOTE_PROGRAM_ID@,
            forall|j: int| 0 <= j < i ==> program_id.0@[j] == expected@[j],
        decreases 32 - i,
    {
        if program_id.0[i] != expected[i] {
            return false;
        }
        i = i + 1;
    }
    assert(program_id.0@ =~= VOTE_PROGRAM_ID@);
    true
}

/// The vote program's address.
pub fn id() -> (r: Pubkey)
    ensures
        r.0@ == VOTE_PROGRAM_ID@,
{
    Pubkey::new_from_array(VOTE_PROGRAM_ID)
}

/// A 32-byte digest.
#[derive(Debug, Default, Clone, Copy, PartialEq, Eq, Hash)]
pub struct Hash(pub [u8; 32]);

/// A vote for a tick height.
#[derive(Debug, Default, Clone, Copy, PartialEq, Eq, Structural)]
pub struct Vote {
    pub tick_height: u64,
}

/// A block proposed for a vote.
#[derive(Debug, Default, Clone, PartialEq, Eq)]
pub struct BlockDescription {
    /// The height of this block.
    pub tick_height: u64,
    /// The latest entry in the ledger.
    pub entry_id: Hash,
    /// A digest of all state after interpreting the ledger.
    pub state_hash: Hash,
    /// Each voter's weight.
    pub weights: HashMap<Pubkey, u64>,
}

impl BlockDescription {
    pub fn new(
        tick_height: u64,
        entry_id: Hash,
        state_hash: Hash,
        weights: HashMap<Pubkey, u64>,
    ) -> (r: Self)
        ensures
            r.tick_height == tick_height,
            r.entry_id == entry_id,
            r.state_hash == state_hash,
            r.weights == weights,
    {
        Self { tick_height, entry_id, state_hash, weights }
    }
}

/// The instructions of the vote program.
#[derive(Debug, Clone, PartialEq, Eq)]
pub enum VoteInstruction {
    /// Register a new vote account for a validator.
    RegisterAccount,
    NewVote(Vote),
    /// Propose a new block to be voted on.
    ProposeBlock(BlockDescription),
    /// Vote on a block.
    Vote,
}

/// The state of a vote account: its latest votes and its validator.
#[derive(Debug, Default, PartialEq, Eq)]
pub struct VoteProgram {
    pub votes: VecDeque<Vote>,
    pub node_id: Pubkey,
}

} // verus!
