use vstd::prelude::*;

verus! {

use vstd::arithmetic::power2::{lemma2_to64, pow2};
use vstd::bits::{lemma_u64_low_bits_mask_is_mod, lemma_u64_pow2_no_overflow, lemma_u64_shl_is_mul, lemma_u64_shr_is_div};

/// The kinds of zero-knowledge proof an instruction can carry.
#[derive(Clone, Copy, Debug, PartialEq, Eq, Structural)]
pub enum ProofType {
    /// Marks a proof context account that is not initialized yet.
    Uninitialized,
    CloseAccount,
    Withdraw,
    WithdrawWithheldTokens,
    Transfer,
    TransferWithFee,
    PubkeyValidity,
    ValidityProof,
    AggregatedValidityProof,
}

/// The parties of a confidential transfer.
#[derive(Debug, Copy, Clone)]
pub enum Role {
    Source,
    Destination,
    Auditor,
    WithdrawWithheldAuthority,
}

/// Splits `amount` into its low `bit_length` bits and the bits above them.
pub fn split_u64(amount: u64, bit_length: usize) -> (r: (u64, u64))
    requires
        1 <= bit_length <= 64,
    ensures
        r.0 == amount as nat % pow2(bit_length as nat),
        r.1 == amount as nat / pow2(bit_length as nat),
{
    if bit_length == 64 {
        proof {
            lemma2_to64();
        }
        (amount, 0)
    } else {
        let shift = (64 - bit_length) as u64;
        let bits = bit_length as u64;
        let lo = amount << shift >> shift;
        let hi = amount >> bits;
        proof {
            lemma_u64_shr_is_div(amount, bits);
            lemma_u64_pow2_no_overflow(bits as nat);
            lemma_u64_shl_is_mul(1, bits);
            assert(amount << shift >> shift == amount & (((1u64 << bits) - 1u64) as u64)) by (bit_vector)
                requires
                    shift == 64 - bits,
                    1 <= bits < 64,
            ;
            assert((1u64 << bits) == pow2(bits as nat));
            lemma_u64_low_bits_mask_is_mod(amount, bits as nat);
        }
        (lo, hi)
    }
}

/// Joins a low part and a high part split at `bit_length` bits; the high part's bits that
/// do not fit in 64 bits are dropped.
pub fn combine_lo_hi_u64(amount_lo: u64, amount_hi: u64, bit_length: usize) -> (r: u64)
    requires
        1 <= bit_length <= 64,
        bit_length < 64 ==> amount_lo + (amount_hi << bit_length as u64) <= u64::MAX,
    ensures
        bit_length == 64 ==> r == amount_lo,
        bit_length < 64 ==> r == amount_lo + (amount_hi << bit_length as u64),
        bit_length < 64 && amount_lo + amount_hi * pow2(bit_length as nat) <= u64::MAX
            ==> r == amount_lo + amount_hi * pow2(bit_length as nat),
{
    if bit_length == 64 {
        amount_lo
    } else {
        let bits = bit_length as u64;
        proof {
            if amount_lo + amount_hi * pow2(bits as nat) <= u64::MAX {
                lemma_u64_pow2_no_overflow(bits as nat);
                assert(amount_hi * pow2(bits as nat) <= u64::MAX);
                lemma_u64_shl_is_mul(amount_hi, bits);
            }
        }
        amount_lo + (amount_hi << bits)
    }
}

} // verus!
