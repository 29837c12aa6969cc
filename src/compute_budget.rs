use vstd::prelude::*;

verus! {

pub const DEFAULT_INSTRUCTION_COMPUTE_UNIT_LIMIT: u32 = 200_000;
pub const MAX_COMPUTE_UNIT_LIMIT: u32 = 1_400_000;

/// What a transaction may spend, and what each operation costs, in compute units.
#[derive(Clone, Copy, Debug, PartialEq, Eq)]
pub struct ComputeBudget {
    /// Number of compute units that a transaction or individual instruction is allowed to consume.
    pub compute_unit_limit: u64,
    /// Number of compute units consumed by a log_u64 call
    pub log_64_units: u64,
    /// Number of compute units consumed by a create_program_address call
    pub create_program_address_units: u64,
    /// Number of compute units consumed by an invoke call (not including the cost incurred by the called program)
    pub invoke_units: u64,
    /// Maximum cross-program invocation depth allowed
    pub max_invoke_depth: usize,
    /// Base number of compute units consumed to call SHA256
    pub sha256_base_cost: u64,
    /// Incremental number of units consumed by SHA256 (based on bytes)
    pub sha256_byte_cost: u64,
    /// Maximum number of slices hashed per syscall
    pub sha256_max_slices: u64,
    /// Maximum BPF to BPF call depth
    pub max_call_depth: usize,
    /// Size of a stack frame in bytes, must match the size specified in the LLVM BPF backend
    pub stack_frame_size: usize,
    /// Number of compute units consumed by logging a `Pubkey`
    pub log_pubkey_units: u64,
    /// Maximum cross-program invocation instruction size
    pub max_cpi_instruction_size: usize,
    /// Number of account data bytes per compute unit charged during a cross-program invocation
    pub cpi_bytes_per_unit: u64,
    /// Base number of compute units consumed to get a sysvar
    pub sysvar_base_cost: u64,
    /// Number of compute units consumed to call secp256k1_recover
    pub secp256k1_recover_cost: u64,
    /// Number of compute units consumed to do a syscall without any work
    pub syscall_base_cost: u64,
    /// Number of compute units consumed to validate a curve25519 edwards point
    pub curve25519_edwards_validate_point_cost: u64,
    /// Number of compute units consumed to add two curve25519 edwards points
    pub curve25519_edwards_add_cost: u64,
    /// Number of compute units consumed to subtract two curve25519 edwards points
    pub curve25519_edwards_subtract_cost: u64,
    /// Number of compute units consumed to multiply a curve25519 edwards point
    pub curve25519_edwards_multiply_cost: u64,
    /// Base units of a multiscalar multiplication of edwards points: `msm_base_cost + (length - 1) * msm_incremental_cost` in all.
    pub curve25519_edwards_msm_base_cost: u64,
    /// Units per further point of a multiscalar multiplication of edwards points.
    pub curve25519_edwards_msm_incremental_cost: u64,
    /// Number of compute units consumed to validate a curve25519 ristretto point
    pub curve25519_ristretto_validate_point_cost: u64,
    /// Number of compute units consumed to add two curve25519 ristretto points
    pub curve25519_ristretto_add_cost: u64,
    /// Number of compute units consumed to subtract two curve25519 ristretto points
    pub curve25519_ristretto_subtract_cost: u64,
    /// Number of compute units consumed to multiply a curve25519 ristretto point
    pub curve25519_ristretto_multiply_cost: u64,
    /// Base units of a multiscalar multiplication of ristretto points: `msm_base_cost + (length - 1) * msm_incremental_cost` in all.
    pub curve25519_ristretto_msm_base_cost: u64,
    /// Units per further point of a multiscalar multiplication of ristretto points.
    pub curve25519_ristretto_msm_incremental_cost: u64,
    /// Optional program heap region size, if `None` then loader default
    pub heap_size: Option<usize>,
    /// Number of compute units per additional 32k heap above the default (~.5 us per 32k at 15 units/us rounded up)
    pub heap_cost: u64,
    /// Memory operation syscall base cost
    pub mem_op_base_cost: u64,
}

/// The standard costs, with `compute_unit_limit` as the limit.
pub open spec fn default_budget(compute_unit_limit: u64) -> ComputeBudget {
    ComputeBudget {
        compute_unit_limit,
        log_64_units: 100,
        create_program_address_units: 1500,
        invoke_units: 1000,
        max_invoke_depth: 4,
        sha256_base_cost: 85,
        sha256_byte_cost: 1,
        sha256_max_slices: 20_000,
        max_call_depth: 64,
        stack_frame_size: 4_096,
        log_pubkey_units: 100,
        max_cpi_instruction_size: 1280,
        cpi_bytes_per_unit: 250,
        sysvar_base_cost: 100,
        secp256k1_recover_cost: 25_000,
        syscall_base_cost: 100,
        curve25519_edwards_validate_point_cost: 159,
        curve25519_edwards_add_cost: 473,
        curve25519_edwards_subtract_cost: 475,
        curve25519_edwards_multiply_cost: 2_177,
        curve25519_edwards_msm_base_cost: 2_273,
        curve25519_edwards_msm_incremental_cost: 758,
        curve25519_ristretto_validate_point_cost: 169,
        curve25519_ristretto_add_cost: 521,
        curve25519_ristretto_subtract_cost: 519,
        curve25519_ristretto_multiply_cost: 2_208,
        curve25519_ristretto_msm_base_cost: 2303,
        curve25519_ristretto_msm_incremental_cost: 788,
        heap_size: None,
        heap_cost: 8,
        mem_op_base_cost: 10,
    }
}

impl ComputeBudget {
    /// The default costs, with `compute_unit_limit` as the limit.
    pub fn new(compute_unit_limit: u64) -> (r: Self)
        ensures
            r == default_budget(compute_unit_limit),
    {
        ComputeBudget {
            compute_unit_limit,
            log_64_units: 100,
            create_program_address_units: 1500,
            invoke_units: 1000,
            max_invoke_depth: 4,
            sha256_base_cost: 85,
            sha256_byte_cost: 1,
            sha256_max_slices: 20_000,
            max_call_depth: 64,
            stack_frame_size: 4_096,
            log_pubkey_units: 100,
            max_cpi_instruction_size: 1280,
            cpi_bytes_per_unit: 250,
            sysvar_base_cost: 100,
            secp256k1_recover_cost: 25_000,
            syscall_base_cost: 100,
            curve25519_edwards_validate_point_cost: 159,
            curve25519_edwards_add_cost: 473,
            curve25519_edwards_subtract_cost: 475,
            curve25519_edwards_multiply_cost: 2_177,
            curve25519_edwards_msm_base_cost: 2_273,
            curve25519_edwards_msm_incremental_cost: 758,
            curve25519_ristretto_validate_point_cost: 169,
            curve25519_ristretto_add_cost: 521,
            curve25519_ristretto_subtract_cost: 519,
            curve25519_ristretto_multiply_cost: 2_208,
            curve25519_ristretto_msm_base_cost: 2303,
            curve25519_ristretto_msm_incremental_cost: 788,
            heap_size: None,
            heap_cost: 8,
            mem_op_base_cost: 10,
        }
    }
}

impl Default for ComputeBudget {
    fn default() -> (r: Self)
        ensures
            r == default_budget(MAX_COMPUTE_UNIT_LIMIT as u64),
    {
        Self::new(MAX_COMPUTE_UNIT_LIMIT as u64)
    }
}

} // verus!
