use std::collections::HashMap;
use unified_scheduler::compute_budget::{ComputeBudget, MAX_COMPUTE_UNIT_LIMIT};
use unified_scheduler::metrics::TokenCounter;
use unified_scheduler::storage_contract::{update_credits, Credits};
use unified_scheduler::pubkey::Pubkey;
use unified_scheduler::use_snapshot_archives_at_startup::{cli, UseSnapshotArchivesAtStartup};
use unified_scheduler::vote_program::{check_id, id, BlockDescription, VOTE_PROGRAM_ID};
use unified_scheduler::zk_instruction::{combine_lo_hi_u64, split_u64};

#[test]
fn split_u64_low_and_high_parts() {
    let amount: u64 = 0x1234_5678_9abc_def0;
    assert_eq!(split_u64(amount, 16), (0xdef0, 0x1234_5678_9abc));
    assert_eq!(split_u64(amount, 32), (0x9abc_def0, 0x1234_5678));
    assert_eq!(split_u64(amount, 1), (0, amount >> 1));
    assert_eq!(split_u64(amount, 64), (amount, 0));
    assert_eq!(split_u64(u64::MAX, 48), ((1 << 48) - 1, 0xffff));
}

#[test]
fn combine_lo_hi_u64_joins_parts() {
    assert_eq!(combine_lo_hi_u64(0xdef0, 0x1234_5678_9abc, 16), 0x1234_5678_9abc_def0);
    assert_eq!(combine_lo_hi_u64(7, 99, 64), 7);
    let amount: u64 = 987_654_321_012;
    for bits in [1usize, 16, 32, 48, 63, 64] {
        let (lo, hi) = split_u64(amount, bits);
        assert_eq!(combine_lo_hi_u64(lo, hi, bits), amount);
    }
}

#[test]
fn snapshot_archive_option_names() {
    assert_eq!(UseSnapshotArchivesAtStartup::variants(), &["always", "never"]);
    assert_eq!(cli::possible_values(), &["always", "never"]);
    assert_eq!(cli::default_value(), "always");
    assert_eq!(cli::name(), "use_snapshot_archives_at_startup");
    assert_eq!(cli::long_name(), "use-snapshot-archives-at-startup");
    assert_eq!(cli::help(), "When should snapshot archives be used at startup?");
    assert!(cli::long_help().starts_with("At startup, when should snapshot archives be extracted"));
    assert_eq!(UseSnapshotArchivesAtStartup::default(), UseSnapshotArchivesAtStartup::Always);
    assert_eq!(UseSnapshotArchivesAtStartup::Never.as_str(), "never");
    assert_eq!(
        UseSnapshotArchivesAtStartup::from_name("never"),
        Some(UseSnapshotArchivesAtStartup::Never)
    );
    assert_eq!(UseSnapshotArchivesAtStartup::from_name("sometimes"), None);
}

#[test]
fn vote_program_id_checks() {
    assert!(check_id(&id()));
    assert_eq!(id().to_bytes(), VOTE_PROGRAM_ID);
    assert_eq!(id().to_bytes()[0], 132);
    assert!(!check_id(&Pubkey::default()));
    let mut near = VOTE_PROGRAM_ID;
    near[31] = 1;
    assert!(!check_id(&Pubkey::new_from_array(near)));
}

#[test]
fn block_description_keeps_fields() {
    let mut weights = HashMap::new();
    weights.insert(Pubkey::new_from_array([3; 32]), 42u64);
    let block = BlockDescription::new(7, unified_scheduler::vote_program::Hash([1; 32]), unified_scheduler::vote_program::Hash([2; 32]), weights.clone());
    assert_eq!(block.tick_height, 7);
    assert_eq!(block.entry_id, unified_scheduler::vote_program::Hash([1; 32]));
    assert_eq!(block.state_hash, unified_scheduler::vote_program::Hash([2; 32]));
    assert_eq!(block.weights, weights);
}

#[test]
fn token_counter_hands_out_tokens() {
    let counter = TokenCounter::new("tokens");
    let token = counter.create_token();
    let copy = token.clone();
    drop(token);
    drop(copy);
}

#[test]
fn compute_budget_defaults() {
    let budget = ComputeBudget::new(42);
    assert_eq!(budget.compute_unit_limit, 42);
    assert_eq!(budget.max_invoke_depth, 4);
    assert_eq!(budget.stack_frame_size, 4_096);
    assert_eq!(budget.secp256k1_recover_cost, 25_000);
    assert_eq!(budget.curve25519_ristretto_msm_incremental_cost, 788);
    assert_eq!(budget.heap_size, None);
    let default_budget = ComputeBudget::default();
    assert_eq!(default_budget.compute_unit_limit, MAX_COMPUTE_UNIT_LIMIT as u64);
    assert_eq!(
        ComputeBudget {
            compute_unit_limit: 42,
            ..default_budget
        },
        budget
    );
}

#[test]
fn credits_roll_over_on_new_epoch() {
    let mut credits = Credits {
        epoch: 1,
        last_epoch: 3,
        current_epoch: 5,
        redeemable: 7,
    };
    update_credits(&mut credits, 1);
    assert_eq!(
        credits,
        Credits {
            epoch: 1,
            last_epoch: 3,
            current_epoch: 5,
            redeemable: 7
        }
    );
    update_credits(&mut credits, 2);
    assert_eq!(
        credits,
        Credits {
            epoch: 2,
            last_epoch: 5,
            current_epoch: 0,
            redeemable: 12
        }
    );
}
