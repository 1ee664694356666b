//! Tests for the burn engine: self-service burns, creator clawback burns,
//! batch burns with all-or-nothing semantics, and the supply bookkeeping.

use token_factory::TokenFactory;
use token_factory::storage;
use token_factory::types::{Address, Error, Event, TokenInfo};

fn setup() -> (TokenFactory, Address, Address) {
    let mut f = TokenFactory::new();
    let admin = Address(1);
    let treasury = Address(2);
    f.initialize(admin, treasury, 70_000_000, 30_000_000).unwrap();
    (f, admin, treasury)
}

/// Register a token record the way the deployment collaborator would, and
/// return its index.
fn register_token(
    f: &mut TokenFactory,
    creator: Address,
    supply: i128,
    clawback_enabled: bool,
) -> u32 {
    let index = f.get_token_count();
    let info = TokenInfo {
        address: Address(1000 + index as u64),
        creator,
        name: "Test Token".to_string(),
        symbol: "TST".to_string(),
        decimals: 7,
        total_supply: supply,
        initial_supply: supply,
        total_burned: 0,
        burn_count: 0,
        metadata_uri: None,
        created_at: 0,
        clawback_enabled,
    };
    storage::set_token_info(f, index, info);
    storage::increment_token_count(f);
    index
}

#[test]
fn test_full_token_lifecycle_with_burn() {
    let (mut f, _admin, _treasury) = setup();
    let creator = Address(3);

    let token = register_token(&mut f, creator, 1_000_000, false);
    storage::set_balance(&mut f, token, creator, 1_000_000);

    let initial_info = f.get_token_info(token).unwrap();
    assert_eq!(initial_info.total_supply, 1_000_000);
    assert_eq!(initial_info.total_burned, 0);
    assert_eq!(initial_info.burn_count, 0);

    f.burn(creator, token, 100_000).unwrap();

    let final_info = f.get_token_info(token).unwrap();
    assert_eq!(final_info.total_supply, 900_000);
    assert_eq!(final_info.total_burned, 100_000);
    assert_eq!(final_info.burn_count, 1);
}

#[test]
fn test_multiple_users_burning_same_token() {
    let (mut f, _admin, _treasury) = setup();
    let creator = Address(3);
    let user1 = Address(4);
    let user2 = Address(5);

    let token = register_token(&mut f, creator, 1_000_000, false);
    storage::set_balance(&mut f, token, creator, 850_000);
    storage::set_balance(&mut f, token, user1, 100_000);
    storage::set_balance(&mut f, token, user2, 50_000);

    f.burn(user1, token, 100_000).unwrap();
    f.burn(user2, token, 50_000).unwrap();

    let info = f.get_token_info(token).unwrap();
    assert_eq!(info.total_supply, 850_000);
    assert_eq!(info.total_burned, 150_000);
    assert_eq!(info.burn_count, 2);
}

#[test]
fn arith_supply_decreases_by_exact_burn_amount() {
    let (mut f, admin, _treasury) = setup();

    let token = register_token(&mut f, admin, 1_000_000, false);
    storage::set_balance(&mut f, token, admin, 1_000_000);

    let before = f.get_token_info(token).unwrap().total_supply;
    let burn_amount = 42_000_i128;

    f.burn(admin, token, burn_amount).unwrap();

    let after = f.get_token_info(token).unwrap().total_supply;
    assert_eq!(after, before - burn_amount, "Supply must decrease by exactly burn_amount");
}

#[test]
fn arith_supply_never_goes_negative() {
    let (mut f, admin, _treasury) = setup();

    let token = register_token(&mut f, admin, 1_000_000, false);
    storage::set_balance(&mut f, token, admin, 1_000_000);

    let supply = f.get_token_info(token).unwrap().total_supply;
    f.burn(admin, token, supply).unwrap();

    let after = f.get_token_info(token).unwrap().total_supply;
    assert_eq!(after, 0_i128, "Supply must be zero, not negative");

    let result = f.burn(admin, token, 1);
    assert!(result.is_err(), "Burning from empty supply must fail");
}

#[test]
fn state_burn_count_increments_correctly() {
    let (mut f, admin, _treasury) = setup();

    let token = register_token(&mut f, admin, 1_000_000, false);
    storage::set_balance(&mut f, token, admin, 1_000_000);

    assert_eq!(f.get_burn_count(token), 0_u32);

    f.burn(admin, token, 100).unwrap();
    assert_eq!(f.get_burn_count(token), 1_u32);

    f.burn(admin, token, 100).unwrap();
    assert_eq!(f.get_burn_count(token), 2_u32);
}

#[test]
fn state_sequential_burns_cumulative_supply() {
    let (mut f, admin, _treasury) = setup();

    let initial = 1_000_000_i128;
    let token = register_token(&mut f, admin, initial, false);
    storage::set_balance(&mut f, token, admin, initial);

    let burns = [100_i128, 200_i128, 300_i128, 400_i128];
    let expected_final = initial - burns.iter().sum::<i128>();

    for &amount in &burns {
        f.burn(admin, token, amount).unwrap();
    }

    let supply = f.get_token_info(token).unwrap().total_supply;
    assert_eq!(supply, expected_final);
}

#[test]
fn state_balance_and_supply_consistent_after_burn() {
    let (mut f, admin, _treasury) = setup();

    let token = register_token(&mut f, admin, 1_000_000, false);
    storage::set_balance(&mut f, token, admin, 1_000_000);

    let supply_before = f.get_token_info(token).unwrap().total_supply;
    let balance_before = f.get_balance(token, admin);

    f.burn(admin, token, 300).unwrap();

    let supply_after = f.get_token_info(token).unwrap().total_supply;
    let balance_after = f.get_balance(token, admin);

    assert_eq!(supply_before - supply_after, 300_i128);
    assert_eq!(balance_before - balance_after, 300_i128);
    assert_eq!(
        supply_before - supply_after,
        balance_before - balance_after,
        "Supply delta must equal balance delta"
    );
}

#[test]
fn test_burn_insufficient_balance_fails() {
    let (mut f, admin, _treasury) = setup();
    let holder = Address(7);

    let token = register_token(&mut f, admin, 1_000_000, false);

    let result = f.burn(holder, token, 1000);
    assert_eq!(result, Err(Error::InsufficientBalance));
}

#[test]
fn test_admin_burn_insufficient_balance_fails() {
    let (mut f, admin, _treasury) = setup();
    let holder = Address(7);

    let token = register_token(&mut f, admin, 1_000_000, true);

    let result = f.admin_burn(admin, token, holder, 1000);
    assert_eq!(result, Err(Error::InsufficientBalance));
}

#[test]
fn test_burn_zero_amount_fails() {
    let (mut f, admin, _treasury) = setup();
    let token = register_token(&mut f, admin, 1_000_000, false);
    storage::set_balance(&mut f, token, admin, 1_000_000);

    assert_eq!(f.burn(admin, token, 0), Err(Error::InvalidParameters));
}

#[test]
fn test_burn_negative_amount_fails() {
    let (mut f, admin, _treasury) = setup();
    let token = register_token(&mut f, admin, 1_000_000, false);
    storage::set_balance(&mut f, token, admin, 1_000_000);

    assert_eq!(f.burn(admin, token, -1000), Err(Error::InvalidParameters));
}

#[test]
fn test_admin_burn_zero_amount_fails() {
    let (mut f, admin, _treasury) = setup();
    let holder = Address(7);
    let token = register_token(&mut f, admin, 1_000_000, true);
    storage::set_balance(&mut f, token, holder, 1_000_000);

    assert_eq!(f.admin_burn(admin, token, holder, 0), Err(Error::InvalidParameters));
}

#[test]
fn test_admin_burn_negative_amount_fails() {
    let (mut f, admin, _treasury) = setup();
    let holder = Address(7);
    let token = register_token(&mut f, admin, 1_000_000, true);
    storage::set_balance(&mut f, token, holder, 1_000_000);

    assert_eq!(f.admin_burn(admin, token, holder, -1000), Err(Error::InvalidParameters));
}

#[test]
fn input_nonexistent_token_rejected() {
    let (mut f, admin, _treasury) = setup();

    assert_eq!(f.burn(admin, 9999, 100), Err(Error::TokenNotFound));
}

#[test]
fn test_admin_burn_success() {
    let (mut f, _admin, _treasury) = setup();
    let creator = Address(3);
    let from = Address(4);

    let token = register_token(&mut f, creator, 1_000_000_0000000, true);
    storage::set_balance(&mut f, token, from, 1_000_000_0000000);

    let burn_amount = 100_000_0000000_i128;
    let result = f.admin_burn(creator, token, from, burn_amount);
    assert!(result.is_ok());

    let token_info = f.get_token_info(token).unwrap();
    assert_eq!(token_info.total_supply, 900_000_0000000);
    assert_eq!(token_info.total_burned, 100_000_0000000);
    assert_eq!(token_info.burn_count, 1);
}

#[test]
fn test_admin_burn_multiple_burns() {
    let (mut f, _admin, _treasury) = setup();
    let creator = Address(3);
    let from = Address(4);

    let token = register_token(&mut f, creator, 1_000_000_0000000, true);
    storage::set_balance(&mut f, token, from, 1_000_000_0000000);

    f.admin_burn(creator, token, from, 50_000_0000000).unwrap();
    f.admin_burn(creator, token, from, 30_000_0000000).unwrap();

    let info = f.get_token_info(token).unwrap();
    assert_eq!(info.total_supply, 920_000_0000000);
    assert_eq!(info.total_burned, 80_000_0000000);
    assert_eq!(info.burn_count, 2);
}

#[test]
fn test_admin_burn_unauthorized_not_creator() {
    let (mut f, _admin, _treasury) = setup();
    let creator = Address(3);
    let non_creator = Address(8);
    let from = Address(4);

    let token = register_token(&mut f, creator, 1_000_000_0000000, true);
    storage::set_balance(&mut f, token, from, 1_000_000_0000000);

    let result = f.admin_burn(non_creator, token, from, 100_000_0000000);
    assert_eq!(result, Err(Error::Unauthorized));
}

#[test]
fn test_admin_burn_token_not_found() {
    let (mut f, _admin, _treasury) = setup();
    let creator = Address(3);
    let from = Address(4);

    let result = f.admin_burn(creator, 42, from, 100_000_0000000);
    assert_eq!(result, Err(Error::TokenNotFound));
}

#[test]
fn test_admin_burn_clawback_disabled() {
    let (mut f, _admin, _treasury) = setup();
    let creator = Address(3);
    let from = Address(4);

    let token = register_token(&mut f, creator, 1_000_000_0000000, false);
    storage::set_balance(&mut f, token, from, 1_000_000_0000000);

    let result = f.admin_burn(creator, token, from, 100_000_0000000);
    assert_eq!(result, Err(Error::ClawbackDisabled));
}

#[test]
fn test_admin_burn_from_different_addresses() {
    let (mut f, _admin, _treasury) = setup();
    let creator = Address(3);
    let user1 = Address(4);
    let user2 = Address(5);

    let token = register_token(&mut f, creator, 1_000_000_0000000, true);
    storage::set_balance(&mut f, token, user1, 100_000_0000000);
    storage::set_balance(&mut f, token, user2, 100_000_0000000);

    f.admin_burn(creator, token, user1, 50_000_0000000).unwrap();
    f.admin_burn(creator, token, user2, 30_000_0000000).unwrap();

    let info = f.get_token_info(token).unwrap();
    assert_eq!(info.total_burned, 80_000_0000000);
    assert_eq!(f.get_balance(token, user1), 50_000_0000000);
    assert_eq!(f.get_balance(token, user2), 70_000_0000000);
}

#[test]
fn test_set_clawback_enable() {
    let (mut f, _admin, _treasury) = setup();
    let creator = Address(3);

    let token = register_token(&mut f, creator, 1_000_000, false);
    let token_address = f.get_token_info(token).unwrap().address;

    f.set_clawback(token_address, creator, true).unwrap();
    assert!(f.get_token_info(token).unwrap().clawback_enabled);
}

#[test]
fn test_set_clawback_disable() {
    let (mut f, _admin, _treasury) = setup();
    let creator = Address(3);

    let token = register_token(&mut f, creator, 1_000_000, true);
    let token_address = f.get_token_info(token).unwrap().address;

    f.set_clawback(token_address, creator, false).unwrap();
    assert!(!f.get_token_info(token).unwrap().clawback_enabled);
}

#[test]
fn test_set_clawback_unauthorized() {
    let (mut f, _admin, _treasury) = setup();
    let creator = Address(3);
    let non_creator = Address(8);

    let token = register_token(&mut f, creator, 1_000_000, true);
    let token_address = f.get_token_info(token).unwrap().address;

    let result = f.set_clawback(token_address, non_creator, false);
    assert_eq!(result, Err(Error::Unauthorized));
    assert!(f.get_token_info(token).unwrap().clawback_enabled);
}

#[test]
fn test_set_clawback_paused() {
    let (mut f, admin, _treasury) = setup();
    let creator = Address(3);

    let token = register_token(&mut f, creator, 1_000_000, false);
    let token_address = f.get_token_info(token).unwrap().address;

    f.pause(admin).unwrap();
    let result = f.set_clawback(token_address, creator, true);
    assert_eq!(result, Err(Error::ContractPaused));
}

#[test]
fn test_burn_works_while_paused() {
    // Pausing gates creator-facing configuration; burns stay available.
    let (mut f, admin, _treasury) = setup();

    let token = register_token(&mut f, admin, 1_000_000, false);
    storage::set_balance(&mut f, token, admin, 1_000_000);

    f.pause(admin).unwrap();
    f.burn(admin, token, 100).unwrap();
    assert_eq!(f.get_token_info(token).unwrap().total_supply, 999_900);
}

#[test]
fn test_batch_burn_too_large_fails() {
    let (mut f, admin, _treasury) = setup();
    let token = register_token(&mut f, admin, 1_000_000, false);

    let mut batch: Vec<(Address, i128)> = Vec::new();
    for i in 0..101 {
        batch.push((Address(100 + i), 1000_i128));
    }

    assert_eq!(f.batch_burn(admin, token, batch), Err(Error::BatchTooLarge));
}

#[test]
fn input_empty_batch_rejected() {
    let (mut f, admin, _treasury) = setup();
    let token = register_token(&mut f, admin, 1_000_000, false);

    let empty: Vec<(Address, i128)> = Vec::new();
    assert_eq!(f.batch_burn(admin, token, empty), Err(Error::InvalidParameters));
}

#[test]
fn batch_burn_unauthorized() {
    let (mut f, _admin, _treasury) = setup();
    let token = register_token(&mut f, Address(3), 1_000_000, false);

    let batch = vec![(Address(4), 100_i128)];
    assert_eq!(f.batch_burn(Address(9), token, batch), Err(Error::Unauthorized));
}

#[test]
fn input_batch_all_or_nothing_on_invalid_entry() {
    let (mut f, admin, _treasury) = setup();
    let holder_a = Address(4);
    let holder_b = Address(5);

    let token = register_token(&mut f, admin, 1_000_000, false);
    storage::set_balance(&mut f, token, holder_a, 1_000);
    storage::set_balance(&mut f, token, holder_b, 50);

    let supply_before = f.get_token_info(token).unwrap().total_supply;

    let batch = vec![(holder_a, 100_i128), (holder_b, 200_i128)];
    let result = f.batch_burn(admin, token, batch);
    assert!(result.is_err(), "Batch with invalid entry must be rejected entirely");

    assert_eq!(f.get_balance(token, holder_a), 1_000);
    assert_eq!(f.get_balance(token, holder_b), 50);
    assert_eq!(f.get_token_info(token).unwrap().total_supply, supply_before);
}

#[test]
fn dos_batch_burn_at_limit_succeeds() {
    let (mut f, admin, _treasury) = setup();
    let token = register_token(&mut f, admin, 1_000_000, false);

    let mut batch: Vec<(Address, i128)> = Vec::new();
    for i in 0..100 {
        let holder = Address(100 + i);
        storage::set_balance(&mut f, token, holder, 10);
        batch.push((holder, 1_i128));
    }

    let result = f.batch_burn(admin, token, batch);
    assert!(result.is_ok(), "Batch of exactly 100 must succeed");
    let info = f.get_token_info(token).unwrap();
    assert_eq!(info.total_supply, 999_900);
    assert_eq!(info.total_burned, 100);
    assert_eq!(info.burn_count, 1);
}

#[test]
fn batch_burn_success_updates_all_holders() {
    let (mut f, admin, _treasury) = setup();
    let holder_a = Address(4);
    let holder_b = Address(5);

    let token = register_token(&mut f, admin, 10_000, false);
    storage::set_balance(&mut f, token, holder_a, 6_000);
    storage::set_balance(&mut f, token, holder_b, 4_000);

    let batch = vec![(holder_a, 1_000_i128), (holder_b, 500_i128)];
    f.batch_burn(admin, token, batch).unwrap();

    assert_eq!(f.get_balance(token, holder_a), 5_000);
    assert_eq!(f.get_balance(token, holder_b), 3_500);
    let info = f.get_token_info(token).unwrap();
    assert_eq!(info.total_supply, 8_500);
    assert_eq!(info.total_burned, 1_500);
    assert_eq!(info.burn_count, 1);
}

#[test]
fn batch_burn_duplicate_holder_debits_cumulatively() {
    let (mut f, admin, _treasury) = setup();
    let holder = Address(4);

    let token = register_token(&mut f, admin, 10_000, false);
    storage::set_balance(&mut f, token, holder, 1_000);

    let batch = vec![(holder, 600_i128), (holder, 600_i128)];
    f.batch_burn(admin, token, batch).unwrap();

    // Each entry is validated against the pre-call balance and applied in
    // turn; the holder is debited the full 1200.
    assert_eq!(f.get_balance(token, holder), -200);
    assert_eq!(f.get_token_info(token).unwrap().total_supply, 8_800);
}

#[test]
fn batch_burn_aggregate_exceeding_supply_rejected() {
    let (mut f, admin, _treasury) = setup();
    let holder_a = Address(4);
    let holder_b = Address(5);

    let token = register_token(&mut f, admin, 1_000, false);
    storage::set_balance(&mut f, token, holder_a, 800);
    storage::set_balance(&mut f, token, holder_b, 800);

    let batch = vec![(holder_a, 700_i128), (holder_b, 700_i128)];
    assert_eq!(f.batch_burn(admin, token, batch), Err(Error::InsufficientBalance));
    assert_eq!(f.get_balance(token, holder_a), 800);
    assert_eq!(f.get_balance(token, holder_b), 800);
}

#[test]
fn invariant_supply_conservation_after_burns() {
    let (mut f, admin, _treasury) = setup();
    let holder_a = Address(4);
    let holder_b = Address(5);

    let token = register_token(&mut f, admin, 1_000_000, true);
    storage::set_balance(&mut f, token, admin, 500_000);
    storage::set_balance(&mut f, token, holder_a, 300_000);
    storage::set_balance(&mut f, token, holder_b, 200_000);

    f.burn(admin, token, 50_000).unwrap();
    f.admin_burn(admin, token, holder_a, 30_000).unwrap();

    let info = f.get_token_info(token).unwrap();
    let sum_balances = f.get_balance(token, admin) + f.get_balance(token, holder_a)
        + f.get_balance(token, holder_b);

    assert_eq!(info.total_supply, sum_balances, "total_supply must equal sum of all balances");
    assert_eq!(
        info.total_supply + info.total_burned,
        info.initial_supply,
        "supply plus burned must equal the issued amount"
    );
}

#[test]
fn burn_supply_underflow_defensively_rejected() {
    // A balance seeded above the supply trips the defensive checked
    // subtraction instead of driving the supply negative.
    let (mut f, admin, _treasury) = setup();
    let token = register_token(&mut f, admin, 50, false);
    storage::set_balance(&mut f, token, admin, 100);

    assert_eq!(f.burn(admin, token, 100), Err(Error::ArithmeticError));
    assert_eq!(f.get_token_info(token).unwrap().total_supply, 50);
}

#[test]
fn burn_counter_overflow_rejected_without_mutation() {
    let (mut f, _admin, _treasury) = setup();
    let creator = Address(3);
    let index = f.get_token_count();
    let info = TokenInfo {
        address: Address(1000 + index as u64),
        creator,
        name: "Worn Token".to_string(),
        symbol: "WRN".to_string(),
        decimals: 7,
        total_supply: 1_000,
        initial_supply: 1_000,
        total_burned: 0,
        burn_count: u32::MAX,
        metadata_uri: None,
        created_at: 0,
        clawback_enabled: false,
    };
    storage::set_token_info(&mut f, index, info);
    storage::increment_token_count(&mut f);
    storage::set_balance(&mut f, index, creator, 1_000);

    assert_eq!(f.burn(creator, index, 100), Err(Error::ArithmeticError));
    assert_eq!(f.get_balance(index, creator), 1_000);
    assert_eq!(f.get_token_info(index).unwrap().total_supply, 1_000);
}

#[test]
fn test_state_consistency_across_burns() {
    let (mut f, _admin, _treasury) = setup();
    let creator = Address(3);

    let token = register_token(&mut f, creator, 1_000_000, false);
    storage::set_balance(&mut f, token, creator, 1_000_000);

    let mut expected_supply = 1_000_000_i128;
    let mut expected_burned = 0_i128;
    let mut expected_count = 0_u32;

    let burn_amounts = [100_000, 50_000, 25_000, 75_000, 250_000];

    for amount in burn_amounts {
        f.burn(creator, token, amount).unwrap();

        expected_supply -= amount;
        expected_burned += amount;
        expected_count += 1;

        let info = f.get_token_info(token).unwrap();
        assert_eq!(info.total_supply, expected_supply, "Supply mismatch after burn of {}", amount);
        assert_eq!(
            info.total_burned,
            expected_burned,
            "Burned amount mismatch after burn of {}",
            amount
        );
        assert_eq!(info.burn_count, expected_count, "Burn count mismatch after burn of {}", amount);
    }

    let final_info = f.get_token_info(token).unwrap();
    assert_eq!(final_info.total_supply, 500_000);
    assert_eq!(final_info.total_burned, 500_000);
    assert_eq!(final_info.burn_count, 5);
}

#[test]
fn test_rapid_burn_operations() {
    let (mut f, _admin, _treasury) = setup();
    let creator = Address(3);

    let token = register_token(&mut f, creator, 10_000_000, false);
    storage::set_balance(&mut f, token, creator, 10_000_000);

    for _ in 0..100 {
        f.burn(creator, token, 10_000).unwrap();
    }

    let info = f.get_token_info(token).unwrap();
    assert_eq!(info.total_supply, 9_000_000);
    assert_eq!(info.total_burned, 1_000_000);
    assert_eq!(info.burn_count, 100);
}

#[test]
fn test_burn_exceeds_supply_fails() {
    let (mut f, _admin, _treasury) = setup();
    let creator = Address(3);

    let token = register_token(&mut f, creator, 1_000, false);
    storage::set_balance(&mut f, token, creator, 1_000);

    let result = f.burn(creator, token, 2_000);
    assert_eq!(result, Err(Error::InsufficientBalance));
    assert_eq!(f.get_token_info(token).unwrap().total_supply, 1_000);
}

#[test]
fn test_burn_after_admin_transfer() {
    let (mut f, admin, _treasury) = setup();
    let new_creator = Address(3);

    f.transfer_admin(admin, Address(6)).unwrap();

    let token = register_token(&mut f, new_creator, 1_000_000, false);
    storage::set_balance(&mut f, token, new_creator, 1_000_000);

    f.burn(new_creator, token, 250_000).unwrap();

    let info = f.get_token_info(token).unwrap();
    assert_eq!(info.total_supply, 750_000);
    assert_eq!(info.total_burned, 250_000);
    assert_eq!(info.burn_count, 1);
}

#[test]
fn test_burn_affects_get_token_info() {
    let (mut f, _admin, _treasury) = setup();
    let creator = Address(3);

    let token = register_token(&mut f, creator, 1_000_000, false);
    storage::set_balance(&mut f, token, creator, 1_000_000);

    let info1 = f.get_token_info(token).unwrap();
    assert_eq!(info1.total_supply, 1_000_000);
    assert_eq!(info1.total_burned, 0);

    f.burn(creator, token, 200_000).unwrap();

    let info2 = f.get_token_info(token).unwrap();
    assert_eq!(info2.total_supply, 800_000);
    assert_eq!(info2.total_burned, 200_000);
    assert_eq!(info2.burn_count, 1);

    f.burn(creator, token, 100_000).unwrap();

    let info3 = f.get_token_info(token).unwrap();
    assert_eq!(info3.total_supply, 700_000);
    assert_eq!(info3.total_burned, 300_000);
    assert_eq!(info3.burn_count, 2);
}

#[test]
fn test_burn_affects_get_state() {
    // Burns touch the token records and balances only; the configuration
    // snapshot stays as it was.
    let (mut f, admin, treasury) = setup();
    let creator = Address(3);

    let token = register_token(&mut f, creator, 1_000_000, false);
    storage::set_balance(&mut f, token, creator, 1_000_000);

    let state_before = f.get_state();
    assert_eq!(state_before.admin, admin);
    assert_eq!(state_before.treasury, treasury);

    f.burn(creator, token, 100_000).unwrap();

    let state_after = f.get_state();
    assert_eq!(state_after, state_before);
}

#[test]
fn reen_burn_event_emitted_with_correct_data() {
    let (mut f, admin, _treasury) = setup();
    let token = register_token(&mut f, admin, 1_000_000, false);
    storage::set_balance(&mut f, token, admin, 1_000_000);

    let events_before = f.events.len();
    f.burn(admin, token, 500).unwrap();

    assert_eq!(f.events.len(), events_before + 1, "Exactly one event per successful burn");
    assert_eq!(
        f.events[events_before],
        Event::Burn { token_index: token, caller: admin, amount: 500, new_supply: 999_500 }
    );
}
