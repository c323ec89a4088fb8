//! The rules of a challenge on concrete amounts and states.

use challenge_pool::address::Address;
use challenge_pool::logic::{
    commission_from, refund_per_participant, resolve_payout, total_pool, validate_confirm_result,
    validate_deposit, validate_refund, MAX_DEPOSIT_WEI, STATE_ABIERTO, STATE_BLOQUEADO,
    STATE_REEMBOLSADO, STATE_RESUELTO,
};
use challenge_pool::word::U256;

fn addr(n: u8) -> Address {
    let mut bytes = [0u8; 20];
    bytes[19] = n;
    Address::from_bytes(bytes)
}

fn eth(n: u64) -> U256 {
    U256::from_u128(n as u128 * 1_000_000_000_000_000_000u128)
}

/// USDC with 6 decimals.
fn usdc(n: u64) -> U256 {
    U256::from_u128(n as u128 * 1_000_000u128)
}

const BPS_5: U256 = U256 { limbs: [500, 0, 0, 0] }; // 5 %
const BPS_0: U256 = U256 { limbs: [0, 0, 0, 0] };
const MAX: U256 = U256 { limbs: [u64::MAX, u64::MAX, u64::MAX, u64::MAX] };

// Challenge creation (state = Abierto)

#[test]
fn pool_size_calculated_correctly() {
    // 3 participants x 1 ETH = 3 ETH pool
    let pool = total_pool(eth(1), U256::from_u64(3));
    assert_eq!(pool, eth(3));
}

// Deposit validation

#[test]
fn valid_deposit_accepted() {
    let res = validate_deposit(
        STATE_ABIERTO,
        true,  // is_participant
        false, // already_deposited
        eth(1),
        eth(1),
    );
    assert!(res.is_ok());
}

#[test]
fn deposit_rejected_if_challenge_not_open() {
    let res = validate_deposit(STATE_BLOQUEADO, true, false, eth(1), eth(1));
    assert_eq!(res.unwrap_err(), "notopen");
}

#[test]
fn deposit_rejected_if_not_participant() {
    let res = validate_deposit(STATE_ABIERTO, false, false, eth(1), eth(1));
    assert_eq!(res.unwrap_err(), "nopart");
}

#[test]
fn deposit_rejected_if_already_deposited() {
    let res = validate_deposit(STATE_ABIERTO, true, true, eth(1), eth(1));
    assert_eq!(res.unwrap_err(), "deposited");
}

#[test]
fn deposit_rejected_if_amount_wrong() {
    let res = validate_deposit(STATE_ABIERTO, true, false, eth(2), eth(1));
    assert_eq!(res.unwrap_err(), "incdep");
}

#[test]
fn deposit_rejected_if_exceeds_maximum() {
    let huge = U256::from_u128(MAX_DEPOSIT_WEI + 1);
    let res = validate_deposit(STATE_ABIERTO, true, false, huge, huge);
    assert_eq!(res.unwrap_err(), "depmax");
}

#[test]
fn deposit_at_the_maximum_is_accepted() {
    let cap = U256::from_u128(MAX_DEPOSIT_WEI);
    assert_eq!(cap, eth(10));
    assert!(validate_deposit(STATE_ABIERTO, true, false, cap, cap).is_ok());
    // a limb above the lowest counts too
    let high = U256::from_limbs([0, 0, 0, 1]);
    assert_eq!(
        validate_deposit(STATE_ABIERTO, true, false, high, high),
        Err("depmax")
    );
}

// ERC-20 USDC deposit path

#[test]
fn usdc_deposit_accepted_at_exact_required_amount() {
    // Participant approved exactly `required_deposit` USDC (6 decimals).
    let required = usdc(25);
    let res = validate_deposit(STATE_ABIERTO, true, false, required, required);
    assert!(res.is_ok());
}

#[test]
fn usdc_deposit_rejected_if_value_bytes_mismatch() {
    // A deposit that transfers a different amount than required.
    let res = validate_deposit(STATE_ABIERTO, true, false, usdc(30), usdc(25));
    assert_eq!(res.unwrap_err(), "incdep");
}

#[test]
fn usdc_total_pool_scales_with_participants() {
    let total = total_pool(usdc(25), U256::from_u64(4));
    assert_eq!(total, usdc(100));
}

// confirm_result validation

#[test]
fn confirm_accepted_when_locked() {
    let res = validate_confirm_result(STATE_BLOQUEADO, addr(1), true);
    assert!(res.is_ok());
}

#[test]
fn confirm_rejected_if_not_locked() {
    let res = validate_confirm_result(STATE_ABIERTO, addr(1), true);
    assert_eq!(res.unwrap_err(), "notlocked");
}

#[test]
fn confirm_rejected_if_winner_is_zero() {
    let res = validate_confirm_result(STATE_BLOQUEADO, Address::zero(), true);
    assert_eq!(res.unwrap_err(), "winzero");
}

/// An operator relays a decision and does not choose where the funds go.
#[test]
fn confirm_rejected_if_winner_is_not_participant() {
    let res = validate_confirm_result(STATE_BLOQUEADO, addr(9), false);
    assert_eq!(res.unwrap_err(), "winpart");
}

/// The state is checked before the membership.
#[test]
fn confirm_state_check_precedes_participant_check() {
    let res = validate_confirm_result(STATE_ABIERTO, addr(9), false);
    assert_eq!(res.unwrap_err(), "notlocked");
}

// Resolution payout

#[test]
fn resolve_payout_applies_commission_on_recovered_total() {
    // Recovered 2 from the vault, 5 % commission: the winner gets 2 * 0.95
    let recovered = eth(2);
    let (payout, commission) = resolve_payout(recovered, BPS_5);

    let total = alloy_primitives::U256::from_limbs(recovered.limbs);
    let expected_commission = total * alloy_primitives::U256::from(500u64)
        / alloy_primitives::U256::from(10_000u64);
    let expected_payout = total - expected_commission;

    assert_eq!(commission, U256::from_limbs(expected_commission.into_limbs()));
    assert_eq!(payout, U256::from_limbs(expected_payout.into_limbs()));
    assert_eq!(commission, U256::from_u128(100_000_000_000_000_000));
    assert_eq!(payout, U256::from_u128(1_900_000_000_000_000_000));
}

#[test]
fn resolve_payout_zero_commission_passes_all_to_winner() {
    let recovered = eth(3);
    let (payout, commission) = resolve_payout(recovered, BPS_0);
    assert!(commission.is_zero());
    assert_eq!(payout, recovered);
}

#[test]
fn resolve_payout_zero_recovered_is_zero() {
    let (payout, commission) = resolve_payout(U256::zero(), BPS_5);
    assert!(payout.is_zero());
    assert!(commission.is_zero());
}

#[test]
fn commission_never_exceeds_total_payout() {
    // Even at 100 % rate (10_000 bps) commission == recovered, payout == 0
    let recovered = eth(1);
    let full_rate = U256::from_u64(10_000);
    let (payout, commission) = resolve_payout(recovered, full_rate);
    assert!(payout.is_zero());
    assert_eq!(commission, recovered);
}

#[test]
fn commission_rounds_down() {
    assert_eq!(
        commission_from(U256::from_u64(19_999), U256::from_u64(1)),
        U256::from_u64(1)
    );
    assert!(commission_from(U256::from_u64(19), BPS_5).is_zero());
}

#[test]
fn commission_above_full_rate_leaves_no_payout() {
    let (payout, commission) = resolve_payout(U256::from_u64(7), U256::from_u64(20_000));
    assert!(payout.is_zero());
    assert_eq!(commission, U256::from_u64(14));
}

#[test]
fn commission_wraps_and_still_splits_the_total() {
    // The product is 2^256 - 2 modulo 2^256.
    let (payout, commission) = resolve_payout(MAX, U256::from_u64(2));
    let m = alloy_primitives::U256::MAX;
    let expected = (m - alloy_primitives::U256::from(1u8)) / alloy_primitives::U256::from(10_000u64);
    assert_eq!(commission, U256::from_limbs(expected.into_limbs()));
    assert_eq!(payout, U256::from_limbs((m - expected).into_limbs()));
}

#[test]
fn total_pool_wraps_at_the_word() {
    assert_eq!(
        total_pool(MAX, U256::from_u64(2)),
        U256::from_limbs([u64::MAX - 1, u64::MAX, u64::MAX, u64::MAX])
    );
}

// Refund (no commission)

#[test]
fn refund_per_participant_splits_evenly() {
    // 3 ETH pool, 3 participants: 1 ETH each
    let refund = refund_per_participant(eth(3), U256::from_u64(3));
    assert_eq!(refund, eth(1));
}

#[test]
fn refund_per_participant_zero_if_no_participants() {
    let refund = refund_per_participant(eth(3), U256::zero());
    assert!(refund.is_zero());
}

#[test]
fn refund_per_participant_rounds_down() {
    assert_eq!(
        refund_per_participant(U256::from_u64(11), U256::from_u64(4)),
        U256::from_u64(2)
    );
    // 2^192 / 2
    assert_eq!(
        refund_per_participant(U256::from_limbs([0, 0, 0, 1]), U256::from_u64(2)),
        U256::from_limbs([0, 0, 1 << 63, 0])
    );
}

#[test]
fn refund_rejected_before_deadline() {
    let now = U256::from_u64(1_000);
    let deadline = U256::from_u64(2_000);
    let res = validate_refund(STATE_BLOQUEADO, deadline, now);
    assert_eq!(res.unwrap_err(), "nodln");
}

#[test]
fn refund_rejected_at_the_deadline() {
    let deadline = U256::from_u64(2_000);
    assert_eq!(validate_refund(STATE_BLOQUEADO, deadline, deadline), Err("nodln"));
}

#[test]
fn refund_accepted_after_deadline() {
    let now = U256::from_u64(3_000);
    let deadline = U256::from_u64(2_000);
    let res = validate_refund(STATE_BLOQUEADO, deadline, now);
    assert!(res.is_ok());
}

#[test]
fn refund_rejected_if_not_locked() {
    let res = validate_refund(STATE_ABIERTO, U256::zero(), U256::from_u64(1));
    assert_eq!(res.unwrap_err(), "notlocked");
}

// State constants

#[test]
fn state_constants_are_distinct() {
    let states = [
        STATE_ABIERTO,
        STATE_BLOQUEADO,
        STATE_RESUELTO,
        STATE_REEMBOLSADO,
    ];
    let unique: std::collections::HashSet<_> = states.iter().collect();
    assert_eq!(unique.len(), 4, "duplicate state constant");
}

// Words and addresses

#[test]
fn words_hold_wide_numbers() {
    let value = 0x0123_4567_89ab_cdef_0f1e_2d3c_4b5a_6978u128;
    assert_eq!(
        U256::from_u128(value),
        U256::from_limbs([0x0f1e_2d3c_4b5a_6978, 0x0123_4567_89ab_cdef, 0, 0])
    );
    assert_ne!(U256::from_limbs([0, 0, 1, 0]), U256::from_limbs([0, 0, 0, 1]));
    assert!(!U256::from_limbs([0, 0, 0, 1]).is_zero());
    assert!(U256::zero().is_zero());
}

#[test]
fn addresses_compare_by_their_bytes() {
    assert_eq!(addr(3), addr(3));
    assert_ne!(addr(3), addr(4));
    assert!(addr(0).is_zero());
    assert!(!addr(1).is_zero());
}
