//! The rules of a challenge: amounts, and the guards of its state changes.

use vstd::prelude::*;

use crate::address::{zero_address, Address};
use crate::word::{exceeds, modulus, quotient, saturating_difference, wrapping_product, U256};

verus! {

/// Open: participants may deposit.
pub const STATE_ABIERTO: u8 = 0;

/// Locked: everyone has deposited and the pot is in the vault.
pub const STATE_BLOQUEADO: u8 = 1;

/// Resolved: the pot went to the winner.
pub const STATE_RESUELTO: u8 = 2;

/// Refunded: the pot is split among the participants.
pub const STATE_REEMBOLSADO: u8 = 3;

/// Maximum allowed deposit per participant (10 ETH in wei) as a safety cap.
pub const MAX_DEPOSIT_WEI: u128 = 10_000_000_000_000_000_000;

/// The commission on `total` at `rate_bps` basis points, in 256-bit arithmetic.
pub open spec fn commission_amount(total: nat, rate_bps: nat) -> nat {
    ((total * rate_bps) % modulus()) / 10_000
}

/// What is left of `recovered` for the winner after the commission.
pub open spec fn payout_amount(recovered: nat, rate_bps: nat) -> nat {
    let commission = commission_amount(recovered, rate_bps);
    if commission <= recovered {
        (recovered - commission) as nat
    } else {
        0
    }
}

/// An equal share of `total` among `count` participants, rounded down.
pub open spec fn refund_share(total: nat, count: nat) -> nat {
    if count == 0 {
        0
    } else {
        total / count
    }
}

/// The pot of `count` deposits, in 256-bit arithmetic.
pub open spec fn pot_amount(required_deposit: nat, count: nat) -> nat {
    (required_deposit * count) % modulus()
}

/// Why a deposit is refused: the first rule that it breaks, if it breaks one.
pub open spec fn deposit_refusal(
    status: u8,
    is_participant: bool,
    already_deposited: bool,
    sent_amount: nat,
    required_deposit: nat,
) -> Option<Seq<char>> {
    if status != STATE_ABIERTO {
        Some("notopen"@)
    } else if !is_participant {
        Some("nopart"@)
    } else if already_deposited {
        Some("deposited"@)
    } else if sent_amount != required_deposit {
        Some("incdep"@)
    } else if sent_amount > MAX_DEPOSIT_WEI {
        Some("depmax"@)
    } else {
        None
    }
}

/// Why a result is refused: the first rule that it breaks, if it breaks one.
pub open spec fn confirm_refusal(
    status: u8,
    winner: Seq<u8>,
    winner_is_participant: bool,
) -> Option<Seq<char>> {
    if status != STATE_BLOQUEADO {
        Some("notlocked"@)
    } else if winner == zero_address() {
        Some("winzero"@)
    } else if !winner_is_participant {
        Some("winpart"@)
    } else {
        None
    }
}

/// Why a refund is refused: the first rule that it breaks, if it breaks one.
pub open spec fn refund_refusal(status: u8, deadline: nat, now: nat) -> Option<Seq<char>> {
    if status != STATE_BLOQUEADO {
        Some("notlocked"@)
    } else if now <= deadline {
        Some("nodln"@)
    } else {
        None
    }
}

/// Whether `verdict` is what a guard answers that refuses for `refusal`.
pub open spec fn answers(verdict: Result<(), &'static str>, refusal: Option<Seq<char>>) -> bool {
    match verdict {
        Ok(()) => refusal is None,
        Err(reason) => refusal == Some(reason@),
    }
}

/// Compute the commission for a payout.
///
/// `rate_bps` is in basis points (100 bps = 1%).
/// commission = total_payout * rate_bps / 10_000
pub fn commission_from(total_payout: U256, rate_bps: U256) -> (commission: U256)
    ensures
        commission@ == commission_amount(total_payout@, rate_bps@),
        total_payout@ * rate_bps@ < modulus() ==> commission@ == (total_payout@ * rate_bps@)
            / 10_000,
{
    if rate_bps.is_zero() {
        assert(total_payout@ * rate_bps@ == 0) by (nonlinear_arith)
            requires
                rate_bps@ == 0,
        ;
        return U256::zero();
    }
    quotient(wrapping_product(total_payout, rate_bps), U256::from_u64(10_000))
}

/// Returns `(winner_payout, commission)` for a resolved challenge.
///
/// `recovered_assets` is the total USDC that the pool recovered from the
/// treasury vault by redeeming its shares (principal and accrued yield). The
/// commission is applied on that recovered total, and the winner receives the
/// remainder.
pub fn resolve_payout(recovered_assets: U256, commission_rate_bps: U256) -> (split: (U256, U256))
    ensures
        split.0@ == payout_amount(recovered_assets@, commission_rate_bps@),
        split.1@ == commission_amount(recovered_assets@, commission_rate_bps@),
{
    if recovered_assets.is_zero() {
        assert(recovered_assets@ * commission_rate_bps@ == 0) by (nonlinear_arith)
            requires
                recovered_assets@ == 0,
        ;
        return (U256::zero(), U256::zero());
    }
    let commission = commission_from(recovered_assets, commission_rate_bps);
    let payout = saturating_difference(recovered_assets, commission);
    (payout, commission)
}

/// Compute the refund each participant receives (no commission).
///
/// `treasury_shares` is the total pool amount (principal and accrued yield).
/// Returns `treasury_shares / participant_count` or zero if count is zero.
pub fn refund_per_participant(treasury_shares: U256, participant_count: U256) -> (share: U256)
    ensures
        share@ == refund_share(treasury_shares@, participant_count@),
{
    if participant_count.is_zero() {
        return U256::zero();
    }
    quotient(treasury_shares, participant_count)
}

/// Compute total pool size after all participants deposit.
pub fn total_pool(required_deposit: U256, participant_count: U256) -> (total: U256)
    ensures
        total@ == pot_amount(required_deposit@, participant_count@),
        required_deposit@ * participant_count@ < modulus() ==> total@ == required_deposit@
            * participant_count@,
{
    wrapping_product(required_deposit, participant_count)
}

/// Returns `Ok(())` if the deposit can be accepted.
///
/// Checks: challenge is Abierto, caller is registered, not already deposited,
/// amount equals required_deposit and is within the cap.
pub fn validate_deposit(
    status: u8,
    is_participant: bool,
    already_deposited: bool,
    sent_amount: U256,
    required_deposit: U256,
) -> (verdict: Result<(), &'static str>)
    ensures
        answers(
            verdict,
            deposit_refusal(
                status,
                is_participant,
                already_deposited,
                sent_amount@,
                required_deposit@,
            ),
        ),
{
    if status != STATE_ABIERTO {
        return Err("notopen");
    }
    if !is_participant {
        return Err("nopart");
    }
    if already_deposited {
        return Err("deposited");
    }
    if sent_amount != required_deposit {
        return Err("incdep");
    }
    if exceeds(sent_amount, U256::from_u128(MAX_DEPOSIT_WEI)) {
        return Err("depmax");
    }
    Ok(())
}

/// Returns `Ok(())` if `confirm_result` can proceed.
///
/// Checks: challenge is Bloqueado, winner is non-zero and takes part in the
/// challenge. An operator relays a decision; without the last check an operator
/// could direct the pot to any address.
pub fn validate_confirm_result(
    status: u8,
    winner: Address,
    winner_is_participant: bool,
) -> (verdict: Result<(), &'static str>)
    ensures
        answers(verdict, confirm_refusal(status, winner@, winner_is_participant)),
{
    if status != STATE_BLOQUEADO {
        return Err("notlocked");
    }
    if winner.is_zero() {
        return Err("winzero");
    }
    if !winner_is_participant {
        return Err("winpart");
    }
    Ok(())
}

/// Returns `Ok(())` if the refund can proceed.
///
/// Checks: challenge is Bloqueado, deadline has passed.
pub fn validate_refund(status: u8, deadline: U256, now: U256) -> (verdict: Result<
    (),
    &'static str,
>)
    ensures
        answers(verdict, refund_refusal(status, deadline@, now@)),
{
    if status != STATE_BLOQUEADO {
        return Err("notlocked");
    }
    if !exceeds(now, deadline) {
        return Err("nodln");
    }
    Ok(())
}

} // verus!
