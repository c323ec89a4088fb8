//! Laws of the operations as they go on: what each answered call leads to, and
//! with which reason an operation fails when the call has failed.

use vstd::prelude::*;
use vstd::utf8::encode_utf8;

use crate::abi::returned_value;
use crate::address::Address;
use crate::challenge::ChallengeView;
use crate::contract::ChallengePool;
use crate::host::{EventLog, EventView, Pending, Step};
use crate::laws::effects::{
    same_but_one, same_challenges, same_claims, same_deposits, same_settings, same_terms,
};
use crate::laws::messages::{
    approve_data_approves, approves, pays, puts_in, transfer_data_pays, vault_deposit_data_puts_in,
};
use crate::logic::{refund_per_participant, resolve_payout, total_pool};
use crate::word::U256;

verus! {

/// Whether neither the pool nor the log has changed.
pub open spec fn nothing_changed(
    before: ChallengePool,
    after: ChallengePool,
    logged: Seq<EventView>,
    logged_after: Seq<EventView>,
) -> bool {
    &&& same_settings(before, after)
    &&& same_challenges(before, after)
    &&& logged_after == logged
}

/// Whether two records differ in state and number of shares at most.
pub open spec fn same_but_state_and_shares(before: ChallengeView, after: ChallengeView) -> bool {
    &&& same_terms(before, after)
    &&& same_deposits(before, after)
    &&& same_claims(before, after)
    &&& after.winner == before.winner
}

/// After a failed call an operation fails with the reason of that call, and has
/// written nothing more.
pub proof fn failed_calls_fail_the_operation(
    pool: &mut ChallengePool,
    step: Step,
    log: &mut EventLog,
    result: Result<Option<Pending>, Vec<u8>>,
)
    requires
        call_ensures(ChallengePool::resume, (pool, step, None::<Vec<u8>>, log), result),
    ensures
        nothing_changed(*old(pool), *final(pool), old(log)@, final(log)@),
        result matches Err(why) && why@ == match step {
            Step::DepositPull { .. } => encode_utf8("pull"@),
            Step::DepositApprove { .. } => encode_utf8("appr"@),
            Step::DepositVault { .. } => encode_utf8("vdep"@),
            Step::ConfirmRedeem { .. } => encode_utf8("vred"@),
            Step::ConfirmPay { .. } => encode_utf8("pay"@),
            Step::RefundRedeem { .. } => encode_utf8("vred"@),
            Step::ClaimPay => encode_utf8("refpay"@),
        },
{
    assert(final(pool)@.challenges == final(pool).challenges@);
    assert(final(pool)@.operators == final(pool).operators@);
}

/// An answered call never fails the operation.
pub proof fn answered_calls_succeed(
    pool: &mut ChallengePool,
    step: Step,
    data: Vec<u8>,
    log: &mut EventLog,
    result: Result<Option<Pending>, Vec<u8>>,
)
    requires
        call_ensures(ChallengePool::resume, (pool, step, Some(data), log), result),
    ensures
        result is Ok,
        same_settings(*old(pool), *final(pool)),
        final(pool).next_challenge_id@ == old(pool).next_challenge_id@,
{
    assert(final(pool)@.operators == final(pool).operators@);
}

/// Once a deposit is pulled, the operation is done, unless it was the last one:
/// then the vault is allowed to take the whole pot.
pub proof fn pulled_deposit_leads_to_the_approval(
    pool: &mut ChallengePool,
    id: U256,
    required: U256,
    deposited: U256,
    count: U256,
    usdc: Address,
    data: Vec<u8>,
    log: &mut EventLog,
    result: Result<Option<Pending>, Vec<u8>>,
    pot: U256,
)
    requires
        call_ensures(
            ChallengePool::resume,
            (
                pool,
                Step::DepositPull {
                    challenge_id: id,
                    required_deposit: required,
                    new_deposited: deposited,
                    participant_count: count,
                    usdc,
                },
                Some(data),
                log,
            ),
            result,
        ),
        call_ensures(total_pool, (required, count), pot),
    ensures
        nothing_changed(*old(pool), *final(pool), old(log)@, final(log)@),
        deposited@ != count@ ==> result matches Ok(None),
        deposited@ == count@ ==> {
            &&& result matches Ok(Some(next))
            &&& approves(next.call@, usdc@, old(pool).treasury_vault@, pot@)
            &&& next.step matches Step::DepositApprove { challenge_id, total }
            &&& challenge_id@ == id@
            &&& total@ == pot@
        },
{
    assert(final(pool)@.challenges == final(pool).challenges@);
    assert(final(pool)@.operators == final(pool).operators@);
    assert(final(log)@ =~= old(log)@);
    approve_data_approves(usdc@, old(pool).treasury_vault@, pot@);
}

/// Once the vault is allowed to take the pot, it is asked to take exactly that.
pub proof fn approval_leads_to_the_vault(
    pool: &mut ChallengePool,
    id: U256,
    total: U256,
    data: Vec<u8>,
    log: &mut EventLog,
    result: Result<Option<Pending>, Vec<u8>>,
)
    requires
        call_ensures(
            ChallengePool::resume,
            (pool, Step::DepositApprove { challenge_id: id, total }, Some(data), log),
            result,
        ),
    ensures
        nothing_changed(*old(pool), *final(pool), old(log)@, final(log)@),
        result matches Ok(Some(next)) && {
            &&& puts_in(next.call@, old(pool).treasury_vault@, total@)
            &&& next.step matches Step::DepositVault { challenge_id }
            &&& challenge_id@ == id@
        },
{
    assert(final(pool)@.challenges == final(pool).challenges@);
    assert(final(pool)@.operators == final(pool).operators@);
    assert(final(log)@ =~= old(log)@);
    vault_deposit_data_puts_in(old(pool).treasury_vault@, total@);
}

/// Once the vault has taken the pot, the challenge is locked and keeps the number
/// of shares that the vault returned; no other challenge changes.
pub proof fn vault_locks_the_challenge(
    pool: &mut ChallengePool,
    id: U256,
    data: Vec<u8>,
    log: &mut EventLog,
    result: Result<Option<Pending>, Vec<u8>>,
)
    requires
        call_ensures(
            ChallengePool::resume,
            (pool, Step::DepositVault { challenge_id: id }, Some(data), log),
            result,
        ),
    ensures
        result matches Ok(None),
        same_but_one(*old(pool), *final(pool), id@),
        ({
            let before = old(pool).challenges@[id@];
            let after = final(pool).challenges@[id@];
            &&& same_but_state_and_shares(before, after)
            &&& after.status == 1
            &&& after.treasury_shares == returned_value(data@)
            &&& final(log)@ == old(log)@.push(
                EventView::ChallengeLocked {
                    challenge_id: id@,
                    treasury_shares: returned_value(data@),
                },
            )
        }),
{
    assert(final(pool)@.challenges == final(pool).challenges@);
    assert(final(pool)@.operators == final(pool).operators@);
}

/// Once the shares of a resolved challenge are redeemed, the winner, and nobody
/// else, is paid what the commission leaves of what the vault returned.
pub proof fn redemption_leads_to_the_payment(
    pool: &mut ChallengePool,
    id: U256,
    winner: Address,
    data: Vec<u8>,
    log: &mut EventLog,
    result: Result<Option<Pending>, Vec<u8>>,
    recovered: U256,
    rate: U256,
    split: (U256, U256),
)
    requires
        call_ensures(
            ChallengePool::resume,
            (pool, Step::ConfirmRedeem { challenge_id: id, winner }, Some(data), log),
            result,
        ),
        recovered@ == returned_value(data@),
        rate@ == old(pool).base_commission_rate@,
        call_ensures(resolve_payout, (recovered, rate), split),
    ensures
        nothing_changed(*old(pool), *final(pool), old(log)@, final(log)@),
        result matches Ok(Some(next)) && {
            &&& pays(next.call@, old(pool).usdc@, winner@, split.0@)
            &&& next.step matches Step::ConfirmPay {
                challenge_id,
                winner: paid,
                winner_payout,
                commission,
            }
            &&& challenge_id@ == id@
            &&& paid@ == winner@
            &&& winner_payout@ == split.0@
            &&& commission@ == split.1@
        },
{
    assert(final(pool)@.challenges == final(pool).challenges@);
    assert(final(pool)@.operators == final(pool).operators@);
    assert(final(log)@ =~= old(log)@);
    transfer_data_pays(old(pool).usdc@, winner@, split.0@);
}

/// Once the winner is paid, the result is logged with winner, payout and
/// commission, and the operation is done.
pub proof fn payment_ends_the_result(
    pool: &mut ChallengePool,
    id: U256,
    winner: Address,
    payout: U256,
    commission: U256,
    data: Vec<u8>,
    log: &mut EventLog,
    result: Result<Option<Pending>, Vec<u8>>,
)
    requires
        call_ensures(
            ChallengePool::resume,
            (
                pool,
                Step::ConfirmPay { challenge_id: id, winner, winner_payout: payout, commission },
                Some(data),
                log,
            ),
            result,
        ),
    ensures
        result matches Ok(None),
        same_settings(*old(pool), *final(pool)),
        same_challenges(*old(pool), *final(pool)),
        final(log)@ == old(log)@.push(
            EventView::ChallengeResolved {
                challenge_id: id@,
                winner: winner@,
                total_payout: payout@,
                commission: commission@,
            },
        ),
{
    assert(final(pool)@.challenges == final(pool).challenges@);
    assert(final(pool)@.operators == final(pool).operators@);
}

/// Once the shares of a refunded challenge are redeemed, it keeps the share of
/// each participant in what the vault returned, and the operation is done; no
/// other challenge changes.
pub proof fn redemption_ends_the_refund(
    pool: &mut ChallengePool,
    id: U256,
    count: U256,
    data: Vec<u8>,
    log: &mut EventLog,
    result: Result<Option<Pending>, Vec<u8>>,
    recovered: U256,
    share: U256,
)
    requires
        call_ensures(
            ChallengePool::resume,
            (
                pool,
                Step::RefundRedeem { challenge_id: id, participant_count: count },
                Some(data),
                log,
            ),
            result,
        ),
        recovered@ == returned_value(data@),
        call_ensures(refund_per_participant, (recovered, count), share),
    ensures
        result matches Ok(None),
        same_but_one(*old(pool), *final(pool), id@),
        ({
            let before = old(pool).challenges@[id@];
            let after = final(pool).challenges@[id@];
            &&& same_but_state_and_shares(before, after)
            &&& after.status == before.status
            &&& after.treasury_shares == share@
            &&& final(log)@ == old(log)@.push(
                EventView::ChallengeRefunded {
                    challenge_id: id@,
                    refund_per_participant: share@,
                },
            )
        }),
{
    assert(final(pool)@.challenges == final(pool).challenges@);
    assert(final(pool)@.operators == final(pool).operators@);
}

/// Once a claim is paid, the operation is done.
pub proof fn payment_ends_the_claim(
    pool: &mut ChallengePool,
    data: Vec<u8>,
    log: &mut EventLog,
    result: Result<Option<Pending>, Vec<u8>>,
)
    requires
        call_ensures(ChallengePool::resume, (pool, Step::ClaimPay, Some(data), log), result),
    ensures
        result matches Ok(None),
        nothing_changed(*old(pool), *final(pool), old(log)@, final(log)@),
{
    assert(final(pool)@.challenges == final(pool).challenges@);
    assert(final(pool)@.operators == final(pool).operators@);
    assert(final(log)@ =~= old(log)@);
}

} // verus!
