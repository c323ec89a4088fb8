//! The number that a challenge keeps: the vault shares of its pot, then the share
//! of each participant in a refund. Who writes it, and how long it stays.

use vstd::prelude::*;

use crate::address::Address;
use crate::challenge::ChallengeView;
use crate::contract::{
    claim_recorded, created, deposit_recorded, initialized, refund_recorded, result_recorded,
    resumed_pool, PoolView,
};
use crate::host::StepView;
use crate::laws::lifecycle::{descends, has_terms, step_ok};
use crate::logic::STATE_ABIERTO;

verus! {

/// Whether a challenge that is no longer open, and has not changed its state,
/// keeps its number: the vault shares while it stays locked, the share of each
/// participant while it stays refunded.
pub open spec fn keeps_shares(before: ChallengeView, after: ChallengeView) -> bool {
    before.status != STATE_ABIERTO && after.status == before.status ==> after.treasury_shares
        == before.treasury_shares
}

/// No operation writes the number of any challenge before its call is answered.
pub proof fn operations_leave_shares(
    pool: PoolView,
    sender: Seq<u8>,
    id: nat,
    winner: Seq<u8>,
    other: nat,
)
    ensures
        ({
            let kept = pool.challenges[other].treasury_shares;
            &&& deposit_recorded(pool, sender, id).challenges[other].treasury_shares == kept
            &&& result_recorded(pool, id, winner).challenges[other].treasury_shares == kept
            &&& refund_recorded(pool, id).challenges[other].treasury_shares == kept
            &&& claim_recorded(pool, sender, id).challenges[other].treasury_shares == kept
        }),
{
}

/// Initializing the pool and creating a challenge write the number of no
/// challenge.
pub proof fn setting_up_leaves_shares(
    pool: PoolView,
    sender: Seq<u8>,
    vault: Seq<u8>,
    usdc: Seq<u8>,
    rate: nat,
    required_deposit: nat,
    deadline: nat,
    list: Seq<Address>,
    other: nat,
)
    ensures
        initialized(pool, sender, vault, usdc, rate).challenges[other] == pool.challenges[other],
        created(
            pool,
            sender,
            required_deposit,
            deadline,
            list,
        ).challenges[other].treasury_shares == pool.challenges[other].treasury_shares,
{
}

/// Of the operations that go on, the redemption of a refund alone writes the
/// number of a challenge that is no longer open, and of no other challenge than
/// the one refunded.
pub proof fn resumed_steps_leave_shares(
    pool: PoolView,
    step: StepView,
    data: Seq<u8>,
    other: nat,
)
    requires
        step_ok(pool, step),
        step matches StepView::RefundRedeem { challenge_id, .. } ==> challenge_id != other,
        pool.challenges[other].status != STATE_ABIERTO,
    ensures
        resumed_pool(pool, step, data).challenges[other].treasury_shares
            == pool.challenges[other].treasury_shares,
{
}

/// What is kept at first and kept afterwards is kept all along.
pub proof fn kept_shares_stay(first: ChallengeView, second: ChallengeView, third: ChallengeView)
    requires
        has_terms(first),
        descends(first, second),
        descends(second, third),
        keeps_shares(first, second),
        keeps_shares(second, third),
    ensures
        keeps_shares(first, third),
{
}

} // verus!
