//! What happens while a call is being made: the contract that is called may call
//! the pool again, so that other operations run before the pending one goes on.
//! They leave it what it relies on.

use vstd::prelude::*;
use vstd::set_lib::{lemma_len_subset, lemma_subset_equality};

use crate::address::Address;
use crate::challenge::blank_challenge;
use crate::contract::{
    claim_recorded, claim_refusal, create_refusal, created, deposit_pending, deposit_recorded,
    init_refusal, initialized, pool_confirm_refusal, pool_deposit_refusal, pool_refund_refusal,
    refund_recorded, result_recorded, resumed_pending, resumed_pool, PoolView,
};
use crate::host::StepView;
use crate::laws::lifecycle::{
    challenge_ok, claim_keeps_invariant, confirm_keeps_invariant, create_keeps_invariant,
    deposit_keeps_invariant, pool_evolves, pool_ok, refund_keeps_invariant, resume_keeps_invariant,
    step_ok,
};
use crate::word::modulus;

verus! {

/// The challenge that a pending operation goes on to lock, if it does.
pub open spec fn locking(step: StepView) -> Option<nat> {
    match step {
        StepView::DepositPull { challenge_id, new_deposited, participant_count, .. } => {
            if new_deposited == participant_count {
                Some(challenge_id)
            } else {
                None
            }
        },
        StepView::DepositApprove { challenge_id, .. } => Some(challenge_id),
        StepView::DepositVault { challenge_id } => Some(challenge_id),
        _ => None,
    }
}

/// Whether two operations may be pending at once: they do not lock the same
/// challenge.
pub open spec fn compatible(step: StepView, other: StepView) -> bool {
    locking(step) is Some ==> locking(other) != locking(step)
}

/// As long as the challenge that it goes on to lock keeps its state, a pending
/// operation can rely after any change of the pool on what it relied on before.
proof fn lemma_step_stays_ok(before: PoolView, after: PoolView, step: StepView)
    requires
        pool_ok(before),
        pool_ok(after),
        pool_evolves(before, after),
        step_ok(before, step),
        locking(step) matches Some(id) ==> after.challenges[id].status
            == before.challenges[id].status,
    ensures
        step_ok(after, step),
{
    let id = match step {
        StepView::DepositPull { challenge_id, .. } => challenge_id,
        StepView::DepositApprove { challenge_id, .. } => challenge_id,
        StepView::DepositVault { challenge_id } => challenge_id,
        StepView::ConfirmRedeem { challenge_id, .. } => challenge_id,
        StepView::ConfirmPay { challenge_id, .. } => challenge_id,
        StepView::RefundRedeem { challenge_id, .. } => challenge_id,
        StepView::ClaimPay => 0,
    };
    let old_challenge = before.challenges[id];
    let new_challenge = after.challenges[id];
    assert(challenge_ok(old_challenge) && challenge_ok(new_challenge));
    if step !is ClaimPay {
        assert(old_challenge != blank_challenge());
        lemma_len_subset(new_challenge.has_deposited, new_challenge.participants);
        lemma_len_subset(old_challenge.has_deposited, new_challenge.has_deposited);
    }
}

/// While an operation is pending, the pool may be initialized and administrated.
pub proof fn administration_leaves_pending_alone(
    pool: PoolView,
    step: StepView,
    sender: Seq<u8>,
    vault: Seq<u8>,
    usdc: Seq<u8>,
    rate: nat,
    operator: Seq<u8>,
)
    requires
        pool_ok(pool),
        step_ok(pool, step),
    ensures
        init_refusal(pool) is None ==> step_ok(
            initialized(pool, sender, vault, usdc, rate),
            step,
        ),
        step_ok(PoolView { operators: pool.operators.insert(operator), ..pool }, step),
        step_ok(PoolView { operators: pool.operators.remove(operator), ..pool }, step),
        step_ok(PoolView { base_commission_rate: rate, ..pool }, step),
        step_ok(PoolView { treasury_vault: vault, ..pool }, step),
{
}

/// While an operation is pending, challenges may be created, unless the
/// identifiers are used up.
pub proof fn create_leaves_pending_alone(
    pool: PoolView,
    step: StepView,
    sender: Seq<u8>,
    required_deposit: nat,
    deadline: nat,
    list: Seq<Address>,
)
    requires
        pool_ok(pool),
        step_ok(pool, step),
        pool.next_challenge_id + 1 < modulus(),
        list.len() <= u64::MAX,
        create_refusal(required_deposit, list) is None,
    ensures
        step_ok(created(pool, sender, required_deposit, deadline, list), step),
{
    create_keeps_invariant(pool, sender, required_deposit, deadline, list);
    lemma_step_stays_ok(pool, created(pool, sender, required_deposit, deadline, list), step);
}

/// While an operation is pending, others may deposit: it stays what it was, no
/// deposit goes to a challenge that is being locked, and so no two operations
/// lock the same one.
pub proof fn deposit_leaves_pending_alone(
    pool: PoolView,
    step: StepView,
    sender: Seq<u8>,
    this: Seq<u8>,
    id: nat,
)
    requires
        pool_ok(pool),
        step_ok(pool, step),
        pool_deposit_refusal(pool, sender, id) is None,
    ensures
        step_ok(deposit_recorded(pool, sender, id), step),
        locking(step) != Some(id),
        compatible(step, deposit_pending(pool, sender, this, id).step),
{
    deposit_keeps_invariant(pool, sender, this, id);
    lemma_step_stays_ok(pool, deposit_recorded(pool, sender, id), step);
    if locking(step) == Some(id) {
        let challenge = pool.challenges[id];
        assert(challenge_ok(challenge));
        lemma_len_subset(challenge.has_deposited, challenge.participants);
        lemma_subset_equality(challenge.has_deposited, challenge.participants);
        assert(challenge.has_deposited.contains(sender));
    }
}

/// While an operation is pending, results may be relayed: it stays what it was,
/// and a challenge that is being locked is not resolved before it is locked.
pub proof fn confirm_leaves_pending_alone(
    pool: PoolView,
    step: StepView,
    sender: Seq<u8>,
    id: nat,
    winner: Seq<u8>,
)
    requires
        pool_ok(pool),
        step_ok(pool, step),
        pool_confirm_refusal(pool, sender, id, winner) is None,
    ensures
        step_ok(result_recorded(pool, id, winner), step),
        locking(step) != Some(id),
        compatible(step, StepView::ConfirmRedeem { challenge_id: id, winner }),
{
    confirm_keeps_invariant(pool, sender, id, winner);
    lemma_step_stays_ok(pool, result_recorded(pool, id, winner), step);
}

/// While an operation is pending, challenges may be refunded: it stays what it
/// was, and a challenge that is being locked is not refunded before it is
/// locked.
pub proof fn refund_leaves_pending_alone(pool: PoolView, step: StepView, id: nat, now: nat)
    requires
        pool_ok(pool),
        step_ok(pool, step),
        pool_refund_refusal(pool, id, now) is None,
    ensures
        step_ok(refund_recorded(pool, id), step),
        locking(step) != Some(id),
        compatible(
            step,
            StepView::RefundRedeem {
                challenge_id: id,
                participant_count: pool.challenges[id].participant_count,
            },
        ),
{
    refund_keeps_invariant(pool, id, now);
    lemma_step_stays_ok(pool, refund_recorded(pool, id), step);
}

/// While an operation is pending, refunds may be claimed.
pub proof fn claim_leaves_pending_alone(
    pool: PoolView,
    step: StepView,
    sender: Seq<u8>,
    id: nat,
)
    requires
        pool_ok(pool),
        step_ok(pool, step),
        claim_refusal(pool, sender, id) is None,
    ensures
        step_ok(claim_recorded(pool, sender, id), step),
        compatible(step, StepView::ClaimPay),
{
    claim_keeps_invariant(pool, sender, id);
    lemma_step_stays_ok(pool, claim_recorded(pool, sender, id), step);
}

/// While an operation is pending, one that does not lock the same challenge may
/// go on: the pending one stays what it was, and the two stay compatible.
pub proof fn resume_leaves_pending_alone(
    pool: PoolView,
    step: StepView,
    other: StepView,
    data: Seq<u8>,
)
    requires
        pool_ok(pool),
        step_ok(pool, step),
        step_ok(pool, other),
        compatible(step, other),
    ensures
        step_ok(resumed_pool(pool, other, data), step),
        resumed_pending(pool, other, data) matches Some(next) ==> compatible(step, next.step),
{
    resume_keeps_invariant(pool, other, data);
    lemma_step_stays_ok(pool, resumed_pool(pool, other, data), step);
}

} // verus!
