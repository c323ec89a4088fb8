//! The invariant of a pool, how its challenges may evolve, and that every
//! operation keeps both.

use vstd::arithmetic::div_mod::lemma_small_mod;
use vstd::prelude::*;
use vstd::seq_lib::seq_to_set_is_finite;
use vstd::set_lib::lemma_len_subset;

use crate::address::{listed, zero_address, Address};
use crate::challenge::{blank_challenge, ChallengeView};
use crate::contract::{
    blank_pool, claim_recorded, claim_refusal, create_refusal, created, deposit_pending,
    deposit_recorded, init_refusal, initialized, opened, pool_confirm_refusal,
    pool_deposit_refusal, pool_refund_refusal, refund_recorded, result_recorded, resumed_pending,
    resumed_pool, PoolView,
};
use crate::host::StepView;
use crate::logic::{
    MAX_DEPOSIT_WEI, STATE_ABIERTO, STATE_BLOQUEADO, STATE_REEMBOLSADO, STATE_RESUELTO,
};
use crate::word::modulus;

verus! {

/// What holds of every challenge between operations.
pub open spec fn challenge_ok(challenge: ChallengeView) -> bool {
    // Only participants deposit and claim, and the deposits are counted.
    &&& challenge.participants.finite()
    &&& challenge.has_deposited.subset_of(challenge.participants)
    &&& challenge.claimed_refund.subset_of(challenge.participants)
    &&& challenge.deposited_count == challenge.has_deposited.len()
    &&& challenge.participants.len() <= challenge.participant_count <= u64::MAX
    // There are four states. Whoever is past the open one is fully funded.
    &&& challenge.status <= STATE_REEMBOLSADO
    &&& challenge.status != STATE_ABIERTO ==> challenge.deposited_count
        == challenge.participant_count
    // A resolved challenge, and no other, has a winner, who takes part.
    &&& challenge.status == STATE_RESUELTO ==> challenge.participants.contains(challenge.winner)
        && challenge.winner != zero_address()
    &&& challenge.status != STATE_RESUELTO ==> challenge.winner == zero_address()
    // Refunds are claimed from refunded challenges alone.
    &&& challenge.status != STATE_REEMBOLSADO ==> challenge.claimed_refund == Set::<
        Seq<u8>,
    >::empty()
}

/// What holds of a challenge once it is created: it has participants and asks
/// for a deposit within the cap.
pub open spec fn has_terms(challenge: ChallengeView) -> bool {
    &&& 0 < challenge.required_deposit <= MAX_DEPOSIT_WEI
    &&& 0 < challenge.participant_count
}

/// What holds of every pool between operations: its challenges are sound; those
/// created have their terms, the others are blank.
pub open spec fn pool_ok(pool: PoolView) -> bool {
    &&& pool.next_challenge_id < modulus()
    &&& forall|id: nat| challenge_ok(#[trigger] pool.challenges[id])
    &&& forall|id: nat|
        id < pool.next_challenge_id ==> has_terms(#[trigger] pool.challenges[id])
    &&& forall|id: nat|
        id >= pool.next_challenge_id ==> #[trigger] pool.challenges[id] == blank_challenge()
}

/// What a pending operation relies on while its call is being made. Others may
/// deposit meanwhile, so a deposit relies on no more than that its own is
/// counted; the last one, which goes on to lock the challenge, relies on the
/// challenge staying open.
pub open spec fn step_ok(pool: PoolView, step: StepView) -> bool {
    match step {
        StepView::DepositPull {
            challenge_id,
            required_deposit,
            new_deposited,
            participant_count,
            usdc,
        } => {
            let challenge = pool.challenges[challenge_id];
            &&& challenge_id < pool.next_challenge_id
            &&& challenge.required_deposit == required_deposit
            &&& challenge.participant_count == participant_count
            &&& new_deposited <= challenge.deposited_count
            &&& new_deposited == participant_count ==> challenge.status == STATE_ABIERTO
        },
        StepView::DepositApprove { challenge_id, total } => {
            let challenge = pool.challenges[challenge_id];
            &&& challenge_id < pool.next_challenge_id
            &&& challenge.status == STATE_ABIERTO
            &&& challenge.deposited_count == challenge.participant_count
            &&& total == challenge.required_deposit * challenge.participant_count
        },
        StepView::DepositVault { challenge_id } => {
            let challenge = pool.challenges[challenge_id];
            &&& challenge_id < pool.next_challenge_id
            &&& challenge.status == STATE_ABIERTO
            &&& challenge.deposited_count == challenge.participant_count
        },
        StepView::ConfirmRedeem { challenge_id, winner } => {
            let challenge = pool.challenges[challenge_id];
            challenge.status == STATE_RESUELTO && challenge.winner == winner
        },
        StepView::ConfirmPay { challenge_id, winner, winner_payout, commission } => {
            let challenge = pool.challenges[challenge_id];
            challenge.status == STATE_RESUELTO && challenge.winner == winner
        },
        StepView::RefundRedeem { challenge_id, participant_count } => {
            let challenge = pool.challenges[challenge_id];
            &&& challenge_id < pool.next_challenge_id
            &&& challenge.status == STATE_REEMBOLSADO
            &&& challenge.participant_count == participant_count
        },
        StepView::ClaimPay => true,
    }
}

/// The states that may come after a state: open, then locked, then resolved or
/// refunded, with no way back and no way out of the last two.
pub open spec fn may_follow(before: u8, after: u8) -> bool {
    ||| after == before
    ||| before == STATE_ABIERTO && after == STATE_BLOQUEADO
    ||| before == STATE_BLOQUEADO && (after == STATE_RESUELTO || after == STATE_REEMBOLSADO)
}

/// How a challenge may change: its terms stay as they were created, deposits
/// and claims are only added, the state moves forward, and a winner stays.
pub open spec fn evolves(before: ChallengeView, after: ChallengeView) -> bool {
    ||| before == blank_challenge() && after.status == STATE_ABIERTO
    ||| {
        &&& after.creator == before.creator
        &&& after.required_deposit == before.required_deposit
        &&& after.deadline == before.deadline
        &&& after.participant_count == before.participant_count
        &&& after.participants == before.participants
        &&& before.has_deposited.subset_of(after.has_deposited)
        &&& before.claimed_refund.subset_of(after.claimed_refund)
        &&& may_follow(before.status, after.status)
        &&& before.status == STATE_RESUELTO ==> after.winner == before.winner
    }
}

/// The states that may come after a state in any number of operations.
pub open spec fn may_reach(before: u8, after: u8) -> bool {
    ||| after == before
    ||| before == STATE_ABIERTO && STATE_BLOQUEADO <= after <= STATE_REEMBOLSADO
    ||| before == STATE_BLOQUEADO && (after == STATE_RESUELTO || after == STATE_REEMBOLSADO)
}

/// How a challenge may change in any number of operations: once it is created,
/// its terms stay, deposits and claims are only added, the state moves forward,
/// and a winner stays.
pub open spec fn descends(before: ChallengeView, after: ChallengeView) -> bool {
    ||| before.required_deposit == 0
    ||| {
        &&& after.creator == before.creator
        &&& after.required_deposit == before.required_deposit
        &&& after.deadline == before.deadline
        &&& after.participant_count == before.participant_count
        &&& after.participants == before.participants
        &&& before.has_deposited.subset_of(after.has_deposited)
        &&& before.claimed_refund.subset_of(after.claimed_refund)
        &&& may_reach(before.status, after.status)
        &&& before.status == STATE_RESUELTO ==> after.winner == before.winner
    }
}

/// One operation leads to a descendant, and descendants of descendants are
/// descendants: what is said of them holds after any number of operations.
pub proof fn operations_descend(first: ChallengeView, second: ChallengeView, third: ChallengeView)
    ensures
        evolves(first, second) ==> descends(first, second),
        descends(first, second) && evolves(second, third) ==> descends(first, third),
        descends(first, second) && descends(second, third) ==> descends(first, third),
{
}

/// How a pool may change: each challenge evolves, identifiers are only added,
/// and an owner and the token stay.
pub open spec fn pool_evolves(before: PoolView, after: PoolView) -> bool {
    &&& forall|id: nat| evolves(#[trigger] before.challenges[id], after.challenges[id])
    &&& before.next_challenge_id <= after.next_challenge_id
    &&& before.owner != zero_address() ==> after.owner == before.owner && after.usdc
        == before.usdc
}

/// How a pool may change in any number of operations: each challenge descends,
/// identifiers are only added, and an owner and the token stay.
pub open spec fn pool_descends(before: PoolView, after: PoolView) -> bool {
    &&& forall|id: nat| descends(#[trigger] before.challenges[id], after.challenges[id])
    &&& before.next_challenge_id <= after.next_challenge_id
    &&& before.owner != zero_address() ==> after.owner == before.owner && after.usdc
        == before.usdc
}

/// A pool is its own descendant, one operation leads to a descendant, and
/// descendants of descendants are descendants.
pub proof fn pools_descend(first: PoolView, second: PoolView, third: PoolView)
    ensures
        pool_descends(first, first),
        pool_evolves(first, second) ==> pool_descends(first, second),
        pool_descends(first, second) && pool_descends(second, third) ==> pool_descends(
            first,
            third,
        ),
{
    if pool_evolves(first, second) {
        assert forall|id: nat| descends(#[trigger] first.challenges[id], second.challenges[id]) by {
            operations_descend(first.challenges[id], second.challenges[id], third.challenges[id]);
        }
    }
    if pool_descends(first, second) && pool_descends(second, third) {
        assert forall|id: nat| descends(#[trigger] first.challenges[id], third.challenges[id]) by {
            assert(descends(second.challenges[id], third.challenges[id]));
            operations_descend(first.challenges[id], second.challenges[id], third.challenges[id]);
        }
    }
}

/// A pool that nobody has initialized satisfies the invariant.
pub proof fn blank_pool_is_ok()
    ensures
        pool_ok(blank_pool()),
{
    assert(blank_challenge().claimed_refund =~= Set::empty());
}

/// Initializing and administrating a pool keeps the invariant and touches no
/// challenge.
pub proof fn administration_keeps_invariant(
    pool: PoolView,
    sender: Seq<u8>,
    vault: Seq<u8>,
    usdc: Seq<u8>,
    rate: nat,
    operator: Seq<u8>,
)
    requires
        pool_ok(pool),
    ensures
        pool_ok(initialized(pool, sender, vault, usdc, rate)),
        init_refusal(pool) is None ==> pool_evolves(
            pool,
            initialized(pool, sender, vault, usdc, rate),
        ),
        ({
            let added = PoolView { operators: pool.operators.insert(operator), ..pool };
            pool_ok(added) && pool_evolves(pool, added)
        }),
        ({
            let removed = PoolView { operators: pool.operators.remove(operator), ..pool };
            pool_ok(removed) && pool_evolves(pool, removed)
        }),
        ({
            let rated = PoolView { base_commission_rate: rate, ..pool };
            pool_ok(rated) && pool_evolves(pool, rated)
        }),
        ({
            let moved = PoolView { treasury_vault: vault, ..pool };
            pool_ok(moved) && pool_evolves(pool, moved)
        }),
{
}

/// Creating a challenge keeps the invariant, unless the identifiers are used
/// up.
pub proof fn create_keeps_invariant(
    pool: PoolView,
    sender: Seq<u8>,
    required_deposit: nat,
    deadline: nat,
    list: Seq<Address>,
)
    requires
        pool_ok(pool),
        pool.next_challenge_id + 1 < modulus(),
        list.len() <= u64::MAX,
        create_refusal(required_deposit, list) is None,
    ensures
        pool_ok(created(pool, sender, required_deposit, deadline, list)),
        pool_evolves(pool, created(pool, sender, required_deposit, deadline, list)),
{
    let id = pool.next_challenge_id;
    let after = created(pool, sender, required_deposit, deadline, list);
    let before = pool.challenges[id];
    assert(before == blank_challenge());
    lemma_small_mod((id + 1) as nat, modulus());
    let challenge = opened(before, sender, required_deposit, deadline, list);
    let views = list.map_values(|address: Address| address@);
    seq_to_set_is_finite(views);
    views.lemma_cardinality_of_set();
    assert(challenge.participants =~= listed(list));
    assert(challenge.has_deposited =~= Set::empty());
    assert(challenge.claimed_refund =~= Set::empty());
    assert(challenge_ok(challenge));
    assert forall|other: nat| challenge_ok(#[trigger] after.challenges[other]) by {
        assert(challenge_ok(pool.challenges[other]));
    }
    assert forall|other: nat|
        other >= after.next_challenge_id implies #[trigger] after.challenges[other]
        == blank_challenge() by {
        assert(pool.challenges[other] == blank_challenge());
    }
}

/// Recording a deposit keeps the invariant, and the pending transfer relies on
/// what is the case.
pub proof fn deposit_keeps_invariant(pool: PoolView, sender: Seq<u8>, this: Seq<u8>, id: nat)
    requires
        pool_ok(pool),
        pool_deposit_refusal(pool, sender, id) is None,
    ensures
        pool_ok(deposit_recorded(pool, sender, id)),
        pool_evolves(pool, deposit_recorded(pool, sender, id)),
        step_ok(
            deposit_recorded(pool, sender, id),
            deposit_pending(pool, sender, this, id).step,
        ),
{
    let before = pool.challenges[id];
    let after = deposit_recorded(pool, sender, id);
    let challenge = after.challenges[id];
    assert(challenge_ok(before));
    assert(before != blank_challenge());
    assert(id < pool.next_challenge_id);
    lemma_len_subset(before.has_deposited, before.participants);
    lemma_len_subset(challenge.has_deposited, challenge.participants);
    lemma_small_mod((before.deposited_count + 1) as nat, modulus());
    assert(challenge_ok(challenge));
    assert forall|other: nat| challenge_ok(#[trigger] after.challenges[other]) by {
        assert(challenge_ok(pool.challenges[other]));
    }
    assert forall|other: nat|
        other >= after.next_challenge_id implies #[trigger] after.challenges[other]
        == blank_challenge() by {
        assert(pool.challenges[other] == blank_challenge());
    }
}

/// Recording a result keeps the invariant, and the pending redemption relies on
/// what is the case.
pub proof fn confirm_keeps_invariant(pool: PoolView, sender: Seq<u8>, id: nat, winner: Seq<u8>)
    requires
        pool_ok(pool),
        pool_confirm_refusal(pool, sender, id, winner) is None,
    ensures
        pool_ok(result_recorded(pool, id, winner)),
        pool_evolves(pool, result_recorded(pool, id, winner)),
        step_ok(
            result_recorded(pool, id, winner),
            StepView::ConfirmRedeem { challenge_id: id, winner },
        ),
{
    let before = pool.challenges[id];
    let after = result_recorded(pool, id, winner);
    assert(challenge_ok(before));
    assert(before != blank_challenge());
    assert forall|other: nat| challenge_ok(#[trigger] after.challenges[other]) by {
        assert(challenge_ok(pool.challenges[other]));
    }
    assert forall|other: nat|
        other >= after.next_challenge_id implies #[trigger] after.challenges[other]
        == blank_challenge() by {
        assert(pool.challenges[other] == blank_challenge());
    }
}

/// Recording a refund keeps the invariant, and the pending redemption relies on
/// what is the case.
pub proof fn refund_keeps_invariant(pool: PoolView, id: nat, now: nat)
    requires
        pool_ok(pool),
        pool_refund_refusal(pool, id, now) is None,
    ensures
        pool_ok(refund_recorded(pool, id)),
        pool_evolves(pool, refund_recorded(pool, id)),
        step_ok(
            refund_recorded(pool, id),
            StepView::RefundRedeem {
                challenge_id: id,
                participant_count: pool.challenges[id].participant_count,
            },
        ),
{
    let before = pool.challenges[id];
    let after = refund_recorded(pool, id);
    assert(challenge_ok(before));
    assert(before != blank_challenge());
    assert(id < pool.next_challenge_id);
    assert forall|other: nat| challenge_ok(#[trigger] after.challenges[other]) by {
        assert(challenge_ok(pool.challenges[other]));
    }
    assert forall|other: nat|
        other >= after.next_challenge_id implies #[trigger] after.challenges[other]
        == blank_challenge() by {
        assert(pool.challenges[other] == blank_challenge());
    }
}

/// Recording a claim keeps the invariant.
pub proof fn claim_keeps_invariant(pool: PoolView, sender: Seq<u8>, id: nat)
    requires
        pool_ok(pool),
        claim_refusal(pool, sender, id) is None,
    ensures
        pool_ok(claim_recorded(pool, sender, id)),
        pool_evolves(pool, claim_recorded(pool, sender, id)),
        step_ok(claim_recorded(pool, sender, id), StepView::ClaimPay),
{
    let before = pool.challenges[id];
    let after = claim_recorded(pool, sender, id);
    assert(challenge_ok(before));
    assert(before != blank_challenge());
    assert forall|other: nat| challenge_ok(#[trigger] after.challenges[other]) by {
        assert(challenge_ok(pool.challenges[other]));
    }
    assert forall|other: nat|
        other >= after.next_challenge_id implies #[trigger] after.challenges[other]
        == blank_challenge() by {
        assert(pool.challenges[other] == blank_challenge());
    }
}

/// Going on after an answered call keeps the invariant, whatever the answer,
/// and leaves the next pending call relying on what is the case.
pub proof fn resume_keeps_invariant(pool: PoolView, step: StepView, data: Seq<u8>)
    requires
        pool_ok(pool),
        step_ok(pool, step),
    ensures
        pool_ok(resumed_pool(pool, step, data)),
        pool_evolves(pool, resumed_pool(pool, step, data)),
        resumed_pending(pool, step, data) matches Some(next) ==> step_ok(
            resumed_pool(pool, step, data),
            next.step,
        ),
{
    let after = resumed_pool(pool, step, data);
    match step {
        StepView::DepositPull {
            challenge_id,
            required_deposit,
            new_deposited,
            participant_count,
            usdc,
        } => {
            let challenge = pool.challenges[challenge_id];
            assert(challenge_ok(challenge));
            lemma_len_subset(challenge.has_deposited, challenge.participants);
            assert(required_deposit * participant_count < modulus()) by (nonlinear_arith)
                requires
                    required_deposit <= 10_000_000_000_000_000_000nat,
                    participant_count <= 0xffff_ffff_ffff_ffffnat,
            ;
            lemma_small_mod(required_deposit * participant_count, modulus());
        },
        StepView::DepositVault { challenge_id } => {
            assert(challenge_ok(pool.challenges[challenge_id]));
        },
        StepView::RefundRedeem { challenge_id, participant_count } => {
            assert(challenge_ok(pool.challenges[challenge_id]));
        },
        _ => {},
    }
    assert forall|other: nat| challenge_ok(#[trigger] after.challenges[other]) by {
        assert(challenge_ok(pool.challenges[other]));
    }
    assert forall|other: nat|
        other >= after.next_challenge_id implies #[trigger] after.challenges[other]
        == blank_challenge() by {
        assert(pool.challenges[other] == blank_challenge());
    }
}

} // verus!
