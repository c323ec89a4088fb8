//! A challenge is open exactly while a deposit is missing. The last deposit is
//! recorded before the pot is in the vault, so the challenges that are just
//! being locked are an exception until that operation is done.

use vstd::arithmetic::div_mod::lemma_small_mod;
use vstd::prelude::*;
use vstd::set_lib::lemma_len_subset;

use crate::address::Address;
use crate::challenge::{blank_challenge, ChallengeView};
use crate::contract::{
    blank_pool, claim_recorded, claim_refusal, create_refusal, created, deposit_pending,
    deposit_recorded, initialized, pool_confirm_refusal, pool_deposit_refusal, pool_refund_refusal,
    refund_recorded, result_recorded, resumed_pending, resumed_pool, PoolView,
};
use crate::host::StepView;
use crate::laws::interleaving::locking;
use crate::laws::lifecycle::{blank_pool_is_ok, challenge_ok, pool_ok, step_ok};
use crate::logic::STATE_ABIERTO;
use crate::word::modulus;

verus! {

/// Whether a challenge is open exactly while a deposit is missing.
pub open spec fn open_while_missing(challenge: ChallengeView) -> bool {
    challenge.status == STATE_ABIERTO <==> challenge.deposited_count < challenge.participant_count
}

/// Whether every created challenge is open exactly while a deposit is missing,
/// but for those that are being locked.
pub open spec fn funded_except(pool: PoolView, being_locked: Set<nat>) -> bool {
    forall|id: nat|
        id < pool.next_challenge_id && !being_locked.contains(id) ==> open_while_missing(
            #[trigger] pool.challenges[id],
        )
}

/// The challenges that one more pending operation, if there is one, goes on to
/// lock, together with those of `others`.
pub open spec fn and_locked_by(others: Set<nat>, step: Option<StepView>) -> Set<nat> {
    match step {
        Some(waiting) => match locking(waiting) {
            Some(id) => others.insert(id),
            None => others,
        },
        None => others,
    }
}

/// The step of what an operation waits for next.
pub open spec fn resumed_step(pool: PoolView, step: StepView, data: Seq<u8>) -> Option<StepView> {
    match resumed_pending(pool, step, data) {
        Some(next) => Some(next.step),
        None => None,
    }
}

/// What holds of every pool while no operation is pending: the invariant, and
/// every created challenge is open exactly while a deposit is missing.
pub open spec fn at_rest(pool: PoolView) -> bool {
    &&& pool_ok(pool)
    &&& funded_except(pool, Set::empty())
}

/// A pool that nobody has initialized is at rest.
pub proof fn blank_pool_is_at_rest()
    ensures
        at_rest(blank_pool()),
{
    blank_pool_is_ok();
}

/// Initializing and administrating the pool leaves open what was open.
pub proof fn administration_keeps_funding(
    pool: PoolView,
    being_locked: Set<nat>,
    sender: Seq<u8>,
    vault: Seq<u8>,
    usdc: Seq<u8>,
    rate: nat,
    operator: Seq<u8>,
)
    requires
        funded_except(pool, being_locked),
    ensures
        funded_except(initialized(pool, sender, vault, usdc, rate), being_locked),
        funded_except(
            PoolView { operators: pool.operators.insert(operator), ..pool },
            being_locked,
        ),
        funded_except(
            PoolView { operators: pool.operators.remove(operator), ..pool },
            being_locked,
        ),
        funded_except(PoolView { base_commission_rate: rate, ..pool }, being_locked),
        funded_except(PoolView { treasury_vault: vault, ..pool }, being_locked),
{
}

/// A new challenge is open, and all its deposits are missing.
pub proof fn create_keeps_funding(
    pool: PoolView,
    being_locked: Set<nat>,
    sender: Seq<u8>,
    required_deposit: nat,
    deadline: nat,
    list: Seq<Address>,
)
    requires
        funded_except(pool, being_locked),
        pool.next_challenge_id + 1 < modulus(),
        create_refusal(required_deposit, list) is None,
    ensures
        funded_except(created(pool, sender, required_deposit, deadline, list), being_locked),
{
    let after = created(pool, sender, required_deposit, deadline, list);
    lemma_small_mod((pool.next_challenge_id + 1) as nat, modulus());
    assert forall|id: nat|
        id < after.next_challenge_id && !being_locked.contains(id) implies open_while_missing(
        #[trigger] after.challenges[id],
    ) by {
        if id != pool.next_challenge_id {
            assert(open_while_missing(pool.challenges[id]));
        }
    }
}

/// A recorded deposit leaves the challenge open while others are missing; the
/// last one goes on to lock it.
pub proof fn deposit_keeps_funding(
    pool: PoolView,
    being_locked: Set<nat>,
    sender: Seq<u8>,
    this: Seq<u8>,
    id: nat,
)
    requires
        pool_ok(pool),
        funded_except(pool, being_locked),
        pool_deposit_refusal(pool, sender, id) is None,
    ensures
        funded_except(
            deposit_recorded(pool, sender, id),
            and_locked_by(being_locked, Some(deposit_pending(pool, sender, this, id).step)),
        ),
{
    let before = pool.challenges[id];
    let after = deposit_recorded(pool, sender, id);
    assert(challenge_ok(before));
    assert(before != blank_challenge());
    lemma_len_subset(before.has_deposited, before.participants);
    lemma_small_mod((before.deposited_count + 1) as nat, modulus());
    let locked = and_locked_by(
        being_locked,
        Some(deposit_pending(pool, sender, this, id).step),
    );
    assert forall|other: nat|
        other < after.next_challenge_id && !locked.contains(other) implies open_while_missing(
        #[trigger] after.challenges[other],
    ) by {
        assert(open_while_missing(pool.challenges[other]));
    }
}

/// A result, a refund and a claim concern challenges that are no longer open,
/// and add no deposit.
pub proof fn settling_keeps_funding(
    pool: PoolView,
    being_locked: Set<nat>,
    sender: Seq<u8>,
    id: nat,
    winner: Seq<u8>,
    now: nat,
)
    requires
        funded_except(pool, being_locked),
    ensures
        pool_confirm_refusal(pool, sender, id, winner) is None ==> funded_except(
            result_recorded(pool, id, winner),
            being_locked,
        ),
        pool_refund_refusal(pool, id, now) is None ==> funded_except(
            refund_recorded(pool, id),
            being_locked,
        ),
        claim_refusal(pool, sender, id) is None ==> funded_except(
            claim_recorded(pool, sender, id),
            being_locked,
        ),
{
}

/// An operation that goes on is on its way to locking the same challenge as
/// before, or it is done and the challenge is locked. Either way every other
/// challenge is open exactly while a deposit is missing.
pub proof fn resume_keeps_funding(
    pool: PoolView,
    others: Set<nat>,
    step: StepView,
    data: Seq<u8>,
)
    requires
        pool_ok(pool),
        step_ok(pool, step),
        funded_except(pool, and_locked_by(others, Some(step))),
    ensures
        funded_except(
            resumed_pool(pool, step, data),
            and_locked_by(others, resumed_step(pool, step, data)),
        ),
{
    let after = resumed_pool(pool, step, data);
    let before_locked = and_locked_by(others, Some(step));
    let locked = and_locked_by(others, resumed_step(pool, step, data));
    assert forall|other: nat|
        other < after.next_challenge_id && !locked.contains(other) implies open_while_missing(
        #[trigger] after.challenges[other],
    ) by {
        if !before_locked.contains(other) {
            assert(open_while_missing(pool.challenges[other]));
        }
    }
}

} // verus!
