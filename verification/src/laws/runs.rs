//! What operations do in a row: what each of them allows, rules out and pays.

use vstd::arithmetic::div_mod::lemma_small_mod;
use vstd::prelude::*;
use vstd::set_lib::{lemma_len_subset, lemma_subset_equality};

use crate::abi::{approve_data, returned_value, transfer_data, vault_deposit_data};
use crate::address::{listed, zero_address, Address};
use crate::challenge::{blank_challenge, ChallengeView};
use crate::contract::{
    add_operator_refusal, claim_recorded, claim_refusal, create_refusal, created, deposit_pending,
    deposit_recorded, init_refusal, initialized, operator_refusal, owner_refusal,
    pool_confirm_refusal, pool_deposit_refusal, pool_refund_refusal, redeem_call, refund_recorded,
    result_recorded, resumed_events, resumed_pending, resumed_pool, set_treasury_vault_refusal,
    PoolView,
};
use crate::host::{CallView, EventView, StepView};
use crate::laws::amounts::{payout_and_commission_make_up_recovered, refunds_fit_in_recovered};
use crate::laws::lifecycle::{challenge_ok, descends, has_terms, pool_descends, pool_ok};
use crate::laws::messages::{
    approve_data_approves, approves, pulls, puts_in, redeem_shares_data_redeems, redeems,
    transfer_from_data_pulls, vault_deposit_data_puts_in,
};
use crate::logic::{
    commission_amount, payout_amount, refund_share, MAX_DEPOSIT_WEI, STATE_ABIERTO, STATE_BLOQUEADO,
    STATE_REEMBOLSADO, STATE_RESUELTO,
};
use crate::word::modulus;

verus! {

/// The challenge that a pending operation is about, where it still writes to
/// one.
pub open spec fn step_challenge(step: StepView) -> Option<nat> {
    match step {
        StepView::DepositPull { challenge_id, .. } => Some(challenge_id),
        StepView::DepositApprove { challenge_id, .. } => Some(challenge_id),
        StepView::DepositVault { challenge_id } => Some(challenge_id),
        StepView::ConfirmRedeem { challenge_id, .. } => Some(challenge_id),
        StepView::ConfirmPay { challenge_id, .. } => Some(challenge_id),
        StepView::RefundRedeem { challenge_id, .. } => Some(challenge_id),
        StepView::ClaimPay => None,
    }
}

/// Whether `after` has the challenge `other`, and all that is not a challenge,
/// from `before`.
pub open spec fn keeps_the_rest(before: PoolView, after: PoolView, other: nat) -> bool {
    &&& after.challenges[other] == before.challenges[other]
    &&& after == (PoolView { challenges: after.challenges, ..before })
}

/// The initializer works once: after a proper account has used it, it refuses
/// everybody, also after any number of operations.
pub proof fn init_happens_once(
    pool: PoolView,
    sender: Seq<u8>,
    vault: Seq<u8>,
    usdc: Seq<u8>,
    rate: nat,
    later: PoolView,
)
    requires
        sender != zero_address(),
        pool_descends(initialized(pool, sender, vault, usdc, rate), later),
    ensures
        init_refusal(initialized(pool, sender, vault, usdc, rate)) == Some("inited"@),
        init_refusal(later) == Some("inited"@),
        later.owner == sender,
        later.usdc == usdc,
{
}

/// Whoever initializes the pool is its owner.
pub proof fn initializer_becomes_owner(
    pool: PoolView,
    sender: Seq<u8>,
    vault: Seq<u8>,
    usdc: Seq<u8>,
    rate: nat,
)
    ensures
        owner_refusal(initialized(pool, sender, vault, usdc, rate), sender) is None,
{
}

/// Nobody but the owner administrates the pool.
pub proof fn only_the_owner_administrates(
    pool: PoolView,
    sender: Seq<u8>,
    operator: Seq<u8>,
    vault: Seq<u8>,
)
    requires
        sender != pool.owner,
    ensures
        owner_refusal(pool, sender) == Some("not_owner"@),
        add_operator_refusal(pool, sender, operator) == Some("not_owner"@),
        set_treasury_vault_refusal(pool, sender, vault) == Some("not_owner"@),
{
}

/// Nobody but an operator relays a result.
pub proof fn only_operators_confirm(
    pool: PoolView,
    sender: Seq<u8>,
    id: nat,
    winner: Seq<u8>,
)
    requires
        !pool.operators.contains(sender),
    ensures
        pool_confirm_refusal(pool, sender, id, winner) == Some("no_op"@),
{
}

/// An added operator may relay results, a removed one may not, and neither
/// change concerns anybody else.
pub proof fn operators_are_those_added(pool: PoolView, operator: Seq<u8>, other: Seq<u8>)
    requires
        other != operator,
    ensures
        ({
            let added = PoolView { operators: pool.operators.insert(operator), ..pool };
            let removed = PoolView { operators: pool.operators.remove(operator), ..pool };
            &&& operator_refusal(added, operator) is None
            &&& operator_refusal(removed, operator) == Some("no_op"@)
            &&& operator_refusal(added, other) == operator_refusal(pool, other)
            &&& operator_refusal(removed, other) == operator_refusal(pool, other)
        }),
{
}

/// A new challenge gets an identifier that nobody used, and leaves every other
/// challenge alone.
pub proof fn created_challenge_is_new(
    pool: PoolView,
    sender: Seq<u8>,
    required_deposit: nat,
    deadline: nat,
    list: Seq<Address>,
    other: nat,
)
    requires
        pool_ok(pool),
    ensures
        pool.challenges[pool.next_challenge_id] == blank_challenge(),
        other != pool.next_challenge_id ==> created(
            pool,
            sender,
            required_deposit,
            deadline,
            list,
        ).challenges[other] == pool.challenges[other],
{
}

/// An operation on one challenge leaves all others, and everything else in the
/// pool, as they were.
pub proof fn other_challenges_are_untouched(
    pool: PoolView,
    sender: Seq<u8>,
    id: nat,
    winner: Seq<u8>,
    step: StepView,
    data: Seq<u8>,
    other: nat,
)
    requires
        other != id,
        step_challenge(step) matches Some(stepped) ==> stepped == id,
    ensures
        keeps_the_rest(pool, deposit_recorded(pool, sender, id), other),
        keeps_the_rest(pool, result_recorded(pool, id, winner), other),
        keeps_the_rest(pool, refund_recorded(pool, id), other),
        keeps_the_rest(pool, claim_recorded(pool, sender, id), other),
        keeps_the_rest(pool, resumed_pool(pool, step, data), other),
{
}

/// Everybody on the list of a new challenge may deposit into it, and nobody
/// else may.
pub proof fn listed_participants_may_deposit(
    pool: PoolView,
    sender: Seq<u8>,
    required_deposit: nat,
    deadline: nat,
    list: Seq<Address>,
    depositor: Seq<u8>,
)
    requires
        pool_ok(pool),
        create_refusal(required_deposit, list) is None,
    ensures
        ({
            let after = created(pool, sender, required_deposit, deadline, list);
            let id = pool.next_challenge_id;
            pool_deposit_refusal(after, depositor, id) == if listed(list).contains(depositor) {
                None::<Seq<char>>
            } else {
                Some("nopart"@)
            }
        }),
{
    assert(pool.challenges[pool.next_challenge_id] == blank_challenge());
}

/// In an open challenge, a participant who has not deposited is always let in:
/// the amount is never the reason for a refusal.
pub proof fn open_challenge_takes_missing_deposits(pool: PoolView, sender: Seq<u8>, id: nat)
    requires
        pool_ok(pool),
        pool.challenges[id].status == STATE_ABIERTO,
        pool.challenges[id].participants.contains(sender),
        !pool.challenges[id].has_deposited.contains(sender),
    ensures
        pool_deposit_refusal(pool, sender, id) is None,
{
    assert(pool.challenges[id] != blank_challenge());
    assert(has_terms(pool.challenges[id]));
}

/// Nobody deposits twice: a recorded deposit has the next one refused, also
/// while the transfer is still being made, and after any number of operations.
pub proof fn deposit_happens_once(pool: PoolView, sender: Seq<u8>, id: nat, later: PoolView)
    requires
        pool_ok(pool),
        pool_deposit_refusal(pool, sender, id) is None,
        descends(deposit_recorded(pool, sender, id).challenges[id], later.challenges[id]),
    ensures
        pool_deposit_refusal(deposit_recorded(pool, sender, id), sender, id) == Some(
            "deposited"@,
        ),
        pool_deposit_refusal(later, sender, id) == if later.challenges[id].status
            == STATE_ABIERTO {
            Some("deposited"@)
        } else {
            Some("notopen"@)
        },
{
    assert(has_terms(pool.challenges[id])) by {
        assert(pool.challenges[id] != blank_challenge());
    }
    assert(deposit_recorded(pool, sender, id).challenges[id].has_deposited.contains(sender));
}

/// Nobody claims twice: a recorded claim has the next one refused, also while
/// the transfer is still being made, and after any number of operations.
pub proof fn claim_happens_once(pool: PoolView, sender: Seq<u8>, id: nat, later: PoolView)
    requires
        pool_ok(pool),
        claim_refusal(pool, sender, id) is None,
        descends(claim_recorded(pool, sender, id).challenges[id], later.challenges[id]),
    ensures
        claim_refusal(claim_recorded(pool, sender, id), sender, id) == Some("claimed"@),
        claim_refusal(later, sender, id) == Some("claimed"@),
{
    assert(has_terms(pool.challenges[id])) by {
        assert(pool.challenges[id] != blank_challenge());
    }
    assert(claim_recorded(pool, sender, id).challenges[id].claimed_refund.contains(sender));
}

/// A challenge is settled once: a recorded result, or a recorded refund, rules
/// out every further deposit, result and refund, also while the pot is still
/// being redeemed, and after any number of operations.
pub proof fn challenge_is_settled_once(
    settled: ChallengeView,
    later: PoolView,
    sender: Seq<u8>,
    id: nat,
    winner: Seq<u8>,
    now: nat,
)
    requires
        has_terms(settled),
        settled.status == STATE_RESUELTO || settled.status == STATE_REEMBOLSADO,
        descends(settled, later.challenges[id]),
    ensures
        later.challenges[id].status == settled.status,
        settled.status == STATE_RESUELTO ==> later.challenges[id].winner == settled.winner,
        pool_deposit_refusal(later, sender, id) == Some("notopen"@),
        pool_confirm_refusal(later, sender, id, winner) == if later.operators.contains(sender) {
            Some("notlocked"@)
        } else {
            Some("no_op"@)
        },
        pool_refund_refusal(later, id, now) == Some("notlocked"@),
        settled.status == STATE_RESUELTO ==> claim_refusal(later, sender, id) == Some("noref"@),
{
}

/// A result is recorded for a participant alone, by an operator, on a locked
/// challenge; then the challenge counts as resolved for that winner.
pub proof fn result_names_a_participant(
    pool: PoolView,
    sender: Seq<u8>,
    id: nat,
    winner: Seq<u8>,
)
    requires
        pool_confirm_refusal(pool, sender, id, winner) is None,
    ensures
        pool.operators.contains(sender),
        pool.challenges[id].status == STATE_BLOQUEADO,
        pool.challenges[id].participants.contains(winner),
        winner != zero_address(),
        result_recorded(pool, id, winner).challenges[id].status == STATE_RESUELTO,
        result_recorded(pool, id, winner).challenges[id].winner == winner,
{
}

/// A refund needs a locked challenge whose deadline has passed, and nothing
/// else.
pub proof fn refund_waits_for_the_deadline(pool: PoolView, id: nat, now: nat)
    ensures
        pool_refund_refusal(pool, id, now) is None <==> pool.challenges[id].status
            == STATE_BLOQUEADO && now > pool.challenges[id].deadline,
{
}

/// Once a challenge is no longer open, every participant has deposited, and the
/// participants are as many as were counted.
pub proof fn locked_challenge_is_fully_funded(challenge: ChallengeView)
    requires
        challenge_ok(challenge),
        challenge.status != STATE_ABIERTO,
    ensures
        challenge.has_deposited == challenge.participants,
        challenge.participants.len() == challenge.participant_count,
{
    lemma_len_subset(challenge.has_deposited, challenge.participants);
    lemma_subset_equality(challenge.has_deposited, challenge.participants);
}

/// A challenge whose list named somebody twice stays open for good: there are
/// fewer participants than were counted.
pub proof fn repeated_participant_keeps_it_open(challenge: ChallengeView)
    requires
        challenge_ok(challenge),
        challenge.participants.len() < challenge.participant_count,
    ensures
        challenge.status == STATE_ABIERTO,
{
    if challenge.status != STATE_ABIERTO {
        locked_challenge_is_fully_funded(challenge);
    }
}

/// A deposit that is not the last one ends with the transfer, and the challenge
/// stays open.
pub proof fn earlier_deposit_leaves_it_open(
    pool: PoolView,
    sender: Seq<u8>,
    this: Seq<u8>,
    id: nat,
    pulled: Seq<u8>,
)
    requires
        pool_ok(pool),
        pool_deposit_refusal(pool, sender, id) is None,
        pool.challenges[id].deposited_count + 1 < pool.challenges[id].participant_count,
    ensures
        ({
            let recorded = deposit_recorded(pool, sender, id);
            let step = deposit_pending(pool, sender, this, id).step;
            &&& resumed_pending(recorded, step, pulled) is None
            &&& resumed_pool(recorded, step, pulled) == recorded
            &&& recorded.challenges[id].status == STATE_ABIERTO
        }),
{
    assert(challenge_ok(pool.challenges[id]));
    lemma_small_mod((pool.challenges[id].deposited_count + 1) as nat, modulus());
}

/// The last deposit locks the challenge: after the transfer the whole pot is
/// approved to the vault and deposited there, and the challenge keeps the
/// shares that the vault answers with. The pot is the sum of all deposits.
pub proof fn last_deposit_locks_the_pot(
    pool: PoolView,
    sender: Seq<u8>,
    this: Seq<u8>,
    id: nat,
    pulled: Seq<u8>,
    approved: Seq<u8>,
    minted: Seq<u8>,
)
    requires
        pool_ok(pool),
        pool_deposit_refusal(pool, sender, id) is None,
        pool.challenges[id].deposited_count + 1 == pool.challenges[id].participant_count,
    ensures
        ({
            let recorded = deposit_recorded(pool, sender, id);
            let challenge = recorded.challenges[id];
            let pot = challenge.required_deposit * challenge.has_deposited.len();
            let pull = deposit_pending(pool, sender, this, id).step;
            let approve = StepView::DepositApprove { challenge_id: id, total: pot };
            let vault = StepView::DepositVault { challenge_id: id };
            let locked = resumed_pool(recorded, vault, minted);
            // the transfer leads to the approval of the pot,
            &&& resumed_pending(recorded, pull, pulled) matches Some(next)
            &&& next.step == approve
            &&& next.call == (CallView {
                to: pool.usdc,
                data: approve_data(pool.treasury_vault, pot),
            })
            &&& resumed_pool(recorded, pull, pulled) == recorded
            // the approval to the deposit of the pot,
            &&& resumed_pending(recorded, approve, approved) matches Some(last)
            &&& last.step == vault
            &&& last.call == (CallView {
                to: pool.treasury_vault,
                data: vault_deposit_data(pot),
            })
            &&& resumed_pool(recorded, approve, approved) == recorded
            // and that locks the challenge.
            &&& resumed_pending(recorded, vault, minted) is None
            &&& locked.challenges[id] == (ChallengeView {
                status: STATE_BLOQUEADO,
                treasury_shares: returned_value(minted),
                ..challenge
            })
            &&& challenge.has_deposited == challenge.participants
        }),
{
    let before = pool.challenges[id];
    let recorded = deposit_recorded(pool, sender, id);
    let challenge = recorded.challenges[id];
    assert(challenge_ok(before));
    assert(has_terms(before)) by {
        assert(before != blank_challenge());
    }
    lemma_small_mod((before.deposited_count + 1) as nat, modulus());
    lemma_len_subset(before.has_deposited, before.participants);
    lemma_len_subset(challenge.has_deposited, challenge.participants);
    lemma_subset_equality(challenge.has_deposited, challenge.participants);
    let count = challenge.participant_count;
    let required = challenge.required_deposit;
    assert(required * count < modulus()) by (nonlinear_arith)
        requires
            required <= 10_000_000_000_000_000_000nat,
            count <= 0xffff_ffff_ffff_ffffnat,
    ;
    lemma_small_mod(required * count, modulus());
}

/// A result, once its two calls are answered, has paid the winner the recovered
/// pot less the commission, and nobody else; at a rate of at most 100 % the two
/// amounts are together what was recovered.
pub proof fn winner_is_paid_the_pot(
    pool: PoolView,
    sender: Seq<u8>,
    id: nat,
    winner: Seq<u8>,
    redeemed: Seq<u8>,
    paid: Seq<u8>,
)
    requires
        pool_confirm_refusal(pool, sender, id, winner) is None,
    ensures
        ({
            let recorded = result_recorded(pool, id, winner);
            let recovered = returned_value(redeemed);
            let payout = payout_amount(recovered, pool.base_commission_rate);
            let commission = commission_amount(recovered, pool.base_commission_rate);
            let redeem = StepView::ConfirmRedeem { challenge_id: id, winner };
            let pay = StepView::ConfirmPay {
                challenge_id: id,
                winner,
                winner_payout: payout,
                commission,
            };
            &&& resumed_pending(recorded, redeem, redeemed) matches Some(next)
            &&& next.step == pay
            &&& next.call == (CallView { to: pool.usdc, data: transfer_data(winner, payout) })
            &&& resumed_pool(recorded, redeem, redeemed) == recorded
            &&& resumed_pending(recorded, pay, paid) is None
            &&& resumed_pool(recorded, pay, paid) == recorded
            &&& resumed_events(pay, paid) == seq![
                EventView::ChallengeResolved {
                    challenge_id: id,
                    winner,
                    total_payout: payout,
                    commission,
                },
            ]
            &&& pool.base_commission_rate <= 10_000 ==> payout + commission == recovered
        }),
{
    if pool.base_commission_rate <= 10_000 {
        payout_and_commission_make_up_recovered(
            returned_value(redeemed),
            pool.base_commission_rate,
        );
    }
}

/// A refund, once the pot is redeemed, leaves every participant, and nobody
/// else, an equal share to claim, without commission.
pub proof fn refund_offers_equal_shares(
    pool: PoolView,
    id: nat,
    now: nat,
    redeemed: Seq<u8>,
    claimant: Seq<u8>,
)
    requires
        pool_ok(pool),
        pool_refund_refusal(pool, id, now) is None,
    ensures
        ({
            let recorded = refund_recorded(pool, id);
            let count = pool.challenges[id].participant_count;
            let step = StepView::RefundRedeem { challenge_id: id, participant_count: count };
            let refunded = resumed_pool(recorded, step, redeemed);
            let takes_part = pool.challenges[id].participants.contains(claimant);
            &&& resumed_pending(recorded, step, redeemed) is None
            &&& refunded.challenges[id].treasury_shares == returned_value(redeemed) / count
            &&& claim_refusal(refunded, claimant, id) == if takes_part {
                None::<Seq<char>>
            } else {
                Some("nopart"@)
            }
        }),
{
    assert(challenge_ok(pool.challenges[id]));
    assert(has_terms(pool.challenges[id])) by {
        assert(pool.challenges[id] != blank_challenge());
    }
}

/// The share that a refunded challenge keeps, paid to everybody who has claimed
/// one, never adds up to more than was recovered; once all participants have
/// claimed, less than one unit for each of them is left.
pub proof fn claims_fit_in_recovered(challenge: ChallengeView, recovered: nat)
    requires
        challenge_ok(challenge),
        challenge.status == STATE_REEMBOLSADO,
        challenge.treasury_shares == refund_share(recovered, challenge.participant_count),
    ensures
        challenge.treasury_shares * challenge.claimed_refund.len() <= recovered,
        challenge.claimed_refund == challenge.participants && challenge.participant_count > 0
            ==> recovered - challenge.treasury_shares * challenge.claimed_refund.len()
            < challenge.participant_count,
{
    locked_challenge_is_fully_funded(challenge);
    lemma_len_subset(challenge.claimed_refund, challenge.participants);
    refunds_fit_in_recovered(recovered, challenge.participant_count);
    let share = challenge.treasury_shares;
    let claims = challenge.claimed_refund.len();
    let count = challenge.participant_count;
    assert(share * claims <= share * count) by (nonlinear_arith)
        requires
            claims <= count,
    ;
}

/// A result is accepted exactly from an operator, for a locked challenge and a
/// winner who takes part in it and is not the zero address, whoever else that
/// winner may be.
pub proof fn every_participant_may_win(
    pool: PoolView,
    sender: Seq<u8>,
    id: nat,
    winner: Seq<u8>,
)
    ensures
        pool_confirm_refusal(pool, sender, id, winner) is None <==> pool.operators.contains(sender)
            && pool.challenges[id].status == STATE_BLOQUEADO && winner != zero_address()
            && pool.challenges[id].participants.contains(winner),
{
}

/// A deposit is accepted exactly from a participant of an open challenge who has
/// not deposited, where the deposit is within the cap.
pub proof fn every_participant_may_deposit(pool: PoolView, sender: Seq<u8>, id: nat)
    ensures
        pool_deposit_refusal(pool, sender, id) is None <==> pool.challenges[id].status
            == STATE_ABIERTO && pool.challenges[id].participants.contains(sender)
            && !pool.challenges[id].has_deposited.contains(sender)
            && pool.challenges[id].required_deposit <= MAX_DEPOSIT_WEI,
{
}

/// A claim is accepted exactly from a participant of a refunded challenge who has
/// not claimed.
pub proof fn every_participant_may_claim(pool: PoolView, sender: Seq<u8>, id: nat)
    ensures
        claim_refusal(pool, sender, id) is None <==> pool.challenges[id].status
            == STATE_REEMBOLSADO && pool.challenges[id].participants.contains(sender)
            && !pool.challenges[id].claimed_refund.contains(sender),
{
}

/// A deposit uses up the deposit of the sender and of nobody else: to everybody
/// else the challenge answers as before.
pub proof fn deposit_counts_for_the_depositor(
    pool: PoolView,
    sender: Seq<u8>,
    id: nat,
    other: Seq<u8>,
)
    requires
        other != sender,
    ensures
        ({
            let after = deposit_recorded(pool, sender, id);
            &&& after.challenges[id].has_deposited.contains(sender)
            &&& after.challenges[id].has_deposited.contains(other)
                == pool.challenges[id].has_deposited.contains(other)
            &&& pool_deposit_refusal(after, other, id) == pool_deposit_refusal(pool, other, id)
        }),
{
}

/// A claim uses up the claim of the claimant and of nobody else: to everybody
/// else the challenge answers as before, and offers the same share.
pub proof fn claim_counts_for_the_claimant(
    pool: PoolView,
    sender: Seq<u8>,
    id: nat,
    other: Seq<u8>,
)
    requires
        other != sender,
    ensures
        ({
            let after = claim_recorded(pool, sender, id);
            &&& after.challenges[id].claimed_refund.contains(sender)
            &&& after.challenges[id].claimed_refund.contains(other)
                == pool.challenges[id].claimed_refund.contains(other)
            &&& claim_refusal(after, other, id) == claim_refusal(pool, other, id)
            &&& after.challenges[id].treasury_shares == pool.challenges[id].treasury_shares
        }),
{
}

/// Each deposit pulls exactly the required deposit from the depositor to the
/// pool, and the last one sends to the vault as many of these amounts as there
/// are depositors: what was pulled is what is put in.
pub proof fn pulled_deposits_make_up_the_pot(
    pool: PoolView,
    sender: Seq<u8>,
    this: Seq<u8>,
    id: nat,
    amount: nat,
    pulled: Seq<u8>,
    approved: Seq<u8>,
)
    requires
        pool_ok(pool),
        pool_deposit_refusal(pool, sender, id) is None,
        sender.len() == 20,
        this.len() == 20,
        pool.treasury_vault.len() == 20,
        amount == pool.challenges[id].required_deposit,
    ensures
        pulls(deposit_pending(pool, sender, this, id).call, pool.usdc, sender, this, amount),
        pool.challenges[id].deposited_count + 1 == pool.challenges[id].participant_count ==> {
            let recorded = deposit_recorded(pool, sender, id);
            let depositors = recorded.challenges[id].has_deposited;
            let pull = deposit_pending(pool, sender, this, id).step;
            &&& depositors == recorded.challenges[id].participants
            &&& resumed_pending(recorded, pull, pulled) matches Some(next)
            &&& approves(next.call, pool.usdc, pool.treasury_vault, amount * depositors.len())
            &&& resumed_pending(recorded, next.step, approved) matches Some(last)
            &&& puts_in(last.call, pool.treasury_vault, amount * depositors.len())
        },
{
    let challenge = pool.challenges[id];
    assert(challenge_ok(challenge));
    transfer_from_data_pulls(pool.usdc, sender, this, amount);
    if challenge.deposited_count + 1 == challenge.participant_count {
        last_deposit_locks_the_pot(pool, sender, this, id, pulled, approved, Seq::empty());
        let recorded = deposit_recorded(pool, sender, id);
        let pot = amount * recorded.challenges[id].has_deposited.len();
        let count = challenge.participant_count;
        lemma_len_subset(challenge.has_deposited, challenge.participants);
        assert(amount * count < modulus()) by (nonlinear_arith)
            requires
                amount <= 10_000_000_000_000_000_000nat,
                count <= 0xffff_ffff_ffff_ffffnat,
        ;
        approve_data_approves(pool.usdc, pool.treasury_vault, pot);
        vault_deposit_data_puts_in(pool.treasury_vault, pot);
    }
}

/// A redemption asks the vault for the shares of its own challenge, to the pool.
pub proof fn redemption_asks_for_own_shares(pool: PoolView, this: Seq<u8>, id: nat)
    requires
        this.len() == 20,
        pool.challenges[id].treasury_shares < modulus(),
    ensures
        redeems(
            redeem_call(pool, this, id),
            pool.treasury_vault,
            pool.challenges[id].treasury_shares,
            this,
        ),
{
    redeem_shares_data_redeems(pool.treasury_vault, pool.challenges[id].treasury_shares, this);
}

/// The redemption of one challenge does not depend on any other challenge.
pub proof fn redemption_depends_on_no_other_challenge(
    pool: PoolView,
    other_pool: PoolView,
    this: Seq<u8>,
    id: nat,
)
    requires
        other_pool.challenges[id] == pool.challenges[id],
        other_pool.treasury_vault == pool.treasury_vault,
    ensures
        redeem_call(other_pool, this, id) == redeem_call(pool, this, id),
{
}

/// A new challenge has the terms that its creator asked for, and keeps them:
/// after any number of operations the deposit pulled is the one asked for, and
/// no refund is made until the deadline asked for has passed.
pub proof fn created_challenge_keeps_its_terms(
    pool: PoolView,
    sender: Seq<u8>,
    required_deposit: nat,
    deadline: nat,
    list: Seq<Address>,
    later: PoolView,
    now: nat,
)
    requires
        create_refusal(required_deposit, list) is None,
        descends(
            created(pool, sender, required_deposit, deadline, list).challenges[
                pool.next_challenge_id
            ],
            later.challenges[pool.next_challenge_id],
        ),
    ensures
        ({
            let id = pool.next_challenge_id;
            let challenge = later.challenges[id];
            &&& 0 < required_deposit <= MAX_DEPOSIT_WEI
            &&& challenge.creator == sender
            &&& challenge.required_deposit == required_deposit
            &&& challenge.deadline == deadline
            &&& challenge.participant_count == list.len() > 0
            &&& now <= deadline ==> pool_refund_refusal(later, id, now) is Some
            &&& now <= deadline && challenge.status == STATE_BLOQUEADO ==> pool_refund_refusal(
                later,
                id,
                now,
            ) == Some("nodln"@)
        }),
{
}

} // verus!
