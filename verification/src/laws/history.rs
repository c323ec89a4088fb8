//! Histories of a pool: whole transactions, one after the other. A transaction
//! runs one operation with the answers to its calls; if the operation is refused
//! or a call fails, the pool is left as it was.

use vstd::arithmetic::div_mod::lemma_small_mod;
use vstd::prelude::*;
use vstd::set_lib::lemma_len_subset;

use crate::abi::returned_value;
use crate::address::{lemma_listed_contains, listed, zero_address, Address};
use crate::challenge::blank_challenge;
use crate::contract::{
    add_operator_refusal, blank_pool, claim_recorded, claim_refusal, create_refusal, created,
    deposit_pending, deposit_recorded, init_refusal, initialized, owner_refusal,
    pool_confirm_refusal, pool_deposit_refusal, pool_refund_refusal, redeem_call,
    refund_recorded, result_recorded, resumed_pool, set_treasury_vault_refusal, PoolView,
};
use crate::host::StepView;
use crate::laws::funding::{
    administration_keeps_funding, and_locked_by, at_rest, blank_pool_is_at_rest,
    create_keeps_funding, deposit_keeps_funding, funded_except, open_while_missing,
    resume_keeps_funding, resumed_step, settling_keeps_funding,
};
use crate::laws::lifecycle::{
    administration_keeps_invariant, challenge_ok, claim_keeps_invariant, confirm_keeps_invariant,
    create_keeps_invariant, deposit_keeps_invariant, descends, has_terms, pool_descends, pool_ok,
    pools_descend, refund_keeps_invariant, resume_keeps_invariant, step_ok,
};
use crate::laws::messages::{
    pulls, redeems, returned_value_fits_in_a_word, transfer_from_data_pulls,
};
use crate::laws::runs::{
    claims_fit_in_recovered, earlier_deposit_leaves_it_open, last_deposit_locks_the_pot,
    locked_challenge_is_fully_funded, redemption_asks_for_own_shares,
};
use crate::laws::shares::{keeps_shares, kept_shares_stay};
use crate::logic::{
    MAX_DEPOSIT_WEI, STATE_ABIERTO, STATE_BLOQUEADO, STATE_REEMBOLSADO, STATE_RESUELTO,
};
use crate::word::modulus;

verus! {

/// A transaction: an operation with its arguments and, where it makes calls, the
/// answers to them in order. A call without an answer has failed.
pub enum Transaction {
    Init { sender: Seq<u8>, vault: Seq<u8>, usdc: Seq<u8>, rate: nat },
    AddOperator { sender: Seq<u8>, operator: Seq<u8> },
    RemoveOperator { sender: Seq<u8>, operator: Seq<u8> },
    SetCommissionRate { sender: Seq<u8>, rate: nat },
    SetTreasuryVault { sender: Seq<u8>, vault: Seq<u8> },
    CreateChallenge {
        sender: Seq<u8>,
        required_deposit: nat,
        deadline: nat,
        list: Seq<Address>,
    },
    Deposit { sender: Seq<u8>, this: Seq<u8>, id: nat, replies: Seq<Option<Seq<u8>>> },
    ConfirmResult {
        sender: Seq<u8>,
        id: nat,
        winner: Seq<u8>,
        replies: Seq<Option<Seq<u8>>>,
    },
    Refund { now: nat, id: nat, replies: Seq<Option<Seq<u8>>> },
    ClaimRefund { sender: Seq<u8>, id: nat, replies: Seq<Option<Seq<u8>>> },
}

/// Whether a transaction is within the limits of the machine: a new challenge
/// leaves an identifier for the next one, and its list is no longer than a
/// 64-bit number counts.
pub open spec fn within_limits(pool: PoolView, transaction: Transaction) -> bool {
    match transaction {
        Transaction::CreateChallenge { required_deposit, list, .. } => {
            create_refusal(required_deposit, list) is None ==> {
                &&& pool.next_challenge_id + 1 < modulus()
                &&& list.len() <= u64::MAX
            }
        },
        _ => true,
    }
}

/// Where an operation that began with `start` ends: it stands at `pool`, waits
/// for the call of `step`, if it is not done, and its calls are answered by
/// `replies`. After a failed call it ends where it began.
pub open spec fn finished(
    start: PoolView,
    pool: PoolView,
    step: Option<StepView>,
    replies: Seq<Option<Seq<u8>>>,
) -> PoolView
    decreases replies.len(),
{
    match step {
        None => pool,
        Some(waiting) => if replies.len() == 0 {
            start
        } else {
            match replies[0] {
                None => start,
                Some(data) => finished(
                    start,
                    resumed_pool(pool, waiting, data),
                    resumed_step(pool, waiting, data),
                    replies.drop_first(),
                ),
            }
        },
    }
}

/// The pool after a transaction.
pub open spec fn after(pool: PoolView, transaction: Transaction) -> PoolView {
    match transaction {
        Transaction::Init { sender, vault, usdc, rate } => if init_refusal(pool) is None {
            initialized(pool, sender, vault, usdc, rate)
        } else {
            pool
        },
        Transaction::AddOperator { sender, operator } => if add_operator_refusal(
            pool,
            sender,
            operator,
        ) is None {
            PoolView { operators: pool.operators.insert(operator), ..pool }
        } else {
            pool
        },
        Transaction::RemoveOperator { sender, operator } => if owner_refusal(
            pool,
            sender,
        ) is None {
            PoolView { operators: pool.operators.remove(operator), ..pool }
        } else {
            pool
        },
        Transaction::SetCommissionRate { sender, rate } => if owner_refusal(
            pool,
            sender,
        ) is None {
            PoolView { base_commission_rate: rate, ..pool }
        } else {
            pool
        },
        Transaction::SetTreasuryVault { sender, vault } => if set_treasury_vault_refusal(
            pool,
            sender,
            vault,
        ) is None {
            PoolView { treasury_vault: vault, ..pool }
        } else {
            pool
        },
        Transaction::CreateChallenge { sender, required_deposit, deadline, list } => {
            if create_refusal(required_deposit, list) is None {
                created(pool, sender, required_deposit, deadline, list)
            } else {
                pool
            }
        },
        Transaction::Deposit { sender, this, id, replies } => if pool_deposit_refusal(
            pool,
            sender,
            id,
        ) is None {
            finished(
                pool,
                deposit_recorded(pool, sender, id),
                Some(deposit_pending(pool, sender, this, id).step),
                replies,
            )
        } else {
            pool
        },
        Transaction::ConfirmResult { sender, id, winner, replies } => if pool_confirm_refusal(
            pool,
            sender,
            id,
            winner,
        ) is None {
            finished(
                pool,
                result_recorded(pool, id, winner),
                Some(StepView::ConfirmRedeem { challenge_id: id, winner }),
                replies,
            )
        } else {
            pool
        },
        Transaction::Refund { now, id, replies } => if pool_refund_refusal(pool, id, now) is None {
            finished(
                pool,
                refund_recorded(pool, id),
                Some(
                    StepView::RefundRedeem {
                        challenge_id: id,
                        participant_count: pool.challenges[id].participant_count,
                    },
                ),
                replies,
            )
        } else {
            pool
        },
        Transaction::ClaimRefund { sender, id, replies } => if claim_refusal(
            pool,
            sender,
            id,
        ) is None {
            finished(pool, claim_recorded(pool, sender, id), Some(StepView::ClaimPay), replies)
        } else {
            pool
        },
    }
}

/// The pool after a history of transactions.
pub open spec fn after_all(pool: PoolView, history: Seq<Transaction>) -> PoolView
    decreases history.len(),
{
    if history.len() == 0 {
        pool
    } else {
        after(after_all(pool, history.drop_last()), history.last())
    }
}

/// Whether every transaction of a history is within the limits of the machine.
pub open spec fn history_fits(pool: PoolView, history: Seq<Transaction>) -> bool
    decreases history.len(),
{
    history.len() > 0 ==> {
        &&& history_fits(pool, history.drop_last())
        &&& within_limits(after_all(pool, history.drop_last()), history.last())
    }
}

/// Whether every challenge keeps its number of shares as long as its state stays
/// the same.
pub open spec fn pool_keeps_shares(before: PoolView, after: PoolView) -> bool {
    forall|id: nat| keeps_shares(#[trigger] before.challenges[id], after.challenges[id])
}

/// Whether the challenge whose shares a pending operation may still write, if
/// there is one, was in another state when the operation began.
spec fn may_write_shares(start: PoolView, step: Option<StepView>) -> bool {
    match step {
        Some(StepView::DepositVault { challenge_id }) => start.challenges[challenge_id].status
            == STATE_ABIERTO,
        Some(StepView::DepositApprove { challenge_id, .. }) => start.challenges[challenge_id].status
            == STATE_ABIERTO,
        Some(StepView::DepositPull { challenge_id, .. }) => start.challenges[challenge_id].status
            == STATE_ABIERTO,
        Some(StepView::RefundRedeem { challenge_id, .. }) => start.challenges[challenge_id].status
            != STATE_REEMBOLSADO,
        _ => true,
    }
}

/// An operation that stands well ends well.
proof fn lemma_finished(
    start: PoolView,
    pool: PoolView,
    step: Option<StepView>,
    replies: Seq<Option<Seq<u8>>>,
)
    requires
        at_rest(start),
        pool_ok(pool),
        step matches Some(waiting) ==> step_ok(pool, waiting),
        funded_except(pool, and_locked_by(Set::empty(), step)),
        pool_descends(start, pool),
        pool_keeps_shares(start, pool),
        may_write_shares(start, step),
    ensures
        at_rest(finished(start, pool, step, replies)),
        pool_descends(start, finished(start, pool, step, replies)),
        pool_keeps_shares(start, finished(start, pool, step, replies)),
    decreases replies.len(),
{
    pools_descend(start, start, start);
    if let Some(waiting) = step {
        if replies.len() > 0 && replies[0] is Some {
            let data = replies[0]->0;
            let next = resumed_pool(pool, waiting, data);
            resume_keeps_invariant(pool, waiting, data);
            resume_keeps_funding(pool, Set::empty(), waiting, data);
            pools_descend(pool, next, next);
            pools_descend(start, pool, next);
            assert forall|id: nat| keeps_shares(
                #[trigger] start.challenges[id],
                next.challenges[id],
            ) by {
                assert(keeps_shares(start.challenges[id], pool.challenges[id]));
            }
            lemma_finished(
                start,
                next,
                resumed_step(pool, waiting, data),
                replies.drop_first(),
            );
        }
    }
}

/// Every transaction leaves the pool at rest and with descendants of its
/// challenges, which keep their shares while their state stays the same.
pub proof fn transaction_leaves_pool_at_rest(pool: PoolView, transaction: Transaction)
    requires
        at_rest(pool),
        within_limits(pool, transaction),
    ensures
        at_rest(after(pool, transaction)),
        pool_descends(pool, after(pool, transaction)),
        pool_keeps_shares(pool, after(pool, transaction)),
{
    let end = after(pool, transaction);
    pools_descend(pool, pool, pool);
    match transaction {
        Transaction::Init { sender, vault, usdc, rate } => {
            administration_keeps_invariant(pool, sender, vault, usdc, rate, sender);
            administration_keeps_funding(pool, Set::empty(), sender, vault, usdc, rate, sender);
            pools_descend(pool, end, end);
        },
        Transaction::AddOperator { sender, operator } => {
            administration_keeps_invariant(pool, sender, sender, sender, 0, operator);
            administration_keeps_funding(pool, Set::empty(), sender, sender, sender, 0, operator);
            pools_descend(pool, end, end);
        },
        Transaction::RemoveOperator { sender, operator } => {
            administration_keeps_invariant(pool, sender, sender, sender, 0, operator);
            administration_keeps_funding(pool, Set::empty(), sender, sender, sender, 0, operator);
            pools_descend(pool, end, end);
        },
        Transaction::SetCommissionRate { sender, rate } => {
            administration_keeps_invariant(pool, sender, sender, sender, rate, sender);
            administration_keeps_funding(pool, Set::empty(), sender, sender, sender, rate, sender);
            pools_descend(pool, end, end);
        },
        Transaction::SetTreasuryVault { sender, vault } => {
            administration_keeps_invariant(pool, sender, vault, sender, 0, sender);
            administration_keeps_funding(pool, Set::empty(), sender, vault, sender, 0, sender);
            pools_descend(pool, end, end);
        },
        Transaction::CreateChallenge { sender, required_deposit, deadline, list } => {
            if create_refusal(required_deposit, list) is None {
                lemma_small_mod((pool.next_challenge_id + 1) as nat, modulus());
                create_keeps_invariant(pool, sender, required_deposit, deadline, list);
                create_keeps_funding(
                    pool,
                    Set::empty(),
                    sender,
                    required_deposit,
                    deadline,
                    list,
                );
                pools_descend(pool, end, end);
            }
        },
        Transaction::Deposit { sender, this, id, replies } => {
            if pool_deposit_refusal(pool, sender, id) is None {
                let recorded = deposit_recorded(pool, sender, id);
                let step = deposit_pending(pool, sender, this, id).step;
                deposit_keeps_invariant(pool, sender, this, id);
                deposit_keeps_funding(pool, Set::empty(), sender, this, id);
                pools_descend(pool, recorded, recorded);
                lemma_finished(pool, recorded, Some(step), replies);
            }
        },
        Transaction::ConfirmResult { sender, id, winner, replies } => {
            if pool_confirm_refusal(pool, sender, id, winner) is None {
                let recorded = result_recorded(pool, id, winner);
                let step = StepView::ConfirmRedeem { challenge_id: id, winner };
                confirm_keeps_invariant(pool, sender, id, winner);
                settling_keeps_funding(pool, Set::empty(), sender, id, winner, 0);
                pools_descend(pool, recorded, recorded);
                lemma_finished(pool, recorded, Some(step), replies);
            }
        },
        Transaction::Refund { now, id, replies } => {
            if pool_refund_refusal(pool, id, now) is None {
                let recorded = refund_recorded(pool, id);
                let step = StepView::RefundRedeem {
                    challenge_id: id,
                    participant_count: pool.challenges[id].participant_count,
                };
                refund_keeps_invariant(pool, id, now);
                settling_keeps_funding(
                    pool,
                    Set::empty(),
                    zero_address(),
                    id,
                    zero_address(),
                    now,
                );
                pools_descend(pool, recorded, recorded);
                lemma_finished(pool, recorded, Some(step), replies);
            }
        },
        Transaction::ClaimRefund { sender, id, replies } => {
            if claim_refusal(pool, sender, id) is None {
                let recorded = claim_recorded(pool, sender, id);
                claim_keeps_invariant(pool, sender, id);
                settling_keeps_funding(pool, Set::empty(), sender, id, sender, 0);
                pools_descend(pool, recorded, recorded);
                lemma_finished(pool, recorded, Some(StepView::ClaimPay), replies);
            }
        },
    }
}

/// Every history leaves the pool at rest and with descendants of its challenges,
/// which keep their shares while their state stays the same.
pub proof fn history_leaves_pool_at_rest(pool: PoolView, history: Seq<Transaction>)
    requires
        at_rest(pool),
        history_fits(pool, history),
    ensures
        at_rest(after_all(pool, history)),
        pool_descends(pool, after_all(pool, history)),
        pool_keeps_shares(pool, after_all(pool, history)),
    decreases history.len(),
{
    pools_descend(pool, pool, pool);
    if history.len() > 0 {
        let earlier = history.drop_last();
        let middle = after_all(pool, earlier);
        let end = after_all(pool, history);
        history_leaves_pool_at_rest(pool, earlier);
        transaction_leaves_pool_at_rest(middle, history.last());
        pools_descend(pool, middle, end);
        assert forall|id: nat| keeps_shares(#[trigger] pool.challenges[id], end.challenges[id]) by {
            assert(keeps_shares(pool.challenges[id], middle.challenges[id]));
            assert(keeps_shares(middle.challenges[id], end.challenges[id]));
            if pool.challenges[id].status != STATE_ABIERTO {
                assert(pool.challenges[id] != blank_challenge());
                kept_shares_stay(pool.challenges[id], middle.challenges[id], end.challenges[id]);
            }
        }
    }
}

/// In every pool that comes about by transactions, of every challenge that was
/// created: the deposits are counted and come from participants, there are no
/// more of them than participants, the challenge is open exactly while one is
/// missing, and the deposit is within the cap.
pub proof fn reached_challenges_are_sound(history: Seq<Transaction>, id: nat)
    requires
        history_fits(blank_pool(), history),
        id < after_all(blank_pool(), history).next_challenge_id,
    ensures
        ({
            let challenge = after_all(blank_pool(), history).challenges[id];
            &&& challenge.has_deposited.finite()
            &&& challenge.deposited_count == challenge.has_deposited.len()
            &&& challenge.has_deposited.subset_of(challenge.participants)
            &&& challenge.deposited_count <= challenge.participant_count
            &&& challenge.status == STATE_ABIERTO <==> challenge.deposited_count
                < challenge.participant_count
            &&& 0 < challenge.required_deposit <= MAX_DEPOSIT_WEI
        }),
{
    blank_pool_is_at_rest();
    history_leaves_pool_at_rest(blank_pool(), history);
    let challenge = after_all(blank_pool(), history).challenges[id];
    assert(challenge_ok(challenge));
    assert(has_terms(challenge));
    assert(open_while_missing(challenge));
    lemma_len_subset(challenge.has_deposited, challenge.participants);
}

/// An operation that goes on leaves owner and token as they are.
proof fn lemma_finished_keeps_owner(
    start: PoolView,
    pool: PoolView,
    step: Option<StepView>,
    replies: Seq<Option<Seq<u8>>>,
)
    requires
        pool.owner == start.owner,
        pool.usdc == start.usdc,
    ensures
        finished(start, pool, step, replies).owner == start.owner,
        finished(start, pool, step, replies).usdc == start.usdc,
    decreases replies.len(),
{
    if let Some(waiting) = step {
        if replies.len() > 0 && replies[0] is Some {
            let data = replies[0]->0;
            lemma_finished_keeps_owner(
                start,
                resumed_pool(pool, waiting, data),
                resumed_step(pool, waiting, data),
                replies.drop_first(),
            );
        }
    }
}

/// Once a proper account owns the pool, no history changes the owner or the
/// token, and the initializer refuses everybody.
pub proof fn owner_stays(pool: PoolView, history: Seq<Transaction>)
    requires
        pool.owner != zero_address(),
    ensures
        after_all(pool, history).owner == pool.owner,
        after_all(pool, history).usdc == pool.usdc,
        init_refusal(after_all(pool, history)) == Some("inited"@),
    decreases history.len(),
{
    if history.len() > 0 {
        let middle = after_all(pool, history.drop_last());
        owner_stays(pool, history.drop_last());
        match history.last() {
            Transaction::Deposit { sender, this, id, replies } => {
                lemma_finished_keeps_owner(
                    middle,
                    deposit_recorded(middle, sender, id),
                    Some(deposit_pending(middle, sender, this, id).step),
                    replies,
                );
            },
            Transaction::ConfirmResult { sender, id, winner, replies } => {
                lemma_finished_keeps_owner(
                    middle,
                    result_recorded(middle, id, winner),
                    Some(StepView::ConfirmRedeem { challenge_id: id, winner }),
                    replies,
                );
            },
            Transaction::Refund { now, id, replies } => {
                lemma_finished_keeps_owner(
                    middle,
                    refund_recorded(middle, id),
                    Some(
                        StepView::RefundRedeem {
                            challenge_id: id,
                            participant_count: middle.challenges[id].participant_count,
                        },
                    ),
                    replies,
                );
            },
            Transaction::ClaimRefund { sender, id, replies } => {
                lemma_finished_keeps_owner(
                    middle,
                    claim_recorded(middle, sender, id),
                    Some(StepView::ClaimPay),
                    replies,
                );
            },
            _ => {},
        }
    }
}

/// Whoever has deposited is refused another deposit after every history: as
/// having deposited while the challenge is open, and then as it is not open.
pub proof fn depositors_stay_refused(
    pool: PoolView,
    sender: Seq<u8>,
    id: nat,
    history: Seq<Transaction>,
)
    requires
        at_rest(pool),
        history_fits(pool, history),
        pool.challenges[id].has_deposited.contains(sender),
    ensures
        ({
            let later = after_all(pool, history);
            pool_deposit_refusal(later, sender, id) == if later.challenges[id].status
                == STATE_ABIERTO {
                Some("deposited"@)
            } else {
                Some("notopen"@)
            }
        }),
{
    history_leaves_pool_at_rest(pool, history);
    assert(challenge_ok(pool.challenges[id]));
    assert(has_terms(pool.challenges[id])) by {
        assert(pool.challenges[id] != blank_challenge());
    }
}

/// Whoever has claimed a refund is refused another one after every history.
pub proof fn claimants_stay_refused(
    pool: PoolView,
    sender: Seq<u8>,
    id: nat,
    history: Seq<Transaction>,
)
    requires
        at_rest(pool),
        history_fits(pool, history),
        pool.challenges[id].claimed_refund.contains(sender),
    ensures
        claim_refusal(after_all(pool, history), sender, id) == Some("claimed"@),
{
    history_leaves_pool_at_rest(pool, history);
    assert(challenge_ok(pool.challenges[id]));
    assert(has_terms(pool.challenges[id])) by {
        assert(pool.challenges[id] != blank_challenge());
    }
}

/// A resolved or refunded challenge stays so after every history, with the same
/// winner, and takes no deposit, result or refund any more.
pub proof fn settled_challenges_stay_settled(
    pool: PoolView,
    id: nat,
    history: Seq<Transaction>,
    sender: Seq<u8>,
    winner: Seq<u8>,
    now: nat,
)
    requires
        at_rest(pool),
        history_fits(pool, history),
        pool.challenges[id].status == STATE_RESUELTO || pool.challenges[id].status
            == STATE_REEMBOLSADO,
    ensures
        ({
            let later = after_all(pool, history);
            &&& later.challenges[id].status == pool.challenges[id].status
            &&& later.challenges[id].winner == pool.challenges[id].winner
            &&& pool_deposit_refusal(later, sender, id) == Some("notopen"@)
            &&& pool_confirm_refusal(later, sender, id, winner) == if later.operators.contains(
                sender,
            ) {
                Some("notlocked"@)
            } else {
                Some("no_op"@)
            }
            &&& pool_refund_refusal(later, id, now) == Some("notlocked"@)
        }),
{
    history_leaves_pool_at_rest(pool, history);
    assert(challenge_ok(pool.challenges[id]));
    assert(challenge_ok(after_all(pool, history).challenges[id]));
    assert(has_terms(pool.challenges[id])) by {
        assert(pool.challenges[id] != blank_challenge());
    }
}

/// After a refund, and after every history from there on, each participant's
/// share is an equal part of what the vault gave back; the claims paid so far
/// never add up to more, and once all participants have claimed, less than one
/// unit for each of them is left.
pub proof fn refunds_are_paid_from_the_pot(
    pool: PoolView,
    id: nat,
    now: nat,
    redeemed: Seq<u8>,
    history: Seq<Transaction>,
)
    requires
        at_rest(pool),
        pool_refund_refusal(pool, id, now) is None,
        history_fits(
            after(pool, Transaction::Refund { now, id, replies: seq![Some(redeemed)] }),
            history,
        ),
    ensures
        ({
            let refund = Transaction::Refund { now, id, replies: seq![Some(redeemed)] };
            let refunded = after(pool, refund).challenges[id];
            let later = after_all(after(pool, refund), history).challenges[id];
            let recovered = returned_value(redeemed);
            let paid = later.treasury_shares * later.claimed_refund.len();
            &&& refunded.status == STATE_REEMBOLSADO
            &&& refunded.claimed_refund == Set::<Seq<u8>>::empty()
            &&& later.status == STATE_REEMBOLSADO
            &&& later.participants == pool.challenges[id].participants
            &&& later.participant_count == pool.challenges[id].participant_count
            &&& later.treasury_shares == recovered / later.participant_count
            &&& paid <= recovered
            &&& later.claimed_refund == later.participants ==> recovered - paid
                < later.participant_count
        }),
{
    let replies: Seq<Option<Seq<u8>>> = seq![Some(redeemed)];
    let refund = Transaction::Refund { now, id, replies };
    let end = after(pool, refund);
    let count = pool.challenges[id].participant_count;
    let step = StepView::RefundRedeem { challenge_id: id, participant_count: count };
    let recorded = refund_recorded(pool, id);
    assert(challenge_ok(pool.challenges[id]));
    assert(has_terms(pool.challenges[id])) by {
        assert(pool.challenges[id] != blank_challenge());
    }
    assert(end == resumed_pool(recorded, step, redeemed)) by {
        reveal_with_fuel(finished, 2);
        assert(replies[0] == Some(redeemed));
    }
    transaction_leaves_pool_at_rest(pool, refund);
    history_leaves_pool_at_rest(end, history);
    let later = after_all(end, history).challenges[id];
    assert(keeps_shares(end.challenges[id], later));
    assert(challenge_ok(later));
    claims_fit_in_recovered(later, returned_value(redeemed));
}

/// An operation that goes on adds no deposit and no claim: it ends with those
/// that it has recorded, or with those that it began with.
proof fn lemma_finished_adds_nobody(
    start: PoolView,
    pool: PoolView,
    step: Option<StepView>,
    replies: Seq<Option<Seq<u8>>>,
    id: nat,
)
    ensures
        ({
            let end = finished(start, pool, step, replies).challenges[id];
            ||| end == start.challenges[id]
            ||| {
                &&& end.has_deposited == pool.challenges[id].has_deposited
                &&& end.claimed_refund == pool.challenges[id].claimed_refund
            }
        }),
    decreases replies.len(),
{
    if let Some(waiting) = step {
        if replies.len() > 0 && replies[0] is Some {
            let data = replies[0]->0;
            lemma_finished_adds_nobody(
                start,
                resumed_pool(pool, waiting, data),
                resumed_step(pool, waiting, data),
                replies.drop_first(),
                id,
            );
        }
    }
}

/// Whether a transaction is the deposit of `account` into the challenge `id`.
pub open spec fn is_deposit_of(transaction: Transaction, account: Seq<u8>, id: nat) -> bool {
    transaction matches Transaction::Deposit { sender, id: into, .. } && sender == account && into
        == id
}

/// Whether a transaction is the claim of `account` on the challenge `id`.
pub open spec fn is_claim_of(transaction: Transaction, account: Seq<u8>, id: nat) -> bool {
    transaction matches Transaction::ClaimRefund { sender, id: on, .. } && sender == account && on
        == id
}

/// Nobody deposits or claims for somebody else: whether an account counts as
/// having deposited into a challenge, or as having claimed from it, changes by a
/// deposit or a claim of that account on that challenge alone.
pub proof fn only_own_transactions_count(
    pool: PoolView,
    transaction: Transaction,
    account: Seq<u8>,
    id: nat,
)
    requires
        at_rest(pool),
        within_limits(pool, transaction),
    ensures
        ({
            let before = pool.challenges[id];
            let end = after(pool, transaction).challenges[id];
            &&& !is_deposit_of(transaction, account, id) ==> end.has_deposited.contains(account)
                == before.has_deposited.contains(account)
            &&& !is_claim_of(transaction, account, id) ==> end.claimed_refund.contains(account)
                == before.claimed_refund.contains(account)
        }),
{
    match transaction {
        Transaction::CreateChallenge { .. } => {
            assert(pool.challenges[pool.next_challenge_id] == blank_challenge());
        },
        Transaction::Deposit { sender, this, id: into, replies } => {
            lemma_finished_adds_nobody(
                pool,
                deposit_recorded(pool, sender, into),
                Some(deposit_pending(pool, sender, this, into).step),
                replies,
                id,
            );
        },
        Transaction::ConfirmResult { sender, id: of, winner, replies } => {
            lemma_finished_adds_nobody(
                pool,
                result_recorded(pool, of, winner),
                Some(StepView::ConfirmRedeem { challenge_id: of, winner }),
                replies,
                id,
            );
        },
        Transaction::Refund { now, id: of, replies } => {
            lemma_finished_adds_nobody(
                pool,
                refund_recorded(pool, of),
                Some(
                    StepView::RefundRedeem {
                        challenge_id: of,
                        participant_count: pool.challenges[of].participant_count,
                    },
                ),
                replies,
                id,
            );
        },
        Transaction::ClaimRefund { sender, id: on, replies } => {
            lemma_finished_adds_nobody(
                pool,
                claim_recorded(pool, sender, on),
                Some(StepView::ClaimPay),
                replies,
                id,
            );
        },
        _ => {},
    }
}

/// A deposit or claim whose calls are all answered counts for its sender.
pub proof fn answered_transactions_count(
    pool: PoolView,
    sender: Seq<u8>,
    this: Seq<u8>,
    id: nat,
    pulled: Seq<u8>,
    approved: Seq<u8>,
    minted: Seq<u8>,
    paid: Seq<u8>,
)
    requires
        at_rest(pool),
    ensures
        pool_deposit_refusal(pool, sender, id) is None ==> after(
            pool,
            Transaction::Deposit {
                sender,
                this,
                id,
                replies: seq![Some(pulled), Some(approved), Some(minted)],
            },
        ).challenges[id].has_deposited.contains(sender),
        claim_refusal(pool, sender, id) is None ==> after(
            pool,
            Transaction::ClaimRefund { sender, id, replies: seq![Some(paid)] },
        ).challenges[id].claimed_refund.contains(sender),
{
    if pool_deposit_refusal(pool, sender, id) is None {
        lemma_completed_deposit(pool, sender, this, id, pulled, approved, minted);
    }
    if claim_refusal(pool, sender, id) is None {
        let replies: Seq<Option<Seq<u8>>> = seq![Some(paid)];
        reveal_with_fuel(finished, 2);
        assert(replies[0] == Some(paid));
    }
}

/// Where a deposit ends whose calls are all answered: as it was recorded, or
/// locked where it was the last one.
proof fn lemma_completed_deposit(
    pool: PoolView,
    sender: Seq<u8>,
    this: Seq<u8>,
    id: nat,
    pulled: Seq<u8>,
    approved: Seq<u8>,
    minted: Seq<u8>,
)
    requires
        at_rest(pool),
        pool_deposit_refusal(pool, sender, id) is None,
    ensures
        ({
            let recorded = deposit_recorded(pool, sender, id);
            let replies = seq![Some(pulled), Some(approved), Some(minted)];
            let end = after(pool, Transaction::Deposit { sender, this, id, replies });
            let challenge = pool.challenges[id];
            end == if challenge.deposited_count + 1 == challenge.participant_count {
                resumed_pool(recorded, StepView::DepositVault { challenge_id: id }, minted)
            } else {
                recorded
            }
        }),
{
    let replies: Seq<Option<Seq<u8>>> = seq![Some(pulled), Some(approved), Some(minted)];
    let challenge = pool.challenges[id];
    assert(challenge_ok(challenge));
    assert(has_terms(challenge)) by {
        assert(challenge != blank_challenge());
    }
    assert(open_while_missing(challenge));
    reveal_with_fuel(finished, 4);
    assert(replies[0] == Some(pulled));
    assert(replies.drop_first()[0] == Some(approved));
    assert(replies.drop_first().drop_first()[0] == Some(minted));
    if challenge.deposited_count + 1 == challenge.participant_count {
        last_deposit_locks_the_pot(pool, sender, this, id, pulled, approved, minted);
    } else {
        earlier_deposit_leaves_it_open(pool, sender, this, id, pulled);
    }
}

/// A challenge redeems the shares that the vault returned when it was locked:
/// the last deposit keeps that number, and while the challenge stays locked,
/// every redemption of it asks for exactly that number.
pub proof fn shares_redeemed_are_those_minted(
    pool: PoolView,
    sender: Seq<u8>,
    this: Seq<u8>,
    id: nat,
    pulled: Seq<u8>,
    approved: Seq<u8>,
    minted: Seq<u8>,
    history: Seq<Transaction>,
    to: Seq<u8>,
)
    requires
        at_rest(pool),
        pool_deposit_refusal(pool, sender, id) is None,
        pool.challenges[id].deposited_count + 1 == pool.challenges[id].participant_count,
        to.len() == 20,
        history_fits(
            after(
                pool,
                Transaction::Deposit {
                    sender,
                    this,
                    id,
                    replies: seq![Some(pulled), Some(approved), Some(minted)],
                },
            ),
            history,
        ),
    ensures
        ({
            let replies = seq![Some(pulled), Some(approved), Some(minted)];
            let locked = after(pool, Transaction::Deposit { sender, this, id, replies });
            let later = after_all(locked, history);
            &&& locked.challenges[id].status == STATE_BLOQUEADO
            &&& later.challenges[id].status == STATE_BLOQUEADO ==> redeems(
                redeem_call(later, to, id),
                later.treasury_vault,
                returned_value(minted),
                to,
            )
        }),
{
    let replies: Seq<Option<Seq<u8>>> = seq![Some(pulled), Some(approved), Some(minted)];
    let deposit = Transaction::Deposit { sender, this, id, replies };
    let locked = after(pool, deposit);
    let later = after_all(locked, history);
    lemma_completed_deposit(pool, sender, this, id, pulled, approved, minted);
    transaction_leaves_pool_at_rest(pool, deposit);
    history_leaves_pool_at_rest(locked, history);
    assert(keeps_shares(locked.challenges[id], later.challenges[id]));
    returned_value_fits_in_a_word(minted);
    if later.challenges[id].status == STATE_BLOQUEADO {
        redemption_asks_for_own_shares(later, to, id);
    }
}

/// A challenge has the terms that its creator asked for, after every history:
/// the participants are those listed, each of them deposits the amount asked
/// for, and it is not refunded until the deadline asked for has passed.
pub proof fn terms_asked_for_bind(
    pool: PoolView,
    sender: Seq<u8>,
    required_deposit: nat,
    deadline: nat,
    list: Seq<Address>,
    history: Seq<Transaction>,
    account: Seq<u8>,
    this: Seq<u8>,
    now: nat,
)
    requires
        at_rest(pool),
        create_refusal(required_deposit, list) is None,
        within_limits(
            pool,
            Transaction::CreateChallenge { sender, required_deposit, deadline, list },
        ),
        history_fits(created(pool, sender, required_deposit, deadline, list), history),
        account.len() == 20,
        this.len() == 20,
    ensures
        ({
            let id = pool.next_challenge_id;
            let later = after_all(
                created(pool, sender, required_deposit, deadline, list),
                history,
            );
            let challenge = later.challenges[id];
            &&& challenge.creator == sender
            &&& challenge.required_deposit == required_deposit
            &&& challenge.deadline == deadline
            &&& challenge.participant_count == list.len()
            &&& challenge.participants.contains(account) <==> exists|i: int|
                0 <= i < list.len() && (#[trigger] list[i])@ == account
            &&& pulls(
                deposit_pending(later, account, this, id).call,
                later.usdc,
                account,
                this,
                required_deposit,
            )
            &&& now <= deadline ==> pool_refund_refusal(later, id, now) is Some
        }),
{
    let creation = Transaction::CreateChallenge { sender, required_deposit, deadline, list };
    let done = created(pool, sender, required_deposit, deadline, list);
    let id = pool.next_challenge_id;
    assert(pool.challenges[id] == blank_challenge());
    assert(after(pool, creation) == done);
    transaction_leaves_pool_at_rest(pool, creation);
    history_leaves_pool_at_rest(done, history);
    let later = after_all(done, history);
    assert(done.challenges[id].participants =~= listed(list));
    assert(descends(done.challenges[id], later.challenges[id]));
    lemma_listed_contains(list, account);
    transfer_from_data_pulls(later.usdc, account, this, required_deposit);
}

/// A participant of a refunded challenge who has not been paid may still claim,
/// whatever everybody else does meanwhile.
pub proof fn unpaid_participants_may_still_claim(
    pool: PoolView,
    id: nat,
    account: Seq<u8>,
    history: Seq<Transaction>,
)
    requires
        at_rest(pool),
        history_fits(pool, history),
        pool.challenges[id].status == STATE_REEMBOLSADO,
        pool.challenges[id].participants.contains(account),
        !pool.challenges[id].claimed_refund.contains(account),
        forall|i: int| 0 <= i < history.len() ==> !is_claim_of(#[trigger] history[i], account, id),
    ensures
        claim_refusal(after_all(pool, history), account, id) is None,
    decreases history.len(),
{
    history_leaves_pool_at_rest(pool, history);
    assert(has_terms(pool.challenges[id])) by {
        assert(pool.challenges[id] != blank_challenge());
    }
    if history.len() > 0 {
        let earlier = history.drop_last();
        let middle = after_all(pool, earlier);
        assert forall|i: int| 0 <= i < earlier.len() implies !is_claim_of(
            #[trigger] earlier[i],
            account,
            id,
        ) by {
            assert(!is_claim_of(history[i], account, id));
        }
        assert(!is_claim_of(history[history.len() - 1], account, id));
        unpaid_participants_may_still_claim(pool, id, account, earlier);
        history_leaves_pool_at_rest(pool, earlier);
        only_own_transactions_count(middle, history.last(), account, id);
    }
}

/// A participant of an open challenge who has not deposited may still deposit,
/// whatever everybody else does meanwhile.
pub proof fn missing_participants_may_still_deposit(
    pool: PoolView,
    id: nat,
    account: Seq<u8>,
    history: Seq<Transaction>,
)
    requires
        at_rest(pool),
        history_fits(pool, history),
        pool.challenges[id].participants.contains(account),
        !pool.challenges[id].has_deposited.contains(account),
        forall|i: int|
            0 <= i < history.len() ==> !is_deposit_of(#[trigger] history[i], account, id),
    ensures
        pool_deposit_refusal(after_all(pool, history), account, id) is None,
    decreases history.len(),
{
    history_leaves_pool_at_rest(pool, history);
    let later = after_all(pool, history);
    assert(has_terms(pool.challenges[id])) by {
        assert(pool.challenges[id] != blank_challenge());
    }
    assert(challenge_ok(later.challenges[id]));
    assert(descends(pool.challenges[id], later.challenges[id]));
    if history.len() > 0 {
        let earlier = history.drop_last();
        let middle = after_all(pool, earlier);
        assert forall|i: int| 0 <= i < earlier.len() implies !is_deposit_of(
            #[trigger] earlier[i],
            account,
            id,
        ) by {
            assert(!is_deposit_of(history[i], account, id));
        }
        assert(!is_deposit_of(history[history.len() - 1], account, id));
        missing_participants_may_still_deposit(pool, id, account, earlier);
        history_leaves_pool_at_rest(pool, earlier);
        only_own_transactions_count(middle, history.last(), account, id);
    }
    assert(!later.challenges[id].has_deposited.contains(account));
    if later.challenges[id].status != STATE_ABIERTO {
        locked_challenge_is_fully_funded(later.challenges[id]);
    }
}

} // verus!
