//! Laws of the operations as they are called: which calls are accepted, with
//! which reason the others are refused, what an accepted one writes, logs and
//! asks for, and that it touches nothing else.

use vstd::prelude::*;
use vstd::utf8::encode_utf8;

use crate::address::{lemma_listed_contains, zero_address, Address};
use crate::challenge::ChallengeView;
use crate::contract::ChallengePool;
use crate::host::{EventLog, EventView, Pending, Step};
use crate::laws::messages::{
    pays, pulls, redeem_shares_data_redeems, redeems, transfer_data_pays, transfer_from_data_pulls,
};
use crate::word::U256;

verus! {

/// Whether these are the bytes of no account.
pub open spec fn nobody(address: Seq<u8>) -> bool {
    forall|i: int| 0 <= i < 20 ==> address[i] == 0
}

/// An address is the zero address where all its bytes are zero.
proof fn lemma_nobody(address: Address)
    ensures
        nobody(address@) <==> address@ == zero_address(),
{
    if nobody(address@) {
        assert(address@ =~= zero_address());
    }
}

/// Whether two pools have the same owner, operators, token, vault and rate.
pub open spec fn same_settings(before: ChallengePool, after: ChallengePool) -> bool {
    &&& after.treasury_vault@ == before.treasury_vault@
    &&& after.usdc@ == before.usdc@
    &&& after.operators@ == before.operators@
    &&& after.base_commission_rate@ == before.base_commission_rate@
    &&& after.owner@ == before.owner@
}

/// Whether two pools have the same challenges.
pub open spec fn same_challenges(before: ChallengePool, after: ChallengePool) -> bool {
    &&& after.next_challenge_id@ == before.next_challenge_id@
    &&& forall|id: nat| #[trigger] after.challenges@[id] == before.challenges@[id]
}

/// Whether two pools differ in one challenge at most.
pub open spec fn same_but_one(before: ChallengePool, after: ChallengePool, id: nat) -> bool {
    &&& same_settings(before, after)
    &&& after.next_challenge_id@ == before.next_challenge_id@
    &&& forall|other: nat|
        other != id ==> #[trigger] after.challenges@[other] == before.challenges@[other]
}

/// Whether two records have the same terms and participants.
pub open spec fn same_terms(before: ChallengeView, after: ChallengeView) -> bool {
    &&& after.creator == before.creator
    &&& after.required_deposit == before.required_deposit
    &&& after.deadline == before.deadline
    &&& after.participant_count == before.participant_count
    &&& forall|a: Seq<u8>|
        #[trigger] after.participants.contains(a) == before.participants.contains(a)
}

/// Whether two records have the same deposits.
pub open spec fn same_deposits(before: ChallengeView, after: ChallengeView) -> bool {
    &&& after.deposited_count == before.deposited_count
    &&& forall|a: Seq<u8>|
        #[trigger] after.has_deposited.contains(a) == before.has_deposited.contains(a)
}

/// Whether two records have the same claims.
pub open spec fn same_claims(before: ChallengeView, after: ChallengeView) -> bool {
    forall|a: Seq<u8>|
        #[trigger] after.claimed_refund.contains(a) == before.claimed_refund.contains(a)
}

/// The initializer is accepted exactly while there is no owner. It then makes
/// the sender the owner and takes over vault, token and rate.
pub proof fn init_takes_over_its_arguments(
    pool: &mut ChallengePool,
    sender: Address,
    vault: Address,
    usdc: Address,
    rate: U256,
    result: Result<(), Vec<u8>>,
)
    requires
        call_ensures(ChallengePool::init, (pool, sender, vault, usdc, rate), result),
    ensures
        result is Ok <==> nobody(old(pool).owner@),
        same_challenges(*old(pool), *final(pool)),
        result is Ok ==> {
            &&& final(pool).owner@ == sender@
            &&& final(pool).treasury_vault@ == vault@
            &&& final(pool).usdc@ == usdc@
            &&& final(pool).base_commission_rate@ == rate@
            &&& final(pool).operators@ == old(pool).operators@
        },
        result matches Err(why) ==> {
            &&& why@ == encode_utf8("inited"@)
            &&& same_settings(*old(pool), *final(pool))
        },
{
    lemma_nobody(old(pool).owner);
    assert(old(pool)@.owner == old(pool).owner@);
    assert(final(pool)@.challenges == old(pool)@.challenges);
}

/// Adding an operator is accepted exactly from the owner and for an account. It
/// then authorizes that account and nobody else.
pub proof fn adding_authorizes_one_operator(
    pool: &mut ChallengePool,
    sender: Address,
    operator: Address,
    log: &mut EventLog,
    result: Result<(), Vec<u8>>,
)
    requires
        call_ensures(ChallengePool::add_operator, (pool, sender, operator, log), result),
    ensures
        result is Ok <==> sender@ == old(pool).owner@ && !nobody(operator@),
        same_challenges(*old(pool), *final(pool)),
        final(pool).treasury_vault@ == old(pool).treasury_vault@,
        final(pool).usdc@ == old(pool).usdc@,
        final(pool).base_commission_rate@ == old(pool).base_commission_rate@,
        final(pool).owner@ == old(pool).owner@,
        forall|a: Seq<u8>|
            #[trigger] final(pool).operators@.contains(a) <==> old(pool).operators@.contains(a)
                || (result is Ok && a == operator@),
        result is Ok ==> final(log)@ == old(log)@.push(
            EventView::OperatorAdded { operator: operator@ },
        ),
        result matches Err(why) ==> {
            &&& final(log)@ == old(log)@
            &&& why@ == if sender@ != old(pool).owner@ {
                encode_utf8("not_owner"@)
            } else {
                encode_utf8("operator_is_zero"@)
            }
        },
{
    lemma_nobody(operator);
    assert(final(pool)@.challenges == old(pool)@.challenges);
    assert(final(pool)@.operators == final(pool).operators@);
}

/// Removing an operator is accepted exactly from the owner. It then withdraws
/// the authorization of that account and of nobody else.
pub proof fn removing_withdraws_one_operator(
    pool: &mut ChallengePool,
    sender: Address,
    operator: Address,
    log: &mut EventLog,
    result: Result<(), Vec<u8>>,
)
    requires
        call_ensures(ChallengePool::remove_operator, (pool, sender, operator, log), result),
    ensures
        result is Ok <==> sender@ == old(pool).owner@,
        same_challenges(*old(pool), *final(pool)),
        final(pool).treasury_vault@ == old(pool).treasury_vault@,
        final(pool).usdc@ == old(pool).usdc@,
        final(pool).base_commission_rate@ == old(pool).base_commission_rate@,
        final(pool).owner@ == old(pool).owner@,
        forall|a: Seq<u8>|
            #[trigger] final(pool).operators@.contains(a) <==> old(pool).operators@.contains(a)
                && !(result is Ok && a == operator@),
        result is Ok ==> final(log)@ == old(log)@.push(
            EventView::OperatorRemoved { operator: operator@ },
        ),
        result matches Err(why) ==> {
            &&& final(log)@ == old(log)@
            &&& why@ == encode_utf8("not_owner"@)
        },
{
    assert(final(pool)@.challenges == old(pool)@.challenges);
    assert(final(pool)@.operators == final(pool).operators@);
}

/// Setting the rate is accepted exactly from the owner. It then changes the rate
/// to the given one, and nothing else.
pub proof fn setting_the_rate_sets_it(
    pool: &mut ChallengePool,
    sender: Address,
    rate: U256,
    log: &mut EventLog,
    result: Result<(), Vec<u8>>,
)
    requires
        call_ensures(ChallengePool::set_commission_rate, (pool, sender, rate, log), result),
    ensures
        result is Ok <==> sender@ == old(pool).owner@,
        same_challenges(*old(pool), *final(pool)),
        final(pool).treasury_vault@ == old(pool).treasury_vault@,
        final(pool).usdc@ == old(pool).usdc@,
        final(pool).operators@ == old(pool).operators@,
        final(pool).owner@ == old(pool).owner@,
        result is Ok ==> {
            &&& final(pool).base_commission_rate@ == rate@
            &&& final(log)@ == old(log)@.push(
                EventView::CommissionRateUpdated {
                    previous_rate: old(pool).base_commission_rate@,
                    new_rate: rate@,
                },
            )
        },
        result matches Err(why) ==> {
            &&& final(pool).base_commission_rate@ == old(pool).base_commission_rate@
            &&& final(log)@ == old(log)@
            &&& why@ == encode_utf8("not_owner"@)
        },
{
    assert(final(pool)@.challenges == old(pool)@.challenges);
    assert(final(pool)@.operators == final(pool).operators@);
}

/// Changing the vault is accepted exactly from the owner and for an account. It
/// then changes the vault to the given one, and nothing else.
pub proof fn setting_the_vault_sets_it(
    pool: &mut ChallengePool,
    sender: Address,
    vault: Address,
    log: &mut EventLog,
    result: Result<(), Vec<u8>>,
)
    requires
        call_ensures(ChallengePool::set_treasury_vault, (pool, sender, vault, log), result),
    ensures
        result is Ok <==> sender@ == old(pool).owner@ && !nobody(vault@),
        same_challenges(*old(pool), *final(pool)),
        final(pool).base_commission_rate@ == old(pool).base_commission_rate@,
        final(pool).usdc@ == old(pool).usdc@,
        final(pool).operators@ == old(pool).operators@,
        final(pool).owner@ == old(pool).owner@,
        result is Ok ==> {
            &&& final(pool).treasury_vault@ == vault@
            &&& final(log)@ == old(log)@.push(
                EventView::TreasuryVaultUpdated {
                    previous_vault: old(pool).treasury_vault@,
                    new_vault: vault@,
                },
            )
        },
        result matches Err(why) ==> {
            &&& final(pool).treasury_vault@ == old(pool).treasury_vault@
            &&& final(log)@ == old(log)@
            &&& why@ == if sender@ != old(pool).owner@ {
                encode_utf8("not_owner"@)
            } else {
                encode_utf8("vault0"@)
            }
        },
{
    lemma_nobody(vault);
    assert(final(pool)@.challenges == old(pool)@.challenges);
    assert(final(pool)@.operators == final(pool).operators@);
}

/// A challenge is created exactly for at least one participant and a deposit
/// within the cap. It then has the creator, the deposit, the deadline and the
/// participants that were asked for, is open, and nobody has deposited or
/// claimed; it is found under the identifier that is returned, and the next
/// identifier is one higher.
pub proof fn creating_keeps_the_terms_asked_for(
    pool: &mut ChallengePool,
    sender: Address,
    required_deposit: U256,
    deadline: U256,
    list: Vec<Address>,
    log: &mut EventLog,
    result: Result<U256, Vec<u8>>,
)
    requires
        call_ensures(
            ChallengePool::create_challenge,
            (pool, sender, required_deposit, deadline, list, log),
            result,
        ),
    ensures
        result is Ok <==> list@.len() > 0 && 0 < required_deposit@ <= 10_000_000_000_000_000_000,
        same_settings(*old(pool), *final(pool)),
        result matches Ok(id) ==> {
            let before = old(pool).challenges@[id@];
            let after = final(pool).challenges@[id@];
            &&& id@ == old(pool).next_challenge_id@
            &&& after.creator == sender@
            &&& after.required_deposit == required_deposit@
            &&& after.deadline == deadline@
            &&& after.status == 0
            &&& after.participant_count == list@.len()
            &&& after.deposited_count == 0
            &&& after.winner == before.winner
            &&& after.treasury_shares == before.treasury_shares
            &&& forall|i: int|
                0 <= i < list@.len() ==> {
                    let a = (#[trigger] list@[i])@;
                    &&& after.participants.contains(a)
                    &&& !after.has_deposited.contains(a)
                    &&& !after.claimed_refund.contains(a)
                }
            &&& forall|a: Seq<u8>|
                (forall|i: int| 0 <= i < list@.len() ==> (#[trigger] list@[i])@ != a) ==> {
                    &&& #[trigger] after.participants.contains(a) == before.participants.contains(a)
                    &&& after.has_deposited.contains(a) == before.has_deposited.contains(a)
                    &&& after.claimed_refund.contains(a) == before.claimed_refund.contains(a)
                }
            &&& forall|other: nat|
                other != id@ ==> #[trigger] final(pool).challenges@[other]
                    == old(pool).challenges@[other]
            &&& final(log)@ == old(log)@.push(
                EventView::ChallengeCreated {
                    challenge_id: id@,
                    creator: sender@,
                    required_deposit: required_deposit@,
                    deadline: deadline@,
                },
            )
        },
        result matches Ok(id) ==> final(pool).next_challenge_id@ == if id@ + 1
            == 0x1_0000000000000000_0000000000000000_0000000000000000_0000000000000000nat {
            0
        } else {
            id@ + 1
        },
        result matches Err(why) ==> {
            &&& same_challenges(*old(pool), *final(pool))
            &&& final(log)@ == old(log)@
            &&& list@.len() == 0 ==> why@ == encode_utf8("nopart"@)
            &&& list@.len() > 0 && required_deposit@ == 0 ==> why@ == encode_utf8("dep0"@)
            &&& list@.len() > 0 && required_deposit@ > 0 ==> why@ == encode_utf8("depmax"@)
        },
{
    assert(final(pool)@.challenges == final(pool).challenges@);
    assert(final(pool)@.operators == final(pool).operators@);
    if let Ok(id) = result {
        let after = final(pool).challenges@[id@];
        assert forall|i: int| 0 <= i < list@.len() implies {
            let a = (#[trigger] list@[i])@;
            &&& after.participants.contains(a)
            &&& !after.has_deposited.contains(a)
            &&& !after.claimed_refund.contains(a)
        } by {
            lemma_listed_contains(list@, list@[i]@);
        }
        assert forall|a: Seq<u8>|
            (forall|i: int| 0 <= i < list@.len() ==> (#[trigger] list@[i])@ != a) implies {
            let before = old(pool).challenges@[id@];
            &&& #[trigger] after.participants.contains(a) == before.participants.contains(a)
            &&& after.has_deposited.contains(a) == before.has_deposited.contains(a)
            &&& after.claimed_refund.contains(a) == before.claimed_refund.contains(a)
        } by {
            lemma_listed_contains(list@, a);
        }
    }
}

/// A deposit is accepted exactly from a participant of an open challenge who has
/// not deposited, where the deposit is within the cap. It then counts for the
/// sender and for nobody else, and the token is asked to move exactly the
/// required deposit from the sender to the pool.
pub proof fn depositing_pulls_the_required_deposit(
    pool: &mut ChallengePool,
    sender: Address,
    this: Address,
    id: U256,
    log: &mut EventLog,
    result: Result<Pending, Vec<u8>>,
)
    requires
        call_ensures(ChallengePool::deposit, (pool, sender, this, id, log), result),
    ensures
        same_but_one(*old(pool), *final(pool), id@),
        ({
            let before = old(pool).challenges@[id@];
            let after = final(pool).challenges@[id@];
            &&& result is Ok <==> before.status == 0 && before.participants.contains(sender@)
                && !before.has_deposited.contains(sender@) && before.required_deposit
                <= 10_000_000_000_000_000_000
            &&& same_terms(before, after)
            &&& same_claims(before, after)
            &&& after.status == before.status
            &&& after.winner == before.winner
            &&& after.treasury_shares == before.treasury_shares
            &&& forall|a: Seq<u8>|
                #[trigger] after.has_deposited.contains(a) <==> before.has_deposited.contains(a)
                    || (result is Ok && a == sender@)
            &&& result is Ok && before.deposited_count + 1
                < 0x1_0000000000000000_0000000000000000_0000000000000000_0000000000000000nat
                ==> after.deposited_count == before.deposited_count + 1
            &&& result is Ok && before.deposited_count + 1
                >= 0x1_0000000000000000_0000000000000000_0000000000000000_0000000000000000nat
                ==> after.deposited_count == 0
            &&& result matches Ok(pending) ==> {
                &&& pulls(
                    pending.call@,
                    old(pool).usdc@,
                    sender@,
                    this@,
                    before.required_deposit,
                )
                &&& final(log)@ == old(log)@.push(
                    EventView::DepositReceived {
                        challenge_id: id@,
                        participant: sender@,
                        amount: before.required_deposit,
                    },
                )
                &&& pending.step matches Step::DepositPull {
                    challenge_id,
                    required_deposit,
                    new_deposited,
                    participant_count,
                    usdc,
                }
                &&& challenge_id@ == id@
                &&& required_deposit@ == before.required_deposit
                &&& new_deposited@ == after.deposited_count
                &&& participant_count@ == before.participant_count
                &&& usdc@ == old(pool).usdc@
            }
            &&& result matches Err(why) ==> {
                &&& same_deposits(before, after)
                &&& final(log)@ == old(log)@
                &&& before.status != 0 ==> why@ == encode_utf8("notopen"@)
                &&& before.status == 0 && !before.participants.contains(sender@) ==> why@
                    == encode_utf8("nopart"@)
                &&& before.status == 0 && before.participants.contains(sender@)
                    && before.has_deposited.contains(sender@) ==> why@ == encode_utf8(
                    "deposited"@,
                )
                &&& before.status == 0 && before.participants.contains(sender@)
                    && !before.has_deposited.contains(sender@) ==> why@ == encode_utf8("depmax"@)
            }
        }),
{
    assert(final(pool)@.challenges == final(pool).challenges@);
    assert(final(pool)@.operators == final(pool).operators@);
    let required = old(pool).challenges@[id@].required_deposit;
    old(pool).challenges.challenges_have_word_fields(id@);
    if result is Ok {
        transfer_from_data_pulls(old(pool).usdc@, sender@, this@, required);
    }
}

/// A result is accepted exactly from an operator, for a locked challenge and a
/// winner who takes part in it and is not the zero address. It then resolves
/// that challenge for that winner, and the vault is asked to redeem the shares
/// of that challenge to the pool.
pub proof fn confirming_resolves_for_the_winner(
    pool: &mut ChallengePool,
    sender: Address,
    this: Address,
    id: U256,
    winner: Address,
    result: Result<Pending, Vec<u8>>,
)
    requires
        call_ensures(ChallengePool::confirm_result, (pool, sender, this, id, winner), result),
    ensures
        same_but_one(*old(pool), *final(pool), id@),
        ({
            let before = old(pool).challenges@[id@];
            let after = final(pool).challenges@[id@];
            &&& result is Ok <==> old(pool).operators@.contains(sender@) && before.status == 1
                && !nobody(winner@) && before.participants.contains(winner@)
            &&& same_terms(before, after)
            &&& same_deposits(before, after)
            &&& same_claims(before, after)
            &&& after.treasury_shares == before.treasury_shares
            &&& result matches Ok(pending) ==> {
                &&& after.status == 2
                &&& after.winner == winner@
                &&& redeems(
                    pending.call@,
                    old(pool).treasury_vault@,
                    before.treasury_shares,
                    this@,
                )
                &&& pending.step matches Step::ConfirmRedeem { challenge_id, winner: paid }
                &&& challenge_id@ == id@
                &&& paid@ == winner@
            }
            &&& result matches Err(why) ==> {
                &&& after.status == before.status
                &&& after.winner == before.winner
                &&& !old(pool).operators@.contains(sender@) ==> why@ == encode_utf8("no_op"@)
                &&& old(pool).operators@.contains(sender@) && before.status != 1 ==> why@
                    == encode_utf8("notlocked"@)
                &&& old(pool).operators@.contains(sender@) && before.status == 1 && nobody(
                    winner@,
                ) ==> why@ == encode_utf8("winzero"@)
                &&& old(pool).operators@.contains(sender@) && before.status == 1 && !nobody(
                    winner@,
                ) ==> why@ == encode_utf8("winpart"@)
            }
        }),
{
    lemma_nobody(winner);
    assert(final(pool)@.challenges == final(pool).challenges@);
    assert(final(pool)@.operators == final(pool).operators@);
    let shares = old(pool).challenges@[id@].treasury_shares;
    old(pool).challenges.challenges_have_word_fields(id@);
    redeem_shares_data_redeems(old(pool).treasury_vault@, shares, this@);
}

/// A refund is accepted exactly for a locked challenge, later than its deadline,
/// from anybody. It then marks that challenge as refunded, and the vault is
/// asked to redeem the shares of that challenge to the pool.
pub proof fn refunding_redeems_the_shares_of_the_challenge(
    pool: &mut ChallengePool,
    this: Address,
    timestamp: u64,
    id: U256,
    result: Result<Pending, Vec<u8>>,
)
    requires
        call_ensures(ChallengePool::refund, (pool, this, timestamp, id), result),
    ensures
        same_but_one(*old(pool), *final(pool), id@),
        ({
            let before = old(pool).challenges@[id@];
            let after = final(pool).challenges@[id@];
            &&& result is Ok <==> before.status == 1 && before.deadline < timestamp
            &&& same_terms(before, after)
            &&& same_deposits(before, after)
            &&& same_claims(before, after)
            &&& after.winner == before.winner
            &&& after.treasury_shares == before.treasury_shares
            &&& result matches Ok(pending) ==> {
                &&& after.status == 3
                &&& redeems(
                    pending.call@,
                    old(pool).treasury_vault@,
                    before.treasury_shares,
                    this@,
                )
                &&& pending.step matches Step::RefundRedeem { challenge_id, participant_count }
                &&& challenge_id@ == id@
                &&& participant_count@ == before.participant_count
            }
            &&& result matches Err(why) ==> {
                &&& after.status == before.status
                &&& before.status != 1 ==> why@ == encode_utf8("notlocked"@)
                &&& before.status == 1 ==> why@ == encode_utf8("nodln"@)
            }
        }),
{
    assert(final(pool)@.challenges == final(pool).challenges@);
    assert(final(pool)@.operators == final(pool).operators@);
    let shares = old(pool).challenges@[id@].treasury_shares;
    old(pool).challenges.challenges_have_word_fields(id@);
    redeem_shares_data_redeems(old(pool).treasury_vault@, shares, this@);
}

/// A claim is accepted exactly from a participant of a refunded challenge who has
/// not claimed. It then counts for the sender and for nobody else, and the token
/// is asked to pay the sender the share that the challenge keeps.
pub proof fn claiming_pays_the_claimant(
    pool: &mut ChallengePool,
    sender: Address,
    id: U256,
    log: &mut EventLog,
    result: Result<Pending, Vec<u8>>,
)
    requires
        call_ensures(ChallengePool::claim_refund, (pool, sender, id, log), result),
    ensures
        same_but_one(*old(pool), *final(pool), id@),
        ({
            let before = old(pool).challenges@[id@];
            let after = final(pool).challenges@[id@];
            &&& result is Ok <==> before.status == 3 && before.participants.contains(sender@)
                && !before.claimed_refund.contains(sender@)
            &&& same_terms(before, after)
            &&& same_deposits(before, after)
            &&& after.status == before.status
            &&& after.winner == before.winner
            &&& after.treasury_shares == before.treasury_shares
            &&& forall|a: Seq<u8>|
                #[trigger] after.claimed_refund.contains(a) <==> before.claimed_refund.contains(a)
                    || (result is Ok && a == sender@)
            &&& result matches Ok(pending) ==> {
                &&& pays(pending.call@, old(pool).usdc@, sender@, before.treasury_shares)
                &&& pending.step is ClaimPay
                &&& final(log)@ == old(log)@.push(
                    EventView::RefundClaimed {
                        challenge_id: id@,
                        participant: sender@,
                        amount: before.treasury_shares,
                    },
                )
            }
            &&& result matches Err(why) ==> {
                &&& final(log)@ == old(log)@
                &&& before.status != 3 ==> why@ == encode_utf8("noref"@)
                &&& before.status == 3 && !before.participants.contains(sender@) ==> why@
                    == encode_utf8("nopart"@)
                &&& before.status == 3 && before.participants.contains(sender@) ==> why@
                    == encode_utf8("claimed"@)
            }
        }),
{
    assert(final(pool)@.challenges == final(pool).challenges@);
    assert(final(pool)@.operators == final(pool).operators@);
    let shares = old(pool).challenges@[id@].treasury_shares;
    old(pool).challenges.challenges_have_word_fields(id@);
    transfer_data_pays(old(pool).usdc@, sender@, shares);
}

} // verus!
