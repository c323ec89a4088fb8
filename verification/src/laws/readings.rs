//! Laws of the data: what numbers, addresses, flags, records and events say, and
//! that what is written is what is read.

use vstd::prelude::*;
use vstd::utf8::{decode_utf8, encode_utf8_decode_utf8, encode_utf8_valid_utf8, valid_utf8};

use crate::address::{lemma_listed_contains, listed, zero_address, Address, AddressFlags};
use crate::bytes::{be_range, be_value};
use crate::challenge::{Challenge, Challenges};
use crate::contract::{reason_bytes, ChallengePool};
use crate::host::{Call, CallView, Event, EventLog, EventView, Pending, PendingView, Step, StepView};
use crate::word::U256;

verus! {

/// The reasons are handed out as text: the bytes are valid and spell the reason.
pub proof fn reasons_are_text(text: Seq<char>)
    ensures
        valid_utf8(reason_bytes(text)),
        decode_utf8(reason_bytes(text)) == text,
{
    encode_utf8_valid_utf8(text);
    encode_utf8_decode_utf8(text);
}

/// One byte is its own number; more bytes behind it move it up by one digit of
/// base 256 each.
pub proof fn bytes_are_digits(high: Seq<u8>, low: Seq<u8>, byte: u8)
    ensures
        be_value(Seq::empty()) == 0,
        be_value(seq![byte]) == byte,
        be_value(high + low) == be_value(high) * be_range(low.len()) + be_value(low),
        be_range(0) == 1,
        be_range(low.len() + 1) == 256 * be_range(low.len()),
    decreases low.len(),
{
    assert(seq![byte].drop_last() =~= Seq::empty());
    reveal_with_fuel(be_value, 2);
    if low.len() > 0 {
        let shorter = low.drop_last();
        bytes_are_digits(high, shorter, byte);
        assert((high + low).drop_last() =~= high + shorter);
        assert((high + low).last() == low.last());
        let h = be_value(high);
        let r = be_range(shorter.len());
        let l = be_value(shorter);
        assert((h * r + l) * 256 == h * (r * 256) + l * 256) by (nonlinear_arith);
    } else {
        assert(high + low =~= high);
        assert(be_value(high) * 1 == be_value(high)) by (nonlinear_arith);
    }
}

/// The limbs of a word are its digits in base 2^64, least significant first.
pub proof fn limbs_are_digits(word: U256)
    ensures
        word@ % 0x1_0000000000000000nat == word.limbs[0],
        (word@ / 0x1_0000000000000000nat) % 0x1_0000000000000000nat == word.limbs[1],
        (word@ / 0x1_0000000000000000_0000000000000000nat) % 0x1_0000000000000000nat
            == word.limbs[2],
        word@ / 0x1_0000000000000000_0000000000000000_0000000000000000nat == word.limbs[3],
{
}

/// Words are made of the numbers that they are given, and are zero where the
/// number is.
pub proof fn words_are_what_they_are_made_of(
    limbs: [u64; 4],
    small: u64,
    large: u128,
    word: U256,
    of_limbs: U256,
    of_small: U256,
    of_large: U256,
    nothing: U256,
    is_zero: bool,
)
    requires
        call_ensures(U256::from_limbs, (limbs,), of_limbs),
        call_ensures(U256::from_u64, (small,), of_small),
        call_ensures(U256::from_u128, (large,), of_large),
        call_ensures(U256::zero, (), nothing),
        call_ensures(U256::is_zero, (&word,), is_zero),
    ensures
        of_limbs@ == (U256 { limbs })@,
        of_small@ == small,
        of_large@ == large,
        nothing@ == 0,
        is_zero <==> word@ == 0,
{
}

/// An address is its twenty bytes; the zero address is the one whose bytes are
/// all zero.
pub proof fn addresses_are_their_bytes(
    bytes: [u8; 20],
    address: Address,
    made: Address,
    zero: Address,
    is_zero: bool,
)
    requires
        call_ensures(Address::from_bytes, (bytes,), made),
        call_ensures(Address::zero, (), zero),
        call_ensures(Address::is_zero, (&address,), is_zero),
    ensures
        address@ == address.bytes@,
        made@ == bytes@,
        forall|i: int| 0 <= i < 20 ==> zero.bytes[i] == 0,
        is_zero <==> forall|i: int| 0 <= i < 20 ==> address.bytes[i] == 0,
        zero_address().len() == 20,
        forall|i: int| 0 <= i < 20 ==> zero_address()[i] == 0,
{
    assert forall|i: int| 0 <= i < 20 implies zero.bytes[i] == 0 by {
        assert(zero@[i] == zero_address()[i]);
    }
    if forall|i: int| 0 <= i < 20 ==> address.bytes[i] == 0 {
        assert(address@ =~= zero_address());
    } else {
        let i = choose|i: int| 0 <= i < 20 && address.bytes[i] != 0;
        assert(address@[i] != zero_address()[i]);
    }
}

/// A list names its entries and nobody else.
pub proof fn lists_name_their_entries(list: Seq<Address>, bytes: Seq<u8>)
    ensures
        listed(list).contains(bytes) <==> exists|i: int|
            0 <= i < list.len() && (#[trigger] list[i]).bytes@ == bytes,
{
    lemma_listed_contains(list, bytes);
    if exists|i: int| 0 <= i < list.len() && (#[trigger] list[i])@ == bytes {
        let i = choose|i: int| 0 <= i < list.len() && (#[trigger] list[i])@ == bytes;
        assert(list[i].bytes@ == bytes);
    }
    if exists|i: int| 0 <= i < list.len() && (#[trigger] list[i]).bytes@ == bytes {
        let i = choose|i: int| 0 <= i < list.len() && (#[trigger] list[i]).bytes@ == bytes;
        assert(list[i]@ == bytes);
    }
}

/// A flag that is set is read as it was set, and no other flag is read
/// differently for it; at first all flags are lowered.
pub proof fn flags_are_read_as_they_were_set(
    flags: &mut AddressFlags,
    before: AddressFlags,
    fresh: AddressFlags,
    address: Address,
    raise: bool,
    other: Address,
    at_first: bool,
    earlier: bool,
    later: bool,
)
    requires
        before == *old(flags),
        call_ensures(AddressFlags::new, (), fresh),
        call_ensures(AddressFlags::get, (&fresh, other), at_first),
        call_ensures(AddressFlags::get, (&before, other), earlier),
        call_ensures(AddressFlags::set, (flags, address, raise), ()),
        call_ensures(AddressFlags::get, (&*final(flags), other), later),
    ensures
        !at_first,
        other.bytes@ == address.bytes@ ==> later == raise,
        other.bytes@ != address.bytes@ ==> later == earlier,
        later == final(flags)@.contains(other.bytes@),
{
}

/// A challenge is read as it was left by whoever wrote it last; writing one
/// changes no other. At first all are blank.
pub proof fn challenges_are_read_as_they_were_written(
    challenges: &mut Challenges,
    fresh: Challenges,
    blank: Challenge,
    id: U256,
    slot: &mut Challenge,
    other: nat,
)
    requires
        call_ensures(Challenges::new, (), fresh),
        call_ensures(Challenge::blank, (), blank),
        call_ensures(Challenges::setter, (challenges, id), slot),
    ensures
        fresh@[other] == blank@,
        (*old(slot))@ == old(challenges)@[id@],
        final(challenges)@[id@] == (*final(slot))@,
        other != id@ ==> final(challenges)@[other] == old(challenges)@[other],
{
}

/// Reading a challenge gives what is kept under its identifier; where nothing
/// is given, it is blank.
pub proof fn challenges_are_looked_up(
    challenges: Challenges,
    id: U256,
    found: Option<&Challenge>,
    blank: Challenge,
)
    requires
        call_ensures(Challenges::getter, (&challenges, id), found),
        call_ensures(Challenge::blank, (), blank),
    ensures
        found matches Some(challenge) ==> challenge@ == challenges@[id@],
        found is None ==> challenges@[id@] == blank@,
{
}

/// In a blank challenge every field is zero and every flag is lowered.
pub proof fn blank_challenges_are_zero(blank: Challenge, anybody: Seq<u8>)
    requires
        call_ensures(Challenge::blank, (), blank),
    ensures
        forall|i: int| 0 <= i < 20 ==> blank.creator.bytes[i] == 0 && blank.winner.bytes[i] == 0,
        blank.required_deposit@ == 0,
        blank.deadline@ == 0,
        blank.status == 0,
        blank.treasury_shares@ == 0,
        blank.participant_count@ == 0,
        blank.deposited_count@ == 0,
        !blank.participants@.contains(anybody),
        !blank.has_deposited@.contains(anybody),
        !blank.claimed_refund@.contains(anybody),
{
    assert(blank@.creator == zero_address());
    assert(blank@.winner == zero_address());
    assert forall|i: int| 0 <= i < 20 implies blank.creator.bytes[i] == 0
        && blank.winner.bytes[i] == 0 by {
        assert(blank.creator@[i] == zero_address()[i]);
        assert(blank.winner@[i] == zero_address()[i]);
    }
}

/// A pool that nobody has initialized has no owner, no operators and only blank
/// challenges.
pub proof fn fresh_pools_are_zero(pool: ChallengePool, blank: Challenge, id: nat, anybody: Seq<u8>)
    requires
        call_ensures(ChallengePool::new, (), pool),
        call_ensures(Challenge::blank, (), blank),
    ensures
        pool.challenges@[id] == blank@,
        pool.next_challenge_id@ == 0,
        pool.treasury_vault@ == Seq::new(20, |i: int| 0u8),
        pool.usdc@ == Seq::new(20, |i: int| 0u8),
        !pool.operators@.contains(anybody),
        pool.base_commission_rate@ == 0,
        pool.owner@ == Seq::new(20, |i: int| 0u8),
{
    assert(pool@.treasury_vault == zero_address());
    assert(pool@.usdc == zero_address());
    assert(pool@.owner == zero_address());
    assert(pool@.operators == Set::<Seq<u8>>::empty());
}

/// The record of a challenge is seen by its fields, each under its own name.
pub proof fn records_show_their_fields(challenge: Challenge)
    ensures
        challenge@.creator == challenge.creator.bytes@,
        challenge@.required_deposit == challenge.required_deposit@,
        challenge@.deadline == challenge.deadline@,
        challenge@.status == challenge.status,
        challenge@.winner == challenge.winner.bytes@,
        challenge@.treasury_shares == challenge.treasury_shares@,
        challenge@.participant_count == challenge.participant_count@,
        challenge@.deposited_count == challenge.deposited_count@,
        challenge@.participants == challenge.participants@,
        challenge@.has_deposited == challenge.has_deposited@,
        challenge@.claimed_refund == challenge.claimed_refund@,
{
}

/// A pool is seen by its fields, each under its own name.
pub proof fn pools_show_their_fields(pool: ChallengePool)
    ensures
        pool@.challenges == pool.challenges@,
        pool@.next_challenge_id == pool.next_challenge_id@,
        pool@.treasury_vault == pool.treasury_vault.bytes@,
        pool@.usdc == pool.usdc.bytes@,
        pool@.operators == pool.operators@,
        pool@.base_commission_rate == pool.base_commission_rate@,
        pool@.owner == pool.owner.bytes@,
{
}

/// Calls and pending operations are seen by their fields.
pub proof fn calls_show_their_fields(call: Call, pending: Pending)
    ensures
        call@ == (CallView { to: call.to.bytes@, data: call.data@ }),
        pending@ == (PendingView { step: pending.step@, call: pending.call@ }),
{
}

/// Events about challenges are seen by their fields.
pub proof fn challenge_events_show_their_fields(id: U256, account: Address, m: U256, n: U256)
    ensures
        (Event::ChallengeCreated {
            challenge_id: id,
            creator: account,
            required_deposit: m,
            deadline: n,
        })@ == (EventView::ChallengeCreated {
            challenge_id: id@,
            creator: account.bytes@,
            required_deposit: m@,
            deadline: n@,
        }),
        (Event::DepositReceived { challenge_id: id, participant: account, amount: m })@ == (
        EventView::DepositReceived {
            challenge_id: id@,
            participant: account.bytes@,
            amount: m@,
        }),
        (Event::ChallengeLocked { challenge_id: id, treasury_shares: m })@ == (
        EventView::ChallengeLocked { challenge_id: id@, treasury_shares: m@ }),
        (Event::ChallengeResolved {
            challenge_id: id,
            winner: account,
            total_payout: m,
            commission: n,
        })@ == (EventView::ChallengeResolved {
            challenge_id: id@,
            winner: account.bytes@,
            total_payout: m@,
            commission: n@,
        }),
        (Event::ChallengeRefunded { challenge_id: id, refund_per_participant: m })@ == (
        EventView::ChallengeRefunded { challenge_id: id@, refund_per_participant: m@ }),
        (Event::RefundClaimed { challenge_id: id, participant: account, amount: m })@ == (
        EventView::RefundClaimed {
            challenge_id: id@,
            participant: account.bytes@,
            amount: m@,
        }),
{
}

/// Events about the administration are seen by their fields.
pub proof fn administration_events_show_their_fields(a: Address, b: Address, m: U256, n: U256)
    ensures
        (Event::OperatorAdded { operator: a })@ == (EventView::OperatorAdded {
            operator: a.bytes@,
        }),
        (Event::OperatorRemoved { operator: a })@ == (EventView::OperatorRemoved {
            operator: a.bytes@,
        }),
        (Event::CommissionRateUpdated { previous_rate: m, new_rate: n })@ == (
        EventView::CommissionRateUpdated { previous_rate: m@, new_rate: n@ }),
        (Event::TreasuryVaultUpdated { previous_vault: a, new_vault: b })@ == (
        EventView::TreasuryVaultUpdated { previous_vault: a.bytes@, new_vault: b.bytes@ }),
{
}

/// Pending steps are seen by their fields.
pub proof fn steps_show_their_fields(id: U256, a: Address, m: U256, n: U256, k: U256)
    ensures
        (Step::DepositPull {
            challenge_id: id,
            required_deposit: m,
            new_deposited: n,
            participant_count: k,
            usdc: a,
        })@ == (StepView::DepositPull {
            challenge_id: id@,
            required_deposit: m@,
            new_deposited: n@,
            participant_count: k@,
            usdc: a.bytes@,
        }),
        (Step::DepositApprove { challenge_id: id, total: m })@ == (StepView::DepositApprove {
            challenge_id: id@,
            total: m@,
        }),
        (Step::DepositVault { challenge_id: id })@ == (StepView::DepositVault {
            challenge_id: id@,
        }),
        (Step::ConfirmRedeem { challenge_id: id, winner: a })@ == (StepView::ConfirmRedeem {
            challenge_id: id@,
            winner: a.bytes@,
        }),
        (Step::ConfirmPay { challenge_id: id, winner: a, winner_payout: m, commission: n })@ == (
        StepView::ConfirmPay {
            challenge_id: id@,
            winner: a.bytes@,
            winner_payout: m@,
            commission: n@,
        }),
        (Step::RefundRedeem { challenge_id: id, participant_count: m })@ == (
        StepView::RefundRedeem { challenge_id: id@, participant_count: m@ }),
        Step::ClaimPay@ == StepView::ClaimPay,
{
}

/// A log keeps what was logged, in order, and each new event comes last.
pub proof fn logs_keep_their_events(log: &mut EventLog, fresh: EventLog, event: Event)
    requires
        call_ensures(EventLog::new, (), fresh),
        call_ensures(EventLog::emit, (log, event), ()),
    ensures
        fresh.events@.len() == 0,
        final(log).events@.len() == old(log).events@.len() + 1,
        final(log).events@.last()@ == event@,
        forall|i: int|
            0 <= i < old(log).events@.len() ==> (#[trigger] final(log).events@[i])@
                == old(log).events@[i]@,
        forall|i: int|
            0 <= i < final(log).events@.len() ==> #[trigger] final(log)@[i]
                == final(log).events@[i]@,
        final(log)@.len() == final(log).events@.len(),
{
    let before = *old(log);
    let after = *final(log);
    assert(fresh@.len() == fresh.events@.len());
    assert(after@.len() == after.events@.len());
    assert(before@.len() == before.events@.len());
    assert(after@[after@.len() - 1] == after.events@.last()@);
    assert forall|i: int| 0 <= i < before.events@.len() implies (#[trigger] after.events@[i])@
        == before.events@[i]@ by {
        assert(after@[i] == after.events@[i]@);
        assert(before@[i] == before.events@[i]@);
    }
}

/// The getters of a pool say what it holds.
pub proof fn getters_say_what_is_held(
    pool: ChallengePool,
    id: U256,
    account: Address,
    status: Result<u8, Vec<u8>>,
    operates: Result<bool, Vec<u8>>,
    rate: Result<U256, Vec<u8>>,
)
    requires
        call_ensures(ChallengePool::challenge_status, (&pool, id), status),
        call_ensures(ChallengePool::is_operator, (&pool, account), operates),
        call_ensures(ChallengePool::commission_rate, (&pool,), rate),
    ensures
        status matches Ok(s) && s == pool.challenges@[id@].status,
        operates matches Ok(o) && o == pool.operators@.contains(account.bytes@),
        rate matches Ok(r) && r@ == pool.base_commission_rate@,
{
}

} // verus!
