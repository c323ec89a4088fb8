//! One challenge, and the challenges of a pool by their identifiers.

use vstd::prelude::*;

use crate::address::{zero_address, Address, AddressFlags};
use crate::logic::STATE_ABIERTO;
use crate::word::{modulus, U256};

verus! {

/// What a [`Challenge`] says, with numbers for words and sets for flags.
#[verifier::ext_equal]
pub struct ChallengeView {
    pub creator: Seq<u8>,
    pub required_deposit: nat,
    pub deadline: nat,
    pub status: u8,
    pub winner: Seq<u8>,
    pub treasury_shares: nat,
    pub participant_count: nat,
    pub deposited_count: nat,
    pub participants: Set<Seq<u8>>,
    pub has_deposited: Set<Seq<u8>>,
    pub claimed_refund: Set<Seq<u8>>,
}

/// A challenge that nobody has created: every field has its zero value.
pub open spec fn blank_challenge() -> ChallengeView {
    ChallengeView {
        creator: zero_address(),
        required_deposit: 0,
        deadline: 0,
        status: STATE_ABIERTO,
        winner: zero_address(),
        treasury_shares: 0,
        participant_count: 0,
        deposited_count: 0,
        participants: Set::empty(),
        has_deposited: Set::empty(),
        claimed_refund: Set::empty(),
    }
}

/// The record of one challenge.
pub struct Challenge {
    pub creator: Address,
    pub required_deposit: U256,
    pub deadline: U256,
    pub status: u8,
    pub winner: Address,
    /// Vault shares of the pot; once refunded, the share of each participant.
    pub treasury_shares: U256,
    pub participant_count: U256,
    pub deposited_count: U256,
    pub participants: AddressFlags,
    pub has_deposited: AddressFlags,
    pub claimed_refund: AddressFlags,
}

impl View for Challenge {
    type V = ChallengeView;

    open spec fn view(&self) -> ChallengeView {
        ChallengeView {
            creator: self.creator@,
            required_deposit: self.required_deposit@,
            deadline: self.deadline@,
            status: self.status,
            winner: self.winner@,
            treasury_shares: self.treasury_shares@,
            participant_count: self.participant_count@,
            deposited_count: self.deposited_count@,
            participants: self.participants@,
            has_deposited: self.has_deposited@,
            claimed_refund: self.claimed_refund@,
        }
    }
}

impl Challenge {
    /// A challenge that nobody has created.
    pub fn blank() -> (challenge: Challenge)
        ensures
            challenge@ == blank_challenge(),
    {
        Challenge {
            creator: Address::zero(),
            required_deposit: U256::zero(),
            deadline: U256::zero(),
            status: STATE_ABIERTO,
            winner: Address::zero(),
            treasury_shares: U256::zero(),
            participant_count: U256::zero(),
            deposited_count: U256::zero(),
            participants: AddressFlags::new(),
            has_deposited: AddressFlags::new(),
            claimed_refund: AddressFlags::new(),
        }
    }
}

/// The challenge under `id`: the last entry with that identifier, or a blank one.
spec fn lookup(entries: Seq<(U256, Challenge)>, id: nat) -> ChallengeView
    decreases entries.len(),
{
    if entries.len() == 0 {
        blank_challenge()
    } else if entries.last().0@ == id {
        entries.last().1@
    } else {
        lookup(entries.drop_last(), id)
    }
}

/// Entries with other identifiers after an entry do not hide it.
proof fn lemma_lookup_at(entries: Seq<(U256, Challenge)>, id: nat, i: int)
    requires
        0 <= i < entries.len(),
        entries[i].0@ == id,
        forall|j: int| i < j < entries.len() ==> (#[trigger] entries[j]).0@ != id,
    ensures
        lookup(entries, id) == entries[i].1@,
    decreases entries.len(),
{
    if i < entries.len() - 1 {
        assert(entries[entries.len() - 1].0@ != id);
        lemma_lookup_at(entries.drop_last(), id, i);
    }
}

/// Without an entry of that identifier, the challenge is blank.
proof fn lemma_lookup_absent(entries: Seq<(U256, Challenge)>, id: nat)
    requires
        forall|j: int| 0 <= j < entries.len() ==> (#[trigger] entries[j]).0@ != id,
    ensures
        lookup(entries, id) == blank_challenge(),
    decreases entries.len(),
{
    if entries.len() > 0 {
        assert(entries[entries.len() - 1].0@ != id);
        lemma_lookup_absent(entries.drop_last(), id);
    }
}

/// Changing the record of one entry changes nothing under other identifiers.
proof fn lemma_lookup_other(
    before: Seq<(U256, Challenge)>,
    after: Seq<(U256, Challenge)>,
    i: int,
    id: nat,
)
    requires
        before.len() == after.len(),
        forall|j: int| 0 <= j < before.len() && j != i ==> #[trigger] before[j] == after[j],
        0 <= i < before.len() ==> before[i].0@ == after[i].0@ && before[i].0@ != id,
    ensures
        lookup(before, id) == lookup(after, id),
    decreases before.len(),
{
    if before.len() > 0 {
        let last = before.len() - 1;
        assert(before[last].0@ == after[last].0@);
        let shorter_before = before.drop_last();
        let shorter_after = after.drop_last();
        assert forall|j: int|
            0 <= j < shorter_before.len() && j
                != i implies #[trigger] shorter_before[j] == shorter_after[j] by {
            assert(before[j] == after[j]);
        }
        lemma_lookup_other(shorter_before, shorter_after, i, id);
    }
}

/// The numbers of a record are words, and its addresses have twenty bytes.
pub open spec fn has_word_fields(challenge: ChallengeView) -> bool {
    &&& challenge.creator.len() == 20
    &&& challenge.required_deposit < modulus()
    &&& challenge.deadline < modulus()
    &&& challenge.winner.len() == 20
    &&& challenge.treasury_shares < modulus()
    &&& challenge.participant_count < modulus()
    &&& challenge.deposited_count < modulus()
}

/// What is looked up is a record of words and addresses, or blank.
proof fn lemma_lookup_has_word_fields(entries: Seq<(U256, Challenge)>, id: nat)
    ensures
        has_word_fields(lookup(entries, id)),
    decreases entries.len(),
{
    if entries.len() > 0 && entries.last().0@ != id {
        lemma_lookup_has_word_fields(entries.drop_last(), id);
    }
}

/// The challenges that the entries hold, one under each identifier.
spec fn seen(entries: Seq<(U256, Challenge)>) -> Map<nat, ChallengeView> {
    Map::total(|id: nat| lookup(entries, id))
}

/// Whether `i` is the last entry with the identifier `id`.
spec fn is_last(entries: Seq<(U256, Challenge)>, id: nat, i: int) -> bool {
    &&& 0 <= i < entries.len()
    &&& entries[i].0@ == id
    &&& forall|j: int| i < j < entries.len() ==> (#[trigger] entries[j]).0@ != id
}

/// Replacing the record of the last entry with an identifier replaces the
/// challenge under that identifier.
proof fn lemma_seen_update(entries: Seq<(U256, Challenge)>, id: nat, i: int, new: (U256, Challenge))
    requires
        is_last(entries, id, i),
        new.0 == entries[i].0,
    ensures
        seen(entries.update(i, new)) == seen(entries).insert(id, new.1@),
{
    let after = entries.update(i, new);
    assert forall|other: nat| #[trigger]
        seen(after)[other] == seen(entries).insert(id, new.1@)[other] by {
        if other == id {
            lemma_lookup_at(after, id, i);
        } else {
            lemma_lookup_other(entries, after, i, other);
        }
    }
    assert(seen(after) =~= seen(entries).insert(id, new.1@));
}

/// Appending a blank challenge where there was none changes nothing.
proof fn lemma_seen_push(entries: Seq<(U256, Challenge)>, new: (U256, Challenge))
    requires
        forall|j: int| 0 <= j < entries.len() ==> (#[trigger] entries[j]).0@ != new.0@,
        new.1@ == blank_challenge(),
    ensures
        seen(entries.push(new)) == seen(entries),
{
    let after = entries.push(new);
    lemma_lookup_absent(entries, new.0@);
    assert(after.drop_last() =~= entries);
    assert(seen(after) =~= seen(entries));
}

/// The challenges of a pool. Every identifier has one; it is blank until it is
/// written.
pub struct Challenges {
    entries: Vec<(U256, Challenge)>,
}

impl View for Challenges {
    type V = Map<nat, ChallengeView>;

    closed spec fn view(&self) -> Map<nat, ChallengeView> {
        seen(self.entries@)
    }
}

impl Challenges {
    /// No challenge written yet.
    pub fn new() -> (challenges: Challenges)
        ensures
            challenges@ == Map::total(|id: nat| blank_challenge()),
    {
        let challenges = Challenges { entries: Vec::new() };
        assert(challenges@ =~= Map::total(|id: nat| blank_challenge()));
        challenges
    }

    /// The numbers of every challenge are words, and its addresses have twenty
    /// bytes.
    pub proof fn challenges_have_word_fields(self, id: nat)
        ensures
            has_word_fields(self@[id]),
    {
        lemma_lookup_has_word_fields(self.entries@, id);
    }

    /// The last entry with the identifier `id`.
    fn position(&self, id: U256) -> (found: Option<usize>)
        ensures
            match found {
                Some(i) => is_last(self.entries@, id@, i as int),
                None => forall|j: int|
                    0 <= j < self.entries@.len() ==> (#[trigger] self.entries@[j]).0@ != id@,
            },
    {
        let mut i: usize = self.entries.len();
        while i > 0
            invariant
                i <= self.entries@.len(),
                forall|j: int|
                    i <= j < self.entries@.len() ==> (#[trigger] self.entries@[j]).0@ != id@,
            decreases i,
        {
            i = i - 1;
            if self.entries[i].0 == id {
                return Some(i);
            }
        }
        None
    }

    /// The challenge under `id`, if it was ever written.
    pub fn getter(&self, id: U256) -> (found: Option<&Challenge>)
        ensures
            self@[id@] == match found {
                Some(challenge) => challenge@,
                None => blank_challenge(),
            },
    {
        match self.position(id) {
            Some(i) => {
                proof {
                    lemma_lookup_at(self.entries@, id@, i as int);
                }
                Some(&self.entries[i].1)
            },
            None => {
                proof {
                    lemma_lookup_absent(self.entries@, id@);
                }
                None
            },
        }
    }

    /// The challenge under `id`, for reading and writing; every identifier has
    /// one.
    pub fn setter(&mut self, id: U256) -> (slot: &mut Challenge)
        ensures
            old(self)@.contains_key(id@),
            (*slot)@ == old(self)@[id@],
            final(self)@ == old(self)@.insert(id@, (*final(slot))@),
    {
        let index: usize = match self.position(id) {
            Some(i) => i,
            None => {
                let blank = Challenge::blank();
                proof {
                    lemma_seen_push(self.entries@, (id, blank));
                }
                self.entries.push((id, blank));
                self.entries.len() - 1
            },
        };
        proof {
            let entries = self.entries@;
            lemma_lookup_at(entries, id@, index as int);
            assert forall|new: (U256, Challenge)|
                new.0 == entries[index as int].0 implies #[trigger] seen(
                entries.update(index as int, new),
            ) == seen(entries).insert(id@, new.1@) by {
                lemma_seen_update(entries, id@, index as int, new);
            }
        }
        &mut self.entries[index].1
    }
}

} // verus!
