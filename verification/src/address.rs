//! Account addresses, and flags kept per address.

use vstd::prelude::*;

verus! {

/// The address of no account: twenty zero bytes.
pub open spec fn zero_address() -> Seq<u8> {
    Seq::new(20, |i: int| 0u8)
}

/// A 20-byte account address.
#[derive(Clone, Copy, Debug)]
pub struct Address {
    pub bytes: [u8; 20],
}

impl View for Address {
    type V = Seq<u8>;

    open spec fn view(&self) -> Seq<u8> {
        self.bytes@
    }
}

impl vstd::std_specs::cmp::PartialEqSpecImpl for Address {
    open spec fn obeys_eq_spec() -> bool {
        true
    }

    open spec fn eq_spec(&self, other: &Address) -> bool {
        self@ == other@
    }
}

impl PartialEq for Address {
    fn eq(&self, other: &Address) -> (equal: bool) {
        let mut i: usize = 0;
        while i < 20
            invariant
                i <= 20,
                forall|j: int| 0 <= j < i ==> self@[j] == other@[j],
            decreases 20 - i,
        {
            if self.bytes[i] != other.bytes[i] {
                return false;
            }
            i = i + 1;
        }
        assert(self@ =~= other@);
        true
    }
}

impl Eq for Address {

}

impl Address {
    /// The address with the given bytes.
    pub fn from_bytes(bytes: [u8; 20]) -> (address: Address)
        ensures
            address@ == bytes@,
    {
        Address { bytes }
    }

    /// The zero address.
    pub fn zero() -> (address: Address)
        ensures
            address@ == zero_address(),
    {
        let address = Address { bytes: [0u8; 20] };
        assert(address@ =~= zero_address());
        address
    }

    /// Whether this is the zero address.
    pub fn is_zero(&self) -> (zero: bool)
        ensures
            zero == (self@ == zero_address()),
    {
        *self == Address::zero()
    }
}

/// The addresses of a list.
pub open spec fn listed(list: Seq<Address>) -> Set<Seq<u8>> {
    list.map_values(|address: Address| address@).to_set()
}

/// An address is listed where some entry is that address.
pub proof fn lemma_listed_contains(list: Seq<Address>, bytes: Seq<u8>)
    ensures
        listed(list).contains(bytes) <==> exists|i: int|
            0 <= i < list.len() && (#[trigger] list[i])@ == bytes,
{
    let views = list.map_values(|address: Address| address@);
    if listed(list).contains(bytes) {
        let i = choose|i: int| 0 <= i < views.len() && views[i] == bytes;
        assert(list[i]@ == bytes);
    }
    if exists|i: int| 0 <= i < list.len() && (#[trigger] list[i])@ == bytes {
        let i = choose|i: int| 0 <= i < list.len() && (#[trigger] list[i])@ == bytes;
        assert(views[i] == bytes);
    }
}

/// Appending an address lists it too.
pub proof fn lemma_listed_push(list: Seq<Address>, address: Address)
    ensures
        listed(list.push(address)) == listed(list).insert(address@),
{
    let longer = list.push(address);
    assert forall|bytes: Seq<u8>|
        listed(longer).contains(bytes) == listed(list).insert(address@).contains(bytes) by {
        lemma_listed_contains(list, bytes);
        lemma_listed_contains(longer, bytes);
        assert(longer[list.len() as int] == address);
        if listed(list).contains(bytes) {
            let i = choose|i: int| 0 <= i < list.len() && (#[trigger] list[i])@ == bytes;
            assert(longer[i]@ == bytes);
        }
    }
    assert(listed(longer) =~= listed(list).insert(address@));
}

/// A flag per address, lowered for every address until it is raised. It is
/// seen as the set of the addresses whose flag is raised.
pub struct AddressFlags {
    raised: Vec<Address>,
}

impl View for AddressFlags {
    type V = Set<Seq<u8>>;

    closed spec fn view(&self) -> Set<Seq<u8>> {
        listed(self.raised@)
    }
}

impl AddressFlags {
    /// All flags lowered.
    pub fn new() -> (flags: AddressFlags)
        ensures
            flags@ == Set::<Seq<u8>>::empty(),
    {
        let flags = AddressFlags { raised: Vec::new() };
        assert(flags@ =~= Set::empty());
        flags
    }

    /// The flag of `address`.
    pub fn get(&self, address: Address) -> (raised: bool)
        ensures
            raised == self@.contains(address@),
    {
        proof {
            lemma_listed_contains(self.raised@, address@);
        }
        let mut i: usize = 0;
        while i < self.raised.len()
            invariant
                i <= self.raised@.len(),
                self@.contains(address@) ==> exists|j: int|
                    i <= j < self.raised@.len() && (#[trigger] self.raised@[j])@ == address@,
                forall|j: int|
                    0 <= j < self.raised@.len() && (#[trigger] self.raised@[j])@ == address@
                        ==> self@.contains(address@),
            decreases self.raised@.len() - i,
        {
            if self.raised[i] == address {
                return true;
            }
            i = i + 1;
        }
        false
    }

    /// Sets the flag of `address`.
    pub fn set(&mut self, address: Address, raise: bool)
        ensures
            final(self)@ == if raise {
                old(self)@.insert(address@)
            } else {
                old(self)@.remove(address@)
            },
    {
        if raise {
            if !self.get(address) {
                proof {
                    lemma_listed_push(self.raised@, address);
                }
                self.raised.push(address);
            }
            assert(self@ =~= old(self)@.insert(address@));
        } else {
            let mut kept: Vec<Address> = Vec::new();
            let mut i: usize = 0;
            assert(listed(kept@) =~= listed(self.raised@.take(0)).remove(address@));
            while i < self.raised.len()
                invariant
                    i <= self.raised@.len(),
                    listed(kept@) == listed(self.raised@.take(i as int)).remove(address@),
                decreases self.raised@.len() - i,
            {
                let one = self.raised[i];
                proof {
                    assert(self.raised@.take(i + 1) =~= self.raised@.take(i as int).push(one));
                    lemma_listed_push(self.raised@.take(i as int), one);
                    lemma_listed_push(kept@, one);
                }
                if one != address {
                    kept.push(one);
                }
                i = i + 1;
                assert(listed(kept@) =~= listed(self.raised@.take(i as int)).remove(address@));
            }
            assert(self.raised@.take(i as int) =~= self.raised@);
            self.raised = kept;
        }
    }
}

} // verus!
