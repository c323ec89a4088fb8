//! What the bytes of a call ask for, read back argument by argument, and that
//! the encoders write it.

use vstd::prelude::*;

use crate::abi::{
    address_word, approve_data, encode_approve, encode_redeem_shares, encode_transfer,
    encode_transfer_from, encode_vault_deposit, read_u256, redeem_shares_data, returned_value,
    transfer_data, transfer_from_data, uint_word, vault_deposit_data,
};
use crate::address::Address;
use crate::bytes::{be_bytes, be_range, be_value, lemma_be_bytes_read_back};
use crate::host::CallView;
use crate::word::{modulus, U256};

verus! {

/// The bytes of one argument in some call data: four bytes name the function,
/// then every argument has 32.
pub open spec fn argument(data: Seq<u8>, i: int) -> Seq<u8> {
    data.subrange(4 + 32 * i, 36 + 32 * i)
}

/// Whether a call asks `to` for the function with the given selector, and its
/// arguments, read as numbers, are the given ones and no others.
pub open spec fn asks(
    call: CallView,
    to: Seq<u8>,
    selector: Seq<u8>,
    arguments: Seq<nat>,
) -> bool {
    &&& call.to == to
    &&& call.data.len() == 4 + 32 * arguments.len()
    &&& call.data.take(4) == selector
    &&& forall|i: int|
        0 <= i < arguments.len() ==> be_value(#[trigger] argument(call.data, i)) == arguments[i]
}

/// Whether a call asks `token` to pay `amount` to `to`.
pub open spec fn pays(call: CallView, token: Seq<u8>, to: Seq<u8>, amount: nat) -> bool {
    asks(call, token, seq![0xa9u8, 0x05u8, 0x9cu8, 0xbbu8], seq![be_value(to), amount])
}

/// Whether a call asks `token` to move `amount` from `from` to `to`.
pub open spec fn pulls(
    call: CallView,
    token: Seq<u8>,
    from: Seq<u8>,
    to: Seq<u8>,
    amount: nat,
) -> bool {
    asks(
        call,
        token,
        seq![0x23u8, 0xb8u8, 0x72u8, 0xddu8],
        seq![be_value(from), be_value(to), amount],
    )
}

/// Whether a call asks `token` to let `spender` take `amount`.
pub open spec fn approves(call: CallView, token: Seq<u8>, spender: Seq<u8>, amount: nat) -> bool {
    asks(call, token, seq![0x09u8, 0x5eu8, 0xa7u8, 0xb3u8], seq![be_value(spender), amount])
}

/// Whether a call asks `vault` to take `assets` in.
pub open spec fn puts_in(call: CallView, vault: Seq<u8>, assets: nat) -> bool {
    asks(call, vault, seq![0xb6u8, 0xb5u8, 0x5fu8, 0x25u8], seq![assets])
}

/// Whether a call asks `vault` to redeem `shares` to `to`.
pub open spec fn redeems(call: CallView, vault: Seq<u8>, shares: nat, to: Seq<u8>) -> bool {
    asks(call, vault, seq![0x98u8, 0x3cu8, 0x67u8, 0x6du8], seq![shares, be_value(to)])
}

/// Bytes of the same number that are equally many are the same bytes.
pub proof fn same_number_same_bytes(a: Seq<u8>, b: Seq<u8>)
    requires
        a.len() == b.len(),
        be_value(a) == be_value(b),
    ensures
        a == b,
    decreases a.len(),
{
    if a.len() > 0 {
        same_number_same_bytes(a.drop_last(), b.drop_last());
        assert(a =~= a.drop_last().push(a.last()));
        assert(b =~= b.drop_last().push(b.last()));
    } else {
        assert(a =~= b);
    }
}

/// A call is determined by whom it asks for what: two calls that ask the same
/// are the same call.
pub proof fn same_question_same_call(
    one: CallView,
    other: CallView,
    to: Seq<u8>,
    selector: Seq<u8>,
    arguments: Seq<nat>,
)
    requires
        asks(one, to, selector, arguments),
        asks(other, to, selector, arguments),
    ensures
        one == other,
{
    assert forall|k: int| 0 <= k < one.data.len() implies one.data[k] == other.data[k] by {
        if k < 4 {
            assert(one.data.take(4)[k] == other.data.take(4)[k]);
        } else {
            let i = (k - 4) / 32;
            assert(0 <= i < arguments.len());
            same_number_same_bytes(argument(one.data, i), argument(other.data, i));
            assert(argument(one.data, i)[k - 4 - 32 * i] == argument(
                other.data,
                i,
            )[k - 4 - 32 * i]);
        }
    }
    assert(one.data =~= other.data);
}

/// A call asks for one thing only: two readings of it agree, and so do the
/// addresses that they name.
pub proof fn call_asks_one_thing(
    call: CallView,
    to: Seq<u8>,
    selector: Seq<u8>,
    arguments: Seq<nat>,
    other_to: Seq<u8>,
    other_selector: Seq<u8>,
    other_arguments: Seq<nat>,
)
    requires
        asks(call, to, selector, arguments),
        asks(call, other_to, other_selector, other_arguments),
    ensures
        to == other_to,
        selector == other_selector,
        arguments == other_arguments,
{
    assert forall|i: int| 0 <= i < arguments.len() implies arguments[i] == other_arguments[i] by {
        assert(be_value(argument(call.data, i)) == arguments[i]);
    }
    assert(arguments =~= other_arguments);
}

/// Leading zero bytes do not count.
proof fn lemma_leading_zeros(zeros: Seq<u8>, bytes: Seq<u8>)
    requires
        forall|i: int| 0 <= i < zeros.len() ==> zeros[i] == 0,
    ensures
        be_value(zeros + bytes) == be_value(bytes),
    decreases zeros.len() + bytes.len(),
{
    let all = zeros + bytes;
    if bytes.len() > 0 {
        assert(all.drop_last() =~= zeros + bytes.drop_last());
        lemma_leading_zeros(zeros, bytes.drop_last());
    } else if zeros.len() > 0 {
        assert(all =~= zeros);
        assert(zeros.drop_last() + bytes =~= all.drop_last());
        lemma_leading_zeros(zeros.drop_last(), bytes);
    } else {
        assert(all =~= bytes);
    }
}

/// An address has a whole word, which reads as the number of the address.
proof fn lemma_address_word(address: Seq<u8>)
    requires
        address.len() == 20,
    ensures
        address_word(address).len() == 32,
        be_value(address_word(address)) == be_value(address),
{
    lemma_leading_zeros(Seq::new(12, |i: int| 0u8), address);
}

/// A number has a whole word, which reads as the number.
proof fn lemma_uint_word(value: nat)
    requires
        value < modulus(),
    ensures
        uint_word(value).len() == 32,
        be_value(uint_word(value)) == value,
{
    assert(be_range(32) == modulus()) by {
        reveal_with_fuel(be_range, 33);
    }
    lemma_be_bytes_read_back(value, 32);
}

/// The call data of the token's `transfer` asks for that payment.
pub proof fn transfer_data_pays(token: Seq<u8>, to: Seq<u8>, amount: nat)
    requires
        to.len() == 20,
        amount < modulus(),
    ensures
        pays((CallView { to: token, data: transfer_data(to, amount) }), token, to, amount),
{
    let data = transfer_data(to, amount);
    lemma_address_word(to);
    lemma_uint_word(amount);
    assert(data.take(4) =~= seq![0xa9u8, 0x05u8, 0x9cu8, 0xbbu8]);
    assert(argument(data, 0) =~= address_word(to));
    assert(argument(data, 1) =~= uint_word(amount));
}

/// The call data of the token's `transferFrom` asks for that transfer.
pub proof fn transfer_from_data_pulls(token: Seq<u8>, from: Seq<u8>, to: Seq<u8>, amount: nat)
    requires
        from.len() == 20,
        to.len() == 20,
        amount < modulus(),
    ensures
        pulls(
            (CallView { to: token, data: transfer_from_data(from, to, amount) }),
            token,
            from,
            to,
            amount,
        ),
{
    let data = transfer_from_data(from, to, amount);
    lemma_address_word(from);
    lemma_address_word(to);
    lemma_uint_word(amount);
    assert(data.take(4) =~= seq![0x23u8, 0xb8u8, 0x72u8, 0xddu8]);
    assert(argument(data, 0) =~= address_word(from));
    assert(argument(data, 1) =~= address_word(to));
    assert(argument(data, 2) =~= uint_word(amount));
}

/// The call data of the token's `approve` asks for that approval.
pub proof fn approve_data_approves(token: Seq<u8>, spender: Seq<u8>, amount: nat)
    requires
        spender.len() == 20,
        amount < modulus(),
    ensures
        approves(
            (CallView { to: token, data: approve_data(spender, amount) }),
            token,
            spender,
            amount,
        ),
{
    let data = approve_data(spender, amount);
    lemma_address_word(spender);
    lemma_uint_word(amount);
    assert(data.take(4) =~= seq![0x09u8, 0x5eu8, 0xa7u8, 0xb3u8]);
    assert(argument(data, 0) =~= address_word(spender));
    assert(argument(data, 1) =~= uint_word(amount));
}

/// The call data of the vault's `deposit` asks it to take the assets in.
pub proof fn vault_deposit_data_puts_in(vault: Seq<u8>, assets: nat)
    requires
        assets < modulus(),
    ensures
        puts_in((CallView { to: vault, data: vault_deposit_data(assets) }), vault, assets),
{
    let data = vault_deposit_data(assets);
    lemma_uint_word(assets);
    assert(data.take(4) =~= seq![0xb6u8, 0xb5u8, 0x5fu8, 0x25u8]);
    assert(argument(data, 0) =~= uint_word(assets));
}

/// The call data of the vault's `redeemShares` asks for that redemption.
pub proof fn redeem_shares_data_redeems(vault: Seq<u8>, shares: nat, to: Seq<u8>)
    requires
        to.len() == 20,
        shares < modulus(),
    ensures
        redeems(
            (CallView { to: vault, data: redeem_shares_data(shares, to) }),
            vault,
            shares,
            to,
        ),
{
    let data = redeem_shares_data(shares, to);
    lemma_address_word(to);
    lemma_uint_word(shares);
    assert(data.take(4) =~= seq![0x98u8, 0x3cu8, 0x67u8, 0x6du8]);
    assert(argument(data, 0) =~= uint_word(shares));
    assert(argument(data, 1) =~= address_word(to));
}

/// What the encoders give, sent to anybody, asks there for what they were given.
pub proof fn encoders_ask_for_their_arguments(
    at: Seq<u8>,
    a: Address,
    b: Address,
    n: U256,
    transfer: Vec<u8>,
    transfer_from: Vec<u8>,
    approve: Vec<u8>,
    deposit: Vec<u8>,
    redeem: Vec<u8>,
)
    requires
        call_ensures(encode_transfer, (a, n), transfer),
        call_ensures(encode_transfer_from, (a, b, n), transfer_from),
        call_ensures(encode_approve, (a, n), approve),
        call_ensures(encode_vault_deposit, (n,), deposit),
        call_ensures(encode_redeem_shares, (n, a), redeem),
    ensures
        pays((CallView { to: at, data: transfer@ }), at, a.bytes@, n@),
        pulls((CallView { to: at, data: transfer_from@ }), at, a.bytes@, b.bytes@, n@),
        approves((CallView { to: at, data: approve@ }), at, a.bytes@, n@),
        puts_in((CallView { to: at, data: deposit@ }), at, n@),
        redeems((CallView { to: at, data: redeem@ }), at, n@, a.bytes@),
{
    transfer_data_pays(at, a@, n@);
    transfer_from_data_pulls(at, a@, b@, n@);
    approve_data_approves(at, a@, n@);
    vault_deposit_data_puts_in(at, n@);
    redeem_shares_data_redeems(at, n@, a@);
}

/// Bytes spell a number that has no more digits than they are.
pub proof fn number_fits_its_bytes(bytes: Seq<u8>)
    ensures
        be_value(bytes) < be_range(bytes.len()),
    decreases bytes.len(),
{
    if bytes.len() > 0 {
        number_fits_its_bytes(bytes.drop_last());
    }
}

/// Return data is read by its first 32 bytes: they are the word of the number
/// that is read, and no other number fits them. Shorter data reads as zero.
pub proof fn return_data_is_read_by_its_first_word(data: &[u8], value: U256)
    requires
        call_ensures(read_u256, (data,), value),
    ensures
        data@.len() < 32 ==> value@ == 0,
        data@.len() >= 32 ==> be_value(data@.take(32)) == value@,
        data@.len() >= 32 ==> be_bytes(value@, 32) == data@.take(32),
        value@ == returned_value(data@),
{
    if data@.len() >= 32 {
        lemma_uint_word(value@);
        same_number_same_bytes(be_bytes(value@, 32), data@.take(32));
    }
}

/// What is read of some return data fits in a word.
pub proof fn returned_value_fits_in_a_word(data: Seq<u8>)
    ensures
        returned_value(data) < modulus(),
{
    if data.len() >= 32 {
        number_fits_its_bytes(data.take(32));
        assert(be_range(32) == modulus()) by {
            reveal_with_fuel(be_range, 33);
        }
    }
}

} // verus!
