//! The bytes exchanged with the token and the vault: call data and return data
//! in the Solidity contract ABI.

use vstd::prelude::*;

use crate::address::Address;
use crate::bytes::{be_bytes, be_value};
use crate::word::{word_from_be_slice, U256};

verus! {

/// The 32 bytes of a `uint256` argument.
pub open spec fn uint_word(value: nat) -> Seq<u8> {
    be_bytes(value, 32)
}

/// The 32 bytes of an `address` argument: the address, padded on the left.
pub open spec fn address_word(address: Seq<u8>) -> Seq<u8> {
    Seq::new(12, |i: int| 0u8) + address
}

/// The call data of `transfer(address to, uint256 amount)`.
pub open spec fn transfer_data(to: Seq<u8>, amount: nat) -> Seq<u8> {
    seq![0xa9u8, 0x05u8, 0x9cu8, 0xbbu8] + address_word(to) + uint_word(amount)
}

/// The call data of `transferFrom(address from, address to, uint256 amount)`.
pub open spec fn transfer_from_data(from: Seq<u8>, to: Seq<u8>, amount: nat) -> Seq<u8> {
    seq![0x23u8, 0xb8u8, 0x72u8, 0xddu8] + address_word(from) + address_word(to) + uint_word(amount)
}

/// The call data of `approve(address spender, uint256 amount)`.
pub open spec fn approve_data(spender: Seq<u8>, amount: nat) -> Seq<u8> {
    seq![0x09u8, 0x5eu8, 0xa7u8, 0xb3u8] + address_word(spender) + uint_word(amount)
}

/// The call data of `deposit(uint256 assets)`.
pub open spec fn vault_deposit_data(assets: nat) -> Seq<u8> {
    seq![0xb6u8, 0xb5u8, 0x5fu8, 0x25u8] + uint_word(assets)
}

/// The call data of `redeemShares(uint256 shares, address to)`.
pub open spec fn redeem_shares_data(shares: nat, to: Seq<u8>) -> Seq<u8> {
    seq![0x98u8, 0x3cu8, 0x67u8, 0x6du8] + uint_word(shares) + address_word(to)
}

/// The number in the first word of some return data, or zero where there is no
/// whole word.
pub open spec fn returned_value(data: Seq<u8>) -> nat {
    if data.len() < 32 {
        0
    } else {
        be_value(data.take(32))
    }
}

/// `SolValue::abi_encode` of an `alloy_primitives::U256`: one 32-byte word, the
/// number in big-endian order.
#[verifier::external_body]
fn encode_uint(value: U256) -> (word: Vec<u8>)
    ensures
        word@ == uint_word(value@),
{
    alloy_sol_types::SolValue::abi_encode(&alloy_primitives::U256::from_limbs(value.limbs))
}

/// `SolValue::abi_encode` of an `alloy_primitives::Address`: one 32-byte word,
/// the twenty bytes of the address after twelve zero bytes.
#[verifier::external_body]
fn encode_address(address: Address) -> (word: Vec<u8>)
    ensures
        word@ == address_word(address@),
{
    alloy_sol_types::SolValue::abi_encode(&alloy_primitives::Address::new(address.bytes))
}

/// Call data of the token's `transfer`.
pub fn encode_transfer(to: Address, amount: U256) -> (data: Vec<u8>)
    ensures
        data@ == transfer_data(to@, amount@),
{
    let mut data: Vec<u8> = vec![0xa9, 0x05, 0x9c, 0xbb];
    data.append(&mut encode_address(to));
    data.append(&mut encode_uint(amount));
    data
}

/// Call data of the token's `transferFrom`.
pub fn encode_transfer_from(from: Address, to: Address, amount: U256) -> (data: Vec<u8>)
    ensures
        data@ == transfer_from_data(from@, to@, amount@),
{
    let mut data: Vec<u8> = vec![0x23, 0xb8, 0x72, 0xdd];
    data.append(&mut encode_address(from));
    data.append(&mut encode_address(to));
    data.append(&mut encode_uint(amount));
    data
}

/// Call data of the token's `approve`.
pub fn encode_approve(spender: Address, amount: U256) -> (data: Vec<u8>)
    ensures
        data@ == approve_data(spender@, amount@),
{
    let mut data: Vec<u8> = vec![0x09, 0x5e, 0xa7, 0xb3];
    data.append(&mut encode_address(spender));
    data.append(&mut encode_uint(amount));
    data
}

/// Call data of the vault's `deposit`.
pub fn encode_vault_deposit(assets: U256) -> (data: Vec<u8>)
    ensures
        data@ == vault_deposit_data(assets@),
{
    let mut data: Vec<u8> = vec![0xb6, 0xb5, 0x5f, 0x25];
    data.append(&mut encode_uint(assets));
    data
}

/// Call data of the vault's `redeemShares`.
pub fn encode_redeem_shares(shares: U256, to: Address) -> (data: Vec<u8>)
    ensures
        data@ == redeem_shares_data(shares@, to@),
{
    let mut data: Vec<u8> = vec![0x98, 0x3c, 0x67, 0x6d];
    data.append(&mut encode_uint(shares));
    data.append(&mut encode_address(to));
    data
}

/// Reads the `uint256` that a call returned; zero where the return data is too
/// short to hold one.
pub fn read_u256(data: &[u8]) -> (value: U256)
    ensures
        value@ == returned_value(data@),
{
    if data.len() < 32 {
        return U256::zero();
    }
    let word = &data[0..32];
    assert(word@ =~= data@.take(32));
    word_from_be_slice(word)
}

} // verus!
