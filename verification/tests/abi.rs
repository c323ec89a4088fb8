//! Call data and return data against the outside encoder and hash.

use alloy_primitives::keccak256;
use challenge_pool::abi::{
    encode_approve, encode_redeem_shares, encode_transfer, encode_transfer_from,
    encode_vault_deposit, read_u256,
};
use challenge_pool::address::Address;
use challenge_pool::word::U256;

fn account(n: u8) -> Address {
    let mut bytes = [n; 20];
    bytes[0] = 0xee;
    Address::from_bytes(bytes)
}

fn padded(address: Address) -> Vec<u8> {
    let mut word = vec![0u8; 12];
    word.extend_from_slice(&address.bytes);
    word
}

fn big_endian(value: U256) -> Vec<u8> {
    let mut word = Vec::new();
    for limb in value.limbs.iter().rev() {
        word.extend_from_slice(&limb.to_be_bytes());
    }
    word
}

fn call(signature: &str, words: Vec<Vec<u8>>) -> Vec<u8> {
    let mut data = keccak256(signature.as_bytes())[..4].to_vec();
    for word in words {
        data.extend_from_slice(&word);
    }
    data
}

fn amount() -> U256 {
    U256::from_limbs([0x1122_3344_5566_7788, 5, 0, 0x99])
}

#[test]
fn transfer_call_data() {
    assert_eq!(
        encode_transfer(account(1), amount()),
        call(
            "transfer(address,uint256)",
            vec![padded(account(1)), big_endian(amount())]
        )
    );
}

#[test]
fn transfer_from_call_data() {
    assert_eq!(
        encode_transfer_from(account(1), account(2), amount()),
        call(
            "transferFrom(address,address,uint256)",
            vec![padded(account(1)), padded(account(2)), big_endian(amount())]
        )
    );
}

#[test]
fn approve_call_data() {
    assert_eq!(
        encode_approve(account(3), amount()),
        call(
            "approve(address,uint256)",
            vec![padded(account(3)), big_endian(amount())]
        )
    );
}

#[test]
fn vault_deposit_call_data() {
    assert_eq!(
        encode_vault_deposit(amount()),
        call("deposit(uint256)", vec![big_endian(amount())])
    );
}

#[test]
fn redeem_shares_call_data() {
    assert_eq!(
        encode_redeem_shares(amount(), account(4)),
        call(
            "redeemShares(uint256,address)",
            vec![big_endian(amount()), padded(account(4))]
        )
    );
}

#[test]
fn transfer_call_data_in_full() {
    let mut bytes = [0u8; 20];
    bytes[19] = 0x0a;
    let data = encode_transfer(Address::from_bytes(bytes), U256::from_u64(0x0102));
    let mut expected = vec![0xa9, 0x05, 0x9c, 0xbb];
    expected.extend_from_slice(&[0u8; 31]);
    expected.push(0x0a);
    expected.extend_from_slice(&[0u8; 30]);
    expected.extend_from_slice(&[0x01, 0x02]);
    assert_eq!(data, expected);
}

#[test]
fn returned_word_is_read() {
    assert_eq!(read_u256(&big_endian(amount())), amount());
    let mut longer = big_endian(amount());
    longer.extend_from_slice(&[0xff; 40]);
    assert_eq!(read_u256(&longer), amount());
}

#[test]
fn short_return_data_reads_as_zero() {
    assert!(read_u256(&[]).is_zero());
    assert!(read_u256(&[0xff; 31]).is_zero());
    assert_eq!(
        read_u256(&[0xff; 32]),
        U256::from_limbs([u64::MAX, u64::MAX, u64::MAX, u64::MAX])
    );
}
