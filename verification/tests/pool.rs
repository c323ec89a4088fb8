//! The pool as a whole, with the token and the vault played by the test.

use challenge_pool::abi::{
    encode_approve, encode_redeem_shares, encode_transfer, encode_transfer_from,
    encode_vault_deposit,
};
use challenge_pool::address::Address;
use challenge_pool::contract::ChallengePool;
use challenge_pool::host::{Call, Event, EventLog, Pending};
use challenge_pool::logic::{
    MAX_DEPOSIT_WEI, STATE_ABIERTO, STATE_BLOQUEADO, STATE_REEMBOLSADO, STATE_RESUELTO,
};
use challenge_pool::word::U256;

fn addr(n: u8) -> Address {
    let mut bytes = [0u8; 20];
    bytes[19] = n;
    Address::from_bytes(bytes)
}

fn num(n: u64) -> U256 {
    U256::from_u64(n)
}

fn word(n: u64) -> Vec<u8> {
    let mut bytes = vec![0u8; 24];
    bytes.extend_from_slice(&n.to_be_bytes());
    bytes
}

fn owner() -> Address {
    addr(100)
}

fn operator() -> Address {
    addr(101)
}

fn vault() -> Address {
    addr(102)
}

fn token() -> Address {
    addr(103)
}

fn this() -> Address {
    addr(104)
}

fn ready_pool() -> ChallengePool {
    let mut pool = ChallengePool::new();
    let mut log = EventLog::new();
    pool.init(owner(), vault(), token(), num(500)).unwrap();
    pool.add_operator(owner(), operator(), &mut log).unwrap();
    pool
}

/// Answers the calls of an operation one by one; returns the calls it made.
fn run(
    pool: &mut ChallengePool,
    first: Result<Pending, Vec<u8>>,
    replies: Vec<Option<Vec<u8>>>,
    log: &mut EventLog,
) -> Result<Vec<Call>, Vec<u8>> {
    let mut calls = Vec::new();
    let mut next = Some(first?);
    let mut replies = replies.into_iter();
    while let Some(pending) = next {
        calls.push(pending.call);
        let reply = replies.next().expect("an answer for each call");
        next = pool.resume(pending.step, reply, log)?;
    }
    assert!(replies.next().is_none(), "an answer was left over");
    Ok(calls)
}

/// Three participants, 50 each, deadline 1000; all have deposited and the vault
/// has given 90 shares.
fn locked_pool() -> ChallengePool {
    let mut pool = ready_pool();
    let mut log = EventLog::new();
    pool.create_challenge(addr(1), num(50), num(1000), vec![addr(1), addr(2), addr(3)], &mut log)
        .unwrap();
    for n in 1..4u8 {
        let first = pool.deposit(addr(n), this(), num(0), &mut log);
        let mut replies = vec![Some(word(1))];
        if n == 3 {
            replies.push(Some(word(1)));
            replies.push(Some(word(90)));
        }
        run(&mut pool, first, replies, &mut log).unwrap();
    }
    assert_eq!(pool.challenge_status(num(0)), Ok(STATE_BLOQUEADO));
    pool
}

fn assert_call(call: &Call, to: Address, data: Vec<u8>) {
    assert_eq!(call.to, to);
    assert_eq!(call.data, data);
}

#[test]
fn init_sets_the_terms_once() {
    let mut pool = ChallengePool::new();
    assert!(pool.owner.is_zero());
    assert_eq!(pool.init(owner(), vault(), token(), num(500)), Ok(()));
    assert_eq!(pool.owner, owner());
    assert_eq!(pool.treasury_vault, vault());
    assert_eq!(pool.usdc, token());
    assert_eq!(pool.commission_rate(), Ok(num(500)));
    assert_eq!(
        pool.init(addr(7), addr(8), addr(9), num(1)),
        Err(b"inited".to_vec())
    );
    assert_eq!(pool.owner, owner());
    assert_eq!(pool.commission_rate(), Ok(num(500)));
}

#[test]
fn owner_adds_and_removes_operators() {
    let mut pool = ChallengePool::new();
    let mut log = EventLog::new();
    pool.init(owner(), vault(), token(), num(500)).unwrap();
    assert_eq!(pool.is_operator(operator()), Ok(false));
    assert_eq!(pool.add_operator(owner(), operator(), &mut log), Ok(()));
    assert_eq!(pool.add_operator(owner(), addr(55), &mut log), Ok(()));
    assert_eq!(pool.is_operator(operator()), Ok(true));
    assert_eq!(pool.remove_operator(owner(), operator(), &mut log), Ok(()));
    assert_eq!(pool.is_operator(operator()), Ok(false));
    assert_eq!(pool.is_operator(addr(55)), Ok(true));
    assert_eq!(
        log.events,
        vec![
            Event::OperatorAdded { operator: operator() },
            Event::OperatorAdded { operator: addr(55) },
            Event::OperatorRemoved { operator: operator() },
        ]
    );
}

#[test]
fn administration_is_refused_to_others() {
    let mut pool = ready_pool();
    let mut log = EventLog::new();
    let refused = Err(b"not_owner".to_vec());
    assert_eq!(pool.add_operator(addr(1), addr(2), &mut log), refused);
    assert_eq!(pool.remove_operator(addr(1), operator(), &mut log), refused);
    assert_eq!(pool.set_commission_rate(addr(1), num(1), &mut log), refused);
    assert_eq!(pool.set_treasury_vault(addr(1), addr(2), &mut log), refused);
    assert!(log.events.is_empty());
    assert_eq!(pool.is_operator(operator()), Ok(true));
}

#[test]
fn zero_addresses_are_refused() {
    let mut pool = ready_pool();
    let mut log = EventLog::new();
    assert_eq!(
        pool.add_operator(owner(), Address::zero(), &mut log),
        Err(b"operator_is_zero".to_vec())
    );
    assert_eq!(
        pool.set_treasury_vault(owner(), Address::zero(), &mut log),
        Err(b"vault0".to_vec())
    );
    assert!(log.events.is_empty());
}

#[test]
fn owner_changes_rate_and_vault() {
    let mut pool = ready_pool();
    let mut log = EventLog::new();
    assert_eq!(pool.set_commission_rate(owner(), num(250), &mut log), Ok(()));
    assert_eq!(pool.commission_rate(), Ok(num(250)));
    assert_eq!(pool.set_treasury_vault(owner(), addr(66), &mut log), Ok(()));
    assert_eq!(pool.treasury_vault, addr(66));
    assert_eq!(
        log.events,
        vec![
            Event::CommissionRateUpdated { previous_rate: num(500), new_rate: num(250) },
            Event::TreasuryVaultUpdated { previous_vault: vault(), new_vault: addr(66) },
        ]
    );
}

#[test]
fn created_challenge_is_open() {
    let mut pool = ready_pool();
    let mut log = EventLog::new();
    let first = pool.create_challenge(addr(9), num(50), num(1000), vec![addr(1)], &mut log);
    assert_eq!(first, Ok(num(0)));
    let second =
        pool.create_challenge(addr(9), num(60), num(2000), vec![addr(1), addr(2)], &mut log);
    assert_eq!(second, Ok(num(1)));
    assert_eq!(pool.next_challenge_id, num(2));
    assert_eq!(pool.challenge_status(num(1)), Ok(STATE_ABIERTO));
    let challenge = pool.challenges.getter(num(1)).unwrap();
    assert_eq!(challenge.creator, addr(9));
    assert_eq!(challenge.required_deposit, num(60));
    assert_eq!(challenge.deadline, num(2000));
    assert_eq!(challenge.participant_count, num(2));
    assert!(challenge.deposited_count.is_zero());
    assert!(challenge.participants.get(addr(2)));
    assert!(!challenge.participants.get(addr(3)));
    assert_eq!(
        log.events[1],
        Event::ChallengeCreated {
            challenge_id: num(1),
            creator: addr(9),
            required_deposit: num(60),
            deadline: num(2000),
        }
    );
}

#[test]
fn challenge_needs_participants_and_a_deposit_within_the_cap() {
    let mut pool = ready_pool();
    let mut log = EventLog::new();
    let cap = U256::from_u128(MAX_DEPOSIT_WEI);
    let above = U256::from_u128(MAX_DEPOSIT_WEI + 1);
    assert_eq!(
        pool.create_challenge(addr(9), num(0), num(1), vec![], &mut log),
        Err(b"nopart".to_vec())
    );
    assert_eq!(
        pool.create_challenge(addr(9), num(0), num(1), vec![addr(1)], &mut log),
        Err(b"dep0".to_vec())
    );
    assert_eq!(
        pool.create_challenge(addr(9), above, num(1), vec![addr(1)], &mut log),
        Err(b"depmax".to_vec())
    );
    assert!(log.events.is_empty());
    assert_eq!(
        pool.create_challenge(addr(9), cap, num(1), vec![addr(1)], &mut log),
        Ok(num(0))
    );
}

#[test]
fn identifiers_wrap_at_the_word() {
    let mut pool = ready_pool();
    let mut log = EventLog::new();
    let last = U256::from_limbs([u64::MAX, u64::MAX, u64::MAX, u64::MAX]);
    pool.next_challenge_id = last;
    assert_eq!(
        pool.create_challenge(addr(9), num(5), num(1), vec![addr(1)], &mut log),
        Ok(last)
    );
    assert!(pool.next_challenge_id.is_zero());
}

#[test]
fn earlier_deposit_is_pulled_and_leaves_the_challenge_open() {
    let mut pool = ready_pool();
    let mut log = EventLog::new();
    pool.create_challenge(addr(1), num(50), num(1000), vec![addr(1), addr(2)], &mut log)
        .unwrap();
    let mut log = EventLog::new();
    let first = pool.deposit(addr(1), this(), num(0), &mut log);
    let calls = run(&mut pool, first, vec![Some(word(1))], &mut log).unwrap();
    assert_eq!(calls.len(), 1);
    assert_call(&calls[0], token(), encode_transfer_from(addr(1), this(), num(50)));
    assert_eq!(
        log.events,
        vec![Event::DepositReceived {
            challenge_id: num(0),
            participant: addr(1),
            amount: num(50),
        }]
    );
    assert_eq!(pool.challenge_status(num(0)), Ok(STATE_ABIERTO));
    let challenge = pool.challenges.getter(num(0)).unwrap();
    assert_eq!(challenge.deposited_count, num(1));
    assert!(challenge.has_deposited.get(addr(1)));
    assert!(!challenge.has_deposited.get(addr(2)));
}

#[test]
fn last_deposit_locks_the_pot_in_the_vault() {
    let mut pool = ready_pool();
    let mut log = EventLog::new();
    pool.create_challenge(addr(1), num(50), num(1000), vec![addr(1), addr(2)], &mut log)
        .unwrap();
    let first = pool.deposit(addr(1), this(), num(0), &mut log);
    run(&mut pool, first, vec![Some(word(1))], &mut log).unwrap();
    let mut log = EventLog::new();
    let first = pool.deposit(addr(2), this(), num(0), &mut log);
    let replies = vec![Some(word(1)), Some(vec![]), Some(word(77))];
    let calls = run(&mut pool, first, replies, &mut log).unwrap();
    assert_eq!(calls.len(), 3);
    assert_call(&calls[0], token(), encode_transfer_from(addr(2), this(), num(50)));
    assert_call(&calls[1], token(), encode_approve(vault(), num(100)));
    assert_call(&calls[2], vault(), encode_vault_deposit(num(100)));
    assert_eq!(pool.challenge_status(num(0)), Ok(STATE_BLOQUEADO));
    let challenge = pool.challenges.getter(num(0)).unwrap();
    assert_eq!(challenge.treasury_shares, num(77));
    assert_eq!(
        log.events[1],
        Event::ChallengeLocked { challenge_id: num(0), treasury_shares: num(77) }
    );
}

#[test]
fn deposits_are_refused() {
    let mut pool = ready_pool();
    let mut log = EventLog::new();
    pool.create_challenge(addr(1), num(50), num(1000), vec![addr(1), addr(2)], &mut log)
        .unwrap();
    let mut log = EventLog::new();
    assert_eq!(
        pool.deposit(addr(8), this(), num(0), &mut log).unwrap_err(),
        b"nopart".to_vec()
    );
    // nobody takes part in a challenge that was never created
    assert_eq!(
        pool.deposit(addr(1), this(), num(5), &mut log).unwrap_err(),
        b"nopart".to_vec()
    );
    pool.deposit(addr(1), this(), num(0), &mut log).unwrap();
    assert_eq!(
        pool.deposit(addr(1), this(), num(0), &mut log).unwrap_err(),
        b"deposited".to_vec()
    );
    assert_eq!(log.events.len(), 1);
    let mut pool = locked_pool();
    assert_eq!(
        pool.deposit(addr(1), this(), num(0), &mut log).unwrap_err(),
        b"notopen".to_vec()
    );
}

#[test]
fn failed_calls_of_a_deposit_are_named() {
    let answers = [
        (vec![None], b"pull".to_vec()),
        (vec![Some(word(1)), None], b"appr".to_vec()),
        (vec![Some(word(1)), Some(word(1)), None], b"vdep".to_vec()),
    ];
    for (replies, why) in answers {
        let mut pool = ready_pool();
        let mut log = EventLog::new();
        pool.create_challenge(addr(1), num(50), num(1000), vec![addr(1)], &mut log)
            .unwrap();
        let first = pool.deposit(addr(1), this(), num(0), &mut log);
        assert_eq!(run(&mut pool, first, replies, &mut log).unwrap_err(), why);
    }
}

#[test]
fn repeated_participant_keeps_the_challenge_open() {
    let mut pool = ready_pool();
    let mut log = EventLog::new();
    pool.create_challenge(addr(1), num(50), num(1000), vec![addr(1), addr(1)], &mut log)
        .unwrap();
    let first = pool.deposit(addr(1), this(), num(0), &mut log);
    run(&mut pool, first, vec![Some(word(1))], &mut log).unwrap();
    assert_eq!(pool.challenge_status(num(0)), Ok(STATE_ABIERTO));
    assert_eq!(
        pool.deposit(addr(1), this(), num(0), &mut log).unwrap_err(),
        b"deposited".to_vec()
    );
}

#[test]
fn winner_is_paid_the_pot_less_commission() {
    let mut pool = locked_pool();
    let mut log = EventLog::new();
    let first = pool.confirm_result(operator(), this(), num(0), addr(2));
    // the result stands before the vault is called
    assert_eq!(pool.challenge_status(num(0)), Ok(STATE_RESUELTO));
    let calls = run(&mut pool, first, vec![Some(word(200)), Some(word(1))], &mut log).unwrap();
    assert_eq!(calls.len(), 2);
    assert_call(&calls[0], vault(), encode_redeem_shares(num(90), this()));
    assert_call(&calls[1], token(), encode_transfer(addr(2), num(190)));
    assert_eq!(
        log.events,
        vec![Event::ChallengeResolved {
            challenge_id: num(0),
            winner: addr(2),
            total_payout: num(190),
            commission: num(10),
        }]
    );
    let challenge = pool.challenges.getter(num(0)).unwrap();
    assert_eq!(challenge.winner, addr(2));
    assert_eq!(challenge.status, STATE_RESUELTO);
}

#[test]
fn results_are_refused() {
    let mut pool = locked_pool();
    let refused = |pool: &mut ChallengePool, sender, id, winner| {
        pool.confirm_result(sender, this(), id, winner).unwrap_err()
    };
    assert_eq!(refused(&mut pool, addr(1), num(0), addr(2)), b"no_op".to_vec());
    assert_eq!(refused(&mut pool, operator(), num(4), addr(2)), b"notlocked".to_vec());
    assert_eq!(
        refused(&mut pool, operator(), num(0), Address::zero()),
        b"winzero".to_vec()
    );
    assert_eq!(refused(&mut pool, operator(), num(0), addr(9)), b"winpart".to_vec());
    pool.confirm_result(operator(), this(), num(0), addr(2)).unwrap();
    assert_eq!(refused(&mut pool, operator(), num(0), addr(3)), b"notlocked".to_vec());
    assert_eq!(
        pool.refund(this(), 5000, num(0)).unwrap_err(),
        b"notlocked".to_vec()
    );
}

#[test]
fn failed_calls_of_a_result_are_named() {
    let answers = [
        (vec![None], b"vred".to_vec()),
        (vec![Some(word(200)), None], b"pay".to_vec()),
    ];
    for (replies, why) in answers {
        let mut pool = locked_pool();
        let mut log = EventLog::new();
        let first = pool.confirm_result(operator(), this(), num(0), addr(2));
        assert_eq!(run(&mut pool, first, replies, &mut log).unwrap_err(), why);
        assert!(log.events.is_empty());
    }
}

#[test]
fn refund_is_split_and_claimed_once_each() {
    let mut pool = locked_pool();
    let mut log = EventLog::new();
    let first = pool.refund(this(), 1001, num(0));
    let calls = run(&mut pool, first, vec![Some(word(200))], &mut log).unwrap();
    assert_eq!(calls.len(), 1);
    assert_call(&calls[0], vault(), encode_redeem_shares(num(90), this()));
    assert_eq!(
        log.events,
        vec![Event::ChallengeRefunded {
            challenge_id: num(0),
            refund_per_participant: num(66),
        }]
    );
    assert_eq!(pool.challenge_status(num(0)), Ok(STATE_REEMBOLSADO));
    for n in 1..4u8 {
        let mut log = EventLog::new();
        let first = pool.claim_refund(addr(n), num(0), &mut log);
        let calls = run(&mut pool, first, vec![Some(word(1))], &mut log).unwrap();
        assert_eq!(calls.len(), 1);
        assert_call(&calls[0], token(), encode_transfer(addr(n), num(66)));
        assert_eq!(
            log.events,
            vec![Event::RefundClaimed {
                challenge_id: num(0),
                participant: addr(n),
                amount: num(66),
            }]
        );
        assert_eq!(
            pool.claim_refund(addr(n), num(0), &mut log).unwrap_err(),
            b"claimed".to_vec()
        );
    }
    assert_eq!(
        pool.claim_refund(addr(9), num(0), &mut log).unwrap_err(),
        b"nopart".to_vec()
    );
    assert_eq!(
        pool.confirm_result(operator(), this(), num(0), addr(2)).unwrap_err(),
        b"notlocked".to_vec()
    );
}

#[test]
fn refund_waits_for_the_deadline() {
    let mut pool = locked_pool();
    assert_eq!(pool.refund(this(), 1000, num(0)).unwrap_err(), b"nodln".to_vec());
    assert_eq!(pool.refund(this(), 1001, num(3)).unwrap_err(), b"notlocked".to_vec());
    assert_eq!(pool.challenge_status(num(0)), Ok(STATE_BLOQUEADO));
    assert!(pool.refund(this(), 1001, num(0)).is_ok());
}

#[test]
fn claims_need_a_refund() {
    let mut pool = locked_pool();
    let mut log = EventLog::new();
    assert_eq!(
        pool.claim_refund(addr(1), num(0), &mut log).unwrap_err(),
        b"noref".to_vec()
    );
    assert!(log.events.is_empty());
}

#[test]
fn failed_calls_of_a_refund_are_named() {
    let mut pool = locked_pool();
    let mut log = EventLog::new();
    let first = pool.refund(this(), 1001, num(0));
    assert_eq!(
        run(&mut pool, first, vec![None], &mut log).unwrap_err(),
        b"vred".to_vec()
    );
    let mut pool = locked_pool();
    let first = pool.refund(this(), 1001, num(0));
    run(&mut pool, first, vec![Some(word(150))], &mut log).unwrap();
    let first = pool.claim_refund(addr(1), num(0), &mut log);
    assert_eq!(
        run(&mut pool, first, vec![None], &mut log).unwrap_err(),
        b"refpay".to_vec()
    );
}

#[test]
fn challenges_do_not_disturb_each_other() {
    let mut pool = locked_pool();
    let mut log = EventLog::new();
    let id = pool
        .create_challenge(addr(5), num(7), num(10), vec![addr(1), addr(5)], &mut log)
        .unwrap();
    assert_eq!(id, num(1));
    let first = pool.deposit(addr(1), this(), id, &mut log);
    run(&mut pool, first, vec![Some(word(1))], &mut log).unwrap();
    assert_eq!(pool.challenge_status(num(0)), Ok(STATE_BLOQUEADO));
    assert_eq!(pool.challenge_status(id), Ok(STATE_ABIERTO));
    let other = pool.challenges.getter(num(0)).unwrap();
    assert_eq!(other.deposited_count, num(3));
    assert_eq!(other.treasury_shares, num(90));
}

#[test]
fn deposits_may_cross_while_they_are_pulled() {
    let mut pool = ready_pool();
    let mut log = EventLog::new();
    pool.create_challenge(addr(1), num(50), num(1000), vec![addr(1), addr(2)], &mut log)
        .unwrap();
    let first = pool.deposit(addr(1), this(), num(0), &mut log).unwrap();
    // While the first deposit is pulled, the second is made in full and locks
    // the challenge.
    let second = pool.deposit(addr(2), this(), num(0), &mut log);
    let calls = run(
        &mut pool,
        second,
        vec![Some(word(1)), Some(word(1)), Some(word(77))],
        &mut log,
    )
    .unwrap();
    assert_call(&calls[2], vault(), encode_vault_deposit(num(100)));
    assert_eq!(pool.challenge_status(num(0)), Ok(STATE_BLOQUEADO));
    // The first one goes on and has nothing left to do.
    let rest = pool.resume(first.step, Some(word(1)), &mut log).unwrap();
    assert!(rest.is_none());
    assert_eq!(pool.challenge_status(num(0)), Ok(STATE_BLOQUEADO));
    let challenge = pool.challenges.getter(num(0)).unwrap();
    assert_eq!(challenge.treasury_shares, num(77));
    assert_eq!(challenge.deposited_count, num(2));
}

#[test]
fn challenge_being_locked_is_left_alone() {
    let mut pool = ready_pool();
    let mut log = EventLog::new();
    pool.create_challenge(addr(1), num(50), num(1000), vec![addr(1)], &mut log)
        .unwrap();
    let pending = pool.deposit(addr(1), this(), num(0), &mut log).unwrap();
    assert_eq!(
        pool.deposit(addr(1), this(), num(0), &mut log).unwrap_err(),
        b"deposited".to_vec()
    );
    assert_eq!(
        pool.confirm_result(operator(), this(), num(0), addr(1)).unwrap_err(),
        b"notlocked".to_vec()
    );
    assert_eq!(
        pool.refund(this(), 2000, num(0)).unwrap_err(),
        b"notlocked".to_vec()
    );
    run(
        &mut pool,
        Ok(pending),
        vec![Some(word(1)), Some(word(1)), Some(word(40))],
        &mut log,
    )
    .unwrap();
    assert_eq!(pool.challenge_status(num(0)), Ok(STATE_BLOQUEADO));
}

#[test]
fn challenge_is_open_exactly_while_a_deposit_is_missing() {
    let mut pool = ready_pool();
    let mut log = EventLog::new();
    pool.create_challenge(addr(1), num(50), num(1000), vec![addr(1), addr(2), addr(3)], &mut log)
        .unwrap();
    for n in 1..4u8 {
        assert_eq!(pool.challenge_status(num(0)), Ok(STATE_ABIERTO));
        let challenge = pool.challenges.getter(num(0)).unwrap();
        assert_eq!(challenge.deposited_count, num(u64::from(n) - 1));
        let first = pool.deposit(addr(n), this(), num(0), &mut log);
        let mut replies = vec![Some(word(1))];
        if n == 3 {
            replies.push(Some(word(1)));
            replies.push(Some(word(90)));
        }
        run(&mut pool, first, replies, &mut log).unwrap();
    }
    let challenge = pool.challenges.getter(num(0)).unwrap();
    assert_eq!(challenge.deposited_count, challenge.participant_count);
    assert_eq!(challenge.status, STATE_BLOQUEADO);
}

#[test]
fn depositor_is_refused_while_open_and_after() {
    let mut pool = ready_pool();
    let mut log = EventLog::new();
    pool.create_challenge(addr(1), num(50), num(1000), vec![addr(1), addr(2)], &mut log)
        .unwrap();
    let first = pool.deposit(addr(1), this(), num(0), &mut log);
    run(&mut pool, first, vec![Some(word(1))], &mut log).unwrap();
    assert_eq!(
        pool.deposit(addr(1), this(), num(0), &mut log).unwrap_err(),
        b"deposited".to_vec()
    );
    let second = pool.deposit(addr(2), this(), num(0), &mut log);
    run(
        &mut pool,
        second,
        vec![Some(word(1)), Some(word(1)), Some(word(90))],
        &mut log,
    )
    .unwrap();
    assert_eq!(
        pool.deposit(addr(1), this(), num(0), &mut log).unwrap_err(),
        b"notopen".to_vec()
    );
}

#[test]
fn shares_stay_until_the_last_claim() {
    let mut pool = locked_pool();
    let mut log = EventLog::new();
    assert_eq!(pool.challenges.getter(num(0)).unwrap().treasury_shares, num(90));
    pool.create_challenge(addr(9), num(7), num(5), vec![addr(9)], &mut log)
        .unwrap();
    assert_eq!(pool.challenges.getter(num(0)).unwrap().treasury_shares, num(90));
    let refund = pool.refund(this(), 1001, num(0));
    run(&mut pool, refund, vec![Some(word(170))], &mut log).unwrap();
    let mut paid = 0u64;
    for n in 1..4u8 {
        let claim = pool.claim_refund(addr(n), num(0), &mut log);
        let calls = run(&mut pool, claim, vec![Some(word(1))], &mut log).unwrap();
        assert_call(&calls[0], token(), encode_transfer(addr(n), num(56)));
        assert_eq!(pool.challenges.getter(num(0)).unwrap().treasury_shares, num(56));
        paid += 56;
    }
    // Less than one unit for each of the three is left.
    assert_eq!(170 - paid, 2);
}

#[test]
fn initializer_refuses_long_after() {
    let mut pool = locked_pool();
    let mut log = EventLog::new();
    let result = pool.confirm_result(operator(), this(), num(0), addr(2));
    run(&mut pool, result, vec![Some(word(100)), Some(word(1))], &mut log).unwrap();
    pool.set_treasury_vault(owner(), addr(60), &mut log).unwrap();
    assert_eq!(
        pool.init(addr(7), addr(8), addr(9), num(1)),
        Err(b"inited".to_vec())
    );
    assert_eq!(pool.owner, owner());
    assert_eq!(pool.usdc, token());
}
