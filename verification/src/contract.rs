//! The challenge pool: who may do what, what each operation writes, logs and
//! asks the token and the vault to do.
//!
//! An operation that calls another contract runs in steps. It first checks its
//! guards and writes its effects, then hands out the call as a [`Pending`]; the
//! chain makes the call and gives the answer to [`ChallengePool::resume`]. An
//! operation that ends in `Err` has failed as a whole, and the chain undoes
//! what it wrote.

use vstd::prelude::*;
use vstd::slice::slice_to_vec;
use vstd::utf8::encode_utf8;

use crate::abi::{
    approve_data, encode_approve, encode_redeem_shares, encode_transfer, encode_transfer_from,
    encode_vault_deposit, read_u256, redeem_shares_data, returned_value, transfer_data,
    transfer_from_data, vault_deposit_data,
};
use crate::address::{lemma_listed_push, listed, zero_address, Address, AddressFlags};
use crate::challenge::{blank_challenge, Challenge, ChallengeView, Challenges};
use crate::host::{
    Call, CallView, Event, EventLog, EventView, Pending, PendingView, Step, StepView,
};
use crate::logic::{
    answers, commission_amount, confirm_refusal, deposit_refusal, payout_amount, pot_amount,
    refund_per_participant, refund_refusal, refund_share, resolve_payout, total_pool,
    validate_confirm_result, validate_deposit, validate_refund, MAX_DEPOSIT_WEI, STATE_ABIERTO,
    STATE_BLOQUEADO, STATE_REEMBOLSADO, STATE_RESUELTO,
};
use crate::word::{exceeds, modulus, wrapping_sum, U256};

verus! {

/// What a [`ChallengePool`] says, with numbers for words and sets for flags.
#[verifier::ext_equal]
pub struct PoolView {
    pub challenges: Map<nat, ChallengeView>,
    pub next_challenge_id: nat,
    pub treasury_vault: Seq<u8>,
    pub usdc: Seq<u8>,
    pub operators: Set<Seq<u8>>,
    pub base_commission_rate: nat,
    pub owner: Seq<u8>,
}

/// A pool that nobody has initialized: every field has its zero value.
pub open spec fn blank_pool() -> PoolView {
    PoolView {
        challenges: Map::total(|id: nat| blank_challenge()),
        next_challenge_id: 0,
        treasury_vault: zero_address(),
        usdc: zero_address(),
        operators: Set::empty(),
        base_commission_rate: 0,
        owner: zero_address(),
    }
}

/// The bytes with which an operation is refused for the reason `text`.
pub open spec fn reason_bytes(text: Seq<char>) -> Seq<u8> {
    encode_utf8(text)
}

/// Why the initialization is refused, if it is.
pub open spec fn init_refusal(pool: PoolView) -> Option<Seq<char>> {
    if pool.owner != zero_address() {
        Some("inited"@)
    } else {
        None
    }
}

/// Why `sender` may not administrate the pool, if it may not.
pub open spec fn owner_refusal(pool: PoolView, sender: Seq<u8>) -> Option<Seq<char>> {
    if sender != pool.owner {
        Some("not_owner"@)
    } else {
        None
    }
}

/// Why `sender` may not relay results, if it may not.
pub open spec fn operator_refusal(pool: PoolView, sender: Seq<u8>) -> Option<Seq<char>> {
    if !pool.operators.contains(sender) {
        Some("no_op"@)
    } else {
        None
    }
}

/// Why adding an operator is refused, if it is.
pub open spec fn add_operator_refusal(
    pool: PoolView,
    sender: Seq<u8>,
    operator: Seq<u8>,
) -> Option<Seq<char>> {
    if owner_refusal(pool, sender) is Some {
        owner_refusal(pool, sender)
    } else if operator == zero_address() {
        Some("operator_is_zero"@)
    } else {
        None
    }
}

/// Why changing the vault is refused, if it is.
pub open spec fn set_treasury_vault_refusal(
    pool: PoolView,
    sender: Seq<u8>,
    new_vault: Seq<u8>,
) -> Option<Seq<char>> {
    if owner_refusal(pool, sender) is Some {
        owner_refusal(pool, sender)
    } else if new_vault == zero_address() {
        Some("vault0"@)
    } else {
        None
    }
}

/// Why creating a challenge is refused, if it is.
pub open spec fn create_refusal(required_deposit: nat, list: Seq<Address>) -> Option<Seq<char>> {
    if list.len() == 0 {
        Some("nopart"@)
    } else if required_deposit == 0 {
        Some("dep0"@)
    } else if required_deposit > MAX_DEPOSIT_WEI {
        Some("depmax"@)
    } else {
        None
    }
}

/// Why the deposit of `sender` is refused, if it is.
pub open spec fn pool_deposit_refusal(pool: PoolView, sender: Seq<u8>, id: nat) -> Option<
    Seq<char>,
> {
    let challenge = pool.challenges[id];
    deposit_refusal(
        challenge.status,
        challenge.participants.contains(sender),
        challenge.has_deposited.contains(sender),
        challenge.required_deposit,
        challenge.required_deposit,
    )
}

/// Why the result relayed by `sender` is refused, if it is.
pub open spec fn pool_confirm_refusal(
    pool: PoolView,
    sender: Seq<u8>,
    id: nat,
    winner: Seq<u8>,
) -> Option<Seq<char>> {
    let challenge = pool.challenges[id];
    if operator_refusal(pool, sender) is Some {
        operator_refusal(pool, sender)
    } else {
        confirm_refusal(challenge.status, winner, challenge.participants.contains(winner))
    }
}

/// Why a refund at the time `now` is refused, if it is.
pub open spec fn pool_refund_refusal(pool: PoolView, id: nat, now: nat) -> Option<Seq<char>> {
    let challenge = pool.challenges[id];
    refund_refusal(challenge.status, challenge.deadline, now)
}

/// Why the refund claim of `sender` is refused, if it is.
pub open spec fn claim_refusal(pool: PoolView, sender: Seq<u8>, id: nat) -> Option<Seq<char>> {
    let challenge = pool.challenges[id];
    if challenge.status != STATE_REEMBOLSADO {
        Some("noref"@)
    } else if !challenge.participants.contains(sender) {
        Some("nopart"@)
    } else if challenge.claimed_refund.contains(sender) {
        Some("claimed"@)
    } else {
        None
    }
}

/// The pool after an accepted initialization by `sender`.
pub open spec fn initialized(
    pool: PoolView,
    sender: Seq<u8>,
    treasury_vault: Seq<u8>,
    usdc: Seq<u8>,
    base_commission_rate: nat,
) -> PoolView {
    PoolView { owner: sender, treasury_vault, usdc, base_commission_rate, ..pool }
}

/// The pool with `challenge` under `id`.
pub open spec fn with_challenge(pool: PoolView, id: nat, challenge: ChallengeView) -> PoolView {
    PoolView { challenges: pool.challenges.insert(id, challenge), ..pool }
}

/// The challenge that `sender` opens over the record `before`.
pub open spec fn opened(
    before: ChallengeView,
    sender: Seq<u8>,
    required_deposit: nat,
    deadline: nat,
    list: Seq<Address>,
) -> ChallengeView {
    ChallengeView {
        creator: sender,
        required_deposit,
        deadline,
        status: STATE_ABIERTO,
        participant_count: list.len(),
        deposited_count: 0,
        participants: before.participants.union(listed(list)),
        has_deposited: before.has_deposited.difference(listed(list)),
        claimed_refund: before.claimed_refund.difference(listed(list)),
        ..before
    }
}

/// The pool after `sender` created a challenge.
pub open spec fn created(
    pool: PoolView,
    sender: Seq<u8>,
    required_deposit: nat,
    deadline: nat,
    list: Seq<Address>,
) -> PoolView {
    let id = pool.next_challenge_id;
    let challenge = opened(pool.challenges[id], sender, required_deposit, deadline, list);
    PoolView {
        next_challenge_id: (id + 1) % modulus(),
        ..with_challenge(pool, id, challenge)
    }
}

/// The pool after the deposit of `sender` was recorded.
pub open spec fn deposit_recorded(pool: PoolView, sender: Seq<u8>, id: nat) -> PoolView {
    let challenge = pool.challenges[id];
    with_challenge(
        pool,
        id,
        ChallengeView {
            has_deposited: challenge.has_deposited.insert(sender),
            deposited_count: (challenge.deposited_count + 1) % modulus(),
            ..challenge
        },
    )
}

/// The recorded deposit of `sender` while it is pulled into the pool `this`.
pub open spec fn deposit_pending(
    pool: PoolView,
    sender: Seq<u8>,
    this: Seq<u8>,
    id: nat,
) -> PendingView {
    let challenge = pool.challenges[id];
    PendingView {
        step: StepView::DepositPull {
            challenge_id: id,
            required_deposit: challenge.required_deposit,
            new_deposited: (challenge.deposited_count + 1) % modulus(),
            participant_count: challenge.participant_count,
            usdc: pool.usdc,
        },
        call: CallView {
            to: pool.usdc,
            data: transfer_from_data(sender, this, challenge.required_deposit),
        },
    }
}

/// The pool after the challenge was resolved for `winner`.
pub open spec fn result_recorded(pool: PoolView, id: nat, winner: Seq<u8>) -> PoolView {
    with_challenge(
        pool,
        id,
        ChallengeView { status: STATE_RESUELTO, winner, ..pool.challenges[id] },
    )
}

/// The call that redeems the vault shares of a challenge to the pool `this`.
pub open spec fn redeem_call(pool: PoolView, this: Seq<u8>, id: nat) -> CallView {
    CallView {
        to: pool.treasury_vault,
        data: redeem_shares_data(pool.challenges[id].treasury_shares, this),
    }
}

/// The pool after the challenge was refunded.
pub open spec fn refund_recorded(pool: PoolView, id: nat) -> PoolView {
    with_challenge(
        pool,
        id,
        ChallengeView { status: STATE_REEMBOLSADO, ..pool.challenges[id] },
    )
}

/// The pool after the refund claim of `sender` was recorded.
pub open spec fn claim_recorded(pool: PoolView, sender: Seq<u8>, id: nat) -> PoolView {
    let challenge = pool.challenges[id];
    with_challenge(
        pool,
        id,
        ChallengeView { claimed_refund: challenge.claimed_refund.insert(sender), ..challenge },
    )
}

/// The reason given when the call of `step` fails.
pub open spec fn failure_reason(step: StepView) -> Seq<char> {
    match step {
        StepView::DepositPull { .. } => "pull"@,
        StepView::DepositApprove { .. } => "appr"@,
        StepView::DepositVault { .. } => "vdep"@,
        StepView::ConfirmRedeem { .. } => "vred"@,
        StepView::ConfirmPay { .. } => "pay"@,
        StepView::RefundRedeem { .. } => "vred"@,
        StepView::ClaimPay => "refpay"@,
    }
}

/// The pool after the call of `step` returned `data`.
pub open spec fn resumed_pool(pool: PoolView, step: StepView, data: Seq<u8>) -> PoolView {
    match step {
        StepView::DepositVault { challenge_id } => with_challenge(
            pool,
            challenge_id,
            ChallengeView {
                status: STATE_BLOQUEADO,
                treasury_shares: returned_value(data),
                ..pool.challenges[challenge_id]
            },
        ),
        StepView::RefundRedeem { challenge_id, participant_count } => with_challenge(
            pool,
            challenge_id,
            ChallengeView {
                treasury_shares: refund_share(returned_value(data), participant_count),
                ..pool.challenges[challenge_id]
            },
        ),
        _ => pool,
    }
}

/// The events logged when the call of `step` returned `data`.
pub open spec fn resumed_events(step: StepView, data: Seq<u8>) -> Seq<EventView> {
    match step {
        StepView::DepositVault { challenge_id } => seq![
            EventView::ChallengeLocked { challenge_id, treasury_shares: returned_value(data) },
        ],
        StepView::ConfirmPay { challenge_id, winner, winner_payout, commission } => seq![
            EventView::ChallengeResolved {
                challenge_id,
                winner,
                total_payout: winner_payout,
                commission,
            },
        ],
        StepView::RefundRedeem { challenge_id, participant_count } => seq![
            EventView::ChallengeRefunded {
                challenge_id,
                refund_per_participant: refund_share(returned_value(data), participant_count),
            },
        ],
        _ => Seq::empty(),
    }
}

/// What the operation waits for next when the call of `step` returned `data`;
/// nothing where it is done.
pub open spec fn resumed_pending(pool: PoolView, step: StepView, data: Seq<u8>) -> Option<
    PendingView,
> {
    match step {
        StepView::DepositPull {
            challenge_id,
            required_deposit,
            new_deposited,
            participant_count,
            usdc,
        } => {
            let total = pot_amount(required_deposit, participant_count);
            if new_deposited == participant_count {
                Some(
                    PendingView {
                        step: StepView::DepositApprove { challenge_id, total },
                        call: CallView { to: usdc, data: approve_data(pool.treasury_vault, total) },
                    },
                )
            } else {
                None
            }
        },
        StepView::DepositApprove { challenge_id, total } => Some(
            PendingView {
                step: StepView::DepositVault { challenge_id },
                call: CallView { to: pool.treasury_vault, data: vault_deposit_data(total) },
            },
        ),
        StepView::ConfirmRedeem { challenge_id, winner } => {
            let recovered = returned_value(data);
            let winner_payout = payout_amount(recovered, pool.base_commission_rate);
            let commission = commission_amount(recovered, pool.base_commission_rate);
            Some(
                PendingView {
                    step: StepView::ConfirmPay { challenge_id, winner, winner_payout, commission },
                    call: CallView { to: pool.usdc, data: transfer_data(winner, winner_payout) },
                },
            )
        },
        _ => None,
    }
}

/// The bytes of a reason.
fn reason(text: &str) -> (bytes: Vec<u8>)
    ensures
        bytes@ == reason_bytes(text@),
{
    slice_to_vec(text.as_bytes())
}

/// The escrow pool of all challenges.
pub struct ChallengePool {
    pub challenges: Challenges,
    pub next_challenge_id: U256,
    pub treasury_vault: Address,
    /// USDC (ERC-20) token approved by participants.
    pub usdc: Address,
    /// Authorized operators, who relay results.
    pub operators: AddressFlags,
    /// Commission rate in basis points (e.g. 500 = 5 %).
    pub base_commission_rate: U256,
    /// Owner and administrator.
    pub owner: Address,
}

impl View for ChallengePool {
    type V = PoolView;

    open spec fn view(&self) -> PoolView {
        PoolView {
            challenges: self.challenges@,
            next_challenge_id: self.next_challenge_id@,
            treasury_vault: self.treasury_vault@,
            usdc: self.usdc@,
            operators: self.operators@,
            base_commission_rate: self.base_commission_rate@,
            owner: self.owner@,
        }
    }
}

impl Challenge {
    /// Registers the participants of a new challenge.
    fn enroll(&mut self, list: &Vec<Address>)
        ensures
            final(self)@ == (ChallengeView {
                participants: old(self)@.participants.union(listed(list@)),
                has_deposited: old(self)@.has_deposited.difference(listed(list@)),
                claimed_refund: old(self)@.claimed_refund.difference(listed(list@)),
                ..old(self)@
            }),
    {
        let mut i: usize = 0;
        assert(listed(list@.take(0)) =~= Set::empty());
        assert(self@.participants =~= old(self)@.participants.union(Set::empty()));
        assert(self@.has_deposited =~= old(self)@.has_deposited.difference(Set::empty()));
        assert(self@.claimed_refund =~= old(self)@.claimed_refund.difference(Set::empty()));
        while i < list.len()
            invariant
                i <= list@.len(),
                self@ == (ChallengeView {
                    participants: old(self)@.participants.union(listed(list@.take(i as int))),
                    has_deposited: old(self)@.has_deposited.difference(
                        listed(list@.take(i as int)),
                    ),
                    claimed_refund: old(self)@.claimed_refund.difference(
                        listed(list@.take(i as int)),
                    ),
                    ..old(self)@
                }),
            decreases list@.len() - i,
        {
            let participant = list[i];
            let ghost done = listed(list@.take(i as int));
            proof {
                assert(list@.take(i + 1) =~= list@.take(i as int).push(participant));
                lemma_listed_push(list@.take(i as int), participant);
            }
            self.participants.set(participant, true);
            self.has_deposited.set(participant, false);
            self.claimed_refund.set(participant, false);
            i = i + 1;
            proof {
                let more = done.insert(participant@);
                assert(self@.participants =~= old(self)@.participants.union(more));
                assert(self@.has_deposited =~= old(self)@.has_deposited.difference(more));
                assert(self@.claimed_refund =~= old(self)@.claimed_refund.difference(more));
            }
        }
        assert(list@.take(i as int) =~= list@);
    }
}

impl ChallengePool {
    /// A pool that nobody has initialized.
    pub fn new() -> (pool: ChallengePool)
        ensures
            pool@ == blank_pool(),
    {
        ChallengePool {
            challenges: Challenges::new(),
            next_challenge_id: U256::zero(),
            treasury_vault: Address::zero(),
            usdc: Address::zero(),
            operators: AddressFlags::new(),
            base_commission_rate: U256::zero(),
            owner: Address::zero(),
        }
    }

    fn require_operator(&self, sender: Address) -> (verdict: Result<(), &'static str>)
        ensures
            answers(verdict, operator_refusal(self@, sender@)),
    {
        if !self.operators.get(sender) {
            return Err("no_op");
        }
        Ok(())
    }

    fn require_owner(&self, sender: Address) -> (verdict: Result<(), &'static str>)
        ensures
            answers(verdict, owner_refusal(self@, sender@)),
    {
        if sender != self.owner {
            return Err("not_owner");
        }
        Ok(())
    }

    /// One-shot initializer: sets owner, USDC, vault and commission rate.
    pub fn init(
        &mut self,
        sender: Address,
        treasury_vault: Address,
        usdc: Address,
        base_commission_rate: U256,
    ) -> (result: Result<(), Vec<u8>>)
        ensures
            match init_refusal(old(self)@) {
                Some(why) => {
                    &&& result matches Err(bytes)
                    &&& bytes@ == reason_bytes(why)
                    &&& final(self)@ == old(self)@
                },
                None => {
                    &&& result is Ok
                    &&& final(self)@ == initialized(
                        old(self)@,
                        sender@,
                        treasury_vault@,
                        usdc@,
                        base_commission_rate@,
                    )
                },
            },
    {
        if !self.owner.is_zero() {
            return Err(reason("inited"));
        }
        self.owner = sender;
        self.treasury_vault = treasury_vault;
        self.usdc = usdc;
        self.base_commission_rate = base_commission_rate;
        Ok(())
    }

    /// Owner only: authorizes an operator.
    pub fn add_operator(
        &mut self,
        sender: Address,
        operator: Address,
        log: &mut EventLog,
    ) -> (result: Result<(), Vec<u8>>)
        ensures
            match add_operator_refusal(old(self)@, sender@, operator@) {
                Some(why) => {
                    &&& result matches Err(bytes)
                    &&& bytes@ == reason_bytes(why)
                    &&& final(self)@ == old(self)@
                    &&& final(log)@ == old(log)@
                },
                None => {
                    &&& result is Ok
                    &&& final(self)@ == (PoolView {
                        operators: old(self)@.operators.insert(operator@),
                        ..old(self)@
                    })
                    &&& final(log)@ == old(log)@.push(
                        EventView::OperatorAdded { operator: operator@ },
                    )
                },
            },
    {
        if let Err(why) = self.require_owner(sender) {
            return Err(reason(why));
        }
        if operator.is_zero() {
            return Err(reason("operator_is_zero"));
        }
        self.operators.set(operator, true);
        log.emit(Event::OperatorAdded { operator });
        Ok(())
    }

    /// Owner only: withdraws the authorization of an operator.
    pub fn remove_operator(
        &mut self,
        sender: Address,
        operator: Address,
        log: &mut EventLog,
    ) -> (result: Result<(), Vec<u8>>)
        ensures
            match owner_refusal(old(self)@, sender@) {
                Some(why) => {
                    &&& result matches Err(bytes)
                    &&& bytes@ == reason_bytes(why)
                    &&& final(self)@ == old(self)@
                    &&& final(log)@ == old(log)@
                },
                None => {
                    &&& result is Ok
                    &&& final(self)@ == (PoolView {
                        operators: old(self)@.operators.remove(operator@),
                        ..old(self)@
                    })
                    &&& final(log)@ == old(log)@.push(
                        EventView::OperatorRemoved { operator: operator@ },
                    )
                },
            },
    {
        if let Err(why) = self.require_owner(sender) {
            return Err(reason(why));
        }
        self.operators.set(operator, false);
        log.emit(Event::OperatorRemoved { operator });
        Ok(())
    }

    /// Owner only: changes the commission rate.
    pub fn set_commission_rate(
        &mut self,
        sender: Address,
        rate_bps: U256,
        log: &mut EventLog,
    ) -> (result: Result<(), Vec<u8>>)
        ensures
            match owner_refusal(old(self)@, sender@) {
                Some(why) => {
                    &&& result matches Err(bytes)
                    &&& bytes@ == reason_bytes(why)
                    &&& final(self)@ == old(self)@
                    &&& final(log)@ == old(log)@
                },
                None => {
                    &&& result is Ok
                    &&& final(self)@ == (PoolView {
                        base_commission_rate: rate_bps@,
                        ..old(self)@
                    })
                    &&& final(log)@ == old(log)@.push(
                        EventView::CommissionRateUpdated {
                            previous_rate: old(self)@.base_commission_rate,
                            new_rate: rate_bps@,
                        },
                    )
                },
            },
    {
        if let Err(why) = self.require_owner(sender) {
            return Err(reason(why));
        }
        let previous_rate = self.base_commission_rate;
        self.base_commission_rate = rate_bps;
        log.emit(Event::CommissionRateUpdated { previous_rate, new_rate: rate_bps });
        Ok(())
    }

    /// Owner only: changes the treasury vault (useful when the vault is deployed
    /// anew and the pool is not).
    pub fn set_treasury_vault(
        &mut self,
        sender: Address,
        new_vault: Address,
        log: &mut EventLog,
    ) -> (result: Result<(), Vec<u8>>)
        ensures
            match set_treasury_vault_refusal(old(self)@, sender@, new_vault@) {
                Some(why) => {
                    &&& result matches Err(bytes)
                    &&& bytes@ == reason_bytes(why)
                    &&& final(self)@ == old(self)@
                    &&& final(log)@ == old(log)@
                },
                None => {
                    &&& result is Ok
                    &&& final(self)@ == (PoolView { treasury_vault: new_vault@, ..old(self)@ })
                    &&& final(log)@ == old(log)@.push(
                        EventView::TreasuryVaultUpdated {
                            previous_vault: old(self)@.treasury_vault,
                            new_vault: new_vault@,
                        },
                    )
                },
            },
    {
        if let Err(why) = self.require_owner(sender) {
            return Err(reason(why));
        }
        if new_vault.is_zero() {
            return Err(reason("vault0"));
        }
        let previous_vault = self.treasury_vault;
        self.treasury_vault = new_vault;
        log.emit(Event::TreasuryVaultUpdated { previous_vault, new_vault });
        Ok(())
    }

    /// Opens a challenge for the listed participants; returns its identifier.
    pub fn create_challenge(
        &mut self,
        sender: Address,
        required_deposit: U256,
        deadline: U256,
        participants_list: Vec<Address>,
        log: &mut EventLog,
    ) -> (result: Result<U256, Vec<u8>>)
        ensures
            match create_refusal(required_deposit@, participants_list@) {
                Some(why) => {
                    &&& result matches Err(bytes)
                    &&& bytes@ == reason_bytes(why)
                    &&& final(self)@ == old(self)@
                    &&& final(log)@ == old(log)@
                },
                None => {
                    &&& result matches Ok(id)
                    &&& id@ == old(self)@.next_challenge_id
                    &&& final(self)@ == created(
                        old(self)@,
                        sender@,
                        required_deposit@,
                        deadline@,
                        participants_list@,
                    )
                    &&& final(log)@ == old(log)@.push(
                        EventView::ChallengeCreated {
                            challenge_id: id@,
                            creator: sender@,
                            required_deposit: required_deposit@,
                            deadline: deadline@,
                        },
                    )
                },
            },
    {
        if participants_list.is_empty() {
            return Err(reason("nopart"));
        }
        if required_deposit.is_zero() {
            return Err(reason("dep0"));
        }
        if exceeds(required_deposit, U256::from_u128(MAX_DEPOSIT_WEI)) {
            return Err(reason("depmax"));
        }
        let challenge_id = self.next_challenge_id;
        self.next_challenge_id = wrapping_sum(challenge_id, U256::from_u64(1));
        let challenge = self.challenges.setter(challenge_id);
        challenge.creator = sender;
        challenge.required_deposit = required_deposit;
        challenge.deadline = deadline;
        challenge.status = STATE_ABIERTO;
        challenge.participant_count = U256::from_u64(participants_list.len() as u64);
        challenge.deposited_count = U256::zero();
        challenge.enroll(&participants_list);
        log.emit(
            Event::ChallengeCreated { challenge_id, creator: sender, required_deposit, deadline },
        );
        Ok(challenge_id)
    }

    /// Takes the deposit of `sender` (USDC approved to the pool `this`): records
    /// it and asks for the transfer. The last deposit goes on to lock the pot in
    /// the vault.
    pub fn deposit(
        &mut self,
        sender: Address,
        this: Address,
        challenge_id: U256,
        log: &mut EventLog,
    ) -> (result: Result<Pending, Vec<u8>>)
        ensures
            match pool_deposit_refusal(old(self)@, sender@, challenge_id@) {
                Some(why) => {
                    &&& result matches Err(bytes)
                    &&& bytes@ == reason_bytes(why)
                    &&& final(self)@ == old(self)@
                    &&& final(log)@ == old(log)@
                },
                None => {
                    &&& result matches Ok(pending)
                    &&& pending@ == deposit_pending(old(self)@, sender@, this@, challenge_id@)
                    &&& final(self)@ == deposit_recorded(old(self)@, sender@, challenge_id@)
                    &&& final(log)@ == old(log)@.push(
                        EventView::DepositReceived {
                            challenge_id: challenge_id@,
                            participant: sender@,
                            amount: old(self)@.challenges[challenge_id@].required_deposit,
                        },
                    )
                },
            },
    {
        let challenge = self.challenges.setter(challenge_id);
        let required_deposit = challenge.required_deposit;
        let participant_count = challenge.participant_count;
        let verdict = validate_deposit(
            challenge.status,
            challenge.participants.get(sender),
            challenge.has_deposited.get(sender),
            required_deposit,
            required_deposit,
        );
        if let Err(why) = verdict {
            assert(self@ =~= old(self)@);
            return Err(reason(why));
        }
        let new_deposited = wrapping_sum(challenge.deposited_count, U256::from_u64(1));
        challenge.has_deposited.set(sender, true);
        challenge.deposited_count = new_deposited;
        log.emit(
            Event::DepositReceived { challenge_id, participant: sender, amount: required_deposit },
        );
        let usdc = self.usdc;
        Ok(
            Pending {
                step: Step::DepositPull {
                    challenge_id,
                    required_deposit,
                    new_deposited,
                    participant_count,
                    usdc,
                },
                call: Call { to: usdc, data: encode_transfer_from(sender, this, required_deposit) },
            },
        )
    }

    /// Operator only: relays the winner, records the result and asks the vault
    /// to redeem the pot to the pool `this`. The winner is paid from what comes
    /// back.
    pub fn confirm_result(
        &mut self,
        sender: Address,
        this: Address,
        challenge_id: U256,
        winner: Address,
    ) -> (result: Result<Pending, Vec<u8>>)
        ensures
            match pool_confirm_refusal(old(self)@, sender@, challenge_id@, winner@) {
                Some(why) => {
                    &&& result matches Err(bytes)
                    &&& bytes@ == reason_bytes(why)
                    &&& final(self)@ == old(self)@
                },
                None => {
                    &&& result matches Ok(pending)
                    &&& pending@.step == (StepView::ConfirmRedeem {
                        challenge_id: challenge_id@,
                        winner: winner@,
                    })
                    &&& pending@.call == redeem_call(old(self)@, this@, challenge_id@)
                    &&& final(self)@ == result_recorded(old(self)@, challenge_id@, winner@)
                },
            },
    {
        if let Err(why) = self.require_operator(sender) {
            return Err(reason(why));
        }
        let challenge = self.challenges.setter(challenge_id);
        let treasury_shares = challenge.treasury_shares;
        // The operator relays a decision and does not make it: the winner has to
        // take part in the challenge.
        let verdict = validate_confirm_result(
            challenge.status,
            winner,
            challenge.participants.get(winner),
        );
        if let Err(why) = verdict {
            assert(self@ =~= old(self)@);
            return Err(reason(why));
        }
        challenge.status = STATE_RESUELTO;
        challenge.winner = winner;
        Ok(
            Pending {
                step: Step::ConfirmRedeem { challenge_id, winner },
                call: Call {
                    to: self.treasury_vault,
                    data: encode_redeem_shares(treasury_shares, this),
                },
            },
        )
    }

    /// Permissionless refund after the deadline without a result; no commission.
    /// Records the refund and asks the vault to redeem the pot to the pool
    /// `this`; participants then claim their shares.
    pub fn refund(&mut self, this: Address, timestamp: u64, challenge_id: U256) -> (result: Result<
        Pending,
        Vec<u8>,
    >)
        ensures
            match pool_refund_refusal(old(self)@, challenge_id@, timestamp as nat) {
                Some(why) => {
                    &&& result matches Err(bytes)
                    &&& bytes@ == reason_bytes(why)
                    &&& final(self)@ == old(self)@
                },
                None => {
                    &&& result matches Ok(pending)
                    &&& pending@.step == (StepView::RefundRedeem {
                        challenge_id: challenge_id@,
                        participant_count: old(
                            self,
                        )@.challenges[challenge_id@].participant_count,
                    })
                    &&& pending@.call == redeem_call(old(self)@, this@, challenge_id@)
                    &&& final(self)@ == refund_recorded(old(self)@, challenge_id@)
                },
            },
    {
        let challenge = self.challenges.setter(challenge_id);
        let treasury_shares = challenge.treasury_shares;
        let participant_count = challenge.participant_count;
        let now = U256::from_u64(timestamp);
        let verdict = validate_refund(challenge.status, challenge.deadline, now);
        if let Err(why) = verdict {
            assert(self@ =~= old(self)@);
            return Err(reason(why));
        }
        challenge.status = STATE_REEMBOLSADO;
        Ok(
            Pending {
                step: Step::RefundRedeem { challenge_id, participant_count },
                call: Call {
                    to: self.treasury_vault,
                    data: encode_redeem_shares(treasury_shares, this),
                },
            },
        )
    }

    /// Permissionless claim of a participant's equal share of a refunded
    /// challenge: records the claim and asks for the transfer.
    pub fn claim_refund(
        &mut self,
        sender: Address,
        challenge_id: U256,
        log: &mut EventLog,
    ) -> (result: Result<Pending, Vec<u8>>)
        ensures
            match claim_refusal(old(self)@, sender@, challenge_id@) {
                Some(why) => {
                    &&& result matches Err(bytes)
                    &&& bytes@ == reason_bytes(why)
                    &&& final(self)@ == old(self)@
                    &&& final(log)@ == old(log)@
                },
                None => {
                    let amount = old(self)@.challenges[challenge_id@].treasury_shares;
                    &&& result matches Ok(pending)
                    &&& pending@.step == StepView::ClaimPay
                    &&& pending@.call == (CallView {
                        to: old(self)@.usdc,
                        data: transfer_data(sender@, amount),
                    })
                    &&& final(self)@ == claim_recorded(old(self)@, sender@, challenge_id@)
                    &&& final(log)@ == old(log)@.push(
                        EventView::RefundClaimed {
                            challenge_id: challenge_id@,
                            participant: sender@,
                            amount,
                        },
                    )
                },
            },
    {
        let challenge = self.challenges.setter(challenge_id);
        let amount = challenge.treasury_shares;
        let refusal: Option<&'static str> = if challenge.status != STATE_REEMBOLSADO {
            Some("noref")
        } else if !challenge.participants.get(sender) {
            Some("nopart")
        } else if challenge.claimed_refund.get(sender) {
            Some("claimed")
        } else {
            None
        };
        if let Some(why) = refusal {
            assert(self@ =~= old(self)@);
            return Err(reason(why));
        }
        challenge.claimed_refund.set(sender, true);
        log.emit(Event::RefundClaimed { challenge_id, participant: sender, amount });
        Ok(
            Pending {
                step: Step::ClaimPay,
                call: Call { to: self.usdc, data: encode_transfer(sender, amount) },
            },
        )
    }

    /// Goes on with an operation once the call that it was waiting for has been
    /// answered: `reply` is the return data, or nothing where the call failed.
    /// Returns what the operation waits for next, if it is not done.
    pub fn resume(
        &mut self,
        step: Step,
        reply: Option<Vec<u8>>,
        log: &mut EventLog,
    ) -> (result: Result<Option<Pending>, Vec<u8>>)
        ensures
            match reply {
                None => {
                    &&& result matches Err(bytes)
                    &&& bytes@ == reason_bytes(failure_reason(step@))
                    &&& final(self)@ == old(self)@
                    &&& final(log)@ == old(log)@
                },
                Some(data) => {
                    &&& result matches Ok(next)
                    &&& match next {
                        Some(pending) => resumed_pending(old(self)@, step@, data@) == Some(
                            pending@,
                        ),
                        None => resumed_pending(old(self)@, step@, data@) is None,
                    }
                    &&& final(self)@ == resumed_pool(old(self)@, step@, data@)
                    &&& final(log)@ == old(log)@ + resumed_events(step@, data@)
                },
            },
    {
        let data = match reply {
            Some(data) => data,
            None => {
                return Err(
                    reason(
                        match step {
                            Step::DepositPull { .. } => "pull",
                            Step::DepositApprove { .. } => "appr",
                            Step::DepositVault { .. } => "vdep",
                            Step::ConfirmRedeem { .. } => "vred",
                            Step::ConfirmPay { .. } => "pay",
                            Step::RefundRedeem { .. } => "vred",
                            Step::ClaimPay => "refpay",
                        },
                    ),
                );
            },
        };
        let next = match step {
            Step::DepositPull {
                challenge_id,
                required_deposit,
                new_deposited,
                participant_count,
                usdc,
            } => {
                // Everyone has funded: the pot goes to the vault.
                if new_deposited == participant_count {
                    let total = total_pool(required_deposit, participant_count);
                    Some(
                        Pending {
                            step: Step::DepositApprove { challenge_id, total },
                            call: Call {
                                to: usdc,
                                data: encode_approve(self.treasury_vault, total),
                            },
                        },
                    )
                } else {
                    None
                }
            },
            Step::DepositApprove { challenge_id, total } => Some(
                Pending {
                    step: Step::DepositVault { challenge_id },
                    call: Call { to: self.treasury_vault, data: encode_vault_deposit(total) },
                },
            ),
            Step::DepositVault { challenge_id } => {
                let shares = read_u256(data.as_slice());
                let challenge = self.challenges.setter(challenge_id);
                challenge.status = STATE_BLOQUEADO;
                challenge.treasury_shares = shares;
                log.emit(Event::ChallengeLocked { challenge_id, treasury_shares: shares });
                None
            },
            Step::ConfirmRedeem { challenge_id, winner } => {
                let recovered = read_u256(data.as_slice());
                let (winner_payout, commission) = resolve_payout(
                    recovered,
                    self.base_commission_rate,
                );
                // USDC goes to the winner alone.
                Some(
                    Pending {
                        step: Step::ConfirmPay { challenge_id, winner, winner_payout, commission },
                        call: Call { to: self.usdc, data: encode_transfer(winner, winner_payout) },
                    },
                )
            },
            Step::ConfirmPay { challenge_id, winner, winner_payout, commission } => {
                log.emit(
                    Event::ChallengeResolved {
                        challenge_id,
                        winner,
                        total_payout: winner_payout,
                        commission,
                    },
                );
                None
            },
            Step::RefundRedeem { challenge_id, participant_count } => {
                let recovered = read_u256(data.as_slice());
                let per_participant = refund_per_participant(recovered, participant_count);
                let challenge = self.challenges.setter(challenge_id);
                challenge.treasury_shares = per_participant;
                log.emit(
                    Event::ChallengeRefunded {
                        challenge_id,
                        refund_per_participant: per_participant,
                    },
                );
                None
            },
            Step::ClaimPay => None,
        };
        Ok(next)
    }

    /// The state of a challenge.
    pub fn challenge_status(&self, challenge_id: U256) -> (result: Result<u8, Vec<u8>>)
        ensures
            result == Ok::<u8, Vec<u8>>(self@.challenges[challenge_id@].status),
    {
        match self.challenges.getter(challenge_id) {
            Some(challenge) => Ok(challenge.status),
            None => Ok(STATE_ABIERTO),
        }
    }

    /// Whether an address is an authorized operator.
    pub fn is_operator(&self, operator: Address) -> (result: Result<bool, Vec<u8>>)
        ensures
            result == Ok::<bool, Vec<u8>>(self@.operators.contains(operator@)),
    {
        Ok(self.operators.get(operator))
    }

    /// The commission rate in basis points.
    pub fn commission_rate(&self) -> (result: Result<U256, Vec<u8>>)
        ensures
            result matches Ok(rate) && rate@ == self@.base_commission_rate,
    {
        Ok(self.base_commission_rate)
    }
}

} // verus!
