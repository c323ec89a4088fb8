//! What the pool exchanges with the chain that runs it: events to log, message
//! calls to make, and the point at which an operation goes on once a call has
//! been answered.

use vstd::prelude::*;

use crate::address::Address;
use crate::word::U256;

verus! {

/// What an [`Event`] says, with numbers for words.
pub enum EventView {
    ChallengeCreated {
        challenge_id: nat,
        creator: Seq<u8>,
        required_deposit: nat,
        deadline: nat,
    },
    DepositReceived { challenge_id: nat, participant: Seq<u8>, amount: nat },
    ChallengeLocked { challenge_id: nat, treasury_shares: nat },
    ChallengeResolved { challenge_id: nat, winner: Seq<u8>, total_payout: nat, commission: nat },
    ChallengeRefunded { challenge_id: nat, refund_per_participant: nat },
    RefundClaimed { challenge_id: nat, participant: Seq<u8>, amount: nat },
    OperatorAdded { operator: Seq<u8> },
    OperatorRemoved { operator: Seq<u8> },
    CommissionRateUpdated { previous_rate: nat, new_rate: nat },
    TreasuryVaultUpdated { previous_vault: Seq<u8>, new_vault: Seq<u8> },
}

/// An event of the pool.
#[derive(Clone, Copy, Debug, PartialEq, Eq)]
pub enum Event {
    ChallengeCreated {
        challenge_id: U256,
        creator: Address,
        required_deposit: U256,
        deadline: U256,
    },
    DepositReceived { challenge_id: U256, participant: Address, amount: U256 },
    ChallengeLocked { challenge_id: U256, treasury_shares: U256 },
    ChallengeResolved {
        challenge_id: U256,
        winner: Address,
        total_payout: U256,
        commission: U256,
    },
    ChallengeRefunded { challenge_id: U256, refund_per_participant: U256 },
    RefundClaimed { challenge_id: U256, participant: Address, amount: U256 },
    OperatorAdded { operator: Address },
    OperatorRemoved { operator: Address },
    CommissionRateUpdated { previous_rate: U256, new_rate: U256 },
    TreasuryVaultUpdated { previous_vault: Address, new_vault: Address },
}

impl View for Event {
    type V = EventView;

    open spec fn view(&self) -> EventView {
        match *self {
            Event::ChallengeCreated { challenge_id, creator, required_deposit, deadline } => {
                EventView::ChallengeCreated {
                    challenge_id: challenge_id@,
                    creator: creator@,
                    required_deposit: required_deposit@,
                    deadline: deadline@,
                }
            },
            Event::DepositReceived { challenge_id, participant, amount } => {
                EventView::DepositReceived {
                    challenge_id: challenge_id@,
                    participant: participant@,
                    amount: amount@,
                }
            },
            Event::ChallengeLocked { challenge_id, treasury_shares } => {
                EventView::ChallengeLocked {
                    challenge_id: challenge_id@,
                    treasury_shares: treasury_shares@,
                }
            },
            Event::ChallengeResolved { challenge_id, winner, total_payout, commission } => {
                EventView::ChallengeResolved {
                    challenge_id: challenge_id@,
                    winner: winner@,
                    total_payout: total_payout@,
                    commission: commission@,
                }
            },
            Event::ChallengeRefunded { challenge_id, refund_per_participant } => {
                EventView::ChallengeRefunded {
                    challenge_id: challenge_id@,
                    refund_per_participant: refund_per_participant@,
                }
            },
            Event::RefundClaimed { challenge_id, participant, amount } => {
                EventView::RefundClaimed {
                    challenge_id: challenge_id@,
                    participant: participant@,
                    amount: amount@,
                }
            },
            Event::OperatorAdded { operator } => EventView::OperatorAdded { operator: operator@ },
            Event::OperatorRemoved { operator } => EventView::OperatorRemoved {
                operator: operator@,
            },
            Event::CommissionRateUpdated { previous_rate, new_rate } => {
                EventView::CommissionRateUpdated {
                    previous_rate: previous_rate@,
                    new_rate: new_rate@,
                }
            },
            Event::TreasuryVaultUpdated { previous_vault, new_vault } => {
                EventView::TreasuryVaultUpdated {
                    previous_vault: previous_vault@,
                    new_vault: new_vault@,
                }
            },
        }
    }
}

/// The events that an operation logs, in order.
pub struct EventLog {
    pub events: Vec<Event>,
}

impl View for EventLog {
    type V = Seq<EventView>;

    open spec fn view(&self) -> Seq<EventView> {
        self.events@.map_values(|event: Event| event@)
    }
}

impl EventLog {
    /// Nothing logged.
    pub fn new() -> (log: EventLog)
        ensures
            log@ == Seq::<EventView>::empty(),
    {
        let log = EventLog { events: Vec::new() };
        assert(log@ =~= Seq::empty());
        log
    }

    /// Logs one event.
    pub fn emit(&mut self, event: Event)
        ensures
            final(self)@ == old(self)@.push(event@),
    {
        self.events.push(event);
        assert(self@ =~= old(self)@.push(event@));
    }
}

/// What a [`Call`] says.
pub struct CallView {
    pub to: Seq<u8>,
    pub data: Seq<u8>,
}

/// A message call that the pool asks for: no value, the given call data.
#[derive(Debug)]
pub struct Call {
    pub to: Address,
    pub data: Vec<u8>,
}

impl View for Call {
    type V = CallView;

    open spec fn view(&self) -> CallView {
        CallView { to: self.to@, data: self.data@ }
    }
}

/// What a [`Step`] says, with numbers for words.
pub enum StepView {
    DepositPull {
        challenge_id: nat,
        required_deposit: nat,
        new_deposited: nat,
        participant_count: nat,
        usdc: Seq<u8>,
    },
    DepositApprove { challenge_id: nat, total: nat },
    DepositVault { challenge_id: nat },
    ConfirmRedeem { challenge_id: nat, winner: Seq<u8> },
    ConfirmPay { challenge_id: nat, winner: Seq<u8>, winner_payout: nat, commission: nat },
    RefundRedeem { challenge_id: nat, participant_count: nat },
    ClaimPay,
}

/// Where an operation stands while its message call is being made, with what it
/// has to remember until the answer.
#[derive(Clone, Copy, Debug, PartialEq, Eq)]
pub enum Step {
    /// A deposit is being pulled from the participant.
    DepositPull {
        challenge_id: U256,
        required_deposit: U256,
        new_deposited: U256,
        participant_count: U256,
        usdc: Address,
    },
    /// The vault is being allowed to take the whole pot.
    DepositApprove { challenge_id: U256, total: U256 },
    /// The vault is taking the pot.
    DepositVault { challenge_id: U256 },
    /// The vault shares of a resolved challenge are being redeemed.
    ConfirmRedeem { challenge_id: U256, winner: Address },
    /// The winner is being paid.
    ConfirmPay { challenge_id: U256, winner: Address, winner_payout: U256, commission: U256 },
    /// The vault shares of a refunded challenge are being redeemed.
    RefundRedeem { challenge_id: U256, participant_count: U256 },
    /// A participant is being paid a refund.
    ClaimPay,
}

impl View for Step {
    type V = StepView;

    open spec fn view(&self) -> StepView {
        match *self {
            Step::DepositPull {
                challenge_id,
                required_deposit,
                new_deposited,
                participant_count,
                usdc,
            } => StepView::DepositPull {
                challenge_id: challenge_id@,
                required_deposit: required_deposit@,
                new_deposited: new_deposited@,
                participant_count: participant_count@,
                usdc: usdc@,
            },
            Step::DepositApprove { challenge_id, total } => StepView::DepositApprove {
                challenge_id: challenge_id@,
                total: total@,
            },
            Step::DepositVault { challenge_id } => StepView::DepositVault {
                challenge_id: challenge_id@,
            },
            Step::ConfirmRedeem { challenge_id, winner } => StepView::ConfirmRedeem {
                challenge_id: challenge_id@,
                winner: winner@,
            },
            Step::ConfirmPay { challenge_id, winner, winner_payout, commission } => {
                StepView::ConfirmPay {
                    challenge_id: challenge_id@,
                    winner: winner@,
                    winner_payout: winner_payout@,
                    commission: commission@,
                }
            },
            Step::RefundRedeem { challenge_id, participant_count } => StepView::RefundRedeem {
                challenge_id: challenge_id@,
                participant_count: participant_count@,
            },
            Step::ClaimPay => StepView::ClaimPay,
        }
    }
}

/// What a [`Pending`] operation says.
pub struct PendingView {
    pub step: StepView,
    pub call: CallView,
}

/// An operation that waits for the answer to a message call.
#[derive(Debug)]
pub struct Pending {
    pub step: Step,
    pub call: Call,
}

impl View for Pending {
    type V = PendingView;

    open spec fn view(&self) -> PendingView {
        PendingView { step: self.step@, call: self.call@ }
    }
}

} // verus!
