//! Important events are persisted for auditing by the community.
use crate::keyed_map::MapValue;
use crate::principal::Principal;
use crate::types::Tokens;
use crate::{
    RentalConditionId, RentalConditions,
    RentalConditionsView, RentalRequest, RentalRequestView,
};
use vstd::prelude::*;

verus! {

/// An event of the history, with the time at which it happened.
#[derive(Debug, PartialEq, Eq)]
pub struct Event {
    time_nanos: u64,
    event: EventType,
}

pub struct EventView {
    pub time_nanos: u64,
    pub event: EventTypeView,
}

impl View for Event {
    type V = EventView;

    closed spec fn view(&self) -> EventView {
        EventView { time_nanos: self.time_nanos, event: self.event@ }
    }
}

impl Clone for Event {
    fn clone(&self) -> (r: Self)
        ensures
            r@ == self@,
    {
        Event { time_nanos: self.time_nanos, event: self.event.clone() }
    }
}

impl Event {
    /// The event `event`, happening at `time_nanos` nanoseconds since the epoch.
    pub fn new(time_nanos: u64, event: EventType) -> (e: Event)
        ensures
            e@ == (EventView { time_nanos, event: event@ }),
    {
        Event { time_nanos, event }
    }

    /// What happened.
    pub fn event(&self) -> (e: EventType)
        ensures
            e@ == self@.event,
    {
        self.event.clone()
    }

    /// When it happened, in nanoseconds since the epoch.
    pub fn time_nanos(&self) -> (t: u64)
        ensures
            t == self@.time_nanos,
    {
        self.time_nanos
    }
}

impl MapValue for Event {
    type ValueView = EventView;

    open spec fn value_view(&self) -> EventView {
        self@
    }

    fn value_clone(&self) -> (r: Self) {
        self.clone()
    }
}

#[derive(Debug, PartialEq, Eq)]
pub enum EventType {
    /// Changed via code upgrade. A None value means that the entry has been removed from the map.
    RentalConditionsChanged {
        rental_condition_id: RentalConditionId,
        rental_conditions: Option<RentalConditions>,
    },
    /// A successful SubnetRentalRequest proposal execution leads to a RentalRequest
    RentalRequestCreated { rental_request: RentalRequest },
    /// An unsuccessful SubnetRentalRequest proposal execution
    RentalRequestFailed { user: Principal, proposal_id: u64, reason: String },
    /// When the user calls get_refund and the effort is abandoned.
    RentalRequestCancelled { rental_request: RentalRequest },
    /// After successfull polling for a CreateSubnet proposal, a RentalAgreement is created
    RentalAgreementCreated {
        user: Principal,
        rental_request_proposal_id: u64,
        subnet_creation_proposal_id: Option<u64>,
        rental_condition_id: RentalConditionId,
    },
    /// Reserved for future rental agreement termination logic.
    RentalAgreementTerminated {
        user: Principal,
        initial_proposal_id: u64,
        subnet_creation_proposal_id: Option<u64>,
        rental_condition_id: RentalConditionId,
    },
    /// A successful transfer from the SRC/user subaccount to the SRC main account.
    TransferSuccess { amount: Tokens, block_index: u64 },
    /// A successfull locking of 10% during the wait until subnet creation.
    LockingSuccess { user: Principal, amount: Tokens, cycles: u128 },
    /// A failure to lock 10% during the wait until subnet creation.
    LockingFailure { user: Principal, reason: String },
    /// A successful top-up of a rented subnet.
    SubnetTopUp {
        subnet_id: Principal,
        user: Principal,
        icp_amount: Tokens,
        cycles_added: u128,
        days_added: u64,
        new_paid_until_nanos: u64,
    },
    /// A failed top-up attempt for a rented subnet.
    SubnetTopUpFailed { subnet_id: Principal, user: Principal, reason: String },
    /// Reserved for future canister degradation detection.
    Degraded,
    /// Reserved for future canister degradation recovery.
    Undegraded,
    Other { message: String },
    /// A rental agreement moved to another rental condition, repricing its unburned cycles.
    RentalConditionSwitched {
        subnet_id: Principal,
        user: Principal,
        old_condition_id: RentalConditionId,
        new_condition_id: RentalConditionId,
        cycles_remaining: u128,
        old_paid_until_nanos: u64,
        new_paid_until_nanos: u64,
    },
}

pub enum EventTypeView {
    RentalConditionsChanged {
        rental_condition_id: RentalConditionId,
        rental_conditions: Option<RentalConditionsView>,
    },
    RentalRequestCreated { rental_request: RentalRequestView },
    RentalRequestFailed { user: Seq<u8>, proposal_id: u64, reason: Seq<char> },
    RentalRequestCancelled { rental_request: RentalRequestView },
    RentalAgreementCreated {
        user: Seq<u8>,
        rental_request_proposal_id: u64,
        subnet_creation_proposal_id: Option<u64>,
        rental_condition_id: RentalConditionId,
    },
    RentalAgreementTerminated {
        user: Seq<u8>,
        initial_proposal_id: u64,
        subnet_creation_proposal_id: Option<u64>,
        rental_condition_id: RentalConditionId,
    },
    TransferSuccess { amount: Tokens, block_index: u64 },
    LockingSuccess { user: Seq<u8>, amount: Tokens, cycles: u128 },
    LockingFailure { user: Seq<u8>, reason: Seq<char> },
    SubnetTopUp {
        subnet_id: Seq<u8>,
        user: Seq<u8>,
        icp_amount: Tokens,
        cycles_added: u128,
        days_added: u64,
        new_paid_until_nanos: u64,
    },
    SubnetTopUpFailed { subnet_id: Seq<u8>, user: Seq<u8>, reason: Seq<char> },
    Degraded,
    Undegraded,
    Other { message: Seq<char> },
    RentalConditionSwitched {
        subnet_id: Seq<u8>,
        user: Seq<u8>,
        old_condition_id: RentalConditionId,
        new_condition_id: RentalConditionId,
        cycles_remaining: u128,
        old_paid_until_nanos: u64,
        new_paid_until_nanos: u64,
    },
}

/// The mathematical value of optional rental conditions.
pub open spec fn opt_conditions_view(c: Option<RentalConditions>) -> Option<RentalConditionsView> {
    match c {
        Some(c) => Some(c@),
        None => None,
    }
}

impl View for EventType {
    type V = EventTypeView;

    open spec fn view(&self) -> EventTypeView {
        match self {
            EventType::RentalConditionsChanged { rental_condition_id, rental_conditions } =>
                EventTypeView::RentalConditionsChanged {
                rental_condition_id: *rental_condition_id,
                rental_conditions: opt_conditions_view(*rental_conditions),
            },
            EventType::RentalRequestCreated { rental_request } =>
                EventTypeView::RentalRequestCreated { rental_request: rental_request@ },
            EventType::RentalRequestFailed { user, proposal_id, reason } =>
                EventTypeView::RentalRequestFailed {
                user: user@,
                proposal_id: *proposal_id,
                reason: reason@,
            },
            EventType::RentalRequestCancelled { rental_request } =>
                EventTypeView::RentalRequestCancelled { rental_request: rental_request@ },
            EventType::RentalAgreementCreated {
                user,
                rental_request_proposal_id,
                subnet_creation_proposal_id,
                rental_condition_id,
            } => EventTypeView::RentalAgreementCreated {
                user: user@,
                rental_request_proposal_id: *rental_request_proposal_id,
                subnet_creation_proposal_id: *subnet_creation_proposal_id,
                rental_condition_id: *rental_condition_id,
            },
            EventType::RentalAgreementTerminated {
                user,
                initial_proposal_id,
                subnet_creation_proposal_id,
                rental_condition_id,
            } => EventTypeView::RentalAgreementTerminated {
                user: user@,
                initial_proposal_id: *initial_proposal_id,
                subnet_creation_proposal_id: *subnet_creation_proposal_id,
                rental_condition_id: *rental_condition_id,
            },
            EventType::TransferSuccess { amount, block_index } => EventTypeView::TransferSuccess {
                amount: *amount,
                block_index: *block_index,
            },
            EventType::LockingSuccess { user, amount, cycles } => EventTypeView::LockingSuccess {
                user: user@,
                amount: *amount,
                cycles: *cycles,
            },
            EventType::LockingFailure { user, reason } => EventTypeView::LockingFailure {
                user: user@,
                reason: reason@,
            },
            EventType::SubnetTopUp {
                subnet_id,
                user,
                icp_amount,
                cycles_added,
                days_added,
                new_paid_until_nanos,
            } => EventTypeView::SubnetTopUp {
                subnet_id: subnet_id@,
                user: user@,
                icp_amount: *icp_amount,
                cycles_added: *cycles_added,
                days_added: *days_added,
                new_paid_until_nanos: *new_paid_until_nanos,
            },
            EventType::SubnetTopUpFailed { subnet_id, user, reason } =>
                EventTypeView::SubnetTopUpFailed {
                subnet_id: subnet_id@,
                user: user@,
                reason: reason@,
            },
            EventType::Degraded => EventTypeView::Degraded,
            EventType::Undegraded => EventTypeView::Undegraded,
            EventType::Other { message } => EventTypeView::Other { message: message@ },
            EventType::RentalConditionSwitched {
                subnet_id,
                user,
                old_condition_id,
                new_condition_id,
                cycles_remaining,
                old_paid_until_nanos,
                new_paid_until_nanos,
            } => EventTypeView::RentalConditionSwitched {
                subnet_id: subnet_id@,
                user: user@,
                old_condition_id: *old_condition_id,
                new_condition_id: *new_condition_id,
                cycles_remaining: *cycles_remaining,
                old_paid_until_nanos: *old_paid_until_nanos,
                new_paid_until_nanos: *new_paid_until_nanos,
            },
        }
    }
}

impl Clone for EventType {
    fn clone(&self) -> (r: Self)
        ensures
            r@ == self@,
    {
        match self {
            EventType::RentalConditionsChanged { rental_condition_id, rental_conditions } => {
                let c = match rental_conditions {
                    Some(c) => Some(c.clone()),
                    None => None,
                };
                EventType::RentalConditionsChanged {
                    rental_condition_id: *rental_condition_id,
                    rental_conditions: c,
                }
            },
            EventType::RentalRequestCreated { rental_request } => EventType::RentalRequestCreated {
                rental_request: rental_request.clone(),
            },
            EventType::RentalRequestFailed { user, proposal_id, reason } =>
                EventType::RentalRequestFailed {
                user: user.clone(),
                proposal_id: *proposal_id,
                reason: reason.clone(),
            },
            EventType::RentalRequestCancelled { rental_request } =>
                EventType::RentalRequestCancelled { rental_request: rental_request.clone() },
            EventType::RentalAgreementCreated {
                user,
                rental_request_proposal_id,
                subnet_creation_proposal_id,
                rental_condition_id,
            } => EventType::RentalAgreementCreated {
                user: user.clone(),
                rental_request_proposal_id: *rental_request_proposal_id,
                subnet_creation_proposal_id: *subnet_creation_proposal_id,
                rental_condition_id: *rental_condition_id,
            },
            EventType::RentalAgreementTerminated {
                user,
                initial_proposal_id,
                subnet_creation_proposal_id,
                rental_condition_id,
            } => EventType::RentalAgreementTerminated {
                user: user.clone(),
                initial_proposal_id: *initial_proposal_id,
                subnet_creation_proposal_id: *subnet_creation_proposal_id,
                rental_condition_id: *rental_condition_id,
            },
            EventType::TransferSuccess { amount, block_index } => EventType::TransferSuccess {
                amount: *amount,
                block_index: *block_index,
            },
            EventType::LockingSuccess { user, amount, cycles } => EventType::LockingSuccess {
                user: user.clone(),
                amount: *amount,
                cycles: *cycles,
            },
            EventType::LockingFailure { user, reason } => EventType::LockingFailure {
                user: user.clone(),
                reason: reason.clone(),
            },
            EventType::SubnetTopUp {
                subnet_id,
                user,
                icp_amount,
                cycles_added,
                days_added,
                new_paid_until_nanos,
            } => EventType::SubnetTopUp {
                subnet_id: subnet_id.clone(),
                user: user.clone(),
                icp_amount: *icp_amount,
                cycles_added: *cycles_added,
                days_added: *days_added,
                new_paid_until_nanos: *new_paid_until_nanos,
            },
            EventType::SubnetTopUpFailed { subnet_id, user, reason } =>
                EventType::SubnetTopUpFailed {
                subnet_id: subnet_id.clone(),
                user: user.clone(),
                reason: reason.clone(),
            },
            EventType::Degraded => EventType::Degraded,
            EventType::Undegraded => EventType::Undegraded,
            EventType::Other { message } => EventType::Other { message: message.clone() },
            EventType::RentalConditionSwitched {
                subnet_id,
                user,
                old_condition_id,
                new_condition_id,
                cycles_remaining,
                old_paid_until_nanos,
                new_paid_until_nanos,
            } => EventType::RentalConditionSwitched {
                subnet_id: subnet_id.clone(),
                user: user.clone(),
                old_condition_id: *old_condition_id,
                new_condition_id: *new_condition_id,
                cycles_remaining: *cycles_remaining,
                old_paid_until_nanos: *old_paid_until_nanos,
                new_paid_until_nanos: *new_paid_until_nanos,
            },
        }
    }
}

} // verus!
