//! A canister that rents out whole subnets of the Internet Computer: rental conditions,
//! rental requests, rental agreements, their payments in ICP and cycles, and an audit
//! history of every change.
pub mod canister;
pub mod canister_state;
pub mod external_calls;
pub mod external_canister_interfaces;
pub mod external_types;
pub mod history;
pub mod http_request;
pub mod keyed_map;
pub mod migration;
pub mod principal;
pub mod text;
pub mod types;
pub mod xrc_mock;

use crate::history::Event;
use crate::keyed_map::{MapKey, MapValue};
use crate::principal::Principal;
use crate::types::Tokens;
use vstd::prelude::*;

verus! {

pub const BILLION: u64 = 1_000_000_000;

pub const TRILLION: u128 = 1_000_000_000_000;

pub const E8S: u64 = 100_000_000;

pub const SECONDS_PER_DAY: u64 = 86_400;

/// The memo of a ledger transfer that tops up a canister with cycles ('TPUP').
pub const MEMO_TOP_UP_CANISTER: u64 = 0x50555054;

// ============================================================================
// Types

/// Rental conditions are kept in a global map and only changed via code upgrades.
#[derive(Debug, Clone, Copy, PartialEq, Eq, Structural, PartialOrd, Ord, Hash)]
pub enum RentalConditionId {
    App13CH,
    App7CH,
}

/// Set of conditions for a subnet up for rent.
/// Once the subnet_id is known, it is added as Some().
#[derive(Debug, PartialEq, Eq)]
pub struct RentalConditions {
    /// A description of the topology of this subnet.
    pub description: String,
    /// Initially None, this field is filled when a new rental subnet
    /// is created with the given topology.
    pub subnet_id: Option<Principal>,
    pub daily_cost_cycles: u128,
    pub initial_rental_period_days: u64,
}

pub struct RentalConditionsView {
    pub description: Seq<char>,
    pub subnet_id: Option<Seq<u8>>,
    pub daily_cost_cycles: u128,
    pub initial_rental_period_days: u64,
}

/// The mathematical value of an optional principal.
pub open spec fn opt_principal_view(p: Option<Principal>) -> Option<Seq<u8>> {
    match p {
        Some(q) => Some(q@),
        None => None,
    }
}

/// A copy of an optional principal.
pub fn clone_opt_principal(p: &Option<Principal>) -> (r: Option<Principal>)
    ensures
        opt_principal_view(r) == opt_principal_view(*p),
{
    match p {
        Some(q) => Some(q.clone()),
        None => None,
    }
}

impl View for RentalConditions {
    type V = RentalConditionsView;

    open spec fn view(&self) -> RentalConditionsView {
        RentalConditionsView {
            description: self.description@,
            subnet_id: opt_principal_view(self.subnet_id),
            daily_cost_cycles: self.daily_cost_cycles,
            initial_rental_period_days: self.initial_rental_period_days,
        }
    }
}

impl Clone for RentalConditions {
    fn clone(&self) -> (r: Self)
        ensures
            r@ == self@,
    {
        RentalConditions {
            description: self.description.clone(),
            subnet_id: clone_opt_principal(&self.subnet_id),
            daily_cost_cycles: self.daily_cost_cycles,
            initial_rental_period_days: self.initial_rental_period_days,
        }
    }
}

/// The governance canister calls the SRC's proposal execution method
/// with this argument in case the proposal was valid and adopted.
#[derive(Debug, Clone, PartialEq, Eq)]
pub struct SubnetRentalProposalPayload {
    /// The user who makes the payments and enters an agreement.
    pub user: Principal,
    /// A key into the rental conditions map.
    pub rental_condition_id: RentalConditionId,
    pub proposal_id: u64,
    pub proposal_creation_time_seconds: u64,
}

/// The governance canister calls the SRC's method to turn the rental request into an agreement.
#[derive(Debug, Clone, PartialEq, Eq)]
pub struct CreateRentalAgreementPayload {
    /// The user who will be whitelisted on the CMC.
    pub user: Principal,
    /// The proposal id of the create subnet proposal.
    pub proposal_id: u64,
    /// The newly formed subnet's id.
    pub subnet_id: Principal,
}

/// Successful proposal execution leads to a RentalRequest.
#[derive(Debug, PartialEq, Eq)]
pub struct RentalRequest {
    pub user: Principal,
    /// The cost in ICP, calculated from the ICP/XDR exchange rate
    /// at UTC midnight before proposal creation time.
    pub initial_cost_icp: Tokens,
    /// The amount that is currently locked and available only as cycles.
    pub locked_amount_icp: Tokens,
    /// The amount of cycles that are no longer refundable.
    pub locked_amount_cycles: u128,
    /// The initial proposal id will be mentioned in the subnet creation proposal.
    pub initial_proposal_id: u64,
    /// Rental request creation time in nanoseconds since epoch.
    pub creation_time_nanos: u64,
    /// A key into the rental conditions map.
    pub rental_condition_id: RentalConditionId,
    /// The last time ICP were successfully locked.
    pub last_locking_time_nanos: u64,
}

pub struct RentalRequestView {
    pub user: Seq<u8>,
    pub initial_cost_icp: Tokens,
    pub locked_amount_icp: Tokens,
    pub locked_amount_cycles: u128,
    pub initial_proposal_id: u64,
    pub creation_time_nanos: u64,
    pub rental_condition_id: RentalConditionId,
    pub last_locking_time_nanos: u64,
}

impl View for RentalRequest {
    type V = RentalRequestView;

    open spec fn view(&self) -> RentalRequestView {
        RentalRequestView {
            user: self.user@,
            initial_cost_icp: self.initial_cost_icp,
            locked_amount_icp: self.locked_amount_icp,
            locked_amount_cycles: self.locked_amount_cycles,
            initial_proposal_id: self.initial_proposal_id,
            creation_time_nanos: self.creation_time_nanos,
            rental_condition_id: self.rental_condition_id,
            last_locking_time_nanos: self.last_locking_time_nanos,
        }
    }
}

impl Clone for RentalRequest {
    fn clone(&self) -> (r: Self)
        ensures
            r@ == self@,
    {
        RentalRequest {
            user: self.user.clone(),
            initial_cost_icp: self.initial_cost_icp,
            locked_amount_icp: self.locked_amount_icp,
            locked_amount_cycles: self.locked_amount_cycles,
            initial_proposal_id: self.initial_proposal_id,
            creation_time_nanos: self.creation_time_nanos,
            rental_condition_id: self.rental_condition_id,
            last_locking_time_nanos: self.last_locking_time_nanos,
        }
    }
}

#[derive(Debug, PartialEq, Eq)]
pub struct RentalAgreement {
    /// The principal which paid the deposit and will be whitelisted.
    pub user: Principal,
    /// The id of the SubnetRentalRequest proposal.
    pub rental_request_proposal_id: u64,
    /// The id of the proposal that created the subnet.
    pub subnet_creation_proposal_id: Option<u64>,
    /// The subnet's id.
    pub subnet_id: Principal,
    /// A key into the rental conditions map.
    pub rental_condition_id: RentalConditionId,
    /// Rental agreement creation time in nanoseconds since epoch.
    pub creation_time_nanos: u64,
    /// The time in nanos since epoch until which the rental agreement is paid for.
    pub paid_until_nanos: u64,
    /// Total amount of ICP that the user has paid.
    pub total_icp_paid: Tokens,
    /// Total amount of cycles that have been created for this agreement.
    pub total_cycles_created: u128,
    /// Total amount of cycles that have been burned for this agreement.
    pub total_cycles_burned: u128,
}

pub struct RentalAgreementView {
    pub user: Seq<u8>,
    pub rental_request_proposal_id: u64,
    pub subnet_creation_proposal_id: Option<u64>,
    pub subnet_id: Seq<u8>,
    pub rental_condition_id: RentalConditionId,
    pub creation_time_nanos: u64,
    pub paid_until_nanos: u64,
    pub total_icp_paid: Tokens,
    pub total_cycles_created: u128,
    pub total_cycles_burned: u128,
}

impl View for RentalAgreement {
    type V = RentalAgreementView;

    open spec fn view(&self) -> RentalAgreementView {
        RentalAgreementView {
            user: self.user@,
            rental_request_proposal_id: self.rental_request_proposal_id,
            subnet_creation_proposal_id: self.subnet_creation_proposal_id,
            subnet_id: self.subnet_id@,
            rental_condition_id: self.rental_condition_id,
            creation_time_nanos: self.creation_time_nanos,
            paid_until_nanos: self.paid_until_nanos,
            total_icp_paid: self.total_icp_paid,
            total_cycles_created: self.total_cycles_created,
            total_cycles_burned: self.total_cycles_burned,
        }
    }
}

impl Clone for RentalAgreement {
    fn clone(&self) -> (r: Self)
        ensures
            r@ == self@,
    {
        RentalAgreement {
            user: self.user.clone(),
            rental_request_proposal_id: self.rental_request_proposal_id,
            subnet_creation_proposal_id: self.subnet_creation_proposal_id,
            subnet_id: self.subnet_id.clone(),
            rental_condition_id: self.rental_condition_id,
            creation_time_nanos: self.creation_time_nanos,
            paid_until_nanos: self.paid_until_nanos,
            total_icp_paid: self.total_icp_paid,
            total_cycles_created: self.total_cycles_created,
            total_cycles_burned: self.total_cycles_burned,
        }
    }
}

#[derive(Debug, Clone, PartialEq, Eq)]
pub enum ExecuteProposalError {
    CallGovernanceFailed,
    CallXRCFailed(String),
    PriceCalculationError(PriceCalculationData),
    UserAlreadyRequestingSubnetRental,
    UserAlreadyHasAgreement,
    SubnetAlreadyRented,
    SubnetAlreadyRequested,
    UnauthorizedCaller,
    InsufficientFunds { have: Tokens, need: Tokens },
    TransferSrcToCmcError(String),
    NotifyTopUpError(String),
    SubnetNotRented,
    RentalRequestNotFound,
}

/// The data in this struct was used in a failed attempt to calculate an ICP/XDR
/// exchange rate for the subnet rental canister.
#[derive(Debug, Clone, Copy, PartialEq, Eq, Structural, PartialOrd, Ord)]
pub struct PriceCalculationData {
    /// From the rental conditions.
    pub daily_cost_cycles: u128,
    /// From the rental conditions.
    pub initial_rental_period_days: u64,
    /// The exchange rate is a positive integer scaled by 10^decimals.
    pub scaled_exchange_rate_xdr_per_icp: u64,
    /// Scale factor for the exchange rate.
    pub decimals: u32,
}

#[derive(Debug, Clone, PartialEq, Eq, PartialOrd, Ord)]
pub struct TopUpSummary {
    /// A human-readable description of the topup
    pub description: String,
    pub cycles_added: u128,
    pub days_added: u64,
}

#[derive(Debug, Clone, PartialEq, Eq, PartialOrd, Ord)]
pub struct RentalAgreementStatus {
    /// A human-readable description of the subnet status
    pub description: String,
    pub cycles_left: u128,
    pub days_left: u64,
}

/// The return type of the history page queries.
#[derive(Debug)]
pub struct EventPage {
    /// Up to a page of events (20).
    pub events: Vec<Event>,
    /// The event number of the oldest event in the page; passing it as `older_than`
    /// continues with the next page.
    pub continuation: u64,
}

// ============================================================================
// Keys and values of the canister's maps

impl MapKey for Principal {
    type KeyView = Seq<u8>;

    open spec fn key_view(&self) -> Seq<u8> {
        self@
    }

    fn key_eq(&self, other: &Self) -> (b: bool) {
        self.same_as(other)
    }

    fn key_clone(&self) -> (r: Self) {
        self.clone()
    }
}

impl MapKey for Option<Principal> {
    type KeyView = Option<Seq<u8>>;

    open spec fn key_view(&self) -> Option<Seq<u8>> {
        opt_principal_view(*self)
    }

    fn key_eq(&self, other: &Self) -> (b: bool) {
        match (self, other) {
            (Some(a), Some(b)) => a.same_as(b),
            (None, None) => true,
            _ => false,
        }
    }

    fn key_clone(&self) -> (r: Self) {
        clone_opt_principal(self)
    }
}

impl MapKey for RentalConditionId {
    type KeyView = RentalConditionId;

    open spec fn key_view(&self) -> RentalConditionId {
        *self
    }

    fn key_eq(&self, other: &Self) -> (b: bool) {
        *self == *other
    }

    fn key_clone(&self) -> (r: Self) {
        *self
    }
}

impl MapKey for u64 {
    type KeyView = u64;

    open spec fn key_view(&self) -> u64 {
        *self
    }

    fn key_eq(&self, other: &Self) -> (b: bool) {
        *self == *other
    }

    fn key_clone(&self) -> (r: Self) {
        *self
    }
}

impl MapValue for u64 {
    type ValueView = u64;

    open spec fn value_view(&self) -> u64 {
        *self
    }

    fn value_clone(&self) -> (r: Self) {
        *self
    }
}

impl MapValue for RentalConditions {
    type ValueView = RentalConditionsView;

    open spec fn value_view(&self) -> RentalConditionsView {
        self@
    }

    fn value_clone(&self) -> (r: Self) {
        self.clone()
    }
}

impl MapValue for RentalRequest {
    type ValueView = RentalRequestView;

    open spec fn value_view(&self) -> RentalRequestView {
        self@
    }

    fn value_clone(&self) -> (r: Self) {
        self.clone()
    }
}

impl MapValue for RentalAgreement {
    type ValueView = RentalAgreementView;

    open spec fn value_view(&self) -> RentalAgreementView {
        self@
    }

    fn value_clone(&self) -> (r: Self) {
        self.clone()
    }
}

} // verus!
