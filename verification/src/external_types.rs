//! Arguments and results of the cycles minting canister and the ICP ledger.
use crate::principal::Principal;
use crate::types::Tokens;
use std::collections::{HashMap, HashSet};
use vstd::prelude::*;

verus! {

/// The argument of the cycles minting canister's `notify_top_up`.
#[derive(Debug, Clone, PartialEq, Eq)]
pub struct NotifyTopUpArg {
    pub block_index: u64,
    pub canister_id: Principal,
}

/// The errors of the cycles minting canister's `notify_top_up`.
#[derive(Debug, Clone, PartialEq, Eq)]
pub enum NotifyError {
    Refunded { block_index: Option<u64>, reason: String },
    InvalidTransaction(String),
    Other { error_message: String, error_code: u64 },
    Processing,
    TransactionTooOld(u64),
}

#[derive(Debug, Clone, Copy, PartialEq, Eq, Structural)]
pub struct IcpXdrConversionRate {
    pub xdr_permyriad_per_icp: u64,
    pub timestamp_seconds: u64,
}

#[derive(Debug, Clone, PartialEq, Eq)]
pub struct IcpXdrConversionRateResponse {
    pub certificate: Vec<u8>,
    pub data: IcpXdrConversionRate,
    pub hash_tree: Vec<u8>,
}

/// The argument of the cycles minting canister's `set_authorized_subnetwork_list`.
#[derive(Debug, Clone, PartialEq, Eq)]
pub struct SetAuthorizedSubnetworkListArgs {
    pub who: Option<Principal>,
    pub subnets: Vec<Principal>,
}

#[derive(Debug, Clone, PartialEq, Eq)]
pub struct CmcInitPayload {
    pub ledger_canister_id: Option<Principal>,
    pub governance_canister_id: Option<Principal>,
    pub minting_account_id: String,
    pub last_purged_notification: Option<u64>,
    pub exchange_rate_canister: Option<ExchangeRateCanister>,
    pub cycles_ledger_canister_id: Option<Principal>,
}

#[derive(Debug, Clone, PartialEq, Eq)]
pub enum ExchangeRateCanister {
    /// Enables the exchange rate canister with the given canister ID.
    SetCanister(Principal),
    /// Disable the exchange rate canister.
    Unset,
}

#[derive(Debug)]
pub enum NnsLedgerCanisterPayload {
    Init(NnsLedgerCanisterInitPayload),
}

#[derive(Debug)]
pub struct NnsLedgerCanisterInitPayload {
    pub minting_account: String,
    pub initial_values: HashMap<String, Tokens>,
    pub send_whitelist: HashSet<Principal>,
    pub transfer_fee: Option<Tokens>,
    pub token_symbol: Option<String>,
    pub token_name: Option<String>,
    pub feature_flags: Option<FeatureFlags>,
}

#[derive(Debug, Clone, Copy, PartialEq, Eq, Structural)]
pub struct FeatureFlags {
    pub icrc2: bool,
}

} // verus!
