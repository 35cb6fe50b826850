//! Interfaces of the canisters that this canister talks to.
pub mod governance_canister;
