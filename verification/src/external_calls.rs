//! What the canister sends to the ledger, the cycles minting canister and the exchange rate
//! canister, and what it makes of their answers.
use crate::canister::Step;
use crate::canister_state::{cache_rate, get_cached_rate, CanisterState};
use crate::external_types::{NotifyTopUpArg, SetAuthorizedSubnetworkListArgs};
use crate::keyed_map::map_get;
use crate::principal::Principal;
use crate::text::{hex_string, hex_text};
use crate::types::{default_fee, spec_default_fee_e8s, spec_subaccount, subaccount_of, TransferArgs, Tokens};
use crate::{ExecuteProposalError, MEMO_TOP_UP_CANISTER};
use vstd::prelude::*;

verus! {

/// The cycles attached to a call of the exchange rate canister.
pub const XRC_CALL_CYCLES: u128 = 10_000_000_000;

// ============================================================================
// Principals and accounts

/// The bytes of the NNS governance canister's principal.
pub open spec fn governance_canister_bytes() -> Seq<u8> {
    seq![0u8, 0u8, 0u8, 0u8, 0u8, 0u8, 0u8, 1u8, 1u8, 1u8]
}

/// The bytes of the cycles minting canister's principal.
pub open spec fn cycles_minting_canister_bytes() -> Seq<u8> {
    seq![0u8, 0u8, 0u8, 0u8, 0u8, 0u8, 0u8, 4u8, 1u8, 1u8]
}

/// `ic_ledger_types::MAINNET_GOVERNANCE_CANISTER_ID`, as bytes: the crate defines it from the
/// slice `[0, 0, 0, 0, 0, 0, 0, 1, 1, 1]`.
#[verifier::external_body]
fn mainnet_governance_canister_bytes() -> (b: Vec<u8>)
    ensures
        b@ == governance_canister_bytes(),
{
    ic_ledger_types::MAINNET_GOVERNANCE_CANISTER_ID.as_slice().to_vec()
}

/// `ic_ledger_types::MAINNET_CYCLES_MINTING_CANISTER_ID`, as bytes: the crate defines it from
/// the slice `[0, 0, 0, 0, 0, 0, 0, 4, 1, 1]`.
#[verifier::external_body]
fn mainnet_cycles_minting_canister_bytes() -> (b: Vec<u8>)
    ensures
        b@ == cycles_minting_canister_bytes(),
{
    ic_ledger_types::MAINNET_CYCLES_MINTING_CANISTER_ID.as_slice().to_vec()
}

/// The principal of the NNS governance canister.
pub fn governance_canister_id() -> (p: Principal)
    ensures
        p@ == governance_canister_bytes(),
{
    let bytes = mainnet_governance_canister_bytes();
    Principal::try_from_slice(bytes.as_slice()).unwrap()
}

/// The principal of the cycles minting canister.
pub fn cycles_minting_canister_id() -> (p: Principal)
    ensures
        p@ == cycles_minting_canister_bytes(),
{
    let bytes = mainnet_cycles_minting_canister_bytes();
    Principal::try_from_slice(bytes.as_slice()).unwrap()
}

/// The ledger account identifier of an owner's subaccount: a CRC32 checksum followed by
/// the SHA-224 hash of the owner and the subaccount.
pub uninterp spec fn account_identifier(owner: Seq<u8>, subaccount: Seq<u8>) -> Seq<u8>;

/// `ic_ledger_types::AccountIdentifier::new` on the owner with the given bytes (at most 29,
/// else `candid::Principal::from_slice` panics) and the given 32-byte subaccount; the result
/// as its 32 bytes. The contract names the result and gives its length, which the type
/// `[u8; 32]` fixes; it says nothing of the hash.
#[verifier::external_body]
fn account_identifier_bytes(owner: &[u8], subaccount: &[u8]) -> (r: Vec<u8>)
    requires
        owner@.len() <= 29,
        subaccount@.len() == 32,
    ensures
        r@ == account_identifier(owner@, subaccount@),
        r@.len() == 32,
{
    let sub: [u8; 32] = subaccount.try_into().unwrap();
    ic_ledger_types::AccountIdentifier::new(
        &candid::Principal::from_slice(owner),
        &ic_ledger_types::Subaccount(sub),
    ).as_bytes().to_vec()
}

/// The subaccount with 32 zero bytes.
pub open spec fn default_subaccount() -> Seq<u8> {
    Seq::new(32, |i: int| 0u8)
}

fn zero_subaccount() -> (s: Vec<u8>)
    ensures
        s@ == default_subaccount(),
{
    let mut s: Vec<u8> = Vec::new();
    let mut i: usize = 0;
    while i < 32
        invariant
            i <= 32,
            s@.len() == i,
            forall|j: int| 0 <= j < i ==> s@[j] == 0u8,
        decreases 32 - i,
    {
        s.push(0u8);
        i = i + 1;
    }
    assert(s@ =~= default_subaccount());
    s
}

/// The account identifier of `owner`'s `subaccount`.
pub fn account_of(owner: &Principal, subaccount: &Vec<u8>) -> (r: Vec<u8>)
    requires
        subaccount@.len() == 32,
    ensures
        r@ == account_identifier(owner@, subaccount@),
        r@.len() == 32,
{
    let bytes = owner.to_vec();
    account_identifier_bytes(bytes.as_slice(), subaccount.as_slice())
}

/// The account, in hexadecimal, into which `user` pays the canister `canister_id`: the
/// canister's subaccount derived from the user.
pub fn payment_account_hex(canister_id: &Principal, user: &Principal) -> (s: String)
    ensures
        s@ == hex_text(account_identifier(canister_id@, spec_subaccount(user@))),
{
    let sub = subaccount_of(user);
    let account = account_of(canister_id, &sub);
    hex_string(account.as_slice())
}

/// The account whose balance holds what `user` paid to the canister `canister_id`.
pub fn balance_account(canister_id: &Principal, user: &Principal) -> (r: Vec<u8>)
    ensures
        r@ == account_identifier(canister_id@, spec_subaccount(user@)),
{
    let sub = subaccount_of(user);
    account_of(canister_id, &sub)
}

// ============================================================================
// Ledger transfers

/// The transfer that moves `amount` from the user-derived subaccount `source` to the cycles
/// minting canister, to top up the canister `canister_id`.
pub fn transfer_to_cmc_args(canister_id: &Principal, amount: Tokens, source: Vec<u8>) -> (a:
    TransferArgs)
    requires
        source@.len() == 32,
    ensures
        a.to@ == account_identifier(cycles_minting_canister_bytes(), spec_subaccount(canister_id@)),
        a.fee.e8s == spec_default_fee_e8s(),
        a.from_subaccount == Some(source),
        a.amount == amount,
        a.memo == MEMO_TOP_UP_CANISTER,
        a.created_at_time is None,
{
    let cmc = cycles_minting_canister_id();
    let sub = subaccount_of(canister_id);
    TransferArgs {
        to: account_of(&cmc, &sub),
        fee: default_fee(),
        from_subaccount: Some(source),
        amount,
        memo: MEMO_TOP_UP_CANISTER,
        created_at_time: None,
    }
}

/// The transfer that moves `amount` from the user-derived subaccount `source` to the
/// canister's main account, with the proposal id as memo for deduplication.
pub fn transfer_to_src_main_args(
    canister_id: &Principal,
    source: Vec<u8>,
    amount: Tokens,
    proposal_id: u64,
) -> (a: TransferArgs)
    ensures
        a.to@ == account_identifier(canister_id@, default_subaccount()),
        a.fee.e8s == spec_default_fee_e8s(),
        a.from_subaccount == Some(source),
        a.amount == amount,
        a.memo == proposal_id,
        a.created_at_time is None,
{
    let zero = zero_subaccount();
    TransferArgs {
        to: account_of(canister_id, &zero),
        fee: default_fee(),
        from_subaccount: Some(source),
        amount,
        memo: proposal_id,
        created_at_time: None,
    }
}

/// The transfer that refunds `amount` from the user's subaccount of the canister to the
/// user's default account.
pub fn refund_user_args(user_principal: &Principal, amount: Tokens) -> (a: TransferArgs)
    ensures
        a.to@ == account_identifier(user_principal@, default_subaccount()),
        a.fee.e8s == spec_default_fee_e8s(),
        a.from_subaccount matches Some(s) && s@ == spec_subaccount(user_principal@),
        a.amount == amount,
        a.memo == 0,
        a.created_at_time is None,
{
    let zero = zero_subaccount();
    TransferArgs {
        to: account_of(user_principal, &zero),
        fee: default_fee(),
        from_subaccount: Some(subaccount_of(user_principal)),
        amount,
        memo: 0,
        created_at_time: None,
    }
}

/// The argument that asks the cycles minting canister to turn the transfer at `block_index`
/// into cycles for `canister_id`.
pub fn notify_top_up_arg(block_index: u64, canister_id: Principal) -> (a: NotifyTopUpArg)
    ensures
        a.block_index == block_index,
        a.canister_id == canister_id,
{
    NotifyTopUpArg { block_index, canister_id }
}

/// The argument that authorizes `user` to create canisters on the subnet `subnet_id`.
pub fn whitelist_principals_args(subnet_id: Principal, user: &Principal) -> (a:
    SetAuthorizedSubnetworkListArgs)
    ensures
        a.who matches Some(w) && w@ == user@,
        a.subnets@.len() == 1 && a.subnets@[0] == subnet_id,
{
    let mut subnets: Vec<Principal> = Vec::new();
    subnets.push(subnet_id);
    SetAuthorizedSubnetworkListArgs { who: Some(user.clone()), subnets }
}

// ============================================================================
// Converting ICP to cycles

/// The first step of converting `amount` ICP of `user`'s subaccount into cycles for the
/// canister `canister_id`: the transfer of `amount` minus the fee to the cycles minting
/// canister. Stops the call, as a panic does, if `amount` does not cover the fee.
pub fn convert_icp_to_cycles_transfer(canister_id: &Principal, amount: Tokens, user: &Principal) -> (r:
    Step<TransferArgs, ExecuteProposalError>)
    ensures
        amount.e8s < spec_default_fee_e8s() <==> r is Trap,
        r matches Step::Proceed(a) ==> {
            &&& a.amount.e8s == amount.e8s - spec_default_fee_e8s()
            &&& a.to@ == account_identifier(
                cycles_minting_canister_bytes(),
                spec_subaccount(canister_id@),
            )
            &&& a.from_subaccount matches Some(s) && s@ == spec_subaccount(user@)
            &&& a.memo == MEMO_TOP_UP_CANISTER
            &&& a.fee.e8s == spec_default_fee_e8s()
            &&& a.created_at_time is None
        },
        !(r is Stop),
{
    let fee = default_fee();
    if amount.e8s < fee.e8s {
        return Step::Trap(String::from_str("Tokens underflow"));
    }
    let source = subaccount_of(user);
    Step::Proceed(transfer_to_cmc_args(canister_id, amount.minus(fee), source))
}

/// The outcome of the transfer to the cycles minting canister: its block index, or the
/// ledger's error as `TransferSrcToCmcError`.
pub fn convert_icp_to_cycles_transferred(transfer: Result<u64, String>) -> (r: Result<
    u64,
    ExecuteProposalError,
>)
    ensures
        transfer matches Ok(b) ==> r == Ok::<u64, ExecuteProposalError>(b),
        transfer matches Err(e) ==> r == Err::<u64, ExecuteProposalError>(
            ExecuteProposalError::TransferSrcToCmcError(e),
        ),
{
    match transfer {
        Ok(b) => Ok(b),
        Err(e) => Err(ExecuteProposalError::TransferSrcToCmcError(e)),
    }
}

/// The outcome of the notification of the cycles minting canister: the cycles created, or
/// its error as `NotifyTopUpError`.
pub fn convert_icp_to_cycles_notified(notified: Result<u128, String>) -> (r: Result<
    u128,
    ExecuteProposalError,
>)
    ensures
        notified matches Ok(c) ==> r == Ok::<u128, ExecuteProposalError>(c),
        notified matches Err(e) ==> r == Err::<u128, ExecuteProposalError>(
            ExecuteProposalError::NotifyTopUpError(e),
        ),
{
    match notified {
        Ok(c) => Ok(c),
        Err(e) => Err(ExecuteProposalError::NotifyTopUpError(e)),
    }
}

// ============================================================================
// Exchange rates

#[derive(Debug, Clone, Copy, PartialEq, Eq, Structural)]
pub enum AssetClass {
    Cryptocurrency,
    FiatCurrency,
}

#[derive(Debug, Clone, PartialEq, Eq)]
pub struct Asset {
    pub symbol: String,
    pub class: AssetClass,
}

/// A question to the exchange rate canister: the rate of the base asset in the quote asset.
#[derive(Debug, Clone, PartialEq, Eq)]
pub struct GetExchangeRateRequest {
    pub base_asset: Asset,
    pub quote_asset: Asset,
    pub timestamp: Option<u64>,
}

/// The question for the XDR/ICP rate at `time_secs_since_epoch`: ICP as a cryptocurrency in
/// the computed "CXDR" fiat symbol, which is more likely to have a value than XDR.
pub fn exchange_rate_request(time_secs_since_epoch: u64) -> (r: GetExchangeRateRequest)
    ensures
        r.base_asset.symbol@ == "ICP"@,
        r.base_asset.class == AssetClass::Cryptocurrency,
        r.quote_asset.symbol@ == "CXDR"@,
        r.quote_asset.class == AssetClass::FiatCurrency,
        r.timestamp == Some(time_secs_since_epoch),
{
    GetExchangeRateRequest {
        base_asset: Asset { symbol: String::from_str("ICP"), class: AssetClass::Cryptocurrency },
        quote_asset: Asset { symbol: String::from_str("CXDR"), class: AssetClass::FiatCurrency },
        timestamp: Some(time_secs_since_epoch),
    }
}

/// The XDR/ICP exchange rate at the given time in seconds since epoch, from the cache:
/// (rate, decimals), where the rate is scaled by 10^decimals. `None` means that the
/// exchange rate canister must be asked.
pub fn get_exchange_rate_xdr_per_icp_at_time(state: &CanisterState, time_secs_since_epoch: u64) -> (r:
    Option<(u64, u32)>)
    ensures
        r == map_get(state.rates(), time_secs_since_epoch),
{
    get_cached_rate(state, time_secs_since_epoch)
}

/// Keeps the answer of the exchange rate canister for `time_secs_since_epoch` in the cache,
/// if it is a rate, and passes it on.
pub fn exchange_rate_received(
    state: &mut CanisterState,
    time_secs_since_epoch: u64,
    response: Result<(u64, u32), String>,
) -> (r: Result<(u64, u32), String>)
    requires
        old(state).wf(),
    ensures
        final(state).wf(),
        r == response,
        response matches Ok(v) ==> final(state).rates() == old(state).rates().insert(
            time_secs_since_epoch,
            v,
        ),
        response is Err ==> final(state).rates() == old(state).rates(),
        final(state).conditions() == old(state).conditions(),
        final(state).locks() == old(state).locks(),
        final(state).requests() == old(state).requests(),
        final(state).request_order() == old(state).request_order(),
        final(state).agreements() == old(state).agreements(),
        final(state).agreement_order() == old(state).agreement_order(),
        final(state).counters() == old(state).counters(),
        final(state).history() == old(state).history(),
{
    match response {
        Ok((rate, decimals)) => {
            cache_rate(state, time_secs_since_epoch, rate, decimals);
            Ok((rate, decimals))
        },
        Err(e) => Err(e),
    }
}

} // verus!
