use subnet_rental_canister::canister::Step;
use subnet_rental_canister::canister_state::CanisterState;
use subnet_rental_canister::external_calls::{
    account_of, balance_account, convert_icp_to_cycles_notified, convert_icp_to_cycles_transfer,
    convert_icp_to_cycles_transferred, cycles_minting_canister_id, exchange_rate_received,
    exchange_rate_request, get_exchange_rate_xdr_per_icp_at_time, notify_top_up_arg,
    refund_user_args, transfer_to_cmc_args, transfer_to_src_main_args, whitelist_principals_args,
    AssetClass,
};
use subnet_rental_canister::principal::Principal;
use subnet_rental_canister::types::{subaccount_of, Tokens};
use subnet_rental_canister::{ExecuteProposalError, MEMO_TOP_UP_CANISTER};

fn canister() -> Principal {
    Principal::try_from_slice(&[0, 0, 0, 0, 0, 0, 0, 0x10, 1, 1]).unwrap()
}

fn user() -> Principal {
    Principal::try_from_slice(&[7, 8, 9]).unwrap()
}

#[test]
fn subaccounts_hold_the_principal_length_and_bytes() {
    let s = subaccount_of(&user());
    assert_eq!(s.len(), 32);
    assert_eq!(&s[..4], &[3, 7, 8, 9]);
    assert!(s[4..].iter().all(|b| *b == 0));
}

#[test]
fn transfer_to_the_cycles_minting_canister() {
    let args = transfer_to_cmc_args(&canister(), Tokens::from_e8s(500), subaccount_of(&user()));
    assert_eq!(args.memo, MEMO_TOP_UP_CANISTER);
    assert_eq!(args.memo, 0x50555054);
    assert_eq!(args.fee.e8s(), 10_000);
    assert_eq!(args.amount.e8s(), 500);
    assert_eq!(args.from_subaccount, Some(subaccount_of(&user())));
    assert_eq!(args.to, account_of(&cycles_minting_canister_id(), &subaccount_of(&canister())));
    assert_eq!(args.to.len(), 32);
    assert_eq!(args.created_at_time, None);
}

#[test]
fn transfers_to_the_main_account_and_refunds() {
    let main = transfer_to_src_main_args(&canister(), subaccount_of(&user()), Tokens::from_e8s(9), 42);
    assert_eq!(main.memo, 42);
    assert_eq!(main.to, account_of(&canister(), &vec![0u8; 32]));
    let refund = refund_user_args(&user(), Tokens::from_e8s(77));
    assert_eq!(refund.memo, 0);
    assert_eq!(refund.amount.e8s(), 77);
    assert_eq!(refund.to, account_of(&user(), &vec![0u8; 32]));
    assert_eq!(refund.from_subaccount, Some(subaccount_of(&user())));
    assert_eq!(balance_account(&canister(), &user()), account_of(&canister(), &subaccount_of(&user())));
    assert_ne!(balance_account(&canister(), &user()), refund.to);
}

#[test]
fn converting_icp_to_cycles() {
    assert!(matches!(
        convert_icp_to_cycles_transfer(&canister(), Tokens::from_e8s(9_999), &user()),
        Step::Trap(_)
    ));
    match convert_icp_to_cycles_transfer(&canister(), Tokens::from_e8s(1_000_000), &user()) {
        Step::Proceed(args) => {
            assert_eq!(args.amount.e8s(), 990_000);
            assert_eq!(args.memo, MEMO_TOP_UP_CANISTER);
            assert_eq!(args.from_subaccount, Some(subaccount_of(&user())));
        }
        _ => panic!("the amount covers the fee"),
    }
    assert_eq!(convert_icp_to_cycles_transferred(Ok(5)), Ok(5));
    assert_eq!(
        convert_icp_to_cycles_transferred(Err("bad fee".to_string())),
        Err(ExecuteProposalError::TransferSrcToCmcError("bad fee".to_string()))
    );
    assert_eq!(convert_icp_to_cycles_notified(Ok(123)), Ok(123));
    assert_eq!(
        convert_icp_to_cycles_notified(Err("Processing".to_string())),
        Err(ExecuteProposalError::NotifyTopUpError("Processing".to_string()))
    );
}

#[test]
fn arguments_of_the_cycles_minting_canister() {
    let a = notify_top_up_arg(17, canister());
    assert_eq!(a.block_index, 17);
    assert_eq!(a.canister_id, canister());
    let w = whitelist_principals_args(canister(), &user());
    assert_eq!(w.who, Some(user()));
    assert_eq!(w.subnets, vec![canister()]);
}

#[test]
fn exchange_rates_are_asked_for_and_cached() {
    let r = exchange_rate_request(86_400);
    assert_eq!(r.base_asset.symbol, "ICP");
    assert_eq!(r.base_asset.class, AssetClass::Cryptocurrency);
    assert_eq!(r.quote_asset.symbol, "CXDR");
    assert_eq!(r.quote_asset.class, AssetClass::FiatCurrency);
    assert_eq!(r.timestamp, Some(86_400));
    let mut state = CanisterState::new();
    assert_eq!(get_exchange_rate_xdr_per_icp_at_time(&state, 86_400), None);
    assert_eq!(exchange_rate_received(&mut state, 86_400, Err("x".to_string())), Err("x".to_string()));
    assert_eq!(get_exchange_rate_xdr_per_icp_at_time(&state, 86_400), None);
    assert_eq!(exchange_rate_received(&mut state, 86_400, Ok((5, 9))), Ok((5, 9)));
    assert_eq!(get_exchange_rate_xdr_per_icp_at_time(&state, 86_400), Some((5, 9)));
}
