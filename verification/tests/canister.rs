use subnet_rental_canister::canister::{
    calculate_days_remaining, calculate_subnet_price, create_rental_agreement_begin,
    create_rental_agreement_converted, create_rental_agreement_finish, cycles_to_burn,
    get_history_page, get_payment_account, get_rental_conditions_history_page,
    get_todays_price_begin, get_todays_price_fetched, get_todays_price_finish,
    list_rental_agreements, list_rental_conditions, list_rental_requests, locking_begin,
    locking_finish, plan_cycles_burn, price_error_string, record_cycles_burned,
    record_rental_request_failure, refund_amount, refund_begin, refund_finish,
    rental_agreement_status, rental_request_proposal_begin, rental_request_proposal_finish,
    rental_request_proposal_funded, rental_request_proposal_priced, round_to_previous_midnight,
    set_initial_conditions, subnet_top_up_estimate_begin, subnet_top_up_estimate_finish,
    top_up_subnet_amount, top_up_subnet_begin, top_up_subnet_finish, verify_caller_is_governance,
    BurnDecision, PriceQuery, PriceSource, Step,
};
use subnet_rental_canister::canister_state::{
    get_rental_agreement, get_rental_request, is_locked, CanisterState,
};
use subnet_rental_canister::external_calls::{cycles_minting_canister_id, governance_canister_id};
use subnet_rental_canister::history::EventType;
use subnet_rental_canister::principal::Principal;
use subnet_rental_canister::types::Tokens;
use subnet_rental_canister::{
    CreateRentalAgreementPayload, ExecuteProposalError, PriceCalculationData, RentalAgreement,
    RentalConditionId, SubnetRentalProposalPayload, BILLION, TRILLION,
};

const DAY_NANOS: u64 = 86_400 * BILLION;
const RATE: u64 = 3_497_900_000;
const PRICE_E8S: u64 = 4_219_674_661_940;

fn user() -> Principal {
    Principal::try_from_slice(&[1, 2, 3, 4]).unwrap()
}

fn subnet() -> Principal {
    Principal::try_from_slice(&[9, 9, 9, 9, 9]).unwrap()
}

fn payload(proposal_id: u64) -> SubnetRentalProposalPayload {
    SubnetRentalProposalPayload {
        user: user(),
        rental_condition_id: RentalConditionId::App13CH,
        proposal_id,
        proposal_creation_time_seconds: 10 * 86_400 + 5,
    }
}

fn fresh_state() -> CanisterState {
    let mut state = CanisterState::new();
    assert!(matches!(set_initial_conditions(&mut state, 0), Step::Proceed(())));
    state
}

/// Runs an adopted rental request proposal through all its steps, with enough funds.
fn request_subnet(state: &mut CanisterState, proposal_id: u64, now_nanos: u64) -> Tokens {
    let proposal = match rental_request_proposal_begin(state, payload(proposal_id)) {
        Step::Proceed(p) => p,
        _ => panic!("the proposal should proceed"),
    };
    let (proposal, needed) = match rental_request_proposal_priced(state, proposal, Ok((RATE, 9))) {
        Step::Proceed(x) => x,
        _ => panic!("the price should be computed"),
    };
    let (proposal, lock) = match rental_request_proposal_funded(state, proposal, needed, needed) {
        Step::Proceed(x) => x,
        _ => panic!("the funds should suffice"),
    };
    match rental_request_proposal_finish(state, proposal, needed, lock, Ok(1_000), now_nanos) {
        Step::Proceed(()) => {}
        _ => panic!("the request should be created"),
    }
    needed
}

/// Creates the rental agreement for the user's request at `now_nanos`.
fn create_agreement(state: &mut CanisterState, now_nanos: u64, cycles: u128) -> RentalAgreement {
    let creation = match create_rental_agreement_begin(
        state,
        CreateRentalAgreementPayload { user: user(), proposal_id: 1_000, subnet_id: subnet() },
    ) {
        Step::Proceed(c) => c,
        _ => panic!("the creation should proceed"),
    };
    let (creation, agreement) =
        match create_rental_agreement_converted(state, creation, Ok(cycles), now_nanos) {
            Step::Proceed(x) => x,
            _ => panic!("the conversion should succeed"),
        };
    let copy = agreement.clone();
    match create_rental_agreement_finish(state, creation, agreement, now_nanos) {
        Step::Proceed(()) => {}
        _ => panic!("the agreement should be stored"),
    }
    copy
}

#[test]
fn midnight_is_the_start_of_the_utc_day() {
    assert_eq!(round_to_previous_midnight(3 * 86_400 + 5), 3 * 86_400);
    assert_eq!(round_to_previous_midnight(3 * 86_400), 3 * 86_400);
    assert_eq!(round_to_previous_midnight(86_399), 0);
}

#[test]
fn days_remaining_counts_whole_days_ahead() {
    assert_eq!(calculate_days_remaining(5 * DAY_NANOS + 7, 3 * DAY_NANOS), 2);
    assert_eq!(calculate_days_remaining(3 * DAY_NANOS, 3 * DAY_NANOS), 0);
    assert_eq!(calculate_days_remaining(DAY_NANOS, 3 * DAY_NANOS), 0);
}

#[test]
fn subnet_price_in_e8s() {
    let price = calculate_subnet_price(820 * TRILLION, 180, RATE, 9).unwrap();
    assert_eq!(price.e8s(), PRICE_E8S);
    // A higher rate gives a lower price.
    let cheaper = calculate_subnet_price(820 * TRILLION, 180, 4_000_000_000, 9).unwrap();
    assert_eq!(cheaper.e8s(), 3_690_000_000_000);
    assert!(cheaper.e8s() <= price.e8s());
}

#[test]
fn subnet_price_fails_on_a_zero_rate_and_on_overflow() {
    let data = PriceCalculationData {
        daily_cost_cycles: 820 * TRILLION,
        initial_rental_period_days: 180,
        scaled_exchange_rate_xdr_per_icp: 0,
        decimals: 9,
    };
    assert_eq!(
        calculate_subnet_price(820 * TRILLION, 180, 0, 9),
        Err(ExecuteProposalError::PriceCalculationError(data))
    );
    assert!(matches!(
        calculate_subnet_price(u128::MAX, 2, RATE, 9),
        Err(ExecuteProposalError::PriceCalculationError(_))
    ));
    assert!(matches!(
        calculate_subnet_price(820 * TRILLION, 180, RATE, 38),
        Err(ExecuteProposalError::PriceCalculationError(_))
    ));
    assert_eq!(
        price_error_string(data),
        "PriceCalculationError(PriceCalculationData { daily_cost_cycles: 820000000000000, initial_rental_period_days: 180, scaled_exchange_rate_xdr_per_icp: 0, decimals: 9 })"
    );
}

#[test]
fn todays_price_from_the_cache_or_the_exchange_rate_canister() {
    let mut state = fresh_state();
    let now = 10 * DAY_NANOS + 12;
    let query = match get_todays_price_begin(&mut state, RentalConditionId::App13CH, now) {
        Step::Proceed(q) => q,
        _ => panic!("the conditions exist"),
    };
    let guard = match query.source {
        PriceSource::Fetch { time_secs, guard } => {
            assert_eq!(time_secs, 10 * 86_400);
            guard
        }
        PriceSource::Cached { .. } => panic!("nothing is cached yet"),
    };
    assert!(matches!(
        get_todays_price_begin(&mut state, RentalConditionId::App13CH, now),
        Step::Stop(_)
    ));
    assert_eq!(get_todays_price_fetched(&mut state, guard, 10 * 86_400, Ok((RATE, 9))), Ok((RATE, 9)));
    match get_todays_price_begin(&mut state, RentalConditionId::App13CH, now) {
        Step::Proceed(q) => assert!(matches!(q.source, PriceSource::Cached { rate: RATE, decimals: 9 })),
        _ => panic!("the rate is cached now"),
    }
    match get_todays_price_finish(820 * TRILLION, 180, RATE, 9) {
        Step::Proceed(t) => assert_eq!(t.e8s(), PRICE_E8S),
        _ => panic!("the price should be computed"),
    }
    match get_todays_price_finish(820 * TRILLION, 180, 0, 9) {
        Step::Stop(m) => assert!(m.starts_with("Failed to calculate price: PriceCalculationError(")),
        _ => panic!("a zero rate gives no price"),
    }
    assert!(matches!(
        get_todays_price_begin(&mut state, RentalConditionId::App7CH, now),
        Step::Stop(m) if m == "RentalConditionId not found"
    ));
}

#[test]
fn failed_exchange_rate_call_is_reported_and_not_cached() {
    let mut state = fresh_state();
    let guard = match source_of(get_todays_price_begin(&mut state, RentalConditionId::App13CH, DAY_NANOS)) {
        PriceSource::Fetch { guard, .. } => guard,
        PriceSource::Cached { .. } => panic!("nothing is cached yet"),
    };
    assert_eq!(
        get_todays_price_fetched(&mut state, guard, 86_400, Err("no rate".to_string())),
        Err("Failed to call the exchange rate canister: no rate".to_string())
    );
    assert!(matches!(
        source_of(get_todays_price_begin(&mut state, RentalConditionId::App13CH, DAY_NANOS)),
        PriceSource::Fetch { .. }
    ));
}

fn source_of(step: Step<PriceQuery, String>) -> PriceSource {
    match step {
        Step::Proceed(q) => q.source,
        _ => panic!("expected to proceed"),
    }
}

#[test]
fn only_governance_may_execute_proposals() {
    assert_eq!(verify_caller_is_governance(&governance_canister_id()), Ok(()));
    assert_eq!(
        verify_caller_is_governance(&Principal::anonymous()),
        Err(ExecuteProposalError::UnauthorizedCaller)
    );
    assert_eq!(governance_canister_id().to_text(), "rrkah-fqaaa-aaaaa-aaaaq-cai");
}

#[test]
fn payment_accounts_are_per_user() {
    let canister = Principal::try_from_slice(&[0, 0, 0, 0, 0, 0, 0, 0x10, 1, 1]).unwrap();
    let a = get_payment_account(&canister, &user());
    let b = get_payment_account(&canister, &subnet());
    assert_eq!(a.len(), 64);
    assert!(a.chars().all(|c| c.is_ascii_hexdigit() && !c.is_ascii_uppercase()));
    assert_ne!(a, b);
    assert_eq!(a, get_payment_account(&canister, &user()));
}

#[test]
fn rental_request_is_created_with_ten_percent_locked() {
    let mut state = fresh_state();
    let needed = request_subnet(&mut state, 999, 77);
    assert_eq!(needed.e8s(), PRICE_E8S);
    let requests = list_rental_requests(&state);
    assert_eq!(requests.len(), 1);
    let r = &requests[0];
    assert_eq!(r.user, user());
    assert_eq!(r.initial_cost_icp.e8s(), PRICE_E8S);
    assert_eq!(r.locked_amount_icp.e8s(), PRICE_E8S / 10);
    assert_eq!(r.locked_amount_cycles, 1_000);
    assert_eq!(r.initial_proposal_id, 999);
    assert_eq!(r.creation_time_nanos, 77);
    assert_eq!(r.last_locking_time_nanos, 77);
    let history = get_history_page(&state, user(), None);
    assert_eq!(history.events.len(), 1);
    assert!(matches!(history.events[0].event(), EventType::RentalRequestCreated { .. }));
}

#[test]
fn duplicate_request_fails() {
    let mut state = fresh_state();
    request_subnet(&mut state, 999, 77);
    match rental_request_proposal_begin(&mut state, payload(1_001)) {
        Step::Stop(e) => assert_eq!(e, ExecuteProposalError::UserAlreadyRequestingSubnetRental),
        _ => panic!("a second request must be refused"),
    }
    // The refusal released the guards: the user can be refunded.
    assert!(matches!(refund_begin(&mut state, user()), Step::Proceed(_)));
}

#[test]
fn insufficient_funds_are_refused_and_release_the_guards() {
    let mut state = fresh_state();
    let proposal = match rental_request_proposal_begin(&mut state, payload(5)) {
        Step::Proceed(p) => p,
        _ => panic!("the proposal should proceed"),
    };
    let (proposal, needed) =
        match rental_request_proposal_priced(&mut state, proposal, Ok((RATE, 9))) {
            Step::Proceed(x) => x,
            _ => panic!("the price should be computed"),
        };
    let have = Tokens::from_e8s(100);
    match rental_request_proposal_funded(&mut state, proposal, needed, have) {
        Step::Stop(e) => assert_eq!(e, ExecuteProposalError::InsufficientFunds { have, need: needed }),
        _ => panic!("the funds do not suffice"),
    }
    assert!(list_rental_requests(&state).is_empty());
    assert!(matches!(rental_request_proposal_begin(&mut state, payload(6)), Step::Proceed(_)));
}

#[test]
fn failed_exchange_rate_ends_the_proposal() {
    let mut state = fresh_state();
    let proposal = match rental_request_proposal_begin(&mut state, payload(5)) {
        Step::Proceed(p) => p,
        _ => panic!("the proposal should proceed"),
    };
    match rental_request_proposal_priced(&mut state, proposal, Err("down".to_string())) {
        Step::Stop(e) => assert_eq!(e, ExecuteProposalError::CallXRCFailed("down".to_string())),
        _ => panic!("the rate is missing"),
    }
    assert!(matches!(
        record_rental_request_failure(&mut state, user(), 5, "CallXRCFailed".to_string(), 3),
        Step::Proceed(())
    ));
    let history = get_history_page(&state, user(), None);
    assert_eq!(history.events.len(), 1);
    match history.events[0].event() {
        EventType::RentalRequestFailed { proposal_id, reason, .. } => {
            assert_eq!(proposal_id, 5);
            assert_eq!(reason, "CallXRCFailed");
        }
        _ => panic!("a failure is recorded"),
    }
}

#[test]
fn initial_conditions_are_listed_and_recorded() {
    let state = fresh_state();
    let conditions = list_rental_conditions(&state);
    assert_eq!(conditions.len(), 1);
    assert_eq!(conditions[0].0, RentalConditionId::App13CH);
    assert_eq!(conditions[0].1.daily_cost_cycles, 820 * TRILLION);
    assert_eq!(conditions[0].1.initial_rental_period_days, 180);
    assert_eq!(conditions[0].1.subnet_id, None);
    let page = get_rental_conditions_history_page(&state, None);
    assert_eq!(page.events.len(), 1);
    assert_eq!(page.continuation, 0);
}

#[test]
fn agreement_replaces_the_request() {
    let mut state = fresh_state();
    request_subnet(&mut state, 999, 77);
    let now = 3 * DAY_NANOS;
    let agreement = create_agreement(&mut state, now, 147_600 * TRILLION);
    assert_eq!(agreement.paid_until_nanos, now + 180 * DAY_NANOS);
    assert_eq!(agreement.total_cycles_created, 147_600 * TRILLION + 1_000);
    assert_eq!(agreement.total_icp_paid.e8s(), PRICE_E8S);
    assert_eq!(agreement.subnet_creation_proposal_id, Some(1_000));
    assert_eq!(agreement.rental_request_proposal_id, 999);
    assert!(list_rental_requests(&state).is_empty());
    assert_eq!(list_rental_agreements(&state).len(), 1);
    assert!(get_rental_request(&state, &user()).is_none());
    // A user with an agreement cannot request another subnet.
    match rental_request_proposal_begin(&mut state, payload(2_000)) {
        Step::Stop(e) => assert_eq!(e, ExecuteProposalError::UserAlreadyHasAgreement),
        _ => panic!("the user already has an agreement"),
    }
}

#[test]
fn agreement_without_request_fails() {
    let mut state = fresh_state();
    match create_rental_agreement_begin(
        &mut state,
        CreateRentalAgreementPayload { user: user(), proposal_id: 1, subnet_id: subnet() },
    ) {
        Step::Stop(e) => assert_eq!(e, ExecuteProposalError::RentalRequestNotFound),
        _ => panic!("there is no request"),
    }
}

#[test]
fn agreement_status_over_time() {
    let mut state = fresh_state();
    request_subnet(&mut state, 999, 77);
    let now = 3 * DAY_NANOS;
    create_agreement(&mut state, now, 147_600 * TRILLION);
    let ok = rental_agreement_status(&state, &subnet(), now).unwrap();
    assert_eq!(ok.days_left, 180);
    assert_eq!(ok.cycles_left, 147_600 * TRILLION + 1_000);
    assert_eq!(ok.description, "OK: This rental agreement is covered for 180 more days.");
    let warn = rental_agreement_status(&state, &subnet(), now + 170 * DAY_NANOS).unwrap();
    assert_eq!(warn.days_left, 10);
    assert_eq!(
        warn.description,
        "WARNING: This rental agreement is only covered for 10 more days. Please top up the subnet."
    );
    let due = rental_agreement_status(&state, &subnet(), now + 181 * DAY_NANOS).unwrap();
    assert_eq!(due.days_left, 0);
    assert_eq!(due.description, "PAST DUE: This rental agreement needs to be topped up to continue.");
    // Once all cycles are burned after the paid period, the agreement is terminated.
    let left = due.cycles_left;
    assert_eq!(record_cycles_burned(&mut state, subnet(), left), Ok(()));
    let ended = rental_agreement_status(&state, &subnet(), now + 181 * DAY_NANOS).unwrap();
    assert!(ended.description.contains("TERMINATED"));
    assert_eq!(ended.cycles_left, 0);
    assert_eq!(ended.days_left, 0);
    assert_eq!(
        rental_agreement_status(&state, &user(), now).unwrap_err(),
        "Rental agreement not found"
    );
}

#[test]
fn cycles_burn_evenly_and_all_after_the_paid_period() {
    let mut state = fresh_state();
    request_subnet(&mut state, 999, 77);
    let now = 3 * DAY_NANOS;
    let agreement = create_agreement(&mut state, now, 147_600 * TRILLION);
    assert_eq!(cycles_to_burn(&agreement, now), BurnDecision::Burn(569_444_444_400));
    assert_eq!(
        cycles_to_burn(&agreement, agreement.paid_until_nanos),
        BurnDecision::Burn(147_600 * TRILLION + 1_000)
    );
    assert_eq!(cycles_to_burn(&agreement, agreement.paid_until_nanos - 1), BurnDecision::Trap);
    let plan = match plan_cycles_burn(&state, now) {
        Step::Proceed(plan) => plan,
        _ => panic!("the plan should be made"),
    };
    assert_eq!(plan, vec![(subnet(), 569_444_444_400)]);
    assert_eq!(record_cycles_burned(&mut state, subnet(), 569_444_444_400), Ok(()));
    let after = get_rental_agreement(&state, &subnet()).unwrap();
    assert_eq!(after.total_cycles_burned, 569_444_444_400);
    let mut spent = after.clone();
    spent.total_cycles_burned = spent.total_cycles_created;
    assert_eq!(cycles_to_burn(&spent, now), BurnDecision::Skip);
    assert_eq!(
        record_cycles_burned(&mut state, user(), 1),
        Err("Subnet_id has no rental agreement.".to_string())
    );
}

#[test]
fn top_up_extends_the_paid_period() {
    let mut state = fresh_state();
    request_subnet(&mut state, 999, 77);
    let now = 3 * DAY_NANOS;
    let agreement = create_agreement(&mut state, now, 147_600 * TRILLION);
    let top_up = match top_up_subnet_begin(&mut state, subnet()) {
        Step::Proceed(t) => t,
        _ => panic!("the agreement exists"),
    };
    match top_up_subnet_amount(&mut state, top_up, Tokens::from_e8s(5_000)) {
        Step::Stop(m) => assert_eq!(
            m,
            format!("Failed to top up: {} has insufficient funds 0.00005000", user().to_text())
        ),
        _ => panic!("the balance does not cover the fee"),
    }
    let top_up = match top_up_subnet_begin(&mut state, subnet()) {
        Step::Proceed(t) => t,
        _ => panic!("the guard was released"),
    };
    let (top_up, amount) = match top_up_subnet_amount(&mut state, top_up, Tokens::from_e8s(100_000_000)) {
        Step::Proceed(x) => x,
        _ => panic!("the balance covers the fee"),
    };
    assert_eq!(amount.e8s(), 100_000_000 - 10_000);
    let summary = match top_up_subnet_finish(&mut state, top_up, amount, Ok(3 * 820 * TRILLION)) {
        Step::Proceed(s) => s,
        _ => panic!("the top-up should succeed"),
    };
    assert_eq!(summary.cycles_added, 3 * 820 * TRILLION);
    assert_eq!(summary.days_added, 3);
    assert!(summary.description.contains("extending the rental agreement by 3 days"));
    let after = get_rental_agreement(&state, &subnet()).unwrap();
    assert_eq!(after.paid_until_nanos, agreement.paid_until_nanos + 259_200 * BILLION);
    assert_eq!(after.total_cycles_created, agreement.total_cycles_created + 3 * 820 * TRILLION);
    assert_eq!(after.total_icp_paid.e8s(), PRICE_E8S + amount.e8s());
    let history = get_history_page(&state, subnet(), None);
    assert!(!history.events.is_empty());
}

#[test]
fn top_up_of_an_unrented_subnet_fails() {
    let mut state = fresh_state();
    assert!(matches!(top_up_subnet_begin(&mut state, subnet()), Step::Stop(_)));
}

#[test]
fn top_up_estimate() {
    let mut state = fresh_state();
    request_subnet(&mut state, 999, 77);
    let now = 3 * DAY_NANOS + 5 * BILLION;
    create_agreement(&mut state, now, 147_600 * TRILLION);
    let (id, midnight) = match subnet_top_up_estimate_begin(&state, &subnet(), now) {
        Step::Proceed(x) => x,
        _ => panic!("the agreement exists"),
    };
    assert_eq!(id, RentalConditionId::App13CH);
    assert_eq!(midnight, 3 * 86_400);
    let summary = match subnet_top_up_estimate_finish(
        &state,
        &subnet(),
        id,
        Tokens::from_e8s(100_000_000_000),
        Ok((RATE, 9)),
    ) {
        Step::Proceed(s) => s,
        _ => panic!("the estimate should be made"),
    };
    assert_eq!(summary.cycles_added, 3_497_899_300_420_000);
    assert_eq!(summary.days_added, 4);
    assert!(summary.description.starts_with("Estimate: 1000.00000000 ICP would provide approximately 3497899300420000 cycles"));
    match subnet_top_up_estimate_finish(&state, &subnet(), id, Tokens::from_e8s(5), Ok((RATE, 9))) {
        Step::Stop(m) => assert_eq!(m, "Must top up more than 0.00010000 ICP to cover the default fee"),
        _ => panic!("too little to cover the fee"),
    }
    match subnet_top_up_estimate_finish(&state, &subnet(), id, Tokens::from_e8s(100_000_000), Err("x".to_string())) {
        Step::Stop(m) => assert_eq!(m, "Failed to get exchange rate"),
        _ => panic!("no rate"),
    }
    assert!(matches!(subnet_top_up_estimate_begin(&state, &user(), now), Step::Stop(_)));
}

#[test]
fn refund_cancels_the_request() {
    let mut state = fresh_state();
    request_subnet(&mut state, 999, 77);
    let refund = match refund_begin(&mut state, user()) {
        Step::Proceed(r) => r,
        _ => panic!("nothing is in progress"),
    };
    assert!(matches!(refund_begin(&mut state, user()), Step::Stop(m) if m == "Busy processing another request. Try again."));
    let (refund, amount) = match refund_amount(&mut state, refund, Tokens::from_e8s(500_000_000)) {
        Step::Proceed(x) => x,
        _ => panic!("the balance covers the fee"),
    };
    assert_eq!(amount.e8s(), 500_000_000 - 10_000);
    let outcome = match refund_finish(&mut state, refund, amount, Ok(42), 99) {
        Step::Proceed(o) => o,
        _ => panic!("the refund should succeed"),
    };
    assert_eq!(outcome.block_index, 42);
    assert_eq!(outcome.cycles_to_burn, Some(1_000));
    assert!(list_rental_requests(&state).is_empty());
    let history = get_history_page(&state, user(), None);
    assert!(matches!(
        history.events[history.events.len() - 1].event(),
        EventType::RentalRequestCancelled { .. }
    ));
}

#[test]
fn refund_with_too_little_fails() {
    let mut state = fresh_state();
    let refund = match refund_begin(&mut state, user()) {
        Step::Proceed(r) => r,
        _ => panic!("nothing is in progress"),
    };
    match refund_amount(&mut state, refund, Tokens::from_e8s(1)) {
        Step::Stop(m) => assert_eq!(
            m,
            format!("Failed refund: {} has insufficient funds 0.00000001", user().to_text())
        ),
        _ => panic!("the balance does not cover the fee"),
    }
    let refund = match refund_begin(&mut state, user()) {
        Step::Proceed(r) => r,
        _ => panic!("the guards were released"),
    };
    match refund_finish(&mut state, refund, Tokens::from_e8s(3), Err("ledger down".to_string()), 1) {
        Step::Stop(m) => assert_eq!(
            m,
            format!("Failed to refund 0.00000003 ICP to {}: ledger down", user().to_text())
        ),
        _ => panic!("the transfer failed"),
    }
}

#[test]
fn locking_every_thirty_days() {
    let mut state = fresh_state();
    request_subnet(&mut state, 999, 77);
    let request = get_rental_request(&state, &user()).unwrap();
    assert!(matches!(locking_begin(&mut state, &request, 77 + 29 * DAY_NANOS), Step::Stop(())));
    let later = 77 + 30 * DAY_NANOS;
    let (guard, amount) = match locking_begin(&mut state, &request, later) {
        Step::Proceed(x) => x,
        _ => panic!("thirty days have passed"),
    };
    assert_eq!(amount.e8s(), PRICE_E8S / 10);
    match locking_finish(&mut state, guard, request.clone(), amount, Ok(500), later, later) {
        Step::Proceed(()) => {}
        _ => panic!("the locking should be recorded"),
    }
    let locked = get_rental_request(&state, &user()).unwrap();
    assert_eq!(locked.locked_amount_icp.e8s(), 2 * (PRICE_E8S / 10));
    assert_eq!(locked.locked_amount_cycles, 1_500);
    assert_eq!(locked.last_locking_time_nanos, later);
    let history = get_history_page(&state, user(), None);
    assert!(matches!(
        history.events[history.events.len() - 1].event(),
        EventType::LockingSuccess { cycles: 500, .. }
    ));
}

#[test]
fn price_is_the_largest_affordable_amount() {
    let price = calculate_subnet_price(820 * TRILLION, 180, RATE, 9).unwrap().e8s() as u128;
    let scaled_cycles = 820 * TRILLION * 180 * 1_000_000_000;
    assert!(price * (RATE as u128) * 10_000 <= scaled_cycles);
    assert!(scaled_cycles < (price + 1) * (RATE as u128) * 10_000);
}

#[test]
fn well_known_canister_ids() {
    assert_eq!(cycles_minting_canister_id().to_text(), "rkp4c-7iaaa-aaaaa-aaaca-cai");
    assert_eq!(cycles_minting_canister_id().as_slice(), &[0, 0, 0, 0, 0, 0, 0, 4, 1, 1]);
}

#[test]
fn a_trap_after_an_await_releases_the_guards() {
    let mut state = fresh_state();
    let proposal = match rental_request_proposal_begin(&mut state, payload(5)) {
        Step::Proceed(p) => p,
        _ => panic!("the proposal should proceed"),
    };
    assert!(is_locked(&state, &user(), "request"));
    // 39 decimals overflow the scale of the price.
    assert!(matches!(
        rental_request_proposal_priced(&mut state, proposal, Ok((RATE, 39))),
        Step::Trap(_)
    ));
    assert!(!is_locked(&state, &user(), "request"));
    assert!(!is_locked(&state, &Principal::anonymous(), "execute_rental_request_proposal"));
    assert!(list_rental_requests(&state).is_empty());
}

#[test]
fn price_rises_with_cost_and_period() {
    let base = calculate_subnet_price(440 * TRILLION, 180, RATE, 9).unwrap().e8s();
    let dearer = calculate_subnet_price(820 * TRILLION, 180, RATE, 9).unwrap().e8s();
    let longer = calculate_subnet_price(440 * TRILLION, 360, RATE, 9).unwrap().e8s();
    assert!(base <= dearer);
    assert!(base <= longer);
    assert_eq!(dearer, PRICE_E8S);
}

#[test]
fn locking_never_exceeds_the_initial_cost() {
    let mut state = fresh_state();
    request_subnet(&mut state, 999, 0);
    let mut now = 0;
    for _ in 0..12 {
        now += 30 * DAY_NANOS;
        let request = get_rental_request(&state, &user()).unwrap();
        if let Step::Proceed((guard, amount)) = locking_begin(&mut state, &request, now) {
            assert!(matches!(
                locking_finish(&mut state, guard, request, amount, Ok(1), now, now),
                Step::Proceed(())
            ));
        }
    }
    let request = get_rental_request(&state, &user()).unwrap();
    assert_eq!(request.locked_amount_icp.e8s(), (PRICE_E8S / 10) * 10);
    assert!(request.locked_amount_icp.e8s() <= request.initial_cost_icp.e8s());
    assert_eq!(request.locked_amount_cycles, 1_000 + 9);
}

#[test]
fn a_burn_run_stays_within_the_cycles_created() {
    let mut state = fresh_state();
    request_subnet(&mut state, 999, 77);
    let now = 3 * DAY_NANOS;
    create_agreement(&mut state, now, 147_600 * TRILLION);
    for minute in [0u64, 1, 2, 180 * 24 * 60, 180 * 24 * 60 + 1] {
        let at = now + minute * 60 * BILLION;
        if let Step::Proceed(plan) = plan_cycles_burn(&state, at) {
            for (subnet_id, amount) in plan {
                assert_eq!(record_cycles_burned(&mut state, subnet_id, amount), Ok(()));
            }
        }
        let a = get_rental_agreement(&state, &subnet()).unwrap();
        assert!(a.total_cycles_burned <= a.total_cycles_created);
    }
    let a = get_rental_agreement(&state, &subnet()).unwrap();
    assert_eq!(a.total_cycles_burned, a.total_cycles_created);
}

#[test]
fn top_up_adds_what_its_estimate_announced() {
    let mut state = fresh_state();
    request_subnet(&mut state, 999, 77);
    let now = 3 * DAY_NANOS + 5 * BILLION;
    create_agreement(&mut state, now, 147_600 * TRILLION);
    let estimate = match subnet_top_up_estimate_finish(
        &state,
        &subnet(),
        RentalConditionId::App13CH,
        Tokens::from_e8s(100_000_000_000),
        Ok((RATE, 9)),
    ) {
        Step::Proceed(s) => s,
        _ => panic!("the estimate should be made"),
    };
    let top_up = match top_up_subnet_begin(&mut state, subnet()) {
        Step::Proceed(t) => t,
        _ => panic!("the agreement exists"),
    };
    let (top_up, amount) = match top_up_subnet_amount(&mut state, top_up, Tokens::from_e8s(99_999_990_000)) {
        Step::Proceed(x) => x,
        _ => panic!("the balance covers the fee"),
    };
    // The cycles minting canister converts at the rate of the estimate.
    let summary = match top_up_subnet_finish(&mut state, top_up, amount, Ok(estimate.cycles_added)) {
        Step::Proceed(s) => s,
        _ => panic!("the top-up should succeed"),
    };
    assert_eq!(summary.cycles_added, estimate.cycles_added);
    assert_eq!(summary.days_added, estimate.days_added);
    assert!(summary.description.contains(&format!("{} cycles", summary.cycles_added)));
    assert!(summary.description.contains(&format!("by {} days", summary.days_added)));
    assert!(summary.description.contains(&format!("subnet {}", subnet().to_text())));
}
