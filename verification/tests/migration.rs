use subnet_rental_canister::canister::{set_initial_conditions, Step};
use subnet_rental_canister::canister_state::{
    get_history_page, get_rental_agreement, insert_rental_condition, persist_rental_agreement,
    CanisterState,
};
use subnet_rental_canister::history::EventType;
use subnet_rental_canister::migration::{app13ch_to_app7ch, reprice, TARGET_SUBNET};
use subnet_rental_canister::principal::Principal;
use subnet_rental_canister::types::Tokens;
use subnet_rental_canister::{
    RentalAgreement, RentalConditionId, RentalConditions, BILLION, SECONDS_PER_DAY, TRILLION,
};

const APP13CH_DAILY: u128 = 820 * TRILLION;
const APP7CH_DAILY: u128 = 440 * TRILLION;
const DAY_NANOS: u64 = SECONDS_PER_DAY * BILLION;

#[test]
fn reprice_is_exact_for_whole_days() {
    assert_eq!(reprice(10 * APP7CH_DAILY, APP7CH_DAILY, 0), 10 * DAY_NANOS);
}

#[test]
fn reprice_offsets_from_now() {
    let now = 12_345 * DAY_NANOS;
    let cycles = 10 * APP7CH_DAILY;
    assert_eq!(reprice(cycles, APP7CH_DAILY, now), now + 10 * DAY_NANOS);
}

#[test]
fn cheaper_condition_buys_more_time() {
    // 180 * 820 / 440 = 335.45
    let days = reprice(180 * APP13CH_DAILY, APP7CH_DAILY, 0) / DAY_NANOS;
    assert_eq!(days, 335);
}

#[test]
fn reprice_credits_only_whole_seconds() {
    let cost_per_second = APP7CH_DAILY / (SECONDS_PER_DAY as u128);
    // A truncated per-second cost undercharges the day, so just under a day's
    // worth still covers the full day.
    assert!(cost_per_second * (SECONDS_PER_DAY as u128) < APP7CH_DAILY);
    assert_eq!(reprice(APP7CH_DAILY - 1, APP7CH_DAILY, 0), DAY_NANOS);

    let cycles = cost_per_second * (SECONDS_PER_DAY as u128 - 1);
    assert_eq!(reprice(cycles, APP7CH_DAILY, 0), DAY_NANOS - BILLION);

    let cycles = APP7CH_DAILY + APP7CH_DAILY / 2;
    assert_eq!(reprice(cycles, APP7CH_DAILY, 0) / DAY_NANOS, 1);
}

#[test]
fn no_cycles_left_means_no_time_left() {
    let now = 99 * DAY_NANOS;
    assert_eq!(reprice(0, APP7CH_DAILY, 0), 0);
    assert_eq!(reprice(0, APP7CH_DAILY, now), now);
}

#[test]
fn reprice_saturates_instead_of_overflowing() {
    assert_eq!(reprice(u128::MAX, APP7CH_DAILY, 0), u64::MAX);
    assert_eq!(reprice(10 * APP7CH_DAILY, APP7CH_DAILY, u64::MAX), u64::MAX);
    // A daily cost below one cycle per second would divide by zero.
    assert_eq!(reprice(APP7CH_DAILY, 1, 0), u64::MAX);
}

#[test]
fn reprice_matches_the_top_up_rounding_and_order() {
    // More cycles never buy less time, a cheaper cost never buys less.
    assert!(reprice(5 * APP7CH_DAILY, APP7CH_DAILY, 7) <= reprice(6 * APP7CH_DAILY, APP7CH_DAILY, 7));
    assert!(reprice(5 * APP7CH_DAILY, APP13CH_DAILY, 7) <= reprice(5 * APP7CH_DAILY, APP7CH_DAILY, 7));
    assert!(reprice(5 * APP7CH_DAILY, APP7CH_DAILY, 7) >= 7);
}

fn target() -> Principal {
    Principal::from_text(TARGET_SUBNET).unwrap()
}

fn agreement_on(condition: RentalConditionId, created: u128, burned: u128) -> RentalAgreement {
    RentalAgreement {
        user: Principal::try_from_slice(&[7, 7, 7]).unwrap(),
        rental_request_proposal_id: 5,
        subnet_creation_proposal_id: Some(6),
        subnet_id: target(),
        rental_condition_id: condition,
        creation_time_nanos: 1,
        paid_until_nanos: 180 * DAY_NANOS,
        total_icp_paid: Tokens::from_e8s(1_000),
        total_cycles_created: created,
        total_cycles_burned: burned,
    }
}

fn with_app7ch(state: &mut CanisterState) {
    insert_rental_condition(
        state,
        RentalConditionId::App7CH,
        RentalConditions {
            description: "Seven nodes in Switzerland.".to_string(),
            subnet_id: None,
            daily_cost_cycles: APP7CH_DAILY,
            initial_rental_period_days: 180,
        },
    );
}

#[test]
fn migration_moves_the_target_agreement_once() {
    let mut state = CanisterState::new();
    set_initial_conditions(&mut state, 0);
    with_app7ch(&mut state);
    let created = 180 * APP13CH_DAILY;
    let burned = 10 * APP13CH_DAILY;
    assert!(persist_rental_agreement(&mut state, agreement_on(RentalConditionId::App13CH, created, burned), 0).is_ok());
    let now = 10 * DAY_NANOS;
    assert!(matches!(app13ch_to_app7ch(&mut state, now), Step::Proceed(())));
    let moved = get_rental_agreement(&state, &target()).unwrap();
    assert_eq!(moved.rental_condition_id, RentalConditionId::App7CH);
    assert_eq!(moved.paid_until_nanos, reprice(created - burned, APP7CH_DAILY, now));
    // 170 * 820 / 440 = 316.8 days from now
    assert_eq!((moved.paid_until_nanos - now) / DAY_NANOS, 316);
    let page = get_history_page(&state, Some(target()), None, 20);
    let switched = page
        .0
        .iter()
        .filter(|e| matches!(e.event(), EventType::RentalConditionSwitched { .. }))
        .count();
    assert_eq!(switched, 1);
    // A second run finds nothing to do.
    assert!(matches!(app13ch_to_app7ch(&mut state, now + DAY_NANOS), Step::Proceed(())));
    let again = get_rental_agreement(&state, &target()).unwrap();
    assert_eq!(again.paid_until_nanos, moved.paid_until_nanos);
    let page_again = get_history_page(&state, Some(target()), None, 20);
    assert_eq!(page_again.0.len(), page.0.len());
}

#[test]
fn migration_without_agreement_changes_nothing() {
    let mut state = CanisterState::new();
    set_initial_conditions(&mut state, 0);
    with_app7ch(&mut state);
    assert!(matches!(app13ch_to_app7ch(&mut state, 5), Step::Proceed(())));
    assert!(get_rental_agreement(&state, &target()).is_none());
    assert!(get_history_page(&state, Some(target()), None, 20).0.is_empty());
}

#[test]
fn migration_without_app7ch_conditions_changes_nothing() {
    let mut state = CanisterState::new();
    set_initial_conditions(&mut state, 0);
    let a = agreement_on(RentalConditionId::App13CH, 10 * APP13CH_DAILY, 0);
    assert!(persist_rental_agreement(&mut state, a, 0).is_ok());
    assert!(matches!(app13ch_to_app7ch(&mut state, 5), Step::Proceed(())));
    let kept = get_rental_agreement(&state, &target()).unwrap();
    assert_eq!(kept.rental_condition_id, RentalConditionId::App13CH);
    assert_eq!(kept.paid_until_nanos, 180 * DAY_NANOS);
}
