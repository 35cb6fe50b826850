use subnet_rental_canister::canister_state::{
    cache_rate, export_state, get_cached_rate, get_current_seq, get_history_page,
    get_rental_request, import_state, is_locked, iter_rental_agreements, iter_rental_requests,
    next_seq, persist_event, persist_rental_agreement, persist_rental_request, release_lock, take_rental_request, update_rental_request,
    CallerGuard, CanisterState,
};
use subnet_rental_canister::history::{Event, EventType};
use subnet_rental_canister::principal::Principal;
use subnet_rental_canister::types::Tokens;
use subnet_rental_canister::canister::{list_rental_agreements, list_rental_requests};
use subnet_rental_canister::{RentalAgreement, RentalConditionId, RentalRequest};

fn make_request(user: Principal, time_nanos: u64) -> RentalRequest {
    RentalRequest {
        user,
        initial_cost_icp: Tokens::from_e8s(100),
        locked_amount_icp: Tokens::from_e8s(10),
        locked_amount_cycles: 99,
        initial_proposal_id: 99,
        creation_time_nanos: time_nanos,
        rental_condition_id: RentalConditionId::App13CH,
        last_locking_time_nanos: 99,
    }
}

fn make_event(time_nanos: u64) -> Event {
    Event::new(
        time_nanos,
        EventType::RentalRequestCreated { rental_request: make_request(Principal::anonymous(), time_nanos) },
    )
}

#[test]
fn test_history_pagination() {
    let mut state = CanisterState::new();
    persist_event(&mut state, make_event(1), None);
    persist_event(&mut state, make_event(2), None);
    persist_event(&mut state, make_event(3), None);
    persist_event(&mut state, make_event(4), None);
    persist_event(&mut state, make_event(5), None);
    let (events, oldest) = get_history_page(&state, None, None, 2);
    assert_eq!(events[0].time_nanos(), 4);
    assert_eq!(events[1].time_nanos(), 5);
    assert_eq!(events.len(), 2);
    let (events, oldest) = get_history_page(&state, None, Some(oldest), 2);
    assert_eq!(events[0].time_nanos(), 2);
    assert_eq!(events[1].time_nanos(), 3);
    assert_eq!(events.len(), 2);
    let (events, oldest) = get_history_page(&state, None, Some(oldest), 2);
    assert_eq!(events[0].time_nanos(), 1);
    assert_eq!(events.len(), 1);
    let (events, oldest) = get_history_page(&state, None, Some(oldest), 2);
    assert!(events.is_empty());
    assert_eq!(oldest, 0);
    // also test empty history
    let (events, oldest) = get_history_page(&state, Some(Principal::anonymous()), None, 2);
    assert!(events.is_empty());
    assert_eq!(oldest, 0);
    let (events, oldest) = get_history_page(&state, Some(Principal::anonymous()), Some(3), 2);
    assert!(events.is_empty());
    assert_eq!(oldest, 1); // because 3 - 2 = 1
}

#[test]
fn history_pages_concatenate_to_the_whole_history() {
    let mut state = CanisterState::new();
    for t in 1..=7u64 {
        persist_event(&mut state, make_event(t), None);
    }
    let mut seen = Vec::new();
    let mut older_than = None;
    loop {
        let (events, oldest) = get_history_page(&state, None, older_than, 3);
        if events.is_empty() {
            break;
        }
        let mut times: Vec<u64> = events.iter().map(|e| e.time_nanos()).collect();
        times.extend(seen);
        seen = times;
        older_than = Some(oldest);
    }
    assert_eq!(seen, vec![1, 2, 3, 4, 5, 6, 7]);
}

#[test]
fn persisted_event_is_the_newest_of_its_key() {
    let mut state = CanisterState::new();
    let user = Principal::try_from_slice(&[1, 2, 3]).unwrap();
    persist_event(&mut state, make_event(10), Some(user.clone()));
    persist_event(&mut state, make_event(20), Some(user.clone()));
    persist_event(&mut state, make_event(30), None);
    let (events, _) = get_history_page(&state, Some(user.clone()), None, 1);
    assert_eq!(events.len(), 1);
    assert_eq!(events[0].time_nanos(), 20);
    assert_eq!(get_current_seq(&state, &Some(user)), Some(1));
    assert_eq!(get_current_seq(&state, &None), Some(0));
}

#[test]
fn event_numbers_count_up_per_key() {
    let mut state = CanisterState::new();
    let user = Principal::try_from_slice(&[9]).unwrap();
    assert_eq!(get_current_seq(&state, &Some(user.clone())), None);
    assert_eq!(next_seq(&mut state, Some(user.clone())), 0);
    assert_eq!(get_current_seq(&state, &Some(user.clone())), Some(0));
    assert_eq!(next_seq(&mut state, Some(user.clone())), 1);
    assert_eq!(get_current_seq(&state, &Some(user)), Some(1));
    assert_eq!(next_seq(&mut state, None), 0);
}

#[test]
fn cached_rate_is_returned() {
    let mut state = CanisterState::new();
    assert_eq!(get_cached_rate(&state, 86_400), None);
    cache_rate(&mut state, 86_400, 3_497_900_000, 9);
    assert_eq!(get_cached_rate(&state, 86_400), Some((3_497_900_000, 9)));
    assert_eq!(get_cached_rate(&state, 0), None);
    cache_rate(&mut state, 86_400, 4_000_000_000, 9);
    assert_eq!(get_cached_rate(&state, 86_400), Some((4_000_000_000, 9)));
}

#[test]
fn a_lock_is_exclusive_until_released() {
    let mut state = CanisterState::new();
    let user = Principal::try_from_slice(&[4, 2]).unwrap();
    let guard = CallerGuard::new(&mut state, user.clone(), "request").ok().unwrap();
    assert!(is_locked(&state, &user, "request"));
    assert!(!is_locked(&state, &user, "refund"));
    assert!(CallerGuard::new(&mut state, user.clone(), "request").is_err());
    let other = CallerGuard::new(&mut state, user.clone(), "refund").ok().unwrap();
    guard.release(&mut state);
    assert!(!is_locked(&state, &user, "request"));
    assert!(is_locked(&state, &user, "refund"));
    other.release(&mut state);
    assert!(!is_locked(&state, &user, "refund"));
}

#[test]
fn a_user_has_at_most_one_rental_request() {
    let mut state = CanisterState::new();
    let user = Principal::try_from_slice(&[5]).unwrap();
    assert!(persist_rental_request(&mut state, make_request(user.clone(), 1), 1).is_ok());
    assert!(persist_rental_request(&mut state, make_request(user.clone(), 2), 2).is_err());
    assert_eq!(get_rental_request(&state, &user).unwrap().creation_time_nanos, 1);
    let taken = take_rental_request(&mut state, user.clone()).unwrap();
    assert_eq!(taken.creation_time_nanos, 1);
    assert!(get_rental_request(&state, &user).is_none());
    assert!(take_rental_request(&mut state, user).is_none());
}

#[test]
fn state_survives_a_snapshot_round_trip() {
    let mut state = CanisterState::new();
    let a = Principal::try_from_slice(&[1]).unwrap();
    let b = Principal::try_from_slice(&[2]).unwrap();
    assert!(persist_rental_request(&mut state, make_request(b.clone(), 5), 5).is_ok());
    assert!(persist_rental_request(&mut state, make_request(a.clone(), 6), 6).is_ok());
    persist_event(&mut state, make_event(7), None);
    cache_rate(&mut state, 86_400, 1, 9);
    let snapshot = export_state(&state);
    assert_eq!(snapshot.rental_requests.len(), 2);
    assert_eq!(snapshot.history.len(), 3);
    let restored = import_state(snapshot);
    let before: Vec<_> = iter_rental_requests(&state).into_iter().map(|(k, v)| (k, v.creation_time_nanos)).collect();
    let after: Vec<_> = iter_rental_requests(&restored).into_iter().map(|(k, v)| (k, v.creation_time_nanos)).collect();
    assert_eq!(before, after);
    assert_eq!(before[0].0, a);
    assert_eq!(before[1].0, b);
    for key in [None, Some(a.clone()), Some(b.clone())] {
        let (e1, c1) = get_history_page(&state, key.clone(), None, 20);
        let (e2, c2) = get_history_page(&restored, key.clone(), None, 20);
        assert_eq!(c1, c2);
        let t1: Vec<u64> = e1.iter().map(|e| e.time_nanos()).collect();
        let t2: Vec<u64> = e2.iter().map(|e| e.time_nanos()).collect();
        assert_eq!(t1, t2);
        assert_eq!(get_current_seq(&state, &key), get_current_seq(&restored, &key));
    }
    // Cached rates are carried over too.
    assert_eq!(get_cached_rate(&restored, 86_400), Some((1, 9)));
}

#[test]
fn each_state_has_its_own_rate_cache() {
    let mut first = CanisterState::new();
    let mut second = CanisterState::new();
    cache_rate(&mut first, 86_400, 1, 9);
    cache_rate(&mut second, 86_400, 2, 9);
    cache_rate(&mut second, 2 * 86_400, 3, 9);
    assert_eq!(get_cached_rate(&first, 86_400), Some((1, 9)));
    assert_eq!(get_cached_rate(&second, 86_400), Some((2, 9)));
    assert_eq!(get_cached_rate(&first, 2 * 86_400), None);
}

#[test]
fn updating_a_missing_request_fails() {
    let mut state = CanisterState::new();
    let user = Principal::try_from_slice(&[3]).unwrap();
    assert_eq!(
        update_rental_request(&mut state, user.clone(), |q| q),
        Err("Princial has no rental agreement.".to_string())
    );
    assert!(persist_rental_request(&mut state, make_request(user.clone(), 1), 1).is_ok());
    assert_eq!(
        update_rental_request(&mut state, user.clone(), |mut q| {
            q.locked_amount_cycles = 5;
            q
        }),
        Ok(())
    );
    assert_eq!(get_rental_request(&state, &user).unwrap().locked_amount_cycles, 5);
}

#[test]
fn a_lock_can_be_released_without_its_guard() {
    let mut state = CanisterState::new();
    let user = Principal::try_from_slice(&[6]).unwrap();
    let _guard = CallerGuard::new(&mut state, user.clone(), "request").ok().unwrap();
    release_lock(&mut state, &user, "request");
    assert!(!is_locked(&state, &user, "request"));
    release_lock(&mut state, &user, "request");
    assert!(!is_locked(&state, &user, "request"));
}

#[test]
fn walking_back_the_pages_gives_the_whole_history() {
    let mut state = CanisterState::new();
    let user = Principal::try_from_slice(&[8]).unwrap();
    for t in 1..=10u64 {
        persist_event(&mut state, make_event(t), Some(user.clone()));
    }
    let mut walk: Vec<u64> = Vec::new();
    let (first, mut continuation) = get_history_page(&state, Some(user.clone()), None, 4);
    walk.splice(0..0, first.iter().map(|e| e.time_nanos()));
    while continuation > 0 {
        let (page, next) = get_history_page(&state, Some(user.clone()), Some(continuation), 4);
        assert!(next < continuation);
        walk.splice(0..0, page.iter().map(|e| e.time_nanos()));
        continuation = next;
    }
    assert_eq!(walk, (1..=10).collect::<Vec<u64>>());
}

fn make_agreement(subnet: Principal, time_nanos: u64) -> RentalAgreement {
    RentalAgreement {
        user: Principal::try_from_slice(&[7, 7, 7]).unwrap(),
        rental_request_proposal_id: 5,
        subnet_creation_proposal_id: Some(6),
        subnet_id: subnet,
        rental_condition_id: RentalConditionId::App13CH,
        creation_time_nanos: time_nanos,
        paid_until_nanos: time_nanos,
        total_icp_paid: Tokens::from_e8s(1_000),
        total_cycles_created: 10,
        total_cycles_burned: 0,
    }
}

#[test]
fn requests_and_agreements_come_in_principal_order() {
    let mut state = CanisterState::new();
    // Inserted out of order: the shorter principal comes first, then the smaller bytes.
    let keys: Vec<Vec<u8>> = vec![vec![3], vec![1, 0], vec![2], vec![0, 5], vec![1]];
    for (t, k) in keys.iter().enumerate() {
        let p = Principal::try_from_slice(k).unwrap();
        assert!(persist_rental_request(&mut state, make_request(p.clone(), t as u64), t as u64).is_ok());
        assert!(persist_rental_agreement(&mut state, make_agreement(p, t as u64), t as u64).is_ok());
    }
    let expected: Vec<Vec<u8>> = vec![vec![1], vec![2], vec![3], vec![0, 5], vec![1, 0]];
    let request_keys: Vec<Vec<u8>> =
        iter_rental_requests(&state).into_iter().map(|(k, _)| k.as_slice().to_vec()).collect();
    assert_eq!(request_keys, expected);
    let agreement_keys: Vec<Vec<u8>> =
        iter_rental_agreements(&state).into_iter().map(|(k, _)| k.as_slice().to_vec()).collect();
    assert_eq!(agreement_keys, expected);
    let listed_users: Vec<Vec<u8>> =
        list_rental_requests(&state).into_iter().map(|r| r.user.as_slice().to_vec()).collect();
    assert_eq!(listed_users, expected);
    let listed_subnets: Vec<Vec<u8>> =
        list_rental_agreements(&state).into_iter().map(|a| a.subnet_id.as_slice().to_vec()).collect();
    assert_eq!(listed_subnets, expected);
}
