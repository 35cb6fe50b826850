use subnet_rental_canister::canister::{
    create_rental_agreement_begin, create_rental_agreement_converted,
    create_rental_agreement_finish, rental_request_proposal_begin, rental_request_proposal_finish,
    rental_request_proposal_funded, rental_request_proposal_priced, set_initial_conditions, Step,
};
use subnet_rental_canister::canister_state::CanisterState;
use subnet_rental_canister::http_request::{
    generate_rental_agreements_html, generate_rental_conditions_html, html_ok_response,
    html_response, http_request, HttpRequest, HTML_HEAD,
};
use subnet_rental_canister::principal::Principal;
use subnet_rental_canister::{
    CreateRentalAgreementPayload, RentalConditionId, SubnetRentalProposalPayload, BILLION,
};

const TABLE_END: &str = "</table></body></html>";

fn get(url: &str) -> HttpRequest {
    HttpRequest { method: "GET".to_string(), url: url.to_string(), headers: vec![], body: vec![] }
}

fn state_with_initial_conditions() -> CanisterState {
    let mut state = CanisterState::new();
    assert!(matches!(set_initial_conditions(&mut state, 0), Step::Proceed(())));
    state
}

fn rent(state: &mut CanisterState, user: &Principal, subnet: &Principal, now_nanos: u64) {
    let payload = SubnetRentalProposalPayload {
        user: user.clone(),
        rental_condition_id: RentalConditionId::App13CH,
        proposal_id: 1,
        proposal_creation_time_seconds: 86_400,
    };
    let p = match rental_request_proposal_begin(state, payload) {
        Step::Proceed(p) => p,
        _ => panic!("begin"),
    };
    let (p, needed) = match rental_request_proposal_priced(state, p, Ok((3_497_900_000, 9))) {
        Step::Proceed(x) => x,
        _ => panic!("price"),
    };
    let (p, lock) = match rental_request_proposal_funded(state, p, needed, needed) {
        Step::Proceed(x) => x,
        _ => panic!("funds"),
    };
    assert!(matches!(
        rental_request_proposal_finish(state, p, needed, lock, Ok(0), now_nanos),
        Step::Proceed(())
    ));
    let c = match create_rental_agreement_begin(
        state,
        CreateRentalAgreementPayload { user: user.clone(), proposal_id: 2, subnet_id: subnet.clone() },
    ) {
        Step::Proceed(c) => c,
        _ => panic!("create"),
    };
    let (c, a) = match create_rental_agreement_converted(state, c, Ok(10), now_nanos) {
        Step::Proceed(x) => x,
        _ => panic!("convert"),
    };
    assert!(matches!(create_rental_agreement_finish(state, c, a, now_nanos), Step::Proceed(())));
}

#[test]
fn index_page() {
    let state = state_with_initial_conditions();
    let r = http_request(&state, get("/"));
    assert_eq!(r.status_code, 200);
    assert_eq!(r.headers, vec![("Content-Type".to_string(), "text/html; charset=utf-8".to_string())]);
    let expected = format!(
        r#"{}<body><h1>Subnet Rental Canister</h1><ul><li><a href="/subnets">Subnets for Rent</a></li><li><a href="/rental_agreements">Rental Agreements</a></li></ul></body></html>"#,
        HTML_HEAD
    );
    assert_eq!(r.body, expected.into_bytes());
}

#[test]
fn unknown_path_is_not_found() {
    let state = state_with_initial_conditions();
    let r = http_request(&state, get("/nothing"));
    assert_eq!(r.status_code, 404);
    assert_eq!(r.body, b"Not found".to_vec());
    let r = html_response(418, "teapot".to_string());
    assert_eq!(r.status_code, 418);
    assert_eq!(r.body, b"teapot".to_vec());
    let r = html_ok_response("é".to_string());
    assert_eq!(r.status_code, 200);
    assert_eq!(r.body, vec![0xc3, 0xa9]);
}

#[test]
fn subnets_page_lists_the_conditions() {
    let state = state_with_initial_conditions();
    let html = generate_rental_conditions_html(&state);
    let expected = format!(
        r#"{}<body><h1>Subnets for Rent</h1><table border="1"><tr><th>Subnet ID</th><th>Description</th><th>Daily Cost (XDR)</th><th>Minimal Rental Period (days)</th><th>Status</th></tr><tr><td></td><td>All nodes must be in Switzerland or Liechtenstein.</td><td>820</td><td>180</td><td>Available</td></tr>{}"#,
        HTML_HEAD, TABLE_END
    );
    assert_eq!(html, expected);
    let r = http_request(&state, get("/subnets"));
    assert_eq!(r.status_code, 200);
    assert_eq!(r.body, expected.into_bytes());
}

#[test]
fn rental_agreements_page_lists_the_agreements() {
    let mut state = state_with_initial_conditions();
    let empty = generate_rental_agreements_html(&state);
    assert!(empty.ends_with(r#"<th>Status</th></tr></table></body></html>"#));
    let user = Principal::try_from_slice(&[1, 2, 3]).unwrap();
    let subnet = Principal::try_from_slice(&[4, 5, 6]).unwrap();
    let now = 259_200 * BILLION + 500_000_000;
    rent(&mut state, &user, &subnet, now);
    let html = generate_rental_agreements_html(&state);
    let row = format!(
        "<tr><td>{}</td><td>{}</td><td>{}</td><td>180</td><td>820</td><td>259200.5s</td><td>Healthy</td></tr>",
        subnet.to_text(),
        user.to_text(),
        user.to_text()
    );
    let expected = format!(
        r#"{}<body><h1>Rental Agreements</h1><table border="1"><tr><th>Subnet ID</th><th>Renter</th><th>Allowed Principals</th><th>Initial Rental Period (days)</th><th>Daily Cost (XDR)</th><th>Creation Date</th><th>Status</th></tr>{}{}"#,
        HTML_HEAD, row, TABLE_END
    );
    assert_eq!(html, expected);
    let r = http_request(&state, get("/rental_agreements"));
    assert_eq!(r.body, expected.into_bytes());
}
