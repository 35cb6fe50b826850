//! The canister's web pages: an index, the subnets for rent and the rental agreements.
use crate::canister::{list_rental_agreements, list_rental_conditions};
use crate::canister_state::{
    get_rental_agreement, get_rental_conditions, principal_order_of, CanisterState,
};
use crate::principal::principal_text;
use crate::text::{decimal, duration_string, duration_text, push_decimal};
use crate::{
    RentalAgreement, RentalAgreementView, RentalConditionId, RentalConditions, RentalConditionsView,
    TRILLION,
};
use vstd::prelude::*;

verus! {

pub const HTML_HEAD: &'static str =
    r#"<!DOCTYPE html><html lang="en"><head><title>Subnet Rental Canister</title></head>"#;

pub const INDEX_BODY: &'static str =
    r#"<body><h1>Subnet Rental Canister</h1><ul><li><a href="/subnets">Subnets for Rent</a></li><li><a href="/rental_agreements">Rental Agreements</a></li></ul></body></html>"#;

pub const CONDITIONS_TABLE_HEAD: &'static str =
    r#"<body><h1>Subnets for Rent</h1><table border="1"><tr><th>Subnet ID</th><th>Description</th><th>Daily Cost (XDR)</th><th>Minimal Rental Period (days)</th><th>Status</th></tr>"#;

pub const AGREEMENTS_TABLE_HEAD: &'static str =
    r#"<body><h1>Rental Agreements</h1><table border="1"><tr><th>Subnet ID</th><th>Renter</th><th>Allowed Principals</th><th>Initial Rental Period (days)</th><th>Daily Cost (XDR)</th><th>Creation Date</th><th>Status</th></tr>"#;

pub const TABLE_END: &'static str = "</table></body></html>";

pub struct HttpResponse {
    pub status_code: u16,
    pub headers: Vec<(String, String)>,
    pub body: Vec<u8>,
}

#[derive(Debug)]
pub struct HttpRequest {
    pub method: String,
    pub url: String,
    pub headers: Vec<(String, String)>,
    pub body: Vec<u8>,
}

/// A response with the given status whose body is `html` in UTF-8, served as HTML.
pub open spec fn is_html_response(r: HttpResponse, status_code: u16, html: Seq<char>) -> bool {
    &&& r.status_code == status_code
    &&& r.headers@.len() == 1
    &&& r.headers@[0].0@ == "Content-Type"@
    &&& r.headers@[0].1@ == "text/html; charset=utf-8"@
    &&& r.body@ == vstd::utf8::encode_utf8(html)
}

/// A table cell.
pub open spec fn cell(content: Seq<char>) -> Seq<char> {
    "<td>"@ + content + "</td>"@
}

/// The index page.
pub open spec fn index_html() -> Seq<char> {
    HTML_HEAD@ + INDEX_BODY@
}

/// The rental conditions with the given id, if any.
pub open spec fn conditions_of(
    conditions: Map<RentalConditionId, RentalConditionsView>,
    id: RentalConditionId,
) -> Option<RentalConditionsView> {
    if conditions.contains_key(id) {
        Some(conditions[id])
    } else {
        None
    }
}

/// The row of a rental agreement: its subnet, its renter, the principals allowed on the
/// subnet (the renter), the initial rental period and daily cost in XDR of its rental
/// conditions (empty where these are not known), its creation time and its status.
pub open spec fn agreement_row(a: RentalAgreementView, c: Option<RentalConditionsView>) -> Seq<
    char,
> {
    "<tr>"@ + cell(principal_text(a.subnet_id)) + cell(principal_text(a.user)) + cell(
        principal_text(a.user),
    ) + cell(
        match c {
            Some(c) => decimal(c.initial_rental_period_days as nat),
            None => seq![],
        },
    ) + cell(
        match c {
            Some(c) => decimal((c.daily_cost_cycles / TRILLION) as nat),
            None => seq![],
        },
    ) + cell(duration_text(a.creation_time_nanos as nat)) + cell("Healthy"@) + "</tr>"@
}

/// The rows of the rental agreements of the given subnets, in that order.
pub open spec fn agreement_rows(
    order: Seq<Seq<u8>>,
    agreements: Map<Seq<u8>, RentalAgreementView>,
    conditions: Map<RentalConditionId, RentalConditionsView>,
) -> Seq<char>
    decreases order.len(),
{
    if order.len() == 0 {
        seq![]
    } else {
        let a = agreements[order.last()];
        agreement_rows(order.drop_last(), agreements, conditions) + agreement_row(
            a,
            conditions_of(conditions, a.rental_condition_id),
        )
    }
}

/// The page of the rental agreements, one row per agreement in increasing order of their
/// subnets.
pub open spec fn rental_agreements_html(state: CanisterState) -> Seq<char> {
    HTML_HEAD@ + AGREEMENTS_TABLE_HEAD@ + agreement_rows(
        principal_order_of(state.agreements().dom()),
        state.agreements(),
        state.conditions(),
    ) + TABLE_END@
}

/// Whether the subnet of some rental conditions exists and is rented.
pub open spec fn is_rented(c: RentalConditionsView, agreements: Map<Seq<u8>, RentalAgreementView>) -> bool {
    c.subnet_id matches Some(s) && agreements.contains_key(s)
}

/// The row of rental conditions: the subnet (empty while it does not exist), the
/// description, the daily cost in XDR, the minimal rental period, and whether the subnet is
/// rented.
pub open spec fn condition_row(c: RentalConditionsView, rented: bool) -> Seq<char> {
    "<tr>"@ + cell(
        match c.subnet_id {
            Some(s) => principal_text(s),
            None => seq![],
        },
    ) + cell(c.description) + cell(decimal((c.daily_cost_cycles / TRILLION) as nat)) + cell(
        decimal(c.initial_rental_period_days as nat),
    ) + cell(
        if rented {
            "Rented"@
        } else {
            "Available"@
        },
    ) + "</tr>"@
}

/// The rows of the rental conditions with the given ids, in that order.
pub open spec fn condition_rows(
    order: Seq<RentalConditionId>,
    conditions: Map<RentalConditionId, RentalConditionsView>,
    agreements: Map<Seq<u8>, RentalAgreementView>,
) -> Seq<char>
    decreases order.len(),
{
    if order.len() == 0 {
        seq![]
    } else {
        let c = conditions[order.last()];
        condition_rows(order.drop_last(), conditions, agreements) + condition_row(
            c,
            is_rented(c, agreements),
        )
    }
}

/// The page of the subnets for rent, one row per rental conditions.
pub open spec fn rental_conditions_html(state: CanisterState) -> Seq<char> {
    HTML_HEAD@ + CONDITIONS_TABLE_HEAD@ + condition_rows(
        state.condition_order(),
        state.conditions(),
        state.agreements(),
    ) + TABLE_END@
}

/// Serves the index, the subnets for rent and the rental agreements; any other path is
/// answered with 404.
pub fn http_request(state: &CanisterState, req: HttpRequest) -> (r: HttpResponse)
    requires
        state.wf(),
    ensures
        req.url@ == "/"@ ==> is_html_response(r, 200, index_html()),
        req.url@ == "/subnets"@ ==> is_html_response(r, 200, rental_conditions_html(*state)),
        req.url@ == "/rental_agreements"@ ==> is_html_response(
            r,
            200,
            rental_agreements_html(*state),
        ),
        req.url@ != "/"@ && req.url@ != "/subnets"@ && req.url@ != "/rental_agreements"@
            ==> is_html_response(r, 404, "Not found"@),
{
    proof {
        reveal_strlit("/");
        reveal_strlit("/subnets");
        reveal_strlit("/rental_agreements");
        assert("/subnets"@.len() == 8);
        assert("/"@.len() == 1);
        assert("/rental_agreements"@.len() == 18);
    }
    if req.url == String::from_str("/") {
        let mut html = String::from_str(HTML_HEAD);
        html.append(INDEX_BODY);
        html_ok_response(html)
    } else if req.url == String::from_str("/subnets") {
        html_ok_response(generate_rental_conditions_html(state))
    } else if req.url == String::from_str("/rental_agreements") {
        html_ok_response(generate_rental_agreements_html(state))
    } else {
        html_response(404, String::from_str("Not found"))
    }
}

/// A 200 response with the given HTML.
pub fn html_ok_response(html: String) -> (r: HttpResponse)
    ensures
        is_html_response(r, 200, html@),
{
    html_response(200, html)
}

/// A response with the given status and HTML.
pub fn html_response(status_code: u16, html: String) -> (r: HttpResponse)
    ensures
        is_html_response(r, status_code, html@),
{
    let body = html.as_str().as_bytes_vec();
    HttpResponse {
        status_code,
        headers: vec![
            (String::from_str("Content-Type"), String::from_str("text/html; charset=utf-8")),
        ],
        body,
    }
}

/// Appends a table cell.
fn push_cell(html: &mut String, content: &str)
    ensures
        final(html)@ == old(html)@ + cell(content@),
{
    html.append("<td>");
    html.append(content);
    html.append("</td>");
}

/// Appends a table cell that holds a number.
fn push_number_cell(html: &mut String, n: u128)
    ensures
        final(html)@ == old(html)@ + cell(decimal(n as nat)),
{
    html.append("<td>");
    push_decimal(html, n);
    html.append("</td>");
}

/// The mathematical value of optional rental conditions.
pub open spec fn opt_conditions_view(c: Option<RentalConditions>) -> Option<RentalConditionsView> {
    match c {
        Some(c) => Some(c@),
        None => None,
    }
}

/// Appends the row of a rental agreement.
fn push_agreement_row(html: &mut String, agreement: &RentalAgreement, conditions: &Option<RentalConditions>)
    ensures
        final(html)@ == old(html)@ + agreement_row(agreement@, opt_conditions_view(*conditions)),
{
    proof {
        reveal_strlit("");
    }
    html.append("<tr>");
    push_cell(html, agreement.subnet_id.to_text().as_str());
    let user = agreement.user.to_text();
    push_cell(html, user.as_str());
    push_cell(html, user.as_str());
    match conditions {
        Some(c) => {
            push_number_cell(html, c.initial_rental_period_days as u128);
            push_number_cell(html, c.daily_cost_cycles / TRILLION);
        },
        None => {
            push_cell(html, "");
            push_cell(html, "");
        },
    }
    push_cell(html, duration_string(agreement.creation_time_nanos).as_str());
    push_cell(html, "Healthy");
    html.append("</tr>");
    assert(html@ =~= old(html)@ + agreement_row(agreement@, opt_conditions_view(*conditions)));
}

/// Appends the row of rental conditions.
fn push_condition_row(html: &mut String, conditions: &RentalConditions, rented: bool)
    ensures
        final(html)@ == old(html)@ + condition_row(conditions@, rented),
{
    proof {
        reveal_strlit("");
    }
    html.append("<tr>");
    match &conditions.subnet_id {
        Some(subnet_id) => push_cell(html, subnet_id.to_text().as_str()),
        None => push_cell(html, ""),
    }
    push_cell(html, conditions.description.as_str());
    push_number_cell(html, conditions.daily_cost_cycles / TRILLION);
    push_number_cell(html, conditions.initial_rental_period_days as u128);
    if rented {
        push_cell(html, "Rented");
    } else {
        push_cell(html, "Available");
    }
    html.append("</tr>");
    assert(html@ =~= old(html)@ + condition_row(conditions@, rented));
}

/// The page of the rental agreements.
pub fn generate_rental_agreements_html(state: &CanisterState) -> (html: String)
    requires
        state.wf(),
    ensures
        html@ == rental_agreements_html(*state),
{
    let rental_agreements = list_rental_agreements(state);
    let ghost order = principal_order_of(state.agreements().dom());
    let mut html = String::from_str(HTML_HEAD);
    html.append(AGREEMENTS_TABLE_HEAD);
    let ghost start = html@;
    let mut i: usize = 0;
    while i < rental_agreements.len()
        invariant
            state.wf(),
            order == principal_order_of(state.agreements().dom()),
            i <= rental_agreements@.len(),
            rental_agreements@.len() == order.len(),
            forall|j: int|
                0 <= j < rental_agreements@.len() ==> (#[trigger] rental_agreements@[j])@
                    == state.agreements()[order[j]],
            start == HTML_HEAD@ + AGREEMENTS_TABLE_HEAD@,
            html@ == start + agreement_rows(
                order.take(i as int),
                state.agreements(),
                state.conditions(),
            ),
        decreases rental_agreements@.len() - i,
    {
        let agreement = &rental_agreements[i];
        let conditions = get_rental_conditions(state, agreement.rental_condition_id);
        push_agreement_row(&mut html, agreement, &conditions);
        proof {
            let a = state.agreements()[order[i as int]];
            assert(agreement@ == a);
            assert(order.take(i + 1).drop_last() =~= order.take(i as int));
            assert(order.take(i + 1).last() == order[i as int]);
            assert(opt_conditions_view(conditions) == conditions_of(
                state.conditions(),
                a.rental_condition_id,
            ));
        }
        i = i + 1;
    }
    html.append(TABLE_END);
    proof {
        assert(order.take(rental_agreements@.len() as int) =~= order);
    }
    html
}

/// The page of the subnets for rent.
pub fn generate_rental_conditions_html(state: &CanisterState) -> (html: String)
    requires
        state.wf(),
    ensures
        html@ == rental_conditions_html(*state),
{
    let rental_conditions = list_rental_conditions(state);
    let ghost order = state.condition_order();
    let mut html = String::from_str(HTML_HEAD);
    html.append(CONDITIONS_TABLE_HEAD);
    let ghost start = html@;
    let mut i: usize = 0;
    while i < rental_conditions.len()
        invariant
            state.wf(),
            order == state.condition_order(),
            i <= rental_conditions@.len(),
            rental_conditions@.len() == order.len(),
            forall|j: int|
                0 <= j < rental_conditions@.len() ==> (#[trigger] rental_conditions@[j]).0
                    == order[j] && state.conditions().contains_key(order[j])
                    && rental_conditions@[j].1@ == state.conditions()[order[j]],
            start == HTML_HEAD@ + CONDITIONS_TABLE_HEAD@,
            html@ == start + condition_rows(
                order.take(i as int),
                state.conditions(),
                state.agreements(),
            ),
        decreases rental_conditions@.len() - i,
    {
        let conditions = &rental_conditions[i].1;
        let rented = match &conditions.subnet_id {
            Some(subnet_id) => get_rental_agreement(state, subnet_id).is_some(),
            None => false,
        };
        push_condition_row(&mut html, conditions, rented);
        proof {
            let c = state.conditions()[order[i as int]];
            assert(conditions@ == c);
            assert(order.take(i + 1).drop_last() =~= order.take(i as int));
            assert(order.take(i + 1).last() == order[i as int]);
        }
        i = i + 1;
    }
    html.append(TABLE_END);
    proof {
        assert(order.take(rental_conditions@.len() as int) =~= order);
    }
    html
}

} // verus!
