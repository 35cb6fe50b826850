//! The canister's methods: what each query and update computes from the state, and what
//! each update decides between its calls to other canisters.
use crate::canister_state::{
    self, get_rental_agreement, in_principal_order, iter_rental_agreements, iter_rental_conditions,
    iter_rental_requests, principal_order_of, CallerGuard, CanisterState,
};
use crate::history::Event;
use crate::principal::{principal_lt, Principal};
use crate::text::{concat3, decimal, decimal_string, pow10, pow10_u128};
use crate::types::Tokens;
use crate::{
    ExecuteProposalError, EventPage, PriceCalculationData, RentalAgreement,
    RentalAgreementStatus, RentalConditionId, RentalConditions, RentalRequest, BILLION,
    SECONDS_PER_DAY,
};
use vstd::prelude::*;

verus! {

pub const CYCLES_BURN_INTERVAL_SECONDS: u64 = 60;

/// What a step of a canister method leads to: going on with the given value, ending the
/// call with the given error, or a trap (the call stops as a panic of the canister stops
/// it; a step that traps leaves the state as it was).
#[derive(Debug)]
pub enum Step<T, E> {
    Proceed(T),
    Stop(E),
    Trap(String),
}

/// Nanoseconds per day.
pub const NANOS_PER_DAY: u64 = 86_400_000_000_000;

/// The number of events in a history page.
pub const HISTORY_PAGE_SIZE: u64 = 20;

// ============================================================================
// Time

/// The start of the UTC day that contains `time_secs` (seconds since the epoch).
pub fn round_to_previous_midnight(time_secs: u64) -> (r: u64)
    ensures
        r == time_secs - time_secs % 86400,
        r % 86400 == 0,
        r <= time_secs < r + 86400,
{
    time_secs - time_secs % 86400
}

/// The number of whole days from `now_nanos` until `paid_until_nanos` (0 if that is not in
/// the future).
pub open spec fn spec_days_remaining(paid_until_nanos: u64, now_nanos: u64) -> u64 {
    if paid_until_nanos <= now_nanos {
        0
    } else {
        ((paid_until_nanos - now_nanos) / (NANOS_PER_DAY as int)) as u64
    }
}

pub fn calculate_days_remaining(paid_until_nanos: u64, now_nanos: u64) -> (r: u64)
    ensures
        r == spec_days_remaining(paid_until_nanos, now_nanos),
{
    if paid_until_nanos <= now_nanos {
        return 0;
    }
    let remaining_nanos = paid_until_nanos - now_nanos;
    remaining_nanos / (SECONDS_PER_DAY * BILLION)
}

// ============================================================================
// Price

/// The price in e8s of renting for `initial_rental_period_days` days at `daily_cost_cycles`
/// cycles per day, at an exchange rate of `scaled_rate / 10^decimals` XDR per ICP
/// (one XDR buys a trillion cycles), or `None` where an intermediate result exceeds `u128`
/// or the rate is 0.
pub open spec fn spec_subnet_price_e8s(
    daily_cost_cycles: u128,
    initial_rental_period_days: u64,
    scaled_rate: u64,
    decimals: u32,
) -> Option<int> {
    let needed_cycles = daily_cost_cycles * initial_rental_period_days;
    let scaled_cycles = needed_cycles * pow10(decimals as nat);
    if needed_cycles > u128::MAX || scaled_cycles > u128::MAX || scaled_rate == 0 {
        None
    } else {
        Some(scaled_cycles / (scaled_rate as int) / 10_000)
    }
}

/// The price of a subnet in ICP: the cycles needed for the initial rental period, times
/// 10^decimals, divided by the scaled exchange rate and by 10_000 (a trillion cycles per XDR
/// over 10^8 e8s per ICP). The divisions come last so that accuracy is lost at the very end.
/// The result is truncated to 64 bits, as the conversion to `Tokens` does.
pub fn calculate_subnet_price(
    daily_cost_cycles: u128,
    initial_rental_period_days: u64,
    scaled_exchange_rate_xdr_per_icp: u64,
    decimals: u32,
) -> (r: Result<Tokens, ExecuteProposalError>)
    requires
        decimals <= 38 || daily_cost_cycles * initial_rental_period_days > u128::MAX,
    ensures
        r is Ok <==> spec_subnet_price_e8s(
            daily_cost_cycles,
            initial_rental_period_days,
            scaled_exchange_rate_xdr_per_icp,
            decimals,
        ) is Some,
        r matches Ok(t) ==> t.e8s == (spec_subnet_price_e8s(
            daily_cost_cycles,
            initial_rental_period_days,
            scaled_exchange_rate_xdr_per_icp,
            decimals,
        )->0 as u64),
        r is Err ==> r == Err::<Tokens, ExecuteProposalError>(
            ExecuteProposalError::PriceCalculationError(
                PriceCalculationData {
                    daily_cost_cycles,
                    initial_rental_period_days,
                    scaled_exchange_rate_xdr_per_icp,
                    decimals,
                },
            ),
        ),
{
    let error = ExecuteProposalError::PriceCalculationError(
        PriceCalculationData {
            daily_cost_cycles,
            initial_rental_period_days,
            scaled_exchange_rate_xdr_per_icp,
            decimals,
        },
    );
    let needed_cycles = match daily_cost_cycles.checked_mul(initial_rental_period_days as u128) {
        Some(n) => n,
        None => return Err(error),
    };
    let scale = pow10_u128(decimals);
    let scaled_cycles = match needed_cycles.checked_mul(scale) {
        Some(n) => n,
        None => return Err(error),
    };
    if scaled_exchange_rate_xdr_per_icp == 0 {
        return Err(error);
    }
    let e8s = scaled_cycles / (scaled_exchange_rate_xdr_per_icp as u128) / 10_000;
    Ok(Tokens::from_e8s(e8s as u64))
}

/// A higher exchange rate (more XDR per ICP) never makes a subnet cost more ICP.
pub proof fn lemma_price_falls_as_rate_rises(
    daily_cost_cycles: u128,
    initial_rental_period_days: u64,
    lower_rate: u64,
    higher_rate: u64,
    decimals: u32,
)
    requires
        0 < lower_rate <= higher_rate,
        spec_subnet_price_e8s(daily_cost_cycles, initial_rental_period_days, lower_rate, decimals)
            is Some,
    ensures
        spec_subnet_price_e8s(daily_cost_cycles, initial_rental_period_days, higher_rate, decimals)
            is Some,
        spec_subnet_price_e8s(daily_cost_cycles, initial_rental_period_days, higher_rate, decimals)->0
            <= spec_subnet_price_e8s(
            daily_cost_cycles,
            initial_rental_period_days,
            lower_rate,
            decimals,
        )->0,
{
    let needed = daily_cost_cycles * initial_rental_period_days;
    let scale = pow10(decimals as nat);
    crate::text::lemma_pow10_positive(decimals as nat);
    assert(needed * scale >= 0) by (nonlinear_arith)
        requires
            needed >= 0,
            scale >= 1,
    ;
    let scaled = needed * scale;
    assert(scaled / (higher_rate as int) <= scaled / (lower_rate as int)) by {
        vstd::arithmetic::div_mod::lemma_div_is_ordered_by_denominator(
            scaled,
            lower_rate as int,
            higher_rate as int,
        );
    }
    vstd::arithmetic::div_mod::lemma_div_is_ordered(
        scaled / (higher_rate as int),
        scaled / (lower_rate as int),
        10_000,
    );
}

/// A higher daily cost or a longer initial rental period never makes a subnet cost less ICP
/// (at the same exchange rate); where the dearer price can be computed, so can the cheaper.
pub proof fn lemma_price_rises_with_cost_and_period(
    lower_cost: u128,
    higher_cost: u128,
    shorter_period: u64,
    longer_period: u64,
    scaled_rate: u64,
    decimals: u32,
)
    requires
        lower_cost <= higher_cost,
        shorter_period <= longer_period,
        spec_subnet_price_e8s(higher_cost, longer_period, scaled_rate, decimals) is Some,
    ensures
        spec_subnet_price_e8s(lower_cost, shorter_period, scaled_rate, decimals) is Some,
        spec_subnet_price_e8s(lower_cost, shorter_period, scaled_rate, decimals)->0
            <= spec_subnet_price_e8s(higher_cost, longer_period, scaled_rate, decimals)->0,
{
    let scale = pow10(decimals as nat);
    crate::text::lemma_pow10_positive(decimals as nat);
    let n1 = lower_cost * shorter_period;
    let n2 = higher_cost * longer_period;
    assert(0 <= n1 <= n2) by (nonlinear_arith)
        requires
            0 <= lower_cost <= higher_cost,
            0 <= shorter_period <= longer_period,
            n1 == lower_cost * shorter_period,
            n2 == higher_cost * longer_period,
    ;
    assert(0 <= n1 * scale <= n2 * scale) by (nonlinear_arith)
        requires
            0 <= n1 <= n2,
            scale >= 1,
    ;
    let r = scaled_rate as int;
    vstd::arithmetic::div_mod::lemma_div_is_ordered(n1 * scale, n2 * scale, r);
    vstd::arithmetic::div_mod::lemma_div_is_ordered((n1 * scale) / r, (n2 * scale) / r, 10_000);
}

/// The price is the largest whole number of e8s whose value at the exchange rate does not
/// exceed the cycles needed for the initial rental period: `price * rate * 10_000` is at
/// most the cycles needed times 10^decimals, and one e8 more would be worth more.
pub proof fn lemma_price_is_largest_affordable(
    daily_cost_cycles: u128,
    initial_rental_period_days: u64,
    scaled_rate: u64,
    decimals: u32,
)
    requires
        spec_subnet_price_e8s(daily_cost_cycles, initial_rental_period_days, scaled_rate, decimals)
            is Some,
    ensures
        ({
            let price = spec_subnet_price_e8s(
                daily_cost_cycles,
                initial_rental_period_days,
                scaled_rate,
                decimals,
            )->0;
            let scaled_cycles = daily_cost_cycles * initial_rental_period_days * pow10(
                decimals as nat,
            );
            &&& price * scaled_rate * 10_000 <= scaled_cycles
            &&& scaled_cycles < (price + 1) * scaled_rate * 10_000
        }),
{
    let needed = daily_cost_cycles * initial_rental_period_days;
    let scale = pow10(decimals as nat);
    crate::text::lemma_pow10_positive(decimals as nat);
    assert(needed * scale >= 0) by (nonlinear_arith)
        requires
            needed >= 0,
            scale >= 1,
    ;
    let scaled = needed * scale;
    let r = scaled_rate as int;
    vstd::arithmetic::div_mod::lemma_div_denominator(scaled, r, 10_000);
    let price = scaled / (r * 10_000);
    assert(price == scaled / r / 10_000);
    vstd::arithmetic::div_mod::lemma_fundamental_div_mod(scaled, r * 10_000);
    vstd::arithmetic::div_mod::lemma_mod_bound(scaled, r * 10_000);
    assert(price * r * 10_000 <= scaled && scaled < (price + 1) * r * 10_000) by (nonlinear_arith)
        requires
            scaled == (r * 10_000) * price + scaled % (r * 10_000),
            0 <= scaled % (r * 10_000) < r * 10_000,
    ;
}

// ============================================================================
// Status

/// The human-readable status of a rental agreement paid until `paid_until_nanos`, at
/// `now_nanos`, with `days_left` days and `cycles_left` cycles left: once it is past due and
/// all its cycles are burned, the agreement is terminated.
pub open spec fn status_description(
    paid_until_nanos: u64,
    now_nanos: u64,
    days_left: u64,
    cycles_left: u128,
) -> Seq<char> {
    if now_nanos > paid_until_nanos && cycles_left == 0 {
        "TERMINATED: This rental agreement has ended and all its cycles are burned."@
    } else if now_nanos > paid_until_nanos {
        "PAST DUE: This rental agreement needs to be topped up to continue."@
    } else if days_left <= 30 {
        "WARNING: This rental agreement is only covered for "@ + decimal(days_left as nat)
            + " more days. Please top up the subnet."@
    } else {
        "OK: This rental agreement is covered for "@ + decimal(days_left as nat) + " more days."@
    }
}

/// The cycles created for an agreement that are not burned yet.
pub open spec fn cycles_left(agreement: crate::RentalAgreementView) -> u128 {
    if agreement.total_cycles_created >= agreement.total_cycles_burned {
        (agreement.total_cycles_created - agreement.total_cycles_burned) as u128
    } else {
        0
    }
}

/// The status texts by coverage: not past due, an agreement covered for at most 30 more
/// days is a WARNING and one covered for longer is OK; past due, it is PAST DUE while
/// cycles are left and TERMINATED once none are.
pub proof fn lemma_status_by_coverage(paid_until_nanos: u64, now_nanos: u64, days_left: u64, cycles_left: u128)
    ensures
        now_nanos <= paid_until_nanos && days_left <= 30 ==> "WARNING"@.is_prefix_of(
            status_description(paid_until_nanos, now_nanos, days_left, cycles_left),
        ),
        now_nanos <= paid_until_nanos && days_left > 30 ==> "OK"@.is_prefix_of(
            status_description(paid_until_nanos, now_nanos, days_left, cycles_left),
        ),
        "OK"@.is_prefix_of(status_description(paid_until_nanos, now_nanos, days_left, cycles_left))
            ==> now_nanos <= paid_until_nanos && days_left > 30,
        now_nanos > paid_until_nanos && cycles_left > 0 ==> "PAST DUE"@.is_prefix_of(
            status_description(paid_until_nanos, now_nanos, days_left, cycles_left),
        ),
        now_nanos > paid_until_nanos && cycles_left == 0 ==> "TERMINATED"@.is_prefix_of(
            status_description(paid_until_nanos, now_nanos, days_left, cycles_left),
        ),
{
    reveal_strlit("WARNING");
    reveal_strlit("OK");
    reveal_strlit("PAST DUE");
    reveal_strlit("TERMINATED");
    reveal_strlit("WARNING: This rental agreement is only covered for ");
    reveal_strlit("OK: This rental agreement is covered for ");
    reveal_strlit("PAST DUE: This rental agreement needs to be topped up to continue.");
    reveal_strlit("TERMINATED: This rental agreement has ended and all its cycles are burned.");
    let d = status_description(paid_until_nanos, now_nanos, days_left, cycles_left);
    let days = decimal(days_left as nat);
    if now_nanos > paid_until_nanos && cycles_left == 0 {
        assert(d.subrange(0, 10) =~= "TERMINATED"@);
        assert(d[0] != "OK"@[0]);
    } else if now_nanos > paid_until_nanos {
        assert(d.subrange(0, 8) =~= "PAST DUE"@);
        assert(d[0] != "OK"@[0]);
    } else if days_left <= 30 {
        let head = "WARNING: This rental agreement is only covered for "@;
        assert(d == head + days + " more days. Please top up the subnet."@);
        assert(d.subrange(0, 7) =~= "WARNING"@) by {
            assert forall|i: int| 0 <= i < 7 implies d[i] == head[i] by {}
        }
        assert(d[0] != "OK"@[0]);
    } else {
        let head = "OK: This rental agreement is covered for "@;
        assert(d == head + days + " more days."@);
        assert(d.subrange(0, 2) =~= "OK"@) by {
            assert forall|i: int| 0 <= i < 2 implies d[i] == head[i] by {}
        }
    }
}

/// Returns the status of a rental agreement w.r.t. payment coverage at `now_nanos`.
pub fn rental_agreement_status(state: &CanisterState, subnet_id: &Principal, now_nanos: u64) -> (r:
    Result<RentalAgreementStatus, String>)
    requires
        state.wf(),
    ensures
        r is Ok <==> state.agreements().contains_key(subnet_id@),
        r matches Err(e) ==> e@ == "Rental agreement not found"@,
        r matches Ok(s) ==> {
            let a = state.agreements()[subnet_id@];
            &&& s.cycles_left == cycles_left(a)
            &&& s.days_left == spec_days_remaining(a.paid_until_nanos, now_nanos)
            &&& s.description@ == status_description(
                a.paid_until_nanos,
                now_nanos,
                s.days_left,
                s.cycles_left,
            )
        },
{
    let rental_agreement = match get_rental_agreement(state, subnet_id) {
        Some(a) => a,
        None => return Err(String::from_str("Rental agreement not found")),
    };
    let paid_until_nanos = rental_agreement.paid_until_nanos;
    let cycles_left = rental_agreement.total_cycles_created.saturating_sub(
        rental_agreement.total_cycles_burned,
    );
    let days_left = calculate_days_remaining(paid_until_nanos, now_nanos);
    let days_text = decimal_string(days_left as u128);
    let description = if now_nanos > paid_until_nanos && cycles_left == 0 {
        String::from_str("TERMINATED: This rental agreement has ended and all its cycles are burned.")
    } else if now_nanos > paid_until_nanos {
        String::from_str("PAST DUE: This rental agreement needs to be topped up to continue.")
    } else if days_left <= 30 {
        concat3(
            "WARNING: This rental agreement is only covered for ",
            days_text.as_str(),
            " more days. Please top up the subnet.",
        )
    } else {
        concat3(
            "OK: This rental agreement is covered for ",
            days_text.as_str(),
            " more days.",
        )
    };
    Ok(RentalAgreementStatus { description, cycles_left, days_left })
}

} // verus!

verus! {

// ============================================================================
// Initialization

/// The rental conditions the canister starts with.
pub open spec fn initial_conditions() -> crate::RentalConditionsView {
    crate::RentalConditionsView {
        description: "All nodes must be in Switzerland or Liechtenstein."@,
        subnet_id: None,
        daily_cost_cycles: 820_000_000_000_000,
        initial_rental_period_days: 180,
    }
}

/// Puts the initial rental conditions in place and records the change in the history of
/// the rental conditions at `now_nanos`. Traps, changing nothing, if that history is full.
pub fn set_initial_conditions(state: &mut CanisterState, now_nanos: u64) -> (r: Step<(), ()>)
    requires
        old(state).wf(),
    ensures
        final(state).wf(),
        !(r is Stop),
        r is Trap <==> old(state).event_count(None) == u64::MAX,
        r is Trap ==> *final(state) == *old(state),
        r is Proceed ==> {
            &&& final(state).conditions() == old(state).conditions().insert(
                RentalConditionId::App13CH,
                initial_conditions(),
            )
            &&& final(state).history() == old(state).history().insert(
                (None, old(state).event_count(None)),
                crate::history::EventView {
                    time_nanos: now_nanos,
                    event: crate::history::EventTypeView::RentalConditionsChanged {
                        rental_condition_id: RentalConditionId::App13CH,
                        rental_conditions: Some(initial_conditions()),
                    },
                },
            )
            &&& final(state).counters() == old(state).counters().insert(
                None,
                (old(state).event_count(None) + 1) as u64,
            )
        },
        final(state).locks() == old(state).locks(),
        final(state).requests() == old(state).requests(),
        final(state).request_order() == old(state).request_order(),
        final(state).agreements() == old(state).agreements(),
        final(state).agreement_order() == old(state).agreement_order(),
        final(state).rates() == old(state).rates(),
{
    if canister_state::get_current_seq(state, &None) == Some(u64::MAX - 1) {
        return Step::Trap(String::from_str("attempt to add with overflow"));
    }
    let conditions = RentalConditions {
        description: String::from_str("All nodes must be in Switzerland or Liechtenstein."),
        subnet_id: None,
        daily_cost_cycles: 820 * crate::TRILLION,
        initial_rental_period_days: 180,
    };
    let recorded = conditions.clone();
    canister_state::insert_rental_condition(state, RentalConditionId::App13CH, conditions);
    canister_state::persist_event(
        state,
        Event::new(
            now_nanos,
            crate::history::EventType::RentalConditionsChanged {
                rental_condition_id: RentalConditionId::App13CH,
                rental_conditions: Some(recorded),
            },
        ),
        None,
    );
    Step::Proceed(())
}

// ============================================================================
// Queries

pub fn list_rental_conditions(state: &CanisterState) -> (r: Vec<(RentalConditionId, RentalConditions)>)
    requires
        state.wf(),
    ensures
        r@.len() == state.conditions().dom().len(),
        r@.len() == state.condition_order().len(),
        forall|i: int| 0 <= i < r@.len() ==> (#[trigger] r@[i]).0 == state.condition_order()[i],
        forall|i: int|
            0 <= i < r@.len() ==> state.conditions().contains_key((#[trigger] r@[i]).0)
                && r@[i].1@ == state.conditions()[r@[i].0],
        forall|i: int, j: int|
            0 <= i < j < r@.len() ==> (#[trigger] r@[i]).0 != (#[trigger] r@[j]).0,
{
    iter_rental_conditions(state)
}

/// All rental requests, in increasing order of their users.
pub fn list_rental_requests(state: &CanisterState) -> (r: Vec<RentalRequest>)
    requires
        state.wf(),
    ensures
        in_principal_order(principal_order_of(state.requests().dom())),
        principal_order_of(state.requests().dom()).to_set() == state.requests().dom(),
        r@.len() == principal_order_of(state.requests().dom()).len(),
        forall|i: int|
            0 <= i < r@.len() ==> (#[trigger] r@[i])@ == state.requests()[principal_order_of(state.requests().dom())[i]],
{
    let entries = iter_rental_requests(state);
    let mut r: Vec<RentalRequest> = Vec::new();
    let mut i: usize = 0;
    while i < entries.len()
        invariant
            i <= entries@.len(),
            r@.len() == i,
            entries@.len() == principal_order_of(state.requests().dom()).len(),
            forall|j: int|
                0 <= j < entries@.len() ==> (#[trigger] entries@[j]).0@ == principal_order_of(state.requests().dom())[j]
                    && state.requests().contains_key(entries@[j].0@) && entries@[j].1@
                    == state.requests()[entries@[j].0@],
            forall|j: int| 0 <= j < i ==> (#[trigger] r@[j])@ == entries@[j].1@,
        decreases entries@.len() - i,
    {
        r.push(entries[i].1.clone());
        i = i + 1;
    }
    r
}

/// All active rental agreements, in increasing order of their subnets.
pub fn list_rental_agreements(state: &CanisterState) -> (r: Vec<RentalAgreement>)
    requires
        state.wf(),
    ensures
        in_principal_order(principal_order_of(state.agreements().dom())),
        principal_order_of(state.agreements().dom()).to_set() == state.agreements().dom(),
        r@.len() == principal_order_of(state.agreements().dom()).len(),
        forall|i: int|
            0 <= i < r@.len() ==> (#[trigger] r@[i])@ == state.agreements()[principal_order_of(state.agreements().dom())[i]],
{
    let entries = iter_rental_agreements(state);
    let mut r: Vec<RentalAgreement> = Vec::new();
    let mut i: usize = 0;
    while i < entries.len()
        invariant
            i <= entries@.len(),
            r@.len() == i,
            entries@.len() == principal_order_of(state.agreements().dom()).len(),
            forall|j: int|
                0 <= j < entries@.len() ==> (#[trigger] entries@[j]).0@
                    == principal_order_of(state.agreements().dom())[j] && state.agreements().contains_key(
                    entries@[j].0@,
                ) && entries@[j].1@ == state.agreements()[entries@[j].0@],
            forall|j: int| 0 <= j < i ==> (#[trigger] r@[j])@ == entries@[j].1@,
        decreases entries@.len() - i,
    {
        r.push(entries[i].1.clone());
        i = i + 1;
    }
    r
}

/// A page of the history of `principal` (a user or a subnet id): the most recent one if
/// `older_than` is None, else the page just before the event number `older_than`. The
/// continuation is the number of the oldest event in the page.
pub fn get_history_page(state: &CanisterState, principal: Principal, older_than: Option<u64>) -> (r:
    EventPage)
    requires
        state.wf(),
    ensures
        r.continuation == canister_state::page_low(
            canister_state::page_high(*state, Some(principal@), older_than),
            HISTORY_PAGE_SIZE,
        ),
        r.events@.map_values(|e: Event| e@) == canister_state::history_range(
            state.history(),
            Some(principal@),
            r.continuation,
            canister_state::page_high(*state, Some(principal@), older_than),
        ),
{
    let (events, continuation) = canister_state::get_history_page(
        state,
        Some(principal),
        older_than,
        HISTORY_PAGE_SIZE,
    );
    EventPage { events, continuation }
}

/// Like `get_history_page` but for the changes in rental conditions.
pub fn get_rental_conditions_history_page(state: &CanisterState, older_than: Option<u64>) -> (r:
    EventPage)
    requires
        state.wf(),
    ensures
        r.continuation == canister_state::page_low(
            canister_state::page_high(*state, None, older_than),
            HISTORY_PAGE_SIZE,
        ),
        r.events@.map_values(|e: Event| e@) == canister_state::history_range(
            state.history(),
            None,
            r.continuation,
            canister_state::page_high(*state, None, older_than),
        ),
{
    let (events, continuation) = canister_state::get_history_page(
        state,
        None,
        older_than,
        HISTORY_PAGE_SIZE,
    );
    EventPage { events, continuation }
}

/// The account into which `user` must transfer ICP for renting a subnet from the canister
/// `canister_id`, in hexadecimal.
pub fn get_payment_account(canister_id: &Principal, user: &Principal) -> (s: String)
    ensures
        s@ == crate::text::hex_text(
            crate::external_calls::account_identifier(
                canister_id@,
                crate::types::spec_subaccount(user@),
            ),
        ),
{
    crate::external_calls::payment_account_hex(canister_id, user)
}

/// Succeeds if and only if the caller is the NNS governance canister.
pub fn verify_caller_is_governance(caller: &Principal) -> (r: Result<(), ExecuteProposalError>)
    ensures
        r is Ok <==> caller@ == crate::external_calls::governance_canister_bytes(),
        r is Err ==> r == Err::<(), ExecuteProposalError>(ExecuteProposalError::UnauthorizedCaller),
{
    let governance = crate::external_calls::governance_canister_id();
    if !caller.same_as(&governance) {
        return Err(ExecuteProposalError::UnauthorizedCaller);
    }
    Ok(())
}

} // verus!

verus! {

// ============================================================================
// Today's price

/// The bytes of the anonymous principal.
pub open spec fn anonymous_bytes() -> Seq<u8> {
    seq![4u8]
}

/// Where the exchange rate for a price comes from: the cache, or the exchange rate canister,
/// asked for the rate at `time_secs` while the guard keeps other calls from asking too.
pub enum PriceSource {
    Cached { rate: u64, decimals: u32 },
    Fetch { time_secs: u64, guard: CallerGuard },
}

/// What a price is computed from.
pub struct PriceQuery {
    pub daily_cost_cycles: u128,
    pub initial_rental_period_days: u64,
    pub source: PriceSource,
}

/// The first step of computing the price of a subnet in ICP according to the exchange rate
/// at the UTC midnight before `now_nanos`: the rental conditions, and the rate from the
/// cache or else the time for which the exchange rate canister must be asked.
pub fn get_todays_price_begin(state: &mut CanisterState, id: RentalConditionId, now_nanos: u64) -> (r:
    Step<PriceQuery, String>)
    requires
        old(state).wf(),
    ensures
        final(state).wf(),
        !(r is Trap),
        !old(state).conditions().contains_key(id) ==> (r matches Step::Stop(e) && e@
            == "RentalConditionId not found"@),
        r is Stop ==> final(state).locks() == old(state).locks(),
        old(state).conditions().contains_key(id) ==> {
            let c = old(state).conditions()[id];
            let midnight = ((now_nanos / BILLION) - (now_nanos / BILLION) % 86400) as u64;
            &&& old(state).rates().contains_key(midnight) ==> (r matches Step::Proceed(q) && {
                &&& q.daily_cost_cycles == c.daily_cost_cycles
                &&& q.initial_rental_period_days == c.initial_rental_period_days
                &&& (q.source matches PriceSource::Cached { rate, decimals } && (rate, decimals)
                    == old(state).rates()[midnight])
                &&& *final(state) == *old(state)
            })
            &&& !old(state).rates().contains_key(midnight) && old(state).locks().contains(
                (anonymous_bytes(), "XRC"@),
            ) ==> (r matches Step::Stop(e) && e@
                == "Failed to acquire lock on calling exchange rate canister. Try again."@)
            &&& !old(state).rates().contains_key(midnight) && !old(state).locks().contains(
                (anonymous_bytes(), "XRC"@),
            ) ==> (r matches Step::Proceed(q) && {
                &&& q.daily_cost_cycles == c.daily_cost_cycles
                &&& q.initial_rental_period_days == c.initial_rental_period_days
                &&& (q.source matches PriceSource::Fetch { time_secs, guard } && time_secs
                    == midnight && guard@ == (anonymous_bytes(), "XRC"@))
                &&& final(state).locks() == old(state).locks().insert((anonymous_bytes(), "XRC"@))
            })
        },
        final(state).conditions() == old(state).conditions(),
        final(state).requests() == old(state).requests(),
        final(state).request_order() == old(state).request_order(),
        final(state).agreements() == old(state).agreements(),
        final(state).agreement_order() == old(state).agreement_order(),
        final(state).counters() == old(state).counters(),
        final(state).history() == old(state).history(),
        final(state).rates() == old(state).rates(),
{
    proof {
        reveal_strlit("XRC");
    }
    let conditions = match canister_state::get_rental_conditions(state, id) {
        Some(c) => c,
        None => return Step::Stop(String::from_str("RentalConditionId not found")),
    };
    let now_secs = now_nanos / BILLION;
    let prev_midnight = round_to_previous_midnight(now_secs);
    match canister_state::get_cached_rate(state, prev_midnight) {
        Some((rate, decimals)) => Step::Proceed(
            PriceQuery {
                daily_cost_cycles: conditions.daily_cost_cycles,
                initial_rental_period_days: conditions.initial_rental_period_days,
                source: PriceSource::Cached { rate, decimals },
            },
        ),
        None => {
            let anonymous = Principal::anonymous();
            match CallerGuard::new(state, anonymous, "XRC") {
                Ok(guard) => Step::Proceed(
                    PriceQuery {
                        daily_cost_cycles: conditions.daily_cost_cycles,
                        initial_rental_period_days: conditions.initial_rental_period_days,
                        source: PriceSource::Fetch { time_secs: prev_midnight, guard },
                    },
                ),
                Err(_) => Step::Stop(
                    String::from_str(
                        "Failed to acquire lock on calling exchange rate canister. Try again.",
                    ),
                ),
            }
        },
    }
}

/// The step after the exchange rate canister answered for `time_secs`: the rate is cached,
/// the guard released, and an error is reported as failing the call.
pub fn get_todays_price_fetched(
    state: &mut CanisterState,
    guard: CallerGuard,
    time_secs: u64,
    response: Result<(u64, u32), String>,
) -> (r: Result<(u64, u32), String>)
    requires
        old(state).wf(),
    ensures
        final(state).wf(),
        response matches Ok(v) ==> (r == Ok::<(u64, u32), String>(v) && final(state).rates()
            == old(state).rates().insert(time_secs, v)),
        response matches Err(e) ==> (r matches Err(m) && m@
            == "Failed to call the exchange rate canister: "@ + e@) && final(state).rates()
            == old(state).rates(),
        final(state).locks() == old(state).locks().remove(guard@),
        final(state).conditions() == old(state).conditions(),
        final(state).requests() == old(state).requests(),
        final(state).request_order() == old(state).request_order(),
        final(state).agreements() == old(state).agreements(),
        final(state).agreement_order() == old(state).agreement_order(),
        final(state).counters() == old(state).counters(),
        final(state).history() == old(state).history(),
{
    proof {
        reveal_strlit("");
    }
    let res = crate::external_calls::exchange_rate_received(state, time_secs, response);
    guard.release(state);
    match res {
        Ok(v) => Ok(v),
        Err(e) => Err(concat3("Failed to call the exchange rate canister: ", e.as_str(), "")),
    }
}

/// The text of a failed price calculation, as the error's debug form shows it.
pub open spec fn price_error_text(d: PriceCalculationData) -> Seq<char> {
    "PriceCalculationError(PriceCalculationData { daily_cost_cycles: "@ + decimal(
        d.daily_cost_cycles as nat,
    ) + ", initial_rental_period_days: "@ + decimal(d.initial_rental_period_days as nat)
        + ", scaled_exchange_rate_xdr_per_icp: "@ + decimal(
        d.scaled_exchange_rate_xdr_per_icp as nat,
    ) + ", decimals: "@ + decimal(d.decimals as nat) + " })"@
}

/// The debug form of a failed price calculation.
pub fn price_error_string(d: PriceCalculationData) -> (s: String)
    ensures
        s@ == price_error_text(d),
{
    let mut s = String::from_str("PriceCalculationError(PriceCalculationData { daily_cost_cycles: ");
    crate::text::push_decimal(&mut s, d.daily_cost_cycles);
    s.append(", initial_rental_period_days: ");
    crate::text::push_decimal(&mut s, d.initial_rental_period_days as u128);
    s.append(", scaled_exchange_rate_xdr_per_icp: ");
    crate::text::push_decimal(&mut s, d.scaled_exchange_rate_xdr_per_icp as u128);
    s.append(", decimals: ");
    crate::text::push_decimal(&mut s, d.decimals as u128);
    s.append(" })");
    s
}

/// Whether the price computation traps: 10^decimals overflows while the cycles needed fit.
pub open spec fn price_traps(daily_cost_cycles: u128, initial_rental_period_days: u64, decimals: u32) -> bool {
    decimals > 38 && daily_cost_cycles * initial_rental_period_days <= u128::MAX
}

/// The last step of computing today's price: the price in ICP at the given rate, or the
/// failed calculation as the call's error.
pub fn get_todays_price_finish(
    daily_cost_cycles: u128,
    initial_rental_period_days: u64,
    rate: u64,
    decimals: u32,
) -> (r: Step<Tokens, String>)
    ensures
        r is Trap <==> price_traps(daily_cost_cycles, initial_rental_period_days, decimals),
        !price_traps(daily_cost_cycles, initial_rental_period_days, decimals) ==> {
            let p = spec_subnet_price_e8s(
                daily_cost_cycles,
                initial_rental_period_days,
                rate,
                decimals,
            );
            &&& p matches Some(e8s) ==> (r matches Step::Proceed(t) && t.e8s == e8s as u64)
            &&& p is None ==> (r matches Step::Stop(m) && m@ == "Failed to calculate price: "@
                + price_error_text(
                PriceCalculationData {
                    daily_cost_cycles,
                    initial_rental_period_days,
                    scaled_exchange_rate_xdr_per_icp: rate,
                    decimals,
                },
            ))
        },
{
    proof {
        reveal_strlit("");
    }
    if decimals > 38 {
        if daily_cost_cycles.checked_mul(initial_rental_period_days as u128).is_some() {
            return Step::Trap(String::from_str("attempt to multiply with overflow"));
        }
    }
    match calculate_subnet_price(daily_cost_cycles, initial_rental_period_days, rate, decimals) {
        Ok(tokens) => Step::Proceed(tokens),
        Err(e) => {
            let data = PriceCalculationData {
                daily_cost_cycles,
                initial_rental_period_days,
                scaled_exchange_rate_xdr_per_icp: rate,
                decimals,
            };
            let text = price_error_string(data);
            Step::Stop(concat3("Failed to calculate price: ", text.as_str(), ""))
        },
    }
}

} // verus!

verus! {

// ============================================================================
// Rental request proposals

/// A subnet rental request proposal in execution: its data, and the guards that keep other
/// calls for the same user, and other executions of such proposals, out.
pub struct RentalRequestProposal {
    pub user: Principal,
    pub rental_condition_id: RentalConditionId,
    pub proposal_id: u64,
    pub daily_cost_cycles: u128,
    pub initial_rental_period_days: u64,
    /// The UTC midnight before the proposal's creation, for the exchange rate.
    pub exchange_rate_query_time: u64,
    pub user_guard: CallerGuard,
    pub execution_guard: CallerGuard,
}

impl RentalRequestProposal {
    /// The locks the proposal's guards hold.
    pub open spec fn guards(&self) -> Set<(Seq<u8>, Seq<char>)> {
        set![self.user_guard@, self.execution_guard@]
    }

    /// Releases the guards.
    pub fn release(self, state: &mut CanisterState)
        requires
            old(state).wf(),
        ensures
            final(state).wf(),
            final(state).locks() == old(state).locks().remove(self.user_guard@).remove(
                self.execution_guard@,
            ),
            final(state).conditions() == old(state).conditions(),
            final(state).requests() == old(state).requests(),
            final(state).request_order() == old(state).request_order(),
            final(state).agreements() == old(state).agreements(),
            final(state).agreement_order() == old(state).agreement_order(),
            final(state).counters() == old(state).counters(),
            final(state).history() == old(state).history(),
            final(state).rates() == old(state).rates(),
    {
        self.user_guard.release(state);
        self.execution_guard.release(state);
    }
}

/// Why a rental request proposal for `user` on the rental condition `id` fails at the
/// start, if it does (the conditions for `id` are known).
pub open spec fn rental_request_refusal(
    state: CanisterState,
    user: Seq<u8>,
    id: RentalConditionId,
) -> Option<ExecuteProposalError> {
    if state.requests().contains_key(user) {
        Some(ExecuteProposalError::UserAlreadyRequestingSubnetRental)
    } else if canister_state::spec_user_has_agreement(state, user) {
        Some(ExecuteProposalError::UserAlreadyHasAgreement)
    } else if state.conditions()[id].subnet_id matches Some(s) && state.agreements().contains_key(
        s,
    ) {
        Some(ExecuteProposalError::SubnetAlreadyRented)
    } else if canister_state::spec_condition_requested(state, id) {
        Some(ExecuteProposalError::SubnetAlreadyRequested)
    } else {
        None
    }
}

/// At most one rental request per rental condition: a proposal on a rental condition that
/// some pending request already uses is refused, and when the user has no request and no
/// agreement and the subnet is not rented, the refusal is `SubnetAlreadyRequested`. A
/// proposal that is not refused finds no request on its rental condition.
pub proof fn lemma_one_request_per_condition(
    state: CanisterState,
    user: Seq<u8>,
    id: RentalConditionId,
    other: Seq<u8>,
)
    ensures
        state.requests().contains_key(other) && state.requests()[other].rental_condition_id == id
            ==> rental_request_refusal(state, user, id) is Some,
        state.requests().contains_key(other) && state.requests()[other].rental_condition_id == id
            && !state.requests().contains_key(user) && (forall|s: Seq<u8>|
            #[trigger] state.agreements().contains_key(s) ==> state.agreements()[s].user != user)
            && !(state.conditions()[id].subnet_id matches Some(s) && state.agreements().contains_key(
            s,
        )) ==> rental_request_refusal(state, user, id) == Some(
            ExecuteProposalError::SubnetAlreadyRequested,
        ),
        rental_request_refusal(state, user, id) is None ==> {
            &&& !state.requests().contains_key(user)
            &&& forall|u: Seq<u8>|
                #[trigger] state.requests().contains_key(u) ==> state.requests()[u].rental_condition_id
                    != id
            &&& forall|s: Seq<u8>|
                #[trigger] state.agreements().contains_key(s) ==> state.agreements()[s].user != user
        },
{
    if state.requests().contains_key(other) && state.requests()[other].rental_condition_id == id {
        assert(canister_state::spec_condition_requested(state, id));
    }
    if (forall|s: Seq<u8>|
        #[trigger] state.agreements().contains_key(s) ==> state.agreements()[s].user != user) {
        assert(!canister_state::spec_user_has_agreement(state, user));
    }
    if rental_request_refusal(state, user, id) is None {
        assert forall|u: Seq<u8>| #[trigger] state.requests().contains_key(u) implies state.requests()[u].rental_condition_id
            != id by {
            if state.requests()[u].rental_condition_id == id {
                assert(canister_state::spec_condition_requested(state, id));
            }
        }
        assert forall|s: Seq<u8>| #[trigger] state.agreements().contains_key(s) implies state.agreements()[s].user
            != user by {
            if state.agreements()[s].user == user {
                assert(canister_state::spec_user_has_agreement(state, user));
            }
        }
    }
}

/// The lock a user's requests take.
pub open spec fn request_lock(user: Seq<u8>) -> (Seq<u8>, Seq<char>) {
    (user, "request"@)
}

/// The lock an execution of a rental request proposal takes.
pub open spec fn execution_lock() -> (Seq<u8>, Seq<char>) {
    (anonymous_bytes(), "execute_rental_request_proposal"@)
}

/// The first step of executing an adopted subnet rental request proposal (the caller has
/// been verified to be the governance canister): take the guards, and refuse the request
/// if the user already has a request or an agreement, or the subnet is already rented or
/// requested. A refusal (`Stop`) is to be recorded in the user's history. It traps if a
/// guard is taken or the rental conditions are unknown.
pub fn rental_request_proposal_begin(state: &mut CanisterState, payload: crate::SubnetRentalProposalPayload) -> (r:
    Step<RentalRequestProposal, ExecuteProposalError>)
    requires
        old(state).wf(),
    ensures
        final(state).wf(),
        ({
            let user = payload.user@;
            let id = payload.rental_condition_id;
            let busy = old(state).locks().contains(request_lock(user)) || old(state).locks().contains(
                execution_lock(),
            );
            let early = old(state).requests().contains_key(user)
                || canister_state::spec_user_has_agreement(*old(state), user);
            &&& r is Trap <==> busy || (!early && !old(state).conditions().contains_key(id))
            &&& !busy && old(state).requests().contains_key(user) ==> r == Step::<
                RentalRequestProposal,
                ExecuteProposalError,
            >::Stop(ExecuteProposalError::UserAlreadyRequestingSubnetRental)
            &&& !busy && early ==> r is Stop
            &&& !busy && old(state).conditions().contains_key(id) ==> (r is Stop <==> rental_request_refusal(*old(state), user, id) is Some)
            &&& r matches Step::Stop(e) ==> Some(e) == rental_request_refusal(*old(state), user, id)
            &&& r matches Step::Proceed(p) ==> {
                let c = old(state).conditions()[id];
                &&& p.user@ == user
                &&& p.rental_condition_id == id
                &&& p.proposal_id == payload.proposal_id
                &&& p.daily_cost_cycles == c.daily_cost_cycles
                &&& p.initial_rental_period_days == c.initial_rental_period_days
                &&& p.exchange_rate_query_time == payload.proposal_creation_time_seconds
                    - payload.proposal_creation_time_seconds % 86400
                &&& p.user_guard@ == request_lock(user)
                &&& p.execution_guard@ == execution_lock()
                &&& final(state).locks() == old(state).locks().insert(request_lock(user)).insert(
                    execution_lock(),
                )
            }
            &&& !(r is Proceed) ==> final(state).locks() == old(state).locks()
        }),
        final(state).conditions() == old(state).conditions(),
        final(state).requests() == old(state).requests(),
        final(state).request_order() == old(state).request_order(),
        final(state).agreements() == old(state).agreements(),
        final(state).agreement_order() == old(state).agreement_order(),
        final(state).counters() == old(state).counters(),
        final(state).history() == old(state).history(),
        final(state).rates() == old(state).rates(),
{
    proof {
        reveal_strlit("request");
        reveal_strlit("execute_rental_request_proposal");
    }
    let crate::SubnetRentalProposalPayload {
        user,
        rental_condition_id,
        proposal_id,
        proposal_creation_time_seconds,
    } = payload;
    let ghost s0 = *state;
    let user_guard = match CallerGuard::new(state, user.clone(), "request") {
        Ok(g) => g,
        Err(_) => return Step::Trap(String::from_str("Fatal: Concurrent call on user")),
    };
    let execution_guard = match CallerGuard::new(
        state,
        Principal::anonymous(),
        "execute_rental_request_proposal",
    ) {
        Ok(g) => g,
        Err(_) => {
            proof {
                assert("request"@.len() != "execute_rental_request_proposal"@.len());
                assert(execution_lock() != request_lock(user@));
            }
            user_guard.release(state);
            proof {
                assert(state.locks() =~= s0.locks());
            }
            return Step::Trap(
                String::from_str("Fatal: Concurrent call on execute_rental_request_proposal"),
            );
        },
    };
    let ghost s1 = *state;
    proof {
        assert(s1.locks() == s0.locks().insert(request_lock(user@)).insert(execution_lock()));
        assert(!s0.locks().contains(request_lock(user@)));
        assert(!s0.locks().contains(execution_lock()));
    }
    let refusal: Option<ExecuteProposalError> = if canister_state::get_rental_request(
        state,
        &user,
    ).is_some() {
        Some(ExecuteProposalError::UserAlreadyRequestingSubnetRental)
    } else if canister_state::user_has_agreement(state, &user) {
        Some(ExecuteProposalError::UserAlreadyHasAgreement)
    } else {
        None
    };
    if let Some(e) = refusal {
        user_guard.release(state);
        execution_guard.release(state);
        proof {
            assert(state.locks() =~= s0.locks());
        }
        return Step::Stop(e);
    }
    let conditions = match canister_state::get_rental_conditions(state, rental_condition_id) {
        Some(c) => c,
        None => {
            user_guard.release(state);
            execution_guard.release(state);
            proof {
                assert(state.locks() =~= s0.locks());
            }
            return Step::Trap(String::from_str("Fatal: Rental conditions not found"));
        },
    };
    let rented = match &conditions.subnet_id {
        Some(subnet_id) => get_rental_agreement(state, subnet_id).is_some(),
        None => false,
    };
    let refusal: Option<ExecuteProposalError> = if rented {
        Some(ExecuteProposalError::SubnetAlreadyRented)
    } else if canister_state::condition_requested(state, rental_condition_id) {
        Some(ExecuteProposalError::SubnetAlreadyRequested)
    } else {
        None
    };
    if let Some(e) = refusal {
        user_guard.release(state);
        execution_guard.release(state);
        proof {
            assert(state.locks() =~= s0.locks());
        }
        return Step::Stop(e);
    }
    Step::Proceed(
        RentalRequestProposal {
            user,
            rental_condition_id,
            proposal_id,
            daily_cost_cycles: conditions.daily_cost_cycles,
            initial_rental_period_days: conditions.initial_rental_period_days,
            exchange_rate_query_time: round_to_previous_midnight(proposal_creation_time_seconds),
            user_guard,
            execution_guard,
        },
    )
}

} // verus!

verus! {

/// The step after the exchange rate at the proposal's midnight is known (or its query
/// failed): the price of the initial rental period. A failure releases the guards.
pub fn rental_request_proposal_priced(
    state: &mut CanisterState,
    proposal: RentalRequestProposal,
    rate: Result<(u64, u32), String>,
) -> (r: Step<(RentalRequestProposal, Tokens), ExecuteProposalError>)
    requires
        old(state).wf(),
    ensures
        final(state).wf(),
        rate matches Err(e) ==> r == Step::<(RentalRequestProposal, Tokens), ExecuteProposalError>::Stop(
            ExecuteProposalError::CallXRCFailed(e),
        ),
        rate matches Ok((scaled, decimals)) ==> {
            let p = spec_subnet_price_e8s(
                proposal.daily_cost_cycles,
                proposal.initial_rental_period_days,
                scaled,
                decimals,
            );
            &&& r is Trap <==> price_traps(
                proposal.daily_cost_cycles,
                proposal.initial_rental_period_days,
                decimals,
            )
            &&& !(r is Trap) && p is None ==> r == Step::<
                (RentalRequestProposal, Tokens),
                ExecuteProposalError,
            >::Stop(
                ExecuteProposalError::PriceCalculationError(
                    PriceCalculationData {
                        daily_cost_cycles: proposal.daily_cost_cycles,
                        initial_rental_period_days: proposal.initial_rental_period_days,
                        scaled_exchange_rate_xdr_per_icp: scaled,
                        decimals,
                    },
                ),
            )
            &&& !(r is Trap) && p is Some ==> (r matches Step::Proceed((q, t)) && t.e8s == p->0 as u64
                && q == proposal)
        },
        r is Proceed ==> *final(state) == *old(state),
        r is Trap ==> final(state).same_but_locks(*old(state)) && final(state).locks() == old(
            state,
        ).locks().remove(proposal.user_guard@).remove(proposal.execution_guard@),
        r is Stop ==> final(state).locks() == old(state).locks().remove(proposal.user_guard@).remove(
            proposal.execution_guard@,
        ),
        final(state).conditions() == old(state).conditions(),
        final(state).requests() == old(state).requests(),
        final(state).request_order() == old(state).request_order(),
        final(state).agreements() == old(state).agreements(),
        final(state).agreement_order() == old(state).agreement_order(),
        final(state).counters() == old(state).counters(),
        final(state).history() == old(state).history(),
        final(state).rates() == old(state).rates(),
{
    let (scaled, decimals) = match rate {
        Ok(v) => v,
        Err(e) => {
            proposal.release(state);
            return Step::Stop(ExecuteProposalError::CallXRCFailed(e));
        },
    };
    if decimals > 38 {
        if proposal.daily_cost_cycles.checked_mul(proposal.initial_rental_period_days as u128).is_some() {
            proposal.release(state);
            return Step::Trap(String::from_str("attempt to multiply with overflow"));
        }
    }
    match calculate_subnet_price(
        proposal.daily_cost_cycles,
        proposal.initial_rental_period_days,
        scaled,
        decimals,
    ) {
        Ok(needed_icp) => Step::Proceed((proposal, needed_icp)),
        Err(e) => {
            proposal.release(state);
            Step::Stop(e)
        },
    }
}

/// The step after the balance of the user's subaccount is known: refuse if it does not
/// cover the price, else go on to lock 10% of the price. A refusal releases the guards.
pub fn rental_request_proposal_funded(
    state: &mut CanisterState,
    proposal: RentalRequestProposal,
    needed_icp: Tokens,
    available_icp: Tokens,
) -> (r: Step<(RentalRequestProposal, Tokens), ExecuteProposalError>)
    requires
        old(state).wf(),
    ensures
        final(state).wf(),
        !(r is Trap),
        needed_icp.e8s > available_icp.e8s ==> r == Step::<
            (RentalRequestProposal, Tokens),
            ExecuteProposalError,
        >::Stop(ExecuteProposalError::InsufficientFunds { have: available_icp, need: needed_icp })
            && final(state).locks() == old(state).locks().remove(proposal.user_guard@).remove(
            proposal.execution_guard@,
        ),
        needed_icp.e8s <= available_icp.e8s ==> (r matches Step::Proceed((q, lock)) && q == proposal
            && lock.e8s == needed_icp.e8s / 10) && *final(state) == *old(state),
        final(state).conditions() == old(state).conditions(),
        final(state).requests() == old(state).requests(),
        final(state).request_order() == old(state).request_order(),
        final(state).agreements() == old(state).agreements(),
        final(state).agreement_order() == old(state).agreement_order(),
        final(state).counters() == old(state).counters(),
        final(state).history() == old(state).history(),
        final(state).rates() == old(state).rates(),
{
    if needed_icp.e8s > available_icp.e8s {
        proposal.release(state);
        return Step::Stop(
            ExecuteProposalError::InsufficientFunds { have: available_icp, need: needed_icp },
        );
    }
    let lock_amount_icp = Tokens::from_e8s(needed_icp.e8s / 10);
    Step::Proceed((proposal, lock_amount_icp))
}

/// The rental request that an executed proposal creates at `now_nanos`.
pub open spec fn new_rental_request(
    proposal: RentalRequestProposal,
    needed_icp: Tokens,
    lock_amount_icp: Tokens,
    locked_cycles: u128,
    now_nanos: u64,
) -> crate::RentalRequestView {
    crate::RentalRequestView {
        user: proposal.user@,
        initial_cost_icp: needed_icp,
        locked_amount_icp: lock_amount_icp,
        locked_amount_cycles: locked_cycles,
        initial_proposal_id: proposal.proposal_id,
        creation_time_nanos: now_nanos,
        rental_condition_id: proposal.rental_condition_id,
        last_locking_time_nanos: now_nanos,
    }
}

/// The last step, after 10% of the price was converted to cycles (or the conversion
/// failed): create the rental request, record it, and release the guards. It traps, changing
/// nothing, if the user has a request after all or the user's history is full.
pub fn rental_request_proposal_finish(
    state: &mut CanisterState,
    proposal: RentalRequestProposal,
    needed_icp: Tokens,
    lock_amount_icp: Tokens,
    converted: Result<u128, ExecuteProposalError>,
    now_nanos: u64,
) -> (r: Step<(), ExecuteProposalError>)
    requires
        old(state).wf(),
    ensures
        final(state).wf(),
        converted matches Err(e) ==> r == Step::<(), ExecuteProposalError>::Stop(e)
            && final(state).locks() == old(state).locks().remove(proposal.user_guard@).remove(
            proposal.execution_guard@,
        ) && final(state).same_but_locks(*old(state)),
        converted matches Ok(cycles) ==> {
            let user = proposal.user@;
            &&& r is Trap <==> old(state).requests().contains_key(user) || old(state).event_count(
                Some(user),
            ) == u64::MAX
            &&& r is Trap ==> final(state).same_but_locks(*old(state)) && final(state).locks()
                    == old(state).locks().remove(proposal.user_guard@).remove(proposal.execution_guard@)
            &&& r is Proceed ==> {
                &&& final(state).requests() == old(state).requests().insert(
                    user,
                    new_rental_request(proposal, needed_icp, lock_amount_icp, cycles, now_nanos),
                )
                &&& final(state).request_order() == old(state).request_order().push(user)
                &&& final(state).history() == old(state).history().insert(
                    (Some(user), old(state).event_count(Some(user))),
                    crate::history::EventView {
                        time_nanos: now_nanos,
                        event: crate::history::EventTypeView::RentalRequestCreated {
                            rental_request: new_rental_request(
                                proposal,
                                needed_icp,
                                lock_amount_icp,
                                cycles,
                                now_nanos,
                            ),
                        },
                    },
                )
                &&& final(state).counters() == old(state).counters().insert(
                    Some(user),
                    (old(state).event_count(Some(user)) + 1) as u64,
                )
                &&& final(state).locks() == old(state).locks().remove(proposal.user_guard@).remove(
                    proposal.execution_guard@,
                )
            }
            &&& !(r is Stop)
        },
        final(state).conditions() == old(state).conditions(),
        final(state).agreements() == old(state).agreements(),
        final(state).agreement_order() == old(state).agreement_order(),
        final(state).rates() == old(state).rates(),
{
    let locked_cycles = match converted {
        Ok(c) => c,
        Err(e) => {
            proposal.release(state);
            return Step::Stop(e);
        },
    };
    if canister_state::get_rental_request(state, &proposal.user).is_some() {
        proposal.release(state);
        return Step::Trap(String::from_str("called `Result::unwrap()` on an `Err` value"));
    }
    let key = Some(proposal.user.clone());
    if canister_state::get_current_seq(state, &key) == Some(u64::MAX - 1) {
        proposal.release(state);
        return Step::Trap(String::from_str("attempt to add with overflow"));
    }
    let rental_request = RentalRequest {
        user: proposal.user.clone(),
        initial_cost_icp: needed_icp,
        locked_amount_icp: lock_amount_icp,
        locked_amount_cycles: locked_cycles,
        initial_proposal_id: proposal.proposal_id,
        creation_time_nanos: now_nanos,
        rental_condition_id: proposal.rental_condition_id,
        last_locking_time_nanos: now_nanos,
    };
    let _ = canister_state::persist_rental_request(state, rental_request, now_nanos);
    proposal.release(state);
    Step::Proceed(())
}

/// Records in `user`'s history at `now_nanos` that the rental request proposal
/// `proposal_id` failed, for `reason`. Traps, changing nothing, if the history is full.
pub fn record_rental_request_failure(
    state: &mut CanisterState,
    user: Principal,
    proposal_id: u64,
    reason: String,
    now_nanos: u64,
) -> (r: Step<(), ()>)
    requires
        old(state).wf(),
    ensures
        final(state).wf(),
        !(r is Stop),
        r is Trap <==> old(state).event_count(Some(user@)) == u64::MAX,
        r is Trap ==> *final(state) == *old(state),
        r is Proceed ==> final(state).history() == old(state).history().insert(
            (Some(user@), old(state).event_count(Some(user@))),
            crate::history::EventView {
                time_nanos: now_nanos,
                event: crate::history::EventTypeView::RentalRequestFailed {
                    user: user@,
                    proposal_id,
                    reason: reason@,
                },
            },
        ) && final(state).counters() == old(state).counters().insert(
            Some(user@),
            (old(state).event_count(Some(user@)) + 1) as u64,
        ),
        final(state).conditions() == old(state).conditions(),
        final(state).locks() == old(state).locks(),
        final(state).requests() == old(state).requests(),
        final(state).request_order() == old(state).request_order(),
        final(state).agreements() == old(state).agreements(),
        final(state).agreement_order() == old(state).agreement_order(),
        final(state).rates() == old(state).rates(),
{
    let key = Some(user.clone());
    if canister_state::get_current_seq(state, &key) == Some(u64::MAX - 1) {
        return Step::Trap(String::from_str("attempt to add with overflow"));
    }
    canister_state::persist_event(
        state,
        Event::new(
            now_nanos,
            crate::history::EventType::RentalRequestFailed { user, proposal_id, reason },
        ),
        key,
    );
    Step::Proceed(())
}

} // verus!

verus! {

// ============================================================================
// Creating rental agreements

/// A rental agreement in creation: the payload, the user's rental request, what remains to
/// be converted to cycles, and the guards on the user and the subnet.
pub struct AgreementCreation {
    pub user: Principal,
    pub subnet_id: Principal,
    pub proposal_id: u64,
    pub rental_request: RentalRequest,
    pub initial_rental_period_nanos: u64,
    pub remaining_icp: Tokens,
    pub user_guard: CallerGuard,
    pub subnet_guard: CallerGuard,
}

impl AgreementCreation {
    /// Releases the guards.
    pub fn release(self, state: &mut CanisterState)
        requires
            old(state).wf(),
        ensures
            final(state).wf(),
            final(state).locks() == old(state).locks().remove(self.user_guard@).remove(
                self.subnet_guard@,
            ),
            final(state).conditions() == old(state).conditions(),
            final(state).requests() == old(state).requests(),
            final(state).request_order() == old(state).request_order(),
            final(state).agreements() == old(state).agreements(),
            final(state).agreement_order() == old(state).agreement_order(),
            final(state).counters() == old(state).counters(),
            final(state).history() == old(state).history(),
            final(state).rates() == old(state).rates(),
    {
        self.user_guard.release(state);
        self.subnet_guard.release(state);
    }
}

/// The lock the creation of an agreement takes on the subnet.
pub open spec fn subnet_creation_lock(subnet: Seq<u8>) -> (Seq<u8>, Seq<char>) {
    (subnet, "nns"@)
}

/// The first step of turning a user's rental request into a rental agreement for a newly
/// created subnet (the caller has been verified to be the governance canister): take the
/// guards, find the request, check that the subnet is not rented, and compute what remains
/// to be converted to cycles. Traps if a guard is taken, the rental conditions are unknown,
/// or the arithmetic overflows.
pub fn create_rental_agreement_begin(state: &mut CanisterState, payload: crate::CreateRentalAgreementPayload) -> (r:
    Step<AgreementCreation, ExecuteProposalError>)
    requires
        old(state).wf(),
    ensures
        final(state).wf(),
        ({
            let user = payload.user@;
            let subnet = payload.subnet_id@;
            let busy = old(state).locks().contains(request_lock(user)) || old(state).locks().contains(
                subnet_creation_lock(subnet),
            );
            let q = old(state).requests()[user];
            &&& busy ==> r is Trap
            &&& !busy && !old(state).requests().contains_key(user) ==> r == Step::<
                AgreementCreation,
                ExecuteProposalError,
            >::Stop(ExecuteProposalError::RentalRequestNotFound)
            &&& !busy && old(state).requests().contains_key(user) && old(state).agreements().contains_key(
                subnet,
            ) ==> r == Step::<AgreementCreation, ExecuteProposalError>::Stop(
                ExecuteProposalError::SubnetAlreadyRented,
            )
            &&& r is Stop ==> !busy && (!old(state).requests().contains_key(user) || old(
                state,
            ).agreements().contains_key(subnet))
            &&& r is Trap ==> busy || (old(state).requests().contains_key(user)
                && !old(state).agreements().contains_key(subnet))
            &&& !busy && old(state).requests().contains_key(user) && !old(state).agreements().contains_key(
                subnet,
            ) ==> (r is Trap <==> (!old(state).conditions().contains_key(q.rental_condition_id)
                || old(state).conditions()[q.rental_condition_id].initial_rental_period_days
                * NANOS_PER_DAY > u64::MAX || q.locked_amount_icp.e8s > q.initial_cost_icp.e8s))
            &&& r matches Step::Proceed(c) ==> {
                &&& c.user@ == user
                &&& c.subnet_id@ == subnet
                &&& c.proposal_id == payload.proposal_id
                &&& c.rental_request@ == q
                &&& c.initial_rental_period_nanos
                    == old(state).conditions()[q.rental_condition_id].initial_rental_period_days
                    * NANOS_PER_DAY
                &&& c.remaining_icp.e8s == q.initial_cost_icp.e8s - q.locked_amount_icp.e8s
                &&& c.user_guard@ == request_lock(user)
                &&& c.subnet_guard@ == subnet_creation_lock(subnet)
                &&& final(state).locks() == old(state).locks().insert(request_lock(user)).insert(
                    subnet_creation_lock(subnet),
                )
            }
            &&& !(r is Proceed) ==> final(state).locks() == old(state).locks()
        }),
        final(state).conditions() == old(state).conditions(),
        final(state).requests() == old(state).requests(),
        final(state).request_order() == old(state).request_order(),
        final(state).agreements() == old(state).agreements(),
        final(state).agreement_order() == old(state).agreement_order(),
        final(state).counters() == old(state).counters(),
        final(state).history() == old(state).history(),
        final(state).rates() == old(state).rates(),
{
    proof {
        reveal_strlit("request");
        reveal_strlit("nns");
    }
    let crate::CreateRentalAgreementPayload { user, proposal_id, subnet_id } = payload;
    let ghost s0 = *state;
    let user_guard = match CallerGuard::new(state, user.clone(), "request") {
        Ok(g) => g,
        Err(_) => return Step::Trap(String::from_str("Fatal: Concurrent call on user")),
    };
    let subnet_guard = match CallerGuard::new(state, subnet_id.clone(), "nns") {
        Ok(g) => g,
        Err(_) => {
            proof {
                assert("request"@.len() != "nns"@.len());
                assert(subnet_creation_lock(subnet_id@) != request_lock(user@));
            }
            user_guard.release(state);
            proof {
                assert(state.locks() =~= s0.locks());
            }
            return Step::Trap(String::from_str("Fatal: Concurrent call on subnet"));
        },
    };
    proof {
        assert("request"@.len() != "nns"@.len());
        assert(subnet_creation_lock(subnet_id@) != request_lock(user@));
    }
    let rental_request = match canister_state::get_rental_request(state, &user) {
        Some(q) => q,
        None => {
            user_guard.release(state);
            subnet_guard.release(state);
            proof {
                assert(state.locks() =~= s0.locks());
            }
            return Step::Stop(ExecuteProposalError::RentalRequestNotFound);
        },
    };
    if get_rental_agreement(state, &subnet_id).is_some() {
        user_guard.release(state);
        subnet_guard.release(state);
        proof {
            assert(state.locks() =~= s0.locks());
        }
        return Step::Stop(ExecuteProposalError::SubnetAlreadyRented);
    }
    let trap: Option<&'static str> = match canister_state::get_rental_conditions(
        state,
        rental_request.rental_condition_id,
    ) {
        None => Some("Fatal: Rental condition not found"),
        Some(c) => if c.initial_rental_period_days > u64::MAX / NANOS_PER_DAY {
            Some("attempt to multiply with overflow")
        } else if rental_request.locked_amount_icp.e8s > rental_request.initial_cost_icp.e8s {
            Some("Tokens underflow")
        } else {
            None
        },
    };
    if let Some(message) = trap {
        user_guard.release(state);
        subnet_guard.release(state);
        proof {
            assert(state.locks() =~= s0.locks());
        }
        return Step::Trap(String::from_str(message));
    }
    let conditions = canister_state::get_rental_conditions(
        state,
        rental_request.rental_condition_id,
    ).unwrap();
    let initial_rental_period_nanos = conditions.initial_rental_period_days * NANOS_PER_DAY;
    let remaining_icp = rental_request.initial_cost_icp.minus(rental_request.locked_amount_icp);
    Step::Proceed(
        AgreementCreation {
            user,
            subnet_id,
            proposal_id,
            rental_request,
            initial_rental_period_nanos,
            remaining_icp,
            user_guard,
            subnet_guard,
        },
    )
}

/// The rental agreement created at `now_nanos` from a request, with `converted_cycles`
/// cycles from converting the rest of the initial cost.
pub open spec fn new_rental_agreement(
    creation: AgreementCreation,
    converted_cycles: u128,
    now_nanos: u64,
) -> crate::RentalAgreementView {
    let q = creation.rental_request@;
    crate::RentalAgreementView {
        user: creation.user@,
        rental_request_proposal_id: q.initial_proposal_id,
        subnet_creation_proposal_id: Some(creation.proposal_id),
        subnet_id: creation.subnet_id@,
        rental_condition_id: q.rental_condition_id,
        creation_time_nanos: now_nanos,
        paid_until_nanos: (now_nanos + creation.initial_rental_period_nanos) as u64,
        total_icp_paid: q.initial_cost_icp,
        total_cycles_created: if converted_cycles + q.locked_amount_cycles > u128::MAX {
            u128::MAX
        } else {
            (converted_cycles + q.locked_amount_cycles) as u128
        },
        total_cycles_burned: 0,
    }
}

/// The step after the rest of the initial cost was converted to cycles (or the conversion
/// failed), at `now_nanos`: the rental agreement to create. A failure releases the guards;
/// it traps, changing nothing, if the paid period ends after `u64::MAX` nanoseconds.
pub fn create_rental_agreement_converted(
    state: &mut CanisterState,
    creation: AgreementCreation,
    converted: Result<u128, ExecuteProposalError>,
    now_nanos: u64,
) -> (r: Step<(AgreementCreation, RentalAgreement), ExecuteProposalError>)
    requires
        old(state).wf(),
    ensures
        final(state).wf(),
        converted matches Err(e) ==> r == Step::<(AgreementCreation, RentalAgreement), ExecuteProposalError>::Stop(e)
            && final(state).locks() == old(state).locks().remove(creation.user_guard@).remove(
            creation.subnet_guard@,
        ),
        converted matches Ok(cycles) ==> {
            &&& r is Trap <==> now_nanos + creation.initial_rental_period_nanos > u64::MAX
            &&& !(r is Stop)
            &&& r matches Step::Proceed((c, a)) ==> c == creation && a@ == new_rental_agreement(
                creation,
                cycles,
                now_nanos,
            )
            &&& r is Proceed ==> *final(state) == *old(state)
            &&& r is Trap ==> final(state).same_but_locks(*old(state)) && final(state).locks()
                == old(state).locks().remove(creation.user_guard@).remove(creation.subnet_guard@)
        },
        final(state).conditions() == old(state).conditions(),
        final(state).requests() == old(state).requests(),
        final(state).request_order() == old(state).request_order(),
        final(state).agreements() == old(state).agreements(),
        final(state).agreement_order() == old(state).agreement_order(),
        final(state).counters() == old(state).counters(),
        final(state).history() == old(state).history(),
        final(state).rates() == old(state).rates(),
{
    let converted_cycles = match converted {
        Ok(c) => c,
        Err(e) => {
            creation.release(state);
            return Step::Stop(e);
        },
    };
    if now_nanos > u64::MAX - creation.initial_rental_period_nanos {
        creation.release(state);
        return Step::Trap(String::from_str("attempt to add with overflow"));
    }
    let total_cycles_created = converted_cycles.saturating_add(
        creation.rental_request.locked_amount_cycles,
    );
    let rental_agreement = RentalAgreement {
        user: creation.user.clone(),
        subnet_id: creation.subnet_id.clone(),
        rental_request_proposal_id: creation.rental_request.initial_proposal_id,
        subnet_creation_proposal_id: Some(creation.proposal_id),
        rental_condition_id: creation.rental_request.rental_condition_id,
        creation_time_nanos: now_nanos,
        paid_until_nanos: now_nanos + creation.initial_rental_period_nanos,
        total_icp_paid: creation.rental_request.initial_cost_icp,
        total_cycles_created,
        total_cycles_burned: 0,
    };
    Step::Proceed((creation, rental_agreement))
}

/// The last step, after the user was authorized on the subnet: remove the rental request
/// (which ends the monthly locking), record the rental agreement at `now_nanos`, and release
/// the guards. Traps, changing nothing, if the request is gone, the subnet is rented, or the
/// subnet's history is full.
pub fn create_rental_agreement_finish(
    state: &mut CanisterState,
    creation: AgreementCreation,
    rental_agreement: RentalAgreement,
    now_nanos: u64,
) -> (r: Step<(), ExecuteProposalError>)
    requires
        old(state).wf(),
    ensures
        final(state).wf(),
        !(r is Stop),
        r is Trap <==> !old(state).requests().contains_key(creation.user@)
            || old(state).agreements().contains_key(rental_agreement.subnet_id@) || old(
            state,
        ).event_count(Some(rental_agreement.subnet_id@)) == u64::MAX,
        r is Trap ==> final(state).same_but_locks(*old(state)) && final(state).locks() == old(
            state,
        ).locks().remove(creation.user_guard@).remove(creation.subnet_guard@),
        r is Proceed ==> {
            let subnet = rental_agreement.subnet_id@;
            &&& final(state).requests() == old(state).requests().remove(creation.user@)
            &&& final(state).request_order() == old(state).request_order().filter(
                |k: Seq<u8>| k != creation.user@,
            )
            &&& final(state).agreements() == old(state).agreements().insert(
                subnet,
                rental_agreement@,
            )
            &&& final(state).agreement_order() == old(state).agreement_order().push(subnet)
            &&& final(state).history() == old(state).history().insert(
                (Some(subnet), old(state).event_count(Some(subnet))),
                crate::history::EventView {
                    time_nanos: now_nanos,
                    event: crate::history::EventTypeView::RentalAgreementCreated {
                        user: rental_agreement.user@,
                        rental_request_proposal_id: rental_agreement.rental_request_proposal_id,
                        subnet_creation_proposal_id: rental_agreement.subnet_creation_proposal_id,
                        rental_condition_id: rental_agreement.rental_condition_id,
                    },
                },
            )
            &&& final(state).counters() == old(state).counters().insert(
                Some(subnet),
                (old(state).event_count(Some(subnet)) + 1) as u64,
            )
            &&& final(state).locks() == old(state).locks().remove(creation.user_guard@).remove(
                creation.subnet_guard@,
            )
        },
        final(state).conditions() == old(state).conditions(),
        final(state).rates() == old(state).rates(),
{
    if canister_state::get_rental_request(state, &creation.user).is_none() {
        creation.release(state);
        return Step::Trap(String::from_str("called `Option::unwrap()` on a `None` value"));
    }
    if get_rental_agreement(state, &rental_agreement.subnet_id).is_some() {
        creation.release(state);
        return Step::Trap(String::from_str("called `Result::unwrap()` on an `Err` value"));
    }
    let key = Some(rental_agreement.subnet_id.clone());
    if canister_state::get_current_seq(state, &key) == Some(u64::MAX - 1) {
        creation.release(state);
        return Step::Trap(String::from_str("attempt to add with overflow"));
    }
    let _ = canister_state::remove_rental_request(state, &creation.user);
    let _ = canister_state::persist_rental_agreement(state, rental_agreement, now_nanos);
    creation.release(state);
    Step::Proceed(())
}

} // verus!

verus! {

// ============================================================================
// Refunds

/// A refund in progress: the caller and the guards on refunds and on the caller's requests.
pub struct Refund {
    pub caller: Principal,
    pub refund_guard: CallerGuard,
    pub request_guard: CallerGuard,
}

impl Refund {
    /// Releases the guards.
    pub fn release(self, state: &mut CanisterState)
        requires
            old(state).wf(),
        ensures
            final(state).wf(),
            final(state).locks() == old(state).locks().remove(self.refund_guard@).remove(
                self.request_guard@,
            ),
            final(state).conditions() == old(state).conditions(),
            final(state).requests() == old(state).requests(),
            final(state).request_order() == old(state).request_order(),
            final(state).agreements() == old(state).agreements(),
            final(state).agreement_order() == old(state).agreement_order(),
            final(state).counters() == old(state).counters(),
            final(state).history() == old(state).history(),
            final(state).rates() == old(state).rates(),
    {
        self.refund_guard.release(state);
        self.request_guard.release(state);
    }
}

/// The lock that lets only one refund run at a time.
pub open spec fn refund_lock() -> (Seq<u8>, Seq<char>) {
    (anonymous_bytes(), "refund"@)
}

/// The message of a refund that finds another call in progress.
pub open spec fn busy_text() -> Seq<char> {
    "Busy processing another request. Try again."@
}

/// The first step of refunding the caller: one refund at a time, and none while the
/// caller's request is being processed.
pub fn refund_begin(state: &mut CanisterState, caller: Principal) -> (r: Step<Refund, String>)
    requires
        old(state).wf(),
    ensures
        final(state).wf(),
        !(r is Trap),
        ({
            let busy = old(state).locks().contains(refund_lock()) || old(state).locks().contains(
                request_lock(caller@),
            );
            &&& busy ==> (r matches Step::Stop(e) && e@ == busy_text())
            &&& busy ==> final(state).locks() == old(state).locks()
            &&& !busy ==> (r matches Step::Proceed(f) && f.caller@ == caller@ && f.refund_guard@
                == refund_lock() && f.request_guard@ == request_lock(caller@))
            &&& !busy ==> final(state).locks() == old(state).locks().insert(refund_lock()).insert(
                request_lock(caller@),
            )
        }),
        final(state).conditions() == old(state).conditions(),
        final(state).requests() == old(state).requests(),
        final(state).request_order() == old(state).request_order(),
        final(state).agreements() == old(state).agreements(),
        final(state).agreement_order() == old(state).agreement_order(),
        final(state).counters() == old(state).counters(),
        final(state).history() == old(state).history(),
        final(state).rates() == old(state).rates(),
{
    proof {
        reveal_strlit("refund");
        reveal_strlit("request");
        assert("refund"@.len() != "request"@.len());
        assert(refund_lock() != request_lock(caller@));
    }
    let ghost s0 = *state;
    let refund_guard = match CallerGuard::new(state, Principal::anonymous(), "refund") {
        Ok(g) => g,
        Err(_) => return Step::Stop(String::from_str("Busy processing another request. Try again.")),
    };
    let request_guard = match CallerGuard::new(state, caller.clone(), "request") {
        Ok(g) => g,
        Err(_) => {
            refund_guard.release(state);
            proof {
                assert(state.locks() =~= s0.locks());
            }
            return Step::Stop(String::from_str("Busy processing another request. Try again."));
        },
    };
    Step::Proceed(Refund { caller, refund_guard, request_guard })
}

/// The step after the balance of the caller's subaccount is known: all of it but the fee
/// is to be refunded, if it covers the fee. A refusal releases the guards.
pub fn refund_amount(state: &mut CanisterState, refund: Refund, balance: Tokens) -> (r: Step<
    (Refund, Tokens),
    String,
>)
    requires
        old(state).wf(),
    ensures
        final(state).wf(),
        !(r is Trap),
        balance.e8s < crate::types::spec_default_fee_e8s() ==> {
            &&& (r matches Step::Stop(e) && e@ == "Failed refund: "@
                + crate::principal::principal_text(refund.caller@) + " has insufficient funds "@
                + crate::text::icp_text(balance.e8s as nat))
            &&& final(state).locks() == old(state).locks().remove(refund.refund_guard@).remove(
                refund.request_guard@,
            )
        },
        balance.e8s >= crate::types::spec_default_fee_e8s() ==> {
            &&& (r matches Step::Proceed((f, a)) && f == refund && a.e8s == balance.e8s
                - crate::types::spec_default_fee_e8s())
            &&& *final(state) == *old(state)
        },
        final(state).conditions() == old(state).conditions(),
        final(state).requests() == old(state).requests(),
        final(state).request_order() == old(state).request_order(),
        final(state).agreements() == old(state).agreements(),
        final(state).agreement_order() == old(state).agreement_order(),
        final(state).counters() == old(state).counters(),
        final(state).history() == old(state).history(),
        final(state).rates() == old(state).rates(),
{
    let fee = crate::types::default_fee();
    if balance.e8s < fee.e8s {
        let caller = refund.caller.to_text();
        let amount = crate::text::icp_string(balance.e8s);
        let mut message = concat3("Failed refund: ", caller.as_str(), " has insufficient funds ");
        message.append(amount.as_str());
        refund.release(state);
        return Step::Stop(message);
    }
    Step::Proceed((refund, balance.minus(fee)))
}

/// What a completed refund leads to: the ledger block of the refund, and the cycles locked
/// for the caller's cancelled rental request, which are to be burned.
#[derive(Debug, Clone, Copy, PartialEq, Eq)]
pub struct RefundOutcome {
    pub block_index: u64,
    pub cycles_to_burn: Option<u128>,
}

/// The last step, after the ledger transfer of the refund (or its failure), at `now_nanos`:
/// a cancelled rental request of the caller is removed and recorded, and the guards are
/// released. Traps, changing nothing, if the caller's history is full.
pub fn refund_finish(
    state: &mut CanisterState,
    refund: Refund,
    amount: Tokens,
    transfer: Result<u64, String>,
    now_nanos: u64,
) -> (r: Step<RefundOutcome, String>)
    requires
        old(state).wf(),
    ensures
        final(state).wf(),
        transfer matches Err(e) ==> {
            &&& (r matches Step::Stop(m) && m@ == "Failed to refund "@ + crate::text::icp_text(
                amount.e8s as nat,
            ) + " ICP to "@ + crate::principal::principal_text(refund.caller@) + ": "@ + e@)
            &&& final(state).locks() == old(state).locks().remove(refund.refund_guard@).remove(
                refund.request_guard@,
            )
            &&& final(state).same_but_locks(*old(state))
        },
        transfer matches Ok(block_index) ==> {
            let caller = refund.caller@;
            let had_request = old(state).requests().contains_key(caller);
            &&& !(r is Stop)
            &&& r is Trap <==> had_request && old(state).event_count(Some(caller)) == u64::MAX
            &&& r is Trap ==> final(state).same_but_locks(*old(state)) && final(state).locks()
                == old(state).locks().remove(refund.refund_guard@).remove(refund.request_guard@)
            &&& r matches Step::Proceed(o) ==> {
                &&& o.block_index == block_index
                &&& final(state).locks() == old(state).locks().remove(refund.refund_guard@).remove(
                    refund.request_guard@,
                )
                &&& had_request ==> {
                    let q = old(state).requests()[caller];
                    &&& o.cycles_to_burn == Some(q.locked_amount_cycles)
                    &&& final(state).requests() == old(state).requests().remove(caller)
                    &&& final(state).request_order() == old(state).request_order().filter(
                        |k: Seq<u8>| k != refund.caller@,
                    )
                    &&& final(state).history() == old(state).history().insert(
                        (Some(caller), old(state).event_count(Some(caller))),
                        crate::history::EventView {
                            time_nanos: now_nanos,
                            event: crate::history::EventTypeView::RentalRequestCancelled {
                                rental_request: q,
                            },
                        },
                    )
                    &&& final(state).counters() == old(state).counters().insert(
                        Some(caller),
                        (old(state).event_count(Some(caller)) + 1) as u64,
                    )
                }
                &&& !had_request ==> o.cycles_to_burn is None && final(state).same_but_locks(
                    *old(state),
                )
            }
        },
        final(state).conditions() == old(state).conditions(),
        final(state).agreements() == old(state).agreements(),
        final(state).agreement_order() == old(state).agreement_order(),
        final(state).rates() == old(state).rates(),
{
    let block_index = match transfer {
        Ok(b) => b,
        Err(e) => {
            let amount_text = crate::text::icp_string(amount.e8s);
            let caller = refund.caller.to_text();
            let mut message = concat3("Failed to refund ", amount_text.as_str(), " ICP to ");
            message.append(caller.as_str());
            message.append(": ");
            message.append(e.as_str());
            refund.release(state);
            return Step::Stop(message);
        },
    };
    let cycles_to_burn = match canister_state::get_rental_request(state, &refund.caller) {
        Some(rental_request) => {
            let key = Some(refund.caller.clone());
            if canister_state::get_current_seq(state, &key) == Some(u64::MAX - 1) {
                refund.release(state);
                return Step::Trap(String::from_str("attempt to add with overflow"));
            }
            let locked = rental_request.locked_amount_cycles;
            let _ = canister_state::remove_rental_request(state, &refund.caller);
            canister_state::persist_event(
                state,
                Event::new(
                    now_nanos,
                    crate::history::EventType::RentalRequestCancelled { rental_request },
                ),
                key,
            );
            Some(locked)
        },
        None => None,
    };
    refund.release(state);
    Step::Proceed(RefundOutcome { block_index, cycles_to_burn })
}

} // verus!

verus! {

// ============================================================================
// Top-ups

/// A top-up in progress: the subnet, its agreement as found at the start, and the guard on
/// the agreement.
pub struct TopUp {
    pub subnet_id: Principal,
    pub rental_agreement: RentalAgreement,
    pub guard: CallerGuard,
}

/// The lock that calls changing an agreement take on its subnet.
pub open spec fn agreement_lock(subnet: Seq<u8>) -> (Seq<u8>, Seq<char>) {
    (subnet, "agreement"@)
}

/// The first step of topping up a rented subnet with what its user paid in: take the guard
/// on the agreement and find it.
pub fn top_up_subnet_begin(state: &mut CanisterState, subnet_id: Principal) -> (r: Step<TopUp, String>)
    requires
        old(state).wf(),
    ensures
        final(state).wf(),
        !(r is Trap),
        old(state).locks().contains(agreement_lock(subnet_id@)) ==> (r matches Step::Stop(e) && e@
            == "Concurrent call, aborting"@),
        !old(state).locks().contains(agreement_lock(subnet_id@)) && !old(
            state,
        ).agreements().contains_key(subnet_id@) ==> (r matches Step::Stop(e) && e@
            == "Rental agreement not found"@),
        r is Stop ==> final(state).locks() == old(state).locks(),
        !old(state).locks().contains(agreement_lock(subnet_id@)) && old(
            state,
        ).agreements().contains_key(subnet_id@) ==> {
            &&& (r matches Step::Proceed(t) && t.subnet_id@ == subnet_id@ && t.rental_agreement@
                == old(state).agreements()[subnet_id@] && t.guard@ == agreement_lock(subnet_id@))
            &&& final(state).locks() == old(state).locks().insert(agreement_lock(subnet_id@))
        },
        final(state).conditions() == old(state).conditions(),
        final(state).requests() == old(state).requests(),
        final(state).request_order() == old(state).request_order(),
        final(state).agreements() == old(state).agreements(),
        final(state).agreement_order() == old(state).agreement_order(),
        final(state).counters() == old(state).counters(),
        final(state).history() == old(state).history(),
        final(state).rates() == old(state).rates(),
{
    let ghost s0 = *state;
    let guard = match CallerGuard::new(state, subnet_id.clone(), "agreement") {
        Ok(g) => g,
        Err(_) => return Step::Stop(String::from_str("Concurrent call, aborting")),
    };
    match get_rental_agreement(state, &subnet_id) {
        Some(rental_agreement) => Step::Proceed(TopUp { subnet_id, rental_agreement, guard }),
        None => {
            guard.release(state);
            proof {
                assert(state.locks() =~= s0.locks());
            }
            Step::Stop(String::from_str("Rental agreement not found"))
        },
    }
}

/// The step after the balance of the user's subaccount is known: all of it but the fee is
/// to be converted to cycles, if it covers the fee. A refusal releases the guard.
pub fn top_up_subnet_amount(state: &mut CanisterState, top_up: TopUp, balance: Tokens) -> (r: Step<
    (TopUp, Tokens),
    String,
>)
    requires
        old(state).wf(),
    ensures
        final(state).wf(),
        !(r is Trap),
        balance.e8s < crate::types::spec_default_fee_e8s() ==> {
            &&& (r matches Step::Stop(e) && e@ == "Failed to top up: "@
                + crate::principal::principal_text(top_up.rental_agreement@.user)
                + " has insufficient funds "@ + crate::text::icp_text(balance.e8s as nat))
            &&& final(state).locks() == old(state).locks().remove(top_up.guard@)
        },
        balance.e8s >= crate::types::spec_default_fee_e8s() ==> {
            &&& (r matches Step::Proceed((t, a)) && t == top_up && a.e8s == balance.e8s
                - crate::types::spec_default_fee_e8s())
            &&& *final(state) == *old(state)
        },
        final(state).conditions() == old(state).conditions(),
        final(state).requests() == old(state).requests(),
        final(state).request_order() == old(state).request_order(),
        final(state).agreements() == old(state).agreements(),
        final(state).agreement_order() == old(state).agreement_order(),
        final(state).counters() == old(state).counters(),
        final(state).history() == old(state).history(),
        final(state).rates() == old(state).rates(),
{
    let fee = crate::types::default_fee();
    if balance.e8s < fee.e8s {
        let user = top_up.rental_agreement.user.to_text();
        let amount = crate::text::icp_string(balance.e8s);
        let mut message = concat3("Failed to top up: ", user.as_str(), " has insufficient funds ");
        message.append(amount.as_str());
        top_up.guard.release(state);
        return Step::Stop(message);
    }
    Step::Proceed((top_up, balance.minus(fee)))
}

/// The whole seconds of rent that `cycles` pay for at `daily_cost_cycles` per day (the
/// cost truncated to whole cycles per second).
pub open spec fn seconds_paid(cycles: u128, daily_cost_cycles: u128) -> int {
    (cycles / (daily_cost_cycles / 86400)) as int
}

/// The whole days of rent that a top-up of `cycles` adds at `daily_cost_cycles` per day:
/// the whole seconds paid, in days.
pub open spec fn top_up_days(cycles: u128, daily_cost_cycles: u128) -> u64 {
    (seconds_paid(cycles, daily_cost_cycles) / 86400) as u64
}

/// The whole days of rent that an estimate of `cycles` announces at `daily_cost_cycles`
/// per day.
pub open spec fn estimated_days(cycles: int, daily_cost_cycles: u128) -> u64 {
    (cycles / daily_cost_cycles as int) as u64
}

/// A top-up adds at least the days that its estimate announced for the same cycles, and
/// exactly those days when the daily cost is a whole number of cycles per second. So when
/// the cycles minting canister converts at the rate of the estimate, the top-up adds the
/// estimate's cycles (`top_up_subnet_finish` adds what the conversion gave) and, for such
/// a daily cost, the estimate's days, which are then the cycles divided by the daily cost.
pub proof fn lemma_top_up_matches_estimate(cycles: u128, daily_cost_cycles: u128)
    requires
        daily_cost_cycles >= 86400,
        cycles / 86400 <= u64::MAX,
    ensures
        top_up_days(cycles, daily_cost_cycles) >= estimated_days(cycles as int, daily_cost_cycles),
        daily_cost_cycles % 86400 == 0 ==> top_up_days(cycles, daily_cost_cycles) == estimated_days(
            cycles as int,
            daily_cost_cycles,
        ) && top_up_days(cycles, daily_cost_cycles) == cycles / daily_cost_cycles,
{
    let q: int = (daily_cost_cycles / 86400) as int;
    let c: int = cycles as int;
    let d: int = daily_cost_cycles as int;
    assert(q >= 1) by {
        vstd::arithmetic::div_mod::lemma_div_is_ordered(86400, d, 86400);
    }
    vstd::arithmetic::div_mod::lemma_div_denominator(c, q, 86400);
    assert(q * 86400 <= d) by {
        vstd::arithmetic::div_mod::lemma_fundamental_div_mod(d, 86400);
    }
    vstd::arithmetic::div_mod::lemma_div_is_ordered_by_denominator(c, q * 86400, d);
    vstd::arithmetic::div_mod::lemma_div_pos_is_pos(c, d);
    assert(c / d <= c) by {
        vstd::arithmetic::div_mod::lemma_div_is_ordered_by_denominator(c, 1, d);
    }
    assert(c / (q * 86400) <= c / 86400) by {
        vstd::arithmetic::div_mod::lemma_div_is_ordered_by_denominator(c, 86400, q * 86400);
    }
    assert(seconds_paid(cycles, daily_cost_cycles) == c / q);
    assert(seconds_paid(cycles, daily_cost_cycles) / 86400 == c / (q * 86400));
    assert(top_up_days(cycles, daily_cost_cycles) == c / (q * 86400));
    assert(estimated_days(c, daily_cost_cycles) == c / d);
    if d % 86400 == 0 {
        assert(q * 86400 == d) by {
            vstd::arithmetic::div_mod::lemma_fundamental_div_mod(d, 86400);
        }
    }
}

/// `paid_until_nanos` extended by `seconds`, saturating at `u64::MAX`.
pub open spec fn extended_paid_until(paid_until_nanos: u64, seconds: int) -> u64 {
    if paid_until_nanos + seconds * 1_000_000_000 > u64::MAX {
        u64::MAX
    } else {
        (paid_until_nanos + seconds * 1_000_000_000) as u64
    }
}

/// The agreement after a top-up that converted `balance` (minus the fee) to `cycles` at the
/// daily cost `daily`, from the agreement `a` found at the start and the current total paid.
pub open spec fn topped_up_agreement(
    start: crate::RentalAgreementView,
    current: crate::RentalAgreementView,
    balance: Tokens,
    cycles: u128,
    daily: u128,
) -> crate::RentalAgreementView {
    crate::RentalAgreementView {
        total_cycles_created: if start.total_cycles_created + cycles > u128::MAX {
            u128::MAX
        } else {
            (start.total_cycles_created + cycles) as u128
        },
        total_icp_paid: Tokens { e8s: (current.total_icp_paid.e8s + balance.e8s) as u64 },
        paid_until_nanos: extended_paid_until(start.paid_until_nanos, seconds_paid(cycles, daily)),
        ..current
    }
}

/// A top-up extends the paid period by exactly the whole seconds the cycles pay for at the
/// daily cost truncated to whole cycles per second, not rounded to days: the extension is
/// a whole number of seconds `n` with `n` seconds costing at most the cycles and `n + 1`
/// seconds costing more (unless the period saturates at `u64::MAX`).
pub proof fn lemma_top_up_extends_by_seconds_paid(
    start: crate::RentalAgreementView,
    current: crate::RentalAgreementView,
    balance: Tokens,
    cycles: u128,
    daily: u128,
)
    requires
        daily >= 86400,
    ensures
        ({
            let per_second: int = (daily / 86400) as int;
            let new_paid = topped_up_agreement(start, current, balance, cycles, daily).paid_until_nanos;
            start.paid_until_nanos + ((cycles as int) / per_second) * 1_000_000_000 <= u64::MAX ==> {
                let extension: int = new_paid - start.paid_until_nanos;
                &&& new_paid == start.paid_until_nanos + ((cycles as int) / per_second) * 1_000_000_000
                &&& extension % 1_000_000_000 == 0
                &&& (extension / 1_000_000_000) * per_second <= cycles
                &&& cycles < (extension / 1_000_000_000 + 1) * per_second
            }
        }),
{
    let q: int = (daily / 86400) as int;
    let c: int = cycles as int;
    assert(q >= 1) by {
        vstd::arithmetic::div_mod::lemma_div_is_ordered(86400, daily as int, 86400);
    }
    let n: int = c / q;
    vstd::arithmetic::div_mod::lemma_fundamental_div_mod(c, q);
    vstd::arithmetic::div_mod::lemma_mod_bound(c, q);
    vstd::arithmetic::div_mod::lemma_div_pos_is_pos(c, q);
    assert(seconds_paid(cycles, daily) == n);
    if start.paid_until_nanos + n * 1_000_000_000 <= u64::MAX {
        let e: int = n * 1_000_000_000;
        assert(e >= 0) by (nonlinear_arith)
            requires
                n >= 0,
                e == n * 1_000_000_000,
        ;
        vstd::arithmetic::div_mod::lemma_mod_multiples_basic(n, 1_000_000_000);
        vstd::arithmetic::div_mod::lemma_div_multiples_vanish(n, 1_000_000_000);
        assert(e / 1_000_000_000 == n);
        assert(n * q <= c && c < (n + 1) * q) by (nonlinear_arith)
            requires
                c == q * n + c % q,
                0 <= c % q < q,
        ;
    }
}

/// A top-up never shortens the paid period: the agreement is paid at least until it was
/// before (for a daily cost of at least one cycle per second).
pub proof fn lemma_top_up_never_shortens(
    start: crate::RentalAgreementView,
    current: crate::RentalAgreementView,
    balance: Tokens,
    cycles: u128,
    daily: u128,
)
    requires
        daily >= 86400,
    ensures
        topped_up_agreement(start, current, balance, cycles, daily).paid_until_nanos
            >= start.paid_until_nanos,
{
    assert(daily / 86400 >= 1) by {
        vstd::arithmetic::div_mod::lemma_div_is_ordered(86400, daily as int, 86400);
    }
    assert(seconds_paid(cycles, daily) >= 0) by {
        vstd::arithmetic::div_mod::lemma_div_pos_is_pos(cycles as int, (daily / 86400) as int);
    }
    assert(seconds_paid(cycles, daily) * 1_000_000_000 >= 0) by (nonlinear_arith)
        requires
            seconds_paid(cycles, daily) >= 0,
    ;
}

/// The last step of a top-up, after the conversion of `balance` minus the fee to cycles (or
/// its failure): extend the agreement by the whole seconds the cycles pay for, add the
/// cycles and the ICP to its totals, and release the guard. Traps, changing nothing, if the
/// rental conditions are unknown, cost less than a cycle per second, the total paid
/// overflows, or the agreement is gone.
pub fn top_up_subnet_finish(
    state: &mut CanisterState,
    top_up: TopUp,
    balance: Tokens,
    converted: Result<u128, String>,
) -> (r: Step<crate::TopUpSummary, String>)
    requires
        old(state).wf(),
    ensures
        final(state).wf(),
        converted matches Err(e) ==> {
            &&& (r matches Step::Stop(m) && m@ == "Failed to convert ICP to cycles: "@ + e@)
            &&& final(state).locks() == old(state).locks().remove(top_up.guard@)
            &&& final(state).agreements() == old(state).agreements()
        },
        converted matches Ok(cycles) ==> {
            let subnet = top_up.subnet_id@;
            let start = top_up.rental_agreement@;
            let id = start.rental_condition_id;
            let daily = old(state).conditions()[id].daily_cost_cycles;
            let current = old(state).agreements()[subnet];
            let days = top_up_days(cycles, daily);
            &&& !(r is Stop)
            &&& r is Trap <==> !old(state).conditions().contains_key(id) || daily < 86400
                || !old(state).agreements().contains_key(subnet) || current.total_icp_paid.e8s
                + balance.e8s > u64::MAX
            &&& r is Trap ==> final(state).same_but_locks(*old(state)) && final(state).locks()
                == old(state).locks().remove(top_up.guard@)
            &&& r matches Step::Proceed(s) ==> {
                &&& s.cycles_added == cycles
                &&& s.days_added == days
                &&& s.description@ == "Topped up subnet "@ + crate::principal::principal_text(
                    subnet,
                ) + " with "@ + crate::text::icp_text(balance.e8s as nat)
                    + " ICP corresponding to "@ + decimal(cycles as nat)
                    + " cycles, extending the rental agreement by "@ + decimal(days as nat)
                    + " days"@
                &&& final(state).agreements() == old(state).agreements().insert(
                    subnet,
                    topped_up_agreement(start, current, balance, cycles, daily),
                )
                &&& final(state).locks() == old(state).locks().remove(top_up.guard@)
            }
        },
        final(state).conditions() == old(state).conditions(),
        final(state).requests() == old(state).requests(),
        final(state).request_order() == old(state).request_order(),
        final(state).agreement_order() == old(state).agreement_order(),
        final(state).counters() == old(state).counters(),
        final(state).history() == old(state).history(),
        final(state).rates() == old(state).rates(),
{
    proof {
        reveal_strlit("");
    }
    let actual_cycles = match converted {
        Ok(c) => c,
        Err(e) => {
            top_up.guard.release(state);
            return Step::Stop(concat3("Failed to convert ICP to cycles: ", e.as_str(), ""));
        },
    };
    let TopUp { subnet_id, rental_agreement, guard } = top_up;
    let daily_cost_cycles = match canister_state::get_rental_conditions(
        state,
        rental_agreement.rental_condition_id,
    ) {
        Some(c) => c.daily_cost_cycles,
        None => {
            guard.release(state);
            return Step::Trap(String::from_str("Fatal: Rental Condition not found"));
        },
    };
    let cost_cycles_per_second = daily_cost_cycles / (SECONDS_PER_DAY as u128);
    if cost_cycles_per_second == 0 {
        guard.release(state);
        return Step::Trap(String::from_str("attempt to divide by zero"));
    }
    let current = match get_rental_agreement(state, &subnet_id) {
        Some(a) => a,
        None => {
            guard.release(state);
            return Step::Trap(String::from_str("called `Result::unwrap()` on an `Err` value"));
        },
    };
    if current.total_icp_paid.e8s > u64::MAX - balance.e8s {
        guard.release(state);
        return Step::Trap(String::from_str("Tokens overflow"));
    }
    let seconds_charged = actual_cycles / cost_cycles_per_second;
    let nanos_charged: u128 = if seconds_charged > u128::MAX / (BILLION as u128) {
        u128::MAX
    } else {
        seconds_charged * (BILLION as u128)
    };
    let new_paid_until_nanos: u64 = if nanos_charged > (u64::MAX - rental_agreement.paid_until_nanos) as u128 {
        u64::MAX
    } else {
        rental_agreement.paid_until_nanos + nanos_charged as u64
    };
    let new_total_cycles_created = rental_agreement.total_cycles_created.saturating_add(
        actual_cycles,
    );
    let days_added = (seconds_charged / (SECONDS_PER_DAY as u128)) as u64;
    let update = |a: RentalAgreement| -> (r: RentalAgreement)
        requires
            a.total_icp_paid.e8s + balance.e8s <= u64::MAX,
        ensures
            r@ == (crate::RentalAgreementView {
                total_cycles_created: new_total_cycles_created,
                total_icp_paid: Tokens { e8s: (a.total_icp_paid.e8s + balance.e8s) as u64 },
                paid_until_nanos: new_paid_until_nanos,
                ..a@
            }),
        {
            let mut a = a;
            a.total_cycles_created = new_total_cycles_created;
            a.total_icp_paid = a.total_icp_paid.plus(balance);
            a.paid_until_nanos = new_paid_until_nanos;
            a
        };
    let _ = canister_state::update_rental_agreement(state, subnet_id.clone(), update);
    guard.release(state);
    let subnet_text = subnet_id.to_text();
    let icp_text = crate::text::icp_string(balance.e8s);
    let cycles_text = decimal_string(actual_cycles);
    let days_text = decimal_string(days_added as u128);
    let mut description = concat3("Topped up subnet ", subnet_text.as_str(), " with ");
    description.append(icp_text.as_str());
    description.append(" ICP corresponding to ");
    description.append(cycles_text.as_str());
    description.append(" cycles, extending the rental agreement by ");
    description.append(days_text.as_str());
    description.append(" days");
    Step::Proceed(
        crate::TopUpSummary { description, cycles_added: actual_cycles, days_added },
    )
}

} // verus!

verus! {

/// The cycles that `icp` would buy at `rate / 10^decimals` XDR per ICP, after the fees of
/// the payment to the canister and of the transfer to the cycles minting canister.
pub open spec fn estimated_cycles(icp: Tokens, rate: u64, decimals: u32) -> int {
    ((icp.e8s - 2 * crate::types::spec_default_fee_e8s()) * rate) / (pow10(decimals as nat)
        / 10_000) as int
}

/// The first step of estimating a top-up of a rented subnet at `now_nanos`: the agreement's
/// rental condition, and the UTC midnight whose exchange rate is to be used.
pub fn subnet_top_up_estimate_begin(state: &CanisterState, subnet_id: &Principal, now_nanos: u64) -> (r:
    Step<(RentalConditionId, u64), String>)
    requires
        state.wf(),
    ensures
        !(r is Trap),
        !state.agreements().contains_key(subnet_id@) ==> (r matches Step::Stop(e) && e@
            == "Rental agreement not found"@),
        state.agreements().contains_key(subnet_id@) ==> r == Step::<(RentalConditionId, u64), String>::Proceed(
            (
                state.agreements()[subnet_id@].rental_condition_id,
                ((now_nanos / BILLION) - (now_nanos / BILLION) % 86400) as u64,
            ),
        ),
{
    match get_rental_agreement(state, subnet_id) {
        Some(a) => Step::Proceed(
            (a.rental_condition_id, round_to_previous_midnight(now_nanos / BILLION)),
        ),
        None => Step::Stop(String::from_str("Rental agreement not found")),
    }
}

/// The last step of estimating how many cycles and days `icp` would add to the rental of
/// `subnet_id`, once the exchange rate is known (or its query failed). Traps if `icp` does not
/// cover both fees, the rate has fewer than 4 or more than 38 decimals, or the daily cost
/// is 0.
pub fn subnet_top_up_estimate_finish(
    state: &CanisterState,
    subnet_id: &Principal,
    rental_condition_id: RentalConditionId,
    icp: Tokens,
    rate: Result<(u64, u32), String>,
) -> (r: Step<crate::TopUpSummary, String>)
    requires
        state.wf(),
    ensures
        rate is Err ==> (r matches Step::Stop(e) && e@ == "Failed to get exchange rate"@),
        rate matches Ok((scaled, decimals)) ==> {
            let fee = crate::types::spec_default_fee_e8s();
            let cycles = estimated_cycles(icp, scaled, decimals);
            let known = state.conditions().contains_key(rental_condition_id);
            let daily = state.conditions()[rental_condition_id].daily_cost_cycles;
            &&& icp.e8s < fee ==> (r matches Step::Stop(e) && e@ == "Must top up more than "@
                + crate::text::icp_text(fee as nat) + " ICP to cover the default fee"@)
            &&& r is Trap <==> icp.e8s >= fee && (icp.e8s < 2 * fee || decimals > 38 || decimals
                < 4 || (known && daily == 0))
            &&& icp.e8s >= fee && !(r is Trap) && !known ==> (r matches Step::Stop(e) && e@
                == "Rental condition not found"@)
            &&& icp.e8s >= fee && !(r is Trap) && known ==> r is Proceed
            &&& r matches Step::Proceed(s) ==> {
                let days = estimated_days(cycles, daily);
                &&& s.cycles_added == cycles
                &&& s.days_added == days
                &&& s.description@ == "Estimate: "@ + crate::text::icp_text(icp.e8s as nat)
                    + " ICP would provide approximately "@ + decimal(cycles as nat)
                    + " cycles, extending the rental for subnet "@
                    + crate::principal::principal_text(subnet_id@) + " for about "@ + decimal(
                    days as nat,
                )
                    + " days. Note that this is an estimate and the actual amount will vary."@
            }
        },
{
    let (scaled, decimals) = match rate {
        Ok(v) => v,
        Err(_) => return Step::Stop(String::from_str("Failed to get exchange rate")),
    };
    let fee = crate::types::default_fee();
    if icp.e8s < fee.e8s {
        let fee_text = crate::text::icp_string(fee.e8s);
        return Step::Stop(
            concat3("Must top up more than ", fee_text.as_str(), " ICP to cover the default fee"),
        );
    }
    if icp.e8s - fee.e8s < fee.e8s {
        return Step::Trap(String::from_str("Tokens underflow"));
    }
    if decimals > 38 {
        return Step::Trap(String::from_str("attempt to multiply with overflow"));
    }
    if decimals < 4 {
        return Step::Trap(String::from_str("attempt to divide by zero"));
    }
    let to_be_topped_up = icp.minus(fee);
    let scale = pow10_u128(decimals) / 10_000;
    proof {
        crate::text::lemma_pow10_monotone(4, decimals as nat);
        reveal_with_fuel(pow10, 5);
        assert(pow10(4) == 10_000);
        let x: int = (to_be_topped_up.e8s - fee.e8s) as int;
        let y: int = scaled as int;
        assert(x * y <= 18446744073709551615 * 18446744073709551615) by (nonlinear_arith)
            requires
                0 <= x <= 18446744073709551615,
                0 <= y <= 18446744073709551615,
        ;
    }
    let estimated = (to_be_topped_up.minus(fee).e8s as u128) * (scaled as u128) / scale;
    let daily_cost_cycles = match canister_state::get_rental_conditions(state, rental_condition_id) {
        Some(c) => c.daily_cost_cycles,
        None => return Step::Stop(String::from_str("Rental condition not found")),
    };
    if daily_cost_cycles == 0 {
        return Step::Trap(String::from_str("attempt to divide by zero"));
    }
    let estimated_days = (estimated / daily_cost_cycles) as u64;
    let icp_text = crate::text::icp_string(icp.e8s);
    let cycles_text = decimal_string(estimated);
    let subnet_text = subnet_id.to_text();
    let days_text = decimal_string(estimated_days as u128);
    let mut description = concat3("Estimate: ", icp_text.as_str(), " ICP would provide approximately ");
    description.append(cycles_text.as_str());
    description.append(" cycles, extending the rental for subnet ");
    description.append(subnet_text.as_str());
    description.append(" for about ");
    description.append(days_text.as_str());
    description.append(" days. Note that this is an estimate and the actual amount will vary.");
    Step::Proceed(
        crate::TopUpSummary { description, cycles_added: estimated, days_added: estimated_days },
    )
}

} // verus!

verus! {

// ============================================================================
// Monthly locking of 10% of the initial cost

/// The whole days from `last_nanos` to `now_nanos`, as the division chain of the locking
/// timer computes them.
pub open spec fn days_between(last_nanos: u64, now_nanos: u64) -> int {
    (now_nanos - last_nanos) / 1_000_000_000 / 60 / 60 / 24
}

/// Whether a rental request has locked its whole initial cost (as ten times the tenth).
pub open spec fn fully_locked(q: crate::RentalRequestView) -> bool {
    q.locked_amount_icp.e8s >= (q.initial_cost_icp.e8s / 10) * 10
}

/// The first step of the locking timer at `now_nanos` for one rental request (as listed at
/// the timer's start): lock another 10% of the initial cost if the last locking was 30 days
/// ago or more, the cost is not fully locked yet, and no other call holds the user's lock.
/// Traps if the last locking lies after `now_nanos`.
pub fn locking_begin(state: &mut CanisterState, rental_request: &RentalRequest, now_nanos: u64) -> (r:
    Step<(CallerGuard, Tokens), ()>)
    requires
        old(state).wf(),
    ensures
        final(state).wf(),
        ({
            let q = rental_request@;
            let due = now_nanos >= q.last_locking_time_nanos && days_between(
                q.last_locking_time_nanos,
                now_nanos,
            ) >= 30 && !fully_locked(q);
            &&& r is Trap <==> now_nanos < q.last_locking_time_nanos
            &&& r is Proceed <==> due && !old(state).locks().contains(request_lock(q.user))
            &&& r matches Step::Proceed((g, amount)) ==> g@ == request_lock(q.user) && amount.e8s
                == q.initial_cost_icp.e8s / 10 && final(state).locks() == old(state).locks().insert(
                request_lock(q.user),
            )
            &&& !(r is Proceed) ==> final(state).locks() == old(state).locks()
        }),
        final(state).conditions() == old(state).conditions(),
        final(state).requests() == old(state).requests(),
        final(state).request_order() == old(state).request_order(),
        final(state).agreements() == old(state).agreements(),
        final(state).agreement_order() == old(state).agreement_order(),
        final(state).counters() == old(state).counters(),
        final(state).history() == old(state).history(),
        final(state).rates() == old(state).rates(),
{
    if now_nanos < rental_request.last_locking_time_nanos {
        return Step::Trap(String::from_str("attempt to subtract with overflow"));
    }
    let days_since_last_locking = (now_nanos - rental_request.last_locking_time_nanos) / BILLION
        / 60 / 60 / 24;
    if days_since_last_locking < 30 {
        return Step::Stop(());
    }
    let ten_percent_icp = Tokens::from_e8s(rental_request.initial_cost_icp.e8s / 10);
    if rental_request.locked_amount_icp.e8s >= ten_percent_icp.e8s * 10 {
        return Step::Stop(());
    }
    match CallerGuard::new(state, rental_request.user.clone(), "request") {
        Ok(guard) => Step::Proceed((guard, ten_percent_icp)),
        Err(_) => Step::Stop(()),
    }
}

/// The rental request after a successful locking of `amount` ICP into `cycles` at
/// `now_nanos`.
pub open spec fn locked_request(
    q: crate::RentalRequestView,
    amount: Tokens,
    cycles: u128,
    now_nanos: u64,
) -> crate::RentalRequestView {
    crate::RentalRequestView {
        locked_amount_icp: Tokens { e8s: (q.locked_amount_icp.e8s + amount.e8s) as u64 },
        locked_amount_cycles: (q.locked_amount_cycles + cycles) as u128,
        last_locking_time_nanos: now_nanos,
        ..q
    }
}

/// Locking never locks more than the initial cost. A request locks a tenth of its initial
/// cost when it is made and another tenth at each locking, so its locked amount is a whole
/// number of tenths, at most ten; locking a tenth while it is not fully locked (as
/// `locking_begin` requires) keeps it so, and ten tenths are at most the initial cost.
pub proof fn lemma_locking_stays_within_initial_cost(
    q: crate::RentalRequestView,
    amount: Tokens,
    cycles: u128,
    now_nanos: u64,
)
    requires
        q.initial_cost_icp.e8s / 10 > 0 ==> q.locked_amount_icp.e8s % (q.initial_cost_icp.e8s / 10)
            == 0,
        q.locked_amount_icp.e8s <= (q.initial_cost_icp.e8s / 10) * 10,
        !fully_locked(q),
        amount.e8s == q.initial_cost_icp.e8s / 10,
    ensures
        ({
            let r = locked_request(q, amount, cycles, now_nanos);
            let tenth = r.initial_cost_icp.e8s / 10;
            &&& r.initial_cost_icp == q.initial_cost_icp
            &&& r.locked_amount_icp.e8s == q.locked_amount_icp.e8s + tenth
            &&& r.locked_amount_icp.e8s % tenth == 0
            &&& r.locked_amount_icp.e8s <= tenth * 10
            &&& tenth * 10 <= r.initial_cost_icp.e8s
        }),
{
    let t: int = (q.initial_cost_icp.e8s / 10) as int;
    let l: int = q.locked_amount_icp.e8s as int;
    assert(t > 0);
    let k = l / t;
    assert(l == k * t) by (nonlinear_arith)
        requires
            t > 0,
            l % t == 0,
            k == l / t,
    ;
    assert(k < 10) by (nonlinear_arith)
        requires
            l == k * t,
            l < t * 10,
            t > 0,
    ;
    assert((l + t) % t == 0 && l + t <= t * 10) by (nonlinear_arith)
        requires
            l == k * t,
            k < 10,
            t > 0,
            k >= 0,
    ;
    assert(t * 10 <= q.initial_cost_icp.e8s);
}

/// The last step of locking for one rental request, after the conversion of `amount` ICP to
/// cycles (or its failure): record the outcome in the user's history at `event_time_nanos`,
/// update the request as of the timer's start `now_nanos` on success, and release the guard.
/// Traps, changing nothing, if the user's history is full, the locked totals overflow, or
/// the request is gone.
pub fn locking_finish(
    state: &mut CanisterState,
    guard: CallerGuard,
    rental_request: RentalRequest,
    amount: Tokens,
    converted: Result<u128, String>,
    now_nanos: u64,
    event_time_nanos: u64,
) -> (r: Step<(), ()>)
    requires
        old(state).wf(),
    ensures
        final(state).wf(),
        !(r is Stop),
        ({
            let q = rental_request@;
            let user = q.user;
            let count = old(state).event_count(Some(user));
            &&& converted matches Err(reason) ==> {
                &&& r is Trap <==> count == u64::MAX
                &&& r is Proceed ==> final(state).history() == old(state).history().insert(
                    (Some(user), count),
                    crate::history::EventView {
                        time_nanos: event_time_nanos,
                        event: crate::history::EventTypeView::LockingFailure {
                            user,
                            reason: reason@,
                        },
                    },
                ) && final(state).requests() == old(state).requests()
            }
            &&& converted matches Ok(cycles) ==> {
                &&& r is Trap <==> count == u64::MAX || q.locked_amount_icp.e8s + amount.e8s
                    > u64::MAX || q.locked_amount_cycles + cycles > u128::MAX || !old(
                    state,
                ).requests().contains_key(user)
                &&& r is Proceed ==> final(state).history() == old(state).history().insert(
                    (Some(user), count),
                    crate::history::EventView {
                        time_nanos: event_time_nanos,
                        event: crate::history::EventTypeView::LockingSuccess {
                            user,
                            amount,
                            cycles,
                        },
                    },
                ) && final(state).requests() == old(state).requests().insert(
                    user,
                    locked_request(q, amount, cycles, now_nanos),
                )
            }
            &&& r is Proceed ==> final(state).counters() == old(state).counters().insert(
                Some(user),
                (count + 1) as u64,
            ) && final(state).locks() == old(state).locks().remove(guard@)
            &&& r is Trap ==> final(state).same_but_locks(*old(state)) && final(state).locks()
                == old(state).locks().remove(guard@)
        }),
        final(state).conditions() == old(state).conditions(),
        final(state).request_order() == old(state).request_order(),
        final(state).agreements() == old(state).agreements(),
        final(state).agreement_order() == old(state).agreement_order(),
        final(state).rates() == old(state).rates(),
{
    let user = rental_request.user.clone();
    let key = Some(user.clone());
    if canister_state::get_current_seq(state, &key) == Some(u64::MAX - 1) {
        guard.release(state);
        return Step::Trap(String::from_str("attempt to add with overflow"));
    }
    match converted {
        Err(reason) => {
            canister_state::persist_event(
                state,
                Event::new(
                    event_time_nanos,
                    crate::history::EventType::LockingFailure { user, reason },
                ),
                key,
            );
        },
        Ok(cycles) => {
            if rental_request.locked_amount_icp.e8s > u64::MAX - amount.e8s {
                guard.release(state);
                return Step::Trap(String::from_str("Tokens overflow"));
            }
            if rental_request.locked_amount_cycles > u128::MAX - cycles {
                guard.release(state);
                return Step::Trap(String::from_str("attempt to add with overflow"));
            }
            if canister_state::get_rental_request(state, &user).is_none() {
                guard.release(state);
                return Step::Trap(String::from_str("called `Result::unwrap()` on an `Err` value"));
            }
            let new_rental_request = RentalRequest {
                user: user.clone(),
                initial_cost_icp: rental_request.initial_cost_icp,
                locked_amount_icp: rental_request.locked_amount_icp.plus(amount),
                locked_amount_cycles: rental_request.locked_amount_cycles + cycles,
                initial_proposal_id: rental_request.initial_proposal_id,
                creation_time_nanos: rental_request.creation_time_nanos,
                rental_condition_id: rental_request.rental_condition_id,
                last_locking_time_nanos: now_nanos,
            };
            canister_state::persist_event(
                state,
                Event::new(
                    event_time_nanos,
                    crate::history::EventType::LockingSuccess { user: user.clone(), amount, cycles },
                ),
                key,
            );
            let ghost target = new_rental_request@;
            let replace = move |_old: RentalRequest| -> (n: RentalRequest)
                ensures
                    n@ == target,
                { new_rental_request };
            let _ = canister_state::update_rental_request(state, user, replace);
        },
    }
    guard.release(state);
    Step::Proceed(())
}

} // verus!

verus! {

// ============================================================================
// Burning the cycles of rental agreements

/// What the burning timer does with one rental agreement.
#[derive(Debug, Clone, Copy, PartialEq, Eq, Structural)]
pub enum BurnDecision {
    /// Nothing to burn.
    Skip,
    /// Burn this many cycles.
    Burn(u128),
    /// The computation traps (the paid period ends in less than a second, or the amount
    /// per minute overflows).
    Trap,
}

/// What the burning timer does at `now_nanos` with an agreement: nothing if no cycles are
/// left; all that are left once the paid period is over; else the cycles left spread evenly
/// over the whole seconds remaining, times the 60 seconds between runs, but no more than
/// what is left.
pub open spec fn burn_decision(a: crate::RentalAgreementView, now_nanos: u64) -> BurnDecision {
    let remaining = cycles_left(a);
    if remaining == 0 {
        BurnDecision::Skip
    } else if now_nanos >= a.paid_until_nanos {
        BurnDecision::Burn(remaining)
    } else {
        let seconds = (a.paid_until_nanos - now_nanos) / 1_000_000_000;
        if seconds == 0 {
            BurnDecision::Trap
        } else if (remaining / seconds as u128) * 60 > u128::MAX {
            BurnDecision::Trap
        } else {
            let per_minute = ((remaining / seconds as u128) * 60) as u128;
            BurnDecision::Burn(if per_minute < remaining { per_minute } else { remaining })
        }
    }
}

/// What the burning timer does with an agreement at `now_nanos`.
pub fn cycles_to_burn(rental_agreement: &RentalAgreement, now_nanos: u64) -> (d: BurnDecision)
    ensures
        d == burn_decision(rental_agreement@, now_nanos),
{
    let total_cycles_remaining = rental_agreement.total_cycles_created.saturating_sub(
        rental_agreement.total_cycles_burned,
    );
    let paid_until_nanos = rental_agreement.paid_until_nanos;
    if total_cycles_remaining == 0 {
        return BurnDecision::Skip;
    }
    if now_nanos >= paid_until_nanos {
        return BurnDecision::Burn(total_cycles_remaining);
    }
    let time_remaining_seconds = (paid_until_nanos - now_nanos) / BILLION;
    if time_remaining_seconds == 0 {
        return BurnDecision::Trap;
    }
    let per_second = total_cycles_remaining / (time_remaining_seconds as u128);
    if per_second > u128::MAX / (CYCLES_BURN_INTERVAL_SECONDS as u128) {
        return BurnDecision::Trap;
    }
    let amount_to_burn_per_minute = per_second * (CYCLES_BURN_INTERVAL_SECONDS as u128);
    if amount_to_burn_per_minute < total_cycles_remaining {
        BurnDecision::Burn(amount_to_burn_per_minute)
    } else {
        BurnDecision::Burn(total_cycles_remaining)
    }
}

/// The timer never burns more than is left of an agreement's cycles: nothing when none are
/// left, all of them once the paid period is over, and at most what is left before.
pub proof fn lemma_burn_within_cycles_left(a: crate::RentalAgreementView, now_nanos: u64)
    ensures
        burn_decision(a, now_nanos) matches BurnDecision::Burn(x) ==> x <= cycles_left(a),
        cycles_left(a) == 0 ==> burn_decision(a, now_nanos) == BurnDecision::Skip,
        cycles_left(a) > 0 && now_nanos >= a.paid_until_nanos ==> burn_decision(a, now_nanos)
            == BurnDecision::Burn(cycles_left(a)),
{
}

/// Before the paid period ends the timer burns an even per-minute share: with `remaining`
/// cycles left and `seconds` whole seconds still paid, it burns 60 times the cycles of one
/// second (`remaining / seconds`, truncated) but no more than what is left, however many
/// days are left. So a burn of `x` costs the minute no more than its share (`x * seconds
/// <= 60 * remaining`), and unless it burns all that is left it is a whole number of
/// per-second shares that one more share would exceed.
pub proof fn lemma_burn_is_per_minute_share(a: crate::RentalAgreementView, now_nanos: u64)
    ensures
        ({
            let remaining: int = a.total_cycles_created - a.total_cycles_burned;
            let seconds: int = (a.paid_until_nanos - now_nanos) / 1_000_000_000;
            remaining > 0 && now_nanos < a.paid_until_nanos && seconds >= 1 && (remaining / seconds)
                * 60 <= u128::MAX ==> (burn_decision(a, now_nanos) matches BurnDecision::Burn(x) && {
                &&& x == (if (remaining / seconds) * 60 < remaining {
                    (remaining / seconds) * 60
                } else {
                    remaining
                })
                &&& x <= remaining
                &&& x * seconds <= 60 * remaining
                &&& x == remaining || (x % 60 == 0 && remaining < (x / 60 + 1) * seconds)
            })
        }),
{
    let remaining: int = a.total_cycles_created - a.total_cycles_burned;
    let seconds: int = (a.paid_until_nanos - now_nanos) / 1_000_000_000;
    if remaining > 0 && now_nanos < a.paid_until_nanos && seconds >= 1 && (remaining / seconds) * 60
        <= u128::MAX {
        assert(cycles_left(a) == remaining);
        let k: int = remaining / seconds;
        vstd::arithmetic::div_mod::lemma_fundamental_div_mod(remaining, seconds);
        vstd::arithmetic::div_mod::lemma_mod_bound(remaining, seconds);
        vstd::arithmetic::div_mod::lemma_div_pos_is_pos(remaining, seconds);
        assert(k * seconds <= remaining && remaining < (k + 1) * seconds) by (nonlinear_arith)
            requires
                remaining == seconds * k + remaining % seconds,
                0 <= remaining % seconds < seconds,
        ;
        assert(60 * k * seconds <= 60 * remaining) by (nonlinear_arith)
            requires
                k * seconds <= remaining,
        ;
        assert(remaining * seconds <= 60 * remaining || 60 * k < remaining) by (nonlinear_arith)
            requires
                k * seconds <= remaining,
                remaining < (k + 1) * seconds,
                seconds >= 1,
                k >= 0,
                remaining > 0,
        ;
        vstd::arithmetic::div_mod::lemma_mod_multiples_basic(k, 60);
        vstd::arithmetic::div_mod::lemma_div_multiples_vanish(k, 60);
        assert((60 * k) / 60 == k);
        assert((60 * k) % 60 == 0);
        let x: int = if 60 * k < remaining { 60 * k } else { remaining };
        assert(k * 60 == 60 * k);
        assert(burn_decision(a, now_nanos) == BurnDecision::Burn(x as u128));
        if 60 * k < remaining {
            assert((60 * k) * seconds <= 60 * remaining) by (nonlinear_arith)
                requires
                    60 * k * seconds <= 60 * remaining,
            ;
            assert(x % 60 == 0 && remaining < (x / 60 + 1) * seconds);
        } else {
            assert(remaining * seconds <= 60 * remaining);
        }
        assert(0 <= x <= remaining);
        assert(x * seconds <= 60 * remaining);
        assert(x == (if (remaining / seconds) * 60 < remaining {
            (remaining / seconds) * 60
        } else {
            remaining
        }));
    }
}

/// Adding a burn that the timer decided to an agreement's burned cycles (as
/// `record_cycles_burned` does) never takes them past the cycles created: the sum does not
/// saturate and stays within the created total.
pub proof fn lemma_recorded_burn_within_created(
    a: crate::RentalAgreementView,
    now_nanos: u64,
    burned: u128,
)
    requires
        a.total_cycles_burned <= a.total_cycles_created,
        burn_decision(a, now_nanos) == BurnDecision::Burn(burned),
    ensures
        a.total_cycles_burned + burned <= a.total_cycles_created,
        cycles_left(
            crate::RentalAgreementView {
                total_cycles_burned: (a.total_cycles_burned + burned) as u128,
                ..a
            },
        ) == cycles_left(a) - burned,
{
    lemma_burn_within_cycles_left(a, now_nanos);
}

/// The burns of the timer at `now_nanos` over the subnets `order`: for each subnet whose
/// agreement is not locked by another call, the cycles to burn; `None` if one of them traps.
pub open spec fn burn_plan(state: CanisterState, order: Seq<Seq<u8>>, now_nanos: u64) -> Option<
    Seq<(Seq<u8>, u128)>,
>
    decreases order.len(),
{
    if order.len() == 0 {
        Some(Seq::empty())
    } else {
        match burn_plan(state, order.drop_last(), now_nanos) {
            None => None,
            Some(plan) => {
                let subnet = order.last();
                if state.locks().contains(agreement_lock(subnet)) {
                    Some(plan)
                } else {
                    match burn_decision(state.agreements()[subnet], now_nanos) {
                        BurnDecision::Skip => Some(plan),
                        BurnDecision::Burn(amount) => Some(plan.push((subnet, amount))),
                        BurnDecision::Trap => None,
                    }
                }
            },
        }
    }
}

proof fn lemma_burn_plan_trap_extends(state: CanisterState, order: Seq<Seq<u8>>, i: int, now_nanos: u64)
    requires
        0 <= i <= order.len(),
        burn_plan(state, order.take(i), now_nanos) is None,
    ensures
        burn_plan(state, order, now_nanos) is None,
    decreases order.len() - i,
{
    if i < order.len() {
        assert(order.take(i + 1).drop_last() =~= order.take(i));
        lemma_burn_plan_trap_extends(state, order, i + 1, now_nanos);
    } else {
        assert(order.take(i) =~= order);
    }
}

/// The subnets of a run's plan are taken from `order`, each once, and each is planned to
/// burn at most the cycles its agreement has left.
proof fn lemma_burn_plan_shape(state: CanisterState, order: Seq<Seq<u8>>, now_nanos: u64)
    requires
        order.no_duplicates(),
        forall|i: int| 0 <= i < order.len() ==> state.agreements().contains_key(#[trigger] order[i]),
    ensures
        burn_plan(state, order, now_nanos) matches Some(plan) ==> {
            &&& forall|i: int| 0 <= i < plan.len() ==> order.contains((#[trigger] plan[i]).0)
            &&& forall|i: int|
                0 <= i < plan.len() ==> (#[trigger] plan[i]).1 <= cycles_left(
                    state.agreements()[plan[i].0],
                )
            &&& forall|i: int, j: int|
                0 <= i < j < plan.len() ==> (#[trigger] plan[i]).0 != (#[trigger] plan[j]).0
        },
    decreases order.len(),
{
    if order.len() > 0 {
        let rest = order.drop_last();
        assert forall|i: int, j: int| 0 <= i < j < rest.len() implies rest[i] != rest[j] by {
            assert(order[i] != order[j]);
        }
        assert forall|i: int| 0 <= i < rest.len() implies state.agreements().contains_key(
            #[trigger] rest[i],
        ) by {
            assert(state.agreements().contains_key(order[i]));
        }
        lemma_burn_plan_shape(state, rest, now_nanos);
        let subnet = order.last();
        assert(!rest.contains(subnet)) by {
            if rest.contains(subnet) {
                let k = choose|k: int| 0 <= k < rest.len() && rest[k] == subnet;
                assert(order[k] == order[order.len() - 1]);
            }
        }
        assert(state.agreements().contains_key(order[order.len() - 1]));
        lemma_burn_within_cycles_left(state.agreements()[subnet], now_nanos);
        match burn_plan(state, rest, now_nanos) {
            None => {},
            Some(plan) => {
                assert forall|i: int| 0 <= i < plan.len() implies order.contains(
                    (#[trigger] plan[i]).0,
                ) by {
                    let k = choose|k: int| 0 <= k < rest.len() && rest[k] == plan[i].0;
                    assert(order[k] == rest[k]);
                }
            },
        }
    }
}

/// An agreement after the cycles burned for it were recorded (saturating), as
/// `record_cycles_burned` does.
pub open spec fn record_burn(a: crate::RentalAgreementView, burned: u128) -> crate::RentalAgreementView {
    crate::RentalAgreementView {
        total_cycles_burned: if a.total_cycles_burned + burned > u128::MAX {
            u128::MAX
        } else {
            (a.total_cycles_burned + burned) as u128
        },
        ..a
    }
}

/// The agreements after the burns of a run were recorded one after the other.
pub open spec fn apply_burns(
    agreements: Map<Seq<u8>, crate::RentalAgreementView>,
    burns: Seq<(Seq<u8>, u128)>,
) -> Map<Seq<u8>, crate::RentalAgreementView>
    decreases burns.len(),
{
    if burns.len() == 0 {
        agreements
    } else {
        let m = apply_burns(agreements, burns.drop_last());
        let (subnet, burned) = burns.last();
        if m.contains_key(subnet) {
            m.insert(subnet, record_burn(m[subnet], burned))
        } else {
            m
        }
    }
}

proof fn lemma_apply_burns(
    agreements: Map<Seq<u8>, crate::RentalAgreementView>,
    burns: Seq<(Seq<u8>, u128)>,
)
    requires
        forall|i: int, j: int| 0 <= i < j < burns.len() ==> (#[trigger] burns[i]).0 != (#[trigger] burns[j]).0,
        forall|i: int|
            0 <= i < burns.len() && agreements.contains_key((#[trigger] burns[i]).0) ==> burns[i].1
                <= cycles_left(agreements[burns[i].0]),
        forall|k: Seq<u8>|
            #[trigger] agreements.contains_key(k) ==> agreements[k].total_cycles_burned
                <= agreements[k].total_cycles_created,
    ensures
        apply_burns(agreements, burns).dom() == agreements.dom(),
        forall|k: Seq<u8>|
            #[trigger] agreements.contains_key(k) ==> {
                let a = agreements[k];
                let b = apply_burns(agreements, burns)[k];
                &&& b.total_cycles_burned <= b.total_cycles_created
                &&& a.total_cycles_burned <= b.total_cycles_burned
                &&& b == (crate::RentalAgreementView { total_cycles_burned: b.total_cycles_burned, ..a })
                &&& (forall|i: int| 0 <= i < burns.len() ==> (#[trigger] burns[i]).0 != k) ==> b == a
            },
    decreases burns.len(),
{
    if burns.len() > 0 {
        let rest = burns.drop_last();
        assert forall|i: int, j: int| 0 <= i < j < rest.len() implies (#[trigger] rest[i]).0
            != (#[trigger] rest[j]).0 by {
            assert(burns[i].0 != burns[j].0);
        }
        assert forall|i: int|
            0 <= i < rest.len() && agreements.contains_key((#[trigger] rest[i]).0) implies rest[i].1
            <= cycles_left(agreements[rest[i].0]) by {
            assert(burns[i] == rest[i]);
        }
        lemma_apply_burns(agreements, rest);
        let m = apply_burns(agreements, rest);
        let (subnet, burned) = burns.last();
        if m.contains_key(subnet) {
            assert forall|i: int| 0 <= i < rest.len() implies (#[trigger] rest[i]).0 != subnet by {
                assert(burns[i].0 != burns[burns.len() - 1].0);
            }
            assert(m[subnet] == agreements[subnet]);
            assert(burns[burns.len() - 1].1 <= cycles_left(agreements[burns[burns.len() - 1].0]));
        }
        assert forall|k: Seq<u8>| #[trigger] agreements.contains_key(k) implies {
            let a = agreements[k];
            let b = apply_burns(agreements, burns)[k];
            &&& b.total_cycles_burned <= b.total_cycles_created
            &&& a.total_cycles_burned <= b.total_cycles_burned
            &&& b == (crate::RentalAgreementView { total_cycles_burned: b.total_cycles_burned, ..a })
            &&& (forall|i: int| 0 <= i < burns.len() ==> (#[trigger] burns[i]).0 != k) ==> b == a
        } by {
            if (forall|i: int| 0 <= i < burns.len() ==> (#[trigger] burns[i]).0 != k) {
                assert forall|i: int| 0 <= i < rest.len() implies (#[trigger] rest[i]).0 != k by {
                    assert(burns[i] == rest[i]);
                }
                assert(burns[burns.len() - 1].0 != k);
            }
        }
        assert(apply_burns(agreements, burns).dom() =~= agreements.dom());
    }
}

/// A whole run of the burning timer never takes an agreement's burned cycles past its
/// created cycles: if no agreement has burned more than it created, then after the cycles
/// actually burned for each planned subnet (at most what was planned) are recorded, one after
/// the other, every agreement still has burned at most what it created and at least what it
/// had burned before, and nothing else of any agreement changes.
pub proof fn lemma_burn_run_within_created(
    state: CanisterState,
    now_nanos: u64,
    burned: Seq<(Seq<u8>, u128)>,
)
    requires
        state.wf(),
        forall|k: Seq<u8>|
            #[trigger] state.agreements().contains_key(k) ==> state.agreements()[k].total_cycles_burned
                <= state.agreements()[k].total_cycles_created,
        burn_plan(state, principal_order_of(state.agreements().dom()), now_nanos) is Some,
        burned.len() == burn_plan(state, principal_order_of(state.agreements().dom()), now_nanos)->0.len(),
        forall|i: int|
            0 <= i < burned.len() ==> (#[trigger] burned[i]).0 == burn_plan(
                state,
                principal_order_of(state.agreements().dom()),
                now_nanos,
            )->0[i].0 && burned[i].1 <= burn_plan(state, principal_order_of(state.agreements().dom()), now_nanos)->0[i].1,
    ensures
        apply_burns(state.agreements(), burned).dom() == state.agreements().dom(),
        forall|k: Seq<u8>|
            #[trigger] state.agreements().contains_key(k) ==> {
                let a = state.agreements()[k];
                let b = apply_burns(state.agreements(), burned)[k];
                &&& b.total_cycles_burned <= b.total_cycles_created
                &&& a.total_cycles_burned <= b.total_cycles_burned
                &&& b == (crate::RentalAgreementView { total_cycles_burned: b.total_cycles_burned, ..a })
            },
{
    state.lemma_orders();
    canister_state::lemma_principal_order_exists(state.agreements().dom());
    let order = principal_order_of(state.agreements().dom());
    assert forall|i: int| 0 <= i < order.len() implies state.agreements().contains_key(
        #[trigger] order[i],
    ) by {
        assert(order.to_set().contains(order[i]));
    }
    assert(order.no_duplicates()) by {
        assert forall|i: int, j: int| 0 <= i < order.len() && 0 <= j < order.len() && i != j implies order[i]
            != order[j] by {
            if i < j {
                assert(principal_lt(order[i], order[j]));
            } else {
                assert(principal_lt(order[j], order[i]));
            }
            crate::principal::lemma_principal_order(order[i], order[j], order[i]);
        }
    }
    lemma_burn_plan_shape(state, order, now_nanos);
    let plan = burn_plan(state, order, now_nanos)->0;
    assert forall|i: int, j: int| 0 <= i < j < burned.len() implies (#[trigger] burned[i]).0
        != (#[trigger] burned[j]).0 by {
        assert(plan[i].0 != plan[j].0);
    }
    assert forall|i: int|
        0 <= i < burned.len() && state.agreements().contains_key((#[trigger] burned[i]).0) implies burned[i].1
        <= cycles_left(state.agreements()[burned[i].0]) by {
        assert(plan[i].1 <= cycles_left(state.agreements()[plan[i].0]));
    }
    lemma_apply_burns(state.agreements(), burned);
}

/// The cycles the burning timer burns at `now_nanos`, agreement by agreement, in increasing
/// order of their subnets: `Trap` if the timer's run traps (and then burns
/// nothing), else the subnets and amounts to burn.
pub fn plan_cycles_burn(state: &CanisterState, now_nanos: u64) -> (r: Step<Vec<(Principal, u128)>, ()>)
    requires
        state.wf(),
    ensures
        !(r is Stop),
        r is Trap <==> burn_plan(*state, principal_order_of(state.agreements().dom()), now_nanos) is None,
        r matches Step::Proceed(plan) ==> plan@.map_values(|e: (Principal, u128)| (e.0@, e.1))
            == burn_plan(*state, principal_order_of(state.agreements().dom()), now_nanos)->0,
{
    proof {
        reveal_strlit("agreement");
    }
    let entries = iter_rental_agreements(state);
    let ghost order = principal_order_of(state.agreements().dom());
    let mut plan: Vec<(Principal, u128)> = Vec::new();
    let mut i: usize = 0;
    proof {
        assert(order.take(0) =~= Seq::<Seq<u8>>::empty());
        assert(plan@.map_values(|e: (Principal, u128)| (e.0@, e.1)) =~= Seq::<(Seq<u8>, u128)>::empty());
    }
    while i < entries.len()
        invariant
            state.wf(),
            order == principal_order_of(state.agreements().dom()),
            i <= entries@.len(),
            entries@.len() == order.len(),
            forall|j: int|
                0 <= j < entries@.len() ==> (#[trigger] entries@[j]).0@ == order[j]
                    && state.agreements().contains_key(entries@[j].0@) && entries@[j].1@
                    == state.agreements()[entries@[j].0@],
            burn_plan(*state, order.take(i as int), now_nanos) == Some(
                plan@.map_values(|e: (Principal, u128)| (e.0@, e.1)),
            ),
        decreases entries@.len() - i,
    {
        let subnet = &entries[i].0;
        proof {
            assert(order.take(i + 1).drop_last() =~= order.take(i as int));
            assert(order.take(i + 1).last() == order[i as int]);
        }
        if !canister_state::is_locked(state, subnet, "agreement") {
            match cycles_to_burn(&entries[i].1, now_nanos) {
                BurnDecision::Skip => {},
                BurnDecision::Burn(amount) => {
                    let ghost before = plan@;
                    plan.push((subnet.clone(), amount));
                    proof {
                        assert(plan@.map_values(|e: (Principal, u128)| (e.0@, e.1)) =~= before.map_values(
                            |e: (Principal, u128)| (e.0@, e.1),
                        ).push((order[i as int], amount)));
                    }
                },
                BurnDecision::Trap => {
                    proof {
                        lemma_burn_plan_trap_extends(*state, order, i + 1, now_nanos);
                    }
                    return Step::Trap(String::from_str("attempt to divide by zero"));
                },
            }
        }
        i = i + 1;
    }
    proof {
        assert(order.take(entries@.len() as int) =~= order);
    }
    Step::Proceed(plan)
}

/// Adds the cycles the timer burned for a subnet to its agreement's total (saturating).
pub fn record_cycles_burned(state: &mut CanisterState, subnet_id: Principal, burned: u128) -> (r:
    Result<(), String>)
    requires
        old(state).wf(),
    ensures
        final(state).wf(),
        r is Ok <==> old(state).agreements().contains_key(subnet_id@),
        r matches Err(e) ==> e@ == "Subnet_id has no rental agreement."@,
        r is Ok ==> {
            let a = old(state).agreements()[subnet_id@];
            final(state).agreements() == old(state).agreements().insert(
                subnet_id@,
                record_burn(a, burned),
            )
        },
        r is Err ==> final(state).agreements() == old(state).agreements(),
        final(state).agreement_order() == old(state).agreement_order(),
        final(state).conditions() == old(state).conditions(),
        final(state).locks() == old(state).locks(),
        final(state).requests() == old(state).requests(),
        final(state).request_order() == old(state).request_order(),
        final(state).counters() == old(state).counters(),
        final(state).history() == old(state).history(),
        final(state).rates() == old(state).rates(),
{
    let add_burned = |a: RentalAgreement| -> (n: RentalAgreement)
        ensures
            n@ == (crate::RentalAgreementView {
                total_cycles_burned: if a.total_cycles_burned + burned > u128::MAX {
                    u128::MAX
                } else {
                    (a.total_cycles_burned + burned) as u128
                },
                ..a@
            }),
        {
            let mut a = a;
            a.total_cycles_burned = a.total_cycles_burned.saturating_add(burned);
            a
        };
    canister_state::update_rental_agreement(state, subnet_id, add_burned)
}

} // verus!
