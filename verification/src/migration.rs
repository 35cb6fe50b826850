//! One-shot state migrations that run after an upgrade.
//!
//! Moving a rental agreement to a different rental condition is not something the renter
//! decides unilaterally: the billing change only makes sense alongside a registry change
//! that shrinks the subnet, so the switch is performed once, as part of the upgrade that
//! accompanies an NNS proposal.
//!
//! Each migration keys off state that the migration itself changes, so re-running it is a
//! no-op: a second upgrade simply finds nothing left to do.
use crate::canister::{cycles_left, extended_paid_until, seconds_paid, Step};
use crate::canister_state::{
    get_current_seq, get_rental_agreement, get_rental_conditions, persist_event,
    update_rental_agreement, CanisterState,
};
use crate::history::{Event, EventType, EventTypeView, EventView};
use crate::principal::{principal_of_text, Principal};
use crate::{RentalAgreement, RentalAgreementView, RentalConditionId, BILLION, SECONDS_PER_DAY};
use vstd::prelude::*;

verus! {

/// The Swiss Subnet, whose rental agreement moves from App13CH to App7CH.
pub const TARGET_SUBNET: &'static str = "3zsyy-cnoqf-tvlun-ymf55-tkpca-ox7uw-kfxoh-7khwq-2gz43-wafem-lqe";

/// The deadline until which `cycles_remaining` last at `daily_cost_cycles` per day,
/// counted from `now_nanos`: the cost is truncated to whole cycles per second, only whole
/// seconds are credited, and the result saturates at `u64::MAX`. A cost below one cycle per
/// second also gives `u64::MAX`.
pub open spec fn spec_reprice(cycles_remaining: u128, daily_cost_cycles: u128, now_nanos: u64) -> u64 {
    let cost_cycles_per_second = daily_cost_cycles / 86400;
    if cost_cycles_per_second == 0 {
        u64::MAX
    } else {
        let nanos = (cycles_remaining / cost_cycles_per_second) * 1_000_000_000;
        if nanos > u64::MAX || now_nanos + nanos > u64::MAX {
            u64::MAX
        } else {
            (now_nanos + nanos) as u64
        }
    }
}

/// How long `cycles_remaining` lasts at `daily_cost_cycles`, as a deadline from `now_nanos`.
///
/// Truncating to a per-second cost makes a day cost marginally less than
/// `daily_cost_cycles`, so the deadline is fractionally generous.
pub fn reprice(cycles_remaining: u128, daily_cost_cycles: u128, now_nanos: u64) -> (r: u64)
    ensures
        r == spec_reprice(cycles_remaining, daily_cost_cycles, now_nanos),
{
    let cost_cycles_per_second = daily_cost_cycles / (SECONDS_PER_DAY as u128);
    if cost_cycles_per_second == 0 {
        return u64::MAX;
    }
    let seconds_covered = cycles_remaining / cost_cycles_per_second;
    let nanos: u128 = if seconds_covered > u128::MAX / (BILLION as u128) {
        u128::MAX
    } else {
        seconds_covered * (BILLION as u128)
    };
    if nanos > u64::MAX as u128 {
        u64::MAX
    } else {
        now_nanos.saturating_add(nanos as u64)
    }
}

/// Repricing rounds as a top-up does: for a daily cost of at least one cycle per second,
/// the deadline is `now_nanos` extended by the whole seconds that the cycles pay for.
pub proof fn lemma_reprice_as_top_up(cycles: u128, daily_cost_cycles: u128, now_nanos: u64)
    requires
        daily_cost_cycles >= 86400,
    ensures
        spec_reprice(cycles, daily_cost_cycles, now_nanos) == extended_paid_until(
            now_nanos,
            seconds_paid(cycles, daily_cost_cycles),
        ),
{
    assert(daily_cost_cycles / 86400 >= 1) by {
        vstd::arithmetic::div_mod::lemma_div_is_ordered(86400, daily_cost_cycles as int, 86400);
    }
}

/// The deadline is never before `now_nanos`; without cycles it is `now_nanos` itself (for a
/// daily cost of at least one cycle per second).
pub proof fn lemma_reprice_from_now(cycles: u128, daily_cost_cycles: u128, now_nanos: u64)
    ensures
        spec_reprice(cycles, daily_cost_cycles, now_nanos) >= now_nanos,
        daily_cost_cycles >= 86400 ==> spec_reprice(0, daily_cost_cycles, now_nanos) == now_nanos,
{
    let cps = daily_cost_cycles / 86400;
    if cps > 0 {
        assert(cycles / cps >= 0) by {
            vstd::arithmetic::div_mod::lemma_div_pos_is_pos(cycles as int, cps as int);
        }
        assert((cycles / cps) * 1_000_000_000 >= 0) by (nonlinear_arith)
            requires
                cycles / cps >= 0,
        ;
    }
    if daily_cost_cycles >= 86400 {
        assert(daily_cost_cycles / 86400 >= 1) by {
            vstd::arithmetic::div_mod::lemma_div_is_ordered(86400, daily_cost_cycles as int, 86400);
        }
        assert(0u128 / cps == 0) by {
            vstd::arithmetic::div_mod::lemma_div_basics(cps as int);
        }
    }
}

/// More cycles never buy less time.
pub proof fn lemma_reprice_monotone_in_cycles(
    fewer: u128,
    more: u128,
    daily_cost_cycles: u128,
    now_nanos: u64,
)
    requires
        fewer <= more,
    ensures
        spec_reprice(fewer, daily_cost_cycles, now_nanos) <= spec_reprice(
            more,
            daily_cost_cycles,
            now_nanos,
        ),
{
    let cps = daily_cost_cycles / 86400;
    if cps > 0 {
        let a = fewer / cps;
        let b = more / cps;
        assert(a <= b) by {
            vstd::arithmetic::div_mod::lemma_div_is_ordered(fewer as int, more as int, cps as int);
        }
        assert(a * 1_000_000_000 <= b * 1_000_000_000) by (nonlinear_arith)
            requires
                a <= b,
        ;
    }
}

/// A cheaper daily cost never buys less time: the cycles left last at least as long at
/// `cheaper` as at `dearer`.
pub proof fn lemma_reprice_antitone_in_cost(
    cycles: u128,
    cheaper: u128,
    dearer: u128,
    now_nanos: u64,
)
    requires
        cheaper <= dearer,
    ensures
        spec_reprice(cycles, dearer, now_nanos) <= spec_reprice(cycles, cheaper, now_nanos),
{
    let c1 = cheaper / 86400;
    let c2 = dearer / 86400;
    assert(c1 <= c2) by {
        vstd::arithmetic::div_mod::lemma_div_is_ordered(cheaper as int, dearer as int, 86400);
    }
    if c1 > 0 {
        let a = cycles / c2;
        let b = cycles / c1;
        assert(a <= b) by {
            vstd::arithmetic::div_mod::lemma_div_is_ordered_by_denominator(
                cycles as int,
                c1 as int,
                c2 as int,
            );
        }
        assert(a * 1_000_000_000 <= b * 1_000_000_000) by (nonlinear_arith)
            requires
                a <= b,
        ;
    }
}

/// The agreement moved to App7CH, paid until `new_paid_until_nanos`.
pub open spec fn switched_agreement(a: RentalAgreementView, new_paid_until_nanos: u64) -> RentalAgreementView {
    RentalAgreementView {
        rental_condition_id: RentalConditionId::App7CH,
        paid_until_nanos: new_paid_until_nanos,
        ..a
    }
}

/// Whether the migration applies to the state: the target subnet has a rental agreement on
/// App13CH and the App7CH conditions exist.
pub open spec fn migration_applies(state: CanisterState, target: Seq<u8>) -> bool {
    &&& state.agreements().contains_key(target)
    &&& state.agreements()[target].rental_condition_id == RentalConditionId::App13CH
    &&& state.conditions().contains_key(RentalConditionId::App7CH)
}

/// What the migration does to the state at `now_nanos`.
pub open spec fn migrated(old_state: CanisterState, new_state: CanisterState, now_nanos: u64) -> bool {
    match principal_of_text(TARGET_SUBNET@) {
        Some(target) => if migration_applies(old_state, target) {
            let a = old_state.agreements()[target];
            let new_paid = spec_reprice(
                cycles_left(a),
                old_state.conditions()[RentalConditionId::App7CH].daily_cost_cycles,
                now_nanos,
            );
            let count = old_state.event_count(Some(target));
            &&& new_state.agreements() == old_state.agreements().insert(
                target,
                switched_agreement(a, new_paid),
            )
            &&& new_state.history() == old_state.history().insert(
                (Some(target), count),
                EventView {
                    time_nanos: now_nanos,
                    event: EventTypeView::RentalConditionSwitched {
                        subnet_id: target,
                        user: a.user,
                        old_condition_id: RentalConditionId::App13CH,
                        new_condition_id: RentalConditionId::App7CH,
                        cycles_remaining: cycles_left(a),
                        old_paid_until_nanos: a.paid_until_nanos,
                        new_paid_until_nanos: new_paid,
                    },
                },
            )
            &&& new_state.counters() == old_state.counters().insert(
                Some(target),
                (count + 1) as u64,
            )
            &&& new_state.agreement_order() == old_state.agreement_order()
        } else {
            unchanged(old_state, new_state)
        },
        None => unchanged(old_state, new_state),
    }
}

/// The agreements and the history are as they were.
pub open spec fn unchanged(old_state: CanisterState, new_state: CanisterState) -> bool {
    &&& new_state.agreements() == old_state.agreements()
    &&& new_state.agreement_order() == old_state.agreement_order()
    &&& new_state.history() == old_state.history()
    &&& new_state.counters() == old_state.counters()
}

/// Whether the migration traps: it applies, but the target subnet's history is full.
pub open spec fn migration_traps(state: CanisterState) -> bool {
    principal_of_text(TARGET_SUBNET@) matches Some(b) && migration_applies(state, b)
        && state.event_count(Some(b)) == u64::MAX
}

/// Moves `TARGET_SUBNET`'s rental agreement from App13CH to App7CH at `now_nanos`,
/// repricing the cycles already paid for but not yet burned at the App7CH daily cost.
///
/// Only agreements still on App13CH are touched, so running it again changes nothing. It
/// traps, changing nothing, if the subnet's history is full.
pub fn app13ch_to_app7ch(state: &mut CanisterState, now_nanos: u64) -> (r: Step<(), ()>)
    requires
        old(state).wf(),
    ensures
        final(state).wf(),
        !(r is Stop),
        r is Trap <==> migration_traps(*old(state)),
        r is Trap ==> *final(state) == *old(state),
        r is Proceed ==> migrated(*old(state), *final(state), now_nanos),
        final(state).conditions() == old(state).conditions(),
        final(state).requests() == old(state).requests(),
        final(state).request_order() == old(state).request_order(),
        final(state).locks() == old(state).locks(),
        final(state).rates() == old(state).rates(),
{
    let subnet_id = match Principal::from_text(TARGET_SUBNET) {
        Some(p) => p,
        None => return Step::Proceed(()),
    };
    let agreement = match get_rental_agreement(state, &subnet_id) {
        Some(a) => a,
        None => return Step::Proceed(()),
    };
    if agreement.rental_condition_id != RentalConditionId::App13CH {
        return Step::Proceed(());
    }
    let new_conditions = match get_rental_conditions(state, RentalConditionId::App7CH) {
        Some(c) => c,
        None => return Step::Proceed(()),
    };
    if get_current_seq(state, &Some(subnet_id.clone())) == Some(u64::MAX - 1) {
        return Step::Trap(String::from_str("attempt to add with overflow"));
    }
    let cycles_remaining = agreement.total_cycles_created.saturating_sub(
        agreement.total_cycles_burned,
    );
    let old_paid_until_nanos = agreement.paid_until_nanos;
    let new_paid_until_nanos = reprice(
        cycles_remaining,
        new_conditions.daily_cost_cycles,
        now_nanos,
    );
    let switch = |a: RentalAgreement| -> (r: RentalAgreement)
        ensures
            r@ == switched_agreement(a@, new_paid_until_nanos),
        {
            let mut a = a;
            a.rental_condition_id = RentalConditionId::App7CH;
            a.paid_until_nanos = new_paid_until_nanos;
            a
        };
    if update_rental_agreement(state, subnet_id.clone(), switch).is_err() {
        return Step::Proceed(());
    }
    let event = EventType::RentalConditionSwitched {
        subnet_id: subnet_id.clone(),
        user: agreement.user,
        old_condition_id: RentalConditionId::App13CH,
        new_condition_id: RentalConditionId::App7CH,
        cycles_remaining,
        old_paid_until_nanos,
        new_paid_until_nanos,
    };
    persist_event(state, Event::new(now_nanos, event), Some(subnet_id));
    Step::Proceed(())
}

/// Running the migration a second time, at any time, changes nothing that the first run did
/// not change: the agreements and the history stay as the first run left them.
pub proof fn lemma_migration_idempotent(
    s0: CanisterState,
    s1: CanisterState,
    s2: CanisterState,
    t1: u64,
    t2: u64,
)
    requires
        migrated(s0, s1, t1),
        migrated(s1, s2, t2),
        s1.conditions() == s0.conditions(),
    ensures
        unchanged(s1, s2),
{
    match principal_of_text(TARGET_SUBNET@) {
        Some(target) => {
            if migration_applies(s0, target) {
                assert(s1.agreements()[target].rental_condition_id == RentalConditionId::App7CH);
                assert(!migration_applies(s1, target));
            } else {
                assert(!migration_applies(s1, target));
            }
        },
        None => {},
    }
}

} // verus!
