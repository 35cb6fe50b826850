//! The canister state: rental conditions, rental requests (keyed by user), rental
//! agreements (keyed by subnet), the event history with its per-principal counters, the
//! cache of exchange rates, and the locks held by calls in flight.
//!
//! Relevant updates to state leave a trace in the corresponding history.
use crate::history::{Event, EventType, EventView};
use crate::keyed_map::{map_get, KeyedMap, MapKey, MapValue};
use crate::principal::{lemma_principal_order, principal_lt, principal_text, Principal};
use crate::text::concat3;
use crate::{
    opt_principal_view, RentalAgreement, RentalAgreementView, RentalConditionId, RentalConditions,
    RentalConditionsView, RentalRequest, RentalRequestView,
};
use ic_stable_structures::{StableBTreeMap, VectorMemory};
use vstd::prelude::*;

verus! {

pub type EventNum = u64;

// ====================================================================================================================
// Cache of exchange rates

/// The cache of ICP/XDR exchange rates: keys are timestamps in seconds since the epoch
/// (rounded to midnight), values are (rate, decimals) where the rate is scaled by 10^decimals.
/// Each cache owns the memory that its map lives in.
#[verifier::external_body]
pub struct RateCache {
    map: StableBTreeMap<u64, (u64, u32), VectorMemory>,
}

/// What a rate cache holds.
pub uninterp spec fn rate_cache_contents(cache: RateCache) -> Map<u64, (u64, u32)>;

impl RateCache {
    /// `StableBTreeMap::new` on a fresh memory of its own: a new map, which holds nothing.
    #[verifier::external_body]
    fn new() -> (fresh: RateCache)
        ensures
            rate_cache_contents(fresh).dom() == Set::<u64>::empty(),
    {
        RateCache { map: StableBTreeMap::new(VectorMemory::default()) }
    }

    /// `StableBTreeMap::get`: the value held for the key, if any.
    #[verifier::external_body]
    fn get(&self, time: u64) -> (r: Option<(u64, u32)>)
        ensures
            r == map_get(rate_cache_contents(*self), time),
    {
        self.map.get(&time)
    }

    /// `StableBTreeMap::insert`: afterwards the map holds `value` for `time` and is otherwise
    /// unchanged.
    #[verifier::external_body]
    fn insert(&mut self, time: u64, value: (u64, u32))
        ensures
            rate_cache_contents(*final(self)) == rate_cache_contents(*old(self)).insert(
                time,
                value,
            ),
    {
        self.map.insert(time, value);
    }

    /// `StableBTreeMap::iter`, collected: every entry of the map once, sorted by key.
    #[verifier::external_body]
    fn entries(&self) -> (r: Vec<(u64, (u64, u32))>)
        ensures
            forall|i: int, j: int| 0 <= i < j < r@.len() ==> (#[trigger] r@[i]).0 < (#[trigger] r@[j]).0,
            forall|i: int|
                0 <= i < r@.len() ==> rate_cache_contents(*self).contains_key((#[trigger] r@[i]).0)
                    && rate_cache_contents(*self)[r@[i].0] == r@[i].1,
            forall|k: u64|
                #[trigger] rate_cache_contents(*self).contains_key(k) ==> exists|i: int|
                    0 <= i < r@.len() && (#[trigger] r@[i]).0 == k,
    {
        self.map.iter().collect()
    }
}

// ====================================================================================================================
// Keys

/// The identity of a lock: a principal and a tag that tells apart locks of different kinds.
#[derive(Debug, PartialEq, Eq)]
pub struct LockId {
    pub principal: Principal,
    pub tag: String,
}

impl MapKey for LockId {
    type KeyView = (Seq<u8>, Seq<char>);

    open spec fn key_view(&self) -> (Seq<u8>, Seq<char>) {
        (self.principal@, self.tag@)
    }

    fn key_eq(&self, other: &Self) -> (b: bool) {
        self.principal.same_as(&other.principal) && self.tag == other.tag
    }

    fn key_clone(&self) -> (r: Self) {
        LockId { principal: self.principal.clone(), tag: self.tag.clone() }
    }
}

impl MapValue for (u64, u32) {
    type ValueView = (u64, u32);

    open spec fn value_view(&self) -> (u64, u32) {
        *self
    }

    fn value_clone(&self) -> (r: Self) {
        *self
    }
}

impl MapValue for () {
    type ValueView = ();

    open spec fn value_view(&self) -> () {
        ()
    }

    fn value_clone(&self) -> (r: Self) {
        ()
    }
}

/// The key of an event in the history: the principal it belongs to (None for changes to the
/// rental conditions) and its number.
pub type HistoryKey = (Option<Principal>, EventNum);

impl MapKey for (Option<Principal>, EventNum) {
    type KeyView = (Option<Seq<u8>>, EventNum);

    open spec fn key_view(&self) -> (Option<Seq<u8>>, EventNum) {
        (opt_principal_view(self.0), self.1)
    }

    fn key_eq(&self, other: &Self) -> (b: bool) {
        self.1 == other.1 && self.0.key_eq(&other.0)
    }

    fn key_clone(&self) -> (r: Self) {
        (self.0.key_clone(), self.1)
    }
}

// ====================================================================================================================
// The state

/// The whole state of the canister.
pub struct CanisterState {
    rental_conditions: KeyedMap<RentalConditionId, RentalConditions>,
    locks: KeyedMap<LockId, ()>,
    rental_requests: KeyedMap<Principal, RentalRequest>,
    rental_agreements: KeyedMap<Principal, RentalAgreement>,
    event_counters: KeyedMap<Option<Principal>, EventNum>,
    history: KeyedMap<HistoryKey, Event>,
    rates: RateCache,
}

impl CanisterState {
    /// The internal invariant of the state.
    pub closed spec fn wf(&self) -> bool {
        &&& self.rental_conditions.wf()
        &&& self.locks.wf()
        &&& self.rental_requests.wf()
        &&& self.rental_agreements.wf()
        &&& self.event_counters.wf()
        &&& self.history.wf()
    }

    /// The rental conditions, by id.
    pub closed spec fn conditions(&self) -> Map<RentalConditionId, RentalConditionsView> {
        self.rental_conditions.view_map()
    }

    /// The ids of the rental conditions, in the order in which they were first set.
    pub closed spec fn condition_order(&self) -> Seq<RentalConditionId> {
        self.rental_conditions.key_order()
    }

    /// The locks held, as (principal, tag) pairs.
    pub closed spec fn locks(&self) -> Set<(Seq<u8>, Seq<char>)> {
        self.locks.view_map().dom()
    }

    /// The rental requests, by user.
    pub closed spec fn requests(&self) -> Map<Seq<u8>, RentalRequestView> {
        self.rental_requests.view_map()
    }

    /// The users with a rental request, in the order in which the requests were made.
    pub closed spec fn request_order(&self) -> Seq<Seq<u8>> {
        self.rental_requests.key_order()
    }

    /// The rental agreements, by subnet.
    pub closed spec fn agreements(&self) -> Map<Seq<u8>, RentalAgreementView> {
        self.rental_agreements.view_map()
    }

    /// The subnets with a rental agreement, in the order in which the agreements were made.
    pub closed spec fn agreement_order(&self) -> Seq<Seq<u8>> {
        self.rental_agreements.key_order()
    }

    /// The number of event numbers drawn for each principal (None: the rental conditions).
    pub closed spec fn counters(&self) -> Map<Option<Seq<u8>>, EventNum> {
        self.event_counters.view_map()
    }

    /// The history: the events, by principal and event number.
    pub closed spec fn history(&self) -> Map<(Option<Seq<u8>>, EventNum), EventView> {
        self.history.view_map()
    }

    /// The cached exchange rates.
    pub closed spec fn rates(&self) -> Map<u64, (u64, u32)> {
        rate_cache_contents(self.rates)
    }

    /// Every part of the state but its locks is as in `other`.
    pub open spec fn same_but_locks(&self, other: CanisterState) -> bool {
        &&& self.conditions() == other.conditions()
        &&& self.requests() == other.requests()
        &&& self.request_order() == other.request_order()
        &&& self.agreements() == other.agreements()
        &&& self.agreement_order() == other.agreement_order()
        &&& self.counters() == other.counters()
        &&& self.history() == other.history()
        &&& self.rates() == other.rates()
    }

    /// The number of event numbers drawn so far for a principal.
    pub open spec fn event_count(&self, key: Option<Seq<u8>>) -> EventNum {
        match map_get(self.counters(), key) {
            Some(n) => n,
            None => 0,
        }
    }

    /// A state with no rental conditions, requests, agreements, history, rates or locks.
    pub fn new() -> (s: CanisterState)
        ensures
            s.wf(),
            s.conditions() == Map::<RentalConditionId, RentalConditionsView>::empty(),
            s.locks() == Set::<(Seq<u8>, Seq<char>)>::empty(),
            s.requests() == Map::<Seq<u8>, RentalRequestView>::empty(),
            s.agreements() == Map::<Seq<u8>, RentalAgreementView>::empty(),
            s.condition_order() == Seq::<RentalConditionId>::empty(),
            s.request_order() == Seq::<Seq<u8>>::empty(),
            s.agreement_order() == Seq::<Seq<u8>>::empty(),
            s.counters() == Map::<Option<Seq<u8>>, EventNum>::empty(),
            s.history() == Map::<(Option<Seq<u8>>, EventNum), EventView>::empty(),
            s.rates() == Map::<u64, (u64, u32)>::empty(),
    {
        CanisterState {
            rental_conditions: KeyedMap::new(),
            locks: KeyedMap::new(),
            rental_requests: KeyedMap::new(),
            rental_agreements: KeyedMap::new(),
            event_counters: KeyedMap::new(),
            history: KeyedMap::new(),
            rates: RateCache::new(),
        }
    }
}

// ====================================================================================================================
// Locks

/// A way to acquire locks for a principal before entering a critical section.
/// The tag tells apart different types of locks for the same principal.
pub struct CallerGuard {
    id: LockId,
}

impl View for CallerGuard {
    type V = (Seq<u8>, Seq<char>);

    closed spec fn view(&self) -> (Seq<u8>, Seq<char>) {
        self.id.key_view()
    }
}

impl CallerGuard {
    /// Acquires the lock (principal, tag), or fails if it is already held.
    pub fn new(state: &mut CanisterState, principal: Principal, tag: &str) -> (r: Result<
        CallerGuard,
        String,
    >)
        requires
            old(state).wf(),
        ensures
            final(state).wf(),
            r is Ok <==> !old(state).locks().contains((principal@, tag@)),
            r matches Ok(g) ==> g@ == (principal@, tag@) && final(state).locks() == old(
                state,
            ).locks().insert((principal@, tag@)),
            r is Err ==> final(state).locks() == old(state).locks(),
            r matches Err(e) ==> e@ == "Failed to acquire lock"@,
            final(state).conditions() == old(state).conditions(),
            final(state).requests() == old(state).requests(),
            final(state).request_order() == old(state).request_order(),
            final(state).agreements() == old(state).agreements(),
            final(state).agreement_order() == old(state).agreement_order(),
            final(state).counters() == old(state).counters(),
            final(state).history() == old(state).history(),
            final(state).rates() == old(state).rates(),
    {
        let id = LockId { principal, tag: String::from_str(tag) };
        if state.locks.contains_key(&id) {
            return Err(String::from_str("Failed to acquire lock"));
        }
        let guard_id = id.key_clone();
        state.locks.insert(id, ());
        Ok(CallerGuard { id: guard_id })
    }

    /// Releases the lock this guard holds.
    pub fn release(self, state: &mut CanisterState)
        requires
            old(state).wf(),
        ensures
            final(state).wf(),
            final(state).locks() == old(state).locks().remove(self@),
            final(state).conditions() == old(state).conditions(),
            final(state).requests() == old(state).requests(),
            final(state).request_order() == old(state).request_order(),
            final(state).agreements() == old(state).agreements(),
            final(state).agreement_order() == old(state).agreement_order(),
            final(state).counters() == old(state).counters(),
            final(state).history() == old(state).history(),
            final(state).rates() == old(state).rates(),
    {
        state.locks.remove(&self.id);
    }
}

/// Releases the lock (principal, tag), if it is held: what dropping its guard does when a
/// call that holds it is cleaned up after a trap.
pub fn release_lock(state: &mut CanisterState, principal: &Principal, tag: &str)
    requires
        old(state).wf(),
    ensures
        final(state).wf(),
        final(state).locks() == old(state).locks().remove((principal@, tag@)),
        final(state).same_but_locks(*old(state)),
{
    let id = LockId { principal: principal.clone(), tag: String::from_str(tag) };
    state.locks.remove(&id);
}

/// Whether the lock (principal, tag) is held.
pub fn is_locked(state: &CanisterState, principal: &Principal, tag: &str) -> (b: bool)
    requires
        state.wf(),
    ensures
        b == state.locks().contains((principal@, tag@)),
{
    let id = LockId { principal: principal.clone(), tag: String::from_str(tag) };
    state.locks.contains_key(&id)
}

// ====================================================================================================================
// The order of principals

/// The keys are in increasing order of principals.
pub open spec fn in_principal_order(keys: Seq<Seq<u8>>) -> bool {
    forall|i: int, j: int|
        0 <= i < j < keys.len() ==> principal_lt(#[trigger] keys[i], #[trigger] keys[j])
}

/// The principals of a finite set, in increasing order.
pub open spec fn principal_order_of(set: Set<Seq<u8>>) -> Seq<Seq<u8>> {
    choose|keys: Seq<Seq<u8>>| in_principal_order(keys) && keys.to_set() == set
}

/// Principals in increasing order are the principal order of their set.
pub proof fn lemma_principal_order_of(keys: Seq<Seq<u8>>)
    requires
        in_principal_order(keys),
    ensures
        principal_order_of(keys.to_set()) == keys,
{
    let other = principal_order_of(keys.to_set());
    lemma_in_order_unique(keys, other);
}

/// Two sequences in increasing order of principals with the same elements are the same.
proof fn lemma_in_order_unique(a: Seq<Seq<u8>>, b: Seq<Seq<u8>>)
    requires
        in_principal_order(a),
        in_principal_order(b),
        a.to_set() == b.to_set(),
    ensures
        a == b,
    decreases a.len(),
{
    if a.len() == 0 {
        if b.len() > 0 {
            assert(b.to_set().contains(b[0]));
        }
        assert(a =~= b);
    } else {
        if b.len() == 0 {
            assert(a.to_set().contains(a[0]));
        }
        assert(b.to_set().contains(a[0]));
        assert(a.to_set().contains(b[0]));
        let j = choose|j: int| 0 <= j < b.len() && b[j] == a[0];
        let i = choose|i: int| 0 <= i < a.len() && a[i] == b[0];
        if a[0] != b[0] {
            assert(principal_lt(b[0], b[j]));
            assert(principal_lt(a[0], a[i]));
            lemma_principal_order(a[0], b[0], a[0]);
        }
        let a1 = a.drop_first();
        let b1 = b.drop_first();
        assert forall|x| a1.to_set().contains(x) <==> b1.to_set().contains(x) by {
            if a1.to_set().contains(x) {
                let k = choose|k: int| 0 <= k < a1.len() && a1[k] == x;
                assert(principal_lt(a[0], a[k + 1]));
                lemma_principal_order(a[0], a[0], a[0]);
                assert(b.to_set().contains(x));
                let m = choose|m: int| 0 <= m < b.len() && b[m] == x;
                assert(m != 0);
                assert(b1[m - 1] == x);
            }
            if b1.to_set().contains(x) {
                let k = choose|k: int| 0 <= k < b1.len() && b1[k] == x;
                assert(principal_lt(b[0], b[k + 1]));
                lemma_principal_order(b[0], b[0], b[0]);
                assert(a.to_set().contains(x));
                let m = choose|m: int| 0 <= m < a.len() && a[m] == x;
                assert(m != 0);
                assert(a1[m - 1] == x);
            }
        }
        assert(a1.to_set() =~= b1.to_set());
        lemma_in_order_unique(a1, b1);
        assert(a =~= seq![a[0]] + a1);
        assert(b =~= seq![b[0]] + b1);
    }
}

/// A principal not among some in increasing order can be put in among them.
proof fn lemma_insert_in_order(s: Seq<Seq<u8>>, x: Seq<u8>) -> (t: Seq<Seq<u8>>)
    requires
        in_principal_order(s),
        !s.contains(x),
    ensures
        in_principal_order(t),
        t.to_set() == s.to_set().insert(x),
    decreases s.len(),
{
    if s.len() == 0 {
        let t = seq![x];
        assert(t.to_set() =~= s.to_set().insert(x)) by {
            assert(t[0] == x);
        }
        t
    } else if principal_lt(x, s[0]) {
        let t = seq![x] + s;
        assert forall|i: int, j: int| 0 <= i < j < t.len() implies principal_lt(
            #[trigger] t[i],
            #[trigger] t[j],
        ) by {
            if i == 0 {
                if j > 1 {
                    assert(principal_lt(s[0], s[j - 1]));
                    lemma_principal_order(x, s[0], s[j - 1]);
                }
            } else {
                assert(principal_lt(s[i - 1], s[j - 1]));
            }
        }
        assert forall|y| t.to_set().contains(y) <==> s.to_set().insert(x).contains(y) by {
            if s.contains(y) {
                let k = choose|k: int| 0 <= k < s.len() && s[k] == y;
                assert(t[k + 1] == y);
            }
            if t.contains(y) {
                let k = choose|k: int| 0 <= k < t.len() && t[k] == y;
                if k > 0 {
                    assert(s[k - 1] == y);
                }
            }
            assert(t[0] == x);
        }
        assert(t.to_set() =~= s.to_set().insert(x));
        t
    } else {
        let h = s[0];
        let rest = s.drop_first();
        assert(h != x);
        lemma_principal_order(x, h, x);
        assert(principal_lt(h, x));
        assert(in_principal_order(rest)) by {
            assert forall|i: int, j: int| 0 <= i < j < rest.len() implies principal_lt(
                #[trigger] rest[i],
                #[trigger] rest[j],
            ) by {
                assert(principal_lt(s[i + 1], s[j + 1]));
            }
        }
        assert(!rest.contains(x)) by {
            if rest.contains(x) {
                let k = choose|k: int| 0 <= k < rest.len() && rest[k] == x;
                assert(s[k + 1] == x);
            }
        }
        let u = lemma_insert_in_order(rest, x);
        let t = seq![h] + u;
        assert forall|i: int, j: int| 0 <= i < j < t.len() implies principal_lt(
            #[trigger] t[i],
            #[trigger] t[j],
        ) by {
            if i == 0 {
                let y = u[j - 1];
                assert(u.to_set().contains(y));
                assert(rest.to_set().insert(x).contains(y));
                if y != x {
                    let k = choose|k: int| 0 <= k < rest.len() && rest[k] == y;
                    assert(principal_lt(s[0], s[k + 1]));
                }
            } else {
                assert(principal_lt(u[i - 1], u[j - 1]));
            }
        }
        assert forall|y| t.to_set().contains(y) <==> s.to_set().insert(x).contains(y) by {
            if t.contains(y) {
                let k = choose|k: int| 0 <= k < t.len() && t[k] == y;
                if k > 0 {
                    assert(u[k - 1] == y);
                    assert(u.to_set().contains(y));
                    assert(rest.to_set().insert(x).contains(y));
                    if y != x {
                        let m = choose|m: int| 0 <= m < rest.len() && rest[m] == y;
                        assert(s[m + 1] == y);
                    }
                } else {
                    assert(s[0] == y);
                }
            }
            if s.to_set().insert(x).contains(y) {
                if y == h {
                    assert(t[0] == y);
                } else {
                    if y != x {
                        let k = choose|k: int| 0 <= k < s.len() && s[k] == y;
                        assert(k != 0);
                        assert(rest[k - 1] == y);
                    }
                    assert(rest.to_set().insert(x).contains(y));
                    assert(u.to_set().contains(y));
                    let m = choose|m: int| 0 <= m < u.len() && u[m] == y;
                    assert(t[m + 1] == y);
                }
            }
        }
        assert(t.to_set() =~= s.to_set().insert(x));
        t
    }
}

/// Every finite set of principals has an order: its principals, each once, in increasing
/// order.
pub proof fn lemma_principal_order_exists(set: Set<Seq<u8>>)
    requires
        set.finite(),
    ensures
        in_principal_order(principal_order_of(set)),
        principal_order_of(set).to_set() == set,
    decreases set.len(),
{
    if set.len() == 0 {
        set.lemma_len0_is_empty();
        let e = Seq::<Seq<u8>>::empty();
        assert(e.to_set() =~= set);
        assert(in_principal_order(e) && e.to_set() == set);
    } else {
        let x = set.choose();
        assert(set.contains(x)) by {
            vstd::set_lib::lemma_set_empty_equivalency_len(set);
        }
        let smaller = set.remove(x);
        lemma_principal_order_exists(smaller);
        let s = principal_order_of(smaller);
        assert(!s.contains(x)) by {
            if s.contains(x) {
                assert(s.to_set().contains(x));
            }
        }
        let t = lemma_insert_in_order(s, x);
        assert(t.to_set() =~= set);
        assert(in_principal_order(t) && t.to_set() == set);
    }
}

/// The views of some principals.
pub open spec fn principal_views(s: Seq<Principal>) -> Seq<Seq<u8>> {
    Seq::new(s.len(), |i: int| s[i]@)
}

/// The given principals, all different, in increasing order.
pub fn sort_principals(keys: &Vec<Principal>) -> (r: Vec<Principal>)
    requires
        principal_views(keys@).no_duplicates(),
    ensures
        r@.len() == keys@.len(),
        in_principal_order(principal_views(r@)),
        principal_views(r@).to_set() == principal_views(keys@).to_set(),
{
    let ghost kv = principal_views(keys@);
    let mut r: Vec<Principal> = Vec::new();
    let mut k: usize = 0;
    proof {
        assert(principal_views(r@).to_set() =~= kv.take(0).to_set());
    }
    while k < keys.len()
        invariant
            k <= keys@.len(),
            kv == principal_views(keys@),
            kv.no_duplicates(),
            r@.len() == k,
            in_principal_order(principal_views(r@)),
            principal_views(r@).to_set() == kv.take(k as int).to_set(),
        decreases keys@.len() - k,
    {
        let e = keys[k].clone();
        let ghost vs = principal_views(r@);
        let ghost ev = e@;
        proof {
            assert(ev == kv[k as int]);
            if vs.to_set().contains(ev) {
                assert(kv.take(k as int).to_set().contains(ev));
                let t = choose|t: int| 0 <= t < k && kv.take(k as int)[t] == ev;
                assert(kv[t] == kv[k as int]);
            }
        }
        let mut p: usize = 0;
        while p < r.len() && !e.precedes(&r[p])
            invariant
                p <= r@.len(),
                vs == principal_views(r@),
                ev == e@,
                !vs.to_set().contains(ev),
                forall|t: int| 0 <= t < p ==> principal_lt(#[trigger] vs[t], ev),
            decreases r@.len() - p,
        {
            proof {
                assert(vs[p as int] == r@[p as int]@);
                assert(vs.to_set().contains(vs[p as int]));
                lemma_principal_order(ev, vs[p as int], ev);
            }
            p = p + 1;
        }
        proof {
            if p < r@.len() {
                assert(vs[p as int] == r@[p as int]@);
            }
        }
        r.insert(p, e);
        proof {
            let n = principal_views(r@);
            vs.insert_ensures(p as int, ev);
            assert(n =~= vs.insert(p as int, ev));
            assert forall|i: int, j: int| 0 <= i < j < n.len() implies principal_lt(
                #[trigger] n[i],
                #[trigger] n[j],
            ) by {
                if j < p {
                } else if j == p {
                } else if i < p {
                    assert(n[j] == vs[j - 1]);
                    assert(principal_lt(vs[i], vs[j - 1]));
                } else if i == p {
                    assert(n[j] == vs[j - 1]);
                    if j - 1 > p {
                        assert(principal_lt(vs[p as int], vs[j - 1]));
                        lemma_principal_order(ev, vs[p as int], vs[j - 1]);
                    }
                } else {
                    assert(n[i] == vs[i - 1]);
                    assert(n[j] == vs[j - 1]);
                }
            }
            let t1 = kv.take(k + 1);
            assert forall|x| n.to_set().contains(x) <==> t1.to_set().contains(x) by {
                if n.to_set().contains(x) {
                    let i = choose|i: int| 0 <= i < n.len() && n[i] == x;
                    if i == p {
                        assert(t1[k as int] == x);
                    } else {
                        let i2 = if i < p { i } else { i - 1 };
                        assert(vs[i2] == x);
                        assert(vs.to_set().contains(x));
                        assert(kv.take(k as int).to_set().contains(x));
                        let m = choose|m: int| 0 <= m < k && kv.take(k as int)[m] == x;
                        assert(t1[m] == x);
                    }
                }
                if t1.to_set().contains(x) {
                    let m = choose|m: int| 0 <= m < k + 1 && t1[m] == x;
                    if m == k {
                        assert(n[p as int] == x);
                    } else {
                        assert(kv.take(k as int)[m] == x);
                        assert(kv.take(k as int).to_set().contains(x));
                        assert(vs.to_set().contains(x));
                        let i = choose|i: int| 0 <= i < vs.len() && vs[i] == x;
                        if i < p {
                            assert(n[i] == x);
                        } else {
                            assert(n[i + 1] == x);
                        }
                    }
                }
            }
            assert(n.to_set() =~= t1.to_set());
        }
        k = k + 1;
    }
    proof {
        assert(kv.take(keys@.len() as int) =~= kv);
    }
    r
}

// ====================================================================================================================
// Rental conditions

pub fn get_rental_conditions(state: &CanisterState, key: RentalConditionId) -> (r: Option<
    RentalConditions,
>)
    requires
        state.wf(),
    ensures
        r is Some <==> state.conditions().contains_key(key),
        r matches Some(c) ==> c@ == state.conditions()[key],
{
    state.rental_conditions.get(&key)
}

pub fn insert_rental_condition(
    state: &mut CanisterState,
    key: RentalConditionId,
    value: RentalConditions,
)
    requires
        old(state).wf(),
    ensures
        final(state).wf(),
        final(state).conditions() == old(state).conditions().insert(key, value@),
        final(state).locks() == old(state).locks(),
        final(state).requests() == old(state).requests(),
        final(state).request_order() == old(state).request_order(),
        final(state).agreements() == old(state).agreements(),
        final(state).agreement_order() == old(state).agreement_order(),
        final(state).counters() == old(state).counters(),
        final(state).history() == old(state).history(),
        final(state).rates() == old(state).rates(),
{
    state.rental_conditions.insert(key, value);
}

/// All rental conditions, each id once, in the order in which they were first set.
pub fn iter_rental_conditions(state: &CanisterState) -> (r: Vec<(RentalConditionId, RentalConditions)>)
    requires
        state.wf(),
    ensures
        r@.len() == state.conditions().dom().len(),
        r@.len() == state.condition_order().len(),
        forall|i: int| 0 <= i < r@.len() ==> (#[trigger] r@[i]).0 == state.condition_order()[i],
        forall|i: int|
            0 <= i < r@.len() ==> state.conditions().contains_key((#[trigger] r@[i]).0)
                && r@[i].1@ == state.conditions()[r@[i].0],
        forall|i: int, j: int|
            0 <= i < j < r@.len() ==> (#[trigger] r@[i]).0 != (#[trigger] r@[j]).0,
{
    proof {
        state.rental_conditions.lemma_key_order();
    }
    let r = state.rental_conditions.entries();
    proof {
        let ko = state.rental_conditions.key_order();
        assert forall|i: int, j: int| 0 <= i < j < r@.len() implies (#[trigger] r@[i]).0
            != (#[trigger] r@[j]).0 by {
            assert(ko[i] != ko[j]);
        }
    }
    r
}

// ====================================================================================================================
// Rental requests

pub fn get_rental_request(state: &CanisterState, user: &Principal) -> (r: Option<RentalRequest>)
    requires
        state.wf(),
    ensures
        r is Some <==> state.requests().contains_key(user@),
        r matches Some(q) ==> q@ == state.requests()[user@],
{
    state.rental_requests.get(user)
}

/// Used to mutate an existing rental request: the request of `requester` becomes what `f`
/// makes of it. Fails if `requester` has no rental request.
pub fn update_rental_request(
    state: &mut CanisterState,
    requester: Principal,
    f: impl FnOnce(RentalRequest) -> RentalRequest,
) -> (r: Result<(), String>)
    requires
        old(state).wf(),
        forall|q: RentalRequest|
            q@ == old(state).requests()[requester@] ==> #[trigger] f.requires((q,)),
    ensures
        final(state).wf(),
        r is Ok <==> old(state).requests().contains_key(requester@),
        r is Ok ==> exists|q: RentalRequest, q2: RentalRequest|
            q@ == old(state).requests()[requester@] && #[trigger] f.ensures((q,), q2)
                && final(state).requests() == old(state).requests().insert(requester@, q2@),
        r is Err ==> final(state).requests() == old(state).requests(),
        r matches Err(e) ==> e@ == "Princial has no rental agreement."@,
        final(state).request_order() == old(state).request_order(),
        final(state).conditions() == old(state).conditions(),
        final(state).locks() == old(state).locks(),
        final(state).agreements() == old(state).agreements(),
        final(state).agreement_order() == old(state).agreement_order(),
        final(state).counters() == old(state).counters(),
        final(state).history() == old(state).history(),
        final(state).rates() == old(state).rates(),
{
    match state.rental_requests.get(&requester) {
        None => Err(String::from_str("Princial has no rental agreement.")),
        Some(value) => {
            let ghost q = value;
            let q2 = f(value);
            state.rental_requests.insert(requester, q2);
            Ok(())
        },
    }
}

pub fn remove_rental_request(state: &mut CanisterState, requester: &Principal) -> (r: Option<
    RentalRequest,
>)
    requires
        old(state).wf(),
    ensures
        final(state).wf(),
        r is Some <==> old(state).requests().contains_key(requester@),
        r matches Some(q) ==> q@ == old(state).requests()[requester@],
        final(state).requests() == old(state).requests().remove(requester@),
        final(state).request_order() == old(state).request_order().filter(
            |k: Seq<u8>| k != requester@,
        ),
        final(state).conditions() == old(state).conditions(),
        final(state).locks() == old(state).locks(),
        final(state).agreements() == old(state).agreements(),
        final(state).agreement_order() == old(state).agreement_order(),
        final(state).counters() == old(state).counters(),
        final(state).history() == old(state).history(),
        final(state).rates() == old(state).rates(),
{
    state.rental_requests.remove(requester)
}

/// All rental requests, in increasing order of their users.
pub fn iter_rental_requests(state: &CanisterState) -> (r: Vec<(Principal, RentalRequest)>)
    requires
        state.wf(),
    ensures
        in_principal_order(principal_order_of(state.requests().dom())),
        principal_order_of(state.requests().dom()).to_set() == state.requests().dom(),
        r@.len() == principal_order_of(state.requests().dom()).len(),
        r@.len() == state.requests().dom().len(),
        forall|i: int|
            0 <= i < r@.len() ==> (#[trigger] r@[i]).0@ == principal_order_of(state.requests().dom())[i]
                && state.requests().contains_key(r@[i].0@) && r@[i].1@ == state.requests()[r@[i].0@],
{
    proof {
        state.rental_requests.lemma_key_order();
    }
    let entries = state.rental_requests.entries();
    let ghost ko = state.request_order();
    let mut keys: Vec<Principal> = Vec::new();
    let mut i: usize = 0;
    while i < entries.len()
        invariant
            state.wf(),
            ko == state.request_order(),
            i <= entries@.len(),
            entries@.len() == ko.len(),
            forall|j: int| 0 <= j < entries@.len() ==> (#[trigger] entries@[j]).0@ == ko[j],
            keys@.len() == i,
            principal_views(keys@) == ko.take(i as int),
        decreases entries@.len() - i,
    {
        let c = entries[i].0.clone();
        let ghost before = keys@;
        keys.push(c);
        proof {
            assert(keys@ == before.push(c));
            assert forall|t: int| 0 <= t < i + 1 implies principal_views(keys@)[t] == ko.take(
                i + 1,
            )[t] by {
                assert(principal_views(keys@)[t] == keys@[t]@);
                if t < i {
                    assert(keys@[t] == before[t]);
                    assert(principal_views(before)[t] == before[t]@);
                    assert(principal_views(before)[t] == ko.take(i as int)[t]);
                } else {
                    assert(keys@[t] == c);
                    assert(entries@[t].0@ == ko[t]);
                }
            }
            assert(principal_views(keys@) =~= ko.take(i + 1));
        }
        i = i + 1;
    }
    proof {
        assert(ko.take(entries@.len() as int) =~= ko);
    }
    let sorted = sort_principals(&keys);
    let ghost sv = principal_views(sorted@);
    proof {
        lemma_principal_order_of(sv);
        state.lemma_orders();
    }
    let mut r: Vec<(Principal, RentalRequest)> = Vec::new();
    let mut j: usize = 0;
    while j < sorted.len()
        invariant
            state.wf(),
            sv == principal_views(sorted@),
            sv.to_set() == state.requests().dom(),
            j <= sorted@.len(),
            r@.len() == j,
            forall|t: int|
                0 <= t < j ==> (#[trigger] r@[t]).0@ == sv[t] && state.requests().contains_key(
                    r@[t].0@,
                ) && r@[t].1@ == state.requests()[r@[t].0@],
        decreases sorted@.len() - j,
    {
        proof {
            assert(sv[j as int] == sorted@[j as int]@);
            assert(sv.to_set().contains(sv[j as int]));
        }
        let key = sorted[j].clone();
        let value = state.rental_requests.get(&sorted[j]).unwrap();
        r.push((key, value));
        j = j + 1;
    }
    r
}

// ====================================================================================================================
// Rental agreements

/// Returns the rental agreement for the given subnet_id.
pub fn get_rental_agreement(state: &CanisterState, subnet_id: &Principal) -> (r: Option<
    RentalAgreement,
>)
    requires
        state.wf(),
    ensures
        r is Some <==> state.agreements().contains_key(subnet_id@),
        r matches Some(a) ==> a@ == state.agreements()[subnet_id@],
{
    state.rental_agreements.get(subnet_id)
}

/// All rental agreements, in increasing order of their subnets.
pub fn iter_rental_agreements(state: &CanisterState) -> (r: Vec<(Principal, RentalAgreement)>)
    requires
        state.wf(),
    ensures
        in_principal_order(principal_order_of(state.agreements().dom())),
        principal_order_of(state.agreements().dom()).to_set() == state.agreements().dom(),
        r@.len() == principal_order_of(state.agreements().dom()).len(),
        r@.len() == state.agreements().dom().len(),
        forall|i: int|
            0 <= i < r@.len() ==> (#[trigger] r@[i]).0@ == principal_order_of(state.agreements().dom())[i]
                && state.agreements().contains_key(r@[i].0@) && r@[i].1@ == state.agreements()[r@[i].0@],
{
    proof {
        state.rental_agreements.lemma_key_order();
    }
    let entries = state.rental_agreements.entries();
    let ghost ko = state.agreement_order();
    let mut keys: Vec<Principal> = Vec::new();
    let mut i: usize = 0;
    while i < entries.len()
        invariant
            state.wf(),
            ko == state.agreement_order(),
            i <= entries@.len(),
            entries@.len() == ko.len(),
            forall|j: int| 0 <= j < entries@.len() ==> (#[trigger] entries@[j]).0@ == ko[j],
            keys@.len() == i,
            principal_views(keys@) == ko.take(i as int),
        decreases entries@.len() - i,
    {
        let c = entries[i].0.clone();
        let ghost before = keys@;
        keys.push(c);
        proof {
            assert(keys@ == before.push(c));
            assert forall|t: int| 0 <= t < i + 1 implies principal_views(keys@)[t] == ko.take(
                i + 1,
            )[t] by {
                assert(principal_views(keys@)[t] == keys@[t]@);
                if t < i {
                    assert(keys@[t] == before[t]);
                    assert(principal_views(before)[t] == before[t]@);
                    assert(principal_views(before)[t] == ko.take(i as int)[t]);
                } else {
                    assert(keys@[t] == c);
                    assert(entries@[t].0@ == ko[t]);
                }
            }
            assert(principal_views(keys@) =~= ko.take(i + 1));
        }
        i = i + 1;
    }
    proof {
        assert(ko.take(entries@.len() as int) =~= ko);
    }
    let sorted = sort_principals(&keys);
    let ghost sv = principal_views(sorted@);
    proof {
        lemma_principal_order_of(sv);
        state.lemma_orders();
    }
    let mut r: Vec<(Principal, RentalAgreement)> = Vec::new();
    let mut j: usize = 0;
    while j < sorted.len()
        invariant
            state.wf(),
            sv == principal_views(sorted@),
            sv.to_set() == state.agreements().dom(),
            j <= sorted@.len(),
            r@.len() == j,
            forall|t: int|
                0 <= t < j ==> (#[trigger] r@[t]).0@ == sv[t] && state.agreements().contains_key(
                    r@[t].0@,
                ) && r@[t].1@ == state.agreements()[r@[t].0@],
        decreases sorted@.len() - j,
    {
        proof {
            assert(sv[j as int] == sorted@[j as int]@);
            assert(sv.to_set().contains(sv[j as int]));
        }
        let key = sorted[j].clone();
        let value = state.rental_agreements.get(&sorted[j]).unwrap();
        r.push((key, value));
        j = j + 1;
    }
    r
}

/// Used to mutate an existing rental agreement: the agreement of `subnet_id` becomes what `f`
/// makes of it. Fails if the subnet has no rental agreement.
pub fn update_rental_agreement(
    state: &mut CanisterState,
    subnet_id: Principal,
    f: impl FnOnce(RentalAgreement) -> RentalAgreement,
) -> (r: Result<(), String>)
    requires
        old(state).wf(),
        forall|a: RentalAgreement|
            a@ == old(state).agreements()[subnet_id@] ==> #[trigger] f.requires((a,)),
    ensures
        final(state).wf(),
        r is Ok <==> old(state).agreements().contains_key(subnet_id@),
        r is Ok ==> exists|a: RentalAgreement, a2: RentalAgreement|
            a@ == old(state).agreements()[subnet_id@] && #[trigger] f.ensures((a,), a2)
                && final(state).agreements() == old(state).agreements().insert(subnet_id@, a2@),
        r is Err ==> final(state).agreements() == old(state).agreements(),
        r matches Err(e) ==> e@ == "Subnet_id has no rental agreement."@,
        final(state).agreement_order() == old(state).agreement_order(),
        final(state).conditions() == old(state).conditions(),
        final(state).locks() == old(state).locks(),
        final(state).requests() == old(state).requests(),
        final(state).request_order() == old(state).request_order(),
        final(state).counters() == old(state).counters(),
        final(state).history() == old(state).history(),
        final(state).rates() == old(state).rates(),
{
    match state.rental_agreements.get(&subnet_id) {
        None => Err(String::from_str("Subnet_id has no rental agreement.")),
        Some(value) => {
            let a2 = f(value);
            state.rental_agreements.insert(subnet_id, a2);
            Ok(())
        },
    }
}

// ====================================================================================================================
// Exchange rates

pub fn get_cached_rate(state: &CanisterState, time: u64) -> (r: Option<(u64, u32)>)
    ensures
        r == map_get(state.rates(), time),
{
    state.rates.get(time)
}

pub fn cache_rate(state: &mut CanisterState, time: u64, rate: u64, decimals: u32)
    requires
        old(state).wf(),
    ensures
        final(state).wf(),
        final(state).rates() == old(state).rates().insert(time, (rate, decimals)),
        final(state).conditions() == old(state).conditions(),
        final(state).locks() == old(state).locks(),
        final(state).requests() == old(state).requests(),
        final(state).request_order() == old(state).request_order(),
        final(state).agreements() == old(state).agreements(),
        final(state).agreement_order() == old(state).agreement_order(),
        final(state).counters() == old(state).counters(),
        final(state).history() == old(state).history(),
{
    state.rates.insert(time, (rate, decimals));
}

// ====================================================================================================================
// History

/// Returns the next unused sequence number for the given principal and increases
/// the underlying counter. Starts at 0.
pub fn next_seq(state: &mut CanisterState, mbp: Option<Principal>) -> (seq: EventNum)
    requires
        old(state).wf(),
        old(state).event_count(opt_principal_view(mbp)) < u64::MAX,
    ensures
        final(state).wf(),
        seq == old(state).event_count(opt_principal_view(mbp)),
        final(state).counters() == old(state).counters().insert(opt_principal_view(mbp), (seq + 1) as EventNum),
        final(state).conditions() == old(state).conditions(),
        final(state).locks() == old(state).locks(),
        final(state).requests() == old(state).requests(),
        final(state).request_order() == old(state).request_order(),
        final(state).agreements() == old(state).agreements(),
        final(state).agreement_order() == old(state).agreement_order(),
        final(state).history() == old(state).history(),
        final(state).rates() == old(state).rates(),
{
    let cur = match state.event_counters.get(&mbp) {
        Some(n) => n,
        None => 0,
    };
    state.event_counters.insert(mbp, cur + 1);
    cur
}

/// The largest event number drawn for `key`, if any.
pub open spec fn current_seq(state: CanisterState, key: Option<Seq<u8>>) -> Option<EventNum> {
    if state.event_count(key) == 0 {
        None
    } else {
        Some((state.event_count(key) - 1) as EventNum)
    }
}

/// Before any number is drawn there is no current one for any key.
pub proof fn lemma_no_current_seq_at_start(state: CanisterState, key: Option<Seq<u8>>)
    requires
        state.counters() == Map::<Option<Seq<u8>>, EventNum>::empty(),
    ensures
        current_seq(state, key) is None,
{
}

/// Drawing a number for `key` (as `next_seq` and `persist_event` do) makes it the current
/// one, makes the next draw give the number after it, and leaves the other keys alone;
/// before the draw the current number was the one before it, or none for the first draw.
pub proof fn lemma_seq_counter(before: CanisterState, after: CanisterState, key: Option<Seq<u8>>, seq: EventNum)
    requires
        before.event_count(key) < u64::MAX,
        seq == before.event_count(key),
        after.counters() == before.counters().insert(key, (seq + 1) as EventNum),
    ensures
        current_seq(after, key) == Some(seq),
        after.event_count(key) == seq + 1,
        current_seq(before, key) == (if seq == 0 {
            None::<EventNum>
        } else {
            Some((seq - 1) as EventNum)
        }),
        forall|k: Option<Seq<u8>>|
            k != key ==> #[trigger] after.event_count(k) == before.event_count(k) && current_seq(
                after,
                k,
            ) == current_seq(before, k),
{
}

/// Returns the largest _used_ sequence number without increasing the underlying counter.
/// Returns None if no sequence number has been drawn for this principal yet.
pub fn get_current_seq(state: &CanisterState, mbp: &Option<Principal>) -> (r: Option<EventNum>)
    requires
        state.wf(),
    ensures
        r == current_seq(*state, opt_principal_view(*mbp)),
{
    match state.event_counters.get(mbp) {
        Some(n) => n.checked_sub(1),
        None => None,
    }
}

/// Records `event` under the next event number of `key`.
pub fn persist_event(state: &mut CanisterState, event: Event, key: Option<Principal>)
    requires
        old(state).wf(),
        old(state).event_count(opt_principal_view(key)) < u64::MAX,
    ensures
        final(state).wf(),
        final(state).history() == old(state).history().insert(
            (opt_principal_view(key), old(state).event_count(opt_principal_view(key))),
            event@,
        ),
        final(state).counters() == old(state).counters().insert(
            opt_principal_view(key),
            (old(state).event_count(opt_principal_view(key)) + 1) as EventNum,
        ),
        final(state).conditions() == old(state).conditions(),
        final(state).locks() == old(state).locks(),
        final(state).requests() == old(state).requests(),
        final(state).request_order() == old(state).request_order(),
        final(state).agreements() == old(state).agreements(),
        final(state).agreement_order() == old(state).agreement_order(),
        final(state).rates() == old(state).rates(),
{
    let key2 = key.key_clone();
    let seq = next_seq(state, key);
    state.history.insert((key2, seq), event);
}

/// The events recorded for `key` with numbers from `low` (inclusive) to `high` (exclusive),
/// oldest first.
pub open spec fn history_range(
    history: Map<(Option<Seq<u8>>, EventNum), EventView>,
    key: Option<Seq<u8>>,
    low: EventNum,
    high: EventNum,
) -> Seq<EventView>
    decreases high - low,
{
    if high <= low {
        Seq::empty()
    } else {
        let before = history_range(history, key, low, (high - 1) as EventNum);
        match map_get(history, (key, (high - 1) as EventNum)) {
            Some(e) => before.push(e),
            None => before,
        }
    }
}

/// The number just past the newest event of a page: `older_than` if given, else the number
/// of event numbers drawn for the principal.
pub open spec fn page_high(state: CanisterState, key: Option<Seq<u8>>, older_than: Option<u64>) -> EventNum {
    match older_than {
        Some(h) => h,
        None => state.event_count(key),
    }
}

/// The number of the oldest event of a page.
pub open spec fn page_low(high: EventNum, page_size: u64) -> EventNum {
    if high >= page_size {
        (high - page_size) as EventNum
    } else {
        0
    }
}

/// Returns a page of events for the given principal, and the event number of the oldest event in that page.
/// If older_than is None, the most recent page is returned.
/// Otherwise, the provided event number is just outside of (i.e., more recent than) the returned page,
/// all elements of which are older than the given value.
pub fn get_history_page(
    state: &CanisterState,
    principal: Option<Principal>,
    older_than: Option<u64>,
    page_size: u64,
) -> (r: (Vec<Event>, u64))
    requires
        state.wf(),
    ensures
        r.1 == page_low(page_high(*state, opt_principal_view(principal), older_than), page_size),
        r.0@.map_values(|e: Event| e@) == history_range(
            state.history(),
            opt_principal_view(principal),
            r.1,
            page_high(*state, opt_principal_view(principal), older_than),
        ),
{
    let high_seq: u64 = match older_than {
        Some(h) => h,
        None => match get_current_seq(state, &principal) {
            Some(x) => x + 1,
            None => 0,
        },
    };
    let low_seq = high_seq.saturating_sub(page_size);
    let ghost key = opt_principal_view(principal);
    let mut page: Vec<Event> = Vec::new();
    let mut seq = low_seq;
    while seq < high_seq
        invariant
            state.wf(),
            key == opt_principal_view(principal),
            low_seq <= seq <= high_seq,
            page@.map_values(|e: Event| e@) == history_range(state.history(), key, low_seq, seq),
        decreases high_seq - seq,
    {
        let k = (principal.key_clone(), seq);
        let ghost before = page@;
        match state.history.get(&k) {
            Some(e) => {
                page.push(e);
                proof {
                    assert(page@.map_values(|e: Event| e@) =~= before.map_values(|e: Event| e@).push(
                        state.history()[(key, seq)],
                    ));
                }
            },
            None => {},
        }
        seq = seq + 1;
    }
    (page, low_seq)
}

// ====================================================================================================================
// Creating requests and agreements

/// Create a RentalRequest if the user has none, and persist the corresponding event at
/// `now_nanos`.
pub fn persist_rental_request(
    state: &mut CanisterState,
    rental_request: RentalRequest,
    now_nanos: u64,
) -> (r: Result<(), String>)
    requires
        old(state).wf(),
        old(state).event_count(Some(rental_request.user@)) < u64::MAX,
    ensures
        final(state).wf(),
        r is Ok <==> !old(state).requests().contains_key(rental_request.user@),
        r is Ok ==> final(state).requests() == old(state).requests().insert(
            rental_request.user@,
            rental_request@,
        ) && final(state).request_order() == old(state).request_order().push(rental_request.user@)
            && final(state).history() == old(state).history().insert(
            (Some(rental_request.user@), old(state).event_count(Some(rental_request.user@))),
            EventView {
                time_nanos: now_nanos,
                event: crate::history::EventTypeView::RentalRequestCreated {
                    rental_request: rental_request@,
                },
            },
        ) && final(state).counters() == old(state).counters().insert(
            Some(rental_request.user@),
            (old(state).event_count(Some(rental_request.user@)) + 1) as EventNum,
        ),
        r matches Err(e) ==> e@ == "User "@ + principal_text(rental_request.user@)
            + " already has an active RentalRequest"@ && *final(state) == *old(state),
        final(state).conditions() == old(state).conditions(),
        final(state).locks() == old(state).locks(),
        final(state).agreements() == old(state).agreements(),
        final(state).agreement_order() == old(state).agreement_order(),
        final(state).rates() == old(state).rates(),
{
    let user = rental_request.user.clone();
    if state.rental_requests.contains_key(&user) {
        let text = user.to_text();
        return Err(concat3("User ", text.as_str(), " already has an active RentalRequest"));
    }
    let stored = rental_request.clone();
    state.rental_requests.insert(user, stored);
    let key = Some(rental_request.user.clone());
    persist_event(
        state,
        Event::new(now_nanos, EventType::RentalRequestCreated { rental_request }),
        key,
    );
    Ok(())
}

pub fn take_rental_request(state: &mut CanisterState, user: Principal) -> (r: Option<RentalRequest>)
    requires
        old(state).wf(),
    ensures
        final(state).wf(),
        r is Some <==> old(state).requests().contains_key(user@),
        r matches Some(q) ==> q@ == old(state).requests()[user@],
        final(state).requests() == old(state).requests().remove(user@),
        final(state).request_order() == old(state).request_order().filter(
            |k: Seq<u8>| k != user@,
        ),
        final(state).conditions() == old(state).conditions(),
        final(state).locks() == old(state).locks(),
        final(state).agreements() == old(state).agreements(),
        final(state).agreement_order() == old(state).agreement_order(),
        final(state).counters() == old(state).counters(),
        final(state).history() == old(state).history(),
        final(state).rates() == old(state).rates(),
{
    state.rental_requests.remove(&user)
}

/// Create a RentalAgreement if the subnet has none, and persist the corresponding event at
/// `now_nanos`.
pub fn persist_rental_agreement(
    state: &mut CanisterState,
    rental_agreement: RentalAgreement,
    now_nanos: u64,
) -> (r: Result<(), String>)
    requires
        old(state).wf(),
        old(state).event_count(Some(rental_agreement.subnet_id@)) < u64::MAX,
    ensures
        final(state).wf(),
        r is Ok <==> !old(state).agreements().contains_key(rental_agreement.subnet_id@),
        r is Ok ==> final(state).agreements() == old(state).agreements().insert(
            rental_agreement.subnet_id@,
            rental_agreement@,
        ) && final(state).agreement_order() == old(state).agreement_order().push(
            rental_agreement.subnet_id@,
        ) && final(state).history() == old(state).history().insert(
            (
                Some(rental_agreement.subnet_id@),
                old(state).event_count(Some(rental_agreement.subnet_id@)),
            ),
            EventView {
                time_nanos: now_nanos,
                event: crate::history::EventTypeView::RentalAgreementCreated {
                    user: rental_agreement.user@,
                    rental_request_proposal_id: rental_agreement.rental_request_proposal_id,
                    subnet_creation_proposal_id: rental_agreement.subnet_creation_proposal_id,
                    rental_condition_id: rental_agreement.rental_condition_id,
                },
            },
        ) && final(state).counters() == old(state).counters().insert(
            Some(rental_agreement.subnet_id@),
            (old(state).event_count(Some(rental_agreement.subnet_id@)) + 1) as EventNum,
        ),
        r matches Err(e) ==> e@ == "Subnet_id "@ + principal_text(rental_agreement.subnet_id@)
            + " already has an active RentalAgreement"@ && *final(state) == *old(state),
        final(state).conditions() == old(state).conditions(),
        final(state).locks() == old(state).locks(),
        final(state).requests() == old(state).requests(),
        final(state).request_order() == old(state).request_order(),
        final(state).rates() == old(state).rates(),
{
    let subnet_id = rental_agreement.subnet_id.clone();
    if state.rental_agreements.contains_key(&subnet_id) {
        let text = subnet_id.to_text();
        return Err(
            concat3("Subnet_id ", text.as_str(), " already has an active RentalAgreement"),
        );
    }
    let event = EventType::RentalAgreementCreated {
        user: rental_agreement.user.clone(),
        rental_request_proposal_id: rental_agreement.rental_request_proposal_id,
        subnet_creation_proposal_id: rental_agreement.subnet_creation_proposal_id,
        rental_condition_id: rental_agreement.rental_condition_id,
    };
    let key = Some(subnet_id.clone());
    state.rental_agreements.insert(subnet_id, rental_agreement);
    persist_event(state, Event::new(now_nanos, event), key);
    Ok(())
}

} // verus!

verus! {

impl CanisterState {
    /// The order of the requests and of the agreements lists each key once, and exactly the
    /// keys held.
    pub proof fn lemma_orders(&self)
        requires
            self.wf(),
        ensures
            self.request_order().no_duplicates(),
            self.request_order().to_set() == self.requests().dom(),
            self.requests().dom().finite(),
            self.agreement_order().no_duplicates(),
            self.agreement_order().to_set() == self.agreements().dom(),
            self.agreements().dom().finite(),
    {
        self.rental_requests.lemma_key_order();
        self.rental_agreements.lemma_key_order();
    }
}

// ====================================================================================================================
// Snapshots that carry the state across an upgrade

/// What of the state outlives an upgrade: the rental requests and agreements, the event
/// counters, the history and the cached exchange rates, each as a list of entries. (The
/// rental conditions are set again after each upgrade, and locks are not kept.)
pub struct StateSnapshot {
    pub rental_requests: Vec<(Principal, RentalRequest)>,
    pub rental_agreements: Vec<(Principal, RentalAgreement)>,
    pub event_counters: Vec<(Option<Principal>, EventNum)>,
    pub history: Vec<(HistoryKey, Event)>,
    pub rates: Vec<(u64, (u64, u32))>,
}

/// The snapshot lists exactly what the state holds: each list, inserted in order into an
/// empty map, gives the state's map, and the requests and agreements come in their order.
pub open spec fn snapshot_of(state: CanisterState, snapshot: StateSnapshot) -> bool {
    &&& KeyedMap::<Principal, RentalRequest>::entries_map(snapshot.rental_requests@)
        == state.requests()
    &&& KeyedMap::<Principal, RentalRequest>::entry_keys(snapshot.rental_requests@)
        == state.request_order()
    &&& KeyedMap::<Principal, RentalAgreement>::entries_map(snapshot.rental_agreements@)
        == state.agreements()
    &&& KeyedMap::<Principal, RentalAgreement>::entry_keys(snapshot.rental_agreements@)
        == state.agreement_order()
    &&& KeyedMap::<Option<Principal>, EventNum>::entries_map(snapshot.event_counters@)
        == state.counters()
    &&& KeyedMap::<HistoryKey, Event>::entries_map(snapshot.history@) == state.history()
    &&& KeyedMap::<u64, (u64, u32)>::entries_map(snapshot.rates@) == state.rates()
}

/// The state holds what the snapshot lists (a later entry for a key replacing an earlier
/// one), with requests and agreements in the listed order where their keys are distinct,
/// and no rental conditions or locks.
pub open spec fn restored_from(snapshot: StateSnapshot, state: CanisterState) -> bool {
    &&& state.requests() == KeyedMap::<Principal, RentalRequest>::entries_map(
        snapshot.rental_requests@,
    )
    &&& KeyedMap::<Principal, RentalRequest>::entry_keys(snapshot.rental_requests@).no_duplicates()
        ==> state.request_order() == KeyedMap::<Principal, RentalRequest>::entry_keys(
        snapshot.rental_requests@,
    )
    &&& state.agreements() == KeyedMap::<Principal, RentalAgreement>::entries_map(
        snapshot.rental_agreements@,
    )
    &&& KeyedMap::<Principal, RentalAgreement>::entry_keys(
        snapshot.rental_agreements@,
    ).no_duplicates() ==> state.agreement_order() == KeyedMap::<
        Principal,
        RentalAgreement,
    >::entry_keys(snapshot.rental_agreements@)
    &&& state.counters() == KeyedMap::<Option<Principal>, EventNum>::entries_map(
        snapshot.event_counters@,
    )
    &&& state.history() == KeyedMap::<HistoryKey, Event>::entries_map(snapshot.history@)
    &&& state.conditions() == Map::<RentalConditionId, RentalConditionsView>::empty()
    &&& state.locks() == Set::<(Seq<u8>, Seq<char>)>::empty()
    &&& state.rates() == KeyedMap::<u64, (u64, u32)>::entries_map(snapshot.rates@)
}

/// The snapshot of what the state holds that outlives an upgrade.
pub fn export_state(state: &CanisterState) -> (snapshot: StateSnapshot)
    requires
        state.wf(),
    ensures
        snapshot_of(*state, snapshot),
{
    let rental_requests = state.rental_requests.entries();
    let rental_agreements = state.rental_agreements.entries();
    let event_counters = state.event_counters.entries();
    let history = state.history.entries();
    let rates = state.rates.entries();
    proof {
        state.rental_requests.lemma_entries_give_back(rental_requests@);
        state.rental_agreements.lemma_entries_give_back(rental_agreements@);
        state.event_counters.lemma_entries_give_back(event_counters@);
        state.history.lemma_entries_give_back(history@);
        lemma_rate_entries_give_back(rate_cache_contents(state.rates), rates@);
    }
    StateSnapshot { rental_requests, rental_agreements, event_counters, history, rates }
}

/// Entries sorted by key that list exactly a map give it back when inserted in order.
proof fn lemma_rate_entries_give_back(m: Map<u64, (u64, u32)>, r: Seq<(u64, (u64, u32))>)
    requires
        forall|i: int, j: int| 0 <= i < j < r.len() ==> (#[trigger] r[i]).0 < (#[trigger] r[j]).0,
        forall|i: int| 0 <= i < r.len() ==> m.contains_key((#[trigger] r[i]).0) && m[r[i].0] == r[i].1,
        forall|k: u64| #[trigger] m.contains_key(k) ==> exists|i: int| 0 <= i < r.len() && (#[trigger] r[i]).0 == k,
    ensures
        KeyedMap::<u64, (u64, u32)>::entries_map(r) == m,
{
    let ks = KeyedMap::<u64, (u64, u32)>::entry_keys(r);
    assert forall|i: int, j: int| 0 <= i < ks.len() && 0 <= j < ks.len() && i != j implies ks[i]
        != ks[j] by {
        if i < j {
            assert(r[i].0 < r[j].0);
        } else {
            assert(r[j].0 < r[i].0);
        }
    }
    assert(ks.no_duplicates());
    KeyedMap::<u64, (u64, u32)>::lemma_entries_map_dom(r);
    let e = KeyedMap::<u64, (u64, u32)>::entries_map(r);
    assert forall|k: u64| e.contains_key(k) <==> m.contains_key(k) by {
        if e.contains_key(k) {
            assert(ks.to_set().contains(k));
            let i = choose|i: int| 0 <= i < ks.len() && ks[i] == k;
            assert(r[i].0 == k);
        }
        if m.contains_key(k) {
            let i = choose|i: int| 0 <= i < r.len() && (#[trigger] r[i]).0 == k;
            assert(ks[i] == k);
            assert(ks.to_set().contains(k));
        }
    }
    assert forall|k: u64| #[trigger] e.contains_key(k) implies e[k] == m[k] by {
        let i = choose|i: int| 0 <= i < ks.len() && ks[i] == k;
        KeyedMap::<u64, (u64, u32)>::lemma_entries_map_value(r, i);
    }
    assert(e =~= m);
}

/// The state that a snapshot describes, without rental conditions or locks.
pub fn import_state(snapshot: StateSnapshot) -> (state: CanisterState)
    ensures
        state.wf(),
        restored_from(snapshot, state),
{
    let fresh = CanisterState::new();
    let StateSnapshot { rental_requests, rental_agreements, event_counters, history, rates } =
        snapshot;
    let mut cache = fresh.rates;
    let mut i: usize = 0;
    while i < rates.len()
        invariant
            i <= rates@.len(),
            rate_cache_contents(cache) == KeyedMap::<u64, (u64, u32)>::entries_map(
                rates@.take(i as int),
            ),
        decreases rates@.len() - i,
    {
        proof {
            let t = rates@.take(i + 1);
            assert(t.drop_last() =~= rates@.take(i as int));
            assert(t.last() == rates@[i as int]);
        }
        let (time, value) = rates[i];
        cache.insert(time, value);
        i = i + 1;
    }
    proof {
        assert(rates@.take(rates@.len() as int) =~= rates@);
    }
    CanisterState {
        rental_conditions: fresh.rental_conditions,
        locks: fresh.locks,
        rental_requests: KeyedMap::from_entries(rental_requests),
        rental_agreements: KeyedMap::from_entries(rental_agreements),
        event_counters: KeyedMap::from_entries(event_counters),
        history: KeyedMap::from_entries(history),
        rates: cache,
    }
}

/// Restoring the snapshot of a state gives back what outlives an upgrade: the same rental
/// requests and agreements in the same order, the same event counters, the same history and
/// the same cached exchange rates.
pub proof fn lemma_snapshot_round_trip(
    state: CanisterState,
    snapshot: StateSnapshot,
    restored: CanisterState,
)
    requires
        state.wf(),
        snapshot_of(state, snapshot),
        restored_from(snapshot, restored),
    ensures
        restored.requests() == state.requests(),
        restored.request_order() == state.request_order(),
        restored.agreements() == state.agreements(),
        restored.agreement_order() == state.agreement_order(),
        restored.counters() == state.counters(),
        restored.history() == state.history(),
        restored.rates() == state.rates(),
{
    state.lemma_orders();
}

/// Whether some rental agreement belongs to `user`.
pub open spec fn spec_user_has_agreement(state: CanisterState, user: Seq<u8>) -> bool {
    exists|s: Seq<u8>|
        #[trigger] state.agreements().contains_key(s) && state.agreements()[s].user == user
}

/// Whether some rental request is for the rental condition `id`.
pub open spec fn spec_condition_requested(state: CanisterState, id: RentalConditionId) -> bool {
    exists|u: Seq<u8>|
        #[trigger] state.requests().contains_key(u) && state.requests()[u].rental_condition_id == id
}

/// Whether some rental agreement belongs to `user`.
pub fn user_has_agreement(state: &CanisterState, user: &Principal) -> (b: bool)
    requires
        state.wf(),
    ensures
        b == spec_user_has_agreement(*state, user@),
{
    proof {
        state.lemma_orders();
    }
    let entries = state.rental_agreements.entries();
    let mut i: usize = 0;
    while i < entries.len()
        invariant
            state.wf(),
            i <= entries@.len(),
            entries@.len() == state.agreement_order().len(),
            forall|j: int|
                0 <= j < entries@.len() ==> (#[trigger] entries@[j]).0@
                    == state.agreement_order()[j] && state.agreements().contains_key(
                    entries@[j].0@,
                ) && entries@[j].1@ == state.agreements()[entries@[j].0@],
            forall|j: int| 0 <= j < i ==> (#[trigger] entries@[j]).1@.user != user@,
        decreases entries@.len() - i,
    {
        if entries[i].1.user.same_as(user) {
            proof {
                assert(state.agreements().contains_key(entries@[i as int].0@));
            }
            return true;
        }
        i = i + 1;
    }
    proof {
        assert forall|s: Seq<u8>| #[trigger] state.agreements().contains_key(s) implies state.agreements()[s].user
            != user@ by {
            assert(state.agreement_order().to_set().contains(s));
            assert(state.agreement_order().contains(s));
            let j = choose|j: int| 0 <= j < state.agreement_order().len() && state.agreement_order()[j] == s;
            assert(entries@[j].0@ == s);
        }
    }
    false
}

/// Whether some rental request is for the rental condition `id`.
pub fn condition_requested(state: &CanisterState, id: RentalConditionId) -> (b: bool)
    requires
        state.wf(),
    ensures
        b == spec_condition_requested(*state, id),
{
    proof {
        state.lemma_orders();
    }
    let entries = state.rental_requests.entries();
    let mut i: usize = 0;
    while i < entries.len()
        invariant
            state.wf(),
            i <= entries@.len(),
            entries@.len() == state.request_order().len(),
            forall|j: int|
                0 <= j < entries@.len() ==> (#[trigger] entries@[j]).0@ == state.request_order()[j]
                    && state.requests().contains_key(entries@[j].0@) && entries@[j].1@
                    == state.requests()[entries@[j].0@],
            forall|j: int| 0 <= j < i ==> (#[trigger] entries@[j]).1@.rental_condition_id != id,
        decreases entries@.len() - i,
    {
        if entries[i].1.rental_condition_id == id {
            proof {
                assert(state.requests().contains_key(entries@[i as int].0@));
            }
            return true;
        }
        i = i + 1;
    }
    proof {
        assert forall|u: Seq<u8>| #[trigger] state.requests().contains_key(u) implies state.requests()[u].rental_condition_id
            != id by {
            assert(state.request_order().to_set().contains(u));
            assert(state.request_order().contains(u));
            let j = choose|j: int| 0 <= j < state.request_order().len() && state.request_order()[j] == u;
            assert(entries@[j].0@ == u);
        }
    }
    false
}

} // verus!

verus! {

// ====================================================================================================================
// Laws

/// Two adjacent ranges of a principal's history, the older first, make up the range that
/// spans both: walking the history back page by page, each page continuing where the
/// previous one ended, yields every event of the range exactly once and in order.
pub proof fn lemma_history_pages_concatenate(
    history: Map<(Option<Seq<u8>>, EventNum), EventView>,
    key: Option<Seq<u8>>,
    low: EventNum,
    mid: EventNum,
    high: EventNum,
)
    requires
        low <= mid <= high,
    ensures
        history_range(history, key, low, mid) + history_range(history, key, mid, high)
            == history_range(history, key, low, high),
    decreases high - mid,
{
    if high == mid {
        assert(history_range(history, key, mid, high) =~= Seq::<EventView>::empty());
        assert(history_range(history, key, low, mid) + Seq::<EventView>::empty() =~= history_range(
            history,
            key,
            low,
            mid,
        ));
    } else {
        lemma_history_pages_concatenate(history, key, low, mid, (high - 1) as EventNum);
        let a = history_range(history, key, low, mid);
        let b = history_range(history, key, mid, (high - 1) as EventNum);
        match map_get(history, (key, (high - 1) as EventNum)) {
            Some(e) => {
                assert(a + b.push(e) =~= (a + b).push(e));
            },
            None => {},
        }
    }
}

/// What walking a principal's history back page by page gives, oldest page first: starting
/// below the event number `high`, each page ends where the previous one began, until a page
/// begins at event number 0.
pub open spec fn history_walk(
    history: Map<(Option<Seq<u8>>, EventNum), EventView>,
    key: Option<Seq<u8>>,
    high: EventNum,
    page_size: u64,
) -> Seq<EventView>
    decreases high,
{
    if high == 0 || page_size == 0 {
        Seq::empty()
    } else {
        let low = page_low(high, page_size);
        history_walk(history, key, low, page_size) + history_range(history, key, low, high)
    }
}

/// Walking a principal's history back from any point until the continuation is 0 yields
/// every event before that point exactly once, in order, with no gap and no overlap.
pub proof fn lemma_history_walk_is_whole_history(
    history: Map<(Option<Seq<u8>>, EventNum), EventView>,
    key: Option<Seq<u8>>,
    high: EventNum,
    page_size: u64,
)
    requires
        page_size > 0,
    ensures
        history_walk(history, key, high, page_size) == history_range(history, key, 0, high),
    decreases high,
{
    if high == 0 {
        assert(history_range(history, key, 0, 0) =~= Seq::<EventView>::empty());
    } else {
        let low = page_low(high, page_size);
        lemma_history_walk_is_whole_history(history, key, low, page_size);
        lemma_history_pages_concatenate(history, key, 0, low, high);
    }
}

/// A page never reaches past the start of the history, and the continuation of a non-empty
/// range lies strictly before its end: following continuations ends at event number 0.
pub proof fn lemma_history_continuation_decreases(high: EventNum, page_size: u64)
    ensures
        page_low(high, page_size) <= high,
        high > 0 && page_size > 0 ==> page_low(high, page_size) < high,
        page_low(high, page_size) == 0 || high - page_low(high, page_size) == page_size,
{
}

/// A recorded event is the newest event of its principal's most recent page: what
/// `persist_event` writes, `get_history_page` with no `older_than` and a page size of at
/// least one returns last.
pub proof fn lemma_persisted_event_is_newest(
    before: CanisterState,
    after: CanisterState,
    key: Option<Seq<u8>>,
    event: EventView,
    page_size: u64,
)
    requires
        before.event_count(key) < u64::MAX,
        after.history() == before.history().insert((key, before.event_count(key)), event),
        after.counters() == before.counters().insert(key, (before.event_count(key) + 1) as EventNum),
        page_size >= 1,
    ensures
        ({
            let high = page_high(after, key, None);
            let page = history_range(after.history(), key, page_low(high, page_size), high);
            page.len() > 0 && page.last() == event
        }),
{
    let high = page_high(after, key, None);
    assert(high == before.event_count(key) + 1);
    let low = page_low(high, page_size);
    assert(map_get(after.history(), (key, (high - 1) as EventNum)) == Some(event));
}

/// Event numbers are drawn in order: the number `next_seq` returns is the count before the
/// call, the count grows by one, and `get_current_seq` then reports the number just drawn.
pub proof fn lemma_next_seq_then_current(
    before: CanisterState,
    after: CanisterState,
    key: Option<Seq<u8>>,
    seq: EventNum,
)
    requires
        before.event_count(key) < u64::MAX,
        seq == before.event_count(key),
        after.counters() == before.counters().insert(key, (seq + 1) as EventNum),
    ensures
        after.event_count(key) == seq + 1,
        after.event_count(key) != 0 && (after.event_count(key) - 1) as EventNum == seq,
        forall|other: Option<Seq<u8>>| other != key ==> after.event_count(other) == before.event_count(other),
{
}

/// A rate put into the cache is what the cache returns for its time, and the cache is
/// otherwise unchanged.
pub proof fn lemma_cached_rate_is_returned(
    before: Map<u64, (u64, u32)>,
    after: Map<u64, (u64, u32)>,
    time: u64,
    rate: u64,
    decimals: u32,
)
    requires
        after == before.insert(time, (rate, decimals)),
    ensures
        map_get(after, time) == Some((rate, decimals)),
        forall|t: u64| t != time ==> map_get(after, t) == map_get(before, t),
{
}

/// A lock is held by at most one guard: once `CallerGuard::new` succeeded for a principal
/// and tag, a second attempt fails until the guard is released, and then succeeds.
pub proof fn lemma_lock_exclusive(
    locks: Set<(Seq<u8>, Seq<char>)>,
    id: (Seq<u8>, Seq<char>),
)
    ensures
        locks.insert(id).contains(id),
        !locks.insert(id).remove(id).contains(id),
{
}

/// At most one active rental request per user: `persist_rental_request` succeeds only for a
/// user without one, and afterwards the user has one, so a second attempt fails.
pub proof fn lemma_one_request_per_user(
    before: CanisterState,
    after: CanisterState,
    rental_request: RentalRequestView,
)
    requires
        after.requests() == before.requests().insert(rental_request.user, rental_request),
    ensures
        after.requests().contains_key(rental_request.user),
        after.requests()[rental_request.user] == rental_request,
{
}

} // verus!
