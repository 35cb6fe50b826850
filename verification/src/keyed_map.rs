//! A finite map held as a vector of entries with pairwise distinct keys.
//!
//! Entries keep the order in which their keys were first inserted; overwriting a key keeps
//! its place and removing a key keeps the order of the others.
use vstd::prelude::*;

verus! {

/// A key: it has a mathematical value, an equality test and a copy that keep it.
pub trait MapKey: Sized {
    type KeyView;

    spec fn key_view(&self) -> Self::KeyView;

    fn key_eq(&self, other: &Self) -> (b: bool)
        ensures
            b == (self.key_view() == other.key_view()),
    ;

    fn key_clone(&self) -> (r: Self)
        ensures
            r.key_view() == self.key_view(),
    ;
}

/// A value: it has a mathematical value and a copy that keeps it.
pub trait MapValue: Sized {
    type ValueView;

    spec fn value_view(&self) -> Self::ValueView;

    fn value_clone(&self) -> (r: Self)
        ensures
            r.value_view() == self.value_view(),
    ;
}

/// A finite map from keys to values.
pub struct KeyedMap<K: MapKey, V: MapValue> {
    entries: Vec<(K, V)>,
    contents: Ghost<Map<K::KeyView, V::ValueView>>,
}

impl<K: MapKey, V: MapValue> KeyedMap<K, V> {
    /// What the map holds.
    pub closed spec fn view_map(&self) -> Map<K::KeyView, V::ValueView> {
        self.contents@
    }

    /// The keys in the order in which they are held.
    pub closed spec fn key_order(&self) -> Seq<K::KeyView> {
        Seq::new(self.entries@.len(), |i: int| self.entries@[i].0.key_view())
    }

    /// The internal invariant: the entries have distinct keys and hold exactly `view_map`.
    pub closed spec fn wf(&self) -> bool {
        &&& forall|i: int|
            0 <= i < self.entries@.len() ==> #[trigger] self.contents@.contains_key(
                self.entries@[i].0.key_view(),
            ) && self.contents@[self.entries@[i].0.key_view()] == self.entries@[i].1.value_view()
        &&& forall|k: K::KeyView|
            #[trigger] self.contents@.contains_key(k) ==> exists|i: int|
                0 <= i < self.entries@.len() && #[trigger] self.entries@[i].0.key_view() == k
        &&& forall|i: int, j: int|
            0 <= i < self.entries@.len() && 0 <= j < self.entries@.len() && i != j
                ==> #[trigger] self.entries@[i].0.key_view() != #[trigger] self.entries@[j].0.key_view()
    }

    pub proof fn lemma_key_order(&self)
        requires
            self.wf(),
        ensures
            self.key_order().no_duplicates(),
            self.key_order().to_set() == self.view_map().dom(),
            self.key_order().len() == self.view_map().dom().len(),
            self.view_map().dom().finite(),
    {
        let ko = self.key_order();
        assert forall|i: int, j: int| 0 <= i < ko.len() && 0 <= j < ko.len() && i != j implies ko[i]
            != ko[j] by {
            assert(self.entries@[i].0.key_view() != self.entries@[j].0.key_view());
        }
        assert forall|k| ko.to_set().contains(k) <==> self.view_map().dom().contains(k) by {
            if ko.to_set().contains(k) {
                let i = choose|i: int| 0 <= i < ko.len() && ko[i] == k;
                assert(self.contents@.contains_key(self.entries@[i].0.key_view()));
            }
            if self.view_map().dom().contains(k) {
                let i = choose|i: int|
                    0 <= i < self.entries@.len() && #[trigger] self.entries@[i].0.key_view() == k;
                assert(ko[i] == k);
            }
        }
        assert(ko.to_set() =~= self.view_map().dom());
        ko.unique_seq_to_set();
    }

    /// An empty map.
    pub fn new() -> (m: Self)
        ensures
            m.wf(),
            m.view_map() == Map::<K::KeyView, V::ValueView>::empty(),
            m.key_order() == Seq::<K::KeyView>::empty(),
    {
        let m = KeyedMap { entries: Vec::new(), contents: Ghost(Map::empty()) };
        assert(m.key_order() =~= Seq::<K::KeyView>::empty());
        m
    }

    /// The number of entries.
    pub fn len(&self) -> (n: usize)
        requires
            self.wf(),
        ensures
            n == self.view_map().dom().len(),
            n == self.key_order().len(),
    {
        proof {
            self.lemma_key_order();
        }
        self.entries.len()
    }

    /// The position of `key` among the entries, if it is held.
    fn find(&self, key: &K) -> (r: Option<usize>)
        requires
            self.wf(),
        ensures
            r is Some <==> self.view_map().contains_key(key.key_view()),
            r matches Some(i) ==> i < self.entries@.len() && self.entries@[i as int].0.key_view()
                == key.key_view(),
    {
        let mut i: usize = 0;
        while i < self.entries.len()
            invariant
                self.wf(),
                i <= self.entries@.len(),
                forall|j: int| 0 <= j < i ==> self.entries@[j].0.key_view() != key.key_view(),
            decreases self.entries@.len() - i,
        {
            if self.entries[i].0.key_eq(key) {
                return Some(i);
            }
            i = i + 1;
        }
        proof {
            if self.view_map().contains_key(key.key_view()) {
                let j = choose|j: int|
                    0 <= j < self.entries@.len() && #[trigger] self.entries@[j].0.key_view()
                        == key.key_view();
                assert(self.entries@[j].0.key_view() == key.key_view());
            }
        }
        None
    }

    /// Whether `key` is held.
    pub fn contains_key(&self, key: &K) -> (b: bool)
        requires
            self.wf(),
        ensures
            b == self.view_map().contains_key(key.key_view()),
    {
        self.find(key).is_some()
    }

    /// A reference to the value held for `key`.
    pub fn get_ref(&self, key: &K) -> (r: Option<&V>)
        requires
            self.wf(),
        ensures
            r is Some <==> self.view_map().contains_key(key.key_view()),
            r matches Some(v) ==> v.value_view() == self.view_map()[key.key_view()],
    {
        match self.find(key) {
            Some(i) => Some(&self.entries[i].1),
            None => None,
        }
    }

    /// A copy of the value held for `key`.
    pub fn get(&self, key: &K) -> (r: Option<V>)
        requires
            self.wf(),
        ensures
            r is Some <==> self.view_map().contains_key(key.key_view()),
            r matches Some(v) ==> v.value_view() == self.view_map()[key.key_view()],
    {
        match self.find(key) {
            Some(i) => Some(self.entries[i].1.value_clone()),
            None => None,
        }
    }

    /// Holds `value` for `key`, and returns the value held before, if any.
    #[verifier::spinoff_prover]
    pub fn insert(&mut self, key: K, value: V) -> (old_value: Option<V>)
        requires
            old(self).wf(),
        ensures
            final(self).wf(),
            final(self).view_map() == old(self).view_map().insert(key.key_view(), value.value_view()),
            old_value is Some <==> old(self).view_map().contains_key(key.key_view()),
            old_value matches Some(v) ==> v.value_view() == old(self).view_map()[key.key_view()],
            old(self).view_map().contains_key(key.key_view()) ==> final(self).key_order() == old(
                self,
            ).key_order(),
            !old(self).view_map().contains_key(key.key_view()) ==> final(self).key_order() == old(
                self,
            ).key_order().push(key.key_view()),
    {
        let ghost kv = key.key_view();
        let ghost vv = value.value_view();
        match self.find(&key) {
            Some(i) => {
                let ghost old_entries = self.entries@;
                let (_k, v) = self.entries.remove(i);
                self.entries.insert(i, (key, value));
                self.contents = Ghost(self.contents@.insert(kv, vv));
                proof {
                    assert(self.entries@ =~= old_entries.update(i as int, self.entries@[i as int]));
                    assert forall|k: K::KeyView| #[trigger]
                        self.contents@.contains_key(k) implies exists|j: int|
                        0 <= j < self.entries@.len() && #[trigger] self.entries@[j].0.key_view()
                            == k by {
                        if k != kv {
                            let j = choose|j: int|
                                0 <= j < old_entries.len() && #[trigger] old_entries[j].0.key_view()
                                    == k;
                            assert(self.entries@[j].0.key_view() == k);
                        } else {
                            assert(self.entries@[i as int].0.key_view() == k);
                        }
                    }
                    assert(self.key_order() =~= old(self).key_order());
                }
                Some(v)
            },
            None => {
                let ghost old_entries = self.entries@;
                self.entries.push((key, value));
                self.contents = Ghost(self.contents@.insert(kv, vv));
                proof {
                    assert forall|k: K::KeyView| #[trigger]
                        self.contents@.contains_key(k) implies exists|j: int|
                        0 <= j < self.entries@.len() && #[trigger] self.entries@[j].0.key_view()
                            == k by {
                        if k != kv {
                            let j = choose|j: int|
                                0 <= j < old_entries.len() && #[trigger] old_entries[j].0.key_view()
                                    == k;
                            assert(self.entries@[j].0.key_view() == k);
                        } else {
                            assert(self.entries@[old_entries.len() as int].0.key_view() == k);
                        }
                    }
                    assert forall|a: int, b: int|
                        0 <= a < self.entries@.len() && 0 <= b < self.entries@.len() && a != b
                            implies #[trigger] self.entries@[a].0.key_view()
                        != #[trigger] self.entries@[b].0.key_view() by {
                        if a < old_entries.len() && b < old_entries.len() {
                            assert(old_entries[a].0.key_view() != old_entries[b].0.key_view());
                        } else if a < old_entries.len() {
                            assert(old(self).contents@.contains_key(old_entries[a].0.key_view()));
                        } else {
                            assert(old(self).contents@.contains_key(old_entries[b].0.key_view()));
                        }
                    }
                    assert(self.key_order() =~= old(self).key_order().push(kv));
                }
                None
            },
        }
    }

    /// Stops holding `key`, and returns the value held for it, if any.
    pub fn remove(&mut self, key: &K) -> (old_value: Option<V>)
        requires
            old(self).wf(),
        ensures
            final(self).wf(),
            final(self).view_map() == old(self).view_map().remove(key.key_view()),
            old_value is Some <==> old(self).view_map().contains_key(key.key_view()),
            old_value matches Some(v) ==> v.value_view() == old(self).view_map()[key.key_view()],
            final(self).key_order() == old(self).key_order().filter(
                |k: K::KeyView| k != key.key_view(),
            ),
    {
        let ghost kv = key.key_view();
        match self.find(key) {
            Some(i) => {
                let ghost old_entries = self.entries@;
                let (_k, v) = self.entries.remove(i);
                self.contents = Ghost(self.contents@.remove(kv));
                proof {
                    assert forall|k: K::KeyView| #[trigger]
                        self.contents@.contains_key(k) implies exists|j: int|
                        0 <= j < self.entries@.len() && #[trigger] self.entries@[j].0.key_view()
                            == k by {
                        let j = choose|j: int|
                            0 <= j < old_entries.len() && #[trigger] old_entries[j].0.key_view()
                                == k;
                        if j < i {
                            assert(self.entries@[j].0.key_view() == k);
                        } else {
                            assert(j != i);
                            assert(self.entries@[j - 1].0.key_view() == k);
                        }
                    }
                    assert forall|a: int|
                        0 <= a < self.entries@.len() implies #[trigger] self.contents@.contains_key(
                        self.entries@[a].0.key_view(),
                    ) && self.contents@[self.entries@[a].0.key_view()]
                        == self.entries@[a].1.value_view() by {
                        if a < i {
                            assert(old_entries[a].0.key_view() != old_entries[i as int].0.key_view());
                            assert(old(self).contents@.contains_key(old_entries[a].0.key_view()));
                        } else {
                            assert(old_entries[a + 1].0.key_view() != old_entries[i as int].0.key_view());
                            assert(old(self).contents@.contains_key(old_entries[a + 1].0.key_view()));
                        }
                    }
                    assert forall|a: int, b: int|
                        0 <= a < self.entries@.len() && 0 <= b < self.entries@.len() && a != b
                            implies #[trigger] self.entries@[a].0.key_view()
                        != #[trigger] self.entries@[b].0.key_view() by {
                        let oa = if a < i { a } else { a + 1 };
                        let ob = if b < i { b } else { b + 1 };
                        assert(self.entries@[a] == old_entries[oa]);
                        assert(self.entries@[b] == old_entries[ob]);
                        assert(old_entries[oa].0.key_view() != old_entries[ob].0.key_view());
                    }
                    let ko = old(self).key_order();
                    let pred = |k: K::KeyView| k != kv;
                    assert(ko =~= ko.take(i as int).push(kv) + ko.skip(i as int + 1));
                    assert forall|a: int| 0 <= a < i implies pred(#[trigger] ko[a]) by {
                        assert(old_entries[a].0.key_view() != old_entries[i as int].0.key_view());
                    }
                    assert forall|a: int| i + 1 <= a < ko.len() implies pred(#[trigger] ko[a]) by {
                        assert(old_entries[a].0.key_view() != old_entries[i as int].0.key_view());
                    }
                    lemma_filter_all(ko.take(i as int), pred);
                    lemma_filter_all(ko.skip(i as int + 1), pred);
                    Seq::filter_distributes_over_add(ko.take(i as int).push(kv), ko.skip(i as int + 1), pred);
                    reveal_with_fuel(Seq::filter, 1);
                    assert(ko.take(i as int).push(kv).drop_last() =~= ko.take(i as int));
                    assert(ko.take(i as int).push(kv).filter(pred) == ko.take(i as int).filter(pred));
                    assert(self.key_order() =~= ko.take(i as int) + ko.skip(i as int + 1));
                }
                Some(v)
            },
            None => {
                proof {
                    assert(self.contents@.remove(kv) =~= self.contents@);
                    let ko = self.key_order();
                    assert forall|a: int| 0 <= a < ko.len() implies (|k: K::KeyView| k != kv)(
                        #[trigger] ko[a],
                    ) by {
                        assert(self.contents@.contains_key(self.entries@[a].0.key_view()));
                    }
                    lemma_filter_all(ko, |k: K::KeyView| k != kv);
                }
                None
            },
        }
    }

    /// Copies of all entries, in the order in which they are held.
    pub fn entries(&self) -> (r: Vec<(K, V)>)
        requires
            self.wf(),
        ensures
            r@.len() == self.key_order().len(),
            forall|i: int|
                0 <= i < r@.len() ==> (#[trigger] r@[i]).0.key_view() == self.key_order()[i]
                    && self.view_map().contains_key(r@[i].0.key_view())
                    && r@[i].1.value_view() == self.view_map()[r@[i].0.key_view()],
    {
        let mut r: Vec<(K, V)> = Vec::new();
        let mut i: usize = 0;
        while i < self.entries.len()
            invariant
                self.wf(),
                i <= self.entries@.len(),
                r@.len() == i,
                forall|j: int|
                    0 <= j < i ==> (#[trigger] r@[j]).0.key_view() == self.entries@[j].0.key_view()
                        && r@[j].1.value_view() == self.entries@[j].1.value_view(),
            decreases self.entries@.len() - i,
        {
            let k = self.entries[i].0.key_clone();
            let v = self.entries[i].1.value_clone();
            r.push((k, v));
            i = i + 1;
        }
        r
    }

    /// The keys of a sequence of entries.
    pub open spec fn entry_keys(s: Seq<(K, V)>) -> Seq<K::KeyView> {
        Seq::new(s.len(), |i: int| s[i].0.key_view())
    }

    /// What a map holds after the entries are inserted into an empty one, in order.
    pub open spec fn entries_map(s: Seq<(K, V)>) -> Map<K::KeyView, V::ValueView>
        decreases s.len(),
    {
        if s.len() == 0 {
            Map::empty()
        } else {
            Self::entries_map(s.drop_last()).insert(s.last().0.key_view(), s.last().1.value_view())
        }
    }

    /// The keys of the map that the entries give are the keys of the entries.
    pub proof fn lemma_entries_map_dom(s: Seq<(K, V)>)
        ensures
            Self::entries_map(s).dom() == Self::entry_keys(s).to_set(),
        decreases s.len(),
    {
        if s.len() > 0 {
            Self::lemma_entries_map_dom(s.drop_last());
            let ks = Self::entry_keys(s);
            assert(Self::entry_keys(s.drop_last()) =~= ks.drop_last());
            assert forall|k| ks.to_set().contains(k) <==> Self::entries_map(s).dom().contains(k) by {
                if ks.to_set().contains(k) {
                    let i = choose|i: int| 0 <= i < ks.len() && ks[i] == k;
                    if i < ks.len() - 1 {
                        assert(ks.drop_last()[i] == k);
                    }
                }
                if Self::entries_map(s).dom().contains(k) && k != s.last().0.key_view() {
                    assert(ks.drop_last().to_set().contains(k));
                    let i = choose|i: int| 0 <= i < ks.drop_last().len() && ks.drop_last()[i] == k;
                    assert(ks[i] == k);
                }
                if k == s.last().0.key_view() {
                    assert(ks[ks.len() - 1] == k);
                }
            }
            assert(Self::entries_map(s).dom() =~= ks.to_set());
        } else {
            assert(Self::entries_map(s).dom() =~= Self::entry_keys(s).to_set());
        }
    }

    /// Where the entries have distinct keys, the map they give holds each entry's value.
    pub proof fn lemma_entries_map_value(s: Seq<(K, V)>, i: int)
        requires
            Self::entry_keys(s).no_duplicates(),
            0 <= i < s.len(),
        ensures
            Self::entries_map(s).contains_key(s[i].0.key_view()),
            Self::entries_map(s)[s[i].0.key_view()] == s[i].1.value_view(),
        decreases s.len(),
    {
        let ks = Self::entry_keys(s);
        if i < s.len() - 1 {
            assert(Self::entry_keys(s.drop_last()) =~= ks.drop_last());
            assert(ks[i] != ks[ks.len() - 1]);
            Self::lemma_entries_map_value(s.drop_last(), i);
        }
    }

    /// The entries that `entries` hands out give back the map, in the same order.
    pub proof fn lemma_entries_give_back(&self, s: Seq<(K, V)>)
        requires
            self.wf(),
            s.len() == self.key_order().len(),
            forall|i: int|
                0 <= i < s.len() ==> (#[trigger] s[i]).0.key_view() == self.key_order()[i]
                    && self.view_map().contains_key(s[i].0.key_view())
                    && s[i].1.value_view() == self.view_map()[s[i].0.key_view()],
        ensures
            Self::entry_keys(s) == self.key_order(),
            Self::entries_map(s) == self.view_map(),
    {
        self.lemma_key_order();
        let ks = Self::entry_keys(s);
        assert(ks =~= self.key_order());
        Self::lemma_entries_map_dom(s);
        assert forall|k| #[trigger] Self::entries_map(s).contains_key(k) implies Self::entries_map(
            s,
        )[k] == self.view_map()[k] by {
            let i = choose|i: int| 0 <= i < ks.len() && ks[i] == k;
            Self::lemma_entries_map_value(s, i);
        }
        assert(Self::entries_map(s) =~= self.view_map());
    }

    /// The map that holds the entries, inserted in order: a later entry for a key replaces
    /// an earlier one. Where the keys are distinct, they are held in the order given.
    pub fn from_entries(entries: Vec<(K, V)>) -> (m: Self)
        ensures
            m.wf(),
            m.view_map() == Self::entries_map(entries@),
            Self::entry_keys(entries@).no_duplicates() ==> m.key_order() == Self::entry_keys(
                entries@,
            ),
    {
        let mut m = Self::new();
        let mut i: usize = 0;
        let ghost ks = Self::entry_keys(entries@);
        while i < entries.len()
            invariant
                m.wf(),
                i <= entries@.len(),
                ks == Self::entry_keys(entries@),
                m.view_map() == Self::entries_map(entries@.take(i as int)),
                ks.no_duplicates() ==> m.key_order() == ks.take(i as int),
            decreases entries@.len() - i,
        {
            let k = entries[i].0.key_clone();
            let v = entries[i].1.value_clone();
            proof {
                let t = entries@.take(i + 1);
                assert(t.drop_last() =~= entries@.take(i as int));
                assert(t.last() == entries@[i as int]);
                if ks.no_duplicates() {
                    Self::lemma_entries_map_dom(entries@.take(i as int));
                    assert(Self::entry_keys(entries@.take(i as int)) =~= ks.take(i as int));
                    if ks.take(i as int).to_set().contains(k.key_view()) {
                        let j = choose|j: int| 0 <= j < i && ks.take(i as int)[j] == k.key_view();
                        assert(ks[j] == ks[i as int]);
                    }
                }
            }
            m.insert(k, v);
            proof {
                if ks.no_duplicates() {
                    assert(ks.take(i + 1) =~= ks.take(i as int).push(ks[i as int]));
                }
            }
            i = i + 1;
        }
        proof {
            assert(entries@.take(entries@.len() as int) =~= entries@);
            assert(ks.take(entries@.len() as int) =~= ks);
        }
        m
    }
}

/// Filtering by a predicate that every element meets keeps the sequence.
pub proof fn lemma_filter_all<A>(s: Seq<A>, pred: spec_fn(A) -> bool)
    requires
        forall|i: int| 0 <= i < s.len() ==> pred(#[trigger] s[i]),
    ensures
        s.filter(pred) == s,
    decreases s.len(),
{
    reveal_with_fuel(Seq::filter, 1);
    if s.len() > 0 {
        lemma_filter_all(s.drop_last(), pred);
        assert(s.drop_last().push(s.last()) =~= s);
    } else {
        assert(s.filter(pred) =~= s);
    }
}

} // verus!

verus! {

/// The value a map holds for a key, if any.
pub open spec fn map_get<K, V>(m: Map<K, V>, k: K) -> Option<V> {
    if m.contains_key(k) {
        Some(m[k])
    } else {
        None
    }
}

} // verus!
