//! A map whose entries are kept in key order.
//!
//! Keys are compared by their views, so two keys with equal contents are the
//! same key. Walking the entries by position visits them in ascending order.
use crate::text::text_before;
use vstd::prelude::*;

verus! {

/// A key with a strict total order on its view.
pub trait MapKey: View + Sized {
    /// Whether a key with view `a` stands before a key with view `b`.
    spec fn before(a: Self::V, b: Self::V) -> bool;

    /// The order is strict, transitive and total.
    proof fn order_laws(a: Self::V, b: Self::V, c: Self::V)
        ensures
            !Self::before(a, a),
            Self::before(a, b) && Self::before(b, c) ==> Self::before(a, c),
            a == b || Self::before(a, b) || Self::before(b, a),
    ;

    /// Compares two keys.
    fn precedes(&self, other: &Self) -> (result: bool)
        ensures
            result == Self::before(self@, other@),
    ;

    /// Another key with the same view.
    fn duplicate(&self) -> (copy: Self)
        ensures
            copy@ == self@,
    ;
}

/// `keys` holds exactly the members of `domain`, in strictly ascending order.
pub open spec fn in_order<K: MapKey>(keys: Seq<K::V>, domain: Set<K::V>) -> bool {
    &&& forall|i: int, j: int|
        0 <= i < j < keys.len() ==> K::before(#[trigger] keys[i], #[trigger] keys[j])
    &&& forall|i: int| 0 <= i < keys.len() ==> domain.contains(#[trigger] keys[i])
    &&& forall|key: K::V| #[trigger]
        domain.contains(key) ==> exists|i: int| 0 <= i < keys.len() && #[trigger] keys[i] == key
}

/// The members of a finite `domain` in ascending order.
pub open spec fn ordered_keys<K: MapKey>(domain: Set<K::V>) -> Seq<K::V> {
    choose|keys: Seq<K::V>| in_order::<K>(keys, domain)
}

/// There is one ascending order only.
pub proof fn lemma_one_order<K: MapKey>(keys: Seq<K::V>, domain: Set<K::V>)
    requires
        in_order::<K>(keys, domain),
    ensures
        keys == ordered_keys::<K>(domain),
{
    let other = ordered_keys::<K>(domain);
    assert(in_order::<K>(other, domain));
    lemma_same_prefix::<K>(keys, other, domain, keys.len());
    if keys.len() < other.len() {
        let key = other[keys.len() as int];
        assert(domain.contains(key));
        let at = choose|i: int| 0 <= i < keys.len() && keys[i] == key;
        assert(K::before(other[at], other[keys.len() as int]));
        K::order_laws(key, key, key);
    }
    assert(keys =~= other);
}

proof fn lemma_same_prefix<K: MapKey>(a: Seq<K::V>, b: Seq<K::V>, domain: Set<K::V>, count: nat)
    requires
        in_order::<K>(a, domain),
        in_order::<K>(b, domain),
        count <= a.len(),
    ensures
        count <= b.len(),
        forall|i: int| 0 <= i < count ==> #[trigger] a[i] == b[i],
    decreases count,
{
    if count > 0 {
        let last = count - 1;
        lemma_same_prefix::<K>(a, b, domain, last as nat);
        assert(domain.contains(a[last]));
        let at = choose|i: int| 0 <= i < b.len() && b[i] == a[last];
        if at < last {
            assert(a[at] == b[at]);
            assert(K::before(a[at], a[last]));
            K::order_laws(a[last], a[last], a[last]);
        }
        if at > last {
            assert(domain.contains(b[last]));
            let back = choose|i: int| 0 <= i < a.len() && a[i] == b[last];
            K::order_laws(a[last], b[last], a[last]);
            assert(K::before(b[last], b[at]));
            if back < last {
                assert(a[back] == b[back]);
                assert(K::before(b[back], b[last]));
                K::order_laws(b[last], b[last], b[last]);
            } else if back > last {
                assert(K::before(a[last], a[back]));
            }
            K::order_laws(a[last], a[last], a[last]);
        }
    }
}

spec fn key_inserted<K: MapKey>(keys: Seq<K::V>, key: K::V) -> Seq<K::V>
    decreases keys.len(),
{
    if keys.len() == 0 || K::before(keys.last(), key) {
        keys.push(key)
    } else {
        key_inserted::<K>(keys.drop_last(), key).push(keys.last())
    }
}

proof fn lemma_key_inserted<K: MapKey>(keys: Seq<K::V>, domain: Set<K::V>, key: K::V)
    requires
        in_order::<K>(keys, domain),
        !domain.contains(key),
    ensures
        in_order::<K>(key_inserted::<K>(keys, key), domain.insert(key)),
    decreases keys.len(),
{
    let longer = key_inserted::<K>(keys, key);
    let larger = domain.insert(key);
    if keys.len() == 0 || K::before(keys.last(), key) {
        assert forall|i: int, j: int| 0 <= i < j < longer.len() implies K::before(
            #[trigger] longer[i],
            #[trigger] longer[j],
        ) by {
            if j < keys.len() {
                assert(K::before(keys[i], keys[j]));
            } else if i < keys.len() - 1 {
                assert(K::before(keys[i], keys[keys.len() - 1]));
                K::order_laws(keys[i], keys.last(), key);
            }
        }
        assert forall|other: K::V| #[trigger] larger.contains(other) implies exists|i: int|
            0 <= i < longer.len() && #[trigger] longer[i] == other by {
            if other == key {
                assert(longer[keys.len() as int] == other);
            } else {
                assert(domain.contains(other));
                let i = choose|i: int| 0 <= i < keys.len() && keys[i] == other;
                assert(longer[i] == other);
            }
        }
    } else {
        let last = keys.last();
        let shorter = keys.drop_last();
        let smaller = domain.remove(last);
        assert(domain.contains(keys[keys.len() - 1]));
        assert forall|i: int| 0 <= i < shorter.len() implies smaller.contains(
            #[trigger] shorter[i],
        ) by {
            assert(domain.contains(keys[i]));
            assert(K::before(keys[i], keys[keys.len() - 1]));
            K::order_laws(last, last, last);
        }
        assert forall|i: int, j: int| 0 <= i < j < shorter.len() implies K::before(
            #[trigger] shorter[i],
            #[trigger] shorter[j],
        ) by {
            assert(K::before(keys[i], keys[j]));
        }
        assert forall|other: K::V| #[trigger] smaller.contains(other) implies exists|i: int|
            0 <= i < shorter.len() && #[trigger] shorter[i] == other by {
            assert(domain.contains(other));
            let i = choose|i: int| 0 <= i < keys.len() && keys[i] == other;
            assert(shorter[i] == other);
        }
        lemma_key_inserted::<K>(shorter, smaller, key);
        let front = key_inserted::<K>(shorter, key);
        K::order_laws(last, key, last);
        assert forall|i: int, j: int| 0 <= i < j < longer.len() implies K::before(
            #[trigger] longer[i],
            #[trigger] longer[j],
        ) by {
            if j < front.len() {
                assert(K::before(front[i], front[j]));
            } else {
                assert(smaller.insert(key).contains(front[i]));
                if front[i] != key {
                    let k = choose|k: int| 0 <= k < shorter.len() && shorter[k] == front[i];
                    assert(smaller.contains(front[i]));
                    assert(K::before(keys[k], keys[keys.len() - 1]));
                }
            }
        }
        assert forall|i: int| 0 <= i < longer.len() implies larger.contains(
            #[trigger] longer[i],
        ) by {
            if i < front.len() {
                assert(smaller.insert(key).contains(front[i]));
            }
        }
        assert forall|other: K::V| #[trigger] larger.contains(other) implies exists|i: int|
            0 <= i < longer.len() && #[trigger] longer[i] == other by {
            if other == last {
                assert(longer[front.len() as int] == other);
            } else {
                assert(smaller.insert(key).contains(other));
                let i = choose|i: int| 0 <= i < front.len() && front[i] == other;
                assert(longer[i] == other);
            }
        }
    }
}

/// Every finite domain has an ascending order.
pub proof fn lemma_every_key_is_listed<K: MapKey>(domain: Set<K::V>)
    requires
        domain.finite(),
    ensures
        in_order::<K>(ordered_keys::<K>(domain), domain),
    decreases domain.len(),
{
    if domain.len() == 0 {
        assert(domain =~= Set::<K::V>::empty());
        assert(in_order::<K>(Seq::<K::V>::empty(), domain));
    } else {
        let key = domain.choose();
        let smaller = domain.remove(key);
        lemma_every_key_is_listed::<K>(smaller);
        lemma_key_inserted::<K>(ordered_keys::<K>(smaller), smaller, key);
        assert(smaller.insert(key) =~= domain);
        assert(in_order::<K>(key_inserted::<K>(ordered_keys::<K>(smaller), key), domain));
    }
}

/// The ascending order lists every member once.
pub proof fn lemma_order_length<K: MapKey>(domain: Set<K::V>)
    requires
        domain.finite(),
    ensures
        ordered_keys::<K>(domain).len() == domain.len(),
        ordered_keys::<K>(domain).no_duplicates(),
{
    lemma_every_key_is_listed::<K>(domain);
    let keys = ordered_keys::<K>(domain);
    assert forall|i: int, j: int| 0 <= i < keys.len() && 0 <= j < keys.len() && i != j implies keys[i]
        != keys[j] by {
        K::order_laws(keys[i], keys[j], keys[i]);
        if i < j {
            assert(K::before(keys[i], keys[j]));
        } else {
            assert(K::before(keys[j], keys[i]));
        }
    }
    keys.unique_seq_to_set();
    assert(keys.to_set() =~= domain) by {
        assert forall|key: K::V| keys.to_set().contains(key) <==> domain.contains(key) by {
            if domain.contains(key) {
                assert(keys.contains(key));
            }
        }
    }
}

/// An ordered map from keys to values.
pub struct OrderedMap<K: MapKey, V> {
    entries: Vec<(K, V)>,
}

impl<K: MapKey, V> View for OrderedMap<K, V> {
    type V = Map<K::V, V>;

    closed spec fn view(&self) -> Map<K::V, V> {
        Map::new(|key: K::V| self.holds(key), |key: K::V| self.entries@[self.place_of(key)].1)
    }
}

impl<K: MapKey, V> OrderedMap<K, V> {
    spec fn holds_at(&self, key: K::V, place: int) -> bool {
        0 <= place < self.entries@.len() && self.entries@[place].0@ == key
    }

    spec fn holds(&self, key: K::V) -> bool {
        exists|place: int| self.holds_at(key, place)
    }

    spec fn place_of(&self, key: K::V) -> int {
        choose|place: int| self.holds_at(key, place)
    }

    /// The entries stand in strictly ascending key order.
    pub closed spec fn wf(&self) -> bool {
        forall|i: int, j: int|
            0 <= i < j < self.entries@.len() ==> K::before(
                #[trigger] self.entries@[i].0@,
                #[trigger] self.entries@[j].0@,
            )
    }

    /// The keys in ascending order.
    pub closed spec fn keys(&self) -> Seq<K::V> {
        self.entries@.map_values(|entry: (K, V)| entry.0@)
    }

    /// The values in the order of their keys.
    pub closed spec fn values(&self) -> Seq<V> {
        self.entries@.map_values(|entry: (K, V)| entry.1)
    }

    /// The ordered keys are exactly the domain, each stands once, and each
    /// value stands at the place of its key.
    pub proof fn lemma_listing(&self)
        requires
            self.wf(),
        ensures
            self.keys().len() == self.values().len(),
            self.keys().len() == self@.dom().len(),
            self@.dom().finite(),
            in_order::<K>(self.keys(), self@.dom()),
            self.keys() == ordered_keys::<K>(self@.dom()),
            forall|i: int|
                0 <= i < self.keys().len() ==> self@.contains_key(#[trigger] self.keys()[i])
                    && self@[self.keys()[i]] == self.values()[i],
            forall|key: K::V| #[trigger]
                self@.contains_key(key) ==> exists|i: int|
                    0 <= i < self.keys().len() && #[trigger] self.keys()[i] == key,
            forall|i: int, j: int|
                0 <= i < j < self.keys().len() ==> K::before(
                    #[trigger] self.keys()[i],
                    #[trigger] self.keys()[j],
                ),
    {
        assert forall|i: int| 0 <= i < self.keys().len() implies self@.contains_key(
            #[trigger] self.keys()[i],
        ) && self@[self.keys()[i]] == self.values()[i] by {
            self.lemma_at(i);
        }
        assert forall|key: K::V| #[trigger] self@.contains_key(key) implies exists|i: int|
            0 <= i < self.keys().len() && #[trigger] self.keys()[i] == key by {
            let place = self.place_of(key);
            assert(self.holds_at(key, place));
            assert(self.keys()[place] == key);
        }
        assert(self.keys().no_duplicates()) by {
            assert forall|i: int, j: int|
                0 <= i < self.keys().len() && 0 <= j < self.keys().len() && i
                    != j implies self.keys()[i] != self.keys()[j] by {
                K::order_laws(self.keys()[i], self.keys()[j], self.keys()[i]);
                if i < j {
                    assert(K::before(self.entries@[i].0@, self.entries@[j].0@));
                } else {
                    assert(K::before(self.entries@[j].0@, self.entries@[i].0@));
                }
            }
        }
        lemma_one_order::<K>(self.keys(), self@.dom());
        self.keys().unique_seq_to_set();
        assert(self.keys().to_set() =~= self@.dom()) by {
            assert forall|key: K::V| self.keys().to_set().contains(key) <==> self@.dom().contains(key) by {
                if self@.contains_key(key) {
                    assert(self.keys().contains(key));
                }
            }
        }
    }

    proof fn lemma_at(&self, place: int)
        requires
            self.wf(),
            0 <= place < self.entries@.len(),
        ensures
            self@.contains_key(self.entries@[place].0@),
            self@[self.entries@[place].0@] == self.entries@[place].1,
            self.place_of(self.entries@[place].0@) == place,
    {
        let key = self.entries@[place].0@;
        assert(self.holds_at(key, place));
        let other = self.place_of(key);
        assert(self.holds_at(key, other));
        K::order_laws(key, key, key);
        if other < place {
            assert(K::before(self.entries@[other].0@, self.entries@[place].0@));
        } else if place < other {
            assert(K::before(self.entries@[place].0@, self.entries@[other].0@));
        }
    }

    /// An empty map.
    pub fn new() -> (map: Self)
        ensures
            map.wf(),
            map@ == Map::<K::V, V>::empty(),
            map.keys().len() == 0,
    {
        let map = OrderedMap { entries: Vec::new() };
        assert(map@ =~= Map::<K::V, V>::empty());
        map
    }

    /// The number of entries.
    pub fn len(&self) -> (count: usize)
        requires
            self.wf(),
        ensures
            count == self@.dom().len(),
            count == self.keys().len(),
            count == self.values().len(),
    {
        proof {
            self.lemma_listing();
        }
        self.entries.len()
    }

    /// Whether the map holds no entry.
    pub fn is_empty(&self) -> (result: bool)
        requires
            self.wf(),
        ensures
            result == (self@.dom().len() == 0),
            result == (self@ =~= Map::<K::V, V>::empty()),
    {
        proof {
            self.lemma_listing();
            if self.entries@.len() > 0 {
                self.lemma_at(0);
            }
        }
        self.entries.len() == 0
    }

    /// The place of `key`, or the place at which it would be entered.
    fn search(&self, key: &K) -> (result: (bool, usize))
        requires
            self.wf(),
        ensures
            result.0 == self@.contains_key(key@),
            result.0 ==> result.1 < self.entries@.len() && self.entries@[result.1 as int].0@ == key@,
            !result.0 ==> {
                &&& result.1 <= self.entries@.len()
                &&& forall|i: int| 0 <= i < result.1 ==> K::before(#[trigger] self.entries@[i].0@, key@)
                &&& forall|i: int|
                    result.1 <= i < self.entries@.len() ==> K::before(key@, #[trigger] self.entries@[i].0@)
            },
    {
        let mut place: usize = 0;
        while place < self.entries.len() && self.entries[place].0.precedes(key)
            invariant
                self.wf(),
                place <= self.entries@.len(),
                forall|i: int| 0 <= i < place ==> K::before(#[trigger] self.entries@[i].0@, key@),
            decreases self.entries@.len() - place,
        {
            place = place + 1;
        }
        if place < self.entries.len() && !key.precedes(&self.entries[place].0) {
            proof {
                K::order_laws(self.entries@[place as int].0@, key@, key@);
                self.lemma_at(place as int);
            }
            (true, place)
        } else {
            proof {
                assert forall|i: int| place <= i < self.entries@.len() implies K::before(
                    key@,
                    #[trigger] self.entries@[i].0@,
                ) by {
                    if i > place {
                        assert(K::before(self.entries@[place as int].0@, self.entries@[i].0@));
                        K::order_laws(key@, self.entries@[place as int].0@, self.entries@[i].0@);
                    }
                }
                if self.holds(key@) {
                    let other = self.place_of(key@);
                    assert(self.holds_at(key@, other));
                    K::order_laws(key@, key@, key@);
                }
            }
            (false, place)
        }
    }

    /// Whether `key` has a value.
    pub fn contains_key(&self, key: &K) -> (result: bool)
        requires
            self.wf(),
        ensures
            result == self@.contains_key(key@),
    {
        self.search(key).0
    }

    /// The value of `key`.
    pub fn get(&self, key: &K) -> (result: Option<&V>)
        requires
            self.wf(),
        ensures
            result == (if self@.contains_key(key@) {
                Some(&self@[key@])
            } else {
                None
            }),
    {
        let (found, place) = self.search(key);
        if found {
            proof {
                self.lemma_at(place as int);
            }
            Some(&self.entries[place].1)
        } else {
            None
        }
    }

    proof fn lemma_replaced(&self, after: Self, place: int, entry: (K, V))
        requires
            self.wf(),
            0 <= place < self.entries@.len(),
            entry.0 == self.entries@[place].0,
            after.entries@ == self.entries@.update(place, entry),
        ensures
            after.wf(),
            after@ == self@.insert(entry.0@, entry.1),
            after.keys() == self.keys(),
    {
        assert(after.keys() =~= self.keys());
        assert(after.wf()) by {
            assert forall|i: int, j: int| 0 <= i < j < after.entries@.len() implies K::before(
                #[trigger] after.entries@[i].0@,
                #[trigger] after.entries@[j].0@,
            ) by {
                assert(self.entries@[i].0@ == after.entries@[i].0@);
                assert(self.entries@[j].0@ == after.entries@[j].0@);
            }
        }
        let target = self@.insert(entry.0@, entry.1);
        after.lemma_at(place);
        assert forall|other: K::V| #[trigger] after@.contains_key(other) implies target.contains_key(other)
            && after@[other] == target[other] by {
            let at = after.place_of(other);
            assert(after.holds_at(other, at));
            after.lemma_at(at);
            self.lemma_at(at);
        }
        assert forall|other: K::V| #[trigger] target.contains_key(other) implies after@.contains_key(
            other,
        ) by {
            if other != entry.0@ {
                let at = self.place_of(other);
                assert(self.holds_at(other, at));
                after.lemma_at(at);
            }
        }
        assert(after@ =~= target);
    }

    /// A mutable view of the value of `key`.
    pub fn get_mut(&mut self, key: &K) -> (result: Option<&mut V>)
        requires
            old(self).wf(),
        ensures
            final(self).wf(),
            match result {
                Some(value) => {
                    &&& old(self)@.contains_key(key@)
                    &&& *value == old(self)@[key@]
                    &&& final(self)@ == old(self)@.insert(key@, *final(value))
                    &&& final(self).keys() == old(self).keys()
                },
                None => {
                    &&& !old(self)@.contains_key(key@)
                    &&& *final(self) == *old(self)
                },
            },
    {
        let (found, place) = self.search(key);
        if found {
            let ghost before = *self;
            proof {
                before.lemma_at(place as int);
            }
            let entry = &mut self.entries[place];
            let ghost changed = *final(entry);
            let value = &mut entry.1;
            proof {
                assert(changed.0 == before.entries@[place as int].0);
                assert(after_borrow(*self).entries@ == before.entries@.update(place as int, changed));
                before.lemma_replaced(after_borrow(*self), place as int, changed);
            }
            Some(value)
        } else {
            None
        }
    }

    /// Takes `key` out of the map and hands back its value.
    pub fn remove(&mut self, key: &K) -> (removed: Option<V>)
        requires
            old(self).wf(),
        ensures
            final(self).wf(),
            final(self)@ == old(self)@.remove(key@),
            removed == (if old(self)@.contains_key(key@) {
                Some(old(self)@[key@])
            } else {
                None
            }),
    {
        let (found, place) = self.search(key);
        let ghost before = *self;
        if found {
            proof {
                self.lemma_at(place as int);
            }
            let removed = self.entries.remove(place);
            proof {
                assert(self.wf()) by {
                    assert forall|i: int, j: int| 0 <= i < j < self.entries@.len() implies K::before(
                        #[trigger] self.entries@[i].0@,
                        #[trigger] self.entries@[j].0@,
                    ) by {
                        let from = if i < place { i } else { i + 1 };
                        let to = if j < place { j } else { j + 1 };
                        assert(before.entries@[from].0@ == self.entries@[i].0@);
                        assert(before.entries@[to].0@ == self.entries@[j].0@);
                    }
                }
                let target = before@.remove(key@);
                assert forall|other: K::V| self@.contains_key(other) <==> target.contains_key(other) by {
                    if self@.contains_key(other) {
                        let at = self.place_of(other);
                        assert(self.holds_at(other, at));
                        let from = if at < place { at } else { at + 1 };
                        assert(before.entries@[from] == self.entries@[at]);
                        before.lemma_at(from);
                        if other == key@ {
                            before.lemma_at(place as int);
                        }
                    }
                    if target.contains_key(other) {
                        let from = before.place_of(other);
                        assert(before.holds_at(other, from));
                        let at = if from < place { from } else { from - 1 };
                        assert(before.entries@[from] == self.entries@[at]);
                        self.lemma_at(at);
                    }
                }
                assert forall|other: K::V| self@.contains_key(other) implies self@[other]
                    == target[other] by {
                    let at = self.place_of(other);
                    assert(self.holds_at(other, at));
                    let from = if at < place { at } else { at + 1 };
                    assert(before.entries@[from] == self.entries@[at]);
                    before.lemma_at(from);
                    self.lemma_at(at);
                }
                assert(self@ =~= target);
            }
            Some(removed.1)
        } else {
            proof {
                assert(self@.remove(key@) =~= self@);
            }
            None
        }
    }

    /// Gives `key` the value `value` and hands back the value that it had.
    pub fn insert(&mut self, key: K, value: V) -> (previous: Option<V>)
        requires
            old(self).wf(),
        ensures
            final(self).wf(),
            final(self)@ == old(self)@.insert(key@, value),
            previous == (if old(self)@.contains_key(key@) {
                Some(old(self)@[key@])
            } else {
                None
            }),
    {
        let previous = self.remove(&key);
        let ghost before = *self;
        let (_, place) = self.search(&key);
        self.entries.insert(place, (key, value));
        proof {
            assert(self.wf()) by {
                assert forall|i: int, j: int| 0 <= i < j < self.entries@.len() implies K::before(
                    #[trigger] self.entries@[i].0@,
                    #[trigger] self.entries@[j].0@,
                ) by {
                    let from = if i < place { i } else { i - 1 };
                    let to = if j < place { j } else { j - 1 };
                    if i != place {
                        assert(before.entries@[from].0@ == self.entries@[i].0@);
                    }
                    if j != place {
                        assert(before.entries@[to].0@ == self.entries@[j].0@);
                    }
                }
            }
            self.lemma_entered(before, place as int);
            assert(before@.insert(key@, value) =~= old(self)@.insert(key@, value));
        }
        previous
    }

    proof fn lemma_entered(&self, before: Self, place: int)
        requires
            self.wf(),
            before.wf(),
            0 <= place < self.entries@.len(),
            self.entries@ == before.entries@.insert(place, self.entries@[place]),
            place <= before.entries@.len(),
        ensures
            self@ == before@.insert(self.entries@[place].0@, self.entries@[place].1),
    {
        let target = before@.insert(self.entries@[place].0@, self.entries@[place].1);
        self.lemma_at(place);
        assert forall|other: K::V| #[trigger] self@.contains_key(other) implies target.contains_key(other)
            && self@[other] == target[other] by {
            let at = self.place_of(other);
            assert(self.holds_at(other, at));
            self.lemma_at(at);
            if at != place {
                let from = if at < place { at } else { at - 1 };
                assert(before.entries@[from] == self.entries@[at]);
                before.lemma_at(from);
            }
        }
        assert forall|other: K::V| #[trigger] target.contains_key(other) implies self@.contains_key(
            other,
        ) by {
            if other != self.entries@[place].0@ {
                let from = before.place_of(other);
                assert(before.holds_at(other, from));
                let at = if from < place { from } else { from + 1 };
                assert(before.entries@[from] == self.entries@[at]);
                self.lemma_at(at);
            }
        }
        assert(self@ =~= target);
    }

    /// The key at a place of the ascending order.
    pub fn key_at(&self, place: usize) -> (key: &K)
        requires
            place < self.keys().len(),
        ensures
            key@ == self.keys()[place as int],
    {
        &self.entries[place].0
    }

    /// The value at a place of the ascending order.
    pub fn value_at(&self, place: usize) -> (value: &V)
        requires
            place < self.values().len(),
        ensures
            *value == self.values()[place as int],
    {
        &self.entries[place].1
    }
}

impl<K: MapKey, V> OrderedMap<K, V> {
    /// The values in the order of their keys.
    pub fn into_values(self) -> (values: Vec<V>)
        ensures
            values@ == self.values(),
    {
        let mut values: Vec<V> = Vec::new();
        let ghost entries = self.entries@;
        for entry in iter: self.entries
            invariant
                iter.seq() == entries,
                values@ =~= entries.take(iter.index() as int).map_values(|entry: (K, V)| entry.1),
        {
            values.push(entry.1);
        }
        assert(entries.take(entries.len() as int) =~= entries);
        values
    }
}

impl MapKey for u64 {
    open spec fn before(a: u64, b: u64) -> bool {
        a < b
    }

    proof fn order_laws(a: u64, b: u64, c: u64) {
    }

    fn precedes(&self, other: &Self) -> (result: bool) {
        *self < *other
    }

    fn duplicate(&self) -> (copy: Self) {
        *self
    }
}

impl MapKey for String {
    open spec fn before(a: Seq<char>, b: Seq<char>) -> bool {
        text_before(a, b)
    }

    proof fn order_laws(a: Seq<char>, b: Seq<char>, c: Seq<char>) {
        crate::text::lemma_text_order(a, b, c);
    }

    fn precedes(&self, other: &Self) -> (result: bool) {
        crate::text::precedes(self.as_str(), other.as_str())
    }

    fn duplicate(&self) -> (copy: Self) {
        self.clone()
    }
}

/// A map gives back what was entered last under a key, and nothing where a key was
/// taken out. Other keys are not touched.
pub proof fn law_map_gives_back_what_was_entered<K: MapKey, V>(
    entering: &mut OrderedMap<K, V>,
    key: K,
    value: V,
    previous: Option<V>,
    taking: &mut OrderedMap<K, V>,
    taken: &K,
    removed: Option<V>,
    map: OrderedMap<K, V>,
    wanted: &K,
    found: Option<&V>,
    held: bool,
    other: K::V,
)
    requires
        call_ensures(OrderedMap::<K, V>::insert, (entering, key, value), previous),
        call_ensures(OrderedMap::<K, V>::remove, (taking, taken), removed),
        call_ensures(OrderedMap::<K, V>::get, (&map, wanted), found),
        call_ensures(OrderedMap::<K, V>::contains_key, (&map, wanted), held),
    ensures
        final(entering)@.contains_key(key@) && final(entering)@[key@] == value,
        previous is Some <==> old(entering)@.contains_key(key@),
        previous matches Some(earlier) ==> earlier == old(entering)@[key@],
        other != key@ ==> (final(entering)@.contains_key(other) <==> old(entering)@.contains_key(
            other,
        )),
        other != key@ && old(entering)@.contains_key(other) ==> final(entering)@[other] == old(entering)@[other],
        !final(taking)@.contains_key(taken@),
        removed is Some <==> old(taking)@.contains_key(taken@),
        removed matches Some(last) ==> last == old(taking)@[taken@],
        other != taken@ ==> (final(taking)@.contains_key(other) <==> old(taking)@.contains_key(
            other,
        )),
        other != taken@ && old(taking)@.contains_key(other) ==> final(taking)@[other] == old(taking)@[other],
        held <==> map@.contains_key(wanted@),
        found is Some <==> held,
        found matches Some(kept) ==> *kept == map@[wanted@],
{
}

} // verus!
