//! Ordered tables: association lists kept in key order.

use vstd::prelude::*;

use crate::value::Duplicate;

verus! {

/// How two keys stand to each other.
#[derive(Clone, Copy, Debug, PartialEq, Eq, Structural)]
pub enum Order {
    /// The first stands before the second.
    Less,
    /// They are the same key.
    Equal,
    /// The first stands after the second.
    Greater,
}

/// A key: values with a strict total order on what they stand for.
pub trait Ranked: View + Sized {
    /// `a` stands before `b`.
    spec fn precedes(a: Self::V, b: Self::V) -> bool;

    proof fn never_precedes_itself(a: Self::V)
        ensures
            !Self::precedes(a, a),
    ;

    proof fn precedes_transitively(a: Self::V, b: Self::V, c: Self::V)
        requires
            Self::precedes(a, b),
            Self::precedes(b, c),
        ensures
            Self::precedes(a, c),
    ;

    proof fn precedes_one_way(a: Self::V, b: Self::V)
        requires
            a != b,
        ensures
            Self::precedes(a, b) || Self::precedes(b, a),
    ;

    /// Compare two keys.
    fn order(&self, other: &Self) -> (r: Order)
        ensures
            match r {
                Order::Less => Self::precedes(self@, other@),
                Order::Equal => self@ == other@,
                Order::Greater => Self::precedes(other@, self@),
            },
    ;
}

/// Keys in strictly ascending order.
pub open spec fn ascending<K: Ranked, V>(entries: Seq<(K, V)>) -> bool {
    forall|i: int, j: int|
        #![trigger entries[i], entries[j]]
        0 <= i < j < entries.len() ==> K::precedes(entries[i].0@, entries[j].0@)
}

/// The entries hold `key`.
pub open spec fn holds<K: Ranked, V>(entries: Seq<(K, V)>, key: K::V) -> bool {
    exists|i: int| 0 <= i < entries.len() && (#[trigger] entries[i]).0@ == key
}

/// Where the entries hold `key`.
pub open spec fn position<K: Ranked, V>(entries: Seq<(K, V)>, key: K::V) -> int {
    choose|i: int| 0 <= i < entries.len() && (#[trigger] entries[i]).0@ == key
}

/// The entries as a map.
pub open spec fn as_map<K: Ranked, V>(entries: Seq<(K, V)>) -> Map<K::V, V> {
    Map::new(
        |key: K::V| holds::<K, V>(entries, key),
        |key: K::V| entries[position::<K, V>(entries, key)].1,
    )
}

/// Keys in strictly ascending order, without their values.
pub open spec fn rising<K: Ranked>(keys: Seq<K::V>) -> bool {
    forall|i: int, j: int|
        #![trigger keys[i], keys[j]]
        0 <= i < j < keys.len() ==> K::precedes(keys[i], keys[j])
}

/// Some keys in their order.
pub open spec fn ranking<K: Ranked>(keys: Set<K::V>) -> Seq<K::V> {
    choose|list: Seq<K::V>| rising::<K>(list) && #[trigger] list.to_set() == keys
}

/// There is only one order that some keys are in.
pub proof fn one_ranking<K: Ranked>(a: Seq<K::V>, b: Seq<K::V>)
    requires
        rising::<K>(a),
        rising::<K>(b),
        a.to_set() == b.to_set(),
    ensures
        a == b,
    decreases a.len(),
{
    if a.len() == 0 {
        if b.len() > 0 {
            assert(b.to_set().contains(b[0]));
            assert(a.contains(b[0]));
        }
        assert(a =~= b);
    } else {
        assert(a.to_set().contains(a[0]));
        assert(b.contains(a[0]));
        let last = a.last();
        let end = b.last();
        assert(a.to_set().contains(last));
        assert(b.contains(last));
        assert(b.to_set().contains(end));
        assert(a.contains(end));
        if last != end {
            let i = choose|i: int| 0 <= i < b.len() && b[i] == last;
            let j = choose|j: int| 0 <= j < a.len() && a[j] == end;
            assert(K::precedes(b[i], b[b.len() - 1]));
            assert(K::precedes(a[j], a[a.len() - 1]));
            K::precedes_transitively(last, end, last);
            K::never_precedes_itself(last);
        }
        let front = a.drop_last();
        let head = b.drop_last();
        assert forall|key: K::V| front.to_set().contains(key) == head.to_set().contains(key) by {
            ranked_before::<K>(a, key);
            ranked_before::<K>(b, key);
        }
        assert(front.to_set() =~= head.to_set());
        assert(rising::<K>(front)) by {
            assert forall|i: int, j: int|
                #![trigger front[i], front[j]]
                0 <= i < j < front.len() implies K::precedes(front[i], front[j]) by {
                assert(K::precedes(a[i], a[j]));
            }
        }
        assert(rising::<K>(head)) by {
            assert forall|i: int, j: int|
                #![trigger head[i], head[j]]
                0 <= i < j < head.len() implies K::precedes(head[i], head[j]) by {
                assert(K::precedes(b[i], b[j]));
            }
        }
        one_ranking::<K>(front, head);
        assert(a =~= front.push(last));
        assert(b =~= head.push(end));
    }
}

/// Keys in order, with one more among them.
proof fn joined<K: Ranked>(keys: Seq<K::V>, key: K::V) -> (r: Seq<K::V>)
    requires
        rising::<K>(keys),
        !keys.contains(key),
    ensures
        rising::<K>(r),
        forall|other: K::V| #![trigger r.contains(other)]
            r.contains(other) == (keys.contains(other) || other == key),
    decreases keys.len(),
{
    if keys.len() == 0 {
        let r = keys.push(key);
        assert(r[0] == key);
        r
    } else if K::precedes(keys.last(), key) {
        let r = keys.push(key);
        assert forall|i: int, j: int|
            #![trigger r[i], r[j]]
            0 <= i < j < r.len() implies K::precedes(r[i], r[j]) by {
            if j == keys.len() {
                if i < keys.len() - 1 {
                    assert(K::precedes(keys[i], keys[keys.len() - 1]));
                    K::precedes_transitively(keys[i], keys.last(), key);
                }
            } else {
                assert(K::precedes(keys[i], keys[j]));
            }
        }
        assert forall|other: K::V| #![trigger r.contains(other)]
            r.contains(other) == (keys.contains(other) || other == key) by {
            if keys.contains(other) {
                let i = keys.index_of(other);
                assert(r[i] == other);
            }
            if other == key {
                assert(r[keys.len() as int] == other);
            }
        }
        r
    } else {
        let last = keys.last();
        let front = keys.drop_last();
        assert(keys.contains(last)) by {
            assert(keys[keys.len() - 1] == last);
        }
        K::precedes_one_way(key, last);
        assert(rising::<K>(front)) by {
            assert forall|i: int, j: int|
                #![trigger front[i], front[j]]
                0 <= i < j < front.len() implies K::precedes(front[i], front[j]) by {
                assert(K::precedes(keys[i], keys[j]));
            }
        }
        assert(!front.contains(key)) by {
            if front.contains(key) {
                let i = front.index_of(key);
                assert(keys[i] == key);
            }
        }
        let inner = joined::<K>(front, key);
        let r = inner.push(last);
        assert forall|i: int, j: int|
            #![trigger r[i], r[j]]
            0 <= i < j < r.len() implies K::precedes(r[i], r[j]) by {
            if j == inner.len() {
                assert(inner.contains(inner[i]));
                if inner[i] != key {
                    let m = front.index_of(inner[i]);
                    assert(keys[m] == inner[i]);
                    assert(K::precedes(keys[m], keys[keys.len() - 1]));
                }
            } else {
                assert(K::precedes(inner[i], inner[j]));
            }
        }
        assert forall|other: K::V| #![trigger r.contains(other)]
            r.contains(other) == (keys.contains(other) || other == key) by {
            if keys.contains(other) {
                let i = keys.index_of(other);
                if i < keys.len() - 1 {
                    assert(front[i] == other);
                    assert(inner.contains(other));
                    let m = inner.index_of(other);
                    assert(r[m] == other);
                } else {
                    assert(r[inner.len() as int] == other);
                }
            }
            if other == key {
                assert(inner.contains(key));
                let m = inner.index_of(key);
                assert(r[m] == key);
            }
            if r.contains(other) {
                let m = r.index_of(other);
                if m < inner.len() {
                    assert(inner.contains(other)) by {
                        assert(inner[m] == other);
                    }
                    if front.contains(other) {
                        let i = front.index_of(other);
                        assert(keys[i] == other);
                    }
                }
            }
        }
        r
    }
}

/// Finitely many keys have an order to be in.
proof fn some_ranking<K: Ranked>(keys: Set<K::V>) -> (r: Seq<K::V>)
    requires
        keys.finite(),
    ensures
        rising::<K>(r),
        r.to_set() == keys,
    decreases keys.len(),
{
    if keys.len() == 0 {
        let r = Seq::<K::V>::empty();
        assert(r.to_set() =~= keys);
        r
    } else {
        let key = keys.choose();
        let inner = some_ranking::<K>(keys.remove(key));
        assert(!inner.contains(key)) by {
            if inner.contains(key) {
                assert(inner.to_set().contains(key));
            }
        }
        let r = joined::<K>(inner, key);
        assert forall|other: K::V| r.to_set().contains(other) == keys.contains(other) by {
            assert(r.to_set().contains(other) == r.contains(other));
            assert(inner.to_set().contains(other) == inner.contains(other));
        }
        assert(r.to_set() =~= keys);
        r
    }
}

/// Finitely many keys in their order: all of them, each once.
pub proof fn ranking_holds_all<K: Ranked>(keys: Set<K::V>)
    requires
        keys.finite(),
    ensures
        rising::<K>(ranking::<K>(keys)),
        ranking::<K>(keys).to_set() == keys,
        forall|key: K::V| #![trigger keys.contains(key)]
            keys.contains(key) == ranking::<K>(keys).contains(key),
        ranking::<K>(keys).no_duplicates(),
        ranking::<K>(keys).len() == keys.len(),
{
    let list = some_ranking::<K>(keys);
    assert(rising::<K>(list) && list.to_set() == keys);
    let r = ranking::<K>(keys);
    assert forall|key: K::V| #![trigger keys.contains(key)] keys.contains(key) == r.contains(
        key,
    ) by {
        assert(r.to_set().contains(key) == r.contains(key));
    }
    assert forall|i: int, j: int| 0 <= i < r.len() && 0 <= j < r.len() && i != j implies r[i]
        != r[j] by {
        K::never_precedes_itself(r[i]);
        if i < j {
            assert(K::precedes(r[i], r[j]));
        } else {
            assert(K::precedes(r[j], r[i]));
        }
    }
    r.unique_seq_to_set();
}

/// What stands before the last of some keys is all of them but the last.
proof fn ranked_before<K: Ranked>(keys: Seq<K::V>, key: K::V)
    requires
        rising::<K>(keys),
        keys.len() > 0,
    ensures
        keys.drop_last().to_set().contains(key) == (keys.to_set().contains(key) && key
            != keys.last()),
{
    let front = keys.drop_last();
    if front.contains(key) {
        let i = choose|i: int| 0 <= i < front.len() && front[i] == key;
        assert(keys[i] == key);
        assert(K::precedes(keys[i], keys[keys.len() - 1]));
        K::never_precedes_itself(key);
    }
    if keys.contains(key) && key != keys.last() {
        let i = choose|i: int| 0 <= i < keys.len() && keys[i] == key;
        assert(front[i] == key);
    }
}

/// A table from keys to values, in key order.
#[derive(Debug)]
pub struct Table<K: Ranked, V> {
    entries: Vec<(K, V)>,
}

/// An entry's key finds that entry and no other.
proof fn position_of<K: Ranked, V>(entries: Seq<(K, V)>, i: int)
    requires
        ascending(entries),
        0 <= i < entries.len(),
    ensures
        holds::<K, V>(entries, entries[i].0@),
        position::<K, V>(entries, entries[i].0@) == i,
{
    let j = position::<K, V>(entries, entries[i].0@);
    if j < i {
        K::never_precedes_itself(entries[i].0@);
    } else if i < j {
        K::never_precedes_itself(entries[i].0@);
    }
}

/// A key that lies between two neighbours is not held.
proof fn absent_between<K: Ranked, V>(entries: Seq<(K, V)>, key: K::V, at: int)
    requires
        ascending(entries),
        0 <= at <= entries.len(),
        forall|i: int| 0 <= i < at ==> K::precedes((#[trigger] entries[i]).0@, key),
        forall|i: int| at <= i < entries.len() ==> K::precedes(key, (#[trigger] entries[i]).0@),
    ensures
        !holds::<K, V>(entries, key),
{
    K::never_precedes_itself(key);
}

/// The number of keys is the number of entries.
proof fn map_size<K: Ranked, V>(entries: Seq<(K, V)>)
    requires
        ascending(entries),
    ensures
        as_map::<K, V>(entries).dom().finite(),
        as_map::<K, V>(entries).dom().len() == entries.len(),
{
    let keys = entries.map_values(|e: (K, V)| e.0@);
    assert(keys.no_duplicates()) by {
        assert forall|i: int, j: int| 0 <= i < keys.len() && 0 <= j < keys.len() && i != j implies keys[i]
            != keys[j] by {
            K::never_precedes_itself(keys[i]);
            if i < j {
                assert(K::precedes(entries[i].0@, entries[j].0@));
            } else {
                assert(K::precedes(entries[j].0@, entries[i].0@));
            }
        }
    }
    keys.unique_seq_to_set();
    assert(as_map::<K, V>(entries).dom() =~= keys.to_set()) by {
        assert forall|key: K::V| #[trigger] as_map::<K, V>(entries).dom().contains(key) implies keys.to_set().contains(
            key,
        ) by {
            assert(keys[position::<K, V>(entries, key)] == key);
        }
        assert forall|key: K::V| #[trigger] keys.to_set().contains(key) implies as_map::<K, V>(
            entries,
        ).dom().contains(key) by {
            let i = choose|i: int| 0 <= i < keys.len() && keys[i] == key;
            assert(entries[i].0@ == key);
        }
    }
}

/// Ascending entries are listed by the ranking of their keys.
proof fn listed_by_rank<K: Ranked, V>(entries: Seq<(K, V)>)
    requires
        ascending(entries),
    ensures
        ranking::<K>(as_map::<K, V>(entries).dom()).len() == entries.len(),
        forall|i: int|
            0 <= i < entries.len() ==> (#[trigger] entries[i]).0@ == ranking::<K>(
                as_map::<K, V>(entries).dom(),
            )[i] && as_map::<K, V>(entries).contains_key(entries[i].0@) && as_map::<K, V>(
                entries,
            )[entries[i].0@] == entries[i].1,
{
    let keys = Seq::new(entries.len(), |i: int| entries[i].0@);
    let held = as_map::<K, V>(entries).dom();
    assert(rising::<K>(keys)) by {
        assert forall|i: int, j: int|
            #![trigger keys[i], keys[j]]
            0 <= i < j < keys.len() implies K::precedes(keys[i], keys[j]) by {
            assert(K::precedes(entries[i].0@, entries[j].0@));
        }
    }
    assert forall|key: K::V| keys.to_set().contains(key) == held.contains(key) by {
        if keys.contains(key) {
            let i = choose|i: int| 0 <= i < keys.len() && keys[i] == key;
            assert(entries[i].0@ == key);
        }
        if held.contains(key) {
            let i = position::<K, V>(entries, key);
            assert(keys[i] == key);
        }
    }
    assert(keys.to_set() =~= held);
    one_ranking::<K>(keys, ranking::<K>(held));
    assert forall|i: int| 0 <= i < entries.len() implies (#[trigger] entries[i]).0@ == ranking::<K>(
        held,
    )[i] && as_map::<K, V>(entries).contains_key(entries[i].0@) && as_map::<K, V>(
        entries,
    )[entries[i].0@] == entries[i].1 by {
        assert(keys[i] == entries[i].0@);
        position_of::<K, V>(entries, i);
    }
}

impl<K: Ranked, V> View for Table<K, V> {
    type V = Map<K::V, V>;

    open spec fn view(&self) -> Map<K::V, V> {
        as_map::<K, V>(self.listed())
    }
}

impl<K: Ranked, V> Table<K, V> {
    #[verifier::type_invariant]
    spec fn in_order(self) -> bool {
        ascending(self.entries@)
    }

    /// The entries, in key order.
    pub closed spec fn listed(self) -> Seq<(K, V)> {
        self.entries@
    }

    /// An empty table.
    pub fn new() -> (r: Self)
        ensures
            r.listed() == Seq::<(K, V)>::empty(),
            r@ == Map::<K::V, V>::empty(),
    {
        let r = Table { entries: Vec::new() };
        assert(r@ =~= Map::<K::V, V>::empty());
        r
    }

    /// How many entries the table holds. They are in key order.
    pub fn len(&self) -> (r: usize)
        ensures
            r == self.listed().len(),
            self@.dom().finite(),
            r == self@.dom().len(),
            ascending(self.listed()),
            self.ranked(),
    {
        proof {
            use_type_invariant(self);
            map_size::<K, V>(self.entries@);
            listed_by_rank::<K, V>(self.entries@);
        }
        self.entries.len()
    }

    /// The entries are listed in the one order that their keys are in.
    pub open spec fn ranked(self) -> bool {
        &&& ranking::<K>(self@.dom()).len() == self.listed().len()
        &&& forall|i: int|
            0 <= i < self.listed().len() ==> (#[trigger] self.listed()[i]).0@ == ranking::<K>(
                self@.dom(),
            )[i] && self@.contains_key(self.listed()[i].0@) && self@[self.listed()[i].0@]
                == self.listed()[i].1
    }

    /// Whether the table holds nothing.
    pub fn is_empty(&self) -> (r: bool)
        ensures
            r == (self@ == Map::<K::V, V>::empty()),
            r == (self.listed().len() == 0),
    {
        proof {
            if self.entries@.len() == 0 {
                assert(self@ =~= Map::<K::V, V>::empty());
            } else {
                assert(self@.dom().contains(self.entries@[0].0@));
            }
        }
        self.entries.len() == 0
    }

    /// The key of entry `i`.
    pub fn key_at(&self, i: usize) -> (r: &K)
        requires
            i < self.listed().len(),
        ensures
            *r == self.listed()[i as int].0,
            self@.contains_key(r@),
            self@[r@] == self.listed()[i as int].1,
    {
        proof {
            use_type_invariant(self);
            position_of::<K, V>(self.entries@, i as int);
        }
        &self.entries[i].0
    }

    /// The value of entry `i`.
    pub fn value_at(&self, i: usize) -> (r: &V)
        requires
            i < self.listed().len(),
        ensures
            *r == self.listed()[i as int].1,
            self@.contains_key(self.listed()[i as int].0@),
            self@[self.listed()[i as int].0@] == *r,
    {
        proof {
            use_type_invariant(self);
            position_of::<K, V>(self.entries@, i as int);
        }
        &self.entries[i].1
    }

    /// Where `key` is, or where it would be.
    fn find(&self, key: &K) -> (r: (bool, usize))
        ensures
            r.1 <= self.entries@.len(),
            r.0 ==> r.1 < self.entries@.len() && self.entries@[r.1 as int].0@ == key@ && position::<
                K,
                V,
            >(self.entries@, key@) == r.1,
            r.0 == holds::<K, V>(self.entries@, key@),
            !r.0 ==> (forall|i: int|
                0 <= i < r.1 ==> K::precedes((#[trigger] self.entries@[i]).0@, key@)),
            !r.0 ==> (forall|i: int|
                r.1 <= i < self.entries@.len() ==> K::precedes(
                    key@,
                    (#[trigger] self.entries@[i]).0@,
                )),
    {
        proof {
            use_type_invariant(self);
        }
        let mut low: usize = 0;
        let mut high: usize = self.entries.len();
        while low < high
            invariant
                low <= high <= self.entries@.len(),
                ascending(self.entries@),
                forall|i: int| 0 <= i < low ==> K::precedes((#[trigger] self.entries@[i]).0@, key@),
                forall|i: int|
                    high <= i < self.entries@.len() ==> K::precedes(
                        key@,
                        (#[trigger] self.entries@[i]).0@,
                    ),
            decreases high - low,
        {
            let middle: usize = low + (high - low) / 2;
            match self.entries[middle].0.order(key) {
                Order::Less => {
                    proof {
                        assert forall|i: int| 0 <= i < middle + 1 implies K::precedes(
                            (#[trigger] self.entries@[i]).0@,
                            key@,
                        ) by {
                            if low <= i < middle {
                                K::precedes_transitively(
                                    self.entries@[i].0@,
                                    self.entries@[middle as int].0@,
                                    key@,
                                );
                            }
                        }
                    }
                    low = middle + 1;
                },
                Order::Equal => {
                    proof {
                        position_of::<K, V>(self.entries@, middle as int);
                    }
                    return (true, middle);
                },
                Order::Greater => {
                    proof {
                        assert forall|i: int| middle <= i < self.entries@.len() implies K::precedes(
                            key@,
                            (#[trigger] self.entries@[i]).0@,
                        ) by {
                            if middle < i < high {
                                K::precedes_transitively(
                                    key@,
                                    self.entries@[middle as int].0@,
                                    self.entries@[i].0@,
                                );
                            }
                        }
                    }
                    high = middle;
                },
            }
        }
        proof {
            absent_between::<K, V>(self.entries@, key@, low as int);
        }
        (false, low)
    }

    /// A copy of the table.
    pub fn duplicate(&self) -> (r: Self) where K: Duplicate, V: Duplicate
        ensures
            r.listed() == self.listed(),
            r@ == self@,
    {
        proof {
            use_type_invariant(self);
        }
        let mut entries: Vec<(K, V)> = Vec::new();
        for i in 0..self.entries.len()
            invariant
                entries@ == self.entries@.take(i as int),
        {
            let entry = &self.entries[i];
            entries.push((entry.0.duplicate(), entry.1.duplicate()));
            assert(entries@ =~= self.entries@.take(i + 1));
        }
        assert(entries@ =~= self.entries@);
        Table { entries }
    }

    /// Whether the table holds `key`.
    pub fn contains_key(&self, key: &K) -> (r: bool)
        ensures
            r == self@.contains_key(key@),
    {
        self.find(key).0
    }

    /// The value at `key`.
    pub fn get(&self, key: &K) -> (r: Option<&V>)
        ensures
            r is Some == self@.contains_key(key@),
            r matches Some(value) ==> *value == self@[key@],
    {
        let (found, at) = self.find(key);
        if found {
            Some(&self.entries[at].1)
        } else {
            None
        }
    }

    /// Put `value` at `key`, handing back what was there.
    pub fn insert(&mut self, key: K, value: V) -> (r: Option<V>)
        ensures
            final(self)@ == old(self)@.insert(key@, value),
            r is Some == old(self)@.contains_key(key@),
            r matches Some(before) ==> before == old(self)@[key@],
    {
        proof {
            use_type_invariant(&*self);
        }
        let (found, at) = self.find(&key);
        let ghost before = self.entries@;
        let mut entries: Vec<(K, V)> = Vec::new();
        std::mem::swap(&mut entries, &mut self.entries);
        let result: Option<V>;
        if found {
            let ghost name = key@;
            let entry = entries.remove(at);
            let (kept, replaced) = entry;
            entries.insert(at, (kept, value));
            proof {
                assert(entries@ =~= before.update(at as int, (kept, value)));
                assert forall|i: int, j: int|
                    #![trigger entries@[i], entries@[j]]
                    0 <= i < j < entries@.len() implies K::precedes(
                    entries@[i].0@,
                    entries@[j].0@,
                ) by {
                    assert(K::precedes(before[i].0@, before[j].0@));
                }
                replaced_in_map::<K, V>(before, entries@, at as int, value);
            }
            result = Some(replaced);
        } else {
            entries.insert(at, (key, value));
            proof {
                assert(entries@ =~= before.insert(at as int, (key, value)));
                inserted_in_map::<K, V>(before, at as int, key, value);
            }
            result = None;
        }
        self.entries = entries;
        assert(self.entries@ == entries@);
        assert(self@ =~= as_map::<K, V>(before).insert(key@, value));
        result
    }

    /// Take out the value at `key`.
    pub fn remove(&mut self, key: &K) -> (r: Option<V>)
        ensures
            final(self)@ == old(self)@.remove(key@),
            r is Some == old(self)@.contains_key(key@),
            r matches Some(before) ==> before == old(self)@[key@],
    {
        proof {
            use_type_invariant(&*self);
        }
        let (found, at) = self.find(key);
        if !found {
            assert(self@ =~= self@.remove(key@));
            return None;
        }
        let ghost before = self.entries@;
        let mut entries: Vec<(K, V)> = Vec::new();
        std::mem::swap(&mut entries, &mut self.entries);
        let (_, value) = entries.remove(at);
        proof {
            assert(entries@ =~= before.remove(at as int));
            removed_from_map::<K, V>(before, at as int);
        }
        self.entries = entries;
        assert(self.entries@ == entries@);
        Some(value)
    }
}

impl<K: Ranked, V> Table<K, V> {
    /// Put every entry of another table in.
    pub fn merge(&mut self, other: Table<K, V>)
        ensures
            final(self)@ == old(self)@.union_prefer_right(other@),
    {
        proof {
            use_type_invariant(&other);
        }
        let mut rest = other.entries;
        let ghost all = rest@;
        let ghost before = self@;
        assert(as_map::<K, V>(all) =~= other@);
        let size: usize = rest.len();
        let mut left: usize = size;
        while left > 0
            invariant
                left <= size,
                size == all.len(),
                rest@ == all.take(left as int),
                ascending(all),
                forall|key: K::V| #![trigger self@.contains_key(key)]
                    self@.contains_key(key) == (before.contains_key(key) || exists|i: int|
                        left <= i < size && (#[trigger] all[i]).0@ == key),
                forall|i: int|
                    left <= i < size ==> self@[(#[trigger] all[i]).0@] == all[i].1,
                forall|key: K::V| #[trigger]
                    before.contains_key(key) && (forall|i: int|
                        left <= i < size ==> (#[trigger] all[i]).0@ != key) ==> self@[key]
                        == before[key],
            decreases left,
        {
            let ghost earlier = self@;
            left = left - 1;
            let entry = rest.remove(left);
            assert(entry == all[left as int]);
            let (key, value) = entry;
            let ghost name = key@;
            self.insert(key, value);
            assert(rest@ =~= all.take(left as int));
            proof {
                assert forall|key: K::V| #![trigger self@.contains_key(key)]
                    self@.contains_key(key) == (before.contains_key(key) || exists|i: int|
                        left <= i < size && (#[trigger] all[i]).0@ == key) by {
                    assert(earlier.contains_key(key) == (before.contains_key(key) || exists|i: int|
                        left + 1 <= i < size && (#[trigger] all[i]).0@ == key));
                    if key == name {
                        assert(all[left as int].0@ == key);
                    }
                }
                assert forall|i: int| left <= i < size implies self@[(#[trigger] all[i]).0@]
                    == all[i].1 by {
                    if i > left {
                        assert(K::precedes(all[left as int].0@, all[i].0@));
                        K::never_precedes_itself(name);
                    }
                }
                assert forall|key: K::V| #[trigger]
                    before.contains_key(key) && (forall|i: int|
                        left <= i < size ==> (#[trigger] all[i]).0@ != key) implies self@[key]
                    == before[key] by {
                    assert(all[left as int].0@ != key);
                    assert(earlier[key] == before[key]);
                }
            }
        }
        proof {
            let joined = before.union_prefer_right(other@);
            assert forall|key: K::V| self@.dom().contains(key) == joined.dom().contains(key) by {
                assert(self@.contains_key(key) == (before.contains_key(key) || exists|i: int|
                    0 <= i < size && (#[trigger] all[i]).0@ == key));
                if other@.contains_key(key) {
                    let i = position::<K, V>(all, key);
                    assert(all[i].0@ == key);
                }
            }
            assert forall|key: K::V| self@.dom().contains(key) implies self@[key] == joined[key] by {
                if other@.contains_key(key) {
                    let i = position::<K, V>(all, key);
                    assert(all[i].0@ == key);
                } else {
                    assert forall|i: int| 0 <= i < size implies (#[trigger] all[i]).0@ != key by {
                        if all[i].0@ == key {
                            assert(holds::<K, V>(all, key));
                        }
                    }
                }
            }
            assert(self@ =~= joined);
        }
    }
}

/// Going through the keys of a table in order comes past every key, and past
/// each once.
pub proof fn ranking_covers<K: Ranked, V>(table: Table<K, V>)
    requires
        table.ranked(),
        ascending(table.listed()),
    ensures
        ({
            let keys = ranking::<K>(table@.dom());
            &&& forall|key: K::V| #![trigger table@.dom().contains(key)]
                table@.dom().contains(key) == keys.contains(key)
            &&& keys.no_duplicates()
            &&& keys.len() == table.listed().len()
        }),
{
    let keys = ranking::<K>(table@.dom());
    let entries = table.listed();
    assert forall|key: K::V| #![trigger table@.dom().contains(key)]
        table@.dom().contains(key) == keys.contains(key) by {
        if table@.dom().contains(key) {
            let m = position::<K, V>(entries, key);
            assert(entries[m].0@ == key);
            assert(keys[m] == key);
        }
        if keys.contains(key) {
            let m = keys.index_of(key);
            assert(entries[m].0@ == keys[m]);
        }
    }
    assert forall|i: int, j: int| 0 <= i < keys.len() && 0 <= j < keys.len() && i != j implies keys[i]
        != keys[j] by {
        assert(entries[i].0@ == keys[i]);
        assert(entries[j].0@ == keys[j]);
        K::never_precedes_itself(keys[i]);
        if i < j {
            assert(K::precedes(entries[i].0@, entries[j].0@));
        } else {
            assert(K::precedes(entries[j].0@, entries[i].0@));
        }
    }
}

/// Replacing one entry's value replaces it in the map.
proof fn replaced_in_map<K: Ranked, V>(
    before: Seq<(K, V)>,
    after: Seq<(K, V)>,
    at: int,
    value: V,
)
    requires
        ascending(before),
        ascending(after),
        0 <= at < before.len(),
        after == before.update(at, (before[at].0, value)),
    ensures
        as_map::<K, V>(after) == as_map::<K, V>(before).insert(before[at].0@, value),
{
    let left = as_map::<K, V>(after);
    let right = as_map::<K, V>(before).insert(before[at].0@, value);
    position_of::<K, V>(after, at);
    assert forall|key: K::V| left.dom().contains(key) == right.dom().contains(key) by {
        if left.dom().contains(key) {
            let i = position::<K, V>(after, key);
            assert(before[i].0@ == key);
        }
        if right.dom().contains(key) && key != before[at].0@ {
            let i = position::<K, V>(before, key);
            assert(after[i].0@ == key);
        }
    }
    assert forall|key: K::V| left.dom().contains(key) implies left[key] == right[key] by {
        let i = position::<K, V>(after, key);
        if i != at {
            assert(before[i].0@ == key);
            position_of::<K, V>(before, i);
            position_of::<K, V>(after, i);
            if key == before[at].0@ {
                position_of::<K, V>(before, at);
            }
        }
    }
    assert(left =~= right);
}

/// Putting a new entry where it belongs puts it in the map.
proof fn inserted_in_map<K: Ranked, V>(before: Seq<(K, V)>, at: int, key: K, value: V)
    requires
        ascending(before),
        0 <= at <= before.len(),
        forall|i: int| 0 <= i < at ==> K::precedes((#[trigger] before[i]).0@, key@),
        forall|i: int| at <= i < before.len() ==> K::precedes(key@, (#[trigger] before[i]).0@),
    ensures
        ascending(before.insert(at, (key, value))),
        as_map::<K, V>(before.insert(at, (key, value))) == as_map::<K, V>(before).insert(key@, value),
{
    let after = before.insert(at, (key, value));
    assert forall|i: int, j: int|
        #![trigger after[i], after[j]]
        0 <= i < j < after.len() implies K::precedes(after[i].0@, after[j].0@) by {
        let from = if i < at { i } else { i - 1 };
        let to = if j < at { j } else { j - 1 };
        if i != at && j != at {
            assert(K::precedes(before[from].0@, before[to].0@));
        } else if i == at {
            assert(after[j] == before[to]);
        } else {
            assert(after[i] == before[from]);
        }
    }
    let left = as_map::<K, V>(after);
    let right = as_map::<K, V>(before).insert(key@, value);
    assert(after[at] == (key, value));
    position_of::<K, V>(after, at);
    assert forall|k: K::V| left.dom().contains(k) == right.dom().contains(k) by {
        if left.dom().contains(k) && k != key@ {
            let i = position::<K, V>(after, k);
            let from = if i < at { i } else { i - 1 };
            assert(before[from].0@ == k);
        }
        if right.dom().contains(k) && k != key@ {
            let i = position::<K, V>(before, k);
            let to = if i < at { i } else { i + 1 };
            assert(after[to].0@ == k);
        }
    }
    assert forall|k: K::V| left.dom().contains(k) implies left[k] == right[k] by {
        let i = position::<K, V>(after, k);
        if k != key@ {
            let from = if i < at { i } else { i - 1 };
            assert(before[from].0@ == k);
            position_of::<K, V>(before, from);
        }
    }
    assert(left =~= right);
}

/// Taking an entry out takes its key out of the map.
proof fn removed_from_map<K: Ranked, V>(before: Seq<(K, V)>, at: int)
    requires
        ascending(before),
        0 <= at < before.len(),
    ensures
        ascending(before.remove(at)),
        as_map::<K, V>(before.remove(at)) == as_map::<K, V>(before).remove(before[at].0@),
{
    let after = before.remove(at);
    assert forall|i: int, j: int|
        #![trigger after[i], after[j]]
        0 <= i < j < after.len() implies K::precedes(after[i].0@, after[j].0@) by {
        let from = if i < at { i } else { i + 1 };
        let to = if j < at { j } else { j + 1 };
        assert(K::precedes(before[from].0@, before[to].0@));
    }
    let left = as_map::<K, V>(after);
    let right = as_map::<K, V>(before).remove(before[at].0@);
    position_of::<K, V>(before, at);
    assert forall|k: K::V| left.dom().contains(k) == right.dom().contains(k) by {
        if left.dom().contains(k) {
            let i = position::<K, V>(after, k);
            let from = if i < at { i } else { i + 1 };
            assert(before[from].0@ == k);
            position_of::<K, V>(before, from);
        }
        if right.dom().contains(k) {
            let i = position::<K, V>(before, k);
            let to = if i < at { i } else { i - 1 };
            assert(i != at);
            assert(after[to].0@ == k);
        }
    }
    assert forall|k: K::V| left.dom().contains(k) implies left[k] == right[k] by {
        let i = position::<K, V>(after, k);
        let from = if i < at { i } else { i + 1 };
        assert(before[from].0@ == k);
        position_of::<K, V>(before, from);
    }
    assert(left =~= right);
}

} // verus!
