//! A small association list: a vector of `(key, value)` pairs whose keys are
//! distinct.  It backs the registries keyed by device address (sessions by
//! device, connected devices), whose keys are compared by their text.
//!
//! Its model is the sequence of pairs, keys taken by their view; `map()`
//! reads that sequence as a map from key to value.
use vstd::prelude::*;

verus! {

/// Keys that can be compared at run time by their view.
pub trait SameKey: View + Sized {
    fn same_key(&self, other: &Self) -> (b: bool)
        ensures
            b == (self@ == other@),
    ;
}

/// No key occurs twice in `s`.
pub open spec fn keys_distinct<KV, V>(s: Seq<(KV, V)>) -> bool {
    forall|i: int, j: int|
        0 <= i < s.len() && 0 <= j < s.len() && i != j ==> #[trigger] s[i].0 != #[trigger] s[j].0
}

/// `k` is the key of some pair of `s`.
pub open spec fn has_key<KV, V>(s: Seq<(KV, V)>, k: KV) -> bool {
    exists|i: int| 0 <= i < s.len() && #[trigger] s[i].0 == k
}

/// The pairs of `s` read as a map.
pub open spec fn map_of<KV, V>(s: Seq<(KV, V)>) -> Map<KV, V> {
    Map::new(
        |k: KV| has_key(s, k),
        |k: KV| s[choose|i: int| 0 <= i < s.len() && #[trigger] s[i].0 == k].1,
    )
}

pub proof fn lemma_map_of_at<KV, V>(s: Seq<(KV, V)>, i: int)
    requires
        keys_distinct(s),
        0 <= i < s.len(),
    ensures
        map_of(s).contains_key(s[i].0),
        map_of(s)[s[i].0] == s[i].1,
{
    let k = s[i].0;
    assert(has_key(s, k));
    let j = choose|j: int| 0 <= j < s.len() && #[trigger] s[j].0 == k;
    assert(j == i);
}

pub proof fn lemma_map_of_push<KV, V>(s: Seq<(KV, V)>, k: KV, v: V)
    requires
        keys_distinct(s),
        !has_key(s, k),
    ensures
        keys_distinct(s.push((k, v))),
        map_of(s.push((k, v))) == map_of(s).insert(k, v),
{
    let t = s.push((k, v));
    assert(keys_distinct(t)) by {
        assert forall|i: int, j: int|
            0 <= i < t.len() && 0 <= j < t.len() && i != j implies #[trigger] t[i].0
            != #[trigger] t[j].0 by {
            if i < s.len() && j < s.len() {
                assert(t[i] == s[i] && t[j] == s[j]);
            } else if i < s.len() {
                assert(t[i] == s[i]);
            } else {
                assert(t[j] == s[j]);
            }
        }
    }
    assert forall|x: KV| #[trigger] map_of(t).contains_key(x) == map_of(s).insert(k, v).contains_key(x) by {
        if has_key(s, x) {
            let i = choose|i: int| 0 <= i < s.len() && #[trigger] s[i].0 == x;
            assert(t[i].0 == x);
        }
        if has_key(t, x) && x != k {
            let i = choose|i: int| 0 <= i < t.len() && #[trigger] t[i].0 == x;
            assert(s[i].0 == x);
        }
        if x == k {
            assert(t[s.len() as int].0 == k);
        }
    }
    assert forall|x: KV| #[trigger] map_of(t).contains_key(x) implies map_of(t)[x] == map_of(s).insert(
        k,
        v,
    )[x] by {
        if x == k {
            lemma_map_of_at(t, s.len() as int);
        } else {
            let i = choose|i: int| 0 <= i < t.len() && #[trigger] t[i].0 == x;
            lemma_map_of_at(t, i);
            assert(t[i] == s[i]);
            lemma_map_of_at(s, i);
        }
    }
    assert(map_of(t) =~= map_of(s).insert(k, v));
}

pub proof fn lemma_map_of_update<KV, V>(s: Seq<(KV, V)>, i: int, v: V)
    requires
        keys_distinct(s),
        0 <= i < s.len(),
    ensures
        keys_distinct(s.update(i, (s[i].0, v))),
        map_of(s.update(i, (s[i].0, v))) == map_of(s).insert(s[i].0, v),
{
    let k = s[i].0;
    let t = s.update(i, (k, v));
    assert(keys_distinct(t)) by {
        assert forall|a: int, b: int|
            0 <= a < t.len() && 0 <= b < t.len() && a != b implies #[trigger] t[a].0
            != #[trigger] t[b].0 by {
            assert(t[a].0 == s[a].0 && t[b].0 == s[b].0);
        }
    }
    assert forall|x: KV| #[trigger] map_of(t).contains_key(x) == map_of(s).insert(k, v).contains_key(x) by {
        if has_key(s, x) {
            let j = choose|j: int| 0 <= j < s.len() && #[trigger] s[j].0 == x;
            assert(t[j].0 == x);
        }
        if has_key(t, x) {
            let j = choose|j: int| 0 <= j < t.len() && #[trigger] t[j].0 == x;
            assert(s[j].0 == x);
        }
        assert(t[i].0 == k);
    }
    assert forall|x: KV| #[trigger] map_of(t).contains_key(x) implies map_of(t)[x] == map_of(s).insert(
        k,
        v,
    )[x] by {
        let j = choose|j: int| 0 <= j < t.len() && #[trigger] t[j].0 == x;
        lemma_map_of_at(t, j);
        if j != i {
            lemma_map_of_at(s, j);
        }
    }
    assert(map_of(t) =~= map_of(s).insert(k, v));
}

pub proof fn lemma_map_of_remove<KV, V>(s: Seq<(KV, V)>, i: int)
    requires
        keys_distinct(s),
        0 <= i < s.len(),
    ensures
        keys_distinct(s.remove(i)),
        map_of(s.remove(i)) == map_of(s).remove(s[i].0),
{
    let k = s[i].0;
    let t = s.remove(i);
    assert(forall|j: int| 0 <= j < t.len() ==> #[trigger] t[j] == (if j < i { s[j] } else { s[j + 1] }));
    assert(keys_distinct(t)) by {
        assert forall|a: int, b: int|
            0 <= a < t.len() && 0 <= b < t.len() && a != b implies #[trigger] t[a].0
            != #[trigger] t[b].0 by {
            let a2 = if a < i { a } else { a + 1 };
            let b2 = if b < i { b } else { b + 1 };
            assert(t[a] == s[a2] && t[b] == s[b2]);
        }
    }
    assert forall|x: KV| #[trigger] map_of(t).contains_key(x) == map_of(s).remove(k).contains_key(x) by {
        if has_key(s, x) && x != k {
            let j = choose|j: int| 0 <= j < s.len() && #[trigger] s[j].0 == x;
            assert(j != i);
            let j2 = if j < i { j } else { j - 1 };
            assert(t[j2].0 == x);
        }
        if has_key(t, x) {
            let j = choose|j: int| 0 <= j < t.len() && #[trigger] t[j].0 == x;
            let j2 = if j < i { j } else { j + 1 };
            assert(s[j2].0 == x);
            assert(j2 != i);
        }
    }
    assert forall|x: KV| #[trigger] map_of(t).contains_key(x) implies map_of(t)[x] == map_of(s).remove(
        k,
    )[x] by {
        let j = choose|j: int| 0 <= j < t.len() && #[trigger] t[j].0 == x;
        lemma_map_of_at(t, j);
        let j2 = if j < i { j } else { j + 1 };
        assert(t[j] == s[j2]);
        lemma_map_of_at(s, j2);
    }
    assert(map_of(t) =~= map_of(s).remove(k));
}

/// Pairs with distinct keys.
pub struct KeyedList<K: View, V> {
    entries: Vec<(K, V)>,
}

impl<K: View, V> View for KeyedList<K, V> {
    type V = Seq<(K::V, V)>;

    closed spec fn view(&self) -> Seq<(K::V, V)> {
        self.entries@.map_values(|e: (K, V)| (e.0@, e.1))
    }
}

impl<K: View, V> KeyedList<K, V> {
    /// The pairs read as a map from key view to value.
    pub open spec fn map(&self) -> Map<K::V, V> {
        map_of(self@)
    }

    #[verifier::type_invariant]
    closed spec fn distinct(self) -> bool {
        keys_distinct(self@)
    }

    /// The empty list.
    pub fn new() -> (l: Self)
        ensures
            l@ == Seq::<(K::V, V)>::empty(),
            l.map() == Map::<K::V, V>::empty(),
    {
        let l = KeyedList { entries: Vec::new() };
        assert(l@ =~= Seq::<(K::V, V)>::empty());
        assert(l.map() =~= Map::<K::V, V>::empty());
        l
    }

    /// The number of pairs.
    pub fn len(&self) -> (n: usize)
        ensures
            n == self@.len(),
            n == self.map().len(),
    {
        proof {
            use_type_invariant(self);
            lemma_len_is_map_len(self@);
        }
        self.entries.len()
    }
}

/// With distinct keys, as many pairs as the map has keys.
proof fn lemma_len_is_map_len<KV, V>(s: Seq<(KV, V)>)
    requires
        keys_distinct(s),
    ensures
        map_of(s).len() == s.len(),
    decreases s.len(),
{
    if s.len() == 0 {
        assert(map_of(s).dom() =~= Set::<KV>::empty());
    } else {
        let p = s.drop_last();
        assert(keys_distinct(p));
        assert(!has_key(p, s.last().0)) by {
            if has_key(p, s.last().0) {
                let i = choose|i: int| 0 <= i < p.len() && #[trigger] p[i].0 == s.last().0;
                assert(s[i].0 == s[s.len() - 1].0);
            }
        }
        lemma_len_is_map_len(p);
        lemma_map_of_push(p, s.last().0, s.last().1);
        assert(p.push((s.last().0, s.last().1)) =~= s);
        lemma_map_of_finite(p);
    }
}

proof fn lemma_map_of_finite<KV, V>(s: Seq<(KV, V)>)
    ensures
        map_of(s).dom().finite(),
    decreases s.len(),
{
    let keys = s.map_values(|e: (KV, V)| e.0).to_set();
    assert(map_of(s).dom().subset_of(keys)) by {
        assert forall|k: KV| map_of(s).dom().contains(k) implies keys.contains(k) by {
            let i = choose|i: int| 0 <= i < s.len() && #[trigger] s[i].0 == k;
            assert(s.map_values(|e: (KV, V)| e.0)[i] == k);
        }
    }
    vstd::set_lib::lemma_set_subset_finite(keys, map_of(s).dom());
}

impl<K: View + SameKey, V> KeyedList<K, V> {
    /// The index of the pair whose key is `k`.
    fn position(&self, k: &K) -> (r: Option<usize>)
        ensures
            match r {
                Some(i) => i < self@.len() && self@[i as int].0 == k@,
                None => !has_key(self@, k@),
            },
    {
        let mut i: usize = 0;
        while i < self.entries.len()
            invariant
                i <= self.entries.len(),
                self@.len() == self.entries.len(),
                forall|j: int| 0 <= j < i ==> #[trigger] self@[j].0 != k@,
            decreases self.entries.len() - i,
        {
            assert(self@[i as int].0 == self.entries@[i as int].0@);
            if self.entries[i].0.same_key(k) {
                return Some(i);
            }
            i = i + 1;
        }
        None
    }

    /// Whether some pair has key `k`.
    pub fn contains_key(&self, k: &K) -> (b: bool)
        ensures
            b == self.map().contains_key(k@),
    {
        match self.position(k) {
            Some(i) => {
                proof {
                    use_type_invariant(self);
                    lemma_map_of_at(self@, i as int);
                }
                true
            },
            None => false,
        }
    }

    /// The value stored under `k`.
    pub fn get(&self, k: &K) -> (r: Option<&V>)
        ensures
            r is Some == self.map().contains_key(k@),
            r matches Some(v) ==> *v == self.map()[k@],
    {
        match self.position(k) {
            Some(i) => {
                proof {
                    use_type_invariant(self);
                    lemma_map_of_at(self@, i as int);
                }
                Some(&self.entries[i].1)
            },
            None => None,
        }
    }

    /// Stores `v` under `k`: a pair already keyed `k` has its value replaced
    /// where it stands, otherwise the pair is appended.  Returns the value
    /// that was replaced.
    pub fn insert(&mut self, k: K, v: V) -> (old_v: Option<V>)
        ensures
            final(self).map() == old(self).map().insert(k@, v),
            old_v is Some == old(self).map().contains_key(k@),
            old_v matches Some(o) ==> o == old(self).map()[k@],
            !old(self).map().contains_key(k@) ==> final(self)@ == old(self)@.push((k@, v)),
            old(self).map().contains_key(k@) ==> exists|i: int|
                0 <= i < old(self)@.len() && old(self)@[i].0 == k@ && final(self)@ == old(
                    self,
                )@.update(i, (k@, v)),
    {
        proof {
            use_type_invariant(&*self);
        }
        match self.position(&k) {
            Some(i) => {
                let ghost before = self@;
                proof {
                    lemma_map_of_at(before, i as int);
                    lemma_map_of_update(before, i as int, v);
                }
                let mut entries: Vec<(K, V)> = Vec::new();
                std::mem::swap(&mut entries, &mut self.entries);
                let ghost raw = entries@;
                let (old_k, old_val) = entries.remove(i);
                entries.insert(i, (old_k, v));
                assert(entries@ =~= raw.update(i as int, (raw[i as int].0, v)));
                assert(entries@.map_values(|e: (K, V)| (e.0@, e.1)) =~= before.update(
                    i as int,
                    (before[i as int].0, v),
                ));
                self.entries = entries;
                assert(self@ == before.update(i as int, (k@, v)));
                Some(old_val)
            },
            None => {
                let ghost before = self@;
                proof {
                    lemma_map_of_push(before, k@, v);
                }
                let mut entries: Vec<(K, V)> = Vec::new();
                std::mem::swap(&mut entries, &mut self.entries);
                entries.push((k, v));
                assert(entries@.map_values(|e: (K, V)| (e.0@, e.1)) =~= before.push((k@, v)));
                self.entries = entries;
                None
            },
        }
    }

    /// Removes the pair keyed `k`, keeping the order of the others.
    pub fn remove(&mut self, k: &K) -> (old_v: Option<V>)
        ensures
            final(self).map() == old(self).map().remove(k@),
            old_v is Some == old(self).map().contains_key(k@),
            old_v matches Some(o) ==> o == old(self).map()[k@],
            old(self).map().contains_key(k@) ==> exists|i: int|
                0 <= i < old(self)@.len() && old(self)@[i].0 == k@ && final(self)@ == old(
                    self,
                )@.remove(i),
            !old(self).map().contains_key(k@) ==> final(self)@ == old(self)@,
    {
        proof {
            use_type_invariant(&*self);
        }
        match self.position(k) {
            Some(i) => {
                let ghost before = self@;
                proof {
                    lemma_map_of_at(before, i as int);
                    lemma_map_of_remove(before, i as int);
                }
                let mut entries: Vec<(K, V)> = Vec::new();
                std::mem::swap(&mut entries, &mut self.entries);
                let (_, old_val) = entries.remove(i);
                assert(entries@.map_values(|e: (K, V)| (e.0@, e.1)) =~= before.remove(i as int));
                self.entries = entries;
                assert(self@ == before.remove(i as int));
                Some(old_val)
            },
            None => {
                assert(old(self).map().remove(k@) =~= old(self).map());
                None
            },
        }
    }

}

} // verus!
