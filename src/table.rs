use vstd::prelude::*;

verus! {

/// A record that can hand out an independent copy of itself.
pub trait Snapshot: View + Sized {
    fn snapshot(&self) -> (r: Self)
        ensures
            r@ == self@,
    ;
}

/// Keys pairwise different along a sequence of entries.
pub open spec fn distinct_keys<V>(s: Seq<(String, V)>) -> bool {
    forall|i: int, j: int|
        0 <= i < s.len() && 0 <= j < s.len() && i != j ==> #[trigger] s[i].0@ != #[trigger] s[j].0@
}

/// Some entry of `s` is stored under `k`.
pub open spec fn has_key<V>(s: Seq<(String, V)>, k: Seq<char>) -> bool {
    exists|i: int| 0 <= i < s.len() && #[trigger] s[i].0@ == k
}

/// The map that a sequence of entries stands for.
pub open spec fn entry_map<V: View>(s: Seq<(String, V)>) -> Map<Seq<char>, V::V> {
    Map::new(
        |k: Seq<char>| has_key(s, k),
        |k: Seq<char>| s[choose|i: int| 0 <= i < s.len() && #[trigger] s[i].0@ == k].1@,
    )
}

/// `listed` holds the values of `m`, one position per key, in some order.
pub open spec fn lists_values<W>(m: Map<Seq<char>, W>, keys: Seq<Seq<char>>, listed: Seq<W>) -> bool {
    &&& keys.len() == listed.len()
    &&& keys.no_duplicates()
    &&& forall|k: Seq<char>| m.contains_key(k) <==> keys.contains(k)
    &&& forall|i: int| 0 <= i < keys.len() ==> m[#[trigger] keys[i]] == listed[i]
}

/// `listed` is a listing of the values of `m` in some order.
pub open spec fn is_listing<W>(m: Map<Seq<char>, W>, listed: Seq<W>) -> bool {
    exists|keys: Seq<Seq<char>>| lists_values(m, keys, listed)
}

proof fn lemma_entry<V: View>(s: Seq<(String, V)>, i: int)
    requires
        distinct_keys(s),
        0 <= i < s.len(),
    ensures
        entry_map(s).contains_key(s[i].0@),
        entry_map(s)[s[i].0@] == s[i].1@,
{
    assert(has_key(s, s[i].0@));
    let j = choose|j: int| 0 <= j < s.len() && #[trigger] s[j].0@ == s[i].0@;
    assert(j == i);
}

/// A collection of values keyed by strings, each key present at most once.
pub struct Table<V> {
    entries: Vec<(String, V)>,
}

impl<V: View> View for Table<V> {
    type V = Map<Seq<char>, V::V>;

    closed spec fn view(&self) -> Map<Seq<char>, V::V> {
        entry_map(self.entries@)
    }
}

impl<V> Table<V> {
    #[verifier::type_invariant]
    closed spec fn keys_unique(self) -> bool {
        distinct_keys(self.entries@)
    }
}

impl<V: View> Table<V> {
    /// An empty table.
    pub fn new() -> (r: Self)
        ensures
            r@ == Map::<Seq<char>, V::V>::empty(),
    {
        let r = Table { entries: Vec::new() };
        assert(r@ =~= Map::<Seq<char>, V::V>::empty());
        r
    }

    /// Moves the entries out, leaving the table empty.
    fn take_entries(&mut self) -> (r: Vec<(String, V)>)
        ensures
            r@ == old(self).entries@,
            final(self).entries@ == Seq::<(String, V)>::empty(),
    {
        let mut entries = Vec::new();
        std::mem::swap(&mut self.entries, &mut entries);
        entries
    }

    fn find(&self, key: &String) -> (r: Option<usize>)
        ensures
            r is Some ==> r->Some_0 < self.entries.len() && self.entries@[r->Some_0 as int].0@
                == key@,
            r is None ==> !has_key(self.entries@, key@),
    {
        let mut i: usize = 0;
        while i < self.entries.len()
            invariant
                i <= self.entries.len(),
                forall|j: int| 0 <= j < i ==> #[trigger] self.entries@[j].0@ != key@,
            decreases self.entries.len() - i,
        {
            if self.entries[i].0 == *key {
                return Some(i);
            }
            i = i + 1;
        }
        None
    }

    /// Whether a value is stored under `key`.
    pub fn contains(&self, key: &String) -> (r: bool)
        ensures
            r == self@.contains_key(key@),
    {
        self.find(key).is_some()
    }

    /// Stores `value` under `key`, replacing what was stored there.
    pub fn insert(&mut self, key: String, value: V)
        ensures
            final(self)@ == old(self)@.insert(key@, value@),
    {
        proof {
            use_type_invariant(&*self);
        }
        let ghost s = self.entries@;
        let ghost k = key@;
        let ghost v = value@;
        match self.find(&key) {
            Some(i) => {
                let mut entries = self.take_entries();
                entries.set(i, (key, value));
                let ghost t = entries@;
                assert(t == s.update(i as int, t[i as int]));
                assert(distinct_keys(t));
                assert forall|x: Seq<char>| #[trigger] entry_map(t).contains_key(x)
                    <==> entry_map(s).insert(k, v).contains_key(x) by {
                    if has_key(s, x) {
                        let j = choose|j: int| 0 <= j < s.len() && #[trigger] s[j].0@ == x;
                        assert(t[j].0@ == x);
                    }
                    if has_key(t, x) {
                        let j = choose|j: int| 0 <= j < t.len() && #[trigger] t[j].0@ == x;
                        assert(s[j].0@ == x);
                    }
                }
                assert forall|x: Seq<char>| #[trigger] entry_map(t).contains_key(x)
                    implies entry_map(t)[x] == entry_map(s).insert(k, v)[x] by {
                    let j = choose|j: int| 0 <= j < t.len() && #[trigger] t[j].0@ == x;
                    lemma_entry(t, j);
                    if j != i {
                        lemma_entry(s, j);
                    }
                }
                assert(entry_map(t) =~= entry_map(s).insert(k, v));
                self.entries = entries;
            },
            None => {
                let mut entries = self.take_entries();
                entries.push((key, value));
                let ghost t = entries@;
                assert(t == s.push(t.last()));
                assert(distinct_keys(t));
                assert forall|x: Seq<char>| #[trigger] entry_map(t).contains_key(x)
                    <==> entry_map(s).insert(k, v).contains_key(x) by {
                    if has_key(s, x) {
                        let j = choose|j: int| 0 <= j < s.len() && #[trigger] s[j].0@ == x;
                        assert(t[j].0@ == x);
                    }
                    if x == k {
                        assert(t[s.len() as int].0@ == x);
                    }
                    if has_key(t, x) {
                        let j = choose|j: int| 0 <= j < t.len() && #[trigger] t[j].0@ == x;
                        if j < s.len() {
                            assert(s[j].0@ == x);
                        }
                    }
                }
                assert forall|x: Seq<char>| #[trigger] entry_map(t).contains_key(x)
                    implies entry_map(t)[x] == entry_map(s).insert(k, v)[x] by {
                    let j = choose|j: int| 0 <= j < t.len() && #[trigger] t[j].0@ == x;
                    lemma_entry(t, j);
                    if j < s.len() {
                        lemma_entry(s, j);
                    }
                }
                assert(entry_map(t) =~= entry_map(s).insert(k, v));
                self.entries = entries;
            },
        }
    }

    /// Stores `value` under `key` only where a value is stored there already;
    /// reports whether it was.
    pub fn replace(&mut self, key: &String, value: V) -> (found: bool)
        ensures
            found == old(self)@.contains_key(key@),
            found ==> final(self)@ == old(self)@.insert(key@, value@),
            !found ==> final(self)@ == old(self)@,
    {
        if self.contains(key) {
            self.insert(key.clone(), value);
            true
        } else {
            false
        }
    }

    /// Removes what is stored under `key`; reports whether anything was.
    pub fn remove(&mut self, key: &String) -> (found: bool)
        ensures
            found == old(self)@.contains_key(key@),
            final(self)@ == old(self)@.remove(key@),
    {
        proof {
            use_type_invariant(&*self);
        }
        let ghost s = self.entries@;
        let ghost k = key@;
        match self.find(key) {
            Some(i) => {
                let mut entries = self.take_entries();
                entries.remove(i);
                let ghost t = entries@;
                assert(t == s.remove(i as int));
                assert forall|a: int, b: int|
                    0 <= a < t.len() && 0 <= b < t.len() && a != b implies #[trigger] t[a].0@
                    != #[trigger] t[b].0@ by {
                    let a2 = if a < i { a } else { a + 1 };
                    let b2 = if b < i { b } else { b + 1 };
                    assert(t[a] == s[a2] && t[b] == s[b2]);
                }
                assert forall|x: Seq<char>| #[trigger] entry_map(t).contains_key(x)
                    <==> entry_map(s).remove(k).contains_key(x) by {
                    if has_key(s, x) && x != k {
                        let j = choose|j: int| 0 <= j < s.len() && #[trigger] s[j].0@ == x;
                        if j < i {
                            assert(t[j].0@ == x);
                        } else {
                            assert(t[j - 1].0@ == x);
                        }
                    }
                    if has_key(t, x) {
                        let j = choose|j: int| 0 <= j < t.len() && #[trigger] t[j].0@ == x;
                        let j2 = if j < i { j } else { j + 1 };
                        assert(s[j2].0@ == x);
                    }
                }
                assert forall|x: Seq<char>| #[trigger] entry_map(t).contains_key(x)
                    implies entry_map(t)[x] == entry_map(s).remove(k)[x] by {
                    let j = choose|j: int| 0 <= j < t.len() && #[trigger] t[j].0@ == x;
                    let j2 = if j < i { j } else { j + 1 };
                    lemma_entry(t, j);
                    lemma_entry(s, j2);
                }
                assert(entry_map(t) =~= entry_map(s).remove(k));
                self.entries = entries;
                true
            },
            None => {
                assert(entry_map(s) =~= entry_map(s).remove(k));
                false
            },
        }
    }

    /// Copies of all stored values, one for each key, in no promised order.
    pub fn values(&self) -> (r: Vec<V>)
        where
            V: Snapshot,
        ensures
            is_listing(self@, r@.map_values(|x: V| x@)),
    {
        proof {
            use_type_invariant(self);
        }
        let ghost s = self.entries@;
        let ghost keys = s.map_values(|e: (String, V)| e.0@);
        let mut r: Vec<V> = Vec::new();
        let mut i: usize = 0;
        while i < self.entries.len()
            invariant
                i <= self.entries.len(),
                s == self.entries@,
                r.len() == i,
                forall|j: int| 0 <= j < i ==> (#[trigger] r@[j])@ == s[j].1@,
            decreases self.entries.len() - i,
        {
            r.push(self.entries[i].1.snapshot());
            i = i + 1;
        }
        let ghost listed = r@.map_values(|x: V| x@);
        assert forall|a: int, b: int|
            0 <= a < keys.len() && 0 <= b < keys.len() && a != b implies keys[a] != keys[b] by {
            assert(keys[a] == s[a].0@ && keys[b] == s[b].0@);
        }
        assert forall|x: Seq<char>| self@.contains_key(x) <==> keys.contains(x) by {
            if has_key(s, x) {
                let j = choose|j: int| 0 <= j < s.len() && #[trigger] s[j].0@ == x;
                assert(keys[j] == x);
            }
            if keys.contains(x) {
                let j = choose|j: int| 0 <= j < keys.len() && keys[j] == x;
                assert(s[j].0@ == x);
            }
        }
        assert forall|j: int| 0 <= j < keys.len() implies self@[#[trigger] keys[j]] == listed[j] by {
            lemma_entry(s, j);
        }
        assert(lists_values(self@, keys, listed));
        r
    }
}

} // verus!
