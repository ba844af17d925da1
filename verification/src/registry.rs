//! Tables of definitions by name.
//!
//! The asset formats declare named definitions (ammo types, weapons,
//! effects, ...) that later lookups find again by name.  A [`NameTable`]
//! keeps one entry per key; inserting under a present key replaces that
//! entry's value.  Its view is the list of `(key, value)` entries in order of
//! first insertion.
use vstd::prelude::*;

verus! {

/// Position of the entry with key `k`, or -1.
pub open spec fn key_index<V>(s: Seq<(Seq<char>, V)>, k: Seq<char>) -> int
    decreases s.len(),
{
    if s.len() == 0 {
        -1
    } else if s.last().0 == k {
        s.len() - 1
    } else {
        key_index(s.drop_last(), k)
    }
}

/// The value stored under `k`.
pub open spec fn assoc_get<V>(s: Seq<(Seq<char>, V)>, k: Seq<char>) -> Option<V> {
    let i = key_index(s, k);
    if i >= 0 {
        Some(s[i].1)
    } else {
        None
    }
}

/// `s` with `v` stored under `k`: the entry's value replaced when `k` is
/// present, a new last entry otherwise.
pub open spec fn assoc_insert<V>(s: Seq<(Seq<char>, V)>, k: Seq<char>, v: V) -> Seq<(Seq<char>, V)> {
    let i = key_index(s, k);
    if i >= 0 {
        s.update(i, (k, v))
    } else {
        s.push((k, v))
    }
}

/// No key occurs twice.
pub open spec fn keys_distinct<V>(s: Seq<(Seq<char>, V)>) -> bool {
    forall|i: int, j: int| 0 <= i < j < s.len() ==> #[trigger] s[i].0 != #[trigger] s[j].0
}

pub proof fn lemma_key_index<V>(s: Seq<(Seq<char>, V)>, k: Seq<char>)
    ensures
        -1 <= key_index(s, k) < s.len(),
        key_index(s, k) >= 0 ==> s[key_index(s, k)].0 == k,
        key_index(s, k) == -1 ==> forall|i: int| 0 <= i < s.len() ==> #[trigger] s[i].0 != k,
    decreases s.len(),
{
    if s.len() > 0 {
        lemma_key_index(s.drop_last(), k);
        assert forall|i: int| 0 <= i < s.len() - 1 implies #[trigger] s[i] == s.drop_last()[i] by {}
    }
}

/// With distinct keys, the entry holding `k` is the one `key_index` finds.
proof fn lemma_key_index_unique<V>(s: Seq<(Seq<char>, V)>, k: Seq<char>, i: int)
    requires
        keys_distinct(s),
        0 <= i < s.len(),
        s[i].0 == k,
    ensures
        key_index(s, k) == i,
{
    lemma_key_index(s, k);
    if key_index(s, k) != i {
        let j = key_index(s, k);
        if j >= 0 {
            if j < i {
                assert(s[j].0 != s[i].0);
            } else {
                assert(s[i].0 != s[j].0);
            }
        }
    }
}

/// Storing under a key keeps the keys distinct.
pub proof fn lemma_insert_keeps_keys_distinct<V>(s: Seq<(Seq<char>, V)>, k: Seq<char>, v: V)
    requires
        keys_distinct(s),
    ensures
        keys_distinct(assoc_insert(s, k, v)),
{
    lemma_key_index(s, k);
    let t = assoc_insert(s, k, v);
    assert forall|i: int, j: int| 0 <= i < j < t.len() implies #[trigger] t[i].0 != #[trigger] t[j].0 by {
        if key_index(s, k) < 0 && j == s.len() {
            assert(s[i].0 != k);
        } else if key_index(s, k) >= 0 {
            assert(s[i].0 != s[j].0);
        }
    }
}

/// Reading a table after storing `v` under `k` gives `v` for `k` and what
/// was there before for every other key.
pub proof fn lemma_insert_then_get<V>(s: Seq<(Seq<char>, V)>, k: Seq<char>, v: V, q: Seq<char>)
    requires
        keys_distinct(s),
    ensures
        assoc_get(assoc_insert(s, k, v), q) == if q == k {
            Some(v)
        } else {
            assoc_get(s, q)
        },
{
    let t = assoc_insert(s, k, v);
    lemma_key_index(s, k);
    lemma_key_index(s, q);
    lemma_insert_keeps_keys_distinct(s, k, v);
    lemma_key_index(t, q);
    if q == k {
        if key_index(s, k) >= 0 {
            lemma_key_index_unique(t, q, key_index(s, k));
        } else {
            lemma_key_index_unique(t, q, s.len() as int);
        }
    } else {
        if key_index(s, q) >= 0 {
            lemma_key_index_unique(t, q, key_index(s, q));
        } else {
            if key_index(t, q) >= 0 {
                let j = key_index(t, q);
                if j < s.len() {
                    assert(t[j].0 == s[j].0 || j == key_index(s, k));
                }
            }
        }
    }
}

/// The entries with each value mapped by `f`.
pub open spec fn map_entries<V, W>(s: Seq<(Seq<char>, V)>, f: spec_fn(V) -> W) -> Seq<(Seq<char>, W)> {
    s.map_values(|e: (Seq<char>, V)| (e.0, f(e.1)))
}

proof fn lemma_key_index_map<V, W>(s: Seq<(Seq<char>, V)>, f: spec_fn(V) -> W, k: Seq<char>)
    ensures
        key_index(map_entries(s, f), k) == key_index(s, k),
    decreases s.len(),
{
    if s.len() > 0 {
        assert(map_entries(s, f).drop_last() =~= map_entries(s.drop_last(), f));
        lemma_key_index_map(s.drop_last(), f, k);
    }
}

/// Mapping the values commutes with storing under a key.
pub proof fn lemma_insert_map<V, W>(s: Seq<(Seq<char>, V)>, k: Seq<char>, v: V, f: spec_fn(V) -> W)
    ensures
        map_entries(assoc_insert(s, k, v), f) == assoc_insert(map_entries(s, f), k, f(v)),
{
    lemma_key_index_map(s, f, k);
    lemma_key_index(s, k);
    assert(map_entries(assoc_insert(s, k, v), f) =~= assoc_insert(map_entries(s, f), k, f(v)));
}

/// Definitions by name, one entry per key.
pub struct NameTable<V> {
    entries: Vec<(String, V)>,
}

impl<V> NameTable<V> {
    /// The entries: `(key, value)` in order of first insertion.
    pub closed spec fn entries(&self) -> Seq<(Seq<char>, V)> {
        self.entries@.map_values(|e: (String, V)| (e.0@, e.1))
    }

    #[verifier::type_invariant]
    closed spec fn inv(&self) -> bool {
        keys_distinct(self.entries())
    }

    /// An empty table.
    pub fn new() -> (t: Self)
        ensures
            t.entries() == Seq::<(Seq<char>, V)>::empty(),
    {
        let t = NameTable { entries: Vec::new() };
        assert(t.entries() =~= Seq::<(Seq<char>, V)>::empty());
        t
    }

    /// Number of entries.
    pub fn len(&self) -> (n: usize)
        ensures
            n == self.entries().len(),
    {
        self.entries.len()
    }

    fn find(&self, key: &str) -> (r: Option<usize>)
        ensures
            match r {
                Some(i) => key_index(self.entries(), key@) == i && i < self.entries@.len(),
                None => key_index(self.entries(), key@) == -1,
            },
            self.entries().len() == self.entries@.len(),
    {
        proof {
            use_type_invariant(self);
            lemma_key_index(self.entries(), key@);
        }
        let wanted = key.to_owned();
        let mut i: usize = 0;
        while i < self.entries.len()
            invariant
                i <= self.entries@.len(),
                wanted@ == key@,
                keys_distinct(self.entries()),
                self.entries().len() == self.entries@.len(),
                forall|j: int| 0 <= j < i ==> #[trigger] self.entries()[j].0 != key@,
            decreases self.entries.len() - i,
        {
            if self.entries[i].0 == wanted {
                proof {
                    lemma_key_index_unique(self.entries(), key@, i as int);
                }
                return Some(i);
            }
            i = i + 1;
        }
        proof {
            lemma_key_index(self.entries(), key@);
            if key_index(self.entries(), key@) >= 0 {
                let j = key_index(self.entries(), key@);
                assert(self.entries()[j].0 != key@);
            }
        }
        None
    }

    /// The value stored under `key`.
    pub fn get(&self, key: &str) -> (r: Option<&V>)
        ensures
            match r {
                Some(v) => assoc_get(self.entries(), key@) == Some(*v),
                None => assoc_get(self.entries(), key@) is None,
            },
    {
        match self.find(key) {
            Some(i) => {
                proof {
                    lemma_key_index(self.entries(), key@);
                }
                Some(&self.entries[i].1)
            },
            None => None,
        }
    }

    /// Store `value` under `key`, replacing the value of a present key.
    pub fn insert(&mut self, key: String, value: V)
        ensures
            final(self).entries() == assoc_insert(old(self).entries(), key@, value),
            keys_distinct(final(self).entries()),
    {
        proof {
            use_type_invariant(&*self);
            lemma_insert_keeps_keys_distinct(self.entries(), key@, value);
        }
        let ghost before = self.entries();
        match self.find(key.as_str()) {
            Some(i) => {
                let mut entries: Vec<(String, V)> = Vec::new();
                std::mem::swap(&mut entries, &mut self.entries);
                proof {
                    lemma_key_index(before, key@);
                }
                entries.set(i, (key, value));
                assert(entries@.map_values(|e: (String, V)| (e.0@, e.1)) =~= assoc_insert(
                    before,
                    key@,
                    value,
                ));
                self.entries = entries;
            },
            None => {
                let mut entries: Vec<(String, V)> = Vec::new();
                std::mem::swap(&mut entries, &mut self.entries);
                entries.push((key, value));
                assert(entries@.map_values(|e: (String, V)| (e.0@, e.1)) =~= assoc_insert(
                    before,
                    key@,
                    value,
                ));
                self.entries = entries;
            },
        }
    }
}

} // verus!
