//! A small association table keyed by a `(binding name, capability id)`
//! pair of strings, viewed as a mathematical map from the key's character
//! sequences to the stored value.
//!
//! The router table, the plugin set and the descriptor table are all
//! instances of this one structure.

use vstd::prelude::*;

verus! {

/// Relies on str's `PartialEq`: two string slices compare equal exactly
/// when they hold the same characters.
#[verifier::external_body]
pub(crate) fn str_eq(a: &str, b: &str) -> (r: bool)
    ensures
        r == (a@ == b@),
{
    a == b
}

/// The mathematical key of a table entry: the views of the binding name
/// and the capability id.
pub open spec fn key_view(k: (String, String)) -> (Seq<char>, Seq<char>) {
    (k.0@, k.1@)
}

/// The map described by a sequence of key/value entries, later entries
/// overriding earlier ones.
pub open spec fn map_of<V>(s: Seq<((String, String), V)>) -> Map<(Seq<char>, Seq<char>), V>
    decreases s.len(),
{
    if s.len() == 0 {
        Map::empty()
    } else {
        map_of(s.drop_last()).insert(key_view(s.last().0), s.last().1)
    }
}

/// No two entries of the sequence share a key.
pub open spec fn keys_unique<V>(s: Seq<((String, String), V)>) -> bool {
    forall|i: int, j: int|
        0 <= i < s.len() && 0 <= j < s.len() && i != j ==> key_view(s[i].0) != key_view(s[j].0)
}

/// A key is in the map exactly when some entry of the sequence holds it.
pub proof fn lemma_map_of_contains<V>(s: Seq<((String, String), V)>, k: (Seq<char>, Seq<char>))
    ensures
        map_of(s).contains_key(k) <==> exists|i: int|
            0 <= i < s.len() && key_view(#[trigger] s[i].0) == k,
    decreases s.len(),
{
    if s.len() == 0 {
    } else {
        lemma_map_of_contains(s.drop_last(), k);
        if key_view(s.last().0) == k {
            assert(key_view(s[s.len() - 1].0) == k);
        } else {
            if map_of(s).contains_key(k) {
                let i = choose|i: int|
                    0 <= i < s.drop_last().len() && key_view(#[trigger] s.drop_last()[i].0) == k;
                assert(s.drop_last()[i] == s[i]);
            }
            if exists|i: int| 0 <= i < s.len() && key_view(#[trigger] s[i].0) == k {
                let i = choose|i: int| 0 <= i < s.len() && key_view(#[trigger] s[i].0) == k;
                assert(i < s.len() - 1);
                assert(s.drop_last()[i] == s[i]);
            }
        }
    }
}

/// Dropping the last entry keeps the keys unique.
proof fn lemma_keys_unique_drop_last<V>(s: Seq<((String, String), V)>)
    requires
        keys_unique(s),
        s.len() > 0,
    ensures
        keys_unique(s.drop_last()),
{
    assert forall|i: int, j: int|
        0 <= i < s.drop_last().len() && 0 <= j < s.drop_last().len() && i != j implies key_view(
        s.drop_last()[i].0,
    ) != key_view(s.drop_last()[j].0) by {
        assert(s.drop_last()[i] == s[i]);
        assert(s.drop_last()[j] == s[j]);
    }
}

/// With unique keys, the entry at index `i` is what the map holds for its
/// key.
pub proof fn lemma_map_of_index<V>(s: Seq<((String, String), V)>, i: int)
    requires
        keys_unique(s),
        0 <= i < s.len(),
    ensures
        map_of(s).contains_key(key_view(s[i].0)),
        map_of(s)[key_view(s[i].0)] == s[i].1,
    decreases s.len(),
{
    if i == s.len() - 1 {
        assert(s.last() == s[i]);
    } else {
        lemma_keys_unique_drop_last(s);
        lemma_map_of_index(s.drop_last(), i);
        assert(s.drop_last()[i] == s[i]);
        assert(key_view(s[s.len() - 1].0) != key_view(s[i].0));
        assert(s.last() == s[s.len() - 1]);
    }
}

/// With unique keys, removing the entry at index `i` removes exactly its
/// key from the map.
pub proof fn lemma_map_of_remove<V>(s: Seq<((String, String), V)>, i: int)
    requires
        keys_unique(s),
        0 <= i < s.len(),
    ensures
        map_of(s.remove(i)) == map_of(s).remove(key_view(s[i].0)),
        keys_unique(s.remove(i)),
    decreases s.len(),
{
    assert forall|a: int, b: int|
        0 <= a < s.remove(i).len() && 0 <= b < s.remove(i).len() && a != b implies key_view(
        s.remove(i)[a].0,
    ) != key_view(s.remove(i)[b].0) by {
        let a0 = if a < i { a } else { a + 1 };
        let b0 = if b < i { b } else { b + 1 };
        assert(s.remove(i)[a] == s[a0]);
        assert(s.remove(i)[b] == s[b0]);
    }
    if i == s.len() - 1 {
        assert(s.remove(i) =~= s.drop_last());
        lemma_map_of_contains(s.drop_last(), key_view(s[i].0));
        assert forall|j: int| 0 <= j < s.drop_last().len() implies key_view(
            #[trigger] s.drop_last()[j].0,
        ) != key_view(s[i].0) by {
            assert(s.drop_last()[j] == s[j]);
        }
        assert(!map_of(s.drop_last()).contains_key(key_view(s[i].0)));
        assert(map_of(s.drop_last()) =~= map_of(s).remove(key_view(s[i].0)));
    } else {
        lemma_keys_unique_drop_last(s);
        lemma_map_of_remove(s.drop_last(), i);
        assert(s.remove(i).drop_last() =~= s.drop_last().remove(i));
        assert(s.remove(i).last() == s.last());
        assert(s.drop_last()[i] == s[i]);
        assert(map_of(s.remove(i)) == map_of(s.drop_last().remove(i)).insert(
            key_view(s.last().0),
            s.last().1,
        ));
        assert(key_view(s.last().0) != key_view(s[i].0));
        assert(map_of(s.drop_last()).remove(key_view(s[i].0)).insert(
            key_view(s.last().0),
            s.last().1,
        ) =~= map_of(s).remove(key_view(s[i].0)));
    }
}

/// An association table from `(binding name, capability id)` to `V`.
pub struct Table<V> {
    entries: Vec<((String, String), V)>,
}

impl<V> View for Table<V> {
    type V = Map<(Seq<char>, Seq<char>), V>;

    closed spec fn view(&self) -> Map<(Seq<char>, Seq<char>), V> {
        map_of(self.entries@)
    }
}

impl<V> Table<V> {
    /// The table's keys are unique; every method keeps this.
    pub closed spec fn wf(&self) -> bool {
        keys_unique(self.entries@)
    }

    /// An empty table.
    pub fn new() -> (t: Self)
        ensures
            t.wf(),
            t@ == Map::<(Seq<char>, Seq<char>), V>::empty(),
    {
        Table { entries: Vec::new() }
    }

    /// The index of the entry holding the key, if any entry does.
    fn find_index(&self, binding: &str, capid: &str) -> (r: Option<usize>)
        ensures
            match r {
                Some(i) => i < self.entries@.len() && key_view(self.entries@[i as int].0) == (
                    binding@,
                    capid@,
                ),
                None => forall|i: int|
                    0 <= i < self.entries@.len() ==> key_view(#[trigger] self.entries@[i].0) != (
                        binding@,
                        capid@,
                    ),
            },
    {
        let n = self.entries.len();
        let mut idx: usize = 0;
        while idx < n
            invariant
                n == self.entries@.len(),
                idx <= n,
                forall|i: int|
                    0 <= i < idx ==> key_view(#[trigger] self.entries@[i].0) != (binding@, capid@),
            decreases n - idx,
        {
            let entry_binding: &String = &self.entries[idx].0.0;
            let entry_capid: &String = &self.entries[idx].0.1;
            if str_eq(entry_binding.as_str(), binding) && str_eq(entry_capid.as_str(), capid) {
                return Some(idx);
            }
            idx = idx + 1;
        }
        None
    }

    /// Whether the table holds the key.
    pub fn contains_key(&self, binding: &str, capid: &str) -> (r: bool)
        ensures
            r == self@.contains_key((binding@, capid@)),
    {
        let found = self.find_index(binding, capid);
        proof {
            lemma_map_of_contains(self.entries@, (binding@, capid@));
        }
        found.is_some()
    }

    /// The value stored under the key, if the key is present.
    pub fn get(&self, binding: &str, capid: &str) -> (r: Option<&V>)
        requires
            self.wf(),
        ensures
            match r {
                Some(v) => self@.contains_key((binding@, capid@)) && *v == self@[(
                    binding@,
                    capid@,
                )],
                None => !self@.contains_key((binding@, capid@)),
            },
    {
        proof {
            lemma_map_of_contains(self.entries@, (binding@, capid@));
        }
        match self.find_index(binding, capid) {
            Some(i) => {
                proof {
                    lemma_map_of_index(self.entries@, i as int);
                }
                Some(&self.entries[i].1)
            },
            None => None,
        }
    }

    /// Stores `v` under a key not yet present; hands `v` back unchanged
    /// when the key is already bound.
    pub fn insert_new(&mut self, binding: String, capid: String, v: V) -> (r: Result<(), V>)
        requires
            old(self).wf(),
        ensures
            final(self).wf(),
            match r {
                Ok(()) => !old(self)@.contains_key((binding@, capid@)) && final(self)@ == old(
                    self,
                )@.insert((binding@, capid@), v),
                Err(v2) => old(self)@.contains_key((binding@, capid@)) && final(self)@ == old(
                    self,
                )@ && v2 == v,
            },
    {
        proof {
            lemma_map_of_contains(self.entries@, (binding@, capid@));
        }
        match self.find_index(binding.as_str(), capid.as_str()) {
            Some(_) => Err(v),
            None => {
                let ghost s = self.entries@;
                let ghost kv = (binding@, capid@);
                self.entries.push(((binding, capid), v));
                proof {
                    assert(self.entries@.drop_last() =~= s);
                    assert(key_view(self.entries@.last().0) == kv);
                    assert(map_of(self.entries@) == map_of(s).insert(kv, v));
                    assert forall|i: int, j: int|
                        0 <= i < self.entries@.len() && 0 <= j < self.entries@.len() && i
                            != j implies key_view(self.entries@[i].0) != key_view(
                        self.entries@[j].0,
                    ) by {
                        if i < s.len() && j < s.len() {
                            assert(self.entries@[i] == s[i]);
                            assert(self.entries@[j] == s[j]);
                        } else if i < s.len() {
                            assert(self.entries@[i] == s[i]);
                            assert(key_view(self.entries@[j].0) == kv);
                        } else {
                            assert(self.entries@[j] == s[j]);
                            assert(key_view(self.entries@[i].0) == kv);
                        }
                    }
                }
                Ok(())
            },
        }
    }

    /// Removes the key's entry and hands its value back; removing an
    /// absent key changes nothing.
    pub fn remove(&mut self, binding: &str, capid: &str) -> (r: Option<V>)
        requires
            old(self).wf(),
        ensures
            final(self).wf(),
            final(self)@ == old(self)@.remove((binding@, capid@)),
            match r {
                Some(v) => old(self)@.contains_key((binding@, capid@)) && v == old(self)@[(
                    binding@,
                    capid@,
                )],
                None => !old(self)@.contains_key((binding@, capid@)),
            },
    {
        proof {
            lemma_map_of_contains(self.entries@, (binding@, capid@));
        }
        match self.find_index(binding, capid) {
            Some(i) => {
                proof {
                    lemma_map_of_index(self.entries@, i as int);
                    lemma_map_of_remove(self.entries@, i as int);
                }
                let pair = self.entries.remove(i);
                Some(pair.1)
            },
            None => {
                proof {
                    assert(old(self)@.remove((binding@, capid@)) =~= old(self)@);
                }
                None
            },
        }
    }

    /// Whether the table is empty.
    pub fn is_empty(&self) -> (r: bool)
        ensures
            r == (self@ == Map::<(Seq<char>, Seq<char>), V>::empty()),
    {
        let r = self.entries.is_empty();
        proof {
            if self.entries@.len() == 0 {
                assert(self.entries@ =~= Seq::<((String, String), V)>::empty());
                assert(self@ == Map::<(Seq<char>, Seq<char>), V>::empty());
            } else {
                lemma_map_of_contains(self.entries@, key_view(self.entries@[0].0));
                assert(self@.contains_key(key_view(self.entries@[0].0)));
            }
        }
        r
    }

    /// A snapshot of every key in the table.
    pub fn keys(&self) -> (r: Vec<(String, String)>)
        requires
            self.wf(),
        ensures
            forall|j: int| 0 <= j < r@.len() ==> self@.contains_key(key_view(#[trigger] r@[j])),
            forall|k: (Seq<char>, Seq<char>)|
                self@.contains_key(k) ==> exists|j: int|
                    0 <= j < r@.len() && key_view(#[trigger] r@[j]) == k,
            forall|j1: int, j2: int|
                0 <= j1 < r@.len() && 0 <= j2 < r@.len() && j1 != j2 ==> key_view(#[trigger] r@[j1])
                    != key_view(#[trigger] r@[j2]),
    {
        let n = self.entries.len();
        let mut out: Vec<(String, String)> = Vec::new();
        let mut idx: usize = 0;
        while idx < n
            invariant
                n == self.entries@.len(),
                idx <= n,
                out@.len() == idx,
                forall|j: int|
                    0 <= j < idx ==> key_view(#[trigger] out@[j]) == key_view(
                        self.entries@[j].0,
                    ),
            decreases n - idx,
        {
            let b = self.entries[idx].0.0.clone();
            let c = self.entries[idx].0.1.clone();
            out.push((b, c));
            idx = idx + 1;
        }
        proof {
            assert forall|j: int| 0 <= j < out@.len() implies self@.contains_key(
                key_view(#[trigger] out@[j]),
            ) by {
                lemma_map_of_contains(self.entries@, key_view(out@[j]));
            }
            assert forall|k: (Seq<char>, Seq<char>)| self@.contains_key(k) implies exists|j: int|
                0 <= j < out@.len() && key_view(#[trigger] out@[j]) == k by {
                lemma_map_of_contains(self.entries@, k);
                let i = choose|i: int|
                    0 <= i < self.entries@.len() && key_view(#[trigger] self.entries@[i].0) == k;
                assert(key_view(out@[i]) == k);
            }
            assert forall|j1: int, j2: int|
                0 <= j1 < out@.len() && 0 <= j2 < out@.len() && j1 != j2 implies key_view(
                #[trigger] out@[j1],
            ) != key_view(#[trigger] out@[j2]) by {
                assert(key_view(out@[j1]) == key_view(self.entries@[j1].0));
                assert(key_view(out@[j2]) == key_view(self.entries@[j2].0));
            }
        }
        out
    }
}

} // verus!
