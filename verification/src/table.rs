//! A string-keyed table, the storage under the program's persistent data.
use vstd::prelude::*;

use crate::strings::chars_of;

verus! {

/// Whether two strings hold the same characters.
pub(crate) fn str_eq(a: &str, b: &str) -> (r: bool)
    ensures
        r == (a@ == b@),
{
    let x = chars_of(a);
    let y = chars_of(b);
    if x.len() != y.len() {
        return false;
    }
    let n = x.len();
    let mut i: usize = 0;
    while i < n
        invariant
            x@ == a@,
            y@ == b@,
            n == x@.len(),
            n == y@.len(),
            i <= n,
            forall|j: int| 0 <= j < i ==> x@[j] == y@[j],
        decreases n - i,
    {
        if x[i] != y[i] {
            assert(a@[i as int] != b@[i as int]);
            return false;
        }
        i = i + 1;
    }
    assert(x@ =~= y@);
    true
}

/// A table from string keys to values. Entries keep the order in which their
/// keys were first inserted, and no key occurs twice.
pub struct KeyedTable<V> {
    entries: Vec<(String, V)>,
}

/// Whether some entry of `entries` has key `k`.
pub open spec fn has_key<V>(entries: Seq<(String, V)>, k: Seq<char>) -> bool {
    exists|i: int| 0 <= i < entries.len() && (#[trigger] entries[i]).0@ == k
}

/// The position of the entry with key `k`.
pub open spec fn position_of<V>(entries: Seq<(String, V)>, k: Seq<char>) -> int {
    choose|i: int| 0 <= i < entries.len() && (#[trigger] entries[i]).0@ == k
}

/// No key occurs twice.
pub open spec fn distinct_keys<V>(entries: Seq<(String, V)>) -> bool {
    forall|i: int, j: int|
        0 <= i < entries.len() && 0 <= j < entries.len() && i != j ==> (#[trigger] entries[i]).0@
            != (#[trigger] entries[j]).0@
}

/// The map that `entries` stand for.
pub open spec fn entries_map<V>(entries: Seq<(String, V)>) -> Map<Seq<char>, V> {
    Map::new(|k: Seq<char>| has_key(entries, k), |k: Seq<char>| entries[position_of(entries, k)].1)
}

impl<V> View for KeyedTable<V> {
    type V = Map<Seq<char>, V>;

    closed spec fn view(&self) -> Map<Seq<char>, V> {
        entries_map(self.entries@)
    }
}

impl<V> KeyedTable<V> {
    /// The entries, in the order in which their keys were first inserted.
    pub closed spec fn entry_seq(&self) -> Seq<(String, V)> {
        self.entries@
    }

    /// Well-formedness: no key occurs twice.
    pub closed spec fn wf(&self) -> bool {
        distinct_keys(self.entries@)
    }

    /// The map the table stands for is the one its entries stand for.
    pub proof fn lemma_view_is_entries(&self)
        ensures
            self@ == entries_map(self.entry_seq()),
    {
    }

    /// In a well-formed table no key occurs twice.
    pub proof fn lemma_wf_distinct(&self)
        requires
            self.wf(),
        ensures
            distinct_keys(self.entry_seq()),
    {
    }

    /// The entries, in the order in which their keys were first inserted.
    pub fn entries(&self) -> (r: &Vec<(String, V)>)
        ensures
            r@ == self.entry_seq(),
    {
        &self.entries
    }

    /// An empty table.
    pub fn new() -> (t: Self)
        ensures
            t.wf(),
            t@ == Map::<Seq<char>, V>::empty(),
            t.entry_seq().len() == 0,
    {
        let t = KeyedTable { entries: Vec::new() };
        assert(t@ =~= Map::<Seq<char>, V>::empty());
        t
    }

    /// The number of keys in the table.
    pub fn len(&self) -> (n: usize)
        requires
            self.wf(),
        ensures
            n == self.entry_seq().len(),
    {
        self.entries.len()
    }

    /// The position of the entry with key `key`, if there is one.
    pub fn index_of(&self, key: &str) -> (r: Option<usize>)
        ensures
            match r {
                Some(i) => i < self.entry_seq().len() && self.entry_seq()[i as int].0@ == key@,
                None => !has_key(self.entry_seq(), key@),
            },
    {
        let mut i: usize = 0;
        while i < self.entries.len()
            invariant
                i <= self.entries@.len(),
                forall|j: int| 0 <= j < i ==> (#[trigger] self.entries@[j]).0@ != key@,
            decreases self.entries@.len() - i,
        {
            if str_eq(self.entries[i].0.as_str(), key) {
                return Some(i);
            }
            i = i + 1;
        }
        None
    }

    /// A reference to the value under `key`, if there is one.
    pub fn get(&self, key: &str) -> (r: Option<&V>)
        requires
            self.wf(),
        ensures
            match r {
                Some(v) => self@.contains_key(key@) && *v == self@[key@],
                None => !self@.contains_key(key@),
            },
    {
        match self.index_of(key) {
            Some(i) => {
                assert(self.entries@[i as int].0@ == key@);
                let ghost p = position_of(self.entries@, key@);
                assert(p == i);
                Some(&self.entries[i].1)
            },
            None => None,
        }
    }

    /// Stores `value` under `key`, replacing the value that was there.
    pub fn insert(&mut self, key: String, value: V)
        requires
            old(self).wf(),
        ensures
            final(self).wf(),
            final(self)@ == old(self)@.insert(key@, value),
    {
        let ghost k = key@;
        match self.index_of(key.as_str()) {
            Some(i) => {
                let ghost before = self.entries@;
                self.entries.set(i, (key, value));
                assert(self.entries@[i as int].0@ == k);
                assert(before[i as int].0@ == k);
                assert(self@ =~= entries_map(before).insert(k, value)) by {
                    assert forall|q: Seq<char>| #[trigger] has_key(self.entries@, q) == (has_key(before, q) || q == k) by {
                        if has_key(before, q) {
                            let j = position_of(before, q);
                            if j != i {
                                assert(self.entries@[j] == before[j]);
                            }
                        }
                        if has_key(self.entries@, q) {
                            let j = position_of(self.entries@, q);
                            if j != i {
                                assert(self.entries@[j] == before[j]);
                            }
                        }
                    }
                    assert forall|q: Seq<char>| #[trigger] has_key(self.entries@, q) implies
                        self.entries@[position_of(self.entries@, q)].1 == (if q == k { value } else { entries_map(before)[q] }) by {
                        let j = position_of(self.entries@, q);
                        if q != k {
                            assert(j != i);
                            assert(self.entries@[j] == before[j]);
                            assert(has_key(before, q));
                            let jb = position_of(before, q);
                            assert(jb == j);
                        } else {
                            assert(j == i);
                        }
                    }
                }
            },
            None => {
                let ghost before = self.entries@;
                self.entries.push((key, value));
                assert(self@ =~= entries_map(before).insert(k, value)) by {
                    let n = before.len() as int;
                    assert(self.entries@[n].0@ == k);
                    assert forall|q: Seq<char>| #[trigger] has_key(self.entries@, q) == (has_key(before, q) || q == k) by {
                        if has_key(before, q) {
                            let j = position_of(before, q);
                            assert(self.entries@[j] == before[j]);
                        }
                        if has_key(self.entries@, q) {
                            let j = position_of(self.entries@, q);
                            if j != n {
                                assert(self.entries@[j] == before[j]);
                            }
                        }
                    }
                    assert forall|q: Seq<char>| #[trigger] has_key(self.entries@, q) implies
                        self.entries@[position_of(self.entries@, q)].1 == (if q == k { value } else { entries_map(before)[q] }) by {
                        let j = position_of(self.entries@, q);
                        if q != k {
                            assert(j != n);
                            assert(self.entries@[j] == before[j]);
                            assert(has_key(before, q));
                            let jb = position_of(before, q);
                            assert(jb == j);
                        } else {
                            assert(j == n);
                        }
                    }
                }
            },
        }
    }

    /// Takes the value under `key` out of the table, if there is one.
    pub fn remove(&mut self, key: &str) -> (r: Option<V>)
        requires
            old(self).wf(),
        ensures
            final(self).wf(),
            final(self)@ == old(self)@.remove(key@),
            match r {
                Some(v) => old(self)@.contains_key(key@) && v == old(self)@[key@],
                None => !old(self)@.contains_key(key@),
            },
    {
        match self.index_of(key) {
            Some(i) => {
                let ghost before = self.entries@;
                let ghost k = key@;
                assert(position_of(before, k) == i);
                let (_, v) = self.entries.remove(i);
                assert(forall|j: int| 0 <= j < i ==> self.entries@[j] == before[j]);
                assert(forall|j: int| i <= j < self.entries@.len() ==> self.entries@[j] == before[j + 1]);
                assert(self@ =~= entries_map(before).remove(k)) by {
                    assert forall|q: Seq<char>| #[trigger] has_key(self.entries@, q) == (has_key(before, q) && q != k) by {
                        if has_key(before, q) && q != k {
                            let j = position_of(before, q);
                            assert(j != i);
                            if j < i {
                                assert(self.entries@[j] == before[j]);
                            } else {
                                assert(self.entries@[j - 1] == before[j]);
                            }
                        }
                        if has_key(self.entries@, q) {
                            let j = position_of(self.entries@, q);
                            if j < i {
                                assert(self.entries@[j] == before[j]);
                            } else {
                                assert(self.entries@[j] == before[j + 1]);
                            }
                        }
                    }
                    assert forall|q: Seq<char>| #[trigger] has_key(self.entries@, q) implies
                        self.entries@[position_of(self.entries@, q)].1 == entries_map(before)[q] by {
                        let j = position_of(self.entries@, q);
                        let jb = if j < i { j } else { j + 1 };
                        assert(self.entries@[j] == before[jb]);
                        assert(has_key(before, q));
                        assert(position_of(before, q) == jb);
                    }
                }
                Some(v)
            },
            None => {
                assert(self@ =~= self@.remove(key@));
                None
            },
        }
    }
}

} // verus!