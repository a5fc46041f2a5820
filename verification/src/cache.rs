//! An older form of the persistent storage, holding strings, themes and layouts.
use vstd::prelude::*;

use crate::persistence::{database_lookup, database_store};
use crate::style::{Layout, Theme};
use crate::table::{distinct_keys, has_key, position_of, KeyedTable};

verus! {

#[derive(Debug, Clone)]
pub enum CacheValue {
    String(String),
    Theme(Theme),
    Layout(Layout),
}

impl CacheValue {
    /// Checks the string value if the type of `CacheValue` is a string.
    pub fn check_string(&self) -> (r: Option<&str>)
        ensures
            match self {
                CacheValue::String(s) => r matches Some(x) && x@ == s@,
                _ => r is None,
            },
    {
        match self {
            CacheValue::String(s) => Some(s.as_str()),
            _ => None,
        }
    }

    /// Consumes the value and turns it into a string. If the value was not a string, it will return an empty string.
    pub fn to_string(self) -> (r: String)
        ensures
            match self {
                CacheValue::String(s) => r@ == s@,
                _ => r@ == Seq::<char>::empty(),
            },
    {
        match self {
            Self::String(x) => x,
            _ => String::new(),
        }
    }

    /// Consumes the value and returns the theme within it. If the type wasn't theme, a default theme is returned instead.
    pub fn to_theme(self) -> (r: Theme)
        ensures
            match self {
                CacheValue::Theme(t) => r == t,
                _ => r == Theme::Light,
            },
    {
        match self {
            Self::Theme(x) => x,
            _ => Theme::default(),
        }
    }

    /// Consumes the value and returns the layout within it. If the type wasn't layout, a default layout is returned instead.
    pub fn to_layout(self) -> (r: Layout)
        ensures
            match self {
                CacheValue::Layout(l) => r == l,
                _ => r == Layout::Parallel,
            },
    {
        match self {
            Self::Layout(x) => x,
            _ => Layout::default(),
        }
    }

    /// A copy of the value.
    pub fn duplicate(&self) -> (r: Self)
        ensures
            r == *self,
    {
        match self {
            CacheValue::String(s) => CacheValue::String(s.clone()),
            CacheValue::Theme(t) => CacheValue::Theme(*t),
            CacheValue::Layout(l) => CacheValue::Layout(*l),
        }
    }
}

/// Persistent storage for any data meant to be stored between program runs
pub struct Cache {
    cache: KeyedTable<KeyedTable<CacheValue>>,
}

impl Cache {
    /// Well-formedness: each table keeps its keys distinct.
    pub closed spec fn wf(&self) -> bool {
        &&& self.cache.wf()
        &&& forall|id: Seq<char>| #[trigger] self.cache@.contains_key(id) ==> self.cache@[id].wf()
    }

    /// The stored values, by id and key.
    pub closed spec fn view(&self) -> Map<Seq<char>, Map<Seq<char>, CacheValue>> {
        Map::new(|id: Seq<char>| self.cache@.contains_key(id), |id: Seq<char>| self.cache@[id]@)
    }

    /// Empty storage.
    pub fn new() -> (c: Self)
        ensures
            c.wf(),
            c.view() == Map::<Seq<char>, Map<Seq<char>, CacheValue>>::empty(),
    {
        let c = Cache { cache: KeyedTable::new() };
        assert(c.view() =~= Map::<Seq<char>, Map<Seq<char>, CacheValue>>::empty());
        c
    }

    /// The groups of stored values, by id.
    pub fn entries(&self) -> (r: &Vec<(String, KeyedTable<CacheValue>)>)
        requires
            self.wf(),
        ensures
            distinct_keys(r@),
            forall|i: int|
                0 <= i < r@.len() ==> self.view().contains_key((#[trigger] r@[i]).0@)
                    && self.view()[r@[i].0@] == r@[i].1@,
            forall|id: Seq<char>| #[trigger] self.view().contains_key(id) ==> has_key(r@, id),
    {
        let r = self.cache.entries();
        proof {
            self.cache.lemma_view_is_entries();
            self.cache.lemma_wf_distinct();
            assert forall|i: int| 0 <= i < r@.len() implies self.view().contains_key((#[trigger] r@[i]).0@)
                && self.view()[r@[i].0@] == r@[i].1@ by {
                let k = r@[i].0@;
                assert(has_key(r@, k));
                let p = position_of(r@, k);
                assert(r@[p].0@ == k);
            }
        }
        r
    }

    /// Returns a borrowed value if present
    pub fn get(&self, id: &str, key: &str) -> (r: Option<&CacheValue>)
        requires
            self.wf(),
        ensures
            match r {
                Some(v) => database_lookup(self.view(), id@, key@) == Some(*v),
                None => database_lookup(self.view(), id@, key@) is None,
            },
    {
        match self.cache.get(id) {
            Some(m) => m.get(key),
            None => None,
        }
    }

    /// Returns a cloned value if it's present
    pub fn get_copy(&self, id: &str, key: &str) -> (r: Option<CacheValue>)
        requires
            self.wf(),
        ensures
            r == database_lookup(self.view(), id@, key@),
    {
        match self.get(id, key) {
            Some(v) => Some(v.duplicate()),
            None => None,
        }
    }

    /// Stores the value in cache, if the cache for this id and key wasn't present, it creates it
    pub fn set(&mut self, id: &str, key: String, value: CacheValue)
        requires
            old(self).wf(),
        ensures
            final(self).wf(),
            final(self).view() == database_store(old(self).view(), id@, key@, value),
    {
        let mut group = match self.cache.remove(id) {
            Some(m) => m,
            None => KeyedTable::new(),
        };
        let ghost k = key@;
        group.insert(key, value);
        self.cache.insert(id.to_owned(), group);
        assert(self.view() =~= database_store(old(self).view(), id@, k, value));
    }
}

} // verus!
