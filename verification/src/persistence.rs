//! Values stored between program runs, grouped by an id and a key.
use vstd::prelude::*;
use vstd::string::StringExecFns;

use crate::image::ImageFormat;
use crate::style::{Layout, Theme};
use crate::table::{distinct_keys, has_key, position_of, KeyedTable};
use crate::workspace::WorkspaceTemplate;

verus! {

#[derive(Debug, Clone)]
pub enum PersistentValue {
    String(String),
    Theme(Theme),
    Layout(Layout),
    WorkspaceTemplate(WorkspaceTemplate),
    ImageFormat(ImageFormat),
}

impl PersistentValue {
    /// Checks the string value if the type of `PersistentValue` is a string.
    pub fn check_string(&self) -> (r: Option<&str>)
        ensures
            match self {
                PersistentValue::String(s) => r matches Some(x) && x@ == s@,
                _ => r is None,
            },
    {
        match self {
            PersistentValue::String(s) => Some(s.as_str()),
            _ => None,
        }
    }

    /// Consumes the value and turns it into a string. If the value was not a string, it will return an empty string.
    pub fn to_string(self) -> (r: String)
        ensures
            match self {
                PersistentValue::String(s) => r@ == s@,
                _ => r@ == Seq::<char>::empty(),
            },
    {
        match self {
            Self::String(x) => x,
            _ => String::new(),
        }
    }

    /// Consumes the value and returns the theme within it. If the type wasn't theme, a default theme is returned instead.
    pub fn to_theme(self) -> (r: Theme)
        ensures
            match self {
                PersistentValue::Theme(t) => r == t,
                _ => r == Theme::Light,
            },
    {
        match self {
            Self::Theme(x) => x,
            _ => Theme::default(),
        }
    }

    /// Consumes the value and returns the layout within it. If the type wasn't layout, a default layout is returned instead.
    pub fn to_layout(self) -> (r: Layout)
        ensures
            match self {
                PersistentValue::Layout(l) => r == l,
                _ => r == Layout::Parallel,
            },
    {
        match self {
            Self::Layout(x) => x,
            _ => Layout::default(),
        }
    }

    /// A copy of the value.
    pub fn duplicate(&self) -> (r: Self)
        ensures
            r == *self,
    {
        match self {
            PersistentValue::String(s) => PersistentValue::String(s.clone()),
            PersistentValue::Theme(t) => PersistentValue::Theme(*t),
            PersistentValue::Layout(l) => PersistentValue::Layout(*l),
            PersistentValue::WorkspaceTemplate(w) => PersistentValue::WorkspaceTemplate(*w),
            PersistentValue::ImageFormat(f) => PersistentValue::ImageFormat(*f),
        }
    }
}

/// Anything that names a group or an entry of the persistent storage.
pub trait PersistentKey {
    /// The name this key stands for.
    spec fn key_id(&self) -> Seq<char>;

    fn get_id(&self) -> (r: &str)
        ensures
            r@ == self.key_id(),
    ;
}

/// The names of the two keys joined by a dash.
pub fn with_id<A: PersistentKey, B: PersistentKey>(first: &A, other: &B) -> (r: String)
    ensures
        r@ == first.key_id() + "-"@ + other.key_id(),
{
    let mut s = String::from_str(first.get_id());
    s.append("-");
    s.append(other.get_id());
    s
}

impl PersistentKey for String {
    open spec fn key_id(&self) -> Seq<char> {
        self@
    }

    fn get_id(&self) -> (r: &str) {
        self.as_str()
    }
}

impl PersistentKey for &str {
    open spec fn key_id(&self) -> Seq<char> {
        (*self)@
    }

    fn get_id(&self) -> (r: &str) {
        *self
    }
}

/// The whole of the stored data: for each id, the values under their keys.
pub open spec fn database_lookup<V>(
    db: Map<Seq<char>, Map<Seq<char>, V>>,
    id: Seq<char>,
    key: Seq<char>,
) -> Option<V> {
    if db.contains_key(id) && db[id].contains_key(key) {
        Some(db[id][key])
    } else {
        None
    }
}

/// The stored data after `value` is stored under `id` and `key`: the group for
/// `id` is created if it was missing, and only that entry changes.
pub open spec fn database_store<V>(
    db: Map<Seq<char>, Map<Seq<char>, V>>,
    id: Seq<char>,
    key: Seq<char>,
    value: V,
) -> Map<Seq<char>, Map<Seq<char>, V>> {
    db.insert(
        id,
        if db.contains_key(id) {
            db[id].insert(key, value)
        } else {
            Map::empty().insert(key, value)
        },
    )
}

/// Reading a stored value back: after `value` is stored under `id` and
/// `key`, a lookup of that id and key gives `value`, and a lookup of any
/// other pair gives what it gave before.
pub proof fn lemma_read_after_store<V>(
    db: Map<Seq<char>, Map<Seq<char>, V>>,
    id: Seq<char>,
    key: Seq<char>,
    value: V,
    other_id: Seq<char>,
    other_key: Seq<char>,
)
    ensures
        database_lookup(database_store(db, id, key, value), id, key) == Some(value),
        (other_id != id || other_key != key) ==> database_lookup(
            database_store(db, id, key, value),
            other_id,
            other_key,
        ) == database_lookup(db, other_id, other_key),
{
}

/// Persistent storage for any data meant to be stored between program runs
pub struct Persistence {
    db: KeyedTable<KeyedTable<PersistentValue>>,
}

impl Persistence {
    /// Well-formedness: each table keeps its keys distinct.
    pub closed spec fn wf(&self) -> bool {
        &&& self.db.wf()
        &&& forall|id: Seq<char>| #[trigger] self.db@.contains_key(id) ==> self.db@[id].wf()
    }

    /// The stored values, by id and key.
    pub closed spec fn view(&self) -> Map<Seq<char>, Map<Seq<char>, PersistentValue>> {
        Map::new(|id: Seq<char>| self.db@.contains_key(id), |id: Seq<char>| self.db@[id]@)
    }

    /// The value stored under `id` and `key`, if any.
    pub open spec fn lookup(&self, id: Seq<char>, key: Seq<char>) -> Option<PersistentValue> {
        database_lookup(self.view(), id, key)
    }

    /// Empty storage.
    pub fn new() -> (p: Self)
        ensures
            p.wf(),
            p.view() == Map::<Seq<char>, Map<Seq<char>, PersistentValue>>::empty(),
    {
        let p = Persistence { db: KeyedTable::new() };
        assert(p.view() =~= Map::<Seq<char>, Map<Seq<char>, PersistentValue>>::empty());
        p
    }

    /// The groups of stored values, by id.
    pub fn entries(&self) -> (r: &Vec<(String, KeyedTable<PersistentValue>)>)
        requires
            self.wf(),
        ensures
            distinct_keys(r@),
            forall|i: int|
                0 <= i < r@.len() ==> self.view().contains_key((#[trigger] r@[i]).0@)
                    && self.view()[r@[i].0@] == r@[i].1@,
            forall|id: Seq<char>| #[trigger] self.view().contains_key(id) ==> has_key(r@, id),
    {
        let r = self.db.entries();
        proof {
            self.db.lemma_view_is_entries();
            self.db.lemma_wf_distinct();
            assert forall|i: int| 0 <= i < r@.len() implies self.view().contains_key((#[trigger] r@[i]).0@)
                && self.view()[r@[i].0@] == r@[i].1@ by {
                let k = r@[i].0@;
                assert(has_key(r@, k));
                let p = position_of(r@, k);
                assert(r@[p].0@ == k);
            }
        }
        r
    }

    /// Returns a borrowed value if present
    pub fn get<I: PersistentKey, K: PersistentKey>(&self, id: I, key: K) -> (r: Option<&PersistentValue>)
        requires
            self.wf(),
        ensures
            match r {
                Some(v) => self.lookup(id.key_id(), key.key_id()) == Some(*v),
                None => self.lookup(id.key_id(), key.key_id()) is None,
            },
    {
        match self.db.get(id.get_id()) {
            Some(m) => m.get(key.get_id()),
            None => None,
        }
    }

    /// Returns a cloned value if it's present
    pub fn get_copy<I: PersistentKey, K: PersistentKey>(&self, id: I, key: K) -> (r: Option<PersistentValue>)
        requires
            self.wf(),
        ensures
            r == self.lookup(id.key_id(), key.key_id()),
    {
        match self.get(id, key) {
            Some(v) => Some(v.duplicate()),
            None => None,
        }
    }

    /// Stores the value, creating the group for this id if it wasn't present
    pub fn set<I: PersistentKey, K: PersistentKey>(&mut self, id: I, key: K, value: PersistentValue)
        requires
            old(self).wf(),
        ensures
            final(self).wf(),
            final(self).view() == database_store(old(self).view(), id.key_id(), key.key_id(), value),
    {
        let ghost idk = id.key_id();
        let mut group = match self.db.remove(id.get_id()) {
            Some(m) => m,
            None => KeyedTable::new(),
        };
        group.insert(String::from_str(key.get_id()), value);
        self.db.insert(String::from_str(id.get_id()), group);
        assert(self.view() =~= database_store(old(self).view(), idk, key.key_id(), value));
    }

}

} // verus!
