//! The file browser: its state, and the decisions it takes on each user
//! operation. Reading directories and writing the favorites list are left to
//! the caller, which the browser asks for them through the steps it returns.
use vstd::prelude::*;
use vstd::string::{StrSliceExecFns, StringExecFns};

use crate::data::{sanitize_file_name_allow_path, sanitize_file_name_ends, sanitized_path_name, trimmed_name};
use crate::paths::{join_path, parent_of, path_equal, path_join, path_parent, same_path};
use crate::text::string_push;

verus! {

/// What the browser is meant to pick.
#[derive(Debug, Clone, Copy, PartialEq, Eq, Structural)]
pub enum Target {
    /// A file
    File,
    /// A file the caller's filter accepts; the browser lists only such files
    Filtered,
    /// A directory
    Directory,
}

#[derive(Debug, Clone)]
pub enum BrowserOperation {
    MoveUp,
    MoveInto(String),
    Select(Option<String>),
    ToggleAddDirectory,
    CreateDirectory,
    UpdateDirectoryName(String),
    Favorite,
    Cancel,
    Accept,
}

#[derive(Debug, Clone)]
pub enum BrowsingResult {
    Pending,
    Canceled,
    Done(String),
}

/// What the browser does once its listing has been read again.
#[derive(Debug, Clone, Copy, PartialEq, Eq, Structural)]
pub enum AfterRefresh {
    /// Forget the selected entry
    ClearSelection,
    /// Close the directory-name input
    CloseDirectoryInput,
}

/// What the caller is to do after an operation.
#[derive(Debug, Clone)]
pub enum BrowserStep {
    /// The operation is complete, with this result.
    Finished(BrowsingResult),
    /// Read the current directory again and hand the entries to
    /// `finish_refresh`; the result is then `Pending`.
    Refresh(AfterRefresh),
    /// Write the favorites list; the result is then `Pending`.
    SaveFavorites,
    /// Create this directory (with its missing parents); on success read the
    /// listing again and finish with `CloseDirectoryInput`; the result is
    /// `Pending` either way.
    CreateDirectory(String),
}

/// An entry of a directory, as the caller found it.
#[derive(Debug, Clone)]
pub struct DirEntry {
    pub path: String,
    pub is_file: bool,
    /// Whether the caller's filter accepts the entry
    pub passes_filter: bool,
}

/// Whether the listing keeps an entry, given the target.
pub open spec fn listed(target: Target, e: DirEntry) -> bool {
    !((target == Target::Filtered && e.is_file && !e.passes_filter) || (target == Target::Directory
        && e.is_file))
}

/// The paths of the entries the listing keeps, in order.
pub open spec fn listing_of(target: Target, entries: Seq<DirEntry>) -> Seq<Seq<char>>
    decreases entries.len(),
{
    if entries.len() == 0 {
        Seq::empty()
    } else {
        let prev = listing_of(target, entries.drop_last());
        if listed(target, entries.last()) {
            prev.push(entries.last().path@)
        } else {
            prev
        }
    }
}

pub open spec fn strings_view(v: Seq<String>) -> Seq<Seq<char>> {
    v.map_values(|s: String| s@)
}

pub open spec fn opt_string_view(o: Option<String>) -> Option<Seq<char>> {
    match o {
        Some(s) => Some(s@),
        None => None,
    }
}

/// The result an accepting operation gives.
pub open spec fn accept_result(
    selected: Option<Seq<char>>,
    target: Target,
    path: Seq<char>,
    selected_is_file: bool,
) -> Option<Seq<char>> {
    match (selected, target) {
        (Some(p), Target::File) => if selected_is_file { Some(p) } else { None },
        (Some(p), Target::Filtered) => Some(p),
        (_, Target::Directory) => Some(path),
        _ => None,
    }
}

/// The position of the first favorite that names `path`, if any.
pub open spec fn first_favorite(favorites: Seq<Seq<char>>, path: Seq<char>) -> Option<int> {
    if exists|k: int| 0 <= k < favorites.len() && path_equal(path, #[trigger] favorites[k]) {
        Some(choose|k: int| 0 <= k < favorites.len() && path_equal(path, #[trigger] favorites[k])
            && forall|j: int| 0 <= j < k ==> !path_equal(path, #[trigger] favorites[j]))
    } else {
        None
    }
}

/// The favorites after the current path is toggled: the first entry naming
/// it is removed, or the path is added at the end.
pub open spec fn toggled_favorites(favorites: Seq<Seq<char>>, path: Seq<char>) -> Seq<Seq<char>> {
    match first_favorite(favorites, path) {
        Some(k) => favorites.remove(k),
        None => favorites.push(path),
    }
}

/// What an operation does to the browser (`before` becomes `after`) and the
/// step it asks of the caller; `selected_is_file` tells whether the selected
/// entry is a file.
pub open spec fn updated(
    before: Browser,
    after: Browser,
    message: BrowserOperation,
    selected_is_file: bool,
    step: BrowserStep,
) -> bool {
    &&& after.spec_target() == before.spec_target()
    &&& after.spec_dir() == before.spec_dir()
    &&& after.spec_roots() == before.spec_roots()
    &&& match message {
                BrowserOperation::MoveUp => {
                    &&& after.spec_path() == path_parent(before.spec_path())->0
                    &&& step == BrowserStep::Refresh(AfterRefresh::ClearSelection)
                    &&& after.spec_selected() == before.spec_selected()
                    &&& after.spec_favorites() == before.spec_favorites()
                    &&& after.spec_new_dir_name() == before.spec_new_dir_name()
                },
                BrowserOperation::MoveInto(p) => {
                    &&& after.spec_path() == p@
                    &&& step == BrowserStep::Refresh(AfterRefresh::ClearSelection)
                    &&& after.spec_selected() == before.spec_selected()
                    &&& after.spec_favorites() == before.spec_favorites()
                    &&& after.spec_new_dir_name() == before.spec_new_dir_name()
                },
                BrowserOperation::Select(p) => {
                    &&& after.spec_selected() == opt_string_view(p)
                    &&& step matches BrowserStep::Finished(BrowsingResult::Pending)
                    &&& after.spec_path() == before.spec_path()
                    &&& after.spec_favorites() == before.spec_favorites()
                    &&& after.spec_new_dir_name() == before.spec_new_dir_name()
                },
                BrowserOperation::Cancel => {
                    &&& after.spec_selected() is None
                    &&& step matches BrowserStep::Finished(BrowsingResult::Canceled)
                    &&& after.spec_path() == before.spec_path()
                    &&& after.spec_favorites() == before.spec_favorites()
                    &&& after.spec_new_dir_name() == before.spec_new_dir_name()
                },
                BrowserOperation::Accept => {
                    &&& match accept_result(
                        before.spec_selected(),
                        before.spec_target(),
                        before.spec_path(),
                        selected_is_file,
                    ) {
                        Some(p) => step matches BrowserStep::Finished(BrowsingResult::Done(q)) && q@ == p,
                        None => step matches BrowserStep::Finished(BrowsingResult::Pending),
                    }
                    &&& after.spec_path() == before.spec_path()
                    &&& after.spec_selected() == before.spec_selected()
                    &&& after.spec_favorites() == before.spec_favorites()
                    &&& after.spec_new_dir_name() == before.spec_new_dir_name()
                },
                BrowserOperation::Favorite => {
                    &&& after.spec_favorites() == toggled_favorites(
                        before.spec_favorites(),
                        before.spec_path(),
                    )
                    &&& step is SaveFavorites
                    &&& after.spec_path() == before.spec_path()
                    &&& after.spec_selected() == before.spec_selected()
                    &&& after.spec_new_dir_name() == before.spec_new_dir_name()
                },
                BrowserOperation::ToggleAddDirectory => {
                    &&& after.spec_new_dir_name() == (if before.spec_new_dir_name() is None {
                        Some(Seq::<char>::empty())
                    } else {
                        None
                    })
                    &&& step matches BrowserStep::Finished(BrowsingResult::Pending)
                    &&& after.spec_path() == before.spec_path()
                    &&& after.spec_selected() == before.spec_selected()
                    &&& after.spec_favorites() == before.spec_favorites()
                },
                BrowserOperation::CreateDirectory => {
                    &&& step matches BrowserStep::CreateDirectory(d) && d@ == path_join(
                        before.spec_path(),
                        trimmed_name(before.spec_new_dir_name()->0),
                    )
                    &&& after.spec_path() == before.spec_path()
                    &&& after.spec_selected() == before.spec_selected()
                    &&& after.spec_favorites() == before.spec_favorites()
                    &&& after.spec_new_dir_name() == before.spec_new_dir_name()
                },
                BrowserOperation::UpdateDirectoryName(name) => {
                    &&& exists|sep: char|
                        (sep == '/' || sep == '\\') && after.spec_new_dir_name() == Some(
                            sanitized_path_name(name@, sep),
                        )
                    &&& step matches BrowserStep::Finished(BrowsingResult::Pending)
                    &&& after.spec_path() == before.spec_path()
                    &&& after.spec_selected() == before.spec_selected()
                    &&& after.spec_favorites() == before.spec_favorites()
                },
            }
}


/// Reading the favorites file up to some point: the favorites finished so
/// far and the one being read. A line break ends a favorite; empty ones are
/// skipped.
pub open spec fn favorites_walk(text: Seq<char>) -> (Seq<Seq<char>>, Seq<char>)
    decreases text.len(),
{
    if text.len() == 0 {
        (Seq::empty(), Seq::empty())
    } else {
        let (done, cur) = favorites_walk(text.drop_last());
        if text.last() == '\n' {
            (if cur.len() > 0 { done.push(cur) } else { done }, Seq::empty())
        } else {
            (done, cur.push(text.last()))
        }
    }
}

/// The favorites a favorites file holds: its lines that are not empty.
pub open spec fn favorites_in(text: Seq<char>) -> Seq<Seq<char>> {
    let (done, cur) = favorites_walk(text);
    if cur.len() > 0 {
        done.push(cur)
    } else {
        done
    }
}

/// The favorites file that holds `favorites`: each on a line of its own.
pub open spec fn favorites_text(favorites: Seq<Seq<char>>) -> Seq<char>
    decreases favorites.len(),
{
    if favorites.len() == 0 {
        Seq::empty()
    } else {
        favorites_text(favorites.drop_last()) + favorites.last() + seq!['\n']
    }
}

/// Reads the favorites out of the text of the favorites file.
pub fn favorites_from_text(text: &str) -> (r: Vec<String>)
    ensures
        strings_view(r@) == favorites_in(text@),
{
    let mut done: Vec<String> = Vec::new();
    let mut cur = String::new();
    for c in it: text.chars()
        invariant
            it.seq() == text@,
            (strings_view(done@), cur@) == favorites_walk(text@.take(it.index() as int)),
    {
        let ghost i = it.index() as int;
        assert(text@.take(i + 1).drop_last() =~= text@.take(i));
        assert(text@.take(i + 1).last() == c);
        if c == '\n' {
            if cur.as_str().unicode_len() > 0 {
                let ghost before = done@;
                done.push(cur);
                assert(strings_view(done@) =~= strings_view(before).push(cur@));
            }
            cur = String::new();
        } else {
            string_push(&mut cur, c);
        }
    }
    assert(text@.take(text@.len() as int) =~= text@);
    if cur.as_str().unicode_len() > 0 {
        let ghost before = done@;
        done.push(cur);
        assert(strings_view(done@) =~= strings_view(before).push(cur@));
    }
    done
}

/// The text of the favorites file that holds `favorites`.
pub fn favorites_to_text(favorites: &Vec<String>) -> (r: String)
    ensures
        r@ == favorites_text(strings_view(favorites@)),
{
    let ghost v = strings_view(favorites@);
    let mut out = String::new();
    let mut i: usize = 0;
    while i < favorites.len()
        invariant
            v == strings_view(favorites@),
            i <= favorites@.len(),
            out@ == favorites_text(v.take(i as int)),
        decreases favorites@.len() - i,
    {
        assert(v.take(i + 1).drop_last() =~= v.take(i as int));
        out.append(favorites[i].as_str());
        string_push(&mut out, '\n');
        assert(out@ =~= favorites_text(v.take(i as int)) + v.take(i + 1).last() + seq!['\n']);
        i = i + 1;
    }
    assert(v.take(favorites@.len() as int) =~= v);
    out
}

/// A favorite that the favorites file can hold: not empty, and without a
/// line break.
pub open spec fn storable_favorite(f: Seq<char>) -> bool {
    f.len() > 0 && !f.contains('\n')
}

/// Reading the text of `t` followed by a text without a line break
/// continues the favorite being read.
proof fn lemma_walk_plain(t: Seq<char>, f: Seq<char>)
    requires
        !f.contains('\n'),
    ensures
        favorites_walk(t + f) == (favorites_walk(t).0, favorites_walk(t).1 + f),
    decreases f.len(),
{
    if f.len() == 0 {
        assert(t + f =~= t);
        assert(favorites_walk(t).1 + f =~= favorites_walk(t).1);
    } else {
        let g = f.drop_last();
        assert(!g.contains('\n')) by {
            if g.contains('\n') {
                let k = choose|k: int| 0 <= k < g.len() && g[k] == '\n';
                assert(f[k] == '\n');
            }
        }
        lemma_walk_plain(t, g);
        assert((t + f).drop_last() =~= t + g);
        assert((t + f).last() == f.last());
        assert(f.last() != '\n') by {
            if f.last() == '\n' {
                assert(f[f.len() - 1] == '\n');
            }
        }
        assert(favorites_walk(t).1 + g.push(f.last()) =~= favorites_walk(t).1 + f);
        assert((favorites_walk(t).1 + g).push(f.last()) =~= favorites_walk(t).1 + f);
    }
}

/// What is written to the favorites file is read back: favorites that are
/// not empty and hold no line break come back in order.
pub proof fn lemma_favorites_round_trip(favorites: Seq<Seq<char>>)
    requires
        forall|i: int| 0 <= i < favorites.len() ==> storable_favorite(#[trigger] favorites[i]),
    ensures
        favorites_in(favorites_text(favorites)) == favorites,
{
    lemma_walk_text(favorites);
}

proof fn lemma_walk_text(favorites: Seq<Seq<char>>)
    requires
        forall|i: int| 0 <= i < favorites.len() ==> storable_favorite(#[trigger] favorites[i]),
    ensures
        favorites_walk(favorites_text(favorites)) == (favorites, Seq::<char>::empty()),
    decreases favorites.len(),
{
    if favorites.len() == 0 {
        assert(favorites =~= Seq::<Seq<char>>::empty());
    } else {
        let prev = favorites.drop_last();
        let f = favorites.last();
        assert(storable_favorite(favorites[favorites.len() - 1]));
        assert forall|i: int| 0 <= i < prev.len() implies storable_favorite(#[trigger] prev[i]) by {
            assert(prev[i] == favorites[i]);
        }
        lemma_walk_text(prev);
        let t = favorites_text(prev);
        lemma_walk_plain(t, f);
        let whole = favorites_text(favorites);
        assert(whole == t + f + seq!['\n']);
        assert(whole.drop_last() =~= t + f);
        assert(whole.last() == '\n');
        assert(Seq::<char>::empty() + f =~= f);
        assert(prev.push(f) =~= favorites);
    }
}

/// Whether the browser can take the operation; the others cannot happen
/// through the user interface.
pub open spec fn can_update(b: Browser, message: BrowserOperation, target_is_dir: bool) -> bool {
    &&& message is MoveUp ==> path_parent(b.spec_path()) is Some
    &&& message is MoveInto ==> target_is_dir
    &&& message is CreateDirectory ==> b.spec_new_dir_name() is Some
}

pub struct Browser {
    path: String,
    selected: Option<String>,
    dir: Vec<String>,
    target: Target,
    roots: Vec<String>,
    favorites: Vec<String>,
    new_dir_name: Option<String>,
}

impl Browser {
    pub closed spec fn spec_path(&self) -> Seq<char> {
        self.path@
    }

    pub closed spec fn spec_selected(&self) -> Option<Seq<char>> {
        opt_string_view(self.selected)
    }

    pub closed spec fn spec_dir(&self) -> Seq<Seq<char>> {
        strings_view(self.dir@)
    }

    pub closed spec fn spec_target(&self) -> Target {
        self.target
    }

    pub closed spec fn spec_roots(&self) -> Seq<Seq<char>> {
        strings_view(self.roots@)
    }

    pub closed spec fn spec_favorites(&self) -> Seq<Seq<char>> {
        strings_view(self.favorites@)
    }

    pub closed spec fn spec_new_dir_name(&self) -> Option<Seq<char>> {
        opt_string_view(self.new_dir_name)
    }

    /// Creates a browser and sets its current directory to supplied path,
    /// with the given quick-access roots and favorite directories.
    pub fn new(path: String, roots: Vec<String>, favorites: Vec<String>) -> (r: Self)
        ensures
            r.spec_path() == path@,
            r.spec_selected() is None,
            r.spec_dir().len() == 0,
            r.spec_target() == Target::File,
            r.spec_roots() == strings_view(roots@),
            r.spec_favorites() == strings_view(favorites@),
            r.spec_new_dir_name() is None,
    {
        let r = Self {
            path,
            selected: None,
            dir: Vec::new(),
            target: Target::File,
            roots,
            favorites,
            new_dir_name: None,
        };
        assert(r.spec_dir() =~= Seq::<Seq<char>>::empty());
        r
    }

    /// Sets current path for the browser
    pub fn set_path(&mut self, path: String)
        ensures
            final(self).spec_path() == path@,
            final(self).spec_selected() == old(self).spec_selected(),
            final(self).spec_dir() == old(self).spec_dir(),
            final(self).spec_target() == old(self).spec_target(),
            final(self).spec_favorites() == old(self).spec_favorites(),
            final(self).spec_new_dir_name() == old(self).spec_new_dir_name(),
    {
        self.path = path;
    }

    /// Peeks current path of the browser
    pub fn get_path(&self) -> (r: &str)
        ensures
            r@ == self.spec_path(),
    {
        self.path.as_str()
    }

    /// Sets target to files that the caller's filter accepts
    pub fn set_filter(&mut self)
        ensures
            final(self).spec_target() == Target::Filtered,
            final(self).spec_path() == old(self).spec_path(),
            final(self).spec_selected() == old(self).spec_selected(),
            final(self).spec_dir() == old(self).spec_dir(),
            final(self).spec_favorites() == old(self).spec_favorites(),
            final(self).spec_new_dir_name() == old(self).spec_new_dir_name(),
    {
        self.target = Target::Filtered;
    }

    /// Sets target to filter out specific results in the browser
    pub fn set_target(&mut self, target: Target)
        ensures
            final(self).spec_target() == target,
            final(self).spec_path() == old(self).spec_path(),
            final(self).spec_selected() == old(self).spec_selected(),
            final(self).spec_dir() == old(self).spec_dir(),
            final(self).spec_favorites() == old(self).spec_favorites(),
            final(self).spec_new_dir_name() == old(self).spec_new_dir_name(),
    {
        self.target = target;
    }

    /// The target of the browser
    pub fn target(&self) -> (r: Target)
        ensures
            r == self.spec_target(),
    {
        self.target
    }

    /// The selected entry
    pub fn selected(&self) -> (r: Option<&str>)
        ensures
            match r {
                Some(s) => self.spec_selected() == Some(s@),
                None => self.spec_selected() is None,
            },
    {
        match &self.selected {
            Some(s) => Some(s.as_str()),
            None => None,
        }
    }

    /// The entries of the current directory that the browser lists
    pub fn listing(&self) -> (r: &Vec<String>)
        ensures
            strings_view(r@) == self.spec_dir(),
    {
        &self.dir
    }

    /// Whether the current folder is among the favorites.
    pub fn is_favorite(&self) -> (r: bool)
        ensures
            r == (first_favorite(self.spec_favorites(), self.spec_path()) is Some),
    {
        let ghost favs = self.spec_favorites();
        let ghost path = self.spec_path();
        let n = self.favorites.len();
        let mut i: usize = 0;
        while i < n
            invariant
                n == self.favorites@.len(),
                favs == strings_view(self.favorites@),
                path == self.path@,
                i <= n,
                forall|j: int| 0 <= j < i ==> !path_equal(path, #[trigger] favs[j]),
            decreases n - i,
        {
            if same_path(self.path.as_str(), self.favorites[i].as_str()) {
                assert(path_equal(path, favs[i as int]));
                return true;
            }
            i = i + 1;
        }
        false
    }

    /// Whether accepting now finishes with a path, given whether the
    /// selected entry is a file.
    pub fn accepts(&self, selected_is_file: bool) -> (r: bool)
        ensures
            r == accept_result(self.spec_selected(), self.spec_target(), self.spec_path(), selected_is_file) is Some,
    {
        match (&self.selected, self.target) {
            (Some(_), Target::File) => selected_is_file,
            (Some(_), Target::Filtered) => true,
            (_, Target::Directory) => true,
            _ => false,
        }
    }

    /// Whether the browser offers its Accept button: for a selected file, for
    /// a selected entry the caller's filter accepts, or always when a folder
    /// is being chosen.
    pub fn accept_offered(&self, selected_is_file: bool, selected_passes_filter: bool) -> (r: bool)
        ensures
            r == match (self.spec_selected(), self.spec_target()) {
                (Some(_), Target::File) => selected_is_file,
                (Some(_), Target::Filtered) => selected_passes_filter,
                (_, Target::Directory) => true,
                _ => false,
            },
    {
        match (&self.selected, self.target) {
            (Some(_), Target::File) => selected_is_file,
            (Some(_), Target::Filtered) => selected_passes_filter,
            (_, Target::Directory) => true,
            _ => false,
        }
    }

    /// The quick-access directories
    pub fn roots(&self) -> (r: &Vec<String>)
        ensures
            strings_view(r@) == self.spec_roots(),
    {
        &self.roots
    }

    /// The favorite directories
    pub fn favorites(&self) -> (r: &Vec<String>)
        ensures
            strings_view(r@) == self.spec_favorites(),
    {
        &self.favorites
    }

    /// The name typed for a new directory, when its input is open
    pub fn new_dir_name(&self) -> (r: Option<&str>)
        ensures
            match r {
                Some(s) => self.spec_new_dir_name() == Some(s@),
                None => self.spec_new_dir_name() is None,
            },
    {
        match &self.new_dir_name {
            Some(s) => Some(s.as_str()),
            None => None,
        }
    }

    /// Forgets the listing, as when the current directory cannot be read.
    pub fn clear_listing(&mut self)
        ensures
            final(self).spec_dir().len() == 0,
            final(self).spec_path() == old(self).spec_path(),
            final(self).spec_selected() == old(self).spec_selected(),
            final(self).spec_target() == old(self).spec_target(),
            final(self).spec_favorites() == old(self).spec_favorites(),
            final(self).spec_new_dir_name() == old(self).spec_new_dir_name(),
    {
        self.dir = Vec::new();
        assert(self.spec_dir() =~= Seq::<Seq<char>>::empty());
    }

    /// Replaces the listing with the entries of the current directory that
    /// the target allows: a filtered browser skips the files its filter
    /// turns away, a directory browser skips all files.
    pub fn set_listing(&mut self, entries: Vec<DirEntry>)
        ensures
            final(self).spec_dir() == listing_of(old(self).spec_target(), entries@),
            final(self).spec_path() == old(self).spec_path(),
            final(self).spec_selected() == old(self).spec_selected(),
            final(self).spec_target() == old(self).spec_target(),
            final(self).spec_favorites() == old(self).spec_favorites(),
            final(self).spec_new_dir_name() == old(self).spec_new_dir_name(),
    {
        let mut dir: Vec<String> = Vec::new();
        let target = self.target;
        let mut i: usize = 0;
        while i < entries.len()
            invariant
                i <= entries@.len(),
                strings_view(dir@) == listing_of(target, entries@.take(i as int)),
            decreases entries@.len() - i,
        {
            let e = &entries[i];
            assert(entries@.take(i + 1).drop_last() == entries@.take(i as int));
            let skip = (target == Target::Filtered && e.is_file && !e.passes_filter) || (target
                == Target::Directory && e.is_file);
            if !skip {
                dir.push(e.path.clone());
                assert(strings_view(dir@) =~= strings_view(dir@.drop_last()).push(e.path@));
            }
            i = i + 1;
        }
        assert(entries@.take(entries@.len() as int) == entries@);
        self.dir = dir;
    }

    /// Finishes a refresh that the browser asked for: the listing is
    /// replaced, and the selection is forgotten or the directory-name input
    /// closed, as the step said.
    pub fn finish_refresh(&mut self, entries: Vec<DirEntry>, after: AfterRefresh)
        ensures
            final(self).spec_dir() == listing_of(old(self).spec_target(), entries@),
            final(self).spec_path() == old(self).spec_path(),
            final(self).spec_target() == old(self).spec_target(),
            final(self).spec_favorites() == old(self).spec_favorites(),
            after == AfterRefresh::ClearSelection ==> final(self).spec_selected() is None
                && final(self).spec_new_dir_name() == old(self).spec_new_dir_name(),
            after == AfterRefresh::CloseDirectoryInput ==> final(self).spec_new_dir_name() is None
                && final(self).spec_selected() == old(self).spec_selected(),
    {
        self.set_listing(entries);
        match after {
            AfterRefresh::ClearSelection => {
                self.selected = None;
            },
            AfterRefresh::CloseDirectoryInput => {
                self.new_dir_name = None;
            },
        }
    }

    /// Takes the decision for an operation of the user.
    ///
    /// `target_is_dir` tells whether the path of a `MoveInto` is a directory
    /// and `selected_is_file` whether the selected entry is a file; the
    /// caller finds these out before the call.
    pub fn update(&mut self, message: BrowserOperation, target_is_dir: bool, selected_is_file: bool) -> (step: BrowserStep)
        requires
            can_update(*old(self), message, target_is_dir),
        ensures
            updated(*old(self), *final(self), message, selected_is_file, step),
    {
        match message {
            BrowserOperation::MoveUp => {
                let parent = parent_of(self.path.as_str());
                match parent {
                    Some(p) => {
                        self.path = p;
                    },
                    None => {},
                }
                BrowserStep::Refresh(AfterRefresh::ClearSelection)
            },
            BrowserOperation::MoveInto(path) => {
                self.path = path;
                BrowserStep::Refresh(AfterRefresh::ClearSelection)
            },
            BrowserOperation::Select(path) => {
                self.selected = path;
                BrowserStep::Finished(BrowsingResult::Pending)
            },
            BrowserOperation::Cancel => {
                self.selected = None;
                BrowserStep::Finished(BrowsingResult::Canceled)
            },
            BrowserOperation::Accept => {
                let result = match (&self.selected, self.target) {
                    (Some(p), Target::File) => {
                        if selected_is_file {
                            BrowsingResult::Done(p.clone())
                        } else {
                            BrowsingResult::Pending
                        }
                    },
                    (Some(p), Target::Filtered) => BrowsingResult::Done(p.clone()),
                    (_, Target::Directory) => BrowsingResult::Done(self.path.clone()),
                    _ => BrowsingResult::Pending,
                };
                BrowserStep::Finished(result)
            },
            BrowserOperation::Favorite => {
                self.toggle_favorite();
                BrowserStep::SaveFavorites
            },
            BrowserOperation::ToggleAddDirectory => {
                if self.new_dir_name.is_none() {
                    self.new_dir_name = Some(String::new());
                } else {
                    self.new_dir_name = None;
                }
                BrowserStep::Finished(BrowsingResult::Pending)
            },
            BrowserOperation::CreateDirectory => {
                let name = match &self.new_dir_name {
                    Some(n) => sanitize_file_name_ends(n),
                    None => String::new(),
                };
                let p = join_path(self.path.as_str(), name.as_str());
                BrowserStep::CreateDirectory(p)
            },
            BrowserOperation::UpdateDirectoryName(name) => {
                self.new_dir_name = Some(sanitize_file_name_allow_path(name));
                BrowserStep::Finished(BrowsingResult::Pending)
            },
        }
    }

    /// Takes the decision for an operation of the user, when the browser can
    /// take it; `None`, with the browser unchanged, when it cannot: moving up
    /// from a path without a parent, moving into something that is not a
    /// directory, or creating a directory while no name is being typed.
    pub fn try_update(&mut self, message: BrowserOperation, target_is_dir: bool, selected_is_file: bool) -> (r: Option<BrowserStep>)
        ensures
            match r {
                Some(step) => can_update(*old(self), message, target_is_dir) && updated(
                    *old(self),
                    *final(self),
                    message,
                    selected_is_file,
                    step,
                ),
                None => !can_update(*old(self), message, target_is_dir) && *final(self) == *old(self),
            },
    {
        let possible = match &message {
            BrowserOperation::MoveUp => parent_of(self.path.as_str()).is_some(),
            BrowserOperation::MoveInto(_) => target_is_dir,
            BrowserOperation::CreateDirectory => self.new_dir_name.is_some(),
            _ => true,
        };
        if possible {
            Some(self.update(message, target_is_dir, selected_is_file))
        } else {
            None
        }
    }

    /// Removes the first favorite naming the current path, or adds the path.
    fn toggle_favorite(&mut self)
        ensures
            final(self).spec_favorites() == toggled_favorites(old(self).spec_favorites(), old(self).spec_path()),
            final(self).spec_path() == old(self).spec_path(),
            final(self).spec_selected() == old(self).spec_selected(),
            final(self).spec_dir() == old(self).spec_dir(),
            final(self).spec_roots() == old(self).spec_roots(),
            final(self).spec_target() == old(self).spec_target(),
            final(self).spec_new_dir_name() == old(self).spec_new_dir_name(),
    {
        let ghost favs = self.spec_favorites();
        let ghost path = self.spec_path();
        let mut i: usize = 0;
        let n = self.favorites.len();
        while i < n
            invariant
                *self == *old(self),
                n == self.favorites@.len(),
                favs == strings_view(self.favorites@),
                path == self.path@,
                i <= n,
                forall|j: int| 0 <= j < i ==> !path_equal(path, #[trigger] favs[j]),
            decreases n - i,
        {
            if same_path(self.path.as_str(), self.favorites[i].as_str()) {
                proof {
                    assert(path_equal(path, favs[i as int]));
                    assert(forall|j: int| 0 <= j < i ==> !path_equal(path, #[trigger] favs[j]));
                    let k = choose|k: int| 0 <= k < favs.len() && path_equal(path, #[trigger] favs[k])
                        && forall|j: int| 0 <= j < k ==> !path_equal(path, #[trigger] favs[j]);
                    if k < i {
                        assert(!path_equal(path, favs[k]));
                    } else if k > i {
                        assert(!path_equal(path, favs[i as int]));
                    }
                    assert(first_favorite(favs, path) == Some(i as int));
                }
                self.favorites.remove(i);
                assert(self.spec_favorites() =~= favs.remove(i as int));
                return;
            }
            i = i + 1;
        }
        let p = self.path.clone();
        self.favorites.push(p);
        assert(self.spec_favorites() =~= favs.push(path));
    }
}

} // verus!