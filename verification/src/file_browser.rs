//! The simple file browser: a current directory, the entries listed in it,
//! a selection and an optional extension filter. Reading the directory is
//! left to the caller, which the browser asks for through the steps it
//! returns.
use vstd::prelude::*;
use vstd::string::{StrSliceExecFns, StringExecFns};

use crate::paths::{extension_of, parent_of, path_extension, path_parent};
use crate::table::str_eq;
use crate::widgets::file_browser::{opt_string_view, strings_view};

verus! {

#[derive(Debug, Clone)]
pub enum BrowserOperation {
    MoveUp,
    MoveInto(String),
    Select(Option<String>),
    Cancel,
    Accept,
}

#[derive(Debug, Clone)]
pub enum BrowsingResult {
    Pending,
    Canceled,
    Done(String),
}

/// What the caller is to do after an operation.
#[derive(Debug, Clone)]
pub enum BrowserStep {
    /// The operation is complete, with this result.
    Finished(BrowsingResult),
    /// Read the current directory again: on success hand the entries to
    /// `finish_refresh`, after which the result is `Pending`; on failure
    /// call `clear_listing` and report the error.
    Refresh,
}

/// An entry of a directory, as the caller found it.
#[derive(Debug, Clone)]
pub struct PathEntry {
    pub path: String,
    pub is_file: bool,
}

/// Whether the listing keeps an entry: directories always, files only when
/// there is no filter or their extension is the filter.
pub open spec fn kept(filter: Option<Seq<char>>, e: PathEntry) -> bool {
    !e.is_file || match filter {
        None => true,
        Some(f) => path_extension(e.path@) == Some(f),
    }
}

/// The paths of the entries the listing keeps, in order.
pub open spec fn kept_paths(filter: Option<Seq<char>>, entries: Seq<PathEntry>) -> Seq<Seq<char>>
    decreases entries.len(),
{
    if entries.len() == 0 {
        Seq::empty()
    } else {
        let prev = kept_paths(filter, entries.drop_last());
        if kept(filter, entries.last()) {
            prev.push(entries.last().path@)
        } else {
            prev
        }
    }
}

/// The filter that `set_filter` makes of its argument: none for the empty
/// string.
pub open spec fn filter_of(filter: Seq<char>) -> Option<Seq<char>> {
    if filter.len() == 0 {
        None
    } else {
        Some(filter)
    }
}

/// Whether the browser can take the operation: moving up needs a parent
/// and moving into needs a directory; the user interface offers nothing
/// else.
pub open spec fn can_update(b: Browser, message: BrowserOperation, target_is_dir: bool) -> bool {
    &&& message is MoveUp ==> path_parent(b.spec_path()) is Some
    &&& message is MoveInto ==> target_is_dir
}

/// What an operation does to the browser (`before` becomes `after`) and the
/// step it asks of the caller; `selected_is_file` tells whether the selected
/// entry is a file.
pub open spec fn updated(
    before: Browser,
    after: Browser,
    message: BrowserOperation,
    selected_is_file: bool,
    step: BrowserStep,
) -> bool {
    &&& after.spec_filter() == before.spec_filter()
    &&& after.spec_dir() == before.spec_dir()
    &&& match message {
        BrowserOperation::MoveUp => {
            &&& after.spec_path() == path_parent(before.spec_path())->0
            &&& after.spec_selected() == before.spec_selected()
            &&& step is Refresh
        },
        BrowserOperation::MoveInto(p) => {
            &&& after.spec_path() == p@
            &&& after.spec_selected() == before.spec_selected()
            &&& step is Refresh
        },
        BrowserOperation::Select(p) => {
            &&& after.spec_path() == before.spec_path()
            &&& after.spec_selected() == opt_string_view(p)
            &&& step matches BrowserStep::Finished(BrowsingResult::Pending)
        },
        BrowserOperation::Cancel => {
            &&& after.spec_path() == before.spec_path()
            &&& after.spec_selected() is None
            &&& step matches BrowserStep::Finished(BrowsingResult::Canceled)
        },
        BrowserOperation::Accept => {
            &&& after.spec_path() == before.spec_path()
            &&& after.spec_selected() == before.spec_selected()
            &&& match before.spec_selected() {
                Some(s) => if selected_is_file {
                    step matches BrowserStep::Finished(BrowsingResult::Done(d)) && d@ == s
                } else {
                    step matches BrowserStep::Finished(BrowsingResult::Pending)
                },
                None => step matches BrowserStep::Finished(BrowsingResult::Pending),
            }
        },
    }
}

pub struct Browser {
    path: String,
    selected: Option<String>,
    dir: Vec<String>,
    filter: Option<String>,
}

impl Browser {
    pub closed spec fn spec_path(&self) -> Seq<char> {
        self.path@
    }

    pub closed spec fn spec_selected(&self) -> Option<Seq<char>> {
        opt_string_view(self.selected)
    }

    pub closed spec fn spec_dir(&self) -> Seq<Seq<char>> {
        strings_view(self.dir@)
    }

    pub closed spec fn spec_filter(&self) -> Option<Seq<char>> {
        opt_string_view(self.filter)
    }

    /// A browser in the directory `path`, with nothing listed or selected
    /// and no filter.
    pub fn new(path: String) -> (r: Self)
        ensures
            r.spec_path() == path@,
            r.spec_selected() is None,
            r.spec_dir().len() == 0,
            r.spec_filter() is None,
    {
        let r = Self { path, selected: None, dir: Vec::new(), filter: None };
        assert(r.spec_dir() =~= Seq::<Seq<char>>::empty());
        r
    }

    /// Lists only files with this extension; the empty string lists all.
    pub fn set_filter(&mut self, filter: &str)
        ensures
            final(self).spec_filter() == filter_of(filter@),
            final(self).spec_path() == old(self).spec_path(),
            final(self).spec_selected() == old(self).spec_selected(),
            final(self).spec_dir() == old(self).spec_dir(),
    {
        if filter.unicode_len() == 0 {
            self.filter = None;
        } else {
            self.filter = Some(String::from_str(filter));
        }
    }

    /// The current directory
    pub fn path(&self) -> (r: &str)
        ensures
            r@ == self.spec_path(),
    {
        self.path.as_str()
    }

    /// The selected entry
    pub fn selected(&self) -> (r: Option<&str>)
        ensures
            match r {
                Some(s) => self.spec_selected() == Some(s@),
                None => self.spec_selected() is None,
            },
    {
        match &self.selected {
            Some(s) => Some(s.as_str()),
            None => None,
        }
    }

    /// The listed entries of the current directory
    pub fn listing(&self) -> (r: &Vec<String>)
        ensures
            strings_view(r@) == self.spec_dir(),
    {
        &self.dir
    }

    /// Forgets the listing, as when the current directory cannot be read.
    pub fn clear_listing(&mut self)
        ensures
            final(self).spec_dir().len() == 0,
            final(self).spec_path() == old(self).spec_path(),
            final(self).spec_selected() == old(self).spec_selected(),
            final(self).spec_filter() == old(self).spec_filter(),
    {
        self.dir = Vec::new();
        assert(self.spec_dir() =~= Seq::<Seq<char>>::empty());
    }

    /// Replaces the listing with the entries of the current directory that
    /// the filter keeps.
    pub fn set_listing(&mut self, entries: Vec<PathEntry>)
        ensures
            final(self).spec_dir() == kept_paths(old(self).spec_filter(), entries@),
            final(self).spec_path() == old(self).spec_path(),
            final(self).spec_selected() == old(self).spec_selected(),
            final(self).spec_filter() == old(self).spec_filter(),
    {
        let mut dir: Vec<String> = Vec::new();
        let ghost filter = self.spec_filter();
        let mut i: usize = 0;
        while i < entries.len()
            invariant
                i <= entries@.len(),
                filter == self.spec_filter(),
                strings_view(dir@) == kept_paths(filter, entries@.take(i as int)),
            decreases entries@.len() - i,
        {
            let e = &entries[i];
            assert(entries@.take(i + 1).drop_last() == entries@.take(i as int));
            let keep = if !e.is_file {
                true
            } else {
                match &self.filter {
                    None => true,
                    Some(f) => match extension_of(e.path.as_str()) {
                        Some(ext) => str_eq(ext.as_str(), f.as_str()),
                        None => false,
                    },
                }
            };
            if keep {
                dir.push(e.path.clone());
                assert(strings_view(dir@) =~= strings_view(dir@.drop_last()).push(e.path@));
            }
            i = i + 1;
        }
        assert(entries@.take(entries@.len() as int) == entries@);
        self.dir = dir;
    }

    /// Finishes a refresh that the browser asked for: the listing is
    /// replaced and the selection forgotten.
    pub fn finish_refresh(&mut self, entries: Vec<PathEntry>)
        ensures
            final(self).spec_dir() == kept_paths(old(self).spec_filter(), entries@),
            final(self).spec_path() == old(self).spec_path(),
            final(self).spec_selected() is None,
            final(self).spec_filter() == old(self).spec_filter(),
    {
        self.set_listing(entries);
        self.selected = None;
    }

    /// Takes the decision for an operation of the user.
    ///
    /// `target_is_dir` tells whether the path of a `MoveInto` is a directory
    /// and `selected_is_file` whether the selected entry is a file; the
    /// caller finds these out before the call.
    pub fn update(&mut self, message: BrowserOperation, target_is_dir: bool, selected_is_file: bool) -> (step: BrowserStep)
        requires
            can_update(*old(self), message, target_is_dir),
        ensures
            updated(*old(self), *final(self), message, selected_is_file, step),
    {
        match message {
            BrowserOperation::MoveUp => {
                match parent_of(self.path.as_str()) {
                    Some(p) => {
                        self.path = p;
                    },
                    None => {},
                }
                BrowserStep::Refresh
            },
            BrowserOperation::MoveInto(path) => {
                self.path = path;
                BrowserStep::Refresh
            },
            BrowserOperation::Select(path) => {
                self.selected = path;
                BrowserStep::Finished(BrowsingResult::Pending)
            },
            BrowserOperation::Cancel => {
                self.selected = None;
                BrowserStep::Finished(BrowsingResult::Canceled)
            },
            BrowserOperation::Accept => {
                let result = match &self.selected {
                    Some(s) => {
                        if selected_is_file {
                            BrowsingResult::Done(s.clone())
                        } else {
                            BrowsingResult::Pending
                        }
                    },
                    None => BrowsingResult::Pending,
                };
                BrowserStep::Finished(result)
            },
        }
    }

    /// Takes the decision for an operation of the user when the browser can
    /// take it; `None`, with the browser unchanged, when it cannot: moving
    /// up from a path without a parent, or moving into something that is
    /// not a directory.
    pub fn try_update(&mut self, message: BrowserOperation, target_is_dir: bool, selected_is_file: bool) -> (r: Option<BrowserStep>)
        ensures
            match r {
                Some(step) => can_update(*old(self), message, target_is_dir) && updated(
                    *old(self),
                    *final(self),
                    message,
                    selected_is_file,
                    step,
                ),
                None => !can_update(*old(self), message, target_is_dir) && *final(self) == *old(self),
            },
    {
        let possible = match &message {
            BrowserOperation::MoveUp => parent_of(self.path.as_str()).is_some(),
            BrowserOperation::MoveInto(_) => target_is_dir,
            _ => true,
        };
        if possible {
            Some(self.update(message, target_is_dir, selected_is_file))
        } else {
            None
        }
    }
}

} // verus!
