//! File-name rules shared across the program, and the program-wide data.
use vstd::prelude::*;
use vstd::string::{StrSliceExecFns, StringExecFns};
use std::sync::Arc;

use crate::image::{GrayscaleImage, RgbaImage};
use crate::naming_convention::{convention_from, NamingConvention};
use crate::persistence::{database_store, Persistence, PersistentValue};
use crate::status_bar::{Status, StatusBar};
use crate::strings::{contains_str, occurs_in};
use crate::table::str_eq;
use crate::style::{Layout, Theme};
use crate::widgets::file_browser::{strings_view, Browser, Target};
use crate::workspace::WorkspaceTemplate;
use crate::paths::{lowercase, to_lowercase};
use crate::strings::chars_of;
use crate::text::{
    all_ascii, is_ascii_char, lowercase_ascii_text, char_is_alphanumeric, char_is_whitespace, main_separator, string_push, unicode_alphanumeric, unicode_whitespace,
};

verus! {

broadcast use vstd::string::group_string_axioms;

/// The character a file name keeps in place of `c`, if it keeps one:
/// whitespace becomes `-`; letters, digits, `-`, `_` and `$` are kept;
/// anything else is dropped.
pub open spec fn file_name_char(c: char) -> Option<char> {
    let m = if unicode_whitespace(c) { '-' } else { c };
    if unicode_alphanumeric(m) || m == '-' || m == '_' || m == '$' {
        Some(m)
    } else {
        None
    }
}

/// Like `file_name_char`, but keeping the path separator `sep` as well.
pub open spec fn path_name_char(c: char, sep: char) -> Option<char> {
    let m = if unicode_whitespace(c) { '-' } else { c };
    if unicode_alphanumeric(m) || m == '-' || m == '_' || m == '$' || m == sep {
        Some(m)
    } else {
        None
    }
}

/// Maps every character of `s` through `f`, keeping the characters `f` keeps.
pub open spec fn filter_map_chars(s: Seq<char>, f: spec_fn(char) -> Option<char>) -> Seq<char>
    decreases s.len(),
{
    if s.len() == 0 {
        Seq::empty()
    } else {
        let prev = filter_map_chars(s.drop_last(), f);
        match f(s.last()) {
            Some(c) => prev.push(c),
            None => prev,
        }
    }
}

/// The file name `sanitize_file_name` makes of `s`: the characters it
/// keeps, in lower case.
pub open spec fn sanitized_file_name(s: Seq<char>) -> Seq<char> {
    lowercase(filter_map_chars(s, |c: char| file_name_char(c)))
}

/// The path `sanitize_file_name_allow_path` makes of `s` with separator
/// `sep`: the characters it keeps, in lower case.
pub open spec fn sanitized_path_name(s: Seq<char>, sep: char) -> Seq<char> {
    lowercase(filter_map_chars(s, |c: char| path_name_char(c, sep)))
}

/// A character `has_invalid_characters` objects to, given separator `sep`.
pub open spec fn flagged_char(c: char, sep: char) -> bool {
    !unicode_whitespace(c) && c != '-' && c != '_' && c != '$' && c != sep
}

pub open spec fn has_flagged_char(s: Seq<char>, sep: char) -> bool {
    exists|i: int| 0 <= i < s.len() && flagged_char(#[trigger] s[i], sep)
}

/// `s` without the characters that are not letters or digits at its
/// start.
pub open spec fn trim_front(s: Seq<char>) -> Seq<char>
    decreases s.len(),
{
    if s.len() > 0 && !unicode_alphanumeric(s[0]) {
        trim_front(s.skip(1))
    } else {
        s
    }
}

/// `s` without the characters that are not letters or digits at its end.
pub open spec fn trim_back(s: Seq<char>) -> Seq<char>
    decreases s.len(),
{
    if s.len() > 0 && !unicode_alphanumeric(s.last()) {
        trim_back(s.drop_last())
    } else {
        s
    }
}

/// What `sanitize_file_name_ends` makes of `s`: `s` without the characters
/// that are not letters or digits at either end.
pub open spec fn trimmed_name(s: Seq<char>) -> Seq<char> {
    trim_back(trim_front(s))
}

/// Removes any character from the string that could be problematic for use in file names.
///
/// Whitespace becomes `-`, and the result is all lowercase to prevent weirdness when using
/// the results across different platforms.
///
/// Char `$` is purposefully kept since it's used for variable names.
/// Workspaces are responsible for removing those from the final file name.
pub fn sanitize_file_name(name: String) -> (r: String)
    ensures
        r@ == sanitized_file_name(name@),
        all_ascii(name@) ==> r@ == lowercase_ascii_text(filter_map_chars(name@, |c: char| file_name_char(c))),
{
    let mut out = String::new();
    let ghost f = |c: char| file_name_char(c);
    for c in it: name.chars()
        invariant
            it.seq() == name@,
            forall|x: char| #[trigger] f(x) == file_name_char(x),
            out@ == filter_map_chars(name@.take(it.index() as int), f),
    {
        assert(name@.take(it.index() + 1).drop_last() == name@.take(it.index() as int));
        assert(name@.take(it.index() + 1).last() == c);
        let m = if char_is_whitespace(c) { '-' } else { c };
        if char_is_alphanumeric(m) || m == '-' || m == '_' || m == '$' {
            string_push(&mut out, m);
        }
    }
    assert(name@.take(name@.len() as int) == name@);
    proof {
        if all_ascii(name@) {
            lemma_kept_ascii(name@, f);
        }
    }
    to_lowercase(out.as_str())
}



/// Keeping characters of an ASCII text, or putting `-` in their place,
/// gives an ASCII text.
proof fn lemma_kept_ascii(s: Seq<char>, f: spec_fn(char) -> Option<char>)
    requires
        all_ascii(s),
        forall|c: char| #[trigger] f(c) is None || f(c) == Some(c) || f(c) == Some('-'),
    ensures
        all_ascii(filter_map_chars(s, f)),
    decreases s.len(),
{
    if s.len() > 0 {
        assert(all_ascii(s.drop_last())) by {
            assert forall|i: int| 0 <= i < s.drop_last().len() implies is_ascii_char(#[trigger] s.drop_last()[i]) by {
                assert(s.drop_last()[i] == s[i]);
            }
        }
        lemma_kept_ascii(s.drop_last(), f);
        assert(is_ascii_char(s[s.len() - 1]));
        let prev = filter_map_chars(s.drop_last(), f);
        let r = filter_map_chars(s, f);
        assert forall|i: int| 0 <= i < r.len() implies is_ascii_char(#[trigger] r[i]) by {
            if i < prev.len() {
                assert(r[i] == prev[i]);
            }
        }
    }
}

/// Where the text holds no separator `sep`, keeping the separator changes
/// nothing: the path-keeping sanitiser gives what `sanitize_file_name`
/// gives.
pub proof fn lemma_path_name_without_separator(s: Seq<char>, sep: char)
    requires
        sep == '/' || sep == '\\',
        !s.contains(sep),
    ensures
        sanitized_path_name(s, sep) == sanitized_file_name(s),
{
    lemma_same_kept(s, sep);
}

proof fn lemma_same_kept(s: Seq<char>, sep: char)
    requires
        sep == '/' || sep == '\\',
        !s.contains(sep),
    ensures
        filter_map_chars(s, |c: char| path_name_char(c, sep)) == filter_map_chars(s, |c: char| file_name_char(c)),
    decreases s.len(),
{
    if s.len() > 0 {
        assert(!s.drop_last().contains(sep)) by {
            if s.drop_last().contains(sep) {
                let k = choose|k: int| 0 <= k < s.drop_last().len() && s.drop_last()[k] == sep;
                assert(s[k] == sep);
            }
        }
        lemma_same_kept(s.drop_last(), sep);
        let c = s.last();
        assert(c != sep) by {
            assert(s[s.len() - 1] == c);
        }
        assert(path_name_char(c, sep) == file_name_char(c));
    }
}

/// Whether `name` holds a character other than whitespace, `-`, `_`, `$`
/// or the path separator `sep`.
pub fn has_invalid_characters_with_separator(name: &str, sep: char) -> (r: bool)
    ensures
        r == has_flagged_char(name@, sep),
{
    for c in it: name.chars()
        invariant
            it.seq() == name@,
            forall|j: int| 0 <= j < it.index() ==> !flagged_char(#[trigger] name@[j], sep),
    {
        let ws = char_is_whitespace(c);
        if !ws && c != '-' && c != '_' && c != '$' && c != sep {
            assert(flagged_char(name@[it.index() as int], sep));
            return true;
        }
    }
    false
}

/// Whether `name` holds a character other than whitespace, `-`, `_`, `$`
/// or the platform's path separator.
pub fn has_invalid_characters(name: &str) -> (r: bool)
    ensures
        exists|sep: char| (sep == '/' || sep == '\\') && r == has_flagged_char(name@, sep),
{
    let sep = main_separator();
    has_invalid_characters_with_separator(name, sep)
}

/// Removes characters problematic for file paths from the string, keeping the
/// path separator `sep`.
pub fn sanitize_path_name_with_separator(name: String, sep: char) -> (r: String)
    ensures
        r@ == sanitized_path_name(name@, sep),
        all_ascii(name@) ==> r@ == lowercase_ascii_text(filter_map_chars(name@, |c: char| path_name_char(c, sep))),
{
    let mut out = String::new();
    let ghost f = |c: char| path_name_char(c, sep);
    for c in it: name.chars()
        invariant
            it.seq() == name@,
            forall|x: char| #[trigger] f(x) == path_name_char(x, sep),
            out@ == filter_map_chars(name@.take(it.index() as int), f),
    {
        assert(name@.take(it.index() + 1).drop_last() == name@.take(it.index() as int));
        assert(name@.take(it.index() + 1).last() == c);
        let m = if char_is_whitespace(c) { '-' } else { c };
        if char_is_alphanumeric(m) || m == '-' || m == '_' || m == '$' || m == sep {
            string_push(&mut out, m);
        }
    }
    assert(name@.take(name@.len() as int) == name@);
    proof {
        if all_ascii(name@) {
            lemma_kept_ascii(name@, f);
        }
    }
    to_lowercase(out.as_str())
}

/// Removes characters problematic for file paths from the string
///
/// Works exactly the same as `sanitize_file_name` but allows path breaks
/// (the platform's separator).
pub fn sanitize_file_name_allow_path(name: String) -> (r: String)
    ensures
        exists|sep: char|
            (sep == '/' || sep == '\\') && r@ == sanitized_path_name(name@, sep) && (all_ascii(name@) ==> r@
                == lowercase_ascii_text(filter_map_chars(name@, |c: char| path_name_char(c, sep)))),
{
    let sep = main_separator();
    sanitize_path_name_with_separator(name, sep)
}

/// Removes any special characters from beginning and end of the string:
/// every character at either end that is not a letter or a digit.
pub fn sanitize_file_name_ends(name: &String) -> (r: String)
    ensures
        r@ == trimmed_name(name@),
{
    let v = chars_of(name.as_str());
    let n = v.len();
    let mut i: usize = 0;
    assert(name@.skip(0) =~= name@);
    while i < n && !char_is_alphanumeric(v[i])
        invariant
            v@ == name@,
            n == name@.len(),
            i <= n,
            trim_front(name@) == trim_front(name@.skip(i as int)),
        decreases n - i,
    {
        assert(name@.skip(i as int).skip(1) =~= name@.skip(i + 1));
        i = i + 1;
    }
    assert(trim_front(name@) == name@.subrange(i as int, n as int)) by {
        assert(name@.skip(i as int) =~= name@.subrange(i as int, n as int));
    }
    let mut j: usize = n;
    while j > i && !char_is_alphanumeric(v[j - 1])
        invariant
            v@ == name@,
            n == name@.len(),
            i <= j <= n,
            trim_back(name@.subrange(i as int, n as int)) == trim_back(name@.subrange(i as int, j as int)),
        decreases j,
    {
        assert(name@.subrange(i as int, j as int).drop_last() =~= name@.subrange(i as int, j - 1));
        j = j - 1;
    }
    let mut out = String::new();
    let mut k: usize = i;
    while k < j
        invariant
            v@ == name@,
            n == name@.len(),
            i <= k <= j <= n,
            out@ == name@.subrange(i as int, k as int),
        decreases j - k,
    {
        string_push(&mut out, v[k]);
        assert(name@.subrange(i as int, k + 1) =~= name@.subrange(i as int, k as int).push(v@[k as int]));
        k = k + 1;
    }
    out
}

pub const PROJECT_NAME: &'static str = "token-maker";
pub const PROJECT_DATA_FOLDER: &'static str = "data";
pub const PROJECT_FRAMES_FOLDER: &'static str = "frames";


/// Walking the folders that hold a frame from the top down: whether the
/// frames folder was passed, and the category built from the folders below
/// it, the deepest first, each followed by `/`.
pub open spec fn category_walk(folders: Seq<Seq<char>>) -> (bool, Seq<char>)
    decreases folders.len(),
{
    if folders.len() == 0 {
        (false, Seq::empty())
    } else {
        let (found, s) = category_walk(folders.drop_last());
        if found {
            (true, folders.last() + "/"@ + s)
        } else if folders.last() == "frames"@ {
            (true, s)
        } else {
            (false, s)
        }
    }
}

/// The category of a frame lying in the folders `folders` (from the root
/// down); `Uncategoriezed` when no folder lies below the frames folder.
pub open spec fn frame_category_of(folders: Seq<Seq<char>>) -> Seq<char> {
    let s = category_walk(folders).1;
    if s.len() == 0 {
        "Uncategoriezed"@
    } else {
        s
    }
}

/// The category of a frame found in the folders `folders`, given from the
/// root down.
pub fn frame_category(folders: &Vec<String>) -> (r: String)
    ensures
        r@ == frame_category_of(strings_view(folders@)),
{
    let ghost v = strings_view(folders@);
    let mut found = false;
    let mut s = String::new();
    let mut i: usize = 0;
    while i < folders.len()
        invariant
            v == strings_view(folders@),
            i <= folders@.len(),
            (found, s@) == category_walk(v.take(i as int)),
        decreases folders@.len() - i,
    {
        assert(v.take(i + 1).drop_last() =~= v.take(i as int));
        assert(v.take(i + 1).last() == folders@[i as int]@);
        if found {
            let mut t = folders[i].clone();
            t.append("/");
            t.append(s.as_str());
            s = t;
        } else if str_eq(folders[i].as_str(), "frames") {
            found = true;
        }
        i = i + 1;
    }
    assert(v.take(folders@.len() as int) =~= v);
    if s.as_str().unicode_len() == 0 {
        String::from_str("Uncategoriezed")
    } else {
        s
    }
}

/// Whether a file of the frames folder holds a mask: its name, without the
/// extension, contains `-mask`.
pub fn is_mask_name(stem: &str) -> (r: bool)
    ensures
        r == occurs_in(stem@, "-mask"@),
{
    contains_str(stem, "-mask")
}

/// The file name of the mask of the frame `name` whose file has the
/// extension `ext`: `name-mask.ext`, or `name-mask` without an extension.
pub open spec fn mask_name_of(name: Seq<char>, ext: Option<Seq<char>>) -> Seq<char> {
    match ext {
        Some(e) => name + "-mask."@ + e,
        None => name + "-mask"@,
    }
}

/// The file name of the mask of the frame `name`.
pub fn mask_file_name(name: &str, ext: Option<&str>) -> (r: String)
    ensures
        r@ == mask_name_of(name@, match ext {
            Some(e) => Some(e@),
            None => None,
        }),
{
    let mut r = String::from_str(name);
    match ext {
        Some(e) => {
            r.append("-mask.");
            r.append(e);
        },
        None => {
            r.append("-mask");
        },
    }
    r
}

/// A saved frame's mask is found again by loading: the mask is written
/// under the name loading pairs with the frame, and its name marks it as a
/// mask, so it is not loaded as a frame of its own.
pub proof fn lemma_saved_mask_found(name: Seq<char>)
    ensures
        mask_name_of(name, Some("webp"@)) == name + "-mask"@ + "."@ + "webp"@,
        occurs_in(name + "-mask"@, "-mask"@),
{
    reveal_strlit("-mask.");
    reveal_strlit("-mask");
    reveal_strlit(".");
    assert("-mask."@ =~= "-mask"@ + "."@);
    let s = name + "-mask"@;
    assert(s.subrange(name.len() as int, name.len() + "-mask"@.len() as int) =~= "-mask"@);
}

/// The name a frame takes from the name it was given: trimmed at the ends,
/// and `untitled` when nothing is left.
pub open spec fn frame_name_of(name: Seq<char>) -> Seq<char> {
    let t = trimmed_name(name);
    if t.len() == 0 {
        "untitled"@
    } else {
        t
    }
}

/// Holds images prepared to be used as frames for tokens
#[derive(Debug, Clone)]
pub struct FrameImage {
    /// Name of the image
    name: String,
    /// name of the folder the frame was placed in
    category: String,
    /// Image ready for use in rendering process
    frame: Arc<RgbaImage>,
    /// Optional mask for the frame
    mask: Option<Arc<GrayscaleImage>>,
    /// Identifier used to distinguish the frame from others
    id: String,
}

impl FrameImage {
    pub closed spec fn spec_name(&self) -> Seq<char> {
        self.name@
    }

    pub closed spec fn spec_category(&self) -> Seq<char> {
        self.category@
    }

    pub closed spec fn spec_id(&self) -> Seq<char> {
        self.id@
    }

    pub closed spec fn spec_image(&self) -> RgbaImage {
        *self.frame
    }

    pub closed spec fn spec_mask(&self) -> Option<GrayscaleImage> {
        match self.mask {
            Some(m) => Some(*m),
            None => None,
        }
    }

    /// Creates a new frame image
    /// The function ensures the name and category is correct
    pub fn new(name: String, category: String, frame: RgbaImage, mask: Option<GrayscaleImage>) -> (r: Self)
        ensures
            r.spec_name() == frame_name_of(name@),
            r.spec_category() == trimmed_name(category@),
            r.spec_id() == r.spec_category() + "/"@ + r.spec_name(),
            r.spec_image() == frame,
            r.spec_mask() == mask,
    {
        let mut name = sanitize_file_name_ends(&name);
        if name.as_str().is_empty() {
            name = String::from_str("untitled");
        }
        let category = sanitize_file_name_ends(&category);
        let frame = Arc::new(frame);
        let mask = match mask {
            Some(m) => Some(Arc::new(m)),
            None => None,
        };
        let mut id = category.clone();
        id.append("/");
        id.append(name.as_str());
        FrameImage { name, category, frame, mask, id }
    }

    /// A copy of the frame, sharing its images.
    pub fn duplicate(&self) -> (r: Self)
        ensures
            r == *self,
    {
        let mask = match &self.mask {
            Some(m) => Some(Arc::clone(m)),
            None => None,
        };
        FrameImage {
            name: self.name.clone(),
            category: self.category.clone(),
            frame: Arc::clone(&self.frame),
            mask,
            id: self.id.clone(),
        }
    }

    /// The file name the frame image is saved under.
    pub fn file_name(&self) -> (r: String)
        ensures
            r@ == self.spec_name() + ".webp"@,
    {
        let mut r = self.name.clone();
        r.append(".webp");
        r
    }

    /// The file name the mask is saved under.
    pub fn mask_file_name(&self) -> (r: String)
        ensures
            r@ == mask_name_of(self.spec_name(), Some("webp"@)),
    {
        mask_file_name(self.name.as_str(), Some("webp"))
    }

    /// Identifier used to uniquely identify this frame image from any other
    pub fn id(&self) -> (r: &str)
        ensures
            r@ == self.spec_id(),
    {
        self.id.as_str()
    }

    /// Name of the frame
    pub fn name(&self) -> (r: &str)
        ensures
            r@ == self.spec_name(),
    {
        self.name.as_str()
    }

    /// Category the frame belongs to
    pub fn category(&self) -> (r: &str)
        ensures
            r@ == self.spec_category(),
    {
        self.category.as_str()
    }

    /// Clones the pointer to the frame image
    pub fn image(&self) -> (r: Arc<RgbaImage>)
        ensures
            *r == self.spec_image(),
    {
        Arc::clone(&self.frame)
    }

    /// Clones the pointer to the mask image
    pub fn mask(&self) -> (r: Option<Arc<GrayscaleImage>>)
        ensures
            match r {
                Some(m) => self.spec_mask() == Some(*m),
                None => self.spec_mask() is None,
            },
    {
        match &self.mask {
            Some(m) => Some(Arc::clone(m)),
            None => None,
        }
    }
}


/// The id under which the program settings are stored.
pub open spec fn settings_id() -> Seq<char> {
    "settings"@
}

/// The id under which the file browser's state is stored.
pub open spec fn file_browser_id() -> Seq<char> {
    "file-browser"@
}

/// The folder the file browser opens in: the stored one, else `home`.
pub open spec fn start_folder(db: Map<Seq<char>, Map<Seq<char>, PersistentValue>>, home: Seq<char>) -> Seq<char> {
    match crate::persistence::database_lookup(db, file_browser_id(), "folder"@) {
        Some(PersistentValue::String(s)) => s@,
        _ => home,
    }
}

/// The stored theme, else the default one.
pub open spec fn stored_theme(db: Map<Seq<char>, Map<Seq<char>, PersistentValue>>) -> Theme {
    match crate::persistence::database_lookup(db, settings_id(), "theme"@) {
        Some(PersistentValue::Theme(t)) => t,
        _ => Theme::Light,
    }
}

/// The stored layout, else the default one.
pub open spec fn stored_layout(db: Map<Seq<char>, Map<Seq<char>, PersistentValue>>) -> Layout {
    match crate::persistence::database_lookup(db, settings_id(), "layout"@) {
        Some(PersistentValue::Layout(l)) => l,
        _ => Layout::Parallel,
    }
}

/// The stored export folder, else none.
pub open spec fn stored_output(db: Map<Seq<char>, Map<Seq<char>, PersistentValue>>) -> Seq<char> {
    match crate::persistence::database_lookup(db, settings_id(), "output"@) {
        Some(PersistentValue::String(s)) => s@,
        _ => Seq::empty(),
    }
}

/// The warning shown when a name loses characters.
pub open spec fn removed_characters_warning() -> Seq<char> {
    "Removed invalid characters from the name"@
}

/// The status after a name was typed: the warning `warning` when the name
/// held characters that the sanitising drops (with separator `sep`), else
/// the status as it was.
pub open spec fn status_after_name(
    before: Status,
    after: Status,
    name: Seq<char>,
    sep: char,
    warning: Seq<char>,
) -> bool {
    if has_flagged_char(name, sep) {
        after matches Status::Warning(w) && w@ == warning
    } else {
        after == before
    }
}

/// What a settings message does to the program data (`before` becomes
/// `after`).
pub open spec fn settings_updated(before: ProgramData, after: ProgramData, message: ProgramDataMessage) -> bool {
    &&& after.file == before.file
    &&& after.output == before.output
    &&& after.available_frames == before.available_frames
    &&& match message {
        ProgramDataMessage::SetTheme(t) => {
            &&& after.theme == t
            &&& after.cache.view() == database_store(
                before.cache.view(),
                settings_id(),
                "theme"@,
                PersistentValue::Theme(t),
            )
            &&& after.layout == before.layout
            &&& after.naming == before.naming
            &&& after.status == before.status
        },
        ProgramDataMessage::SetLayout(l) => {
            &&& after.layout == l
            &&& after.cache.view() == database_store(
                before.cache.view(),
                settings_id(),
                "layout"@,
                PersistentValue::Layout(l),
            )
            &&& after.theme == before.theme
            &&& after.naming == before.naming
            &&& after.status == before.status
        },
        ProgramDataMessage::SetNamingConvention(template, text) => {
            &&& after.naming.convention_of(template) == sanitized_file_name(text@)
            &&& forall|t: WorkspaceTemplate|
                t != template ==> #[trigger] after.naming.convention_of(t)
                    == before.naming.convention_of(t)
            &&& after.naming.project() == before.naming.project()
            &&& exists|s: String|
                s@ == sanitized_file_name(text@) && after.cache.view() == database_store(
                    before.cache.view(),
                    crate::naming_convention::naming_convention_id(),
                    crate::workspace::template_id_of(template),
                    PersistentValue::String(s),
                )
            &&& exists|sep: char|
                (sep == '/' || sep == '\\') && status_after_name(
                    before.status.current(),
                    after.status.current(),
                    text@,
                    sep,
                    removed_characters_warning(),
                )
            &&& after.theme == before.theme
            &&& after.layout == before.layout
        },
        ProgramDataMessage::SetProjectName(n) => {
            &&& after.naming.project()@ == sanitized_file_name(n@)
            &&& forall|t: WorkspaceTemplate|
                #[trigger] after.naming.convention_of(t) == before.naming.convention_of(t)
            &&& after.cache == before.cache
            &&& exists|sep: char|
                (sep == '/' || sep == '\\') && status_after_name(
                    before.status.current(),
                    after.status.current(),
                    n@,
                    sep,
                    removed_characters_warning(),
                )
            &&& after.theme == before.theme
            &&& after.layout == before.layout
        },
    }
}

/// Data and tools available in the program
pub struct ProgramData {
    /// File browser, used for allowing the user ease of access to the file system
    pub file: Browser,
    /// Status line for giving feedback to the user
    pub status: StatusBar,
    /// Intended export path, meant to be combined with individual names from workspaces
    pub output: String,
    /// Collection of frames loaded into the program
    pub available_frames: Vec<FrameImage>,
    /// Currently used color scheme for the UI
    pub theme: Theme,
    /// Determines which layout the workspaces should be displayed with
    pub layout: Layout,
    /// Naming conventions to use in the program
    pub naming: NamingConvention,
    /// Values saved across sessions
    pub cache: Persistence,
}

/// Messages for customizing the program settings
#[derive(Debug, Clone)]
pub enum ProgramDataMessage {
    /// Sets a new theme
    SetTheme(Theme),
    SetLayout(Layout),
    SetNamingConvention(WorkspaceTemplate, String),
    SetProjectName(String),
}

impl ProgramData {
    /// Well-formedness: the storage and the naming conventions are.
    pub open spec fn wf(&self) -> bool {
        &&& self.cache.wf()
        &&& self.naming.wf()
    }

    /// The program data that the stored values `cache` give: the browser
    /// opens in the stored folder, or in `home`, with the quick-access
    /// `roots` and the `favorites`; theme, layout, export folder and naming
    /// conventions are the stored ones or their defaults.
    pub fn new(cache: Persistence, home: String, roots: Vec<String>, favorites: Vec<String>) -> (r: Self)
        requires
            cache.wf(),
        ensures
            r.wf(),
            r.cache == cache,
            r.file.spec_path() == start_folder(cache.view(), home@),
            r.file.spec_selected() is None,
            r.file.spec_dir().len() == 0,
            r.file.spec_target() == Target::File,
            r.file.spec_roots() == strings_view(roots@),
            r.file.spec_favorites() == strings_view(favorites@),
            r.file.spec_new_dir_name() is None,
            r.status.current() is Empty,
            r.output@ == stored_output(cache.view()),
            r.available_frames@.len() == 0,
            r.theme == stored_theme(cache.view()),
            r.layout == stored_layout(cache.view()),
            forall|t: WorkspaceTemplate| #[trigger] r.naming.convention_of(t) == convention_from(cache.view(), t),
            r.naming.project()@ == Seq::<char>::empty(),
    {
        let path = match cache.get("file-browser", "folder") {
            Some(PersistentValue::String(p)) => p.clone(),
            _ => home,
        };
        let file = Browser::new(path, roots, favorites);
        let theme = match cache.get_copy("settings", "theme") {
            Some(t) => t.to_theme(),
            None => Theme::default(),
        };
        let layout = match cache.get_copy("settings", "layout") {
            Some(l) => l.to_layout(),
            None => Layout::default(),
        };
        let output = match cache.get_copy("settings", "output") {
            Some(o) => o.to_string(),
            None => String::new(),
        };
        let naming = NamingConvention::new(&cache);
        ProgramData {
            file,
            status: StatusBar::new(),
            output,
            available_frames: Vec::new(),
            theme,
            layout,
            naming,
            cache,
        }
    }

    /// Updates settings according to the message
    pub fn update(&mut self, message: ProgramDataMessage)
        requires
            old(self).wf(),
        ensures
            final(self).wf(),
            settings_updated(*old(self), *final(self), message),
    {
        match message {
            ProgramDataMessage::SetTheme(t) => {
                self.theme = t;
                self.cache.set("settings", "theme", PersistentValue::Theme(t));
            },
            ProgramDataMessage::SetLayout(l) => {
                self.layout = l;
                self.cache.set("settings", "layout", PersistentValue::Layout(l));
            },
            ProgramDataMessage::SetNamingConvention(template, text) => {
                let ghost before = self.status.current();
                let invalid = has_invalid_characters(text.as_str());
                let ghost sep = choose|sep: char|
                    (sep == '/' || sep == '\\') && invalid == has_flagged_char(text@, sep);
                if invalid {
                    self.status.warning("Removed invalid characters from the name");
                }
                assert(status_after_name(before, self.status.current(), text@, sep, removed_characters_warning()));
                self.naming.set(template, text, &mut self.cache);
            },
            ProgramDataMessage::SetProjectName(n) => {
                let ghost before = self.status.current();
                let invalid = has_invalid_characters(n.as_str());
                let ghost sep = choose|sep: char|
                    (sep == '/' || sep == '\\') && invalid == has_flagged_char(n@, sep);
                if invalid {
                    self.status.warning("Removed invalid characters from the name");
                }
                assert(status_after_name(before, self.status.current(), n@, sep, removed_characters_warning()));
                self.naming.set_project_name(sanitize_file_name(n));
            },
        }
    }

    /// Stores what the next session starts from: the browser's folder and
    /// the export folder.
    pub fn remember_session(&mut self)
        requires
            old(self).wf(),
        ensures
            final(self).wf(),
            exists|p: String|
                p@ == old(self).file.spec_path() && final(self).cache.view() == database_store(
                    database_store(old(self).cache.view(), file_browser_id(), "folder"@, PersistentValue::String(p)),
                    settings_id(),
                    "output"@,
                    PersistentValue::String(old(self).output),
                ),
            final(self).file == old(self).file,
            final(self).status == old(self).status,
            final(self).output == old(self).output,
            final(self).available_frames == old(self).available_frames,
            final(self).theme == old(self).theme,
            final(self).layout == old(self).layout,
            final(self).naming == old(self).naming,
    {
        let ghost db = self.cache.view();
        let path = String::from_str(self.file.get_path());
        let ghost p = path;
        self.cache.set("file-browser", "folder", PersistentValue::String(path));
        let output = self.output.clone();
        self.cache.set("settings", "output", PersistentValue::String(output));
        assert(self.cache.view() == database_store(
            database_store(db, file_browser_id(), "folder"@, PersistentValue::String(p)),
            settings_id(),
            "output"@,
            PersistentValue::String(old(self).output),
        ));
    }
}

} // verus!