//! Workspace templates and the naming of workspace exports.
use vstd::prelude::*;
use vstd::string::{StrSliceExecFns, StringExecFns};

use crate::data::{
    has_flagged_char, has_invalid_characters, removed_characters_warning, sanitize_file_name,
    sanitized_file_name, status_after_name,
};
use crate::image::{format_name_of, ImageFormat};

use crate::paths::{join_path, path_join, path_with_extension, with_extension};
use crate::persistence::{database_lookup, database_store, Persistence, PersistentKey, PersistentValue};
use crate::status_bar::StatusBar;
use crate::strings::{decimal, parse_u32, parsed_u32, replace_all, replaced, u32_to_decimal};
use crate::text::{char_is_alphanumeric, unicode_alphanumeric};

verus! {

/// Allows the program to define which default values should be used for the workspace and its modifiers
#[derive(Debug, Clone, Copy, PartialEq, Eq, Hash, Structural)]
pub enum WorkspaceTemplate {
    /// `Blank` means there should be no specialization for the workspace
    Blank,
    Token,
    Portrait,
}

impl Default for WorkspaceTemplate {
    fn default() -> (t: WorkspaceTemplate)
        ensures
            t == WorkspaceTemplate::Blank,
    {
        WorkspaceTemplate::Blank
    }
}

/// The suffix each template adds to the default file name.
pub open spec fn default_file_name_of(t: WorkspaceTemplate) -> Seq<char> {
    match t {
        WorkspaceTemplate::Blank => ""@,
        WorkspaceTemplate::Token => "-token"@,
        WorkspaceTemplate::Portrait => "-portrait"@,
    }
}

/// The name each template is stored under.
pub open spec fn template_id_of(t: WorkspaceTemplate) -> Seq<char> {
    match t {
        WorkspaceTemplate::Blank => "none"@,
        WorkspaceTemplate::Token => "token"@,
        WorkspaceTemplate::Portrait => "portrait"@,
    }
}

/// The name each template is shown with.
pub open spec fn template_label_of(t: WorkspaceTemplate) -> Seq<char> {
    match t {
        WorkspaceTemplate::Blank => "None"@,
        WorkspaceTemplate::Token => "Token"@,
        WorkspaceTemplate::Portrait => "Portrait"@,
    }
}

impl WorkspaceTemplate {
    pub const ALL: [WorkspaceTemplate; 3] = [
        WorkspaceTemplate::Blank,
        WorkspaceTemplate::Token,
        WorkspaceTemplate::Portrait,
    ];

    pub fn get_default_file_name(&self) -> (r: &'static str)
        ensures
            r@ == default_file_name_of(*self),
    {
        match self {
            WorkspaceTemplate::Blank => "",
            WorkspaceTemplate::Token => "-token",
            WorkspaceTemplate::Portrait => "-portrait",
        }
    }

    /// Whether a new workspace of this template starts with a frame
    /// modifier: tokens and portraits do.
    pub fn uses_frame(&self) -> (r: bool)
        ensures
            r == (*self != WorkspaceTemplate::Blank),
    {
        match self {
            WorkspaceTemplate::Blank => false,
            _ => true,
        }
    }

    /// The name the template is shown with.
    pub fn label(&self) -> (r: &'static str)
        ensures
            r@ == template_label_of(*self),
    {
        match self {
            WorkspaceTemplate::Blank => "None",
            WorkspaceTemplate::Token => "Token",
            WorkspaceTemplate::Portrait => "Portrait",
        }
    }
}

impl PersistentKey for WorkspaceTemplate {
    open spec fn key_id(&self) -> Seq<char> {
        template_id_of(*self)
    }

    fn get_id(&self) -> (r: &str) {
        match self {
            WorkspaceTemplate::Blank => "none",
            WorkspaceTemplate::Token => "token",
            WorkspaceTemplate::Portrait => "portrait",
        }
    }
}


/// The format a new workspace exports to: the stored one, else WebP.
pub open spec fn stored_format(db: Map<Seq<char>, Map<Seq<char>, PersistentValue>>) -> ImageFormat {
    match database_lookup(db, "workspace"@, "image-format"@) {
        Some(PersistentValue::ImageFormat(f)) => f,
        _ => ImageFormat::WebP,
    }
}

/// The size a new workspace exports at: that of the source image for a
/// portrait, else 512 by 512.
pub open spec fn initial_size(template: WorkspaceTemplate, width: u32, height: u32) -> (u32, u32) {
    if template == WorkspaceTemplate::Portrait {
        (width, height)
    } else {
        (512, 512)
    }
}

/// The name a workspace's export file takes from its output name: the
/// project's name stands for `$project_name`, and every other `$` is
/// dropped.
pub open spec fn export_name(output: Seq<char>, project: Seq<char>) -> Seq<char> {
    replaced(replaced(output, "$project_name"@, project), "$"@, Seq::empty())
}

/// Whether a name holds a letter or a digit.
pub open spec fn has_alphanumeric(s: Seq<char>) -> bool {
    exists|i: int| 0 <= i < s.len() && unicode_alphanumeric(#[trigger] s[i])
}

/// What a size typed into a size field does: a number is taken, and shown
/// as typed; an empty field is shown empty and the size kept; anything else
/// is ignored.
pub open spec fn size_typed(before_size: u32, before_text: Seq<char>, typed: Seq<char>, after_size: u32, after_text: Seq<char>) -> bool {
    match parsed_u32(typed) {
        Some(v) => after_size == v && after_text == typed,
        None => after_size == before_size && after_text == (if typed.len() == 0 {
            typed
        } else {
            before_text
        }),
    }
}

/// What a workspace exports and whether it can: the output name and format,
/// the export size with the texts of its two input fields, and whether the
/// workspace must be rendered again or is being rendered.
pub struct ExportSettings {
    /// Name of the file to export the result to
    pub output: String,
    pub format: ImageFormat,
    /// Flag used to signal to the workspace and its modifiers what is the intended output
    pub template: WorkspaceTemplate,
    pub width: u32,
    pub height: u32,
    /// Denotes whatever the workspace needs to be rerendered
    pub dirty: bool,
    /// Flag specifies whatever there is active rendering job in process
    pub rendering: bool,
    /// Text of the width field, which may hold what is not a number yet
    pub width_carrier: String,
    /// Text of the height field, which may hold what is not a number yet
    pub height_carrier: String,
}

impl ExportSettings {
    /// The settings of a new workspace named `name`, for a source image of
    /// the given size.
    pub fn new(name: String, cache: &Persistence, template: WorkspaceTemplate, source_width: u32, source_height: u32) -> (r: Self)
        requires
            cache.wf(),
        ensures
            r.output == name,
            r.format == stored_format(cache.view()),
            r.template == template,
            (r.width, r.height) == initial_size(template, source_width, source_height),
            r.dirty,
            !r.rendering,
            r.width_carrier@ == decimal(r.width as nat),
            r.height_carrier@ == decimal(r.height as nat),
    {
        let format = match cache.get("workspace", "image-format") {
            Some(PersistentValue::ImageFormat(f)) => *f,
            _ => ImageFormat::WebP,
        };
        let (width, height) = match template {
            WorkspaceTemplate::Portrait => (source_width, source_height),
            _ => (512u32, 512u32),
        };
        ExportSettings {
            output: name,
            format,
            template,
            width,
            height,
            dirty: true,
            rendering: false,
            width_carrier: u32_to_decimal(width),
            height_carrier: u32_to_decimal(height),
        }
    }

    /// Changes the name the image is written to, without the characters a
    /// file name cannot hold, warning when some were removed.
    pub fn set_output_name(&mut self, name: String, status: &mut StatusBar)
        ensures
            final(self).output@ == sanitized_file_name(name@),
            *final(self) == (ExportSettings { output: final(self).output, ..*old(self) }),
            exists|sep: char|
                (sep == '/' || sep == '\\') && status_after_name(
                    old(status).current(),
                    final(status).current(),
                    name@,
                    sep,
                    removed_characters_warning(),
                ),
    {
        let ghost before = status.current();
        let invalid = has_invalid_characters(name.as_str());
        let ghost sep = choose|sep: char| (sep == '/' || sep == '\\') && invalid == has_flagged_char(name@, sep);
        if invalid {
            status.warning("Removed invalid characters from the name");
        }
        assert(status_after_name(before, status.current(), name@, sep, removed_characters_warning()));
        self.output = sanitize_file_name(name);
    }

    /// Takes the text typed into the width field; returns whether the width
    /// changed, which marks the workspace for rendering.
    pub fn set_output_width(&mut self, typed: String) -> (changed: bool)
        ensures
            changed == parsed_u32(typed@) is Some,
            size_typed(old(self).width, old(self).width_carrier@, typed@, final(self).width, final(self).width_carrier@),
            final(self).dirty == (old(self).dirty || changed),
            *final(self) == (ExportSettings {
                width: final(self).width,
                width_carrier: final(self).width_carrier,
                dirty: final(self).dirty,
                ..*old(self)
            }),
    {
        match parse_u32(typed.as_str()) {
            Some(p) => {
                self.width = p;
                self.width_carrier = typed;
                self.dirty = true;
                true
            },
            None => {
                if typed.as_str().unicode_len() == 0 {
                    self.width_carrier = typed;
                }
                false
            },
        }
    }

    /// Takes the text typed into the height field; returns whether the
    /// height changed, which marks the workspace for rendering.
    pub fn set_output_height(&mut self, typed: String) -> (changed: bool)
        ensures
            changed == parsed_u32(typed@) is Some,
            size_typed(old(self).height, old(self).height_carrier@, typed@, final(self).height, final(self).height_carrier@),
            final(self).dirty == (old(self).dirty || changed),
            *final(self) == (ExportSettings {
                height: final(self).height,
                height_carrier: final(self).height_carrier,
                dirty: final(self).dirty,
                ..*old(self)
            }),
    {
        match parse_u32(typed.as_str()) {
            Some(p) => {
                self.height = p;
                self.height_carrier = typed;
                self.dirty = true;
                true
            },
            None => {
                if typed.as_str().unicode_len() == 0 {
                    self.height_carrier = typed;
                }
                false
            },
        }
    }

    /// Sets the format of the exported file, and stores it as the one new
    /// workspaces start with.
    pub fn set_format(&mut self, format: ImageFormat, cache: &mut Persistence)
        requires
            old(cache).wf(),
        ensures
            *final(self) == (ExportSettings { format, ..*old(self) }),
            final(cache).wf(),
            final(cache).view() == database_store(
                old(cache).view(),
                "workspace"@,
                "image-format"@,
                PersistentValue::ImageFormat(format),
            ),
    {
        self.format = format;
        cache.set("workspace", "image-format", PersistentValue::ImageFormat(format));
    }

    /// Decides whether a rendering job starts: not while one runs, and only
    /// when the workspace or one of its modifiers (`modifiers_dirty`) has
    /// changed since the last one.
    pub fn begin_render(&mut self, modifiers_dirty: bool) -> (start: bool)
        ensures
            start == (!old(self).rendering && (old(self).dirty || modifiers_dirty)),
            start ==> *final(self) == (ExportSettings { dirty: false, rendering: true, ..*old(self) }),
            !start ==> *final(self) == *old(self),
    {
        if self.rendering {
            return false;
        }
        if self.dirty || modifiers_dirty {
            self.dirty = false;
            self.rendering = true;
            true
        } else {
            false
        }
    }

    /// Records that the rendering job has finished.
    pub fn render_finished(&mut self)
        ensures
            *final(self) == (ExportSettings { rendering: false, ..*old(self) }),
    {
        self.rendering = false;
    }

    /// Tests whatever the workspace can save its result to drive: not while
    /// it renders, and its name must hold a letter or a digit.
    pub fn can_save(&self) -> (r: bool)
        ensures
            r == (!self.rendering && has_alphanumeric(self.output@)),
    {
        if self.rendering {
            return false;
        }
        let mut found = false;
        for c in it: self.output.as_str().chars()
            invariant
                it.seq() == self.output@,
                found <==> exists|i: int| 0 <= i < it.index() && unicode_alphanumeric(#[trigger] self.output@[i]),
        {
            assert(self.output@[it.index() as int] == c);
            if char_is_alphanumeric(c) {
                found = true;
            }
        }
        found
    }

    /// The name of the exported file, without folder or extension.
    pub fn export_file_name(&self, project_name: &str) -> (r: String)
        ensures
            r@ == export_name(self.output@, project_name@),
    {
        proof {
            reveal_strlit("$project_name");
            reveal_strlit("$");
            reveal_strlit("");
        }
        let named = replace_all(self.output.as_str(), "$project_name", project_name);
        assert(named@ == replaced(self.output@, "$project_name"@, project_name@));
        let r = replace_all(named.as_str(), "$", "");
        assert(""@ == Seq::<char>::empty());
        r
    }

    /// The path the image is exported to: the file named by the export name
    /// in `folder`, with the format's extension.
    pub fn export_path(&self, folder: &str, project_name: &str) -> (r: String)
        ensures
            r@ == path_with_extension(
                path_join(folder@, export_name(self.output@, project_name@)),
                format_name_of(self.format),
            ),
    {
        let name = self.export_file_name(project_name);
        let path = join_path(folder, name.as_str());
        proof {
            reveal_strlit("webp");
            reveal_strlit("jpeg");
            reveal_strlit("png");
            let e = format_name_of(self.format);
            assert(!e.contains('/') && !e.contains('\\')) by {
                if e.contains('/') || e.contains('\\') {
                    let k = choose|k: int| 0 <= k < e.len() && (e[k] == '/' || e[k] == '\\');
                    assert(e[k] != '/' && e[k] != '\\');
                }
            }
        }
        with_extension(path.as_str(), self.format.name())
    }
}


/// Dropping every `$` leaves a text without one unchanged.
proof fn lemma_no_dollar_kept(s: Seq<char>)
    requires
        !s.contains('$'),
    ensures
        replaced(s, "$"@, Seq::empty()) == s,
    decreases s.len(),
{
    reveal_strlit("$");
    if s.len() > 0 {
        assert(s.take(1) != "$"@) by {
            assert(s.take(1)[0] == s[0]);
            assert(s[0] != '$');
        }
        let rest = s.skip(1);
        assert(!rest.contains('$')) by {
            if rest.contains('$') {
                let k = choose|k: int| 0 <= k < rest.len() && rest[k] == '$';
                assert(s[k + 1] == '$');
            }
        }
        lemma_no_dollar_kept(rest);
        assert(seq![s[0]] + rest =~= s);
    }
}

/// A workspace named by a template's default convention exports under the
/// project's name followed by the template's suffix, when the project's
/// name holds no `$`.
pub proof fn lemma_default_export_name(project: Seq<char>, template: WorkspaceTemplate)
    requires
        !project.contains('$'),
    ensures
        export_name(crate::naming_convention::default_convention(template), project) == project
            + default_file_name_of(template),
{
    reveal_strlit("$project_name");
    reveal_strlit("-token");
    reveal_strlit("-portrait");
    reveal_strlit("");
    let pat = "$project_name"@;
    let sfx = default_file_name_of(template);
    let s = pat + sfx;
    assert(sfx.len() < pat.len());
    assert(s.take(pat.len() as int) =~= pat);
    assert(s.skip(pat.len() as int) =~= sfx);
    assert(replaced(sfx, pat, project) == sfx);
    assert(replaced(s, pat, project) == project + sfx);
    assert(!sfx.contains('$')) by {
        if sfx.contains('$') {
            let k = choose|k: int| 0 <= k < sfx.len() && sfx[k] == '$';
            assert(sfx[k] == '$');
        }
    }
    let whole = project + sfx;
    assert(!whole.contains('$')) by {
        if whole.contains('$') {
            let k = choose|k: int| 0 <= k < whole.len() && whole[k] == '$';
            if k < project.len() {
                assert(project[k] == '$');
            } else {
                assert(sfx[k - project.len()] == '$');
            }
        }
    }
    lemma_no_dollar_kept(whole);
}

} // verus!
