//! The application's decisions: which screen is shown, what each message
//! does to the program's state, and what the caller must carry out (reading
//! directories and images, downloading, saving), which comes back as
//! further calls.
use vstd::prelude::*;
use vstd::string::{StrSliceExecFns, StringExecFns};

use crate::data::{FrameImage, ProgramData, ProgramDataMessage};
use crate::frame_maker::{FrameMaker, FrameMakerAction, FrameMakerMessage};
use crate::image::{same_rgba, RgbaImage};

use crate::persistence::{database_lookup, database_store, PersistentValue};
use crate::status_bar::Status;
use crate::table::str_eq;
use crate::style::Layout;
use crate::widgets::file_browser::{
    accept_result, can_update, updated, BrowserOperation, BrowserStep, BrowsingResult, Target,
};
use crate::workspace::WorkspaceTemplate;

verus! {

/// Describes which mode the program should operate in
#[derive(Debug, Clone, Copy, PartialEq, Eq, Structural)]
pub enum Mode {
    /// This mode instructs the program to display workspace creation UI
    CreateWorkspace,
    /// Regular operation of the program, displays all active workspaces
    Workspace,
    /// Displays the file browser
    FileBrowser(BrowsingFor),
    /// Display UI for customizing how the program works or looks
    Settings,
    /// Display editor for making frames
    FrameMaker,
}

impl Default for Mode {
    fn default() -> (m: Mode)
        ensures
            m == Mode::CreateWorkspace,
    {
        Mode::CreateWorkspace
    }
}

/// What the file browser was opened for.
#[derive(Debug, Clone, Copy, PartialEq, Eq, Structural)]
pub enum BrowsingFor {
    Token,
    Output,
    Frame,
}

/// Messages of the application that the library decides on; the messages
/// of the workspaces themselves go to the workspaces.
#[derive(Debug)]
pub enum Message {
    /// Opens file browser to look for an image file
    LookForImage,
    /// Grabs URL address from clipboard and passes it further to download
    LookForImageFromUrl,
    /// Starts a download of an image
    DownloadImage(String),
    /// Result of the image download
    ImageDownloadResult(Result<RgbaImage, String>),
    /// Opens file browser to look for a folder to which workspaces will
    /// export their images, with whether the export folder set so far exists
    LookForOutputFolder(bool),
    /// Message related to the file browser, with whether the path it moves
    /// into is a directory and whether the selected entry is a file
    FileBrowser(BrowserOperation, bool, bool),
    /// Request to display settings
    DisplaySettings,
    /// Opens UI for adding a new workspace
    DisplayWorkspaceCreation,
    /// Request to display currently active workspaces.
    /// If none were created so far, it displays workspace creation screen
    DisplayWorkspaces,
    /// Request to display frame making editor
    LookForFrame,
    /// Request to close specified workspace
    WorkspaceClose(usize),
    /// Selects which workspace should be shown to the user in stacking layout
    WorkspaceSelect(usize),
    /// Request to create a new workspace and copy image used by other workspace as the base for it
    WorkspaceNewFromSource(usize),
    /// Sets default workspace template to use for new workspaces
    WorkspaceTemplate(WorkspaceTemplate),
    /// Message related to program settings
    SettingsMessage(ProgramDataMessage),
    /// Result of a task which loads in all the frames
    LoadedFrames(Vec<FrameImage>),
    /// Messages meant for frame maker editor
    FrameMakerMessage(FrameMakerMessage),
    /// Request to export frame in frame editor
    FrameMakerExport,
    /// Error message
    Error(String),
    /// Saves images from all workspaces
    Export,
}

/// What the caller is to carry out after a message.
pub enum Action {
    /// Nothing
    Nothing,
    /// Read the file browser's directory and hand the entries to its
    /// `set_listing`; a failure to read it is fatal.
    RefreshBrowser,
    /// Read the clipboard, and send `DownloadImage` with its text, or
    /// `ImageDownloadResult` with the error "Clipboard is empty".
    ReadClipboard,
    /// Download the image at this address and send `ImageDownloadResult`.
    Download(String),
    /// Add a workspace for this image, with this name.
    AddWorkspace(String, RgbaImage),
    /// Open the image at this path; if that succeeds add a workspace named
    /// after the file and call `main_screen`.
    OpenWorkspaceImage(String),
    /// Open the image at this path; if that succeeds hand it to
    /// `load_frame` with the file's name, else call `main_screen`.
    OpenFrameImage(String),
    /// Carry out this step of the file browser.
    Browser(BrowserStep),
    /// Add a workspace from the image and the output name of the workspace
    /// at this index.
    DuplicateWorkspace(usize),
    /// Export every workspace.
    ExportWorkspaces,
    /// Save this frame to the frames folder.
    SaveFrame(FrameImage),
    /// Carry out this action of the frame editor.
    FrameMaker(FrameMakerAction),
}

/// The id and key under which the default template is stored.
pub open spec fn token_maker_id() -> Seq<char> {
    "token-maker"@
}

pub open spec fn default_template_key() -> Seq<char> {
    "default-template"@
}

/// The template that new workspaces start with: the stored one, else the
/// default.
pub open spec fn stored_template(db: Map<Seq<char>, Map<Seq<char>, PersistentValue>>) -> WorkspaceTemplate {
    match database_lookup(db, token_maker_id(), default_template_key()) {
        Some(PersistentValue::WorkspaceTemplate(t)) => t,
        _ => WorkspaceTemplate::Blank,
    }
}

/// The screen shown when no other is asked for: the workspaces, or the
/// creation of one when there is none.
pub open spec fn main_mode(count: int) -> Mode {
    if count > 0 {
        Mode::Workspace
    } else {
        Mode::CreateWorkspace
    }
}

/// Main application, manages general aspects of the application; `W` is the
/// type of its workspaces.
pub struct TokenMaker<W> {
    pub operation: Mode,
    pub data: ProgramData,
    pub workspaces: Vec<W>,
    pub frame_maker: FrameMaker,
    pub new_workspace_template: WorkspaceTemplate,
    pub download_in_progress: bool,
}

/// The file browser's operation is one it can take, and when it accepts a
/// path the browser was opened for something.
pub open spec fn browser_message_ok<W>(t: TokenMaker<W>, message: Message) -> bool {
    message matches Message::FileBrowser(op, is_dir, is_file) ==> {
        &&& can_update(t.data.file, op, is_dir)
        &&& (op is Accept && accept_result(
            t.data.file.spec_selected(),
            t.data.file.spec_target(),
            t.data.file.spec_path(),
            is_file,
        ) is Some) ==> t.operation is FileBrowser
    }
}

/// What a message does to the application (`before` becomes `after`) and
/// what it asks the caller to do.
pub open spec fn stepped<W>(before: TokenMaker<W>, after: TokenMaker<W>, message: Message, action: Action) -> bool {
    let n = before.workspaces@.len() as int;
    match message {
        Message::LookForImage => {
            &&& after == TokenMaker { operation: Mode::FileBrowser(BrowsingFor::Token), data: after.data, ..before }
            &&& after.data == ProgramData { file: after.data.file, ..before.data }
            &&& after.data.file.spec_target() == Target::Filtered
            &&& after.data.file.spec_path() == before.data.file.spec_path()
            &&& after.data.file.spec_selected() == before.data.file.spec_selected()
            &&& after.data.file.spec_favorites() == before.data.file.spec_favorites()
            &&& action is RefreshBrowser
        },
        Message::LookForFrame => {
            &&& after == TokenMaker { operation: Mode::FileBrowser(BrowsingFor::Frame), data: after.data, ..before }
            &&& after.data == ProgramData { file: after.data.file, ..before.data }
            &&& after.data.file.spec_target() == Target::Filtered
            &&& after.data.file.spec_path() == before.data.file.spec_path()
            &&& after.data.file.spec_selected() == before.data.file.spec_selected()
            &&& after.data.file.spec_favorites() == before.data.file.spec_favorites()
            &&& action is RefreshBrowser
        },
        Message::LookForOutputFolder(exists) => {
            &&& after == TokenMaker { operation: Mode::FileBrowser(BrowsingFor::Output), data: after.data, ..before }
            &&& after.data == ProgramData { file: after.data.file, ..before.data }
            &&& after.data.file.spec_target() == Target::Directory
            &&& after.data.file.spec_path() == if exists {
                before.data.output@
            } else {
                before.data.file.spec_path()
            }
            &&& after.data.file.spec_selected() == before.data.file.spec_selected()
            &&& after.data.file.spec_favorites() == before.data.file.spec_favorites()
            &&& action is RefreshBrowser
        },
        Message::LookForImageFromUrl => after == before && action is ReadClipboard,
        Message::DownloadImage(url) => {
            &&& after == TokenMaker { download_in_progress: true, ..before }
            &&& action matches Action::Download(u) && u@ == url@
        },
        Message::ImageDownloadResult(res) => match res {
            Ok(img) => {
                &&& after == TokenMaker { download_in_progress: false, operation: Mode::Workspace, ..before }
                &&& action matches Action::AddWorkspace(name, i) && name@ == "image"@ && i == img
            },
            Err(e) => {
                &&& after == TokenMaker { download_in_progress: false, data: after.data, ..before }
                &&& after.data == ProgramData { status: after.data.status, ..before.data }
                &&& after.data.status.current() matches Status::Error(x) && x@ == e@
                &&& action is Nothing
            },
        },
        Message::FileBrowser(op, is_dir, is_file) => exists|step: BrowserStep|
            {
                &&& updated(before.data.file, after.data.file, op, is_file, step)
                &&& browsed(before, after, step, action)
            },
        Message::WorkspaceNewFromSource(index) => {
            &&& after == TokenMaker { operation: Mode::Workspace, ..before }
            &&& if index < n {
                action matches Action::DuplicateWorkspace(i) && i == index
            } else {
                action is Nothing
            }
        },
        Message::DisplayWorkspaceCreation => after == TokenMaker { operation: Mode::CreateWorkspace, ..before }
            && action is Nothing,
        Message::DisplayWorkspaces => after == TokenMaker { operation: main_mode(n), ..before } && action is Nothing,
        Message::DisplaySettings => after == TokenMaker { operation: Mode::Settings, ..before } && action is Nothing,
        Message::SettingsMessage(m) => {
            &&& after == TokenMaker { data: after.data, ..before }
            &&& crate::data::settings_updated(before.data, after.data, m)
            &&& action is Nothing
        },
        Message::WorkspaceClose(index) => {
            &&& action is Nothing
            &&& if index < n {
                &&& after.workspaces@ == before.workspaces@.remove(index as int)
                &&& if n == 1 {
                    &&& after == TokenMaker {
                        operation: Mode::CreateWorkspace,
                        workspaces: after.workspaces,
                        data: after.data,
                        ..before
                    }
                    &&& after.data == ProgramData { naming: after.data.naming, ..before.data }
                    &&& after.data.naming.project()@ == Seq::<char>::empty()
                    &&& after.data.naming.wf()
                    &&& forall|t: WorkspaceTemplate|
                        #[trigger] after.data.naming.convention_of(t) == before.data.naming.convention_of(t)
                } else {
                    after == TokenMaker { workspaces: after.workspaces, ..before }
                }
            } else {
                after == before
            }
        },
        Message::WorkspaceSelect(i) => {
            &&& after == TokenMaker { data: after.data, ..before }
            &&& after.data == ProgramData { layout: Layout::Stacking(i), ..before.data }
            &&& action is Nothing
        },
        Message::WorkspaceTemplate(t) => {
            &&& after == TokenMaker { new_workspace_template: t, data: after.data, ..before }
            &&& after.data == ProgramData { cache: after.data.cache, ..before.data }
            &&& after.data.cache.wf()
            &&& after.data.cache.view() == database_store(
                before.data.cache.view(),
                token_maker_id(),
                default_template_key(),
                PersistentValue::WorkspaceTemplate(t),
            )
            &&& action is Nothing
        },
        Message::LoadedFrames(frames) => {
            &&& after == TokenMaker { data: after.data, ..before }
            &&& after.data == ProgramData { available_frames: frames, ..before.data }
            &&& action is Nothing
        },
        Message::Error(e) => {
            &&& after == TokenMaker { data: after.data, ..before }
            &&& after.data == ProgramData { status: after.data.status, ..before.data }
            &&& after.data.status.current() matches Status::Error(x) && x@ == e@
            &&& action is Nothing
        },
        Message::Export => {
            &&& after == TokenMaker { data: after.data, ..before }
            &&& after.data == ProgramData { status: after.data.status, ..before.data }
            &&& after.data.status.current() matches Status::Log(x) && x@ == "Export successful"@
            &&& action is ExportWorkspaces
        },
        Message::FrameMakerMessage(m) => {
            &&& after == TokenMaker { data: after.data, frame_maker: after.frame_maker, ..before }
            &&& action matches Action::FrameMaker(a) && crate::frame_maker::frame_maker_updated(
                before.frame_maker,
                after.frame_maker,
                before.data,
                after.data,
                m,
                a,
            )
        },
        Message::FrameMakerExport => {
            &&& after == TokenMaker { operation: main_mode(n), data: after.data, ..before }
            &&& after.data == ProgramData {
                status: after.data.status,
                available_frames: after.data.available_frames,
                ..before.data
            }
            &&& after.data.status.current() matches Status::Log(x) && x@ == "Frame saved successfully"@
            &&& action matches Action::SaveFrame(f) && {
                &&& crate::frame_maker::frame_of(before.frame_maker, f)
                &&& after.data.available_frames@ == before.data.available_frames@.push(f)
            }
        },
    }
}

/// What the application does with the step the file browser took: an
/// accepted path is opened or taken as the export folder, a cancel leads
/// back to the main screen, and any other step is the caller's.
pub open spec fn browsed<W>(before: TokenMaker<W>, after: TokenMaker<W>, step: BrowserStep, action: Action) -> bool {
    let n = before.workspaces@.len() as int;
    match step {
        BrowserStep::Finished(BrowsingResult::Pending) => {
            &&& after == TokenMaker { data: after.data, ..before }
            &&& after.data == ProgramData { file: after.data.file, ..before.data }
            &&& action is Nothing
        },
        BrowserStep::Finished(BrowsingResult::Canceled) => {
            &&& after == TokenMaker { operation: main_mode(n), data: after.data, ..before }
            &&& after.data == ProgramData { file: after.data.file, ..before.data }
            &&& action is Nothing
        },
        BrowserStep::Finished(BrowsingResult::Done(path)) => match before.operation {
            Mode::FileBrowser(BrowsingFor::Token) => {
                &&& after == TokenMaker { data: after.data, ..before }
                &&& after.data == ProgramData { file: after.data.file, ..before.data }
                &&& action matches Action::OpenWorkspaceImage(p) && p@ == path@
            },
            Mode::FileBrowser(BrowsingFor::Frame) => {
                &&& after == TokenMaker { data: after.data, ..before }
                &&& after.data == ProgramData { file: after.data.file, ..before.data }
                &&& action matches Action::OpenFrameImage(p) && p@ == path@
            },
            _ => {
                &&& after == TokenMaker { operation: main_mode(n), data: after.data, ..before }
                &&& after.data == ProgramData { file: after.data.file, output: path, ..before.data }
                &&& action is Nothing
            },
        },
        _ => {
            &&& after == TokenMaker { data: after.data, ..before }
            &&& after.data == ProgramData { file: after.data.file, ..before.data }
            &&& action matches Action::Browser(s) && s == step
        },
    }
}


impl<W> TokenMaker<W> {
    /// Well-formedness: the program data is.
    pub open spec fn wf(&self) -> bool {
        self.data.wf()
    }

    /// The application as it starts, with the program data `data`: no
    /// workspace, the workspace creation screen, a fresh frame editor and
    /// the stored template for new workspaces.
    pub fn new(data: ProgramData) -> (r: Self)
        requires
            data.wf(),
        ensures
            r.wf(),
            r.operation == Mode::CreateWorkspace,
            r.data == data,
            r.workspaces@.len() == 0,
            r.frame_maker.spec_name() == "frame"@,
            r.frame_maker.spec_mask() is None,
            !r.frame_maker.spec_rendering(),
            r.new_workspace_template == stored_template(data.cache.view()),
            !r.download_in_progress,
    {
        let template = match data.cache.get_copy("token-maker", "default-template") {
            Some(PersistentValue::WorkspaceTemplate(t)) => t,
            _ => WorkspaceTemplate::default(),
        };
        TokenMaker {
            operation: Mode::CreateWorkspace,
            data,
            workspaces: Vec::new(),
            frame_maker: FrameMaker::new(),
            new_workspace_template: template,
            download_in_progress: false,
        }
    }

    /// Shows the workspaces, or the creation of one when there is none.
    pub fn main_screen(&mut self)
        ensures
            *final(self) == (TokenMaker { operation: main_mode(old(self).workspaces@.len() as int), ..*old(self) }),
    {
        if self.workspaces.len() > 0 {
            self.operation = Mode::Workspace;
        } else {
            self.operation = Mode::CreateWorkspace;
        }
    }

    /// The first half of adding a workspace for an image called `name`: the
    /// project takes that name when no workspace is open and it has none,
    /// and the output name of the new workspace is returned, which the
    /// naming convention of the current template gives.
    pub fn workspace_name(&mut self, name: String) -> (r: String)
        requires
            old(self).wf(),
        ensures
            final(self).wf(),
            r@ == old(self).data.naming.convention_of(old(self).new_workspace_template),
            *final(self) == (TokenMaker { data: final(self).data, ..*old(self) }),
            final(self).data == (ProgramData { naming: final(self).data.naming, ..old(self).data }),
            forall|t: WorkspaceTemplate|
                #[trigger] final(self).data.naming.convention_of(t) == old(self).data.naming.convention_of(t),
            final(self).data.naming.project() == (if old(self).workspaces@.len() == 0
                && old(self).data.naming.project()@.len() == 0 {
                name
            } else {
                old(self).data.naming.project()
            }),
    {
        if self.workspaces.len() == 0 && self.data.naming.project_name().unicode_len() == 0 {
            self.data.naming.set_project_name(name);
        }
        self.data.naming.get(&self.new_workspace_template)
    }

    /// The second half of adding a workspace: it is appended, and in the
    /// stacking layout it becomes the one shown.
    pub fn push_workspace(&mut self, workspace: W)
        ensures
            final(self).workspaces@ == old(self).workspaces@.push(workspace),
            *final(self) == (TokenMaker { workspaces: final(self).workspaces, data: final(self).data, ..*old(self) }),
            final(self).data == (ProgramData { layout: final(self).data.layout, ..old(self).data }),
            final(self).data.layout == (match old(self).data.layout {
                Layout::Stacking(_) => Layout::Stacking(old(self).workspaces@.len() as usize),
                Layout::Parallel => Layout::Parallel,
            }),
    {
        let i = self.workspaces.len();
        if let Layout::Stacking(_) = self.data.layout {
            self.data.layout = Layout::Stacking(i);
        }
        self.workspaces.push(workspace);
    }

    /// Hands an opened image to the frame editor, named `name`, and shows
    /// the editor.
    pub fn load_frame(&mut self, frame: RgbaImage, name: String)
        ensures
            *final(self) == (TokenMaker {
                operation: Mode::FrameMaker,
                frame_maker: final(self).frame_maker,
                ..*old(self)
            }),
            final(self).frame_maker.spec_name() == name@,
            final(self).frame_maker.spec_category() == "frame"@,
            final(self).frame_maker.spec_mask() is None,
            final(self).frame_maker.spec_frame() == frame,
            same_rgba(final(self).frame_maker.spec_preview(), frame),
            final(self).frame_maker.spec_rendering() == old(self).frame_maker.spec_rendering(),
    {
        self.frame_maker.load(frame);
        self.frame_maker.set_name(name);
        self.operation = Mode::FrameMaker;
    }

    /// Takes the decision for a message of the application.
    pub fn update(&mut self, message: Message) -> (action: Action)
        requires
            old(self).wf(),
            browser_message_ok(*old(self), message),
        ensures
            final(self).wf(),
            stepped(*old(self), *final(self), message, action),
    {
        match message {
            Message::LookForImage => {
                self.operation = Mode::FileBrowser(BrowsingFor::Token);
                self.data.file.set_filter();
                Action::RefreshBrowser
            },
            Message::LookForImageFromUrl => Action::ReadClipboard,
            Message::DownloadImage(url) => {
                self.download_in_progress = true;
                Action::Download(url)
            },
            Message::ImageDownloadResult(res) => {
                self.download_in_progress = false;
                match res {
                    Ok(img) => {
                        self.operation = Mode::Workspace;
                        Action::AddWorkspace(String::from_str("image"), img)
                    },
                    Err(e) => {
                        self.data.status.error(e.as_str());
                        Action::Nothing
                    },
                }
            },
            Message::LookForOutputFolder(exists) => {
                self.operation = Mode::FileBrowser(BrowsingFor::Output);
                self.data.file.set_target(Target::Directory);
                if exists {
                    let output = self.data.output.clone();
                    self.data.file.set_path(output);
                }
                Action::RefreshBrowser
            },
            Message::LookForFrame => {
                self.operation = Mode::FileBrowser(BrowsingFor::Frame);
                self.data.file.set_filter();
                Action::RefreshBrowser
            },
            Message::FileBrowser(op, is_dir, is_file) => {
                let step = self.data.file.update(op, is_dir, is_file);
                let ghost taken = step;
                let action = match step {
                    BrowserStep::Finished(BrowsingResult::Pending) => Action::Nothing,
                    BrowserStep::Finished(BrowsingResult::Canceled) => {
                        self.main_screen();
                        Action::Nothing
                    },
                    BrowserStep::Finished(BrowsingResult::Done(path)) => match self.operation {
                        Mode::FileBrowser(BrowsingFor::Token) => Action::OpenWorkspaceImage(path),
                        Mode::FileBrowser(BrowsingFor::Frame) => Action::OpenFrameImage(path),
                        _ => {
                            self.data.output = path;
                            self.main_screen();
                            Action::Nothing
                        },
                    },
                    other => Action::Browser(other),
                };
                assert(browsed(*old(self), *self, taken, action));
                action
            },
            Message::WorkspaceNewFromSource(index) => {
                let action = if index < self.workspaces.len() {
                    Action::DuplicateWorkspace(index)
                } else {
                    Action::Nothing
                };
                self.operation = Mode::Workspace;
                action
            },
            Message::DisplayWorkspaceCreation => {
                self.operation = Mode::CreateWorkspace;
                Action::Nothing
            },
            Message::DisplayWorkspaces => {
                self.main_screen();
                Action::Nothing
            },
            Message::DisplaySettings => {
                self.operation = Mode::Settings;
                Action::Nothing
            },
            Message::SettingsMessage(m) => {
                self.data.update(m);
                Action::Nothing
            },
            Message::WorkspaceClose(index) => {
                if index < self.workspaces.len() {
                    self.workspaces.remove(index);
                    if self.workspaces.len() == 0 {
                        self.operation = Mode::CreateWorkspace;
                        self.data.naming.set_project_name(String::new());
                    }
                }
                Action::Nothing
            },
            Message::WorkspaceSelect(i) => {
                self.data.layout = Layout::Stacking(i);
                Action::Nothing
            },
            Message::WorkspaceTemplate(t) => {
                self.new_workspace_template = t;
                self.data.cache.set("token-maker", "default-template", PersistentValue::WorkspaceTemplate(t));
                Action::Nothing
            },
            Message::LoadedFrames(frames) => {
                self.data.available_frames = frames;
                Action::Nothing
            },
            Message::Error(e) => {
                self.data.status.error(e.as_str());
                Action::Nothing
            },
            Message::Export => {
                self.data.status.log("Export successful");
                Action::ExportWorkspaces
            },
            Message::FrameMakerMessage(m) => {
                let a = self.frame_maker.update(m, &mut self.data);
                Action::FrameMaker(a)
            },
            Message::FrameMakerExport => {
                self.main_screen();
                let frame = self.frame_maker.create_frame();
                self.data.status.log("Frame saved successfully");
                let saved = frame.duplicate();
                self.data.available_frames.push(frame);
                Action::SaveFrame(saved)
            },
        }
    }
}


/// What the export check needs to know of a workspace: whether it can save
/// its result, and the name it exports to.
#[derive(Debug, Clone)]
pub struct ExportCheck {
    pub ready: bool,
    pub output_name: String,
}

/// Whether a workspace other than the one at `ix` exports to the same name.
pub open spec fn name_taken(ws: Seq<ExportCheck>, ix: int) -> bool {
    exists|io: int| 0 <= io < ws.len() && io != ix && #[trigger] ws[io].output_name@ == ws[ix].output_name@
}

/// The problem of the workspace at `ix`, if it has one.
pub open spec fn problem_at(ws: Seq<ExportCheck>, ix: int) -> Option<Seq<char>> {
    if !ws[ix].ready {
        Some("Waitning for workspaces"@)
    } else if name_taken(ws, ix) {
        Some("Can't set the same export name for multiple workspaces"@)
    } else {
        None
    }
}

/// The problem of the first workspace from `i` on that has one.
pub open spec fn first_problem(ws: Seq<ExportCheck>, i: int) -> Option<Seq<char>>
    decreases ws.len() - i,
{
    if i < 0 || i >= ws.len() {
        None
    } else {
        match problem_at(ws, i) {
            Some(e) => Some(e),
            None => first_problem(ws, i + 1),
        }
    }
}

/// Why the workspaces cannot be exported, if they cannot: no export
/// folder, no workspace, or the first workspace that is not ready or shares
/// its export name.
pub open spec fn export_problem(output_exists: bool, ws: Seq<ExportCheck>) -> Option<Seq<char>> {
    if !output_exists {
        Some("Export folder not set"@)
    } else if ws.len() == 0 {
        Some("There's nothing to export"@)
    } else {
        first_problem(ws, 0)
    }
}

/// Whether the export names of the workspaces are pairwise different.
pub open spec fn distinct_names(ws: Seq<ExportCheck>) -> bool {
    forall|i: int, j: int|
        0 <= i < ws.len() && 0 <= j < ws.len() && i != j ==> #[trigger] ws[i].output_name@ != #[trigger] ws[j].output_name@
}

/// Checks if it is safe to save images: the export folder must exist (the
/// caller finds out), there must be a workspace, and every workspace must
/// be ready and export to a name of its own.
pub fn can_save(output_exists: bool, workspaces: &Vec<ExportCheck>) -> (r: Result<(), String>)
    ensures
        match r {
            Ok(()) => export_problem(output_exists, workspaces@) is None,
            Err(e) => export_problem(output_exists, workspaces@) == Some(e@),
        },
{
    if !output_exists {
        return Err(String::from_str("Export folder not set"));
    }
    if workspaces.len() == 0 {
        return Err(String::from_str("There's nothing to export"));
    }
    let n = workspaces.len();
    let mut ix: usize = 0;
    while ix < n
        invariant
            output_exists,
            n == workspaces@.len(),
            n > 0,
            ix <= n,
            first_problem(workspaces@, 0) == first_problem(workspaces@, ix as int),
        decreases n - ix,
    {
        if !workspaces[ix].ready {
            assert(problem_at(workspaces@, ix as int) == Some("Waitning for workspaces"@));
            return Err(String::from_str("Waitning for workspaces"));
        }
        let mut io: usize = 0;
        let mut taken = false;
        while io < n
            invariant
                n == workspaces@.len(),
                ix < n,
                io <= n,
                taken <==> exists|k: int|
                    0 <= k < io && k != ix && #[trigger] workspaces@[k].output_name@
                        == workspaces@[ix as int].output_name@,
            decreases n - io,
        {
            if io != ix && str_eq(workspaces[io].output_name.as_str(), workspaces[ix].output_name.as_str()) {
                taken = true;
            }
            io = io + 1;
        }
        if taken {
            assert(name_taken(workspaces@, ix as int));
            return Err(String::from_str("Can't set the same export name for multiple workspaces"));
        }
        ix = ix + 1;
    }
    Ok(())
}

/// Export is allowed exactly when the export folder exists, there is a
/// workspace, every workspace is ready, and no two export to the same name.
pub proof fn lemma_export_allowed(output_exists: bool, ws: Seq<ExportCheck>)
    ensures
        export_problem(output_exists, ws) is None <==> (output_exists && ws.len() > 0 && (forall|i: int|
            0 <= i < ws.len() ==> #[trigger] ws[i].ready) && distinct_names(ws)),
{
    lemma_first_problem_none(ws, 0);
    let all_ready = forall|i: int| 0 <= i < ws.len() ==> #[trigger] ws[i].ready;
    if forall|k: int| 0 <= k < ws.len() ==> #[trigger] problem_at(ws, k) is None {
        assert forall|i: int| 0 <= i < ws.len() implies #[trigger] ws[i].ready by {
            assert(problem_at(ws, i) is None);
        }
        assert forall|a: int, b: int|
            0 <= a < ws.len() && 0 <= b < ws.len() && a != b implies #[trigger] ws[a].output_name@
            != #[trigger] ws[b].output_name@ by {
            assert(problem_at(ws, a) is None);
        }
    }
    if all_ready && distinct_names(ws) {
        assert forall|k: int| 0 <= k < ws.len() implies #[trigger] problem_at(ws, k) is None by {
            assert(ws[k].ready);
            if name_taken(ws, k) {
                let io = choose|io: int|
                    0 <= io < ws.len() && io != k && #[trigger] ws[io].output_name@ == ws[k].output_name@;
                assert(ws[io].output_name@ != ws[k].output_name@);
            }
        }
    }
}

/// No workspace from `i` on has a problem exactly when none of them has.
proof fn lemma_first_problem_none(ws: Seq<ExportCheck>, i: int)
    requires
        0 <= i,
    ensures
        first_problem(ws, i) is None <==> forall|k: int| i <= k < ws.len() ==> #[trigger] problem_at(ws, k) is None,
    decreases ws.len() - i,
{
    if i < ws.len() {
        lemma_first_problem_none(ws, i + 1);
        if first_problem(ws, i) is None {
            assert forall|k: int| i <= k < ws.len() implies #[trigger] problem_at(ws, k) is None by {
                if k > i {
                    assert(i + 1 <= k);
                }
            }
        }
    }
}


/// The message the search for frames ends with: the frames found, or an
/// error when there are none or the search failed (`None`).
pub fn frames_loaded(found: Option<Vec<FrameImage>>) -> (m: Message)
    ensures
        match found {
            Some(frames) => if frames@.len() > 0 {
                m matches Message::LoadedFrames(f) && f == frames
            } else {
                m matches Message::Error(e) && e@ == "Could not find any frames"@
            },
            None => m matches Message::Error(e) && e@ == "Failed to load frames"@,
        },
{
    match found {
        Some(frames) => {
            if frames.len() > 0 {
                Message::LoadedFrames(frames)
            } else {
                Message::Error(String::from_str("Could not find any frames"))
            }
        },
        None => Message::Error(String::from_str("Failed to load frames")),
    }
}

} // verus!
