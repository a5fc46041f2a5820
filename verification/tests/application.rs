use token_maker::data::{ProgramData, ProgramDataMessage};
use token_maker::frame_maker::{FrameMaker, FrameMakerAction, FrameMakerMessage};
use token_maker::image::{ImageFormat, RgbaImage};
use token_maker::persistence::{Persistence, PersistentValue};
use token_maker::status_bar::StatusBar;
use token_maker::style::Layout;
use token_maker::token_maker::{can_save, frames_loaded, Action, BrowsingFor, ExportCheck, Message, Mode, TokenMaker};
use token_maker::widgets::file_browser::{BrowserOperation, Target};
use token_maker::workspace::{ExportSettings, WorkspaceTemplate};

fn app() -> TokenMaker<u32> {
    let data = ProgramData::new(Persistence::new(), "/home/me".to_string(), vec![], vec![]);
    TokenMaker::new(data)
}

fn check(ready: bool, name: &str) -> ExportCheck {
    ExportCheck { ready, output_name: name.to_string() }
}

#[test]
fn export_check_reports_each_problem() {
    assert_eq!(can_save(false, &vec![check(true, "a")]), Err("Export folder not set".to_string()));
    assert_eq!(can_save(true, &vec![]), Err("There's nothing to export".to_string()));
    assert_eq!(can_save(true, &vec![check(true, "a"), check(false, "b")]), Err("Waitning for workspaces".to_string()));
    assert_eq!(
        can_save(true, &vec![check(true, "a"), check(true, "a")]),
        Err("Can't set the same export name for multiple workspaces".to_string())
    );
    assert_eq!(can_save(true, &vec![check(true, "a"), check(true, "b")]), Ok(()));
}

#[test]
fn app_starts_on_workspace_creation() {
    let t = app();
    assert_eq!(t.operation, Mode::CreateWorkspace);
    assert_eq!(t.new_workspace_template, WorkspaceTemplate::Blank);
    assert!(t.workspaces.is_empty());
    assert!(!t.download_in_progress);
}

#[test]
fn stored_template_is_used() {
    let mut cache = Persistence::new();
    cache.set("token-maker", "default-template", PersistentValue::WorkspaceTemplate(WorkspaceTemplate::Portrait));
    let t: TokenMaker<u32> = TokenMaker::new(ProgramData::new(cache, String::new(), vec![], vec![]));
    assert_eq!(t.new_workspace_template, WorkspaceTemplate::Portrait);
}

#[test]
fn looking_for_an_image_opens_the_filtered_browser() {
    let mut t = app();
    assert!(matches!(t.update(Message::LookForImage), Action::RefreshBrowser));
    assert_eq!(t.operation, Mode::FileBrowser(BrowsingFor::Token));
    assert_eq!(t.data.file.target(), Target::Filtered);
    t.update(Message::FileBrowser(BrowserOperation::Select(Some("/home/me/hero.png".to_string())), false, true));
    match t.update(Message::FileBrowser(BrowserOperation::Accept, false, true)) {
        Action::OpenWorkspaceImage(p) => assert_eq!(p, "/home/me/hero.png"),
        _ => panic!("expected the image to open"),
    }
    assert!(matches!(t.update(Message::FileBrowser(BrowserOperation::Cancel, false, false)), Action::Nothing));
    assert_eq!(t.operation, Mode::CreateWorkspace);
}

#[test]
fn output_folder_is_chosen_in_the_browser() {
    let mut t = app();
    t.data.output = "/exports".to_string();
    t.update(Message::LookForOutputFolder(true));
    assert_eq!(t.data.file.get_path(), "/exports");
    assert_eq!(t.data.file.target(), Target::Directory);
    t.data.file.set_path("/elsewhere".to_string());
    t.update(Message::FileBrowser(BrowserOperation::Accept, false, false));
    assert_eq!(t.data.output, "/elsewhere");
    assert_eq!(t.operation, Mode::CreateWorkspace);
}

#[test]
fn adding_workspaces_names_project_and_follows_layout() {
    let mut t = app();
    t.data.layout = Layout::Stacking(0);
    t.new_workspace_template = WorkspaceTemplate::Token;
    let name = t.workspace_name("hero".to_string());
    assert_eq!(name, "$project_name-token");
    assert_eq!(t.data.naming.project_name(), "hero");
    t.push_workspace(10);
    t.main_screen();
    assert_eq!(t.operation, Mode::Workspace);
    t.workspace_name("villain".to_string());
    assert_eq!(t.data.naming.project_name(), "hero");
    t.push_workspace(11);
    assert_eq!(t.data.layout, Layout::Stacking(1));
    assert_eq!(t.workspaces, vec![10, 11]);
}

#[test]
fn closing_the_last_workspace_resets_the_project() {
    let mut t = app();
    t.workspace_name("hero".to_string());
    t.push_workspace(1);
    t.push_workspace(2);
    t.update(Message::WorkspaceClose(5));
    assert_eq!(t.workspaces.len(), 2);
    t.update(Message::WorkspaceClose(0));
    assert_eq!(t.workspaces, vec![2]);
    assert_eq!(t.data.naming.project_name(), "hero");
    t.update(Message::WorkspaceClose(0));
    assert!(t.workspaces.is_empty());
    assert_eq!(t.operation, Mode::CreateWorkspace);
    assert_eq!(t.data.naming.project_name(), "");
}

#[test]
fn template_choice_is_stored() {
    let mut t = app();
    t.update(Message::WorkspaceTemplate(WorkspaceTemplate::Portrait));
    assert_eq!(t.new_workspace_template, WorkspaceTemplate::Portrait);
    assert!(matches!(
        t.data.cache.get_copy("token-maker", "default-template"),
        Some(PersistentValue::WorkspaceTemplate(WorkspaceTemplate::Portrait))
    ));
}

#[test]
fn downloads_and_errors() {
    let mut t = app();
    match t.update(Message::DownloadImage("http://x/y.png".to_string())) {
        Action::Download(u) => assert_eq!(u, "http://x/y.png"),
        _ => panic!("expected a download"),
    }
    assert!(t.download_in_progress);
    t.update(Message::ImageDownloadResult(Err("Error: Couldn't download image".to_string())));
    assert!(!t.download_in_progress);
    assert_eq!(t.data.status.text(), "Error: Couldn't download image");
    let img = RgbaImage::from_pixel(1, 1, [0, 0, 0, 255]);
    match t.update(Message::ImageDownloadResult(Ok(img))) {
        Action::AddWorkspace(name, _) => assert_eq!(name, "image"),
        _ => panic!("expected a workspace"),
    }
    assert_eq!(t.operation, Mode::Workspace);
    assert!(matches!(t.update(Message::Export), Action::ExportWorkspaces));
    assert_eq!(t.data.status.text(), "Export successful");
}

#[test]
fn screens_switch() {
    let mut t = app();
    t.update(Message::DisplaySettings);
    assert_eq!(t.operation, Mode::Settings);
    t.update(Message::SettingsMessage(ProgramDataMessage::SetLayout(Layout::Stacking(0))));
    assert_eq!(t.data.layout, Layout::Stacking(0));
    t.update(Message::WorkspaceSelect(3));
    assert_eq!(t.data.layout, Layout::Stacking(3));
    t.update(Message::DisplayWorkspaces);
    assert_eq!(t.operation, Mode::CreateWorkspace);
    assert!(matches!(t.update(Message::WorkspaceNewFromSource(0)), Action::Nothing));
    assert_eq!(t.operation, Mode::Workspace);
    t.update(Message::DisplayWorkspaceCreation);
    assert_eq!(t.operation, Mode::CreateWorkspace);
    assert_eq!(Mode::default(), Mode::CreateWorkspace);
}

#[test]
fn frame_editor_flow() {
    let mut t = app();
    let frame = RgbaImage::from_pixel(2, 1, [0, 0, 0, 0]);
    t.load_frame(frame, "Gold Ring".to_string());
    assert_eq!(t.operation, Mode::FrameMaker);
    assert_eq!(t.frame_maker.name(), "Gold Ring");
    assert!(!t.frame_maker.can_save());
    let (x, y) = match t.update(Message::FrameMakerMessage(FrameMakerMessage::SelectedPixel(0, 0))) {
        Action::FrameMaker(FrameMakerAction::CreateMask(img, p)) => {
            assert_eq!(img.width(), 2);
            p
        }
        _ => panic!("expected a mask job"),
    };
    assert_eq!((x, y), (0, 0));
    let (preview, mask) = token_maker::frame_maker::create_mask(RgbaImage::from_pixel(2, 1, [0, 0, 0, 0]), (x, y));
    t.update(Message::FrameMakerMessage(FrameMakerMessage::GeneratedMask(preview, mask)));
    assert!(t.frame_maker.can_save());
    t.update(Message::FrameMakerMessage(FrameMakerMessage::SetName("Gold Ring".to_string())));
    assert_eq!(t.frame_maker.name(), "gold-ring");
    assert_eq!(t.data.status.text(), "Removed invalid characters from frame name");
    t.update(Message::FrameMakerMessage(FrameMakerMessage::SetCategory("Metal".to_string())));
    assert_eq!(t.frame_maker.category(), "metal");
    assert_eq!(t.data.status.text(), "Removed invalid characters from frame category");
    match t.update(Message::FrameMakerExport) {
        Action::SaveFrame(f) => {
            assert_eq!(f.id(), "metal/gold-ring");
            assert_eq!(f.mask().unwrap().as_raw(), &vec![255, 255]);
        }
        _ => panic!("expected the frame to be saved"),
    }
    assert_eq!(t.data.available_frames.len(), 1);
    assert_eq!(t.data.status.text(), "Frame saved successfully");
    assert_eq!(t.operation, Mode::CreateWorkspace);
}

#[test]
fn new_frame_maker_is_blank() {
    let f = FrameMaker::new();
    assert_eq!(f.name(), "frame");
    assert_eq!(f.category(), "frame");
    assert_eq!(f.preview().as_raw(), &vec![0, 0, 0, 0]);
    assert!(!f.can_save());
}

#[test]
fn export_settings_name_and_size() {
    let cache = Persistence::new();
    let mut s = ExportSettings::new("$project_name-token".to_string(), &cache, WorkspaceTemplate::Token, 100, 200);
    assert_eq!((s.width, s.height), (512, 512));
    assert_eq!(s.width_carrier, "512");
    assert_eq!(s.format, ImageFormat::WebP);
    assert_eq!(s.export_file_name("hero"), "hero-token");
    assert!(s.can_save());
    let p = ExportSettings::new("x".to_string(), &cache, WorkspaceTemplate::Portrait, 100, 200);
    assert_eq!((p.width, p.height), (100, 200));
    assert_eq!(p.height_carrier, "200");

    assert!(!s.set_output_width("abc".to_string()));
    assert_eq!(s.width_carrier, "512");
    assert!(!s.set_output_width(String::new()));
    assert_eq!(s.width_carrier, "");
    assert_eq!(s.width, 512);
    assert!(s.set_output_height("64".to_string()));
    assert_eq!((s.height, s.height_carrier.as_str()), (64, "64"));

    let mut status = StatusBar::new();
    s.set_output_name("$$ Ab".to_string(), &mut status);
    assert_eq!(s.output, "$$-ab");
    assert_eq!(s.export_file_name("p"), "-ab");
    assert_eq!(status.text(), "Removed invalid characters from the name");
    s.set_output_name("$-_".to_string(), &mut status);
    assert!(!s.can_save());
}

#[test]
fn export_settings_format_and_render() {
    let mut cache = Persistence::new();
    let mut s = ExportSettings::new("a".to_string(), &cache, WorkspaceTemplate::Blank, 1, 1);
    s.set_format(ImageFormat::Png, &mut cache);
    let again = ExportSettings::new("b".to_string(), &cache, WorkspaceTemplate::Blank, 1, 1);
    assert_eq!(again.format, ImageFormat::Png);
    assert!(s.begin_render(false));
    assert!(s.rendering && !s.dirty);
    assert!(!s.begin_render(true));
    assert!(!s.can_save());
    s.render_finished();
    assert!(!s.begin_render(false));
    assert!(s.begin_render(true));
    let path = s.export_path("/out", "p");
    assert_eq!(path, "/out/a.png");
}

#[test]
fn frame_search_results_become_messages() {
    assert!(matches!(frames_loaded(None), Message::Error(e) if e == "Failed to load frames"));
    assert!(matches!(frames_loaded(Some(vec![])), Message::Error(e) if e == "Could not find any frames"));
    let f = token_maker::data::FrameImage::new("a".to_string(), "b".to_string(), RgbaImage::from_pixel(1, 1, [0; 4]), None);
    assert!(matches!(frames_loaded(Some(vec![f])), Message::LoadedFrames(v) if v.len() == 1));
}
