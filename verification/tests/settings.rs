use token_maker::cache::{Cache, CacheValue};
use token_maker::data::{ProgramData, ProgramDataMessage};
use token_maker::image::ImageFormat;
use token_maker::naming_convention::NamingConvention;
use token_maker::persistence::{with_id, Persistence, PersistentValue};
use token_maker::status_bar::StatusBar;
use token_maker::style::{Layout, Theme};
use token_maker::workspace::WorkspaceTemplate;

#[test]
fn persistence_reads_back_what_was_stored() {
    let mut p = Persistence::new();
    assert!(p.get("settings", "theme").is_none());
    p.set("settings", "theme", PersistentValue::Theme(Theme::Dark));
    p.set("settings", "output", PersistentValue::String("/tmp/out".to_string()));
    assert_eq!(p.get_copy("settings", "theme").map(|v| v.to_theme()), Some(Theme::Dark));
    assert_eq!(p.get("settings", "output").and_then(|v| v.check_string()), Some("/tmp/out"));
    p.set("settings", "theme", PersistentValue::Theme(Theme::Light));
    assert_eq!(p.get_copy("settings", "theme").map(|v| v.to_theme()), Some(Theme::Light));
    assert!(p.get("other", "theme").is_none());
    assert_eq!(p.entries().len(), 1);
}

#[test]
fn persistent_values_convert_with_defaults() {
    assert_eq!(PersistentValue::String("x".to_string()).to_theme(), Theme::Light);
    assert_eq!(PersistentValue::Layout(Layout::Stacking(2)).to_layout(), Layout::Stacking(2));
    assert_eq!(PersistentValue::Theme(Theme::Dark).to_layout(), Layout::Parallel);
    assert_eq!(PersistentValue::Theme(Theme::Dark).to_string(), "");
    assert_eq!(PersistentValue::ImageFormat(ImageFormat::Png).check_string(), None);
    assert_eq!(with_id(&"workspace", &WorkspaceTemplate::Token), "workspace-token");
}

#[test]
fn cache_reads_back_what_was_stored() {
    let mut c = Cache::new();
    c.set("a", "k".to_string(), CacheValue::String("v".to_string()));
    c.set("a", "l".to_string(), CacheValue::Layout(Layout::Parallel));
    assert_eq!(c.get("a", "k").and_then(|v| v.check_string()), Some("v"));
    assert_eq!(c.get_copy("a", "l").map(|v| v.to_layout()), Some(Layout::Parallel));
    assert!(c.get("b", "k").is_none());
    assert_eq!(CacheValue::Theme(Theme::Dark).to_theme(), Theme::Dark);
}

#[test]
fn naming_convention_defaults_and_reload() {
    let mut cache = Persistence::new();
    let mut n = NamingConvention::new(&cache);
    assert_eq!(n.get(&WorkspaceTemplate::Blank), "$project_name");
    assert_eq!(n.get(&WorkspaceTemplate::Token), "$project_name-token");
    assert_eq!(n.check(&WorkspaceTemplate::Portrait), "$project_name-portrait");
    assert_eq!(n.project_name(), "");
    n.set(WorkspaceTemplate::Token, "My Token!".to_string(), &mut cache);
    assert_eq!(n.get(&WorkspaceTemplate::Token), "my-token");
    assert_eq!(n.get(&WorkspaceTemplate::Portrait), "$project_name-portrait");
    let reloaded = NamingConvention::new(&cache);
    assert_eq!(reloaded.get(&WorkspaceTemplate::Token), "my-token");
    assert_eq!(reloaded.get(&WorkspaceTemplate::Blank), "$project_name");
}

#[test]
fn status_bar_shows_last_message() {
    let mut s = StatusBar::new();
    assert_eq!(s.text(), "");
    s.log("hi");
    assert_eq!(s.text(), "hi");
    s.warning("careful");
    assert_eq!(s.text(), "careful");
    s.error("bad");
    assert_eq!(s.text(), "bad");
}

fn program_data(cache: Persistence) -> ProgramData {
    ProgramData::new(cache, "/home/me".to_string(), vec!["/".to_string()], vec![])
}

#[test]
fn program_data_starts_from_stored_values() {
    let d = program_data(Persistence::new());
    assert_eq!(d.file.get_path(), "/home/me");
    assert_eq!(d.theme, Theme::Light);
    assert_eq!(d.layout, Layout::Parallel);
    assert_eq!(d.output, "");
    assert!(d.available_frames.is_empty());

    let mut cache = Persistence::new();
    cache.set("file-browser", "folder", PersistentValue::String("/pics".to_string()));
    cache.set("settings", "theme", PersistentValue::Theme(Theme::Dark));
    cache.set("settings", "layout", PersistentValue::Layout(Layout::Stacking(0)));
    cache.set("settings", "output", PersistentValue::String("/out".to_string()));
    let d = program_data(cache);
    assert_eq!(d.file.get_path(), "/pics");
    assert_eq!(d.theme, Theme::Dark);
    assert_eq!(d.layout, Layout::Stacking(0));
    assert_eq!(d.output, "/out");
}

#[test]
fn program_data_settings_are_stored() {
    let mut d = program_data(Persistence::new());
    d.update(ProgramDataMessage::SetTheme(Theme::Dark));
    assert_eq!(d.theme, Theme::Dark);
    assert_eq!(d.cache.get_copy("settings", "theme").map(|v| v.to_theme()), Some(Theme::Dark));
    d.update(ProgramDataMessage::SetLayout(Layout::Stacking(1)));
    assert_eq!(d.cache.get_copy("settings", "layout").map(|v| v.to_layout()), Some(Layout::Stacking(1)));
    d.update(ProgramDataMessage::SetNamingConvention(WorkspaceTemplate::Portrait, "Big Pic".to_string()));
    assert_eq!(d.naming.get(&WorkspaceTemplate::Portrait), "big-pic");
    assert_eq!(d.status.text(), "Removed invalid characters from the name");
}

#[test]
fn project_name_is_sanitised_with_warning() {
    let mut d = program_data(Persistence::new());
    d.update(ProgramDataMessage::SetProjectName("-_$".to_string()));
    assert_eq!(d.naming.project_name(), "-_$");
    assert_eq!(d.status.text(), "");
    d.update(ProgramDataMessage::SetProjectName("My Hero".to_string()));
    assert_eq!(d.naming.project_name(), "my-hero");
    assert_eq!(d.status.text(), "Removed invalid characters from the name");
}

#[test]
fn session_is_remembered() {
    let mut d = program_data(Persistence::new());
    d.output = "/exports".to_string();
    d.remember_session();
    assert_eq!(d.cache.get("file-browser", "folder").and_then(|v| v.check_string()), Some("/home/me"));
    assert_eq!(d.cache.get("settings", "output").and_then(|v| v.check_string()), Some("/exports"));
    let ProgramData { cache, .. } = d;
    let again = ProgramData::new(cache, String::new(), vec![], vec![]);
    assert_eq!(again.file.get_path(), "/home/me");
}
