use token_maker::file_browser::{
    Browser as SimpleBrowser, BrowserOperation as SimpleOperation, BrowserStep as SimpleStep,
    BrowsingResult as SimpleResult, PathEntry,
};
use token_maker::widgets::file_browser::{
    favorites_from_text, favorites_to_text, AfterRefresh, Browser, BrowserOperation, BrowserStep,
    BrowsingResult, DirEntry, Target,
};

fn entry(path: &str, is_file: bool, passes_filter: bool) -> DirEntry {
    DirEntry { path: path.to_string(), is_file, passes_filter }
}

fn browser() -> Browser {
    Browser::new("/home/me".to_string(), vec!["/".to_string()], vec!["/tmp".to_string()])
}

#[test]
fn listing_follows_target() {
    let entries = vec![entry("/d", false, false), entry("/a.png", true, true), entry("/b.txt", true, false)];
    let mut b = browser();
    b.set_listing(entries.clone());
    assert_eq!(b.listing(), &vec!["/d".to_string(), "/a.png".to_string(), "/b.txt".to_string()]);
    b.set_filter();
    b.set_listing(entries.clone());
    assert_eq!(b.listing(), &vec!["/d".to_string(), "/a.png".to_string()]);
    b.set_target(Target::Directory);
    b.set_listing(entries);
    assert_eq!(b.listing(), &vec!["/d".to_string()]);
    b.clear_listing();
    assert!(b.listing().is_empty());
}

#[test]
fn moving_asks_for_refresh_and_clears_selection() {
    let mut b = browser();
    b.update(BrowserOperation::Select(Some("/home/me/x.png".to_string())), false, true);
    assert_eq!(b.selected(), Some("/home/me/x.png"));
    let step = b.update(BrowserOperation::MoveUp, false, false);
    assert!(matches!(step, BrowserStep::Refresh(AfterRefresh::ClearSelection)));
    assert_eq!(b.get_path(), "/home");
    b.finish_refresh(vec![entry("/home/me", false, false)], AfterRefresh::ClearSelection);
    assert_eq!(b.selected(), None);
    let step = b.update(BrowserOperation::MoveInto("/home/me".to_string()), true, false);
    assert!(matches!(step, BrowserStep::Refresh(_)));
    assert_eq!(b.get_path(), "/home/me");
}

#[test]
fn moving_up_from_the_root_is_refused() {
    let mut b = Browser::new("/".to_string(), vec![], vec![]);
    assert!(b.try_update(BrowserOperation::MoveUp, false, false).is_none());
    assert!(b.try_update(BrowserOperation::MoveInto("/x".to_string()), false, false).is_none());
    assert!(b.try_update(BrowserOperation::CreateDirectory, false, false).is_none());
    assert_eq!(b.get_path(), "/");
}

#[test]
fn accepting_depends_on_target() {
    let mut b = browser();
    let r = b.update(BrowserOperation::Accept, false, false);
    assert!(matches!(r, BrowserStep::Finished(BrowsingResult::Pending)));
    b.update(BrowserOperation::Select(Some("/home/me/a.png".to_string())), false, true);
    match b.update(BrowserOperation::Accept, false, true) {
        BrowserStep::Finished(BrowsingResult::Done(p)) => assert_eq!(p, "/home/me/a.png"),
        _ => panic!("expected a path"),
    }
    assert!(matches!(b.update(BrowserOperation::Accept, false, false), BrowserStep::Finished(BrowsingResult::Pending)));
    b.set_target(Target::Directory);
    match b.update(BrowserOperation::Accept, false, false) {
        BrowserStep::Finished(BrowsingResult::Done(p)) => assert_eq!(p, "/home/me"),
        _ => panic!("expected the folder"),
    }
    assert!(matches!(b.update(BrowserOperation::Cancel, false, false), BrowserStep::Finished(BrowsingResult::Canceled)));
    assert_eq!(b.selected(), None);
}

#[test]
fn favorite_toggles() {
    let mut b = browser();
    assert!(matches!(b.update(BrowserOperation::Favorite, false, false), BrowserStep::SaveFavorites));
    assert_eq!(b.favorites(), &vec!["/tmp".to_string(), "/home/me".to_string()]);
    b.update(BrowserOperation::Favorite, false, false);
    assert_eq!(b.favorites(), &vec!["/tmp".to_string()]);
    assert_eq!(b.roots(), &vec!["/".to_string()]);
}

#[test]
fn new_directory_is_named_and_joined() {
    let mut b = browser();
    b.update(BrowserOperation::ToggleAddDirectory, false, false);
    assert_eq!(b.new_dir_name(), Some(""));
    b.update(BrowserOperation::UpdateDirectoryName("New Folder!".to_string()), false, false);
    assert_eq!(b.new_dir_name(), Some("new-folder"));
    match b.update(BrowserOperation::CreateDirectory, false, false) {
        BrowserStep::CreateDirectory(p) => assert_eq!(p, "/home/me/new-folder"),
        _ => panic!("expected a directory to create"),
    }
    b.finish_refresh(vec![], AfterRefresh::CloseDirectoryInput);
    assert_eq!(b.new_dir_name(), None);
    b.update(BrowserOperation::ToggleAddDirectory, false, false);
    b.update(BrowserOperation::ToggleAddDirectory, false, false);
    assert_eq!(b.new_dir_name(), None);
}

#[test]
fn favorites_file_round_trip() {
    let favs = vec!["/a".to_string(), "/b c".to_string()];
    let text = favorites_to_text(&favs);
    assert_eq!(text, "/a\n/b c\n");
    assert_eq!(favorites_from_text(&text), favs);
    assert_eq!(favorites_from_text("\n\n/x\n\n/y"), vec!["/x".to_string(), "/y".to_string()]);
    assert!(favorites_from_text("").is_empty());
}

fn path_entry(path: &str, is_file: bool) -> PathEntry {
    PathEntry { path: path.to_string(), is_file }
}

#[test]
fn simple_browser_filters_by_extension() {
    let mut b = SimpleBrowser::new("/pics".to_string());
    let entries = vec![path_entry("/pics/d", false), path_entry("/pics/a.png", true), path_entry("/pics/b.jpg", true), path_entry("/pics/c", true)];
    b.set_listing(entries.clone());
    assert_eq!(b.listing().len(), 4);
    b.set_filter("png");
    b.set_listing(entries.clone());
    assert_eq!(b.listing(), &vec!["/pics/d".to_string(), "/pics/a.png".to_string()]);
    b.set_filter("");
    b.set_listing(entries);
    assert_eq!(b.listing().len(), 4);
}

#[test]
fn simple_browser_operations() {
    let mut b = SimpleBrowser::new("/pics/sub".to_string());
    assert!(matches!(b.update(SimpleOperation::Select(Some("/pics/sub/a.png".to_string())), false, true), SimpleStep::Finished(SimpleResult::Pending)));
    match b.update(SimpleOperation::Accept, false, true) {
        SimpleStep::Finished(SimpleResult::Done(p)) => assert_eq!(p, "/pics/sub/a.png"),
        _ => panic!("expected a file"),
    }
    assert!(matches!(b.update(SimpleOperation::Accept, false, false), SimpleStep::Finished(SimpleResult::Pending)));
    assert!(matches!(b.update(SimpleOperation::MoveUp, false, false), SimpleStep::Refresh));
    assert_eq!(b.path(), "/pics");
    b.finish_refresh(vec![]);
    assert_eq!(b.selected(), None);
    assert!(matches!(b.update(SimpleOperation::Cancel, false, false), SimpleStep::Finished(SimpleResult::Canceled)));
    let mut root = SimpleBrowser::new("/".to_string());
    assert!(root.try_update(SimpleOperation::MoveUp, false, false).is_none());
}

#[test]
fn accept_decisions() {
    let mut b = browser();
    assert!(!b.accepts(true));
    assert!(!b.accept_offered(true, true));
    b.update(BrowserOperation::Select(Some("/home/me/a.png".to_string())), false, true);
    assert!(b.accepts(true));
    assert!(!b.accepts(false));
    b.set_filter();
    assert!(b.accepts(false));
    assert!(b.accept_offered(false, true));
    assert!(!b.accept_offered(true, false));
    b.set_target(Target::Directory);
    assert!(b.accepts(false) && b.accept_offered(false, false));
}

#[test]
fn favorite_folder_is_recognised() {
    let mut b = browser();
    assert!(!b.is_favorite());
    b.set_path("/tmp".to_string());
    assert!(b.is_favorite());
    b.update(BrowserOperation::Favorite, false, false);
    assert!(!b.is_favorite());
}
