use airos::airfiles::app::{ActivePanel, AirFilesApp};
use airos::airfiles::fs::{EntryMeta, FileKind, FsEntry};

fn home() -> String {
    "/Users/vo".to_string()
}

fn make_app() -> AirFilesApp {
    AirFilesApp::new(home())
}

fn file(name: &str) -> FsEntry {
    FsEntry::new(name, name.to_string(), FileKind::File, EntryMeta::file(1))
}

#[test]
fn new_app_starts_in_single_panel_mode() {
    let app = make_app();
    assert!(!app.dual_panel);
}

#[test]
fn new_app_active_panel_is_left() {
    let app = make_app();
    assert_eq!(app.active_panel, ActivePanel::Left);
}

#[test]
fn toggle_dual_panel_enables_dual_mode() {
    let mut app = make_app();
    app.toggle_dual_panel();
    assert!(app.dual_panel);
}

#[test]
fn toggle_dual_panel_twice_returns_to_single() {
    let mut app = make_app();
    app.toggle_dual_panel();
    app.toggle_dual_panel();
    assert!(!app.dual_panel);
}

#[test]
fn switch_panel_changes_active_to_right() {
    let mut app = make_app();
    app.switch_panel();
    assert_eq!(app.active_panel, ActivePanel::Right);
}

#[test]
fn switch_panel_twice_returns_to_left() {
    let mut app = make_app();
    app.switch_panel();
    app.switch_panel();
    assert_eq!(app.active_panel, ActivePanel::Left);
}

#[test]
fn active_panel_mut_modifies_left_by_default() {
    let mut app = make_app();
    app.active_panel_mut().load_entries(vec![file("readme.txt")]);
    assert_eq!(app.left.entries().len(), 1);
    assert!(app.right.entries().is_empty());
}

#[test]
fn active_panel_mut_modifies_right_after_switch() {
    let mut app = make_app();
    app.switch_panel();
    app.active_panel_mut().load_entries(vec![file("readme.txt")]);
    assert!(app.left.entries().is_empty());
    assert_eq!(app.right.entries().len(), 1);
}

#[test]
fn navigate_sidebar_path_resets_active_panel() {
    let mut app = make_app();
    app.active_panel_mut().navigate_into("Documents".into());
    app.navigate_sidebar_path("/Volumes/USB");
    assert_eq!(app.active_panel().path.to_path_buf(), "/Volumes/USB".to_string());
}

#[test]
fn menu_items_returns_four_items() {
    let items = AirFilesApp::menu_items();
    assert_eq!(items.len(), 4);
}

#[test]
fn menu_items_contains_new_folder() {
    let items = AirFilesApp::menu_items();
    assert!(items.iter().any(|i| i.id == "new_folder"));
}

#[test]
fn both_panels_start_at_home() {
    let app = make_app();
    assert_eq!(app.left.path.to_path_buf(), home());
    assert_eq!(app.right.path.to_path_buf(), home());
}

#[test]
fn navigate_sidebar_path_leaves_other_panel() {
    let mut app = make_app();
    app.switch_panel();
    app.navigate_sidebar_path("/tmp");
    assert_eq!(app.right.path.to_path_buf(), "/tmp".to_string());
    assert_eq!(app.left.path.to_path_buf(), home());
}
