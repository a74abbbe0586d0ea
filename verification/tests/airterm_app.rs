use airos::airterm::app::{AirTermApp, ShellConfig};

fn make_app() -> AirTermApp {
    AirTermApp::new(24, 80)
}

#[test]
fn new_app_has_one_tab() {
    let app = make_app();
    assert_eq!(app.tab_count(), 1);
}

#[test]
fn new_app_active_tab_id_is_1() {
    let app = make_app();
    assert_eq!(app.active_tab_id(), 1);
}

#[test]
fn add_tab_increases_count() {
    let mut app = make_app();
    app.add_tab();
    assert_eq!(app.tab_count(), 2);
}

#[test]
fn add_tab_switches_to_new_tab() {
    let mut app = make_app();
    let new_id = app.add_tab();
    assert_eq!(app.active_tab_id(), new_id);
}

#[test]
fn close_tab_removes_it() {
    let mut app = make_app();
    let new_id = app.add_tab();
    app.close_tab(new_id);
    assert_eq!(app.tab_count(), 1);
}

#[test]
fn close_only_tab_is_noop() {
    let mut app = make_app();
    let id = app.active_tab_id();
    app.close_tab(id);
    assert_eq!(app.tab_count(), 1);
}

#[test]
fn switch_to_tab_changes_active() {
    let mut app = make_app();
    let first_id = app.active_tab_id();
    app.add_tab();
    app.switch_to_tab(first_id);
    assert_eq!(app.active_tab_id(), first_id);
}

#[test]
fn switch_to_nonexistent_tab_is_noop() {
    let mut app = make_app();
    app.switch_to_tab(99);
    assert_eq!(app.active_tab_id(), 1);
}

#[test]
fn default_shell_is_zsh() {
    let app = make_app();
    assert_eq!(app.config.shell, "zsh");
}

#[test]
fn menu_items_returns_five_items() {
    let items = AirTermApp::menu_items();
    assert_eq!(items.len(), 5);
}

#[test]
fn menu_items_contains_new_tab() {
    let items = AirTermApp::menu_items();
    assert!(items.iter().any(|i| i.id == "new_tab"));
}

#[test]
fn tab_ids_keep_increasing_after_close() {
    let mut app = make_app();
    let second = app.add_tab();
    assert_eq!(second, 2);
    app.close_tab(second);
    let third = app.add_tab();
    assert_eq!(third, 3);
}

#[test]
fn closing_active_last_tab_activates_new_last() {
    let mut app = make_app();
    app.add_tab();
    let third = app.add_tab();
    app.close_tab(third);
    assert_eq!(app.active_tab_id(), 2);
}

#[test]
fn closing_unknown_tab_changes_nothing() {
    let mut app = make_app();
    app.add_tab();
    app.close_tab(42);
    assert_eq!(app.tab_count(), 2);
    assert_eq!(app.active_tab_id(), 2);
}

#[test]
fn new_tab_uses_default_size() {
    let mut app = make_app();
    app.add_tab();
    let grid = &app.active_tab().active_pane().grid;
    assert_eq!((grid.rows(), grid.cols()), (24, 80));
}

#[test]
fn default_shell_config_has_no_args() {
    let c = ShellConfig::default();
    assert_eq!(c.shell, "zsh");
    assert!(c.args.is_empty());
}

#[test]
fn closing_tab_left_of_active_keeps_active_tab() {
    let mut app = make_app();
    app.add_tab();
    app.add_tab();
    app.switch_to_tab(2);
    app.close_tab(1);
    assert_eq!(app.active_tab_id(), 2);
    assert_eq!(app.tab_count(), 2);
}

#[test]
fn closing_active_middle_tab_activates_right_neighbour() {
    let mut app = make_app();
    app.add_tab();
    app.add_tab();
    app.switch_to_tab(2);
    app.close_tab(2);
    assert_eq!(app.active_tab_id(), 3);
}
