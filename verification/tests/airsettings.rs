use airos::airsettings::appearance::AccentColor;
use airos::airsettings::category::{SettingsCategory, SidebarNav};
use airos::airsettings::system::{AboutInfo, NetworkStatus, UserEntry, UsersSettings};

#[test]
fn all_returns_six_categories() {
    assert_eq!(SettingsCategory::all().len(), 6);
}

#[test]
fn all_categories_have_non_empty_labels() {
    for cat in SettingsCategory::all() {
        assert!(!cat.label().is_empty(), "label for {:?} is empty", cat);
    }
}

#[test]
fn all_labels_are_distinct() {
    let labels: Vec<_> = SettingsCategory::all().iter().map(|c| c.label()).collect();
    let unique: std::collections::HashSet<_> = labels.iter().collect();
    assert_eq!(labels.len(), unique.len());
}

#[test]
fn sidebar_nav_default_active_is_display() {
    let nav = SidebarNav::new();
    assert_eq!(nav.active(), SettingsCategory::Display);
}

#[test]
fn set_active_changes_category() {
    let mut nav = SidebarNav::new();
    nav.set_active(SettingsCategory::Appearance);
    assert_eq!(nav.active(), SettingsCategory::Appearance);
}

#[test]
fn set_active_can_switch_multiple_times() {
    let mut nav = SidebarNav::new();
    nav.set_active(SettingsCategory::Sound);
    nav.set_active(SettingsCategory::About);
    assert_eq!(nav.active(), SettingsCategory::About);
}

#[test]
fn network_default_is_not_connected() {
    let n = NetworkStatus::new();
    assert!(!n.connected);
    assert!(n.ssid.is_none());
}

#[test]
fn network_set_connected_updates_state() {
    let mut n = NetworkStatus::new();
    n.set_connected(true, Some("HomeNet".into()));
    assert!(n.connected);
    assert_eq!(n.ssid.as_deref(), Some("HomeNet"));
}

#[test]
fn network_set_connected_false_clears_ssid() {
    let mut n = NetworkStatus::new();
    n.set_connected(true, Some("Net".into()));
    n.set_connected(false, None);
    assert!(!n.connected);
    assert!(n.ssid.is_none());
}

#[test]
fn users_new_has_one_user() {
    let u = UserEntry::new(1, "root", "Root User", true);
    let us = UsersSettings::new(u);
    assert_eq!(us.users().len(), 1);
}

#[test]
fn users_active_user_returns_initial() {
    let u = UserEntry::new(42, "vo", "Vojtech", false);
    let us = UsersSettings::new(u.clone());
    assert_eq!(us.active_user().unwrap().id, 42);
}

#[test]
fn users_add_user_increases_count() {
    let u = UserEntry::new(1, "root", "Root", true);
    let mut us = UsersSettings::new(u);
    us.add_user(UserEntry::new(2, "guest", "Guest", false));
    assert_eq!(us.users().len(), 2);
}

#[test]
fn users_remove_only_user_is_noop() {
    let u = UserEntry::new(1, "root", "Root", true);
    let mut us = UsersSettings::new(u);
    us.remove_user(1);
    assert_eq!(us.users().len(), 1);
}

#[test]
fn users_remove_non_active_user_works() {
    let u1 = UserEntry::new(1, "root", "Root", true);
    let u2 = UserEntry::new(2, "guest", "Guest", false);
    let mut us = UsersSettings::new(u1);
    us.add_user(u2);
    us.remove_user(2);
    assert_eq!(us.users().len(), 1);
    assert_eq!(us.active_user().unwrap().id, 1);
}

#[test]
fn users_set_active_user_changes_active() {
    let u1 = UserEntry::new(1, "root", "Root", true);
    let u2 = UserEntry::new(2, "guest", "Guest", false);
    let mut us = UsersSettings::new(u1);
    us.add_user(u2);
    us.set_active_user(2);
    assert_eq!(us.active_user().unwrap().id, 2);
}

#[test]
fn users_set_active_user_unknown_id_is_noop() {
    let u = UserEntry::new(1, "root", "Root", true);
    let mut us = UsersSettings::new(u);
    us.set_active_user(99);
    assert_eq!(us.active_user().unwrap().id, 1);
}

#[test]
fn about_default_has_non_empty_os_name() {
    let a = AboutInfo::default();
    assert!(!a.os_name.is_empty());
}

#[test]
fn about_new_stores_all_fields() {
    let a = AboutInfo::new("AirOS", "1.0.0", "build42", "myhost", "x86_64");
    assert_eq!(a.os_name, "AirOS");
    assert_eq!(a.version, "1.0.0");
    assert_eq!(a.arch, "x86_64");
}

#[test]
fn removing_active_user_activates_first_remaining() {
    let mut us = UsersSettings::new(UserEntry::new(1, "root", "Root", true));
    us.add_user(UserEntry::new(2, "guest", "Guest", false));
    us.add_user(UserEntry::new(3, "vo", "Vo", false));
    us.remove_user(1);
    assert_eq!(us.users().len(), 2);
    assert_eq!(us.active_user().unwrap().id, 2);
}

#[test]
fn about_default_values() {
    let a = AboutInfo::default();
    assert_eq!(
        (a.os_name.as_str(), a.version.as_str(), a.build.as_str(), a.hostname.as_str(), a.arch.as_str()),
        ("AirOS", "0.1.0", "dev", "airos", "aarch64")
    );
}

#[test]
fn network_interface_defaults_to_en0() {
    assert_eq!(NetworkStatus::new().interface, "en0");
}

#[test]
fn accent_hex_values_differ_for_blue_and_red() {
    assert_eq!(AccentColor::Blue.hex_rgb(), 0x007AFF);
    assert_eq!(AccentColor::Red.hex_rgb(), 0xFF3B30);
}

#[test]
fn menu_items_returns_three_items() {
    let items = airos::airsettings::menu::menu_items();
    assert_eq!(items.len(), 3);
}

#[test]
fn menu_items_contains_appearance() {
    let items = airos::airsettings::menu::menu_items();
    assert!(items.iter().any(|i| i.id == "appearance"));
}

#[test]
fn users_always_keep_an_active_user() {
    let mut us = UsersSettings::new(UserEntry::new(1, "root", "Root", true));
    us.add_user(UserEntry::new(2, "guest", "Guest", false));
    us.set_active_user(2);
    us.remove_user(2);
    us.remove_user(1);
    assert_eq!(us.users().len(), 1);
    assert_eq!(us.active_user().unwrap().id, 1);
}
