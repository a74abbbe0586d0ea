use airos::airfiles::sidebar::{SidebarSection, SidebarState};

#[test]
fn new_sidebar_is_empty() {
    let s = SidebarState::new();
    assert!(s.is_empty());
    assert_eq!(s.len(), 0);
}

#[test]
fn add_favorite_adds_item_in_favorites_section() {
    let mut s = SidebarState::new();
    s.add_favorite("/Users/vo".to_string(), "Home".into());
    assert_eq!(s.len(), 1);
    let favs = s.items_in_section(SidebarSection::Favorites);
    assert_eq!(favs.len(), 1);
    assert_eq!(favs[0].label, "Home");
}

#[test]
fn add_device_adds_item_in_devices_section() {
    let mut s = SidebarState::new();
    s.add_device("/Volumes/USB".to_string(), "USB Drive".into());
    let devs = s.items_in_section(SidebarSection::Devices);
    assert_eq!(devs.len(), 1);
    assert_eq!(devs[0].label, "USB Drive");
}

#[test]
fn add_tag_adds_item_with_no_path() {
    let mut s = SidebarState::new();
    s.add_tag("Work".into());
    let tags = s.items_in_section(SidebarSection::Tags);
    assert_eq!(tags.len(), 1);
    assert!(tags[0].path.is_none());
}

#[test]
fn items_in_section_filters_correctly() {
    let mut s = SidebarState::new();
    s.add_favorite("/Users/vo".to_string(), "Home".into());
    s.add_device("/Volumes/USB".to_string(), "USB".into());
    s.add_tag("Work".into());
    assert_eq!(s.items_in_section(SidebarSection::Favorites).len(), 1);
    assert_eq!(s.items_in_section(SidebarSection::Devices).len(), 1);
    assert_eq!(s.items_in_section(SidebarSection::Tags).len(), 1);
}

#[test]
fn set_active_marks_correct_item() {
    let mut s = SidebarState::new();
    s.add_favorite("/Users/vo".to_string(), "Home".into());
    s.add_device("/Volumes/USB".to_string(), "USB".into());
    s.set_active(1);
    assert_eq!(s.active_index(), Some(1));
}

#[test]
fn set_active_out_of_bounds_is_noop() {
    let mut s = SidebarState::new();
    s.add_favorite("/Users/vo".to_string(), "Home".into());
    s.set_active(99);
    assert_eq!(s.active_index(), None);
}

#[test]
fn active_path_returns_path_of_active_item() {
    let mut s = SidebarState::new();
    s.add_favorite("/Users/vo/Downloads".to_string(), "Downloads".into());
    s.set_active(0);
    assert_eq!(s.active_path(), Some("/Users/vo/Downloads"));
}

#[test]
fn active_path_is_none_for_tag() {
    let mut s = SidebarState::new();
    s.add_tag("Work".into());
    s.set_active(0);
    assert_eq!(s.active_path(), None);
}

#[test]
fn remove_favorite_removes_item_and_clears_active() {
    let mut s = SidebarState::new();
    s.add_favorite("/Users/vo".to_string(), "Home".into());
    s.set_active(0);
    s.remove_favorite("/Users/vo");
    assert!(s.is_empty());
    assert_eq!(s.active_index(), None);
}

#[test]
fn remove_nonexistent_favorite_is_noop() {
    let mut s = SidebarState::new();
    s.add_favorite("/Users/vo".to_string(), "Home".into());
    s.remove_favorite("/nonexistent");
    assert_eq!(s.len(), 1);
}

#[test]
fn remove_other_favorite_does_not_clear_active_on_different_item() {
    let mut s = SidebarState::new();
    s.add_favorite("/Users/vo".to_string(), "Home".into());
    s.add_favorite("/Users/vo/Downloads".to_string(), "Downloads".into());
    s.set_active(1);
    s.remove_favorite("/Users/vo");
    assert!(s.active_index().is_some());
}

#[test]
fn remove_favorite_matches_equal_paths_not_equal_text() {
    let mut s = SidebarState::new();
    s.add_favorite("/Users/vo/".to_string(), "Home".into());
    s.add_device("/Users/vo".to_string(), "Disk".into());
    s.remove_favorite("/Users//vo");
    assert_eq!(s.len(), 1);
    assert_eq!(s.items()[0].label, "Disk");
}

#[test]
fn remove_favorite_shifts_active_index_down() {
    let mut s = SidebarState::new();
    s.add_favorite("/a".to_string(), "A".into());
    s.add_tag("T".into());
    s.add_favorite("/b".to_string(), "B".into());
    s.set_active(2);
    s.remove_favorite("/a");
    assert_eq!(s.active_index(), Some(1));
    assert_eq!(s.active_path(), Some("/b"));
}

#[test]
fn remove_favorite_removes_only_the_first_match() {
    let mut s = SidebarState::new();
    s.add_favorite("/a".to_string(), "A1".into());
    s.add_favorite("/a".to_string(), "A2".into());
    s.add_tag("T".into());
    s.set_active(2);
    s.remove_favorite("/a");
    assert_eq!(s.len(), 2);
    assert_eq!(s.items()[0].label, "A2");
    assert_eq!(s.active_index(), Some(1));
    assert_eq!(s.items()[1].label, "T");
}
