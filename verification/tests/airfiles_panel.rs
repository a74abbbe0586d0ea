use airos::airfiles::fs::{EntryMeta, FileKind, FsEntry};
use airos::airfiles::panel::{PanelState, SortOrder};

fn file(name: &str, size: u64) -> FsEntry {
    FsEntry::new(name, name.to_string(), FileKind::File, EntryMeta::file(size))
}

fn dir(name: &str) -> FsEntry {
    FsEntry::new(name, name.to_string(), FileKind::Directory, EntryMeta::dir())
}

fn make_panel() -> PanelState {
    PanelState::new("/Users/vo")
}

fn names(p: &PanelState) -> Vec<String> {
    p.entries().iter().map(|e| e.name.clone()).collect()
}

#[test]
fn new_panel_has_empty_entries_and_no_selection() {
    let p = make_panel();
    assert!(p.entries().is_empty());
    assert!(p.selected_entry().is_none());
}

#[test]
fn load_entries_stores_and_sorts_name_asc() {
    let mut p = make_panel();
    p.load_entries(vec![file("zebra.txt", 1), file("apple.txt", 2)]);
    assert_eq!(p.entries()[0].name, "apple.txt");
    assert_eq!(p.entries()[1].name, "zebra.txt");
}

#[test]
fn load_entries_clears_selection() {
    let mut p = make_panel();
    p.load_entries(vec![file("a.txt", 1)]);
    p.select(0);
    p.load_entries(vec![file("b.txt", 2)]);
    assert!(p.selected_entry().is_none());
}

#[test]
fn select_valid_index_sets_selection() {
    let mut p = make_panel();
    p.load_entries(vec![file("a.txt", 1), file("b.txt", 2)]);
    p.select(1);
    assert_eq!(p.selected_entry().unwrap().name, "b.txt");
}

#[test]
fn select_out_of_bounds_is_noop() {
    let mut p = make_panel();
    p.load_entries(vec![file("a.txt", 1)]);
    p.select(99);
    assert!(p.selected_entry().is_none());
}

#[test]
fn select_none_clears_selection() {
    let mut p = make_panel();
    p.load_entries(vec![file("a.txt", 1)]);
    p.select(0);
    p.select_none();
    assert!(p.selected_entry().is_none());
}

#[test]
fn set_sort_name_desc_reverses_order() {
    let mut p = make_panel();
    p.load_entries(vec![file("apple.txt", 1), file("zebra.txt", 2)]);
    p.set_sort(SortOrder::NameDesc);
    assert_eq!(p.entries()[0].name, "zebra.txt");
    assert_eq!(p.entries()[1].name, "apple.txt");
}

#[test]
fn set_sort_size_asc_sorts_by_size() {
    let mut p = make_panel();
    p.load_entries(vec![file("big.bin", 9000), file("small.txt", 10)]);
    p.set_sort(SortOrder::SizeAsc);
    assert_eq!(p.entries()[0].name, "small.txt");
    assert_eq!(p.entries()[1].name, "big.bin");
}

#[test]
fn set_sort_clears_selection() {
    let mut p = make_panel();
    p.load_entries(vec![file("a.txt", 1)]);
    p.select(0);
    p.set_sort(SortOrder::NameDesc);
    assert!(p.selected_entry().is_none());
}

#[test]
fn navigate_into_pushes_breadcrumb_and_clears_entries() {
    let mut p = make_panel();
    p.load_entries(vec![file("a.txt", 1)]);
    p.select(0);
    p.navigate_into("Documents".into());
    assert!(p.entries().is_empty());
    assert!(p.selected_entry().is_none());
    assert_eq!(p.path.segments().last().unwrap(), "Documents");
}

#[test]
fn navigate_up_pops_breadcrumb_and_clears_entries() {
    let mut p = make_panel();
    p.navigate_into("Downloads".into());
    p.load_entries(vec![file("f.zip", 1000)]);
    p.navigate_up();
    assert!(p.entries().is_empty());
    assert_eq!(p.path.segments().last().unwrap(), "vo");
}

#[test]
fn navigate_up_at_root_does_not_panic() {
    let mut p = PanelState::new("/");
    p.navigate_up();
    assert_eq!(p.path.depth(), 1);
}

#[test]
fn size_sort_puts_directories_first_and_keeps_ties_stable() {
    let mut p = make_panel();
    p.load_entries(vec![file("b", 5), dir("d2"), file("a", 5), dir("d1"), file("c", 1)]);
    p.set_sort(SortOrder::SizeAsc);
    assert_eq!(names(&p), vec!["d1", "d2", "c", "a", "b"]);
    p.set_sort(SortOrder::SizeDesc);
    assert_eq!(names(&p), vec!["a", "b", "c", "d1", "d2"]);
}

#[test]
fn name_sort_compares_text_exactly() {
    let mut p = make_panel();
    p.load_entries(vec![file("b", 1), file("B", 1), file("ab", 1), file("a", 1)]);
    assert_eq!(names(&p), vec!["B", "a", "ab", "b"]);
    assert_eq!(p.sort, SortOrder::NameAsc);
}

#[test]
fn selected_index_follows_select() {
    let mut p = make_panel();
    p.load_entries(vec![file("a", 1), file("b", 1)]);
    assert_eq!(p.selected_index(), None);
    p.select(1);
    assert_eq!(p.selected_index(), Some(1));
}
