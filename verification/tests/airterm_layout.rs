use airos::airterm::pane::{Pane, PaneId};
use airos::airterm::split::{PaneNode, SplitDir};
use airos::airterm::tab::Tab;

#[test]
fn new_pane_has_correct_dimensions() {
    let p = Pane::new(PaneId(1), 24, 80);
    assert_eq!(p.grid.rows(), 24);
    assert_eq!(p.grid.cols(), 80);
}

#[test]
fn new_pane_has_empty_title() {
    let p = Pane::new(PaneId(1), 24, 80);
    assert!(p.title.is_empty());
}

#[test]
fn set_title_updates_title() {
    let mut p = Pane::new(PaneId(1), 24, 80);
    p.set_title("bash");
    assert_eq!(p.title, "bash");
}

#[test]
fn write_str_stores_characters_in_grid() {
    let mut p = Pane::new(PaneId(1), 24, 80);
    p.write_str("Hi");
    assert_eq!(p.grid.cell_at(0, 0).unwrap().ch, 'H');
    assert_eq!(p.grid.cell_at(0, 1).unwrap().ch, 'i');
}

#[test]
fn write_str_newline_moves_cursor() {
    let mut p = Pane::new(PaneId(1), 24, 80);
    p.write_str("A\nB");
    assert_eq!(p.grid.cell_at(0, 0).unwrap().ch, 'A');
    assert_eq!(p.grid.cell_at(1, 0).unwrap().ch, 'B');
}

#[test]
fn resize_changes_grid_size() {
    let mut p = Pane::new(PaneId(1), 24, 80);
    p.resize(30, 120);
    assert_eq!(p.grid.rows(), 30);
    assert_eq!(p.grid.cols(), 120);
}

#[test]
fn clear_resets_grid() {
    let mut p = Pane::new(PaneId(1), 5, 10);
    p.write_str("Hello");
    p.clear();
    assert_eq!(p.grid.cursor_row, 0);
    assert_eq!(p.grid.cursor_col, 0);
    assert_eq!(p.grid.cell_at(0, 0).unwrap().ch, ' ');
}

#[test]
fn write_str_handles_multibyte_characters() {
    let mut p = Pane::new(PaneId(1), 2, 4);
    p.write_str("čř");
    assert_eq!(p.grid.cell_at(0, 0).unwrap().ch, 'č');
    assert_eq!(p.grid.cell_at(0, 1).unwrap().ch, 'ř');
    assert_eq!(p.grid.cursor_col, 2);
}

#[test]
fn leaf_leaves_returns_self() {
    let node = PaneNode::Leaf(PaneId(1));
    assert_eq!(node.leaves(), vec![PaneId(1)]);
}

#[test]
fn split_leaves_returns_both_children() {
    let node = PaneNode::Split(
        SplitDir::Horizontal,
        Box::new(PaneNode::Leaf(PaneId(1))),
        Box::new(PaneNode::Leaf(PaneId(2))),
    );
    assert_eq!(node.leaves(), vec![PaneId(1), PaneId(2)]);
}

#[test]
fn contains_finds_existing_id() {
    let node = PaneNode::Leaf(PaneId(5));
    assert!(node.contains(PaneId(5)));
    assert!(!node.contains(PaneId(6)));
}

#[test]
fn split_leaf_replaces_target_with_split() {
    let mut node = PaneNode::Leaf(PaneId(1));
    let result = node.split_leaf(PaneId(1), SplitDir::Horizontal, PaneId(2));
    assert!(result);
    let leaves = node.leaves();
    assert_eq!(leaves.len(), 2);
    assert!(leaves.contains(&PaneId(1)));
    assert!(leaves.contains(&PaneId(2)));
}

#[test]
fn split_leaf_returns_false_for_unknown_id() {
    let mut node = PaneNode::Leaf(PaneId(1));
    let result = node.split_leaf(PaneId(99), SplitDir::Vertical, PaneId(2));
    assert!(!result);
}

#[test]
fn remove_leaf_removes_child_and_collapses_parent() {
    let mut node = PaneNode::Split(
        SplitDir::Horizontal,
        Box::new(PaneNode::Leaf(PaneId(1))),
        Box::new(PaneNode::Leaf(PaneId(2))),
    );
    let result = node.remove_leaf(PaneId(1));
    assert!(result);
    assert_eq!(node.leaves(), vec![PaneId(2)]);
}

#[test]
fn remove_leaf_returns_false_on_single_leaf() {
    let mut node = PaneNode::Leaf(PaneId(1));
    assert!(!node.remove_leaf(PaneId(1)));
}

#[test]
fn nested_split_leaves_returns_all_ids() {
    let node = PaneNode::Split(
        SplitDir::Horizontal,
        Box::new(PaneNode::Split(
            SplitDir::Vertical,
            Box::new(PaneNode::Leaf(PaneId(1))),
            Box::new(PaneNode::Leaf(PaneId(2))),
        )),
        Box::new(PaneNode::Leaf(PaneId(3))),
    );
    let leaves = node.leaves();
    assert_eq!(leaves.len(), 3);
    assert_eq!(leaves, vec![PaneId(1), PaneId(2), PaneId(3)]);
}

#[test]
fn split_leaf_puts_new_pane_right_after_target() {
    let mut node = PaneNode::Split(
        SplitDir::Horizontal,
        Box::new(PaneNode::Leaf(PaneId(1))),
        Box::new(PaneNode::Leaf(PaneId(2))),
    );
    assert!(node.split_leaf(PaneId(1), SplitDir::Vertical, PaneId(7)));
    assert_eq!(node.leaves(), vec![PaneId(1), PaneId(7), PaneId(2)]);
}

#[test]
fn remove_leaf_in_nested_tree_keeps_order_of_others() {
    let mut node = PaneNode::Split(
        SplitDir::Horizontal,
        Box::new(PaneNode::Split(
            SplitDir::Vertical,
            Box::new(PaneNode::Leaf(PaneId(1))),
            Box::new(PaneNode::Leaf(PaneId(2))),
        )),
        Box::new(PaneNode::Leaf(PaneId(3))),
    );
    assert!(node.remove_leaf(PaneId(2)));
    assert_eq!(node.leaves(), vec![PaneId(1), PaneId(3)]);
    assert!(!node.remove_leaf(PaneId(9)));
    assert_eq!(node.leaves(), vec![PaneId(1), PaneId(3)]);
}

fn make_tab() -> Tab {
    Tab::new(1, 24, 80)
}

#[test]
fn new_tab_has_one_pane() {
    let t = make_tab();
    assert_eq!(t.pane_count(), 1);
}

#[test]
fn new_tab_active_pane_is_first_pane() {
    let t = make_tab();
    assert_eq!(t.active_pane_id(), PaneId(1));
}

#[test]
fn split_active_adds_second_pane() {
    let mut t = make_tab();
    t.split_active(SplitDir::Horizontal, 24, 40);
    assert_eq!(t.pane_count(), 2);
}

#[test]
fn split_active_makes_new_pane_active() {
    let mut t = make_tab();
    t.split_active(SplitDir::Horizontal, 24, 40);
    assert_eq!(t.active_pane_id(), PaneId(2));
}

#[test]
fn pane_ids_reflects_layout_order() {
    let mut t = make_tab();
    t.split_active(SplitDir::Horizontal, 24, 40);
    let ids = t.pane_ids();
    assert_eq!(ids.len(), 2);
    assert!(ids.contains(&PaneId(1)));
    assert!(ids.contains(&PaneId(2)));
}

#[test]
fn close_pane_reduces_count() {
    let mut t = make_tab();
    t.split_active(SplitDir::Horizontal, 24, 40);
    let second = t.active_pane_id();
    t.close_pane(second);
    assert_eq!(t.pane_count(), 1);
}

#[test]
fn close_active_pane_switches_to_another() {
    let mut t = make_tab();
    t.split_active(SplitDir::Horizontal, 24, 40);
    let second = t.active_pane_id();
    t.close_pane(second);
    assert_ne!(t.active_pane_id(), second);
    assert!(t.pane(t.active_pane_id()).is_some());
}

#[test]
fn close_only_pane_is_noop() {
    let mut t = make_tab();
    let only = t.active_pane_id();
    t.close_pane(only);
    assert_eq!(t.pane_count(), 1);
}

#[test]
fn set_active_pane_changes_active() {
    let mut t = make_tab();
    t.split_active(SplitDir::Vertical, 12, 80);
    let first = PaneId(1);
    t.set_active_pane(first);
    assert_eq!(t.active_pane_id(), first);
}

#[test]
fn set_active_pane_unknown_id_is_noop() {
    let mut t = make_tab();
    t.set_active_pane(PaneId(99));
    assert_eq!(t.active_pane_id(), PaneId(1));
}

#[test]
fn new_tab_title_is_empty() {
    let t = make_tab();
    assert!(t.title.is_empty());
    assert_eq!(t.id, 1);
}

#[test]
fn split_twice_orders_panes_by_layout() {
    let mut t = make_tab();
    t.split_active(SplitDir::Horizontal, 24, 40);
    t.set_active_pane(PaneId(1));
    t.split_active(SplitDir::Vertical, 12, 80);
    assert_eq!(t.pane_ids(), vec![PaneId(1), PaneId(3), PaneId(2)]);
    assert_eq!(t.pane(PaneId(3)).unwrap().grid.rows(), 12);
}

#[test]
fn changing_active_pane_id_field_keeps_it_stored_under_its_identifier() {
    let mut t = make_tab();
    t.active_pane_mut().id = PaneId(42);
    assert_eq!(t.active_pane_id(), PaneId(1));
    assert!(t.pane(PaneId(1)).is_some());
    assert!(t.pane(PaneId(42)).is_none());
    assert_eq!(t.active_pane().id, PaneId(42));
}
