use airos::airterm::cell::{Cell, CellStyle, TermColor};
use airos::airterm::grid::TermGrid;

#[test]
fn blank_cell_is_space_with_default_colors() {
    let c = Cell::blank();
    assert_eq!(c.ch, ' ');
    assert_eq!(c.fg, TermColor::Default);
    assert_eq!(c.bg, TermColor::Default);
    assert!(!c.style.bold);
}

#[test]
fn new_cell_stores_char() {
    let c = Cell::new('A');
    assert_eq!(c.ch, 'A');
}

#[test]
fn with_style_sets_bold() {
    let c = Cell::new('X').with_style(CellStyle::bold());
    assert!(c.style.bold);
}

#[test]
fn with_fg_sets_color() {
    let c = Cell::new('Z').with_fg(TermColor::Basic(196));
    assert_eq!(c.fg, TermColor::Basic(196));
}

#[test]
fn term_color_rgb_equality() {
    assert_eq!(TermColor::Rgb(255, 0, 128), TermColor::Rgb(255, 0, 128));
    assert_ne!(TermColor::Rgb(255, 0, 0), TermColor::Rgb(0, 255, 0));
}

#[test]
fn cell_style_default_is_plain() {
    let s = CellStyle::default();
    assert!(!s.bold);
    assert!(!s.italic);
    assert!(!s.underline);
}

#[test]
fn new_grid_is_filled_with_blanks() {
    let g = TermGrid::new(3, 10);
    for row in 0..3 {
        for col in 0..10 {
            assert_eq!(g.cell_at(row, col).unwrap().ch, ' ');
        }
    }
}

#[test]
fn cell_at_out_of_bounds_returns_none() {
    let g = TermGrid::new(2, 5);
    assert!(g.cell_at(2, 0).is_none());
    assert!(g.cell_at(0, 5).is_none());
}

#[test]
fn write_char_stores_char_and_advances_cursor() {
    let mut g = TermGrid::new(5, 10);
    g.write_char('A');
    assert_eq!(g.cell_at(0, 0).unwrap().ch, 'A');
    assert_eq!(g.cursor_col, 1);
    assert_eq!(g.cursor_row, 0);
}

#[test]
fn write_char_wraps_at_end_of_row() {
    let mut g = TermGrid::new(5, 3);
    g.write_char('A');
    g.write_char('B');
    g.write_char('C');
    assert_eq!(g.cursor_col, 0);
    assert_eq!(g.cursor_row, 1);
}

#[test]
fn newline_moves_cursor_to_next_row() {
    let mut g = TermGrid::new(5, 10);
    g.write_char('X');
    g.newline();
    assert_eq!(g.cursor_row, 1);
    assert_eq!(g.cursor_col, 0);
}

#[test]
fn scroll_up_moves_content_and_blanks_last_row() {
    let mut g = TermGrid::new(2, 3);
    g.write_char('A');
    g.write_char('B');
    g.write_char('C');
    g.scroll_up();
    assert_eq!(g.cell_at(0, 0).unwrap().ch, ' ');
    assert_eq!(g.cell_at(1, 0).unwrap().ch, ' ');
}

#[test]
fn clear_resets_all_cells_and_cursor() {
    let mut g = TermGrid::new(3, 5);
    g.write_char('Z');
    g.newline();
    g.clear();
    assert_eq!(g.cursor_row, 0);
    assert_eq!(g.cursor_col, 0);
    assert_eq!(g.cell_at(0, 0).unwrap().ch, ' ');
}

#[test]
fn resize_changes_dimensions_and_clears() {
    let mut g = TermGrid::new(3, 5);
    g.write_char('Q');
    g.resize(10, 20);
    assert_eq!(g.rows(), 10);
    assert_eq!(g.cols(), 20);
    assert_eq!(g.cell_at(0, 0).unwrap().ch, ' ');
}

#[test]
fn write_char_on_last_row_triggers_scroll() {
    let mut g = TermGrid::new(2, 2);
    g.write_char('A');
    g.write_char('B');
    g.write_char('C');
    g.write_char('D');
    assert_eq!(g.cursor_row, 1);
}

#[test]
fn scroll_up_moves_second_row_to_first() {
    let mut g = TermGrid::new(3, 2);
    g.newline();
    g.write_char('x');
    g.scroll_up();
    assert_eq!(g.cell_at(0, 0).unwrap().ch, 'x');
    assert_eq!(g.cell_at(1, 0).unwrap().ch, ' ');
    assert_eq!(g.cell_at(2, 0).unwrap().ch, ' ');
}

#[test]
fn writing_past_last_cell_keeps_previous_row_visible() {
    let mut g = TermGrid::new(2, 2);
    for ch in ['A', 'B', 'C', 'D'] {
        g.write_char(ch);
    }
    assert_eq!(g.cell_at(0, 0).unwrap().ch, 'C');
    assert_eq!(g.cell_at(0, 1).unwrap().ch, 'D');
    assert_eq!(g.cell_at(1, 0).unwrap().ch, ' ');
    assert_eq!((g.cursor_row, g.cursor_col), (1, 0));
}

#[test]
fn newline_on_last_row_scrolls() {
    let mut g = TermGrid::new(2, 3);
    g.write_char('a');
    g.newline();
    g.write_char('b');
    g.newline();
    assert_eq!(g.cell_at(0, 0).unwrap().ch, 'b');
    assert_eq!((g.cursor_row, g.cursor_col), (1, 0));
}

#[test]
fn write_char_with_cursor_below_grid_is_noop() {
    let mut g = TermGrid::new(2, 3);
    g.cursor_row = 5;
    g.write_char('x');
    assert_eq!((g.cursor_row, g.cursor_col), (5, 0));
    for r in 0..2 {
        for c in 0..3 {
            assert_eq!(g.cell_at(r, c).unwrap().ch, ' ');
        }
    }
}

#[test]
fn write_char_with_cursor_past_row_end_writes_row_major_and_wraps() {
    let mut g = TermGrid::new(2, 3);
    g.cursor_col = 4;
    g.write_char('x');
    assert_eq!(g.cell_at(1, 1).unwrap().ch, 'x');
    assert_eq!((g.cursor_row, g.cursor_col), (1, 0));
}

#[test]
fn resize_clamps_cursor_into_new_grid() {
    let mut g = TermGrid::new(10, 10);
    g.cursor_row = 8;
    g.cursor_col = 9;
    g.resize(4, 20);
    assert_eq!((g.cursor_row, g.cursor_col), (3, 9));
}
