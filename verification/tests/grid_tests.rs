use claudio::cell::{Cell, Color, Style};
use claudio::inline_term::{InlineSurface, InlineTerminal};
use claudio::ops::TermOp;

fn plain() -> Style {
    Style { fg: Color::Default, bold: false, italic: false }
}

fn red() -> Style {
    Style { fg: Color::Rgb(255, 0, 0), bold: false, italic: false }
}

fn cell(ch: char) -> Cell {
    Cell { ch, style: plain() }
}

#[test]
fn new_surface_is_blank() {
    let s = InlineSurface::new(4, 2);
    assert_eq!(s.dimensions(), (4, 2));
    for row in &s.lines {
        for c in row {
            assert_eq!(*c, Cell::blank());
        }
    }
    assert_eq!(s.lines.len(), 2);
    assert_eq!(s.lines[0].len(), 4);
}

#[test]
fn diff_of_fresh_surface_is_empty() {
    let s = InlineSurface::new(5, 2);
    assert!(s.get_line_changes(0).is_empty());
    assert!(s.get_line_changes(1).is_empty());
}

#[test]
fn diff_out_of_range_row_is_empty() {
    let mut s = InlineSurface::new(5, 1);
    s.set_cell(0, 0, cell('A'));
    assert!(s.get_line_changes(7).is_empty());
}

#[test]
fn single_change_scenario() {
    // Grid width 5, height 1: set 'A', commit, set 'B'; the diff must be
    // exactly move-to-column-0, set the default style, emit "B".
    let mut s = InlineSurface::new(5, 1);
    s.set_cell(0, 0, cell('A'));
    s.commit();
    s.set_cell(0, 0, cell('B'));
    let ops = s.get_line_changes(0);
    assert_eq!(
        ops,
        vec![
            TermOp::Move { col: 0, rows: 0 },
            TermOp::SetStyle(plain()),
            TermOp::Text(vec!['B']),
        ]
    );
}

#[test]
fn diff_after_commit_is_empty() {
    let mut s = InlineSurface::new(6, 2);
    s.set_cell(1, 0, cell('x'));
    s.set_cell(2, 1, cell('y'));
    assert!(!s.get_line_changes(0).is_empty());
    s.commit();
    assert!(s.get_line_changes(0).is_empty());
    assert!(s.get_line_changes(1).is_empty());
}

#[test]
fn diff_is_stable_without_mutation() {
    // Without touching the current grid, diffing twice gives the same
    // operations; after committing and applying them, the next diff is
    // empty.
    let mut s = InlineSurface::new(6, 1);
    s.set_cell(3, 0, cell('z'));
    let first = s.get_line_changes(0);
    let second = s.get_line_changes(0);
    assert_eq!(first, second);
    s.commit();
    assert!(s.get_line_changes(0).is_empty());
}

#[test]
fn adjacent_changes_coalesce_into_one_text_run() {
    let mut s = InlineSurface::new(8, 1);
    s.commit();
    s.set_cell(2, 0, cell('a'));
    s.set_cell(3, 0, cell('b'));
    s.set_cell(4, 0, cell('c'));
    let ops = s.get_line_changes(0);
    assert_eq!(
        ops,
        vec![
            TermOp::Move { col: 2, rows: 0 },
            TermOp::SetStyle(plain()),
            TermOp::Text(vec!['a', 'b', 'c']),
        ]
    );
}

#[test]
fn style_change_splits_the_run_without_moving() {
    let mut s = InlineSurface::new(8, 1);
    s.commit();
    s.set_cell(0, 0, cell('a'));
    s.set_cell(1, 0, Cell { ch: 'b', style: red() });
    s.set_cell(2, 0, Cell { ch: 'c', style: red() });
    let ops = s.get_line_changes(0);
    assert_eq!(
        ops,
        vec![
            TermOp::Move { col: 0, rows: 0 },
            TermOp::SetStyle(plain()),
            TermOp::Text(vec!['a']),
            TermOp::SetStyle(red()),
            TermOp::Text(vec!['b', 'c']),
        ]
    );
}

#[test]
fn separated_runs_move_but_reuse_the_emitted_style() {
    let mut s = InlineSurface::new(8, 1);
    s.commit();
    s.set_cell(0, 0, cell('a'));
    s.set_cell(5, 0, cell('b'));
    let ops = s.get_line_changes(0);
    assert_eq!(
        ops,
        vec![
            TermOp::Move { col: 0, rows: 0 },
            TermOp::SetStyle(plain()),
            TermOp::Text(vec!['a']),
            TermOp::Move { col: 5, rows: 0 },
            TermOp::Text(vec!['b']),
        ]
    );
}

#[test]
fn invalidate_forces_full_repaint() {
    let mut s = InlineSurface::new(3, 1);
    s.commit();
    assert!(s.get_line_changes(0).is_empty());
    s.invalidate();
    let ops = s.get_line_changes(0);
    assert_eq!(
        ops,
        vec![
            TermOp::Move { col: 0, rows: 0 },
            TermOp::SetStyle(plain()),
            TermOp::Text(vec![' ', ' ', ' ']),
        ]
    );
}

#[test]
fn set_text_clips_at_the_right_edge() {
    let mut s = InlineSurface::new(4, 1);
    s.commit();
    s.set_text(2, 0, &"wide".chars().collect(), plain());
    let ops = s.get_line_changes(0);
    assert_eq!(
        ops,
        vec![
            TermOp::Move { col: 2, rows: 0 },
            TermOp::SetStyle(plain()),
            TermOp::Text(vec!['w', 'i']),
        ]
    );
}

#[test]
fn set_text_ignores_out_of_range_row() {
    let mut s = InlineSurface::new(4, 1);
    s.commit();
    s.set_text(0, 3, &"hey".chars().collect(), plain());
    assert!(s.get_line_changes(0).is_empty());
}

#[test]
fn clear_to_eol_blanks_the_tail() {
    let mut s = InlineSurface::new(4, 1);
    s.set_text(0, 0, &"abcd".chars().collect(), plain());
    s.commit();
    s.clear_to_eol(2, 0);
    let ops = s.get_line_changes(0);
    assert_eq!(
        ops,
        vec![
            TermOp::Move { col: 2, rows: 0 },
            TermOp::SetStyle(plain()),
            TermOp::Text(vec![' ', ' ']),
        ]
    );
}

#[test]
fn clear_blanks_current_but_not_committed() {
    let mut s = InlineSurface::new(3, 1);
    s.set_text(0, 0, &"abc".chars().collect(), plain());
    s.commit();
    s.clear();
    let ops = s.get_line_changes(0);
    assert_eq!(
        ops,
        vec![
            TermOp::Move { col: 0, rows: 0 },
            TermOp::SetStyle(plain()),
            TermOp::Text(vec![' ', ' ', ' ']),
        ]
    );
}

#[test]
fn out_of_range_set_cell_is_ignored() {
    let mut s = InlineSurface::new(3, 1);
    s.commit();
    s.set_cell(3, 0, cell('x'));
    s.set_cell(0, 1, cell('x'));
    assert!(s.get_line_changes(0).is_empty());
}

#[test]
fn first_frame_plans_clears_and_rewind() {
    let mut t = InlineTerminal::new(5, 2);
    let ops = t.render();
    assert_eq!(
        ops,
        vec![
            TermOp::SetCursorVisible(false),
            TermOp::ClearToEol,
            TermOp::Move { col: 0, rows: 1 },
            TermOp::ClearToEol,
            TermOp::Move { col: 0, rows: -1 },
        ]
    );
    assert_eq!(t.rendered_lines, 2);
}

#[test]
fn second_frame_rewinds_over_the_first() {
    let mut t = InlineTerminal::new(5, 2);
    t.render();
    t.surface().set_cell(0, 0, cell('Q'));
    let ops = t.render();
    assert_eq!(
        ops,
        vec![
            TermOp::Move { col: 0, rows: -2 },
            TermOp::SetCursorVisible(false),
            TermOp::ClearToEol,
            TermOp::Move { col: 0, rows: 0 },
            TermOp::SetStyle(plain()),
            TermOp::Text(vec!['Q']),
            TermOp::Move { col: 0, rows: 1 },
            TermOp::ClearToEol,
            TermOp::Move { col: 0, rows: -1 },
        ]
    );
}

#[test]
fn render_commits_the_frame() {
    let mut t = InlineTerminal::new(5, 1);
    t.surface().set_cell(2, 0, cell('m'));
    t.render();
    assert!(t.surface().get_line_changes(0).is_empty());
}

#[test]
fn cleanup_erases_the_region_and_shows_cursor() {
    let mut t = InlineTerminal::new(5, 3);
    t.render();
    let ops = t.cleanup();
    assert_eq!(
        ops,
        vec![
            TermOp::Move { col: 0, rows: -3 },
            TermOp::ClearToEol,
            TermOp::Move { col: 0, rows: 1 },
            TermOp::ClearToEol,
            TermOp::Move { col: 0, rows: 1 },
            TermOp::ClearToEol,
            TermOp::Move { col: 0, rows: -2 },
            TermOp::SetCursorVisible(true),
        ]
    );
    assert_eq!(t.rendered_lines, 0);
}

#[test]
fn cleanup_before_any_frame_only_shows_cursor() {
    let mut t = InlineTerminal::new(5, 3);
    let ops = t.cleanup();
    assert_eq!(ops, vec![TermOp::SetCursorVisible(true)]);
}

#[test]
fn width_change_resizes_and_invalidates() {
    let mut t = InlineTerminal::new(5, 1);
    t.render();
    assert!(!t.check_for_resize(5));
    assert!(t.check_for_resize(7));
    assert_eq!(t.surface().dimensions(), (7, 1));
    // The committed grid now holds sentinels, so the next frame repaints
    // every column.
    let ops = t.surface().get_line_changes(0);
    assert_eq!(
        ops,
        vec![
            TermOp::Move { col: 0, rows: 0 },
            TermOp::SetStyle(plain()),
            TermOp::Text(vec![' '; 7]),
        ]
    );
}

#[test]
fn resize_height_changes_rows() {
    let mut t = InlineTerminal::new(5, 1);
    t.resize_height(4);
    assert_eq!(t.surface().dimensions(), (5, 4));
}
