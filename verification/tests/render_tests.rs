use claudio::cell::{Cell, Color, Style};
use claudio::inline_term::{InlineSurface, InlineTerminal};
use claudio::ops::TermOp;
use claudio::ui::{Mode, Ui};

fn chars(s: &str) -> Vec<char> {
    s.chars().collect()
}

fn white() -> Style {
    Style::fg(Color::Rgb(255, 255, 255))
}

fn dim() -> Style {
    Style::fg(Color::Palette(8))
}

fn row_text(s: &InlineSurface, y: usize) -> String {
    s.lines[y].iter().map(|c| c.ch).collect()
}

#[test]
fn render_places_spinner_space_and_settled_text() {
    let mut ui = Ui::new();
    ui.set_text(&chars("hi"), 0);
    let mut s = InlineSurface::new(10, 1);
    ui.render(&mut s, 1_000_000);
    let row = &s.lines[0];
    assert_eq!(row[0], Cell { ch: '\u{280b}', style: dim() });
    assert_eq!(row[1], Cell::blank());
    assert_eq!(row[2], Cell { ch: 'h', style: white() });
    assert_eq!(row[3], Cell { ch: 'i', style: white() });
    for x in 4..10 {
        assert_eq!(row[x], Cell::blank());
    }
}

#[test]
fn render_withholds_characters_still_staggered() {
    let mut ui = Ui::new();
    ui.set_text(&chars("hi"), 1000);
    let mut s = InlineSurface::new(10, 1);
    ui.render(&mut s, 1000);
    let row = &s.lines[0];
    assert_eq!(row[2], Cell { ch: 'h', style: Style::fg(Color::Rgb(120, 160, 180)) });
    // 'i' appears only 20 ms later.
    assert_eq!(row[3], Cell::blank());
    ui.render(&mut s, 1020);
    assert_eq!(s.lines[0][3], Cell { ch: 'i', style: Style::fg(Color::Rgb(120, 160, 180)) });
}

#[test]
fn render_wraps_across_full_width_rows() {
    let mut ui = Ui::new();
    ui.set_text(&chars("abcdef"), 0);
    let mut s = InlineSurface::new(4, 3);
    ui.render(&mut s, 1_000_000);
    assert_eq!(row_text(&s, 0), "\u{280b} ab");
    assert_eq!(row_text(&s, 1), "cdef");
    assert_eq!(row_text(&s, 2), "    ");
}

#[test]
fn render_stops_at_the_row_budget() {
    let mut ui = Ui::new();
    ui.set_text(&chars("abcdefghij"), 0);
    let mut s = InlineSurface::new(4, 2);
    ui.render(&mut s, 1_000_000);
    assert_eq!(row_text(&s, 0), "\u{280b} ab");
    assert_eq!(row_text(&s, 1), "cdef");
}

#[test]
fn render_mixes_frozen_settled_and_volatile() {
    let mut ui = Ui::new();
    ui.set_text(&chars("no"), 0);
    ui.start_editing();
    ui.finish_editing_with_freeze();
    // frozen "no"; one fresh volatile char at its first fade colour.
    ui.set_text(&chars("w"), 5000);
    let mut s = InlineSurface::new(10, 1);
    ui.render(&mut s, 5000);
    let row = &s.lines[0];
    assert_eq!(row[2], Cell { ch: 'n', style: white() });
    assert_eq!(row[3], Cell { ch: 'o', style: white() });
    assert_eq!(row[4], Cell { ch: 'w', style: Style::fg(Color::Rgb(120, 160, 180)) });
}

#[test]
fn render_shows_placeholder_only_when_asked() {
    let mut ui = Ui::new();
    let mut s = InlineSurface::new(20, 1);
    ui.render(&mut s, 0);
    assert_eq!(row_text(&s, 0).trim_end(), "\u{280b}");
    ui.show_placeholder = true;
    ui.render(&mut s, 0);
    assert_eq!(row_text(&s, 0).trim_end(), "\u{280b} Speak now...");
    assert_eq!(s.lines[0][2].style, dim());
}

#[test]
fn render_truncates_the_placeholder_without_wrapping() {
    let mut ui = Ui::new();
    ui.show_placeholder = true;
    let mut s = InlineSurface::new(7, 2);
    ui.render(&mut s, 0);
    assert_eq!(row_text(&s, 0), "\u{280b} Speak");
    assert_eq!(row_text(&s, 1).trim_end(), "");
}

#[test]
fn render_in_edit_mode_shows_the_buffer_settled() {
    let mut ui = Ui::new();
    ui.set_text(&chars("draft"), 0);
    ui.start_editing();
    let mut s = InlineSurface::new(10, 1);
    ui.render(&mut s, 0);
    assert_eq!(row_text(&s, 0).trim_end(), "\u{280b} draft");
    for x in 2..7 {
        assert_eq!(s.lines[0][x].style, white());
    }
}

#[test]
fn controls_row_uses_full_labels_when_they_fit() {
    let mut ui = Ui::new();
    ui.show_controls = true;
    let mut s = InlineSurface::new(50, 2);
    ui.render(&mut s, 0);
    let row1 = row_text(&s, 1);
    assert!(row1.starts_with("Enter finish \u{2022} ^E edit \u{2022} ^R restart \u{2022} ^C cancel"));
    assert_eq!(s.lines[1][0].style, Style::fg(Color::Palette(3)));
    assert_eq!(s.lines[1][5], Cell::blank());
    assert_eq!(s.lines[1][6].style, dim());
}

#[test]
fn controls_row_degrades_to_short_labels() {
    let mut ui = Ui::new();
    ui.show_controls = true;
    let mut s = InlineSurface::new(40, 2);
    ui.render(&mut s, 0);
    assert!(row_text(&s, 1).starts_with("Enter fin \u{2022} ^E edt \u{2022} ^R rst \u{2022} ^C esc"));
}

#[test]
fn controls_row_degrades_to_keys_only() {
    let mut ui = Ui::new();
    ui.show_controls = true;
    let mut s = InlineSurface::new(20, 2);
    ui.render(&mut s, 0);
    assert!(row_text(&s, 1).starts_with("Enter ^E ^R ^C"));
}

#[test]
fn editing_controls_show_their_own_hints() {
    let mut ui = Ui::new();
    ui.set_text(&chars("x"), 0);
    ui.start_editing();
    ui.show_controls = true;
    let mut s = InlineSurface::new(40, 2);
    ui.render(&mut s, 0);
    assert!(
        row_text(&s, 1).starts_with(
            "Enter done \u{2022} Esc cancel \u{2022} \u{2190}\u{2192} move"
        )
    );
}

#[test]
fn one_row_region_gives_the_controls_the_whole_row() {
    let mut ui = Ui::new();
    ui.set_text(&chars("hidden"), 0);
    ui.show_controls = true;
    let mut s = InlineSurface::new(20, 1);
    ui.render(&mut s, 1_000_000);
    assert!(row_text(&s, 0).starts_with("Enter ^E ^R ^C"));
}

#[test]
fn identical_frames_plan_no_repaint() {
    // Idempotence end to end: composing the same state twice yields an
    // empty diff for every row of the second frame.
    let mut ui = Ui::new();
    ui.set_text(&chars("steady"), 0);
    let mut t = InlineTerminal::new(12, 2);
    ui.render(t.surface(), 1_000_000);
    t.render();
    ui.render(t.surface(), 1_000_000);
    for row in 0..2 {
        assert!(t.surface().get_line_changes(row).is_empty());
    }
    let ops = t.render();
    assert_eq!(
        ops,
        vec![
            TermOp::Move { col: 0, rows: -2 },
            TermOp::SetCursorVisible(false),
            TermOp::ClearToEol,
            TermOp::Move { col: 0, rows: 1 },
            TermOp::ClearToEol,
            TermOp::Move { col: 0, rows: -1 },
        ]
    );
}

#[test]
fn a_new_volatile_character_repaints_only_its_cell() {
    let mut ui = Ui::new();
    ui.set_text(&chars("ab"), 0);
    let mut t = InlineTerminal::new(12, 1);
    ui.render(t.surface(), 1_000_000);
    t.render();
    // An appended character keeps the running schedule, so it arrives
    // already settled; only its own cell is repainted.
    ui.set_text(&chars("abc"), 1_000_000);
    ui.render(t.surface(), 1_002_000);
    let ops = t.surface().get_line_changes(0);
    assert_eq!(
        ops,
        vec![
            TermOp::Move { col: 4, rows: 0 },
            TermOp::SetStyle(white()),
            TermOp::Text(vec!['c']),
        ]
    );
}

#[test]
fn mode_transitions_drive_the_compositor() {
    let mut ui = Ui::new();
    assert_eq!(ui.mode, Mode::Listening);
    ui.set_text(&chars("say"), 0);
    ui.start_editing();
    assert_eq!(ui.mode, Mode::Editing);
    ui.cancel_editing();
    assert_eq!(ui.mode, Mode::Listening);
    assert_eq!(ui.full_text(), chars("say"));
}
