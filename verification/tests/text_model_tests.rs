use claudio::ui::{Mode, SpinnerState, Ui};

fn chars(s: &str) -> Vec<char> {
    s.chars().collect()
}

#[test]
fn new_ui_is_empty_and_listening() {
    let ui = Ui::new();
    assert!(ui.is_empty());
    assert_eq!(ui.mode, Mode::Listening);
    assert_eq!(ui.spinner_state, SpinnerState::Loading);
    assert_eq!(ui.full_text(), Vec::<char>::new());
}

#[test]
fn first_text_starts_the_animation_now() {
    let mut ui = Ui::new();
    ui.set_text(&chars("hello"), 500);
    assert_eq!(ui.text, chars("hello"));
    assert_eq!(ui.stable_len, 0);
    assert_eq!(ui.animation_start_ms, 500);
}

#[test]
fn unchanged_text_changes_nothing() {
    let mut ui = Ui::new();
    ui.set_text(&chars("hello"), 500);
    ui.set_text(&chars("hello"), 900);
    assert_eq!(ui.stable_len, 0);
    assert_eq!(ui.animation_start_ms, 500);
}

#[test]
fn append_advances_boundary_and_shifts_anchor() {
    // Correction handling: settled "hello", volatile "wor", then an
    // append to "world" shifts the anchor back by two delays.
    let mut ui = Ui::new();
    ui.set_text(&chars("hello"), 0);
    ui.set_text(&chars("hellowor"), 100);
    assert_eq!(ui.stable_len, 5);
    // "wor" is a pure append of three characters to "hello".
    assert_eq!(ui.animation_start_ms, -3 * 20);
    ui.set_text(&chars("helloworld"), 200);
    assert_eq!(ui.stable_len, 8);
    // "ld" appends two more: the anchor shifts back by exactly 2 * 20 ms.
    assert_eq!(ui.animation_start_ms, -3 * 20 - 2 * 20);
}

#[test]
fn revision_resets_the_anchor() {
    // The same state updated to volatile "whorl" is a revision: the
    // anchor resets to now, restarting the fade for all of it.
    let mut ui = Ui::new();
    ui.set_text(&chars("hello"), 0);
    ui.set_text(&chars("hellowor"), 100);
    assert_eq!(ui.stable_len, 5);
    ui.set_text(&chars("hellowhorl"), 200);
    assert_eq!(ui.stable_len, 6);
    assert_eq!(ui.animation_start_ms, 200);
}

#[test]
fn pure_appends_keep_the_boundary_non_decreasing() {
    let mut ui = Ui::new();
    let steps = ["a", "ab", "abc", "abcd", "abcde f", "abcde fgh"];
    let mut last_stable = 0usize;
    for (i, s) in steps.iter().enumerate() {
        ui.set_text(&chars(s), (i as i64) * 50);
        assert!(ui.stable_len >= last_stable);
        last_stable = ui.stable_len;
    }
    assert_eq!(ui.text, chars("abcde fgh"));
}

#[test]
fn boundary_never_regresses_within_length() {
    let mut ui = Ui::new();
    ui.set_text(&chars("abcdef"), 0);
    ui.set_text(&chars("abcdefgh"), 50);
    assert_eq!(ui.stable_len, 6);
    let anchor = ui.animation_start_ms;
    // A same-length revision inside the stable region: the boundary holds,
    // and with the volatile tail unchanged nothing re-animates.
    ui.set_text(&chars("abcdeXgh"), 100);
    assert_eq!(ui.stable_len, 6);
    assert_eq!(ui.animation_start_ms, anchor);
}

#[test]
fn truncation_shrinks_the_boundary() {
    let mut ui = Ui::new();
    ui.set_text(&chars("abcdef"), 0);
    ui.set_text(&chars("abcdefgh"), 50);
    assert_eq!(ui.stable_len, 6);
    let anchor = ui.animation_start_ms;
    ui.set_text(&chars("abc"), 100);
    assert_eq!(ui.stable_len, 3);
    // Nothing is volatile, so the anchor is untouched.
    assert_eq!(ui.animation_start_ms, anchor);
}

#[test]
fn updates_are_ignored_while_editing() {
    let mut ui = Ui::new();
    ui.set_text(&chars("ab"), 0);
    ui.start_editing();
    ui.set_text(&chars("abcdef"), 50);
    assert_eq!(ui.text, Vec::<char>::new());
    assert_eq!(ui.frozen_text, chars("ab"));
}

#[test]
fn edit_lifecycle() {
    // Entering edit mode with frozen "", settled "ab", volatile "cd"
    // yields edit buffer "abcd" with the cursor at index 4.
    let mut ui = Ui::new();
    ui.set_text(&chars("ab"), 0);
    ui.set_text(&chars("abcd"), 10);
    assert_eq!(ui.stable_len, 2);
    assert_eq!(ui.text, chars("abcd"));
    ui.start_editing();
    assert_eq!(ui.mode, Mode::Editing);
    assert_eq!(ui.frozen_text, chars("abcd"));
    assert_eq!(ui.cursor_pos, 4);
    assert_eq!(ui.text, Vec::<char>::new());
    assert_eq!(ui.stable_len, 0);
}

#[test]
fn cancel_restores_the_snapshot_exactly() {
    let mut ui = Ui::new();
    ui.set_text(&chars("abcd"), 0);
    ui.start_editing();
    ui.delete_back();
    ui.insert_char('X');
    ui.insert_char('Y');
    assert_eq!(ui.frozen_text, chars("abcXY"));
    ui.cancel_editing();
    assert_eq!(ui.mode, Mode::Listening);
    assert_eq!(ui.frozen_text, chars("abcd"));
    assert_eq!(ui.text, Vec::<char>::new());
    assert_eq!(ui.stable_len, 0);
}

#[test]
fn commit_freezes_the_edited_buffer() {
    let mut ui = Ui::new();
    ui.set_text(&chars("abcd"), 0);
    ui.start_editing();
    ui.insert_char('!');
    ui.finish_editing_with_freeze();
    assert_eq!(ui.mode, Mode::Listening);
    assert_eq!(ui.frozen_text, chars("abcd!"));
    assert_eq!(ui.text, Vec::<char>::new());
    assert_eq!(ui.full_text(), chars("abcd!"));
}

#[test]
fn editing_is_character_indexed_for_multibyte_text() {
    let mut ui = Ui::new();
    ui.set_text(&chars("héllo…"), 0);
    ui.start_editing();
    assert_eq!(ui.cursor_pos, 6);
    ui.delete_back();
    assert_eq!(ui.frozen_text, chars("héllo"));
    ui.cursor_home();
    ui.cursor_right();
    ui.delete_forward();
    assert_eq!(ui.frozen_text, chars("hllo"));
    ui.insert_char('ä');
    assert_eq!(ui.frozen_text, chars("hällo"));
    assert_eq!(ui.cursor_pos, 2);
}

#[test]
fn cursor_movement_clamps_to_the_buffer() {
    let mut ui = Ui::new();
    ui.set_text(&chars("ab"), 0);
    ui.start_editing();
    ui.cursor_left();
    ui.cursor_left();
    ui.cursor_left();
    assert_eq!(ui.cursor_pos, 0);
    ui.cursor_left();
    assert_eq!(ui.cursor_pos, 0);
    ui.cursor_end();
    ui.cursor_right();
    assert_eq!(ui.cursor_pos, 2);
    ui.cursor_home();
    assert_eq!(ui.cursor_pos, 0);
}

#[test]
fn delete_at_edges_is_a_no_op() {
    let mut ui = Ui::new();
    ui.set_text(&chars("ab"), 0);
    ui.start_editing();
    ui.cursor_home();
    ui.delete_back();
    assert_eq!(ui.frozen_text, chars("ab"));
    ui.cursor_end();
    ui.delete_forward();
    assert_eq!(ui.frozen_text, chars("ab"));
}

#[test]
fn ensure_trailing_space_appends_once() {
    let mut ui = Ui::new();
    ui.set_text(&chars("ab"), 0);
    ui.start_editing();
    ui.finish_editing_with_freeze();
    ui.ensure_trailing_space();
    assert_eq!(ui.frozen_text, chars("ab "));
    ui.ensure_trailing_space();
    assert_eq!(ui.frozen_text, chars("ab "));
    let mut empty = Ui::new();
    empty.ensure_trailing_space();
    assert_eq!(empty.frozen_text, Vec::<char>::new());
}

#[test]
fn reset_clears_everything_and_resumes_listening() {
    let mut ui = Ui::new();
    ui.set_text(&chars("abcd"), 40);
    ui.start_editing();
    ui.reset();
    assert!(ui.is_empty());
    assert_eq!(ui.mode, Mode::Listening);
    assert_eq!(ui.stable_len, 0);
    assert_eq!(ui.animation_start_ms, 0);
    assert_eq!(ui.cursor_pos, 0);
}

#[test]
fn lines_needed_wraps_after_the_status_prefix() {
    // A 25-character transcript at width 10 with the two-column status
    // prefix on row 1 needs 1 + ceil((25 - 8) / 10) = 3 rows.
    let mut ui = Ui::new();
    ui.set_text(&chars("abcdefghijklmnopqrstuvwxy"), 0);
    assert_eq!(ui.lines_needed(10), 3);
    ui.show_controls = true;
    assert_eq!(ui.lines_needed(10), 4);
}

#[test]
fn lines_needed_edge_cases() {
    let mut ui = Ui::new();
    assert_eq!(ui.lines_needed(10), 1);
    assert_eq!(ui.lines_needed(0), 1);
    ui.set_text(&chars("abcdefgh"), 0);
    assert_eq!(ui.lines_needed(10), 1);
    ui.set_text(&chars("abcdefghi"), 10);
    assert_eq!(ui.lines_needed(10), 2);
    assert_eq!(ui.lines_needed(1), 1);
    assert_eq!(ui.lines_needed(0), 1);
}

#[test]
fn cursor_screen_position_follows_wrapping() {
    let mut ui = Ui::new();
    ui.set_text(&chars("abcdefghijklmnopqrst"), 0);
    assert_eq!(ui.cursor_screen_position(10), None);
    ui.start_editing();
    ui.cursor_home();
    assert_eq!(ui.cursor_screen_position(10), Some((2, 0)));
    ui.cursor_end();
    // Cursor index 20: 8 columns on row 0, then 12 more wraps to
    // column 2 of row 2.
    assert_eq!(ui.cursor_screen_position(10), Some((2, 2)));
    assert_eq!(ui.cursor_screen_position(0), None);
}

#[test]
fn tick_advances_the_spinner_frame() {
    let mut ui = Ui::new();
    ui.tick();
    ui.tick();
    assert_eq!(ui.spinner_frame, 2);
}
