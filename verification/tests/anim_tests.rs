use claudio::cell::{Color, Style};
use claudio::render::{get_char_color, get_spinner, RenderState};
use claudio::ui::{fade_style_at, SpinnerState, Ui};

fn rgb(r: u8, g: u8, b: u8) -> Color {
    Color::Rgb(r, g, b)
}

#[test]
fn fade_starts_at_the_cyan_hue() {
    let s = fade_style_at(0);
    assert_eq!(s.fg, rgb(120, 160, 180));
    assert!(!s.bold && !s.italic);
}

#[test]
fn fade_ends_settled_white() {
    assert_eq!(fade_style_at(1500).fg, rgb(255, 255, 255));
    assert_eq!(fade_style_at(100_000).fg, rgb(255, 255, 255));
}

#[test]
fn fade_midpoint_matches_the_cubic_ease_out() {
    // At age 750 the linear progress is 500/1000; eased progress is
    // 1 - (1/2)^3 = 875/1000, so red is 120 + 135 * 875 / 1000 = 238.
    assert_eq!(fade_style_at(750).fg, rgb(238, 243, 245));
}

#[test]
fn fade_is_monotonically_brightening() {
    let mut last = 0u8;
    for age in [0i64, 100, 300, 700, 1100, 1500] {
        match fade_style_at(age).fg {
            Color::Rgb(r, _, _) => {
                assert!(r >= last);
                last = r;
            }
            _ => panic!("fade must be a true colour"),
        }
    }
}

#[test]
fn characters_are_withheld_until_their_appear_time() {
    let ui = Ui::new();
    // Character 3 appears at 60 ms past the anchor.
    assert_eq!(ui.char_animation_color(3, 59), None);
    assert_eq!(ui.char_animation_color(3, 60), Some(rgb(120, 160, 180)));
    assert_eq!(ui.char_animation_color(0, 0), Some(rgb(120, 160, 180)));
    assert_eq!(ui.char_animation_color(0, -1), None);
}

#[test]
fn spinner_cycles_the_loading_frames() {
    let mut ui = Ui::new();
    assert_eq!(ui.spinner_state, SpinnerState::Loading);
    let first = ui.spinner_glyph();
    assert_eq!(first.ch, '\u{280b}');
    assert_eq!(first.style.fg, Color::Palette(8));
    for _ in 0..12 {
        ui.tick();
    }
    assert_eq!(ui.spinner_glyph().ch, '\u{280b}');
    ui.tick();
    assert_eq!(ui.spinner_glyph().ch, '\u{2819}');
}

#[test]
fn spinner_pulses_while_listening() {
    let mut ui = Ui::new();
    ui.spinner_state = SpinnerState::Listening;
    assert_eq!(ui.spinner_glyph().ch, '\u{25cf}');
    assert_eq!(ui.spinner_glyph().style.fg, rgb(227, 0, 0));
    ui.spinner_frame = 2;
    assert_eq!(ui.spinner_glyph().style.fg, rgb(255, 0, 0));
    ui.spinner_frame = 6;
    assert_eq!(ui.spinner_glyph().style.fg, rgb(200, 0, 0));
}

#[test]
fn spinner_idles_with_a_hollow_dot() {
    let mut ui = Ui::new();
    ui.spinner_state = SpinnerState::Idle;
    assert_eq!(ui.spinner_glyph().ch, '\u{25cb}');
    assert_eq!(ui.spinner_glyph().style.fg, Color::Palette(8));
}

#[test]
fn render_state_starts_with_no_painted_lines() {
    let s = RenderState::default();
    assert_eq!(s.rendered_lines, 0);
}

#[test]
fn get_spinner_prefers_warming_then_listening() {
    assert_eq!(get_spinner(0, false, true), ('\u{280b}', Color::Palette(8)));
    assert_eq!(get_spinner(2, true, true), ('\u{25cf}', rgb(255, 0, 0)));
    assert_eq!(get_spinner(0, true, false), ('\u{25cb}', Color::Palette(8)));
}

#[test]
fn get_char_color_settles_before_the_start_index() {
    assert_eq!(get_char_color(2, 5, 0), Some(rgb(255, 255, 255)));
    assert_eq!(get_char_color(5, 5, 0), Some(rgb(120, 160, 180)));
    assert_eq!(get_char_color(7, 5, 30), None);
    assert_eq!(get_char_color(7, 5, 40), Some(rgb(120, 160, 180)));
    assert_eq!(get_char_color(7, 5, 40 + 1500), Some(rgb(255, 255, 255)));
}
