use claudio::cell::{Cell, Color, Style};
use claudio::inline_term::InlineSurface;
use claudio::render::build_transcription_spans;
use claudio::widgets::{
    CharState, ClaudioUi, Controls, Line, Placeholder, Span, Spinner, SpinnerState, Transcription,
};

fn chars(s: &str) -> Vec<char> {
    s.chars().collect()
}

fn white() -> Color {
    Color::Rgb(255, 255, 255)
}

#[test]
fn span_counts_characters() {
    let s = Span::styled(chars("héllo"), Color::Palette(3));
    assert_eq!(s.len(), 5);
    assert!(!s.is_empty());
    assert!(Span::new(Vec::new()).is_empty());
}

#[test]
fn line_accumulates_span_lengths() {
    let mut l = Line::new();
    assert!(l.is_empty());
    l.push(Span::new(chars("ab")));
    l.push(Span::styled(chars("cde"), Color::Palette(1)));
    assert_eq!(l.len(), 5);
    assert!(!l.is_empty());
}

#[test]
fn line_renders_clipped_at_the_width() {
    let mut l = Line::new();
    l.push(Span::styled(chars("abc"), Color::Palette(1)));
    l.push(Span::styled(chars("defg"), Color::Palette(2)));
    let mut s = InlineSurface::new(5, 2);
    l.render_to(&mut s, 1);
    let row = &s.lines[1];
    assert_eq!(row[0], Cell { ch: 'a', style: Style::fg(Color::Palette(1)) });
    assert_eq!(row[2], Cell { ch: 'c', style: Style::fg(Color::Palette(1)) });
    assert_eq!(row[3], Cell { ch: 'd', style: Style::fg(Color::Palette(2)) });
    assert_eq!(row[4], Cell { ch: 'e', style: Style::fg(Color::Palette(2)) });
    // Row 0 is untouched.
    assert_eq!(s.lines[0][0], Cell::blank());
}

#[test]
fn spinner_ticks_and_pulses() {
    let mut sp = Spinner::new();
    assert_eq!(sp.state, SpinnerState::Loading);
    assert_eq!(sp.frame, 0);
    let span = sp.to_span();
    assert_eq!(span.text, vec!['\u{280b}']);
    assert_eq!(span.style.fg, Color::Palette(8));
    sp.tick();
    assert_eq!(sp.frame, 1);
    sp.state = SpinnerState::Listening;
    sp.frame = 2;
    let span = sp.to_span();
    assert_eq!(span.text, vec!['\u{25cf}']);
    assert_eq!(span.style.fg, Color::Rgb(255, 0, 0));
    sp.state = SpinnerState::Idle;
    assert_eq!(sp.to_span().text, vec!['\u{25cb}']);
}

#[test]
fn placeholder_speaks_only_when_visible() {
    let mut p = Placeholder::new();
    assert!(p.to_span().is_none());
    p.visible = true;
    let span = p.to_span().unwrap();
    assert_eq!(span.text, chars("Speak now..."));
    assert_eq!(span.style.fg, Color::Palette(8));
}

#[test]
fn controls_line_lists_the_shortcuts() {
    let mut c = Controls::new();
    assert!(c.to_line().is_none());
    c.visible = true;
    let line = c.to_line().unwrap();
    let texts: Vec<String> = line.spans.iter().map(|s| s.text.iter().collect()).collect();
    assert_eq!(
        texts,
        vec![
            "Enter".to_string(),
            " finish \u{2022} ".to_string(),
            "Ctrl+R".to_string(),
            " restart \u{2022} ".to_string(),
            "Ctrl+C".to_string(),
            " cancel".to_string(),
        ]
    );
    assert_eq!(line.spans[0].style.fg, Color::Palette(3));
    assert_eq!(line.spans[1].style.fg, Color::Palette(8));
    assert_eq!(line.spans[2].style.fg, Color::Palette(4));
    assert_eq!(line.spans[4].style.fg, Color::Palette(1));
}

#[test]
fn transcription_anchor_starts_with_first_text() {
    let mut t = Transcription::new();
    t.set_text(chars("hi"), 400);
    assert_eq!(t.animation_start_ms, 400);
    t.set_text(chars("hi there"), 900);
    assert_eq!(t.animation_start_ms, 400);
    t.set_text(chars(""), 1000);
    t.set_text(chars("x"), 1100);
    assert_eq!(t.animation_start_ms, 1100);
}

#[test]
fn settle_all_marks_every_character() {
    let mut t = Transcription::new();
    t.set_text(chars("abc"), 0);
    assert_eq!(t.settled_count, 0);
    t.settle_all();
    assert_eq!(t.settled_count, 3);
}

#[test]
fn char_state_classifies_by_index_and_age() {
    let mut t = Transcription::new();
    t.set_text(chars("abcd"), 0);
    t.settled_count = 1;
    assert_eq!(t.char_state(0, 10), CharState::Settled);
    assert_eq!(t.char_state(1, 10), CharState::Animating { age_ms: 10 });
    assert_eq!(t.char_state(2, 10), CharState::Hidden);
    assert_eq!(t.char_state(2, 25), CharState::Animating { age_ms: 5 });
}

#[test]
fn state_to_color_matches_the_fade() {
    let t = Transcription::new();
    assert_eq!(t.state_to_color(&CharState::Settled), Some(white()));
    assert_eq!(t.state_to_color(&CharState::Hidden), None);
    assert_eq!(
        t.state_to_color(&CharState::Animating { age_ms: 0 }),
        Some(Color::Rgb(120, 160, 180))
    );
    assert_eq!(
        t.state_to_color(&CharState::Animating { age_ms: 1500 }),
        Some(white())
    );
}

#[test]
fn to_spans_staggers_the_reveal() {
    let mut t = Transcription::new();
    t.set_text(chars("abcd"), 0);
    t.settled_count = 1;
    // At 30 ms: 'a' settled, 'b' aged 30, 'c' aged 10, 'd' withheld.
    let spans = t.to_spans(30);
    assert_eq!(spans.len(), 3);
    assert_eq!(spans[0].text, vec!['a']);
    assert_eq!(spans[0].style.fg, white());
    assert_eq!(spans[1].text, vec!['b']);
    assert_eq!(spans[1].style.fg, fade_fg(30));
    assert_eq!(spans[2].text, vec!['c']);
    assert_eq!(spans[2].style.fg, fade_fg(10));
}

fn fade_fg(age: i64) -> Color {
    claudio::ui::fade_style_at(age).fg
}

#[test]
fn to_spans_settles_everything_after_settle_all() {
    let mut t = Transcription::new();
    t.set_text(chars("ok"), 0);
    t.settle_all();
    let spans = t.to_spans(0);
    assert_eq!(spans.len(), 2);
    assert!(spans.iter().all(|s| s.style.fg == white()));
}

#[test]
fn transcription_lines_needed_reserves_the_status_prefix() {
    let mut t = Transcription::new();
    assert_eq!(t.lines_needed(10), 1);
    t.set_text(chars("abcdefgh"), 0);
    assert_eq!(t.lines_needed(10), 1);
    t.set_text(chars("abcdefghi"), 0);
    assert_eq!(t.lines_needed(10), 2);
    assert_eq!(t.lines_needed(0), 1);
    assert_eq!(t.lines_needed(2), 1);
}

#[test]
fn transcription_lines_needed_wraps_later_rows_at_full_width() {
    // Only the first row loses two columns to the status prefix: a
    // 25-character transcript at width 10 needs 1 + ceil((25 - 8) / 10)
    // = 3 rows.
    let mut t = Transcription::new();
    t.set_text(chars("abcdefghijklmnopqrstuvwxy"), 0);
    assert_eq!(t.lines_needed(10), 3);
}

#[test]
fn transcription_spans_group_runs_by_style() {
    // Settled prefix of 3 chars, the rest freshly animating at 30 ms:
    // "abc" white, then 'd' (age 30) and 'e' (age 10) in distinct fade
    // styles, 'f' withheld.
    let text = chars("abcdef");
    let spans = build_transcription_spans(&text, 30, 3, true, true, false);
    assert_eq!(spans.len(), 3);
    assert_eq!(spans[0].text, chars("abc"));
    assert_eq!(spans[0].style.fg, white());
    assert_eq!(spans[1].text, vec!['d']);
    assert_eq!(spans[1].style.fg, fade_fg(30));
    assert_eq!(spans[2].text, vec!['e']);
    assert_eq!(spans[2].style.fg, fade_fg(10));
}

#[test]
fn transcription_spans_merge_fully_faded_characters() {
    // Long after the update everything is white: one single span.
    let text = chars("abcd");
    let spans = build_transcription_spans(&text, 1_000_000, 2, true, true, false);
    assert_eq!(spans.len(), 1);
    assert_eq!(spans[0].text, chars("abcd"));
    assert_eq!(spans[0].style.fg, white());
}

#[test]
fn transcription_spans_show_the_hint_only_when_idle_and_ready() {
    let empty = Vec::new();
    let spans = build_transcription_spans(&empty, 0, 0, true, true, false);
    assert_eq!(spans.len(), 1);
    assert_eq!(spans[0].text, chars("Speak now..."));
    assert!(spans[0].style.italic);
    assert!(build_transcription_spans(&empty, 0, 0, false, true, false).is_empty());
    assert!(build_transcription_spans(&empty, 0, 0, true, false, false).is_empty());
    assert!(build_transcription_spans(&empty, 0, 0, true, true, true).is_empty());
}

#[test]
fn claudio_ui_counts_rows_with_controls() {
    let mut c = ClaudioUi::new();
    assert_eq!(c.lines_needed(10), 1);
    c.controls.visible = true;
    assert_eq!(c.lines_needed(10), 2);
    c.transcription.set_text(chars("abcdefghi"), 0);
    assert_eq!(c.lines_needed(10), 3);
    assert_eq!(c.final_text(), &chars("abcdefghi"));
}

#[test]
fn claudio_ui_renders_spinner_text_and_overlaid_controls() {
    let mut c = ClaudioUi::new();
    c.transcription.set_text(chars("hello world"), 0);
    c.transcription.settle_all();
    c.controls.visible = true;
    let mut s = InlineSurface::new(8, 2);
    c.render(&mut s, 1_000_000);
    let row0: String = s.lines[0].iter().map(|x| x.ch).collect();
    assert_eq!(row0, "\u{280b} hello ");
    // The controls line overlays the beginning of the last row; the
    // wrapped text would otherwise continue there.
    let row1: String = s.lines[1].iter().map(|x| x.ch).collect();
    assert_eq!(row1, "Enter fi");
    assert_eq!(s.lines[1][0].style.fg, Color::Palette(3));
}

#[test]
fn claudio_ui_wraps_the_stream_across_rows() {
    let mut c = ClaudioUi::new();
    c.transcription.set_text(chars("abcdefgh"), 0);
    c.transcription.settle_all();
    let mut s = InlineSurface::new(4, 4);
    c.render(&mut s, 0);
    let row = |y: usize| -> String { s.lines[y].iter().map(|x| x.ch).collect() };
    assert_eq!(row(0), "\u{280b} ab");
    assert_eq!(row(1), "cdef");
    assert_eq!(row(2), "gh  ");
    assert_eq!(row(3), "    ");
}

#[test]
fn claudio_ui_shows_the_placeholder_unwrapped() {
    let mut c = ClaudioUi::new();
    c.placeholder.visible = true;
    let mut s = InlineSurface::new(9, 2);
    c.render(&mut s, 0);
    let row0: String = s.lines[0].iter().map(|x| x.ch).collect();
    assert_eq!(row0, "\u{280b} Speak n");
    let row1: String = s.lines[1].iter().map(|x| x.ch).collect();
    assert_eq!(row1.trim_end(), "");
}
