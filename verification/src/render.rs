//! Pure kernels of the direct line-based renderer: the painted-line count
//! a caller tracks between frames, the status glyph choice, and the
//! per-character animation colour.

use vstd::prelude::*;

use crate::cell::{Color, Style};
use crate::ui::{
    MAX_TEXT, MAX_TIME_MS, loading_frame, placeholder_text, pulse_level, settled_style,
    spec_char_animation_color, spec_loading_frame, spec_pulse_level,
};
use crate::widgets::Span;

verus! {

/// Render state a caller keeps between frames: how many lines the last
/// frame painted, so the next one can rewind over them.
pub struct RenderState {
    pub rendered_lines: usize,
}

impl Default for RenderState {
    fn default() -> (r: RenderState)
        ensures
            r.rendered_lines == 0,
    {
        RenderState { rendered_lines: 0 }
    }
}

/// The status glyph for the given animation frame and source flags.
pub open spec fn spec_spinner_glyph(frame: int, is_ready: bool, is_listening: bool) -> (
    char,
    Color,
) {
    if !is_ready {
        (spec_loading_frame(frame % 12), Color::Palette(8))
    } else if is_listening {
        ('\u{25cf}', Color::Rgb(spec_pulse_level(frame % 8), 0, 0))
    } else {
        ('\u{25cb}', Color::Palette(8))
    }
}

/// Choose the status glyph: a spinner frame while the source warms up, a
/// pulsing red dot while it listens, a hollow dot otherwise.
pub fn get_spinner(frame: usize, is_ready: bool, is_listening: bool) -> (r: (char, Color))
    ensures
        r == spec_spinner_glyph(frame as int, is_ready, is_listening),
{
    if !is_ready {
        (loading_frame(frame % 12), Color::Palette(8))
    } else if is_listening {
        ('\u{25cf}', Color::Rgb(pulse_level(frame % 8), 0, 0))
    } else {
        ('\u{25cb}', Color::Palette(8))
    }
}

/// The colour of transcript character `index`: characters before the
/// animation start index are settled, the rest fade in staggered, and a
/// withheld character has no colour yet.
pub open spec fn spec_char_color(index: int, animation_start: int, elapsed: int) -> Option<Color> {
    if index < animation_start {
        Some(settled_style().fg)
    } else {
        spec_char_animation_color(index - animation_start, elapsed)
    }
}

/// The colour of transcript character `index`, `None` while it is still
/// withheld by the staggered reveal.
pub fn get_char_color(index: usize, animation_start: usize, elapsed: i64) -> (r: Option<Color>)
    requires
        index <= MAX_TEXT,
        animation_start <= MAX_TEXT,
        0 <= elapsed <= MAX_TIME_MS,
    ensures
        r == spec_char_color(index as int, animation_start as int, elapsed as int),
{
    if index < animation_start {
        Some(Color::Rgb(255, 255, 255))
    } else {
        let appear = crate::ui::CHAR_FADE_DELAY_MS * ((index - animation_start) as i64);
        if elapsed < appear {
            None
        } else {
            Some(crate::ui::fade_style_at(elapsed - appear).fg)
        }
    }
}

/// The mathematical shape of a [`Span`]: its characters and style.
pub struct GSpan {
    pub text: Seq<char>,
    pub style: Style,
}

pub open spec fn span_gview(s: Span) -> GSpan {
    GSpan { text: s.text@, style: s.style }
}

/// The view of a whole span list.
pub open spec fn spans_gview(s: Seq<Span>) -> Seq<GSpan> {
    s.map_values(|sp: Span| span_gview(sp))
}

proof fn lemma_spans_gview_push(s: Seq<Span>, sp: Span)
    ensures
        spans_gview(s.push(sp)) == spans_gview(s).push(span_gview(sp)),
{
    assert(spans_gview(s.push(sp)) =~= spans_gview(s).push(span_gview(sp)));
}

/// The style transcript character `i` is drawn in, `None` while it is
/// withheld.
pub open spec fn spec_span_style(i: int, start: int, elapsed: int) -> Option<Style> {
    match spec_char_color(i, start, elapsed) {
        Some(c) => Some(Style::fg_spec(c)),
        None => None,
    }
}

/// The first index at or after `j` whose drawing style is not `st` (or
/// the end of the text): consecutive characters sharing a style group
/// into one span.
pub open spec fn style_run_end(n: int, start: int, elapsed: int, j: int, st: Style) -> int
    decreases n - j,
{
    if j < 0 || j >= n {
        j
    } else if spec_span_style(j, start, elapsed) == Some(st) {
        style_run_end(n, start, elapsed, j + 1, st)
    } else {
        j
    }
}

/// The spans a non-empty transcript produces from index `i` on: withheld
/// characters are skipped, and each maximal run of visible characters
/// sharing one style becomes a single span in that style.
pub open spec fn transcription_spans_from(chars: Seq<char>, start: int, elapsed: int, i: int) -> Seq<
    GSpan,
>
    decreases chars.len() - i,
{
    if i < 0 || i >= chars.len() {
        Seq::empty()
    } else {
        match spec_span_style(i, start, elapsed) {
            None => transcription_spans_from(chars, start, elapsed, i + 1),
            Some(st) => {
                let re = style_run_end(chars.len() as int, start, elapsed, i + 1, st);
                let r = if i + 1 <= re <= chars.len() {
                    re
                } else {
                    i + 1
                };
                seq![GSpan { text: chars.subrange(i, r), style: st }] + transcription_spans_from(
                    chars,
                    start,
                    elapsed,
                    r,
                )
            },
        }
    }
}

/// If every index in `j..k` draws in `st` and `k` does not, the style run
/// ends exactly at `k`.
proof fn lemma_style_run_end_exact(n: int, start: int, elapsed: int, j: int, k: int, st: Style)
    requires
        0 <= j <= k <= n,
        forall|m: int| j <= m < k ==> spec_span_style(m, start, elapsed) == Some(st),
        k == n || spec_span_style(k, start, elapsed) != Some(st),
    ensures
        style_run_end(n, start, elapsed, j, st) == k,
    decreases k - j,
{
    if j < k {
        lemma_style_run_end_exact(n, start, elapsed, j + 1, k, st);
    }
}

/// Whether character `i` draws in exactly style `st`.
fn continues_style(i: usize, start: usize, elapsed: i64, st: Style) -> (r: bool)
    requires
        i <= MAX_TEXT,
        start <= MAX_TEXT,
        0 <= elapsed <= MAX_TIME_MS,
    ensures
        r == (spec_span_style(i as int, start as int, elapsed as int) == Some(st)),
{
    match get_char_color(i, start, elapsed) {
        Some(c) => Style::fg(c) == st,
        None => false,
    }
}

/// Build the styled spans of a live transcript: when the text is empty, a
/// dim italic hint while the source is ready and listening with nothing
/// frozen; otherwise the visible characters grouped into one span per
/// maximal run sharing a style, with withheld characters omitted.
#[verifier::loop_isolation(false)]
pub fn build_transcription_spans(
    transcription: &Vec<char>,
    elapsed_since_update: i64,
    animation_start_index: usize,
    is_ready: bool,
    is_listening: bool,
    has_frozen_text: bool,
) -> (r: Vec<Span>)
    requires
        transcription@.len() <= MAX_TEXT,
        animation_start_index <= MAX_TEXT,
        0 <= elapsed_since_update <= MAX_TIME_MS,
    ensures
        transcription@.len() == 0 && is_ready && is_listening && !has_frozen_text ==> {
            &&& r@.len() == 1
            &&& r@[0].text@ == placeholder_text()
            &&& r@[0].style == (Style { fg: Color::Palette(8), bold: false, italic: true })
        },
        transcription@.len() == 0 && !(is_ready && is_listening && !has_frozen_text) ==> r@.len()
            == 0,
        transcription@.len() > 0 ==> spans_gview(r@) == transcription_spans_from(
            transcription@,
            animation_start_index as int,
            elapsed_since_update as int,
            0,
        ),
{
    let ghost c = transcription@;
    let ghost starti = animation_start_index as int;
    let ghost el = elapsed_since_update as int;
    let mut r: Vec<Span> = Vec::new();
    if transcription.len() == 0 {
        if is_ready && is_listening && !has_frozen_text {
            let text = vec!['S', 'p', 'e', 'a', 'k', ' ', 'n', 'o', 'w', '.', '.', '.'];
            let hint = Span { text, style: Style { fg: Color::Palette(8), bold: false, italic: true } };
            r.push(hint);
            proof {
                assert(r@[0].text@ =~= placeholder_text());
            }
        }
        return r;
    }
    let n = transcription.len();
    let mut i: usize = 0;
    proof {
        assert(spans_gview(r@) =~= Seq::<GSpan>::empty());
        assert(spans_gview(r@) + transcription_spans_from(c, starti, el, 0)
            =~= transcription_spans_from(c, starti, el, 0));
    }
    while i < n
        invariant
            i <= n,
            spans_gview(r@) + transcription_spans_from(c, starti, el, i as int)
                == transcription_spans_from(c, starti, el, 0),
        decreases n - i,
    {
        let ghost prei = i as int;
        match get_char_color(i, animation_start_index, elapsed_since_update) {
            None => {
                proof {
                    assert(transcription_spans_from(c, starti, el, prei)
                        == transcription_spans_from(c, starti, el, prei + 1));
                }
                i = i + 1;
            },
            Some(color) => {
                let st = Style::fg(color);
                let mut run: Vec<char> = Vec::new();
                run.push(transcription[i]);
                proof {
                    assert(run@ =~= c.subrange(prei, prei + 1));
                }
                i = i + 1;
                while i < n && continues_style(i, animation_start_index, elapsed_since_update, st)
                    invariant
                        prei < i <= n,
                        spec_span_style(prei, starti, el) == Some(st),
                        forall|m: int|
                            prei < m < i ==> spec_span_style(m, starti, el) == Some(st),
                        run@ == c.subrange(prei, i as int),
                    decreases n - i,
                {
                    let ghost run0 = run@;
                    run.push(transcription[i]);
                    proof {
                        assert(run@ =~= c.subrange(prei, i + 1));
                    }
                    i = i + 1;
                }
                proof {
                    lemma_style_run_end_exact(n as int, starti, el, prei + 1, i as int, st);
                }
                let ghost r0 = r@;
                let ghost runv = run@;
                let span = Span { text: run, style: st };
                r.push(span);
                proof {
                    lemma_spans_gview_push(r0, r@.last());
                    let ii = i as int;
                    assert(transcription_spans_from(c, starti, el, prei) == seq![
                        GSpan { text: c.subrange(prei, ii), style: st },
                    ] + transcription_spans_from(c, starti, el, ii));
                    assert(spans_gview(r@) + transcription_spans_from(c, starti, el, ii)
                        =~= spans_gview(r0) + transcription_spans_from(c, starti, el, prei));
                }
            },
        }
    }
    proof {
        assert(spans_gview(r@) + Seq::<GSpan>::empty() =~= spans_gview(r@));
    }
    r
}

} // verus!
