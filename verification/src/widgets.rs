//! Small display widgets: styled spans and lines, the status spinner, the
//! idle placeholder, a fixed controls line, and a stand-alone animated
//! transcription widget.

use vstd::prelude::*;

use crate::cell::{Cell, Color, Style};
use crate::inline_term::InlineSurface;
use crate::ui::{
    CHAR_FADE_DELAY_MS, MAX_TEXT, MAX_TIME_MS, cell_of, dim_style, fade_style, fade_style_at,
    loading_frame, pulse_level, settled_style, spec_loading_frame, spec_pulse_level, styled_cells,
};

verus! {

/// A run of text in one style.
pub struct Span {
    pub text: Vec<char>,
    pub style: Style,
}

/// The cells a span paints.
pub open spec fn span_cells(s: Span) -> Seq<Cell> {
    styled_cells(s.text@, s.style)
}

impl Span {
    /// A span in the terminal's default style.
    pub fn new(text: Vec<char>) -> (r: Span)
        ensures
            r.text@ == text@,
            r.style == Style::plain_spec(),
    {
        Span { text, style: Style::plain() }
    }

    /// A span with the given foreground colour.
    pub fn styled(text: Vec<char>, fg: Color) -> (r: Span)
        ensures
            r.text@ == text@,
            r.style == Style::fg_spec(fg),
    {
        Span { text, style: Style::fg(fg) }
    }

    /// Number of characters in the span.
    pub fn len(&self) -> (r: usize)
        ensures
            r == self.text@.len(),
    {
        self.text.len()
    }

    pub fn is_empty(&self) -> (r: bool)
        ensures
            r == (self.text@.len() == 0),
    {
        self.text.len() == 0
    }
}

/// The cells painted by the spans `i..` of a line, concatenated.
pub open spec fn line_cells_from(spans: Seq<Span>, i: int) -> Seq<Cell>
    decreases spans.len() - i,
{
    if i < 0 || i >= spans.len() {
        Seq::empty()
    } else {
        span_cells(spans[i]) + line_cells_from(spans, i + 1)
    }
}

/// A line of styled spans.
pub struct Line {
    pub spans: Vec<Span>,
}

/// The cells a line paints, left to right.
pub open spec fn line_cells(l: Line) -> Seq<Cell> {
    line_cells_from(l.spans@, 0)
}

/// Appending a span appends its cells.
proof fn lemma_line_cells_push(spans: Seq<Span>, s: Span, i: int)
    requires
        0 <= i <= spans.len(),
    ensures
        line_cells_from(spans.push(s), i) == line_cells_from(spans, i) + span_cells(s),
    decreases spans.len() - i,
{
    if i < spans.len() {
        lemma_line_cells_push(spans, s, i + 1);
        assert(spans.push(s)[i] == spans[i]);
        assert(line_cells_from(spans.push(s), i) == span_cells(spans[i]) + line_cells_from(
            spans.push(s),
            i + 1,
        ));
        assert(line_cells_from(spans, i) == span_cells(spans[i]) + line_cells_from(spans, i + 1));
        assert(span_cells(spans[i]) + (line_cells_from(spans, i + 1) + span_cells(s)) =~= (
        span_cells(spans[i]) + line_cells_from(spans, i + 1)) + span_cells(s));
    } else {
        assert(line_cells_from(spans.push(s), i + 1) == Seq::<Cell>::empty());
        assert(line_cells_from(spans.push(s), i) == span_cells(s) + Seq::<Cell>::empty());
        assert(line_cells_from(spans.push(s), i) =~= line_cells_from(spans, i) + span_cells(s));
    }
}

impl Line {
    pub fn new() -> (r: Line)
        ensures
            r.spans@.len() == 0,
            line_cells(r) == Seq::<Cell>::empty(),
    {
        Line { spans: Vec::new() }
    }

    /// Append a span to the line.
    pub fn push(&mut self, span: Span)
        ensures
            final(self).spans@ == old(self).spans@.push(span),
            line_cells(*final(self)) == line_cells(*old(self)) + span_cells(span),
    {
        let ghost s0 = self.spans@;
        self.spans.push(span);
        proof {
            lemma_line_cells_push(s0, self.spans@.last(), 0);
        }
    }

    /// Total number of characters across the spans.
    pub fn len(&self) -> (r: usize)
        requires
            line_cells(*self).len() <= usize::MAX,
        ensures
            r == line_cells(*self).len(),
    {
        let mut total: usize = 0;
        let mut i: usize = 0;
        while i < self.spans.len()
            invariant
                i <= self.spans@.len(),
                line_cells(*self).len() <= usize::MAX,
                total + line_cells_from(self.spans@, i as int).len() == line_cells(*self).len(),
            decreases self.spans@.len() - i,
        {
            proof {
                lemma_line_cells_from_len(self.spans@, i as int);
            }
            total = total + self.spans[i].text.len();
            i = i + 1;
        }
        total
    }

    /// Whether the line paints no characters.
    pub fn is_empty(&self) -> (r: bool)
        requires
            line_cells(*self).len() <= usize::MAX,
        ensures
            r == (line_cells(*self).len() == 0),
    {
        self.len() == 0
    }

    /// Paint the line into one surface row from column zero, clipping at
    /// the right edge; other cells of the row are untouched.
    pub fn render_to(&self, surface: &mut InlineSurface, row: usize)
        requires
            old(surface).wf(),
            line_cells(*self).len() <= usize::MAX,
        ensures
            final(surface).wf(),
            final(surface).spec_width() == old(surface).spec_width(),
            final(surface).spec_height() == old(surface).spec_height(),
            final(surface).prev() == old(surface).prev(),
            final(surface).cur().len() == old(surface).cur().len(),
            forall|yy: int|
                0 <= yy < old(surface).cur().len() && yy != row ==> final(surface).cur()[yy]
                    == old(surface).cur()[yy],
            row < old(surface).spec_height() ==> {
                &&& final(surface).cur()[row as int].len() == old(surface).spec_width()
                &&& forall|c: int|
                    0 <= c < old(surface).spec_width() ==> final(surface).cur()[row as int][c] == (
                    if c < line_cells(*self).len() {
                        line_cells(*self)[c]
                    } else {
                        old(surface).cur()[row as int][c]
                    })
            },
            row >= old(surface).spec_height() ==> final(surface).cur() == old(surface).cur(),
    {
        let mut i: usize = 0;
        let mut col: usize = 0;
        let (width, _) = surface.dimensions();
        while i < self.spans.len()
            invariant
                old(surface).wf(),
                surface.wf(),
                i <= self.spans@.len(),
                width == old(surface).spec_width(),
                surface.spec_width() == old(surface).spec_width(),
                surface.spec_height() == old(surface).spec_height(),
                surface.prev() == old(surface).prev(),
                surface.cur().len() == old(surface).cur().len(),
                col == line_cells(*self).len() - line_cells_from(self.spans@, i as int).len(),
                line_cells(*self).len() <= usize::MAX,
                forall|yy: int|
                    0 <= yy < old(surface).cur().len() && yy != row ==> surface.cur()[yy] == old(
                        surface,
                    ).cur()[yy],
                row < old(surface).spec_height() ==> {
                    &&& surface.cur()[row as int].len() == old(surface).spec_width()
                    &&& forall|c: int|
                        0 <= c < old(surface).spec_width() ==> surface.cur()[row as int][c] == (
                        if c < col && c < line_cells(*self).len() {
                            line_cells(*self)[c]
                        } else {
                            old(surface).cur()[row as int][c]
                        })
                },
                row >= old(surface).spec_height() ==> surface.cur() == old(surface).cur(),
            decreases self.spans@.len() - i,
        {
            proof {
                lemma_line_cells_from_len(self.spans@, i as int);
                lemma_line_cells_prefix(*self, i as int);
            }
            let span = &self.spans[i];
            let mut k: usize = 0;
            while k < span.text.len()
                invariant
                    old(surface).wf(),
                    surface.wf(),
                    i < self.spans@.len(),
                    span == self.spans@[i as int],
                    k <= span.text@.len(),
                    width == old(surface).spec_width(),
                    surface.spec_width() == old(surface).spec_width(),
                    surface.spec_height() == old(surface).spec_height(),
                    surface.prev() == old(surface).prev(),
                    surface.cur().len() == old(surface).cur().len(),
                    col + span.text@.len() - k == line_cells(*self).len() - line_cells_from(
                        self.spans@,
                        i + 1,
                    ).len(),
                    col == line_cells(*self).len() - line_cells_from(self.spans@, i as int).len()
                        + k,
                    line_cells(*self).len() <= usize::MAX,
                    forall|c: int|
                        0 <= c < col ==> line_cells(*self)[c] == line_cells(*self)[c],
                    forall|yy: int|
                        0 <= yy < old(surface).cur().len() && yy != row ==> surface.cur()[yy]
                            == old(surface).cur()[yy],
                    row < old(surface).spec_height() ==> {
                        &&& surface.cur()[row as int].len() == old(surface).spec_width()
                        &&& forall|c: int|
                            0 <= c < old(surface).spec_width() ==> surface.cur()[row as int][c]
                                == (
                            if c < col && c < line_cells(*self).len() {
                                line_cells(*self)[c]
                            } else {
                                old(surface).cur()[row as int][c]
                            })
                    },
                    row >= old(surface).spec_height() ==> surface.cur() == old(surface).cur(),
                decreases span.text@.len() - k,
            {
                if col >= width {
                    return ;
                }
                proof {
                    lemma_line_cells_prefix(*self, i as int);
                    let ki = k as int;
                    assert(line_cells(*self)[col as int] == span_cells(self.spans@[i as int])[ki]);
                }
                surface.set_cell(col, row, Cell::new(span.text[k], span.style));
                col = col + 1;
                k = k + 1;
            }
            i = i + 1;
        }
    }
}

/// The concatenated cells of the spans `i..` are a suffix of the whole
/// line's cells.
proof fn lemma_line_cells_from_len(spans: Seq<Span>, i: int)
    requires
        0 <= i <= spans.len(),
    ensures
        line_cells_from(spans, i).len() <= line_cells_from(spans, 0).len(),
        i < spans.len() ==> line_cells_from(spans, i).len() == span_cells(spans[i]).len()
            + line_cells_from(spans, i + 1).len(),
    decreases i,
{
    if i > 0 {
        lemma_line_cells_from_suffix_le(spans, 0, i);
    }
}

/// Dropping leading spans never lengthens the concatenation.
proof fn lemma_line_cells_from_suffix_le(spans: Seq<Span>, i: int, k: int)
    requires
        0 <= i <= k <= spans.len(),
    ensures
        line_cells_from(spans, k).len() <= line_cells_from(spans, i).len(),
    decreases k - i,
{
    if i < k {
        lemma_line_cells_from_suffix_le(spans, i + 1, k);
    }
}

/// The cells before span `i` are exactly the line's first
/// `line_cells(l).len() - line_cells_from(spans, i).len()` cells, so the
/// cell at offset `k` of span `i` is the line cell at that base plus `k`.
proof fn lemma_line_cells_prefix(l: Line, i: int)
    requires
        0 <= i < l.spans@.len(),
    ensures
        forall|k: int|
            0 <= k < span_cells(l.spans@[i]).len() ==> line_cells(l)[line_cells(l).len()
                - line_cells_from(l.spans@, i).len() + k] == span_cells(l.spans@[i])[k],
{
    lemma_line_cells_split(l.spans@, 0, i);
}

/// `line_cells_from(spans, j)` splits at any later index `i` into the
/// cells of spans `j..i` followed by `line_cells_from(spans, i)`.
proof fn lemma_line_cells_split(spans: Seq<Span>, j: int, i: int)
    requires
        0 <= j <= i < spans.len(),
    ensures
        forall|k: int|
            0 <= k < span_cells(spans[i]).len() ==> line_cells_from(spans, j)[line_cells_from(
                spans,
                j,
            ).len() - line_cells_from(spans, i).len() + k] == span_cells(spans[i])[k],
    decreases i - j,
{
    if j < i {
        lemma_line_cells_split(spans, j + 1, i);
        lemma_line_cells_from_suffix_le(spans, j + 1, i);
        assert forall|k: int| 0 <= k < span_cells(spans[i]).len() implies line_cells_from(
            spans,
            j,
        )[line_cells_from(spans, j).len() - line_cells_from(spans, i).len() + k] == span_cells(
            spans[i],
        )[k] by {
            let tail = line_cells_from(spans, j + 1);
            let idx = tail.len() - line_cells_from(spans, i).len() + k;
            assert(line_cells_from(spans, j) == span_cells(spans[j]) + tail);
            assert(tail[idx] == span_cells(spans[i])[k]);
        }
    }
}

/// Spinner widget states.
#[derive(Clone, Copy, PartialEq, Eq, Structural, Debug)]
pub enum SpinnerState {
    Loading,
    Listening,
    Idle,
}

/// The status spinner: a warming-up animation, a pulsing recording dot,
/// or an idle indicator.
pub struct Spinner {
    pub state: SpinnerState,
    pub frame: usize,
}

/// The span the spinner paints at a given state and frame.
pub open spec fn spinner_span_text(s: Spinner) -> Seq<char> {
    match s.state {
        SpinnerState::Loading => seq![spec_loading_frame(s.frame as int % 12)],
        SpinnerState::Listening => seq!['\u{25cf}'],
        SpinnerState::Idle => seq!['\u{25cb}'],
    }
}

/// The spinner's colour at a given state and frame.
pub open spec fn spinner_span_style(s: Spinner) -> Style {
    match s.state {
        SpinnerState::Loading => dim_style(),
        SpinnerState::Listening => Style {
            fg: Color::Rgb(spec_pulse_level(s.frame as int % 8), 0, 0),
            bold: false,
            italic: false,
        },
        SpinnerState::Idle => dim_style(),
    }
}

impl Spinner {
    pub fn new() -> (r: Spinner)
        ensures
            r.state == SpinnerState::Loading,
            r.frame == 0,
    {
        Spinner { state: SpinnerState::Loading, frame: 0 }
    }

    /// Advance the animation frame, wrapping at the type's limit.
    pub fn tick(&mut self)
        ensures
            final(self).state == old(self).state,
            final(self).frame == (if old(self).frame == usize::MAX {
                0usize
            } else {
                (old(self).frame + 1) as usize
            }),
    {
        if self.frame == usize::MAX {
            self.frame = 0;
        } else {
            self.frame = self.frame + 1;
        }
    }

    /// The glyph and colour for the current state and frame.
    pub fn to_span(&self) -> (r: Span)
        ensures
            r.text@ == spinner_span_text(*self),
            r.style == spinner_span_style(*self),
    {
        match self.state {
            SpinnerState::Loading => {
                let mut text: Vec<char> = Vec::new();
                text.push(loading_frame(self.frame % 12));
                proof {
                    assert(text@ =~= spinner_span_text(*self));
                }
                Span { text, style: Style { fg: Color::Palette(8), bold: false, italic: false } }
            },
            SpinnerState::Listening => {
                let text = vec!['\u{25cf}'];
                Span {
                    text,
                    style: Style {
                        fg: Color::Rgb(pulse_level(self.frame % 8), 0, 0),
                        bold: false,
                        italic: false,
                    },
                }
            },
            SpinnerState::Idle => {
                let text = vec!['\u{25cb}'];
                Span { text, style: Style { fg: Color::Palette(8), bold: false, italic: false } }
            },
        }
    }
}

impl Default for Spinner {
    fn default() -> (r: Spinner)
        ensures
            r.state == SpinnerState::Loading,
            r.frame == 0,
    {
        Spinner::new()
    }
}

/// The idle hint widget.
pub struct Placeholder {
    pub visible: bool,
}

impl Placeholder {
    pub fn new() -> (r: Placeholder)
        ensures
            !r.visible,
    {
        Placeholder { visible: false }
    }

    /// The dim hint span while visible, nothing otherwise.
    pub fn to_span(&self) -> (r: Option<Span>)
        ensures
            self.visible ==> {
                &&& r is Some
                &&& r->0.text@ == crate::ui::placeholder_text()
                &&& r->0.style == dim_style()
            },
            !self.visible ==> r is None,
    {
        if self.visible {
            let text = vec!['S', 'p', 'e', 'a', 'k', ' ', 'n', 'o', 'w', '.', '.', '.'];
            Some(Span { text, style: Style { fg: Color::Palette(8), bold: false, italic: false } })
        } else {
            None
        }
    }
}

impl Default for Placeholder {
    fn default() -> (r: Placeholder)
        ensures
            !r.visible,
    {
        Placeholder::new()
    }
}

/// The keyboard-hint widget with its fixed shortcuts.
pub struct Controls {
    pub visible: bool,
}

impl Controls {
    pub fn new() -> (r: Controls)
        ensures
            !r.visible,
    {
        Controls { visible: false }
    }

    /// The hint line while visible: each key in its accent colour with a
    /// dim label, nothing otherwise.
    pub fn to_line(&self) -> (r: Option<Line>)
        ensures
            self.visible ==> {
                &&& r is Some
                &&& line_cells(r->0) == controls_hint_cells()
            },
            !self.visible ==> r is None,
    {
        if !self.visible {
            return None;
        }
        let mut line = Line::new();
        line.push(Span::styled(vec!['E', 'n', 't', 'e', 'r'], Color::Palette(3)));
        line.push(
            Span::styled(
                vec![' ', 'f', 'i', 'n', 'i', 's', 'h', ' ', '\u{2022}', ' '],
                Color::Palette(8),
            ),
        );
        line.push(Span::styled(vec!['C', 't', 'r', 'l', '+', 'R'], Color::Palette(4)));
        line.push(
            Span::styled(
                vec![' ', 'r', 'e', 's', 't', 'a', 'r', 't', ' ', '\u{2022}', ' '],
                Color::Palette(8),
            ),
        );
        line.push(Span::styled(vec!['C', 't', 'r', 'l', '+', 'C'], Color::Palette(1)));
        line.push(Span::styled(vec![' ', 'c', 'a', 'n', 'c', 'e', 'l'], Color::Palette(8)));
        proof {
            assert(line_cells(line) =~= controls_hint_cells());
        }
        Some(line)
    }
}

/// The cells of the fixed hint line: keys in accent colours, labels dim.
pub open spec fn controls_hint_cells() -> Seq<Cell> {
    styled_cells(seq!['E', 'n', 't', 'e', 'r'], Style::fg_spec(Color::Palette(3))) + styled_cells(
        seq![' ', 'f', 'i', 'n', 'i', 's', 'h', ' ', '\u{2022}', ' '],
        Style::fg_spec(Color::Palette(8)),
    ) + styled_cells(seq!['C', 't', 'r', 'l', '+', 'R'], Style::fg_spec(Color::Palette(4)))
        + styled_cells(
        seq![' ', 'r', 'e', 's', 't', 'a', 'r', 't', ' ', '\u{2022}', ' '],
        Style::fg_spec(Color::Palette(8)),
    ) + styled_cells(seq!['C', 't', 'r', 'l', '+', 'C'], Style::fg_spec(Color::Palette(1)))
        + styled_cells(seq![' ', 'c', 'a', 'n', 'c', 'e', 'l'], Style::fg_spec(Color::Palette(8)))
}

impl Default for Controls {
    fn default() -> (r: Controls)
        ensures
            !r.visible,
    {
        Controls::new()
    }
}

/// The animation state of one transcription character.
#[derive(Clone, Copy, PartialEq, Eq, Structural, Debug)]
pub enum CharState {
    /// Fully settled: drawn in the settled colour.
    Settled,
    /// Fading in, this many milliseconds after its appearance.
    Animating { age_ms: i64 },
    /// Withheld by the staggered reveal.
    Hidden,
}

/// A stand-alone transcription widget: one text with a count of settled
/// leading characters and an animation anchor for the rest.
pub struct Transcription {
    pub text: Vec<char>,
    pub settled_count: usize,
    pub animation_start_ms: i64,
}

/// The animation state of character `index` at `rel` past the anchor.
pub open spec fn spec_trans_char_state(t: Transcription, index: int, rel: int) -> CharState {
    if index < t.settled_count {
        CharState::Settled
    } else if rel < (index - t.settled_count) * (CHAR_FADE_DELAY_MS as int) {
        CharState::Hidden
    } else {
        CharState::Animating {
            age_ms: (rel - (index - t.settled_count) * (CHAR_FADE_DELAY_MS as int)) as i64,
        }
    }
}

/// The colour a character state draws in, if any.
pub open spec fn spec_state_color(state: CharState) -> Option<Color> {
    match state {
        CharState::Settled => Some(settled_style().fg),
        CharState::Animating { age_ms } => Some(fade_style(age_ms as int).fg),
        CharState::Hidden => None,
    }
}

/// The settled characters of the widget: all of them up to the settled
/// count, clipped at the text length.
pub open spec fn trans_settled(t: Transcription) -> int {
    if t.settled_count <= t.text@.len() {
        t.settled_count as int
    } else {
        t.text@.len() as int
    }
}

/// How many characters the widget draws at `rel` past the anchor.
pub open spec fn trans_visible(t: Transcription, rel: int) -> int {
    trans_settled(t) + crate::ui::visible_count(t.text@.len() - trans_settled(t), rel)
}

impl Transcription {
    pub open spec fn wf(self) -> bool {
        &&& self.text@.len() <= MAX_TEXT
        &&& 0 <= self.animation_start_ms <= MAX_TIME_MS
    }

    pub fn new() -> (r: Transcription)
        ensures
            r.wf(),
            r.text@ == Seq::<char>::empty(),
            r.settled_count == 0,
            r.animation_start_ms == 0,
    {
        Transcription { text: Vec::new(), settled_count: 0, animation_start_ms: 0 }
    }

    /// Replace the text.  The anchor starts only when the first text
    /// arrives into an empty widget; later replacements keep the running
    /// animation.
    pub fn set_text(&mut self, text: Vec<char>, elapsed_ms: i64)
        requires
            old(self).wf(),
            text@.len() <= MAX_TEXT,
            0 <= elapsed_ms <= MAX_TIME_MS,
        ensures
            final(self).wf(),
            final(self).text@ == text@,
            final(self).settled_count == old(self).settled_count,
            final(self).animation_start_ms == (if old(self).text@.len() == 0 && text@.len() > 0 {
                elapsed_ms
            } else {
                old(self).animation_start_ms
            }),
    {
        if text.len() > self.text.len() && self.text.len() == 0 {
            self.animation_start_ms = elapsed_ms;
        }
        self.text = text;
    }

    /// Mark every current character as settled.
    pub fn settle_all(&mut self)
        requires
            old(self).wf(),
        ensures
            final(self).wf(),
            final(self).text == old(self).text,
            final(self).settled_count == old(self).text@.len(),
            final(self).animation_start_ms == old(self).animation_start_ms,
    {
        self.settled_count = self.text.len();
    }

    /// The animation state of one character at `relative_time` past the
    /// anchor.
    pub fn char_state(&self, index: usize, relative_time: i64) -> (r: CharState)
        requires
            index <= MAX_TEXT,
            self.settled_count <= MAX_TEXT,
            -0x4000_0000_0000_0000 <= relative_time <= 0x4000_0000_0000_0000,
        ensures
            r == spec_trans_char_state(*self, index as int, relative_time as int),
    {
        if index < self.settled_count {
            CharState::Settled
        } else {
            let appear = CHAR_FADE_DELAY_MS * ((index - self.settled_count) as i64);
            if relative_time < appear {
                CharState::Hidden
            } else {
                CharState::Animating { age_ms: relative_time - appear }
            }
        }
    }

    /// The colour a character state draws in, if any.
    pub fn state_to_color(&self, state: &CharState) -> (r: Option<Color>)
        requires
            state is Animating ==> state->age_ms >= 0,
        ensures
            r == spec_state_color(*state),
    {
        match state {
            CharState::Settled => Some(Color::Rgb(255, 255, 255)),
            CharState::Animating { age_ms } => Some(fade_style_at(*age_ms).fg),
            CharState::Hidden => None,
        }
    }

    /// One single-character span per drawn character: the settled prefix
    /// in the settled colour, the visible volatile characters in their
    /// fade colours, withheld characters omitted.
    #[verifier::loop_isolation(false)]
    pub fn to_spans(&self, elapsed_ms: i64) -> (r: Vec<Span>)
        requires
            self.wf(),
            self.settled_count <= MAX_TEXT,
            0 <= elapsed_ms <= MAX_TIME_MS,
        ensures
            r@.len() == trans_visible(*self, elapsed_ms - self.animation_start_ms),
            forall|k: int|
                0 <= k < r@.len() ==> (#[trigger] r@[k]).text@ =~= seq![self.text@[k]],
            forall|k: int|
                0 <= k < trans_settled(*self) ==> (#[trigger] r@[k]).style == settled_style(),
            forall|k: int|
                trans_settled(*self) <= k < r@.len() ==> (#[trigger] r@[k]).style == fade_style(
                    elapsed_ms - self.animation_start_ms - (k - trans_settled(*self)) * (
                    CHAR_FADE_DELAY_MS as int),
                ),
    {
        let rel: i64 = elapsed_ms - self.animation_start_ms;
        let mut r: Vec<Span> = Vec::new();
        let settled: usize = if self.settled_count <= self.text.len() {
            self.settled_count
        } else {
            self.text.len()
        };
        let mut i: usize = 0;
        while i < settled
            invariant
                i <= settled,
                r@.len() == i,
                forall|k: int| 0 <= k < i ==> (#[trigger] r@[k]).text@ =~= seq![self.text@[k]],
                forall|k: int| 0 <= k < i ==> (#[trigger] r@[k]).style == settled_style(),
            decreases settled - i,
        {
            let c = self.text[i];
            r.push(char_span(c, Style { fg: Color::Rgb(255, 255, 255), bold: false, italic: false }));
            i = i + 1;
        }
        let vol_len: usize = self.text.len() - settled;
        let vcount: usize = if rel < 0 {
            0
        } else {
            let cap: i64 = rel / CHAR_FADE_DELAY_MS + 1;
            if cap >= vol_len as i64 {
                vol_len
            } else {
                cap as usize
            }
        };
        proof {
            assert(vcount as int == crate::ui::visible_count(vol_len as int, rel as int));
        }
        let mut m: usize = 0;
        while m < vcount
            invariant
                m <= vcount,
                vcount <= vol_len,
                vol_len == self.text@.len() - settled,
                r@.len() == settled + m,
                forall|k: int|
                    0 <= k < settled + m ==> (#[trigger] r@[k]).text@ =~= seq![self.text@[k]],
                forall|k: int| 0 <= k < settled ==> (#[trigger] r@[k]).style == settled_style(),
                forall|k: int|
                    settled <= k < settled + m ==> (#[trigger] r@[k]).style == fade_style(
                        rel - (k - settled) * (CHAR_FADE_DELAY_MS as int),
                    ),
            decreases vcount - m,
        {
            proof {
                assert(rel >= CHAR_FADE_DELAY_MS * m) by {
                    assert(rel >= 0);
                    assert(m as int <= rel as int / 20);
                    assert(rel as int == 20 * (rel as int / 20) + rel as int % 20);
                    assert(20 * (m as int) <= 20 * (rel as int / 20)) by (nonlinear_arith)
                        requires
                            m as int <= rel as int / 20,
                    ;
                }
            }
            let age: i64 = rel - CHAR_FADE_DELAY_MS * (m as i64);
            let c = self.text[settled + m];
            r.push(char_span(c, fade_style_at(age)));
            m = m + 1;
        }
        r
    }

    /// Rows needed at the given width: the first row loses two columns to
    /// the status glyph, and later rows wrap at the full width, exactly as
    /// the renderer lays the stream out.
    pub fn lines_needed(&self, width: usize) -> (r: usize)
        requires
            self.wf(),
            width <= crate::inline_term::MAX_DIM,
        ensures
            r as int == spec_trans_lines_needed(*self, width as int),
    {
        if width == 0 {
            return 1;
        }
        let char_count = self.text.len();
        let available = if width >= 2 {
            width - 2
        } else {
            0
        };
        if char_count == 0 || available == 0 {
            return 1;
        }
        if char_count <= available {
            return 1;
        }
        let remaining = char_count - available;
        1 + (remaining + width - 1) / width
    }
}

/// Rows needed by the transcription widget: one for the status prefix and
/// the first `width - 2` characters, then one per further full-width row
/// (see [`Transcription::lines_needed`]).
pub open spec fn spec_trans_lines_needed(t: Transcription, width: int) -> int {
    if width == 0 {
        1
    } else {
        let available = if width >= 2 {
            width - 2
        } else {
            0
        };
        let n = t.text@.len();
        if n == 0 || available == 0 {
            1
        } else if n <= available {
            1
        } else {
            1 + (n - available + width - 1) / width
        }
    }
}

/// A single-character span.
fn char_span(c: char, style: Style) -> (r: Span)
    ensures
        r.text@ =~= seq![c],
        r.style == style,
{
    let mut text: Vec<char> = Vec::new();
    text.push(c);
    Span { text, style }
}

impl Default for Transcription {
    fn default() -> (r: Transcription)
        ensures
            r.wf(),
            r.text@ == Seq::<char>::empty(),
            r.settled_count == 0,
            r.animation_start_ms == 0,
    {
        Transcription::new()
    }
}

/// The widget-based compositor: a spinner, a transcription, the idle
/// placeholder and the controls line composed into an [`InlineSurface`].
pub struct ClaudioUi {
    pub spinner: Spinner,
    pub transcription: Transcription,
    pub placeholder: Placeholder,
    pub controls: Controls,
}

/// The spinner's single cell.
pub open spec fn spinner_cell_of(s: Spinner) -> Cell {
    cell_of(spinner_span_text(s)[0], spinner_span_style(s))
}

/// The cell stream this compositor wraps: the settled prefix in the
/// settled colour, then the visible volatile characters in their fade
/// styles.
pub open spec fn claudio_stream(t: Transcription, rel: int) -> Seq<Cell> {
    styled_cells(t.text@.subrange(0, trans_settled(t)), settled_style()) + crate::ui::anim_cells(
        t.text@.subrange(trans_settled(t), t.text@.len() as int),
        rel,
    )
}

/// A row of `w` cells with `top` laid over the beginning of `under`.
pub open spec fn overlay_cell(top: Seq<Cell>, under: Seq<Cell>, x: int) -> Cell {
    if 0 <= x < top.len() {
        top[x]
    } else {
        under[x]
    }
}

pub open spec fn overlay_row(top: Seq<Cell>, under: Seq<Cell>, w: int) -> Seq<Cell> {
    Seq::new(w as nat, |x: int| overlay_cell(top, under, x))
}

/// What one grid row shows after [`ClaudioUi::render`]: the spinner, a
/// space and the head of the stream (or the truncated placeholder) on row
/// 0; full-width slices of the stream on every further row; and, when
/// visible, the controls line laid over the beginning of the last row.
pub open spec fn spec_claudio_row(c: ClaudioUi, now: int, w: int, h: int, r: int) -> Seq<Cell> {
    let flw = crate::ui::first_line_width(w);
    let rel = now - c.transcription.animation_start_ms;
    let stream = claudio_stream(c.transcription, rel);
    let base: Seq<Cell> = if r == 0 {
        seq![spinner_cell_of(c.spinner), Cell::blank_spec()] + (if c.transcription.text@.len()
            == 0 {
            if c.placeholder.visible {
                crate::ui::fit_from(styled_cells(crate::ui::placeholder_text(), dim_style()), 0, flw)
            } else {
                Seq::<Cell>::empty()
            }
        } else {
            crate::ui::fit_from(stream, 0, flw)
        })
    } else {
        crate::ui::fit_from(stream, flw + (r - 1) * w, w)
    };
    let row = crate::ui::fit_from(base, 0, w);
    if c.controls.visible && h > 0 && r == h - 1 {
        overlay_row(controls_hint_cells(), row, w)
    } else {
        row
    }
}

/// Build the stream of drawn transcription cells.
#[verifier::loop_isolation(false)]
fn claudio_stream_exec(t: &Transcription, rel: i64) -> (r: Vec<Cell>)
    requires
        t.wf(),
    ensures
        r@ == claudio_stream(*t, rel as int),
        r@.len() <= MAX_TEXT,
{
    let mut v: Vec<Cell> = Vec::new();
    let white = Style { fg: Color::Rgb(255, 255, 255), bold: false, italic: false };
    let settled: usize = if t.settled_count <= t.text.len() {
        t.settled_count
    } else {
        t.text.len()
    };
    let mut i: usize = 0;
    while i < settled
        invariant
            i <= settled,
            settled == trans_settled(*t),
            v@ == styled_cells(t.text@.subrange(0, i as int), settled_style()),
        decreases settled - i,
    {
        v.push(Cell::new(t.text[i], white));
        proof {
            assert(v@ =~= styled_cells(t.text@.subrange(0, i + 1), settled_style()));
        }
        i = i + 1;
    }
    let ghost settled_part = styled_cells(t.text@.subrange(0, settled as int), settled_style());
    let ghost vol = t.text@.subrange(settled as int, t.text@.len() as int);
    let vol_len: usize = t.text.len() - settled;
    let vcount: usize = if rel < 0 {
        0
    } else {
        let cap: i64 = rel / CHAR_FADE_DELAY_MS + 1;
        if cap >= vol_len as i64 {
            vol_len
        } else {
            cap as usize
        }
    };
    proof {
        assert(vcount as int == crate::ui::visible_count(vol.len() as int, rel as int));
    }
    let mut m: usize = 0;
    while m < vcount
        invariant
            m <= vcount,
            vcount <= vol_len,
            vol_len == t.text@.len() - settled,
            settled == trans_settled(*t),
            vol == t.text@.subrange(settled as int, t.text@.len() as int),
            vcount as int == crate::ui::visible_count(vol.len() as int, rel as int),
            v@.len() == settled + m,
            v@.subrange(0, settled as int) == settled_part,
            forall|j: int|
                0 <= j < m ==> v@[settled + j] == crate::ui::anim_cell(vol, rel as int, j),
        decreases vcount - m,
    {
        proof {
            assert(rel >= 0);
            assert(rel >= CHAR_FADE_DELAY_MS * m) by {
                assert(m as int <= rel as int / 20);
                assert(rel as int == 20 * (rel as int / 20) + rel as int % 20);
                assert(20 * (m as int) <= 20 * (rel as int / 20)) by (nonlinear_arith)
                    requires
                        m as int <= rel as int / 20,
                ;
            }
        }
        let age: i64 = rel - CHAR_FADE_DELAY_MS * (m as i64);
        let style = fade_style_at(age);
        let ghost v0 = v@;
        v.push(Cell::new(t.text[settled + m], style));
        proof {
            assert(forall|j: int| 0 <= j < v0.len() ==> v@[j] == v0[j]);
            assert(v@.subrange(0, settled as int) =~= v0.subrange(0, settled as int));
        }
        m = m + 1;
    }
    proof {
        assert(v@ =~= claudio_stream(*t, rel as int));
    }
    v
}

/// Build the fixed controls hint line as cells.
fn controls_hint_exec() -> (r: Vec<Cell>)
    ensures
        r@ == controls_hint_cells(),
{
    let mut v: Vec<Cell> = Vec::new();
    crate::ui::push_styled(
        &mut v,
        &vec!['E', 'n', 't', 'e', 'r'],
        Style { fg: Color::Palette(3), bold: false, italic: false },
    );
    crate::ui::push_styled(
        &mut v,
        &vec![' ', 'f', 'i', 'n', 'i', 's', 'h', ' ', '\u{2022}', ' '],
        Style { fg: Color::Palette(8), bold: false, italic: false },
    );
    crate::ui::push_styled(
        &mut v,
        &vec!['C', 't', 'r', 'l', '+', 'R'],
        Style { fg: Color::Palette(4), bold: false, italic: false },
    );
    crate::ui::push_styled(
        &mut v,
        &vec![' ', 'r', 'e', 's', 't', 'a', 'r', 't', ' ', '\u{2022}', ' '],
        Style { fg: Color::Palette(8), bold: false, italic: false },
    );
    crate::ui::push_styled(
        &mut v,
        &vec!['C', 't', 'r', 'l', '+', 'C'],
        Style { fg: Color::Palette(1), bold: false, italic: false },
    );
    crate::ui::push_styled(
        &mut v,
        &vec![' ', 'c', 'a', 'n', 'c', 'e', 'l'],
        Style { fg: Color::Palette(8), bold: false, italic: false },
    );
    proof {
        assert(v@ =~= controls_hint_cells());
    }
    v
}

impl ClaudioUi {
    pub fn new() -> (r: ClaudioUi)
        ensures
            r.spinner.state == SpinnerState::Loading,
            r.spinner.frame == 0,
            r.transcription.wf(),
            r.transcription.text@ == Seq::<char>::empty(),
            r.transcription.settled_count == 0,
            !r.placeholder.visible,
            !r.controls.visible,
    {
        ClaudioUi {
            spinner: Spinner::new(),
            transcription: Transcription::new(),
            placeholder: Placeholder::new(),
            controls: Controls::new(),
        }
    }

    /// Rows needed for the current content: the transcription's rows plus
    /// one for the controls when visible, at least one.
    pub fn lines_needed(&self, width: usize) -> (r: usize)
        requires
            self.transcription.wf(),
            width <= crate::inline_term::MAX_DIM,
        ensures
            r as int == spec_claudio_lines_needed(*self, width as int),
    {
        let mut lines = self.transcription.lines_needed(width);
        if self.controls.visible {
            lines = lines + 1;
        }
        if lines < 1 {
            lines = 1;
        }
        lines
    }

    /// The final transcription text, for printing on exit.
    pub fn final_text(&self) -> (r: &Vec<char>)
        ensures
            r@ == self.transcription.text@,
    {
        &self.transcription.text
    }

    /// Compose the frame: spinner and wrapped transcription (or the
    /// placeholder), with the controls line laid over the last row.
    #[verifier::loop_isolation(false)]
    #[verifier::rlimit(60)]
    #[verifier::spinoff_prover]
    pub fn render(&self, surface: &mut InlineSurface, elapsed_ms: i64)
        requires
            self.transcription.wf(),
            old(surface).wf(),
            0 <= elapsed_ms <= MAX_TIME_MS,
        ensures
            final(surface).wf(),
            final(surface).spec_width() == old(surface).spec_width(),
            final(surface).spec_height() == old(surface).spec_height(),
            final(surface).prev() == old(surface).prev(),
            forall|r: int|
                0 <= r < old(surface).spec_height() ==> final(surface).cur()[r]
                    == spec_claudio_row(
                    *self,
                    elapsed_ms as int,
                    old(surface).spec_width(),
                    old(surface).spec_height(),
                    r,
                ),
    {
        let (width, height) = surface.dimensions();
        let ghost wi = width as int;
        let ghost hi = height as int;
        let rel: i64 = elapsed_ms - self.transcription.animation_start_ms;
        let stream = claudio_stream_exec(&self.transcription, rel);
        let flw: usize = if width >= 2 {
            width - 2
        } else {
            0
        };
        let controls: Vec<Cell> = if self.controls.visible {
            controls_hint_exec()
        } else {
            Vec::new()
        };
        let mut pos: usize = if flw < stream.len() {
            flw
        } else {
            stream.len()
        };
        let mut r: usize = 0;
        while r < height
            invariant
                r <= height,
                surface.wf(),
                surface.spec_width() == wi,
                surface.spec_height() == hi,
                surface.prev() == old(surface).prev(),
                pos as int == (if flw + (if r >= 1 {
                    (r - 1) as int
                } else {
                    0
                }) * wi <= stream@.len() {
                    flw + (if r >= 1 {
                        (r - 1) as int
                    } else {
                        0
                    }) * wi
                } else {
                    stream@.len() as int
                }),
                forall|rr: int|
                    0 <= rr < r ==> surface.cur()[rr] == spec_claudio_row(
                        *self,
                        elapsed_ms as int,
                        wi,
                        hi,
                        rr,
                    ),
            decreases height - r,
        {
            let ghost start_spec = flw + (if r >= 1 {
                (r - 1) as int
            } else {
                0
            }) * wi;
            let mut row_vec: Vec<Cell> = if r == 0 {
                let mut head: Vec<Cell> = Vec::new();
                let sp = self.spinner.to_span();
                head.push(Cell::new(sp.text[0], sp.style));
                head.push(Cell::blank());
                if self.transcription.text.len() == 0 {
                    if self.placeholder.visible {
                        let text = vec!['S', 'p', 'e', 'a', 'k', ' ', 'n', 'o', 'w', '.', '.', '.'];
                        let mut ph: Vec<Cell> = Vec::new();
                        crate::ui::push_styled(
                            &mut ph,
                            &text,
                            Style { fg: Color::Palette(8), bold: false, italic: false },
                        );
                        let mut chunk = crate::ui::fit_from_exec(&ph, 0, flw);
                        proof {
                            assert(ph@ =~= styled_cells(crate::ui::placeholder_text(), dim_style()));
                        }
                        head.append(&mut chunk);
                    }
                } else {
                    let mut chunk = crate::ui::fit_from_exec(&stream, 0, flw);
                    head.append(&mut chunk);
                }
                let out = crate::ui::fit_from_exec(&head, 0, width);
                proof {
                    let relg = elapsed_ms as int - self.transcription.animation_start_ms as int;
                    let streamg = claudio_stream(self.transcription, relg);
                    if self.transcription.text@.len() == 0 {
                        if self.placeholder.visible {
                            assert(head@ =~= seq![
                                spinner_cell_of(self.spinner),
                                Cell::blank_spec(),
                            ] + crate::ui::fit_from(
                                styled_cells(crate::ui::placeholder_text(), dim_style()),
                                0,
                                flw as int,
                            ));
                        } else {
                            assert(head@ =~= seq![
                                spinner_cell_of(self.spinner),
                                Cell::blank_spec(),
                            ] + Seq::<Cell>::empty());
                        }
                    } else {
                        assert(head@ =~= seq![
                            spinner_cell_of(self.spinner),
                            Cell::blank_spec(),
                        ] + crate::ui::fit_from(streamg, 0, flw as int));
                    }
                }
                out
            } else {
                let out = crate::ui::fit_from_exec(&stream, pos, width);
                proof {
                    assert(out@ =~= crate::ui::fit_from(stream@, start_spec, wi)) by {
                        assert(forall|x: int|
                            0 <= x < wi ==> crate::ui::fit_cell(stream@, pos as int, x)
                                == crate::ui::fit_cell(stream@, start_spec, x));
                    }
                }
                out
            };
            if self.controls.visible && r == height - 1 {
                let ghost under = row_vec@;
                let mut x: usize = 0;
                while x < controls.len() && x < width
                    invariant
                        x <= controls@.len(),
                        x <= width,
                        row_vec@.len() == wi,
                        forall|j: int|
                            0 <= j < x ==> row_vec@[j] == overlay_cell(controls@, under, j),
                        forall|j: int| x <= j < wi ==> row_vec@[j] == under[j],
                    decreases controls@.len() - x,
                {
                    row_vec[x] = controls[x];
                    x = x + 1;
                }
                proof {
                    assert(row_vec@ =~= overlay_row(controls@, under, wi));
                }
            }
            surface.set_row(r, row_vec);
            if r >= 1 {
                pos = if pos + width < stream.len() {
                    pos + width
                } else {
                    stream.len()
                };
                proof {
                    assert((r + 1 - 1) * wi == (r - 1) * wi + wi) by (nonlinear_arith);
                }
            }
            r = r + 1;
        }
    }
}

/// Rows needed by the widget compositor (see [`ClaudioUi::lines_needed`]).
pub open spec fn spec_claudio_lines_needed(c: ClaudioUi, width: int) -> int {
    let base = spec_trans_lines_needed(c.transcription, width) + (if c.controls.visible {
        1int
    } else {
        0int
    });
    if base < 1 {
        1
    } else {
        base
    }
}

impl Default for ClaudioUi {
    fn default() -> (r: ClaudioUi)
        ensures
            r.transcription.wf(),
            r.transcription.text@ == Seq::<char>::empty(),
            !r.placeholder.visible,
            !r.controls.visible,
    {
        ClaudioUi::new()
    }
}

} // verus!
