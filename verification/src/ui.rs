//! The streaming text model, mode machine and compositor.
//!
//! [`Ui`] holds three text regions: `frozen_text` (locked in by user
//! edits), the settled prefix of the source text (`text[..stable_len]`,
//! confirmed stable) and the volatile remainder (the latest unconfirmed
//! hypothesis, fading in character by character).  The visible transcript
//! is always `frozen_text + text`.
//!
//! [`Ui::set_text`] reconciles a revisable source stream with the display:
//! the stable boundary never regresses while characters remain within the
//! new text, a pure suffix extension shifts the animation anchor earlier so
//! characters already shown do not re-animate, and a genuine revision
//! resets the anchor so the whole volatile region fades in afresh.
//!
//! [`Ui::render`] composes the status glyph, the wrapped transcript and an
//! optional controls line into an [`InlineSurface`].

use vstd::prelude::*;

use crate::cell::{Cell, Color, Style};
use crate::inline_term::{InlineSurface, MAX_DIM};

verus! {

/// Milliseconds between successive volatile characters becoming visible.
pub const CHAR_FADE_DELAY_MS: i64 = 20;

/// Milliseconds a volatile character takes to fade to the settled colour.
pub const CHAR_FADE_DURATION_MS: i64 = 1500;

/// Upper bound on the length of one source hypothesis.
pub const MAX_TEXT: usize = 100_000_000;

/// Upper bound on the frozen text (the edit buffer).
pub const MAX_FROZEN: usize = 1_000_000_000;

/// Upper bound on clock readings handed to the model.
pub const MAX_TIME_MS: i64 = 0x2000_0000_0000_0000;

/// Floor for the animation anchor.  Once the anchor is this far in the
/// past every admissible volatile character has age beyond the fade
/// duration and renders fully settled, so clamping here never changes what
/// is drawn while keeping the arithmetic bounded.
pub const ANCHOR_MIN: i64 = -2_000_002_000;

/// Spinner display state.
#[derive(Clone, Copy, PartialEq, Eq, Structural, Debug)]
pub enum SpinnerState {
    Loading,
    Listening,
    Idle,
}

impl Default for SpinnerState {
    fn default() -> (r: SpinnerState)
        ensures
            r == SpinnerState::Loading,
    {
        SpinnerState::Loading
    }
}

/// Interaction mode: passively displaying the stream, or editing the
/// frozen buffer with source updates ignored.
#[derive(Clone, Copy, PartialEq, Eq, Structural, Debug)]
pub enum Mode {
    Listening,
    Editing,
}

impl Default for Mode {
    fn default() -> (r: Mode)
        ensures
            r == Mode::Listening,
    {
        Mode::Listening
    }
}

/// The first index at or after `i` where `a` and `b` stop agreeing (or one
/// of them ends).
pub open spec fn common_prefix_from(a: Seq<char>, b: Seq<char>, i: int) -> int
    decreases a.len() - i,
{
    if i < 0 || i >= a.len() || i >= b.len() || a[i] != b[i] {
        i
    } else {
        common_prefix_from(a, b, i + 1)
    }
}

/// The length of the longest common prefix of `a` and `b`.
pub open spec fn common_prefix_len(a: Seq<char>, b: Seq<char>) -> int {
    common_prefix_from(a, b, 0)
}

/// If `a` and `b` agree on `i..k` and disagree (or end) at `k`, the common
/// prefix scan started at `i` stops exactly at `k`.
pub proof fn lemma_common_prefix_exact(a: Seq<char>, b: Seq<char>, i: int, k: int)
    requires
        0 <= i <= k,
        k <= a.len(),
        k <= b.len(),
        forall|j: int| i <= j < k ==> a[j] == b[j],
        k == a.len() || k == b.len() || a[k] != b[k],
    ensures
        common_prefix_from(a, b, i) == k,
    decreases k - i,
{
    if i < k {
        lemma_common_prefix_exact(a, b, i + 1, k);
    }
}

/// The stable boundary after an update from `old_text` to `new_text`:
/// unchanged when the text is unchanged; otherwise the common prefix, but
/// never less than the old boundary while that boundary still lies within
/// the new text.
pub open spec fn upd_stable(old_text: Seq<char>, old_stable: int, new_text: Seq<char>) -> int {
    if new_text == old_text {
        old_stable
    } else {
        let cp = common_prefix_len(old_text, new_text);
        let kept = if old_stable <= new_text.len() {
            old_stable
        } else {
            new_text.len() as int
        };
        if cp >= kept {
            cp
        } else {
            kept
        }
    }
}

/// Whether the update is a pure suffix extension: the new text is at least
/// as long as the old and agrees with it from the old stable boundary to
/// the old end (so the old volatile region is a prefix of the new text
/// read from the same boundary).
pub open spec fn is_append(old_text: Seq<char>, old_stable: int, new_text: Seq<char>) -> bool {
    &&& old_text.len() <= new_text.len()
    &&& new_text.subrange(old_stable, old_text.len() as int) == old_text.subrange(
        old_stable,
        old_text.len() as int,
    )
}

/// The anchor floor clamp.
pub open spec fn clamp_anchor(a: int) -> int {
    if a < ANCHOR_MIN {
        ANCHOR_MIN as int
    } else {
        a
    }
}

/// The animation anchor after an update.  It is untouched when the text is
/// unchanged or nothing is volatile; it resets to `now` when volatile text
/// first appears from empty, when the boundary moves backward, or on a
/// revision; and on a pure suffix extension it shifts earlier by the
/// per-character delay times the number of appended characters, so
/// characters already visible keep their appearance schedule.
pub open spec fn upd_anchor(
    old_text: Seq<char>,
    old_stable: int,
    old_anchor: int,
    new_text: Seq<char>,
    now: int,
) -> int {
    let ns = upd_stable(old_text, old_stable, new_text);
    if new_text == old_text {
        old_anchor
    } else if new_text.len() <= ns {
        old_anchor
    } else if old_text.len() == 0 {
        now
    } else if ns < old_stable {
        now
    } else if is_append(old_text, old_stable, new_text) {
        clamp_anchor(old_anchor - CHAR_FADE_DELAY_MS * (new_text.len() - old_text.len()))
    } else {
        now
    }
}

/// Main UI state: text regions, animation anchor, interaction mode and the
/// display flags the compositor reads.
pub struct Ui {
    pub spinner_state: SpinnerState,
    pub spinner_frame: usize,
    /// Text locked in by edit commits; only editing changes it.
    pub frozen_text: Vec<char>,
    /// The current source hypothesis (settled prefix plus volatile rest).
    pub text: Vec<char>,
    /// Characters of `text` below this index are settled.
    pub stable_len: usize,
    /// When the current volatile region began animating.
    pub animation_start_ms: i64,
    pub mode: Mode,
    /// Character index of the edit cursor within `frozen_text`.
    pub cursor_pos: usize,
    /// The full visible text saved when editing began, restored on cancel.
    pub snapshot: Vec<char>,
    pub show_placeholder: bool,
    pub show_controls: bool,
}

/// The full visible transcript of a state.
pub open spec fn full_text_spec(ui: Ui) -> Seq<char> {
    ui.frozen_text@ + ui.text@
}

/// Entering edit mode: the whole visible text becomes both the edit
/// buffer and the saved snapshot, the source regions clear, and the
/// cursor moves to the end.
pub open spec fn is_start_edit(pre: Ui, post: Ui) -> bool {
    &&& post.mode == Mode::Editing
    &&& post.frozen_text@ == full_text_spec(pre)
    &&& post.snapshot@ == full_text_spec(pre)
    &&& post.text@ == Seq::<char>::empty()
    &&& post.stable_len == 0
    &&& post.cursor_pos == full_text_spec(pre).len()
    &&& post.spinner_state == pre.spinner_state
    &&& post.spinner_frame == pre.spinner_frame
    &&& post.animation_start_ms == pre.animation_start_ms
    &&& post.show_placeholder == pre.show_placeholder
    &&& post.show_controls == pre.show_controls
}

/// Cancelling an edit: the frozen text is restored from the snapshot, the
/// source regions stay clear, and listening resumes.
pub open spec fn is_cancel_edit(pre: Ui, post: Ui) -> bool {
    &&& post.mode == Mode::Listening
    &&& post.frozen_text@ == pre.snapshot@
    &&& post.snapshot@ == pre.snapshot@
    &&& post.text@ == Seq::<char>::empty()
    &&& post.stable_len == 0
    &&& post.cursor_pos == pre.snapshot@.len()
    &&& post.spinner_state == pre.spinner_state
    &&& post.spinner_frame == pre.spinner_frame
    &&& post.animation_start_ms == pre.animation_start_ms
    &&& post.show_placeholder == pre.show_placeholder
    &&& post.show_controls == pre.show_controls
}

impl Ui {
    /// Machine-limit bounds that every operation preserves: the boundary
    /// lies within the text, the buffers respect their caps, the cursor
    /// lies within the edit buffer, and the anchor is in range.
    pub open spec fn wf(self) -> bool {
        &&& self.stable_len <= self.text@.len()
        &&& self.text@.len() <= MAX_TEXT
        &&& self.frozen_text@.len() <= MAX_FROZEN
        &&& self.snapshot@.len() <= MAX_FROZEN
        &&& self.cursor_pos <= self.frozen_text@.len()
        &&& ANCHOR_MIN <= self.animation_start_ms <= MAX_TIME_MS
    }

    pub fn new() -> (r: Ui)
        ensures
            r.wf(),
            r.spinner_state == SpinnerState::Loading,
            r.spinner_frame == 0,
            r.frozen_text@ == Seq::<char>::empty(),
            r.text@ == Seq::<char>::empty(),
            r.stable_len == 0,
            r.animation_start_ms == 0,
            r.mode == Mode::Listening,
            r.cursor_pos == 0,
            r.snapshot@ == Seq::<char>::empty(),
            !r.show_placeholder,
            !r.show_controls,
    {
        Ui {
            spinner_state: SpinnerState::Loading,
            spinner_frame: 0,
            frozen_text: Vec::new(),
            text: Vec::new(),
            stable_len: 0,
            animation_start_ms: 0,
            mode: Mode::Listening,
            cursor_pos: 0,
            snapshot: Vec::new(),
            show_placeholder: false,
            show_controls: false,
        }
    }

    /// Advance the spinner animation frame, wrapping at the type's limit.
    pub fn tick(&mut self)
        requires
            old(self).wf(),
        ensures
            final(self).wf(),
            final(self).spinner_frame == (if old(self).spinner_frame == usize::MAX {
                0usize
            } else {
                (old(self).spinner_frame + 1) as usize
            }),
            *final(self) == (Ui { spinner_frame: final(self).spinner_frame, ..*old(self) }),
    {
        if self.spinner_frame == usize::MAX {
            self.spinner_frame = 0;
        } else {
            self.spinner_frame = self.spinner_frame + 1;
        }
    }

    /// The full transcript: frozen text followed by the source text.
    pub fn full_text(&self) -> (r: Vec<char>)
        ensures
            r@ == full_text_spec(*self),
    {
        let mut r = copy_chars(&self.frozen_text);
        let mut i: usize = 0;
        while i < self.text.len()
            invariant
                i <= self.text@.len(),
                r@ == self.frozen_text@ + self.text@.subrange(0, i as int),
            decreases self.text@.len() - i,
        {
            r.push(self.text[i]);
            proof {
                assert(r@ =~= self.frozen_text@ + self.text@.subrange(0, i + 1));
            }
            i = i + 1;
        }
        proof {
            assert(r@ =~= full_text_spec(*self));
        }
        r
    }

    /// Whether there is any text content at all.
    pub fn is_empty(&self) -> (r: bool)
        ensures
            r == (full_text_spec(*self).len() == 0),
    {
        self.frozen_text.len() == 0 && self.text.len() == 0
    }

    /// Clear the transcript and reset animation, keeping the mode.
    pub fn clear(&mut self)
        requires
            old(self).wf(),
        ensures
            final(self).wf(),
            final(self).frozen_text@ == Seq::<char>::empty(),
            final(self).text@ == Seq::<char>::empty(),
            final(self).stable_len == 0,
            final(self).animation_start_ms == 0,
            final(self).cursor_pos == 0,
            final(self).mode == old(self).mode,
            final(self).snapshot == old(self).snapshot,
            final(self).spinner_state == old(self).spinner_state,
            final(self).spinner_frame == old(self).spinner_frame,
            final(self).show_placeholder == old(self).show_placeholder,
            final(self).show_controls == old(self).show_controls,
    {
        self.frozen_text = Vec::new();
        self.text = Vec::new();
        self.stable_len = 0;
        self.animation_start_ms = 0;
        self.cursor_pos = 0;
    }

    /// Full reset for a restart: everything cleared and listening resumed.
    pub fn reset(&mut self)
        requires
            old(self).wf(),
        ensures
            final(self).wf(),
            final(self).frozen_text@ == Seq::<char>::empty(),
            final(self).text@ == Seq::<char>::empty(),
            final(self).stable_len == 0,
            final(self).animation_start_ms == 0,
            final(self).cursor_pos == 0,
            final(self).mode == Mode::Listening,
            final(self).snapshot == old(self).snapshot,
            final(self).spinner_state == old(self).spinner_state,
            final(self).spinner_frame == old(self).spinner_frame,
            final(self).show_placeholder == old(self).show_placeholder,
            final(self).show_controls == old(self).show_controls,
    {
        self.clear();
        self.mode = Mode::Listening;
    }

    /// Feed the latest source hypothesis into the model at time
    /// `elapsed_ms`.  Ignored while editing.  Otherwise the text is
    /// replaced, the stable boundary becomes [`upd_stable`] and the anchor
    /// becomes [`upd_anchor`]: unchanged text keeps everything, a pure
    /// suffix extension shifts the anchor earlier by the delay times the
    /// appended count, and a revision or first text resets it to now.
    pub fn set_text(&mut self, text: &Vec<char>, elapsed_ms: i64)
        requires
            old(self).wf(),
            text@.len() <= MAX_TEXT,
            0 <= elapsed_ms <= MAX_TIME_MS,
        ensures
            final(self).wf(),
            old(self).mode == Mode::Editing ==> *final(self) == *old(self),
            old(self).mode != Mode::Editing ==> {
                &&& final(self).text@ == text@
                &&& final(self).stable_len as int == upd_stable(
                    old(self).text@,
                    old(self).stable_len as int,
                    text@,
                )
                &&& final(self).animation_start_ms as int == upd_anchor(
                    old(self).text@,
                    old(self).stable_len as int,
                    old(self).animation_start_ms as int,
                    text@,
                    elapsed_ms as int,
                )
                &&& final(self).frozen_text == old(self).frozen_text
                &&& final(self).mode == old(self).mode
                &&& final(self).cursor_pos == old(self).cursor_pos
                &&& final(self).snapshot == old(self).snapshot
                &&& final(self).spinner_state == old(self).spinner_state
                &&& final(self).spinner_frame == old(self).spinner_frame
                &&& final(self).show_placeholder == old(self).show_placeholder
                &&& final(self).show_controls == old(self).show_controls
            },
    {
        if self.is_editing() {
            return ;
        }
        let ghost oldt = self.text@;
        let ghost olds = self.stable_len as int;
        let cp = common_prefix(&self.text, text);
        let same = self.text.len() == text.len() && cp == text.len();
        proof {
            if same {
                assert(oldt =~= text@);
            } else {
                assert(oldt != text@) by {
                    if oldt == text@ {
                        assert(oldt.len() == text@.len());
                        assert(cp < text@.len() ==> oldt[cp as int] != text@[cp as int]);
                    }
                }
            }
        }
        if same {
            return ;
        }
        let new_len = text.len();
        let kept = if self.stable_len <= new_len {
            self.stable_len
        } else {
            new_len
        };
        let ns = if cp >= kept {
            cp
        } else {
            kept
        };
        if new_len > ns {
            if self.text.len() == 0 {
                self.animation_start_ms = elapsed_ms;
            } else if ns < self.stable_len {
                self.animation_start_ms = elapsed_ms;
            } else {
                let append = new_len >= self.text.len() && ranges_agree(
                    text,
                    &self.text,
                    self.stable_len,
                    self.text.len(),
                );
                proof {
                    assert(append == is_append(oldt, olds, text@)) by {
                        if new_len >= oldt.len() {
                            if ranges_agree_spec(text@, oldt, olds, oldt.len() as int) {
                                assert(text@.subrange(olds, oldt.len() as int) =~= oldt.subrange(
                                    olds,
                                    oldt.len() as int,
                                ));
                            } else {
                                assert(text@.subrange(olds, oldt.len() as int) != oldt.subrange(
                                    olds,
                                    oldt.len() as int,
                                )) by {
                                    let j = choose|j: int|
                                        olds <= j < oldt.len() && text@[j] != oldt[j];
                                    assert(text@.subrange(olds, oldt.len() as int)[j - olds]
                                        != oldt.subrange(olds, oldt.len() as int)[j - olds]);
                                }
                            }
                        }
                    }
                }
                if append {
                    let appended = new_len - self.text.len();
                    let shifted = self.animation_start_ms - CHAR_FADE_DELAY_MS * (appended as i64);
                    self.animation_start_ms = if shifted < ANCHOR_MIN {
                        ANCHOR_MIN
                    } else {
                        shifted
                    };
                } else {
                    self.animation_start_ms = elapsed_ms;
                }
            }
        }
        self.stable_len = ns;
        self.text = copy_chars(text);
    }

    fn is_editing(&self) -> (r: bool)
        ensures
            r == (self.mode == Mode::Editing),
    {
        match self.mode {
            Mode::Editing => true,
            Mode::Listening => false,
        }
    }

    /// Enter editing mode: the full visible text becomes the edit buffer
    /// and the saved snapshot, and the cursor moves to its end.
    pub fn start_editing(&mut self)
        requires
            old(self).wf(),
            full_text_spec(*old(self)).len() <= MAX_FROZEN,
        ensures
            final(self).wf(),
            is_start_edit(*old(self), *final(self)),
    {
        self.mode = Mode::Editing;
        let full = self.full_text();
        self.snapshot = copy_chars(&full);
        self.cursor_pos = full.len();
        self.frozen_text = full;
        self.text = Vec::new();
        self.stable_len = 0;
    }

    /// Exit editing mode, keeping the edited buffer.
    pub fn finish_editing(&mut self)
        requires
            old(self).wf(),
        ensures
            final(self).wf(),
            *final(self) == (Ui { mode: Mode::Listening, ..*old(self) }),
    {
        self.mode = Mode::Listening;
    }

    /// Commit an edit: the buffer (already in `frozen_text`) stays frozen,
    /// the source regions are already clear, and listening resumes.
    pub fn finish_editing_with_freeze(&mut self)
        requires
            old(self).wf(),
        ensures
            final(self).wf(),
            *final(self) == (Ui { mode: Mode::Listening, ..*old(self) }),
    {
        self.mode = Mode::Listening;
    }

    /// Cancel an edit: restore the frozen text from the pre-edit snapshot
    /// and resume listening.
    pub fn cancel_editing(&mut self)
        requires
            old(self).wf(),
        ensures
            final(self).wf(),
            is_cancel_edit(*old(self), *final(self)),
    {
        self.frozen_text = copy_chars(&self.snapshot);
        self.text = Vec::new();
        self.stable_len = 0;
        self.cursor_pos = self.frozen_text.len();
        self.mode = Mode::Listening;
    }

    /// Append a separating space to the frozen text unless it is empty or
    /// already ends with one.
    pub fn ensure_trailing_space(&mut self)
        requires
            old(self).wf(),
            old(self).frozen_text@.len() < MAX_FROZEN,
        ensures
            final(self).wf(),
            final(self).frozen_text@ == (if old(self).frozen_text@.len() > 0 && old(
                self,
            ).frozen_text@.last() != ' ' {
                old(self).frozen_text@.push(' ')
            } else {
                old(self).frozen_text@
            }),
            final(self).text == old(self).text,
            final(self).stable_len == old(self).stable_len,
            final(self).mode == old(self).mode,
            final(self).cursor_pos == old(self).cursor_pos,
            final(self).snapshot == old(self).snapshot,
            final(self).animation_start_ms == old(self).animation_start_ms,
            final(self).spinner_state == old(self).spinner_state,
            final(self).spinner_frame == old(self).spinner_frame,
            final(self).show_placeholder == old(self).show_placeholder,
            final(self).show_controls == old(self).show_controls,
    {
        let n = self.frozen_text.len();
        if n > 0 && self.frozen_text[n - 1] != ' ' {
            self.frozen_text.push(' ');
        }
    }

    /// Move the edit cursor one character left, stopping at the start.
    pub fn cursor_left(&mut self)
        requires
            old(self).wf(),
        ensures
            final(self).wf(),
            final(self).cursor_pos == (if old(self).cursor_pos > 0 {
                (old(self).cursor_pos - 1) as usize
            } else {
                0usize
            }),
            *final(self) == (Ui { cursor_pos: final(self).cursor_pos, ..*old(self) }),
    {
        if self.cursor_pos > 0 {
            self.cursor_pos = self.cursor_pos - 1;
        }
    }

    /// Move the edit cursor one character right, stopping at the end.
    pub fn cursor_right(&mut self)
        requires
            old(self).wf(),
        ensures
            final(self).wf(),
            final(self).cursor_pos == (if (old(self).cursor_pos as int) < old(
                self,
            ).frozen_text@.len() {
                (old(self).cursor_pos + 1) as usize
            } else {
                old(self).cursor_pos
            }),
            *final(self) == (Ui { cursor_pos: final(self).cursor_pos, ..*old(self) }),
    {
        if self.cursor_pos < self.frozen_text.len() {
            self.cursor_pos = self.cursor_pos + 1;
        }
    }

    /// Move the edit cursor to the start of the buffer.
    pub fn cursor_home(&mut self)
        requires
            old(self).wf(),
        ensures
            final(self).wf(),
            *final(self) == (Ui { cursor_pos: 0usize, ..*old(self) }),
    {
        self.cursor_pos = 0;
    }

    /// Move the edit cursor to the end of the buffer.
    pub fn cursor_end(&mut self)
        requires
            old(self).wf(),
        ensures
            final(self).wf(),
            final(self).cursor_pos == old(self).frozen_text@.len(),
            *final(self) == (Ui { cursor_pos: final(self).cursor_pos, ..*old(self) }),
    {
        self.cursor_pos = self.frozen_text.len();
    }

    /// Insert a character at the cursor; the cursor follows it.
    pub fn insert_char(&mut self, ch: char)
        requires
            old(self).wf(),
            old(self).frozen_text@.len() < MAX_FROZEN,
        ensures
            final(self).wf(),
            final(self).frozen_text@ == old(self).frozen_text@.insert(
                old(self).cursor_pos as int,
                ch,
            ),
            final(self).cursor_pos == old(self).cursor_pos + 1,
            final(self).text == old(self).text,
            final(self).stable_len == old(self).stable_len,
            final(self).mode == old(self).mode,
            final(self).snapshot == old(self).snapshot,
            final(self).animation_start_ms == old(self).animation_start_ms,
            final(self).spinner_state == old(self).spinner_state,
            final(self).spinner_frame == old(self).spinner_frame,
            final(self).show_placeholder == old(self).show_placeholder,
            final(self).show_controls == old(self).show_controls,
    {
        self.frozen_text.insert(self.cursor_pos, ch);
        self.cursor_pos = self.cursor_pos + 1;
    }

    /// Delete the character before the cursor (backspace); no-op at the
    /// start of the buffer.
    pub fn delete_back(&mut self)
        requires
            old(self).wf(),
        ensures
            final(self).wf(),
            old(self).cursor_pos > 0 ==> {
                &&& final(self).frozen_text@ == old(self).frozen_text@.remove(
                    old(self).cursor_pos - 1,
                )
                &&& final(self).cursor_pos == old(self).cursor_pos - 1
            },
            old(self).cursor_pos == 0 ==> *final(self) == *old(self),
            final(self).text == old(self).text,
            final(self).stable_len == old(self).stable_len,
            final(self).mode == old(self).mode,
            final(self).snapshot == old(self).snapshot,
            final(self).animation_start_ms == old(self).animation_start_ms,
            final(self).spinner_state == old(self).spinner_state,
            final(self).spinner_frame == old(self).spinner_frame,
            final(self).show_placeholder == old(self).show_placeholder,
            final(self).show_controls == old(self).show_controls,
    {
        if self.cursor_pos > 0 {
            self.cursor_pos = self.cursor_pos - 1;
            self.frozen_text.remove(self.cursor_pos);
        }
    }

    /// Delete the character at the cursor (delete); no-op at the end of
    /// the buffer.
    pub fn delete_forward(&mut self)
        requires
            old(self).wf(),
        ensures
            final(self).wf(),
            (old(self).cursor_pos as int) < old(self).frozen_text@.len() ==> {
                &&& final(self).frozen_text@ == old(self).frozen_text@.remove(
                    old(self).cursor_pos as int,
                )
                &&& final(self).cursor_pos == old(self).cursor_pos
            },
            (old(self).cursor_pos as int) >= old(self).frozen_text@.len() ==> *final(self) == *old(
                self,
            ),
            final(self).text == old(self).text,
            final(self).stable_len == old(self).stable_len,
            final(self).mode == old(self).mode,
            final(self).snapshot == old(self).snapshot,
            final(self).animation_start_ms == old(self).animation_start_ms,
            final(self).spinner_state == old(self).spinner_state,
            final(self).spinner_frame == old(self).spinner_frame,
            final(self).show_placeholder == old(self).show_placeholder,
            final(self).show_controls == old(self).show_controls,
    {
        if self.cursor_pos < self.frozen_text.len() {
            self.frozen_text.remove(self.cursor_pos);
        }
    }

    /// How many rows the current content needs at the given width: one row
    /// holding the two-column status prefix and the first characters, then
    /// full-width wrapped rows, plus one row for the controls if shown.
    pub fn lines_needed(&self, width: usize) -> (r: usize)
        requires
            self.wf(),
            width <= MAX_DIM,
        ensures
            r as int == spec_lines_needed(*self, width as int),
    {
        if width == 0 {
            return 1;
        }
        let first_line_width = if width >= 2 {
            width - 2
        } else {
            0
        };
        let char_count = self.frozen_text.len() + self.text.len();
        let content_lines: usize = if char_count == 0 || first_line_width == 0 {
            1
        } else if char_count <= first_line_width {
            1
        } else {
            let remaining = char_count - first_line_width;
            1 + (remaining + width - 1) / width
        };
        if self.show_controls {
            content_lines + 1
        } else {
            content_lines
        }
    }

    /// The screen position `(column, row)` of the edit cursor under the
    /// same wrapping the compositor uses, or `None` outside editing mode.
    pub fn cursor_screen_position(&self, width: usize) -> (r: Option<(usize, usize)>)
        requires
            self.wf(),
            width <= MAX_DIM,
        ensures
            r == spec_cursor_screen_position(*self, width as int),
    {
        if !self.is_editing() || width == 0 {
            return None;
        }
        let first_line_width = if width >= 2 {
            width - 2
        } else {
            0
        };
        if self.cursor_pos < first_line_width {
            Some((self.cursor_pos + 2, 0))
        } else {
            let pos_after_first = self.cursor_pos - first_line_width;
            Some((pos_after_first % width, 1 + pos_after_first / width))
        }
    }
}

/// Rows needed for the transcript at the given width (see
/// [`Ui::lines_needed`]).
pub open spec fn spec_lines_needed(ui: Ui, width: int) -> int {
    if width == 0 {
        1
    } else {
        let flw = if width >= 2 {
            width - 2
        } else {
            0
        };
        let cc = ui.frozen_text@.len() + ui.text@.len();
        let content: int = if cc == 0 || flw == 0 {
            1
        } else if cc <= flw {
            1
        } else {
            1 + (cc - flw + width - 1) / width
        };
        if ui.show_controls {
            content + 1
        } else {
            content
        }
    }
}

/// Screen position of the edit cursor (see
/// [`Ui::cursor_screen_position`]).
pub open spec fn spec_cursor_screen_position(ui: Ui, width: int) -> Option<(usize, usize)> {
    if ui.mode != Mode::Editing || width == 0 {
        None
    } else {
        let flw = if width >= 2 {
            width - 2
        } else {
            0
        };
        if ui.cursor_pos < flw {
            Some(((ui.cursor_pos + 2) as usize, 0usize))
        } else {
            let m = ui.cursor_pos - flw;
            Some(((m % width) as usize, (1 + m / width) as usize))
        }
    }
}

/// Stability across pure appends: when the new text extends the old one,
/// the stable boundary never decreases (so every settled character stays
/// settled), and whenever anything remains volatile the anchor shifts
/// earlier by exactly the per-character delay times the appended count
/// (clamped at the floor below which every character renders fully
/// settled), rather than resetting — so characters already shown keep
/// their appearance schedule instead of re-animating.
pub proof fn lemma_append_stability(
    old_text: Seq<char>,
    old_stable: int,
    old_anchor: int,
    new_text: Seq<char>,
    now: int,
)
    requires
        0 <= old_stable <= old_text.len(),
        old_text.len() <= new_text.len(),
        new_text.subrange(0, old_text.len() as int) == old_text,
    ensures
        upd_stable(old_text, old_stable, new_text) >= old_stable,
        old_text.len() > 0 && new_text.len() > old_text.len() ==> upd_anchor(
            old_text,
            old_stable,
            old_anchor,
            new_text,
            now,
        ) == clamp_anchor(
            old_anchor - CHAR_FADE_DELAY_MS * (new_text.len() - old_text.len()),
        ),
        new_text.len() == old_text.len() ==> upd_anchor(
            old_text,
            old_stable,
            old_anchor,
            new_text,
            now,
        ) == old_anchor,
{
    let l = old_text.len() as int;
    assert(forall|j: int| 0 <= j < l ==> new_text[j] == #[trigger] old_text[j]) by {
        assert(forall|j: int|
            0 <= j < l ==> new_text.subrange(0, l)[j] == #[trigger] new_text[j]);
    }
    if new_text.len() == old_text.len() {
        assert(new_text =~= old_text);
    } else {
        lemma_common_prefix_exact(old_text, new_text, 0, l);
        assert(upd_stable(old_text, old_stable, new_text) == l);
        assert(is_append(old_text, old_stable, new_text)) by {
            assert(new_text.subrange(old_stable, l) =~= old_text.subrange(old_stable, l));
        }
        if old_text.len() > 0 {
            assert(upd_anchor(old_text, old_stable, old_anchor, new_text, now) == clamp_anchor(
                old_anchor - CHAR_FADE_DELAY_MS * (new_text.len() - old_text.len()),
            ));
        }
    }
}

/// The colour of fully settled text.
pub open spec fn settled_style() -> Style {
    Style { fg: Color::Rgb(255, 255, 255), bold: false, italic: false }
}

/// The dim colour used for the idle spinner, separators and labels.
pub open spec fn dim_style() -> Style {
    Style { fg: Color::Palette(8), bold: false, italic: false }
}

/// The eased fade progress at a character age, in thousandths: the cubic
/// ease-out `1 - (1 - p)^3` of the linear progress `p = age / duration`,
/// both in fixed-point thousandths, saturating at full progress.
pub open spec fn fade_eased(age: int) -> int {
    let p = if age >= CHAR_FADE_DURATION_MS {
        1000int
    } else {
        age * 1000 / (CHAR_FADE_DURATION_MS as int)
    };
    1000 - ((1000 - p) * (1000 - p) * (1000 - p)) / 1_000_000
}

/// The style of a volatile character of the given age: its colour eases
/// from the start hue `(120, 160, 180)` to the settled white over the fade
/// duration, equalling the settled colour once the fade completes.
pub open spec fn fade_style(age: int) -> Style {
    let e = fade_eased(age);
    Style {
        fg: Color::Rgb(
            (120 + 135 * e / 1000) as u8,
            (160 + 95 * e / 1000) as u8,
            (180 + 75 * e / 1000) as u8,
        ),
        bold: false,
        italic: false,
    }
}

/// The style of a volatile character of age `age` milliseconds.
pub fn fade_style_at(age: i64) -> (r: Style)
    requires
        0 <= age,
    ensures
        r == fade_style(age as int),
{
    let p: i64 = if age >= CHAR_FADE_DURATION_MS {
        1000
    } else {
        age * 1000 / CHAR_FADE_DURATION_MS
    };
    let q: i64 = 1000 - p;
    assert(0 <= q * q <= 1_000_000 && 0 <= q * q * q <= 1_000_000_000) by (nonlinear_arith)
        requires
            0 <= q <= 1000,
    ;
    let e: i64 = 1000 - (q * q * q) / 1_000_000;
    let red = 120 + (135 * e) / 1000;
    let green = 160 + (95 * e) / 1000;
    let blue = 180 + (75 * e) / 1000;
    Style { fg: Color::Rgb(red as u8, green as u8, blue as u8), bold: false, italic: false }
}

/// The colour of the volatile character at `index` (counted from the
/// stable boundary) at `relative_time` past the anchor: `None` while the
/// character is withheld by the staggered reveal, otherwise its fade
/// colour.
pub open spec fn spec_char_animation_color(index: int, rel: int) -> Option<Color> {
    if rel < index * CHAR_FADE_DELAY_MS {
        None
    } else {
        Some(fade_style(rel - index * CHAR_FADE_DELAY_MS).fg)
    }
}

impl Ui {
    /// The animation colour of the volatile character at `index`, or
    /// `None` while the staggered reveal still withholds it.
    pub fn char_animation_color(&self, index: usize, relative_time: i64) -> (r: Option<Color>)
        requires
            index <= MAX_TEXT,
            -0x4000_0000_0000_0000 <= relative_time <= 0x4000_0000_0000_0000,
        ensures
            r == spec_char_animation_color(index as int, relative_time as int),
    {
        let appear = CHAR_FADE_DELAY_MS * (index as i64);
        if relative_time < appear {
            None
        } else {
            Some(fade_style_at(relative_time - appear).fg)
        }
    }
}

/// How many volatile characters are visible at `rel` past the anchor:
/// character `k` appears once `rel` reaches `k` times the delay, so the
/// withheld characters always form a suffix.
pub open spec fn visible_count(len: int, rel: int) -> int {
    if rel < 0 {
        0
    } else if len <= rel / (CHAR_FADE_DELAY_MS as int) + 1 {
        len
    } else {
        rel / (CHAR_FADE_DELAY_MS as int) + 1
    }
}

/// A cell holding one glyph in one style.
pub open spec fn cell_of(ch: char, style: Style) -> Cell {
    Cell { ch, style }
}

/// Characters rendered in one fixed style.
pub open spec fn styled_cells(chars: Seq<char>, style: Style) -> Seq<Cell> {
    Seq::new(chars.len(), |i: int| cell_of(chars[i], style))
}

/// The cell of the `k`-th volatile character at `rel` past the anchor.
pub open spec fn anim_cell(chars: Seq<char>, rel: int, k: int) -> Cell {
    cell_of(chars[k], fade_style(rel - CHAR_FADE_DELAY_MS * k))
}

/// The visible prefix of the volatile region at `rel` past the anchor,
/// each character in its fade style.
pub open spec fn anim_cells(chars: Seq<char>, rel: int) -> Seq<Cell> {
    Seq::new(visible_count(chars.len() as int, rel) as nat, |k: int| anim_cell(chars, rel, k))
}

/// The stream of cells the compositor wraps across rows: nothing when
/// empty; the edit buffer in settled style while editing; otherwise the
/// frozen and settled text in settled style followed by the visible
/// volatile characters in their fade styles.
pub open spec fn flow_cells(ui: Ui, now: int) -> Seq<Cell> {
    if full_text_spec(ui).len() == 0 {
        Seq::empty()
    } else if ui.mode == Mode::Editing {
        styled_cells(ui.frozen_text@, settled_style())
    } else {
        styled_cells(ui.frozen_text@, settled_style()) + styled_cells(
            ui.text@.subrange(0, ui.stable_len as int),
            settled_style(),
        ) + anim_cells(
            ui.text@.subrange(ui.stable_len as int, ui.text@.len() as int),
            now - ui.animation_start_ms,
        )
    }
}

/// The hint shown while listening with nothing transcribed yet.
pub open spec fn placeholder_text() -> Seq<char> {
    seq!['S', 'p', 'e', 'a', 'k', ' ', 'n', 'o', 'w', '.', '.', '.']
}

/// The placeholder cells: shown dim, only when the transcript is empty
/// and the placeholder is enabled, and never wrapped past the first row.
pub open spec fn placeholder_cells(ui: Ui) -> Seq<Cell> {
    if full_text_spec(ui).len() == 0 && ui.show_placeholder {
        styled_cells(placeholder_text(), dim_style())
    } else {
        Seq::empty()
    }
}

/// The spinner frames of the warming-up animation.
pub open spec fn spec_loading_frame(i: int) -> char {
    if i == 0 {
        '\u{280b}'
    } else if i == 1 {
        '\u{2819}'
    } else if i == 2 {
        '\u{2839}'
    } else if i == 3 {
        '\u{2838}'
    } else if i == 4 {
        '\u{28b0}'
    } else if i == 5 {
        '\u{28f0}'
    } else if i == 6 {
        '\u{28e0}'
    } else if i == 7 {
        '\u{28c4}'
    } else if i == 8 {
        '\u{28c6}'
    } else if i == 9 {
        '\u{2846}'
    } else if i == 10 {
        '\u{2807}'
    } else {
        '\u{280f}'
    }
}

/// The red level of the pulsing recording indicator over its eight-frame
/// cycle: `200 + 55 * (sin(k * pi / 4) + 1) / 2`, tabulated.
pub open spec fn spec_pulse_level(i: int) -> u8 {
    if i == 0 {
        227u8
    } else if i == 1 {
        246u8
    } else if i == 2 {
        255u8
    } else if i == 3 {
        246u8
    } else if i == 4 {
        227u8
    } else if i == 5 {
        208u8
    } else if i == 6 {
        200u8
    } else {
        208u8
    }
}

/// The status glyph: a spinner frame while warming up, a pulsing red dot
/// while recording, a hollow dot when idle.
pub open spec fn spinner_cell(ui: Ui) -> Cell {
    match ui.spinner_state {
        SpinnerState::Loading => Cell {
            ch: spec_loading_frame(ui.spinner_frame as int % 12),
            style: dim_style(),
        },
        SpinnerState::Listening => Cell {
            ch: '\u{25cf}',
            style: Style {
                fg: Color::Rgb(spec_pulse_level(ui.spinner_frame as int % 8), 0, 0),
                bold: false,
                italic: false,
            },
        },
        SpinnerState::Idle => Cell { ch: '\u{25cb}', style: dim_style() },
    }
}

pub(crate) fn loading_frame(i: usize) -> (r: char)
    requires
        i < 12,
    ensures
        r == spec_loading_frame(i as int),
{
    if i == 0 {
        '\u{280b}'
    } else if i == 1 {
        '\u{2819}'
    } else if i == 2 {
        '\u{2839}'
    } else if i == 3 {
        '\u{2838}'
    } else if i == 4 {
        '\u{28b0}'
    } else if i == 5 {
        '\u{28f0}'
    } else if i == 6 {
        '\u{28e0}'
    } else if i == 7 {
        '\u{28c4}'
    } else if i == 8 {
        '\u{28c6}'
    } else if i == 9 {
        '\u{2846}'
    } else if i == 10 {
        '\u{2807}'
    } else {
        '\u{280f}'
    }
}

pub(crate) fn pulse_level(i: usize) -> (r: u8)
    requires
        i < 8,
    ensures
        r == spec_pulse_level(i as int),
{
    if i == 0 {
        227
    } else if i == 1 {
        246
    } else if i == 2 {
        255
    } else if i == 3 {
        246
    } else if i == 4 {
        227
    } else if i == 5 {
        208
    } else if i == 6 {
        200
    } else {
        208
    }
}

impl Ui {
    /// The current status glyph cell.
    pub fn spinner_glyph(&self) -> (r: Cell)
        ensures
            r == spinner_cell(*self),
    {
        match self.spinner_state {
            SpinnerState::Loading => Cell {
                ch: loading_frame(self.spinner_frame % 12),
                style: Style { fg: Color::Palette(8), bold: false, italic: false },
            },
            SpinnerState::Listening => Cell {
                ch: '\u{25cf}',
                style: Style {
                    fg: Color::Rgb(pulse_level(self.spinner_frame % 8), 0, 0),
                    bold: false,
                    italic: false,
                },
            },
            SpinnerState::Idle => Cell {
                ch: '\u{25cb}',
                style: Style { fg: Color::Palette(8), bold: false, italic: false },
            },
        }
    }

    /// The cell stream the compositor wraps across the grid.
    #[verifier::loop_isolation(false)]
    fn flow_cells_exec(&self, elapsed_ms: i64) -> (r: Vec<Cell>)
        requires
            self.wf(),
            0 <= elapsed_ms <= MAX_TIME_MS,
        ensures
            r@ == flow_cells(*self, elapsed_ms as int),
            r@.len() <= MAX_FROZEN + MAX_TEXT,
    {
        let mut v: Vec<Cell> = Vec::new();
        if self.is_empty() {
            return v;
        }
        let white = Style { fg: Color::Rgb(255, 255, 255), bold: false, italic: false };
        let mut i: usize = 0;
        while i < self.frozen_text.len()
            invariant
                i <= self.frozen_text@.len(),
                v@ == styled_cells(self.frozen_text@.subrange(0, i as int), settled_style()),
            decreases self.frozen_text@.len() - i,
        {
            v.push(Cell::new(self.frozen_text[i], white));
            proof {
                assert(v@ =~= styled_cells(
                    self.frozen_text@.subrange(0, i + 1),
                    settled_style(),
                ));
            }
            i = i + 1;
        }
        proof {
            assert(v@ =~= styled_cells(self.frozen_text@, settled_style()));
        }
        if self.is_editing() {
            return v;
        }
        let ghost frozen_part = styled_cells(self.frozen_text@, settled_style());
        let mut k: usize = 0;
        while k < self.stable_len
            invariant
                self.wf(),
                k <= self.stable_len,
                v@ == frozen_part + styled_cells(
                    self.text@.subrange(0, k as int),
                    settled_style(),
                ),
            decreases self.stable_len - k,
        {
            v.push(Cell::new(self.text[k], white));
            proof {
                assert(v@ =~= frozen_part + styled_cells(
                    self.text@.subrange(0, k + 1),
                    settled_style(),
                ));
            }
            k = k + 1;
        }
        let ghost settled_part = frozen_part + styled_cells(
            self.text@.subrange(0, self.stable_len as int),
            settled_style(),
        );
        let ghost vol = self.text@.subrange(self.stable_len as int, self.text@.len() as int);
        let rel: i64 = elapsed_ms - self.animation_start_ms;
        let vol_len: usize = self.text.len() - self.stable_len;
        let vcount: usize = if rel < 0 {
            0
        } else {
            let cap: i64 = rel / CHAR_FADE_DELAY_MS + 1;
            if cap >= vol_len as i64 {
                vol_len
            } else {
                cap as usize
            }
        };
        proof {
            assert(vcount as int == visible_count(vol.len() as int, rel as int));
        }
        let mut m: usize = 0;
        while m < vcount
            invariant
                self.wf(),
                m <= vcount,
                vcount <= vol_len,
                vol_len == self.text@.len() - self.stable_len,
                vol == self.text@.subrange(self.stable_len as int, self.text@.len() as int),
                rel == elapsed_ms - self.animation_start_ms,
                0 <= elapsed_ms <= MAX_TIME_MS,
                vcount as int == visible_count(vol.len() as int, rel as int),
                v@.len() == settled_part.len() + m,
                v@.subrange(0, settled_part.len() as int) == settled_part,
                forall|j: int|
                    0 <= j < m ==> v@[settled_part.len() + j] == (Cell {
                        ch: vol[j],
                        style: fade_style(rel - CHAR_FADE_DELAY_MS * j),
                    }),
            decreases vcount - m,
        {
            proof {
                assert(rel >= CHAR_FADE_DELAY_MS * m) by {
                    assert(m < vcount);
                    assert(rel >= 0);
                    assert(m as int <= rel as int / 20);
                    assert(rel as int == 20 * (rel as int / 20) + rel as int % 20);
                    assert(20 * (m as int) <= 20 * (rel as int / 20)) by (nonlinear_arith)
                        requires
                            m as int <= rel as int / 20,
                    ;
                }
            }
            let age: i64 = rel - CHAR_FADE_DELAY_MS * (m as i64);
            let style = fade_style_at(age);
            let ghost v0 = v@;
            v.push(Cell::new(self.text[self.stable_len + m], style));
            proof {
                assert(forall|j: int| 0 <= j < v0.len() ==> v@[j] == v0[j]);
                assert(v@.subrange(0, settled_part.len() as int) =~= v0.subrange(
                    0,
                    settled_part.len() as int,
                ));
            }
            m = m + 1;
        }
        proof {
            assert(v@ =~= flow_cells(*self, elapsed_ms as int));
        }
        v
    }
}

/// A palette colour with no emphasis.
pub open spec fn palette_style(idx: u8) -> Style {
    Style { fg: Color::Palette(idx), bold: false, italic: false }
}

/// The separator drawn between control hints: a dim bullet, or a single
/// space when only the keys fit.
pub open spec fn sep_cells(minimal: bool) -> Seq<Cell> {
    if minimal {
        styled_cells(seq![' '], dim_style())
    } else {
        styled_cells(seq![' ', '\u{2022}', ' '], dim_style())
    }
}

/// One control hint: the key in its accent colour, then (unless reduced
/// to keys only) a plain space and the dim label.
pub open spec fn entry_cells(key: Seq<char>, color: u8, label: Seq<char>, minimal: bool) -> Seq<
    Cell,
> {
    styled_cells(key, palette_style(color)) + (if minimal {
        Seq::<Cell>::empty()
    } else {
        seq![Cell::blank_spec()] + styled_cells(label, dim_style())
    })
}

/// Character width of the controls line with full labels: the sum over the
/// hints of key, space and label widths, with a three-column separator
/// between hints.
pub open spec fn controls_full_width(mode: Mode) -> int {
    match mode {
        Mode::Listening => 47,
        Mode::Editing => 33,
    }
}

/// The same width with the abbreviated labels.
pub open spec fn controls_short_width(mode: Mode) -> int {
    match mode {
        Mode::Listening => 36,
        Mode::Editing => 28,
    }
}

/// The controls line for a mode at a width, before clipping: hints degrade
/// together from full labels to abbreviations to keys only, so that the
/// widest form that fits is used.
pub open spec fn controls_layout(mode: Mode, width: int) -> Seq<Cell> {
    let use_short = controls_full_width(mode) > width && controls_short_width(mode) <= width;
    let minimal = controls_short_width(mode) > width;
    match mode {
        Mode::Listening => entry_cells(
            seq!['E', 'n', 't', 'e', 'r'],
            3,
            if use_short {
                seq!['f', 'i', 'n']
            } else {
                seq!['f', 'i', 'n', 'i', 's', 'h']
            },
            minimal,
        ) + sep_cells(minimal) + entry_cells(
            seq!['^', 'E'],
            5,
            if use_short {
                seq!['e', 'd', 't']
            } else {
                seq!['e', 'd', 'i', 't']
            },
            minimal,
        ) + sep_cells(minimal) + entry_cells(
            seq!['^', 'R'],
            4,
            if use_short {
                seq!['r', 's', 't']
            } else {
                seq!['r', 'e', 's', 't', 'a', 'r', 't']
            },
            minimal,
        ) + sep_cells(minimal) + entry_cells(
            seq!['^', 'C'],
            1,
            if use_short {
                seq!['e', 's', 'c']
            } else {
                seq!['c', 'a', 'n', 'c', 'e', 'l']
            },
            minimal,
        ),
        Mode::Editing => entry_cells(
            seq!['E', 'n', 't', 'e', 'r'],
            3,
            seq!['d', 'o', 'n', 'e'],
            minimal,
        ) + sep_cells(minimal) + entry_cells(
            seq!['E', 's', 'c'],
            1,
            if use_short {
                seq!['e', 's', 'c']
            } else {
                seq!['c', 'a', 'n', 'c', 'e', 'l']
            },
            minimal,
        ) + sep_cells(minimal) + entry_cells(
            seq!['\u{2190}', '\u{2192}'],
            8,
            if use_short {
                seq!['m', 'v']
            } else {
                seq!['m', 'o', 'v', 'e']
            },
            minimal,
        ),
    }
}

/// Append characters in one style.
#[verifier::loop_isolation(false)]
pub(crate) fn push_styled(buf: &mut Vec<Cell>, chars: &Vec<char>, style: Style)
    ensures
        final(buf)@ == old(buf)@ + styled_cells(chars@, style),
{
    let ghost b0 = buf@;
    let mut i: usize = 0;
    while i < chars.len()
        invariant
            i <= chars@.len(),
            buf@ == b0 + styled_cells(chars@.subrange(0, i as int), style),
        decreases chars@.len() - i,
    {
        buf.push(Cell::new(chars[i], style));
        proof {
            assert(buf@ =~= b0 + styled_cells(chars@.subrange(0, i + 1), style));
        }
        i = i + 1;
    }
    proof {
        assert(chars@.subrange(0, chars@.len() as int) =~= chars@);
    }
}

/// Append one control hint.
fn push_entry(buf: &mut Vec<Cell>, key: &Vec<char>, color: u8, label: &Vec<char>, minimal: bool)
    ensures
        final(buf)@ == old(buf)@ + entry_cells(key@, color, label@, minimal),
{
    let ghost b0 = buf@;
    push_styled(buf, key, Style { fg: Color::Palette(color), bold: false, italic: false });
    if !minimal {
        buf.push(Cell::blank());
        push_styled(buf, label, Style { fg: Color::Palette(8), bold: false, italic: false });
    }
    proof {
        assert(final(buf)@ =~= b0 + entry_cells(key@, color, label@, minimal));
    }
}

/// Append the separator between control hints.
fn push_sep(buf: &mut Vec<Cell>, minimal: bool)
    ensures
        final(buf)@ == old(buf)@ + sep_cells(minimal),
{
    let ghost b0 = buf@;
    let dim = Style { fg: Color::Palette(8), bold: false, italic: false };
    if minimal {
        buf.push(Cell::new(' ', dim));
    } else {
        buf.push(Cell::new(' ', dim));
        buf.push(Cell::new('\u{2022}', dim));
        buf.push(Cell::new(' ', dim));
    }
    proof {
        assert(final(buf)@ =~= b0 + sep_cells(minimal));
    }
}

/// Build the controls line for a mode at a width, before clipping.
fn controls_row(mode: Mode, width: usize) -> (r: Vec<Cell>)
    requires
        width <= MAX_DIM,
    ensures
        r@ == controls_layout(mode, width as int),
{
    let full: usize = match mode {
        Mode::Listening => 47,
        Mode::Editing => 33,
    };
    let short: usize = match mode {
        Mode::Listening => 36,
        Mode::Editing => 28,
    };
    let use_short = full > width && short <= width;
    let minimal = short > width;
    let mut buf: Vec<Cell> = Vec::new();
    proof {
        assert(Seq::<Cell>::empty() + entry_cells(
            seq!['E', 'n', 't', 'e', 'r'],
            3,
            seq!['d', 'o', 'n', 'e'],
            minimal,
        ) =~= entry_cells(seq!['E', 'n', 't', 'e', 'r'], 3, seq!['d', 'o', 'n', 'e'], minimal));
    }
    match mode {
        Mode::Listening => {
            let key1 = vec!['E', 'n', 't', 'e', 'r'];
            let lab1 = if use_short {
                vec!['f', 'i', 'n']
            } else {
                vec!['f', 'i', 'n', 'i', 's', 'h']
            };
            let key2 = vec!['^', 'E'];
            let lab2 = if use_short {
                vec!['e', 'd', 't']
            } else {
                vec!['e', 'd', 'i', 't']
            };
            let key3 = vec!['^', 'R'];
            let lab3 = if use_short {
                vec!['r', 's', 't']
            } else {
                vec!['r', 'e', 's', 't', 'a', 'r', 't']
            };
            let key4 = vec!['^', 'C'];
            let lab4 = if use_short {
                vec!['e', 's', 'c']
            } else {
                vec!['c', 'a', 'n', 'c', 'e', 'l']
            };
            push_entry(&mut buf, &key1, 3, &lab1, minimal);
            push_sep(&mut buf, minimal);
            push_entry(&mut buf, &key2, 5, &lab2, minimal);
            push_sep(&mut buf, minimal);
            push_entry(&mut buf, &key3, 4, &lab3, minimal);
            push_sep(&mut buf, minimal);
            push_entry(&mut buf, &key4, 1, &lab4, minimal);
            proof {
                assert(buf@ =~= controls_layout(mode, width as int));
            }
        },
        Mode::Editing => {
            let key1 = vec!['E', 'n', 't', 'e', 'r'];
            let lab1 = vec!['d', 'o', 'n', 'e'];
            let key2 = vec!['E', 's', 'c'];
            let lab2 = if use_short {
                vec!['e', 's', 'c']
            } else {
                vec!['c', 'a', 'n', 'c', 'e', 'l']
            };
            let key3 = vec!['\u{2190}', '\u{2192}'];
            let lab3 = if use_short {
                vec!['m', 'v']
            } else {
                vec!['m', 'o', 'v', 'e']
            };
            push_entry(&mut buf, &key1, 3, &lab1, minimal);
            push_sep(&mut buf, minimal);
            push_entry(&mut buf, &key2, 1, &lab2, minimal);
            push_sep(&mut buf, minimal);
            push_entry(&mut buf, &key3, 8, &lab3, minimal);
            proof {
                assert(buf@ =~= controls_layout(mode, width as int));
            }
        },
    }
    buf
}

/// The columns of the first row left for text, after the status glyph and
/// its trailing space.
pub open spec fn first_line_width(width: int) -> int {
    if width >= 2 {
        width - 2
    } else {
        0
    }
}

/// How many rows the transcript may occupy: all of them, or all but the
/// last when the controls line is shown.
pub open spec fn content_rows(ui: Ui, h: int) -> int {
    if ui.show_controls {
        if h >= 1 {
            h - 1
        } else {
            0
        }
    } else {
        h
    }
}

/// A row of `w` cells taken from `s` starting at `start`, blank past the
/// end of `s`.
pub open spec fn fit_from(s: Seq<Cell>, start: int, w: int) -> Seq<Cell> {
    Seq::new(w as nat, |x: int| fit_cell(s, start, x))
}

/// The cell a clipped row shows at offset `x`.
pub open spec fn fit_cell(s: Seq<Cell>, start: int, x: int) -> Cell {
    if 0 <= start + x < s.len() {
        s[start + x]
    } else {
        Cell::blank_spec()
    }
}

/// What one grid row shows after [`Ui::render`]: the controls line on the
/// last row when enabled; otherwise the status glyph, a space and the
/// head of the text stream on row 0 (the placeholder when the transcript
/// is empty); full-width slices of the stream on the remaining content
/// rows; blanks elsewhere.
pub open spec fn spec_render_row(ui: Ui, now: int, w: int, h: int, r: int) -> Seq<Cell> {
    let cr = content_rows(ui, h);
    let flw = first_line_width(w);
    let flow = flow_cells(ui, now);
    if ui.show_controls && h > 0 && r == h - 1 {
        fit_from(controls_layout(ui.mode, w), 0, w)
    } else if r == 0 {
        let stream = placeholder_cells(ui) + flow;
        fit_from(
            seq![spinner_cell(ui), Cell::blank_spec()] + (if cr >= 1 {
                fit_from(stream, 0, flw)
            } else {
                Seq::<Cell>::empty()
            }),
            0,
            w,
        )
    } else if 1 <= r < cr {
        fit_from(flow, flw + (r - 1) * w, w)
    } else {
        fit_from(Seq::<Cell>::empty(), 0, w)
    }
}

/// Build a clipped row from a cell buffer.
#[verifier::loop_isolation(false)]
pub(crate) fn fit_from_exec(src: &Vec<Cell>, start: usize, width: usize) -> (r: Vec<Cell>)
    requires
        start <= 2_000_000_000,
        width <= MAX_DIM,
    ensures
        r@ == fit_from(src@, start as int, width as int),
{
    let mut r: Vec<Cell> = Vec::new();
    let mut x: usize = 0;
    while x < width
        invariant
            x <= width,
            r@.len() == x,
            forall|j: int| 0 <= j < x ==> r@[j] == fit_cell(src@, start as int, j),
        decreases width - x,
    {
        if start + x < src.len() {
            let c = src[start + x];
            r.push(c);
        } else {
            r.push(Cell::blank());
        }
        x = x + 1;
    }
    proof {
        assert(r@ =~= fit_from(src@, start as int, width as int));
    }
    r
}

impl Ui {
    /// The placeholder cells, when shown.
    fn placeholder_exec(&self) -> (r: Vec<Cell>)
        ensures
            r@ == placeholder_cells(*self),
    {
        let mut v: Vec<Cell> = Vec::new();
        if !(self.is_empty() && self.show_placeholder) {
            return v;
        }
        let text = vec!['S', 'p', 'e', 'a', 'k', ' ', 'n', 'o', 'w', '.', '.', '.'];
        push_styled(&mut v, &text, Style { fg: Color::Palette(8), bold: false, italic: false });
        proof {
            assert(Seq::<Cell>::empty() + styled_cells(placeholder_text(), dim_style())
                =~= styled_cells(placeholder_text(), dim_style()));
        }
        v
    }

    /// Compose the whole frame into the surface: the status glyph, the
    /// wrapped transcript (or placeholder) and the controls line, blanks
    /// everywhere else.  The committed grid is untouched, so the next diff
    /// is exactly what this frame changed.
    #[verifier::loop_isolation(false)]
    #[verifier::rlimit(60)]
    #[verifier::spinoff_prover]
    pub fn render(&self, surface: &mut InlineSurface, elapsed_ms: i64)
        requires
            self.wf(),
            old(surface).wf(),
            0 <= elapsed_ms <= MAX_TIME_MS,
        ensures
            final(surface).wf(),
            final(surface).spec_width() == old(surface).spec_width(),
            final(surface).spec_height() == old(surface).spec_height(),
            final(surface).prev() == old(surface).prev(),
            forall|r: int|
                0 <= r < old(surface).spec_height() ==> final(surface).cur()[r]
                    == spec_render_row(
                    *self,
                    elapsed_ms as int,
                    old(surface).spec_width(),
                    old(surface).spec_height(),
                    r,
                ),
    {
        let (width, height) = surface.dimensions();
        let ghost wi = width as int;
        let ghost hi = height as int;
        let flow = self.flow_cells_exec(elapsed_ms);
        let placeholder = self.placeholder_exec();
        let flw: usize = if width >= 2 {
            width - 2
        } else {
            0
        };
        let cr: usize = if self.show_controls {
            if height >= 1 {
                height - 1
            } else {
                0
            }
        } else {
            height
        };
        let controls: Vec<Cell> = if self.show_controls {
            controls_row(self.mode, width)
        } else {
            Vec::new()
        };
        let mut pos: usize = if flw < flow.len() {
            flw
        } else {
            flow.len()
        };
        let mut r: usize = 0;
        while r < height
            invariant
                r <= height,
                surface.wf(),
                surface.spec_width() == wi,
                surface.spec_height() == hi,
                surface.prev() == old(surface).prev(),
                pos as int == (if flw + (if r >= 1 {
                    (r - 1) as int
                } else {
                    0
                }) * wi <= flow@.len() {
                    flw + (if r >= 1 {
                        (r - 1) as int
                    } else {
                        0
                    }) * wi
                } else {
                    flow@.len() as int
                }),
                forall|rr: int|
                    0 <= rr < r ==> surface.cur()[rr] == spec_render_row(
                        *self,
                        elapsed_ms as int,
                        wi,
                        hi,
                        rr,
                    ),
            decreases height - r,
        {
            let ghost start_spec = flw + (if r >= 1 {
                (r - 1) as int
            } else {
                0
            }) * wi;
            let row_vec: Vec<Cell> = if self.show_controls && r == height - 1 {
                fit_from_exec(&controls, 0, width)
            } else if r == 0 {
                let mut head: Vec<Cell> = Vec::new();
                head.push(self.spinner_glyph());
                head.push(Cell::blank());
                if cr >= 1 {
                    let stream: &Vec<Cell> = if placeholder.len() > 0 {
                        &placeholder
                    } else {
                        &flow
                    };
                    let mut chunk = fit_from_exec(stream, 0, flw);
                    proof {
                        assert(stream@ =~= placeholder_cells(*self) + flow_cells(
                            *self,
                            elapsed_ms as int,
                        ));
                    }
                    head.append(&mut chunk);
                }
                let out = fit_from_exec(&head, 0, width);
                proof {
                    let streamg = placeholder_cells(*self) + flow_cells(*self, elapsed_ms as int);
                    if cr >= 1 {
                        assert(head@ =~= seq![
                            spinner_cell(*self),
                            Cell::blank_spec(),
                        ] + fit_from(streamg, 0, flw as int));
                    } else {
                        assert(head@ =~= seq![
                            spinner_cell(*self),
                            Cell::blank_spec(),
                        ] + Seq::<Cell>::empty());
                    }
                    assert(out@ == spec_render_row(*self, elapsed_ms as int, wi, hi, 0));
                }
                out
            } else if r < cr {
                let out = fit_from_exec(&flow, pos, width);
                proof {
                    assert(out@ =~= fit_from(flow@, start_spec, wi)) by {
                        assert(forall|x: int|
                            0 <= x < wi ==> fit_cell(flow@, pos as int, x) == fit_cell(
                                flow@,
                                start_spec,
                                x,
                            ));
                    }
                }
                out
            } else {
                let empty_cells: Vec<Cell> = Vec::new();
                let out = fit_from_exec(&empty_cells, 0, width);
                proof {
                    assert(out@ =~= fit_from(Seq::<Cell>::empty(), 0, wi));
                }
                out
            };
            surface.set_row(r, row_vec);
            if r >= 1 {
                pos = if pos + width < flow.len() {
                    pos + width
                } else {
                    flow.len()
                };
                proof {
                    assert((r + 1 - 1) * wi == (r - 1) * wi + wi) by (nonlinear_arith);
                }
            }
            r = r + 1;
        }
    }
}

/// The edit lifecycle round trip: entering edit mode and cancelling
/// restores the frozen text to the full pre-edit transcript (the snapshot
/// taken on entry), with the source regions clear and listening resumed.
pub proof fn lemma_edit_cancel_restores(a: Ui, b: Ui, c: Ui)
    requires
        is_start_edit(a, b),
        is_cancel_edit(b, c),
    ensures
        c.frozen_text@ == full_text_spec(a),
        c.text@ == Seq::<char>::empty(),
        c.stable_len == 0,
        c.mode == Mode::Listening,
        full_text_spec(c) == full_text_spec(a),
{
    assert(full_text_spec(c) =~= full_text_spec(a));
}

impl Default for Ui {
    fn default() -> (r: Ui)
        ensures
            r.wf(),
            r.mode == Mode::Listening,
            r.spinner_state == SpinnerState::Loading,
            full_text_spec(r).len() == 0,
            r.stable_len == 0,
            r.animation_start_ms == 0,
            r.cursor_pos == 0,
            !r.show_placeholder,
            !r.show_controls,
    {
        Ui::new()
    }
}

/// Copy a character buffer.
fn copy_chars(src: &Vec<char>) -> (r: Vec<char>)
    ensures
        r@ == src@,
{
    let mut r: Vec<char> = Vec::new();
    let mut i: usize = 0;
    while i < src.len()
        invariant
            i <= src@.len(),
            r@ == src@.subrange(0, i as int),
        decreases src@.len() - i,
    {
        r.push(src[i]);
        proof {
            assert(r@ =~= src@.subrange(0, i + 1 as int));
        }
        i = i + 1;
    }
    proof {
        assert(r@ =~= src@);
    }
    r
}

/// Length of the longest common prefix of two buffers.
fn common_prefix(a: &Vec<char>, b: &Vec<char>) -> (r: usize)
    ensures
        r as int == common_prefix_len(a@, b@),
        r <= a@.len(),
        r <= b@.len(),
        forall|j: int| 0 <= j < r ==> a@[j] == b@[j],
        r < a@.len() && r < b@.len() ==> a@[r as int] != b@[r as int],
{
    let mut i: usize = 0;
    while i < a.len() && i < b.len() && a[i] == b[i]
        invariant
            i <= a@.len(),
            i <= b@.len(),
            forall|j: int| 0 <= j < i ==> a@[j] == b@[j],
        decreases a@.len() - i,
    {
        i = i + 1;
    }
    proof {
        lemma_common_prefix_exact(a@, b@, 0, i as int);
    }
    i
}

/// Whether `a` and `b` agree at every index of `from..to`.
pub open spec fn ranges_agree_spec(a: Seq<char>, b: Seq<char>, from: int, to: int) -> bool {
    forall|j: int| from <= j < to ==> a[j] == b[j]
}

fn ranges_agree(a: &Vec<char>, b: &Vec<char>, from: usize, to: usize) -> (r: bool)
    requires
        from <= to,
        to <= a@.len(),
        to <= b@.len(),
    ensures
        r == ranges_agree_spec(a@, b@, from as int, to as int),
{
    let mut i: usize = from;
    while i < to && a[i] == b[i]
        invariant
            from <= i <= to,
            to <= a@.len(),
            to <= b@.len(),
            forall|j: int| from <= j < i ==> a@[j] == b@[j],
        decreases to - i,
    {
        i = i + 1;
    }
    i == to
}

} // verus!
