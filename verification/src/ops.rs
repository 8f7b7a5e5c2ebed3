//! Terminal operations emitted by the diff engine and the frame planner.
//!
//! The crate never touches a terminal itself: its renderers return lists of
//! [`TermOp`] values, and the caller translates them into whatever control
//! sequences its terminal library uses.  Rows are always addressed relative
//! to the cursor, columns absolutely, so a frame can be painted inline
//! among ordinary shell output.

use vstd::prelude::*;

use crate::cell::Style;

verus! {

/// One operation against the terminal.
#[derive(Clone, PartialEq, Eq, Debug)]
pub enum TermOp {
    /// Move the cursor to absolute column `col`, `rows` rows down from the
    /// current row (negative values move up).
    Move { col: usize, rows: i64 },
    /// Set the style for all subsequently emitted text.
    SetStyle(Style),
    /// Emit the glyphs at the cursor, advancing it one column per glyph.
    Text(Vec<char>),
    /// Clear from the cursor to the end of the current line.
    ClearToEol,
    /// Show or hide the cursor.
    SetCursorVisible(bool),
}

/// The mathematical shape of a [`TermOp`]: the same constructors over
/// `int` and `Seq`, used by every contract about operation lists.
pub enum GOp {
    Move { col: int, rows: int },
    SetStyle(Style),
    Text(Seq<char>),
    ClearToEol,
    SetCursorVisible(bool),
}

impl View for TermOp {
    type V = GOp;

    open spec fn view(&self) -> GOp {
        match self {
            TermOp::Move { col, rows } => GOp::Move { col: *col as int, rows: *rows as int },
            TermOp::SetStyle(s) => GOp::SetStyle(*s),
            TermOp::Text(t) => GOp::Text(t@),
            TermOp::ClearToEol => GOp::ClearToEol,
            TermOp::SetCursorVisible(v) => GOp::SetCursorVisible(*v),
        }
    }
}

/// The view of a whole operation list.
pub open spec fn ops_view(s: Seq<TermOp>) -> Seq<GOp> {
    s.map_values(|op: TermOp| op@)
}

/// Appending one operation appends its view.
pub proof fn lemma_ops_view_push(s: Seq<TermOp>, op: TermOp)
    ensures
        ops_view(s.push(op)) == ops_view(s).push(op@),
{
    assert(ops_view(s.push(op)) =~= ops_view(s).push(op@));
}

} // verus!
