//! The cell grid and its differential renderer.
//!
//! [`InlineSurface`] keeps two grids of equal dimensions: the frame being
//! built and the frame last committed to the terminal.  [`InlineSurface::get_line_changes`]
//! computes, for one row, the minimal column-addressed operations that turn
//! the committed row into the current one: runs of changed cells that share
//! a style coalesce into a single text emission, a cursor move is emitted
//! only when the cursor is not already in place, and a style change only
//! when it differs from the last style emitted on that row.
//!
//! [`InlineTerminal`] plans whole frames on top of the surface using only
//! relative vertical cursor motion, so the region composes inline with
//! ordinary shell output.

use vstd::prelude::*;

use crate::cell::{Cell, Style};
use crate::ops::{GOp, TermOp, lemma_ops_view_push, ops_view};

verus! {

/// Upper bound on grid dimensions, so that every cursor-motion distance and
/// cell count fits comfortably in the machine integers the planner uses.
pub const MAX_DIM: usize = 1_000_000;

/// A surface for inline terminal rendering: a current grid being composed
/// and the grid most recently committed to the terminal.
pub struct InlineSurface {
    pub width: usize,
    pub height: usize,
    pub lines: Vec<Vec<Cell>>,
    pub prev_lines: Vec<Vec<Cell>>,
}

/// A row of `w` blank cells.
pub open spec fn blank_row_spec(w: int) -> Seq<Cell> {
    Seq::new(w as nat, |i: int| Cell::blank_spec())
}

/// A grid of `h` rows of `w` cells `c`.
pub open spec fn filled_grid_spec(w: int, h: int, c: Cell) -> Seq<Seq<Cell>> {
    Seq::new(h as nat, |y: int| Seq::new(w as nat, |x: int| c))
}

fn make_row(width: usize, c: Cell) -> (r: Vec<Cell>)
    ensures
        r@ == Seq::new(width as nat, |x: int| c),
{
    let mut r: Vec<Cell> = Vec::new();
    let mut i: usize = 0;
    while i < width
        invariant
            i <= width,
            r@.len() == i,
            forall|j: int| 0 <= j < i ==> r@[j] == c,
        decreases width - i,
    {
        r.push(c);
        i = i + 1;
    }
    proof {
        assert(r@ =~= Seq::new(width as nat, |x: int| c));
    }
    r
}

fn make_grid(width: usize, height: usize, c: Cell) -> (r: Vec<Vec<Cell>>)
    ensures
        r@.map_values(|row: Vec<Cell>| row@) == filled_grid_spec(width as int, height as int, c),
{
    let mut r: Vec<Vec<Cell>> = Vec::new();
    let mut y: usize = 0;
    while y < height
        invariant
            y <= height,
            r@.len() == y,
            forall|j: int| 0 <= j < y ==> (#[trigger] r@[j])@ == Seq::new(width as nat, |x: int| c),
        decreases height - y,
    {
        r.push(make_row(width, c));
        y = y + 1;
    }
    proof {
        assert(r@.map_values(|row: Vec<Cell>| row@) =~= filled_grid_spec(
            width as int,
            height as int,
            c,
        ));
    }
    r
}

fn copy_row(src: &Vec<Cell>) -> (r: Vec<Cell>)
    ensures
        r@ == src@,
{
    let mut r: Vec<Cell> = Vec::new();
    let mut i: usize = 0;
    while i < src.len()
        invariant
            i <= src@.len(),
            r@ == src@.subrange(0, i as int),
        decreases src@.len() - i,
    {
        r.push(src[i]);
        proof {
            assert(r@ =~= src@.subrange(0, i + 1 as int));
        }
        i = i + 1;
    }
    proof {
        assert(r@ =~= src@);
    }
    r
}

/// The first column at or after `i` where the run of changed cells in
/// style `st` breaks: the end of the row, an unchanged cell, or a cell in
/// another style.
pub open spec fn run_end(c: Seq<Cell>, p: Seq<Cell>, w: int, i: int, st: Style) -> int
    decreases w - i,
{
    if i < 0 || i >= w {
        i
    } else if c[i] == p[i] || c[i].style != st {
        i
    } else {
        run_end(c, p, w, i + 1, st)
    }
}

/// The operations the diff engine emits for columns `col..w` of one row,
/// given that the cursor stands at column `cursor` (`-1`: unknown) and the
/// last emitted style is `style` (`None`: none yet).  Each maximal run of
/// changed cells sharing one style becomes: a cursor move if the cursor is
/// elsewhere, a style set if the style differs from the last one emitted,
/// and a single text emission of the run's glyphs.
pub open spec fn diff_from(
    c: Seq<Cell>,
    p: Seq<Cell>,
    w: int,
    col: int,
    cursor: int,
    style: Option<Style>,
) -> Seq<GOp>
    decreases w - col,
{
    if col < 0 || col >= w {
        Seq::empty()
    } else if c[col] == p[col] {
        diff_from(c, p, w, col + 1, cursor, style)
    } else {
        let st = c[col].style;
        let re = run_end(c, p, w, col + 1, st);
        let r = if col + 1 <= re <= w {
            re
        } else {
            col + 1
        };
        (if cursor == col {
            Seq::<GOp>::empty()
        } else {
            seq![GOp::Move { col, rows: 0 }]
        }) + (if style == Some(st) {
            Seq::<GOp>::empty()
        } else {
            seq![GOp::SetStyle(st)]
        }) + seq![GOp::Text(c.subrange(col, r).map_values(|cl: Cell| cl.ch))] + diff_from(
            c,
            p,
            w,
            r,
            r,
            Some(st),
        )
    }
}

/// The full diff of one row, starting with an unknown cursor column and no
/// emitted style.
pub open spec fn line_diff(c: Seq<Cell>, p: Seq<Cell>, w: int) -> Seq<GOp> {
    diff_from(c, p, w, 0, -1, None)
}

/// If every column in `i..k` continues the run and `k` breaks it, then `k`
/// is exactly where the run ends.
pub proof fn lemma_run_end_exact(c: Seq<Cell>, p: Seq<Cell>, w: int, i: int, k: int, st: Style)
    requires
        0 <= i <= k <= w,
        forall|j: int| i <= j < k ==> c[j] != p[j] && (#[trigger] c[j]).style == st,
        k == w || c[k] == p[k] || c[k].style != st,
    ensures
        run_end(c, p, w, i, st) == k,
    decreases k - i,
{
    if i < k {
        lemma_run_end_exact(c, p, w, i + 1, k, st);
    }
}

/// Columns from `col` on that agree with the committed row produce no
/// operations.
pub proof fn lemma_diff_equal_suffix(
    c: Seq<Cell>,
    p: Seq<Cell>,
    w: int,
    col: int,
    cursor: int,
    style: Option<Style>,
)
    requires
        forall|j: int| col <= j < w ==> c[j] == p[j],
    ensures
        diff_from(c, p, w, col, cursor, style) == Seq::<GOp>::empty(),
    decreases w - col,
{
    if 0 <= col < w {
        lemma_diff_equal_suffix(c, p, w, col + 1, cursor, style);
    }
}

/// Diffing a row that equals its committed counterpart yields no
/// operations: immediately after `commit`, and again after applying an
/// empty diff, every row diff is empty.
pub proof fn lemma_line_diff_unchanged(c: Seq<Cell>, p: Seq<Cell>, w: int)
    requires
        forall|j: int| 0 <= j < w ==> c[j] == p[j],
    ensures
        line_diff(c, p, w) == Seq::<GOp>::empty(),
{
    lemma_diff_equal_suffix(c, p, w, 0, -1, None);
}

/// Equal columns in `col..k` are skipped without emitting anything.
pub proof fn lemma_diff_skip_equal(
    c: Seq<Cell>,
    p: Seq<Cell>,
    w: int,
    col: int,
    k: int,
    cursor: int,
    style: Option<Style>,
)
    requires
        0 <= col <= k <= w,
        forall|j: int| col <= j < k ==> c[j] == p[j],
    ensures
        diff_from(c, p, w, col, cursor, style) == diff_from(c, p, w, k, cursor, style),
    decreases k - col,
{
    if col < k {
        lemma_diff_skip_equal(c, p, w, col + 1, k, cursor, style);
    }
}

/// A row that differs from its committed counterpart in exactly one cell
/// diffs to exactly three operations: move to that column, set the new
/// cell's style, and emit its glyph as one text run.
pub proof fn lemma_line_diff_single_change(c: Seq<Cell>, p: Seq<Cell>, w: int, j: int)
    requires
        c.len() == w,
        p.len() == w,
        0 <= j < w,
        c[j] != p[j],
        forall|i: int| 0 <= i < w && i != j ==> c[i] == p[i],
    ensures
        line_diff(c, p, w) == seq![
            GOp::Move { col: j, rows: 0 },
            GOp::SetStyle(c[j].style),
            GOp::Text(seq![c[j].ch]),
        ],
{
    let st = c[j].style;
    lemma_diff_skip_equal(c, p, w, 0, j, -1, None);
    lemma_run_end_exact(c, p, w, j + 1, j + 1, st);
    lemma_diff_equal_suffix(c, p, w, j + 1, j + 1, Some(st));
    assert(c.subrange(j, j + 1).map_values(|cl: Cell| cl.ch) =~= seq![c[j].ch]);
    assert(diff_from(c, p, w, j, -1, None) =~= seq![
        GOp::Move { col: j, rows: 0 },
        GOp::SetStyle(st),
        GOp::Text(seq![c[j].ch]),
    ]);
}

impl InlineSurface {
    /// The grid being composed, as a sequence of rows.
    pub open spec fn cur(self) -> Seq<Seq<Cell>> {
        self.lines@.map_values(|row: Vec<Cell>| row@)
    }

    /// The grid last committed, as a sequence of rows.
    pub open spec fn prev(self) -> Seq<Seq<Cell>> {
        self.prev_lines@.map_values(|row: Vec<Cell>| row@)
    }

    pub open spec fn spec_width(self) -> int {
        self.width as int
    }

    pub open spec fn spec_height(self) -> int {
        self.height as int
    }

    /// Both grids always share the surface's dimensions.
    pub open spec fn wf(self) -> bool {
        &&& self.cur().len() == self.height
        &&& self.prev().len() == self.height
        &&& forall|y: int| 0 <= y < self.height ==> (#[trigger] self.cur()[y]).len() == self.width
        &&& forall|y: int|
            0 <= y < self.height ==> (#[trigger] self.prev()[y]).len() == self.width
        &&& self.width <= MAX_DIM
        &&& self.height <= MAX_DIM
    }

    /// Create a surface of the given dimensions with both grids blank.
    pub fn new(width: usize, height: usize) -> (r: InlineSurface)
        requires
            width <= MAX_DIM,
            height <= MAX_DIM,
        ensures
            r.wf(),
            r.spec_width() == width,
            r.spec_height() == height,
            r.cur() == filled_grid_spec(width as int, height as int, Cell::blank_spec()),
            r.prev() == filled_grid_spec(width as int, height as int, Cell::blank_spec()),
    {
        InlineSurface {
            width,
            height,
            lines: make_grid(width, height, Cell::blank()),
            prev_lines: make_grid(width, height, Cell::blank()),
        }
    }

    /// Resize the surface.  This clears both grids, so the next frame is a
    /// full repaint of the new region.
    pub fn resize(&mut self, width: usize, height: usize)
        requires
            width <= MAX_DIM,
            height <= MAX_DIM,
        ensures
            final(self).wf(),
            final(self).spec_width() == width,
            final(self).spec_height() == height,
            final(self).cur() == filled_grid_spec(width as int, height as int, Cell::blank_spec()),
            final(self).prev() == filled_grid_spec(width as int, height as int, Cell::blank_spec()),
    {
        self.width = width;
        self.height = height;
        self.lines = make_grid(width, height, Cell::blank());
        self.prev_lines = make_grid(width, height, Cell::blank());
    }

    /// Get dimensions as `(width, height)`.
    pub fn dimensions(&self) -> (r: (usize, usize))
        ensures
            r.0 == self.spec_width(),
            r.1 == self.spec_height(),
    {
        (self.width, self.height)
    }

    /// Blank every cell of the current grid; the committed grid is untouched.
    pub fn clear(&mut self)
        requires
            old(self).wf(),
        ensures
            final(self).wf(),
            final(self).spec_width() == old(self).spec_width(),
            final(self).spec_height() == old(self).spec_height(),
            final(self).cur() == filled_grid_spec(
                old(self).spec_width(),
                old(self).spec_height(),
                Cell::blank_spec(),
            ),
            final(self).prev() == old(self).prev(),
    {
        self.lines = make_grid(self.width, self.height, Cell::blank());
    }

    /// Store a cell into the current grid; out-of-range positions are ignored.
    pub fn set_cell(&mut self, x: usize, y: usize, cell: Cell)
        requires
            old(self).wf(),
        ensures
            final(self).wf(),
            final(self).spec_width() == old(self).spec_width(),
            final(self).spec_height() == old(self).spec_height(),
            final(self).prev() == old(self).prev(),
            x < old(self).spec_width() && y < old(self).spec_height() ==> final(self).cur()
                == old(self).cur().update(
                y as int,
                old(self).cur()[y as int].update(x as int, cell),
            ),
            !(x < old(self).spec_width() && y < old(self).spec_height()) ==> final(self).cur()
                == old(self).cur(),
    {
        if y < self.height && x < self.width {
            proof {
                assert(self.cur()[y as int] == self.lines@[y as int]@);
            }
            let row = &mut self.lines[y];
            row[x] = cell;
            proof {
                assert(final(self).cur() =~= old(self).cur().update(
                    y as int,
                    old(self).cur()[y as int].update(x as int, cell),
                ));
            }
        }
    }

    /// Replace one whole row of the current grid.
    pub(crate) fn set_row(&mut self, y: usize, cells: Vec<Cell>)
        requires
            old(self).wf(),
            y < old(self).spec_height(),
            cells@.len() == old(self).spec_width(),
        ensures
            final(self).wf(),
            final(self).spec_width() == old(self).spec_width(),
            final(self).spec_height() == old(self).spec_height(),
            final(self).prev() == old(self).prev(),
            final(self).cur() == old(self).cur().update(y as int, cells@),
    {
        let ghost cs = cells@;
        self.lines[y] = cells;
        proof {
            assert(final(self).cur() =~= old(self).cur().update(y as int, cs));
        }
    }

    /// Write a run of characters in one style at `(x, y)`, clipping at the
    /// right edge; an out-of-range row is ignored.
    pub fn set_text(&mut self, x: usize, y: usize, text: &Vec<char>, style: Style)
        requires
            old(self).wf(),
        ensures
            final(self).wf(),
            final(self).spec_width() == old(self).spec_width(),
            final(self).spec_height() == old(self).spec_height(),
            final(self).prev() == old(self).prev(),
            final(self).cur().len() == old(self).cur().len(),
            forall|yy: int|
                0 <= yy < old(self).cur().len() && yy != y ==> final(self).cur()[yy] == old(
                    self,
                ).cur()[yy],
            y < old(self).spec_height() ==> {
                &&& final(self).cur()[y as int].len() == old(self).spec_width()
                &&& forall|j: int|
                    0 <= j < old(self).spec_width() ==> final(self).cur()[y as int][j] == (
                    if x <= j < x + text@.len() {
                        Cell { ch: text@[j - x], style }
                    } else {
                        old(self).cur()[y as int][j]
                    })
            },
            y >= old(self).spec_height() ==> final(self).cur() == old(self).cur(),
    {
        if y >= self.height {
            return ;
        }
        proof {
            assert(self.cur()[y as int] == self.lines@[y as int]@);
        }
        let mut row = copy_row(&self.lines[y]);
        let mut col: usize = x;
        let mut i: usize = 0;
        while i < text.len() && col < self.width
            invariant
                old(self).wf(),
                col == x + i,
                i <= text@.len(),
                y < old(self).spec_height(),
                row@.len() == old(self).spec_width(),
                forall|j: int|
                    0 <= j < old(self).spec_width() ==> row@[j] == (
                    if x <= j < x + i {
                        Cell { ch: text@[j - x], style }
                    } else {
                        old(self).cur()[y as int][j]
                    }),
            decreases text@.len() - i,
        {
            row[col] = Cell { ch: text[i], style };
            col = col + 1;
            i = i + 1;
        }
        let ghost rs = row@;
        self.lines[y] = row;
        proof {
            assert(final(self).cur() =~= old(self).cur().update(y as int, rs));
        }
    }

    /// Fill a row from column `x` to the right edge with blanks.
    pub fn clear_to_eol(&mut self, x: usize, y: usize)
        requires
            old(self).wf(),
        ensures
            final(self).wf(),
            final(self).spec_width() == old(self).spec_width(),
            final(self).spec_height() == old(self).spec_height(),
            final(self).prev() == old(self).prev(),
            final(self).cur().len() == old(self).cur().len(),
            forall|yy: int|
                0 <= yy < old(self).cur().len() && yy != y ==> final(self).cur()[yy] == old(
                    self,
                ).cur()[yy],
            y < old(self).spec_height() ==> {
                &&& final(self).cur()[y as int].len() == old(self).spec_width()
                &&& forall|j: int|
                    0 <= j < old(self).spec_width() ==> final(self).cur()[y as int][j] == (
                    if x <= j {
                        Cell::blank_spec()
                    } else {
                        old(self).cur()[y as int][j]
                    })
            },
            y >= old(self).spec_height() ==> final(self).cur() == old(self).cur(),
    {
        if y >= self.height {
            return ;
        }
        proof {
            assert(self.cur()[y as int] == self.lines@[y as int]@);
        }
        let mut row = copy_row(&self.lines[y]);
        let mut col: usize = x;
        while col < self.width
            invariant
                old(self).wf(),
                x <= col,
                y < old(self).spec_height(),
                row@.len() == old(self).spec_width(),
                forall|j: int|
                    0 <= j < old(self).spec_width() ==> row@[j] == (
                    if x <= j < col {
                        Cell::blank_spec()
                    } else {
                        old(self).cur()[y as int][j]
                    }),
            decreases old(self).spec_width() - col,
        {
            row[col] = Cell::blank();
            col = col + 1;
        }
        let ghost rs = row@;
        self.lines[y] = row;
        proof {
            assert(final(self).cur() =~= old(self).cur().update(y as int, rs));
        }
    }

    /// Copy the current grid into the committed grid.
    pub fn commit(&mut self)
        requires
            old(self).wf(),
        ensures
            final(self).wf(),
            final(self).spec_width() == old(self).spec_width(),
            final(self).spec_height() == old(self).spec_height(),
            final(self).cur() == old(self).cur(),
            final(self).prev() == old(self).cur(),
    {
        let mut p: Vec<Vec<Cell>> = Vec::new();
        let mut y: usize = 0;
        while y < self.height
            invariant
                y <= self.height,
                self == old(self),
                old(self).wf(),
                p@.len() == y,
                forall|j: int| 0 <= j < y ==> (#[trigger] p@[j])@ == old(self).cur()[j],
            decreases self.height - y,
        {
            p.push(copy_row(&self.lines[y]));
            y = y + 1;
        }
        self.prev_lines = p;
        proof {
            assert(final(self).prev() =~= old(self).cur());
        }
    }

    /// Compute the operations that make the committed row `row` equal to
    /// the current one.  Only column coordinates appear; the caller has
    /// already placed the cursor on the row.  An out-of-range row yields
    /// nothing.
    pub fn get_line_changes(&self, row: usize) -> (r: Vec<TermOp>)
        requires
            self.wf(),
        ensures
            row < self.spec_height() ==> ops_view(r@) == line_diff(
                self.cur()[row as int],
                self.prev()[row as int],
                self.spec_width(),
            ),
            row >= self.spec_height() ==> r@.len() == 0,
    {
        let mut ops: Vec<TermOp> = Vec::new();
        if row >= self.height {
            return ops;
        }
        proof {
            assert(self.cur()[row as int] == self.lines@[row as int]@);
            assert(self.prev()[row as int] == self.prev_lines@[row as int]@);
        }
        let cur_row = &self.lines[row];
        let prev_row = &self.prev_lines[row];
        let ghost c = cur_row@;
        let ghost p = prev_row@;
        let w = self.width;
        let ghost wi = w as int;
        let mut col: usize = 0;
        let mut has_cursor: bool = false;
        let mut cursor_col: usize = 0;
        let mut has_style: bool = false;
        let mut last_style: Style = Style::plain();
        proof {
            assert(ops_view(ops@) =~= Seq::<GOp>::empty());
            assert(ops_view(ops@) + diff_from(c, p, wi, 0, -1, None::<Style>) =~= line_diff(
                c,
                p,
                wi,
            ));
        }
        while col < w
            invariant
                c.len() == wi,
                p.len() == wi,
                w == wi,
                col <= w,
                cur_row@ == c,
                prev_row@ == p,
                ops_view(ops@) + diff_from(
                    c,
                    p,
                    wi,
                    col as int,
                    if has_cursor {
                        cursor_col as int
                    } else {
                        -1
                    },
                    if has_style {
                        Some(last_style)
                    } else {
                        None
                    },
                ) == line_diff(c, p, wi),
            decreases w - col,
        {
            let ghost precol = col as int;
            let ghost gcursor: int = if has_cursor {
                cursor_col as int
            } else {
                -1
            };
            let ghost gstyle: Option<Style> = if has_style {
                Some(last_style)
            } else {
                None
            };
            let cu = cur_row[col];
            let pr = prev_row[col];
            if cu != pr {
                let ghost ops0 = ops@;
                if !(has_cursor && cursor_col == col) {
                    ops.push(TermOp::Move { col, rows: 0 });
                    proof {
                        lemma_ops_view_push(ops0, TermOp::Move { col, rows: 0 });
                    }
                }
                let st = cu.style;
                let ghost ops1 = ops@;
                if !(has_style && last_style == st) {
                    ops.push(TermOp::SetStyle(st));
                    proof {
                        lemma_ops_view_push(ops1, TermOp::SetStyle(st));
                    }
                }
                has_style = true;
                last_style = st;
                let mut run: Vec<char> = Vec::new();
                run.push(cu.ch);
                proof {
                    assert(run@ =~= c.subrange(precol, precol + 1).map_values(|cl: Cell| cl.ch));
                }
                col = col + 1;
                while col < w && !(cur_row[col] == prev_row[col]) && cur_row[col].style == st
                    invariant
                        c.len() == wi,
                        p.len() == wi,
                        w == wi,
                        cur_row@ == c,
                        prev_row@ == p,
                        0 <= precol < col <= w,
                        c[precol] != p[precol],
                        c[precol].style == st,
                        forall|j: int| precol <= j < col ==> c[j] != p[j] && c[j].style == st,
                        run@ == c.subrange(precol, col as int).map_values(|cl: Cell| cl.ch),
                    decreases w - col,
                {
                    let ghost run0 = run@;
                    run.push(cur_row[col].ch);
                    proof {
                        assert(run@ =~= c.subrange(precol, col + 1).map_values(
                            |cl: Cell| cl.ch,
                        ));
                    }
                    col = col + 1;
                }
                proof {
                    lemma_run_end_exact(c, p, wi, precol + 1, col as int, st);
                }
                let ghost ops2 = ops@;
                let ghost runv = run@;
                ops.push(TermOp::Text(run));
                proof {
                    lemma_ops_view_push(ops2, TermOp::Text(run));
                    let colr = col as int;
                    assert(diff_from(c, p, wi, precol, gcursor, gstyle) == (if gcursor == precol {
                        Seq::<GOp>::empty()
                    } else {
                        seq![GOp::Move { col: precol, rows: 0 }]
                    }) + (if gstyle == Some(st) {
                        Seq::<GOp>::empty()
                    } else {
                        seq![GOp::SetStyle(st)]
                    }) + seq![GOp::Text(runv)] + diff_from(c, p, wi, colr, colr, Some(st)));
                    assert(ops_view(ops@) + diff_from(c, p, wi, colr, colr, Some(st)) =~= ops_view(
                        ops0,
                    ) + diff_from(c, p, wi, precol, gcursor, gstyle));
                }
                cursor_col = col;
                has_cursor = true;
            } else {
                proof {
                    assert(diff_from(c, p, wi, precol, gcursor, gstyle) == diff_from(
                        c,
                        p,
                        wi,
                        precol + 1,
                        gcursor,
                        gstyle,
                    ));
                }
                col = col + 1;
            }
        }
        proof {
            assert(ops_view(ops@) + Seq::<GOp>::empty() =~= ops_view(ops@));
        }
        ops
    }

    /// Overwrite every committed cell with the sentinel, forcing the next
    /// frame to repaint every position whose glyph is not the NUL sentinel.
    pub fn invalidate(&mut self)
        requires
            old(self).wf(),
        ensures
            final(self).wf(),
            final(self).spec_width() == old(self).spec_width(),
            final(self).spec_height() == old(self).spec_height(),
            final(self).cur() == old(self).cur(),
            final(self).prev() == filled_grid_spec(
                old(self).spec_width(),
                old(self).spec_height(),
                Cell::sentinel_spec(),
            ),
    {
        self.prev_lines = make_grid(self.width, self.height, Cell::sentinel());
    }
}

/// The operations a frame emits for rows `row..h`: step down to each row
/// (the cursor already stands on row 0), clear it, then repaint what
/// changed since the last commit.
pub open spec fn rows_ops(cur: Seq<Seq<Cell>>, prev: Seq<Seq<Cell>>, w: int, h: int, row: int) -> Seq<
    GOp,
>
    decreases h - row,
{
    if row < 0 || row >= h {
        Seq::empty()
    } else {
        (if row > 0 {
            seq![GOp::Move { col: 0, rows: 1 }]
        } else {
            Seq::<GOp>::empty()
        }) + seq![GOp::ClearToEol] + line_diff(cur[row], prev[row], w) + rows_ops(
            cur,
            prev,
            w,
            h,
            row + 1,
        )
    }
}

/// One whole frame: rewind to the top of the region painted last time,
/// hide the cursor, repaint every row, and return to the region's first
/// row so the next frame can rewind the same way.
pub open spec fn frame_ops(
    cur: Seq<Seq<Cell>>,
    prev: Seq<Seq<Cell>>,
    w: int,
    h: int,
    rendered: int,
) -> Seq<GOp> {
    (if rendered > 0 {
        seq![GOp::Move { col: 0, rows: -rendered }]
    } else {
        Seq::<GOp>::empty()
    }) + seq![GOp::SetCursorVisible(false)] + rows_ops(cur, prev, w, h, 0) + (if h > 0 {
        seq![GOp::Move { col: 0, rows: -(h - 1) }]
    } else {
        Seq::<GOp>::empty()
    })
}

/// The clearing pass for rows `i..rendered` on exit.
pub open spec fn cleanup_rows(rendered: int, i: int) -> Seq<GOp>
    decreases rendered - i,
{
    if i < 0 || i >= rendered {
        Seq::empty()
    } else {
        seq![GOp::ClearToEol] + (if i < rendered - 1 {
            seq![GOp::Move { col: 0, rows: 1 }]
        } else {
            Seq::<GOp>::empty()
        }) + cleanup_rows(rendered, i + 1)
    }
}

/// The operations that erase the rendered region and restore the cursor:
/// rewind to its first row, clear each row, rewind again, show the cursor.
pub open spec fn cleanup_frame_ops(rendered: int) -> Seq<GOp> {
    (if rendered > 0 {
        seq![GOp::Move { col: 0, rows: -rendered }]
    } else {
        Seq::<GOp>::empty()
    }) + cleanup_rows(rendered, 0) + (if rendered > 1 {
        seq![GOp::Move { col: 0, rows: -(rendered - 1) }]
    } else {
        Seq::<GOp>::empty()
    }) + seq![GOp::SetCursorVisible(true)]
}

/// Plans whole inline frames over an [`InlineSurface`].
///
/// The planner tracks how many lines the previous frame occupied so each
/// frame can rewind to the top of its region with relative motion only.
/// The caller applies the returned operations to its terminal and reports
/// the width it measures; the planner never performs I/O itself.
pub struct InlineTerminal {
    pub surface: InlineSurface,
    pub rendered_lines: usize,
}

impl InlineTerminal {
    pub open spec fn wf(self) -> bool {
        &&& self.surface.wf()
        &&& self.rendered_lines <= MAX_DIM
    }

    /// Create a planner for a region of the given width and fixed height.
    pub fn new(width: usize, height: usize) -> (r: InlineTerminal)
        requires
            width <= MAX_DIM,
            height <= MAX_DIM,
        ensures
            r.wf(),
            r.surface.spec_width() == width,
            r.surface.spec_height() == height,
            r.rendered_lines == 0,
            r.surface.cur() == filled_grid_spec(width as int, height as int, Cell::blank_spec()),
            r.surface.prev() == filled_grid_spec(width as int, height as int, Cell::blank_spec()),
    {
        InlineTerminal { surface: InlineSurface::new(width, height), rendered_lines: 0 }
    }

    /// Mutable access to the surface being composed.
    pub fn surface(&mut self) -> (r: &mut InlineSurface)
        ensures
            *r == old(self).surface,
            final(self).surface == *final(r),
            final(self).rendered_lines == old(self).rendered_lines,
    {
        &mut self.surface
    }

    /// Adopt a newly measured terminal width.  On a true change the surface
    /// is resized and invalidated, forcing a full repaint; returns whether
    /// the width changed.
    pub fn check_for_resize(&mut self, new_width: usize) -> (changed: bool)
        requires
            old(self).wf(),
            new_width <= MAX_DIM,
        ensures
            final(self).wf(),
            changed == (new_width != old(self).surface.spec_width()),
            final(self).rendered_lines == old(self).rendered_lines,
            final(self).surface.spec_height() == old(self).surface.spec_height(),
            final(self).surface.spec_width() == new_width,
            !changed ==> *final(self) == *old(self),
            changed ==> {
                &&& final(self).surface.cur() == filled_grid_spec(
                    new_width as int,
                    old(self).surface.spec_height(),
                    Cell::blank_spec(),
                )
                &&& final(self).surface.prev() == filled_grid_spec(
                    new_width as int,
                    old(self).surface.spec_height(),
                    Cell::sentinel_spec(),
                )
            },
    {
        let (width, height) = self.surface.dimensions();
        if new_width != width {
            self.surface.resize(new_width, height);
            self.surface.invalidate();
            true
        } else {
            false
        }
    }

    /// Change the height of the region; the surface is cleared and
    /// invalidated so the next frame repaints it fully.
    pub fn resize_height(&mut self, new_height: usize)
        requires
            old(self).wf(),
            new_height <= MAX_DIM,
        ensures
            final(self).wf(),
            final(self).rendered_lines == old(self).rendered_lines,
            final(self).surface.spec_width() == old(self).surface.spec_width(),
            final(self).surface.spec_height() == new_height,
            final(self).surface.cur() == filled_grid_spec(
                old(self).surface.spec_width(),
                new_height as int,
                Cell::blank_spec(),
            ),
            final(self).surface.prev() == filled_grid_spec(
                old(self).surface.spec_width(),
                new_height as int,
                Cell::sentinel_spec(),
            ),
    {
        let (width, _) = self.surface.dimensions();
        self.surface.resize(width, new_height);
        self.surface.invalidate();
    }

    /// Plan one frame: the returned operations rewind to the top of the
    /// region, hide the cursor, and repaint each row's changes relative to
    /// the last committed frame.  The surface is committed and the region's
    /// height recorded for the next rewind.
    pub fn render(&mut self) -> (r: Vec<TermOp>)
        requires
            old(self).wf(),
        ensures
            final(self).wf(),
            ops_view(r@) == frame_ops(
                old(self).surface.cur(),
                old(self).surface.prev(),
                old(self).surface.spec_width(),
                old(self).surface.spec_height(),
                old(self).rendered_lines as int,
            ),
            final(self).surface.spec_width() == old(self).surface.spec_width(),
            final(self).surface.spec_height() == old(self).surface.spec_height(),
            final(self).surface.cur() == old(self).surface.cur(),
            final(self).surface.prev() == old(self).surface.cur(),
            final(self).rendered_lines == old(self).surface.spec_height(),
    {
        let ghost gcur = self.surface.cur();
        let ghost gprev = self.surface.prev();
        let ghost wi = self.surface.spec_width();
        let ghost hi = self.surface.spec_height();
        let mut ops: Vec<TermOp> = Vec::new();
        if self.rendered_lines > 0 {
            let ghost ops0 = ops@;
            let up = TermOp::Move { col: 0, rows: -(self.rendered_lines as i64) };
            ops.push(up);
            proof {
                lemma_ops_view_push(ops0, up);
            }
        }
        let ghost ops1 = ops@;
        ops.push(TermOp::SetCursorVisible(false));
        proof {
            lemma_ops_view_push(ops1, TermOp::SetCursorVisible(false));
            assert(ops_view(Seq::<TermOp>::empty()) =~= Seq::<GOp>::empty());
        }
        let ghost prefix = ops_view(ops@);
        let (_, height) = self.surface.dimensions();
        let mut row: usize = 0;
        while row < height
            invariant
                self == old(self),
                old(self).wf(),
                row <= height,
                height == hi,
                gcur == self.surface.cur(),
                gprev == self.surface.prev(),
                wi == self.surface.spec_width(),
                hi == self.surface.spec_height(),
                ops_view(ops@) + rows_ops(gcur, gprev, wi, hi, row as int) == prefix + rows_ops(
                    gcur,
                    gprev,
                    wi,
                    hi,
                    0,
                ),
            decreases height - row,
        {
            let ghost oprev = ops@;
            if row > 0 {
                let ghost ops2 = ops@;
                ops.push(TermOp::Move { col: 0, rows: 1 });
                proof {
                    lemma_ops_view_push(ops2, TermOp::Move { col: 0, rows: 1 });
                }
            }
            let ghost ops3 = ops@;
            ops.push(TermOp::ClearToEol);
            proof {
                lemma_ops_view_push(ops3, TermOp::ClearToEol);
            }
            let mut line_changes = self.surface.get_line_changes(row);
            let ghost lview = ops_view(line_changes@);
            let ghost ops4 = ops@;
            ops.append(&mut line_changes);
            proof {
                assert(ops_view(ops@) =~= ops_view(ops4) + lview);
                assert(ops_view(ops@) + rows_ops(gcur, gprev, wi, hi, row + 1) =~= ops_view(oprev)
                    + rows_ops(gcur, gprev, wi, hi, row as int));
            }
            row = row + 1;
        }
        if height > 0 {
            let ghost ops5 = ops@;
            let back = TermOp::Move { col: 0, rows: -((height - 1) as i64) };
            ops.push(back);
            proof {
                lemma_ops_view_push(ops5, back);
            }
        }
        proof {
            assert(ops_view(ops@) =~= frame_ops(gcur, gprev, wi, hi, old(self).rendered_lines as int));
        }
        self.surface.commit();
        self.rendered_lines = height;
        ops
    }

    /// Plan the exit pass: erase every line the region occupies, rewind,
    /// and show the cursor again, leaving no trace in the shell.
    pub fn cleanup(&mut self) -> (r: Vec<TermOp>)
        requires
            old(self).wf(),
        ensures
            final(self).wf(),
            ops_view(r@) == cleanup_frame_ops(old(self).rendered_lines as int),
            final(self).surface == old(self).surface,
            final(self).rendered_lines == 0,
    {
        let rendered = self.rendered_lines;
        let mut ops: Vec<TermOp> = Vec::new();
        if rendered > 0 {
            let ghost ops0 = ops@;
            let up = TermOp::Move { col: 0, rows: -(rendered as i64) };
            ops.push(up);
            proof {
                lemma_ops_view_push(ops0, up);
                assert(ops_view(Seq::<TermOp>::empty()) =~= Seq::<GOp>::empty());
            }
        }
        proof {
            assert(ops_view(Seq::<TermOp>::empty()) =~= Seq::<GOp>::empty());
        }
        let ghost prefix = ops_view(ops@);
        let mut i: usize = 0;
        while i < rendered
            invariant
                i <= rendered,
                rendered <= MAX_DIM,
                ops_view(ops@) + cleanup_rows(rendered as int, i as int) == prefix + cleanup_rows(
                    rendered as int,
                    0,
                ),
            decreases rendered - i,
        {
            let ghost oprev = ops@;
            let ghost ops1 = ops@;
            ops.push(TermOp::ClearToEol);
            proof {
                lemma_ops_view_push(ops1, TermOp::ClearToEol);
            }
            if i < rendered - 1 {
                let ghost ops2 = ops@;
                ops.push(TermOp::Move { col: 0, rows: 1 });
                proof {
                    lemma_ops_view_push(ops2, TermOp::Move { col: 0, rows: 1 });
                }
            }
            proof {
                assert(ops_view(ops@) + cleanup_rows(rendered as int, i + 1) =~= ops_view(oprev)
                    + cleanup_rows(rendered as int, i as int));
            }
            i = i + 1;
        }
        if rendered > 1 {
            let ghost ops3 = ops@;
            let back = TermOp::Move { col: 0, rows: -((rendered - 1) as i64) };
            ops.push(back);
            proof {
                lemma_ops_view_push(ops3, back);
            }
        }
        let ghost ops4 = ops@;
        ops.push(TermOp::SetCursorVisible(true));
        proof {
            lemma_ops_view_push(ops4, TermOp::SetCursorVisible(true));
            assert(ops_view(ops@) =~= cleanup_frame_ops(old(self).rendered_lines as int));
        }
        self.rendered_lines = 0;
        ops
    }
}

} // verus!
