//! The terminal renderer: maps a generation to the exact sequence of
//! terminal operations that paints it, in plain (scrolling) or refresh
//! (in-place, cursor-addressed) mode, either as compact half-block glyphs
//! (two grid rows per printed row) or as raw digits.

use vstd::prelude::*;
use vstd::arithmetic::div_mod::{lemma_fundamental_div_mod, lemma_mod_bound};
use crate::grid::{flat_index, GridState};

verus! {

/// One terminal operation. The renderer computes a frame as a sequence of
/// these; executing them in order paints the frame.
#[derive(Clone, Copy, Debug, PartialEq, Eq, Structural)]
pub enum RenderOp {
    /// Clear the whole terminal.
    Clear,
    /// Move the cursor to column `x`, row `y` (zero-based).
    MoveTo(u16, u16),
    /// Set the foreground color to the solid fill color.
    SetForegroundBlack,
    /// Set the background color to the solid fill color.
    SetBackgroundBlack,
    /// Reset all color state.
    ResetColor,
    /// Print a blank space.
    PrintBlank,
    /// Print the upper-half-block glyph.
    PrintUpperHalf,
    /// Print the lower-half-block glyph.
    PrintLowerHalf,
    /// Print the decimal digits of a raw cell value.
    PrintDigit(u8),
    /// Print a border line of the given width.
    PrintBorder(usize),
    /// Print a newline.
    PrintNewline,
}

/// The glyph operations for one printed cell covering a top and a bottom
/// grid cell: both ALIVE paints a background-filled space, one ALIVE
/// paints the matching half-block, neither paints a blank; any color set
/// for the cell is reset before the next one.
pub open spec fn glyph_ops(top_alive: bool, bot_alive: bool) -> Seq<RenderOp> {
    if top_alive && bot_alive {
        seq![RenderOp::SetBackgroundBlack, RenderOp::PrintBlank, RenderOp::ResetColor]
    } else if top_alive {
        seq![RenderOp::SetForegroundBlack, RenderOp::PrintUpperHalf, RenderOp::ResetColor]
    } else if bot_alive {
        seq![RenderOp::SetForegroundBlack, RenderOp::PrintLowerHalf, RenderOp::ResetColor]
    } else {
        seq![RenderOp::PrintBlank, RenderOp::ResetColor]
    }
}

/// How many printed text rows the glyph renderer uses: two grid rows per
/// printed row, the last grid row of an odd-height grid printed alone.
pub open spec fn text_rows(rows: int) -> int {
    (rows + 1) / 2
}

/// The operations for the printed cell at text row `i`, column `j` of the
/// glyph renderer: an optional cursor move, then the glyph for grid rows
/// `2i` (top) and `2i + 1` (bottom), a missing bottom row counting as DEAD.
pub open spec fn pix_cell_ops(s: Seq<u8>, rows: int, cols: int, i: int, j: int, refresh: bool)
    -> Seq<RenderOp> {
    let top_alive = s[flat_index(2 * i, j, cols)] == 1;
    let bot_alive = 2 * i + 1 < rows && s[flat_index(2 * i + 1, j, cols)] == 1;
    (if refresh {
        seq![RenderOp::MoveTo(j as u16, i as u16)]
    } else {
        Seq::empty()
    }) + glyph_ops(top_alive, bot_alive)
}

/// The operations for the first `j` printed cells of text row `i` of the
/// glyph renderer.
pub open spec fn pix_row_prefix(s: Seq<u8>, rows: int, cols: int, i: int, j: int, refresh: bool)
    -> Seq<RenderOp>
    decreases j,
{
    if j <= 0 {
        Seq::empty()
    } else {
        pix_row_prefix(s, rows, cols, i, j - 1, refresh) + pix_cell_ops(
            s,
            rows,
            cols,
            i,
            j - 1,
            refresh,
        )
    }
}

/// The operations for the first `i` full printed rows of the glyph
/// renderer; in plain mode each row ends with a newline.
pub open spec fn pix_rows_prefix(s: Seq<u8>, rows: int, cols: int, i: int, refresh: bool)
    -> Seq<RenderOp>
    decreases i,
{
    if i <= 0 {
        Seq::empty()
    } else {
        pix_rows_prefix(s, rows, cols, i - 1, refresh) + pix_row_prefix(
            s,
            rows,
            cols,
            i - 1,
            cols,
            refresh,
        ) + (if !refresh {
            seq![RenderOp::PrintNewline]
        } else {
            Seq::empty()
        })
    }
}

/// What a frame starts with: refresh mode clears the terminal on the very
/// first frame only; plain mode opens with a border line.
pub open spec fn frame_header(cols: int, first: bool, refresh: bool) -> Seq<RenderOp> {
    (if first && refresh {
        seq![RenderOp::Clear]
    } else {
        Seq::empty()
    }) + (if !refresh {
        seq![RenderOp::PrintBorder(cols as usize), RenderOp::PrintNewline]
    } else {
        Seq::empty()
    })
}

/// What a frame ends with: refresh mode parks the cursor just below the
/// drawn area; plain mode closes with a border line.
pub open spec fn frame_footer(cols: int, drawn_rows: int, refresh: bool) -> Seq<RenderOp> {
    if refresh {
        seq![RenderOp::MoveTo(0, drawn_rows as u16)]
    } else {
        seq![RenderOp::PrintBorder(cols as usize), RenderOp::PrintNewline]
    }
}

/// The whole glyph-mode frame for the grid `s`.
pub open spec fn pix_frame(s: Seq<u8>, rows: int, cols: int, first: bool, refresh: bool)
    -> Seq<RenderOp> {
    frame_header(cols, first, refresh) + pix_rows_prefix(s, rows, cols, text_rows(rows), refresh)
        + frame_footer(cols, text_rows(rows), refresh)
}

/// The operations for the first `j` printed digits of grid row `i` of the
/// digit renderer.
pub open spec fn digit_row_prefix(s: Seq<u8>, cols: int, i: int, j: int, refresh: bool)
    -> Seq<RenderOp>
    decreases j,
{
    if j <= 0 {
        Seq::empty()
    } else {
        digit_row_prefix(s, cols, i, j - 1, refresh) + (if refresh {
            seq![RenderOp::MoveTo((j - 1) as u16, i as u16)]
        } else {
            Seq::empty()
        }) + seq![RenderOp::PrintDigit(s[flat_index(i, j - 1, cols)])]
    }
}

/// The operations for the first `i` full rows of the digit renderer; each
/// row ends with a newline in either mode.
pub open spec fn digit_rows_prefix(s: Seq<u8>, cols: int, i: int, refresh: bool) -> Seq<RenderOp>
    decreases i,
{
    if i <= 0 {
        Seq::empty()
    } else {
        digit_rows_prefix(s, cols, i - 1, refresh) + digit_row_prefix(s, cols, i - 1, cols, refresh)
            + seq![RenderOp::PrintNewline]
    }
}

/// The whole digit-mode (diagnostic) frame for the grid `s`: one raw cell
/// value per printed character, one grid row per line.
pub open spec fn digit_frame(s: Seq<u8>, rows: int, cols: int, first: bool, refresh: bool)
    -> Seq<RenderOp> {
    frame_header(cols, first, refresh) + digit_rows_prefix(s, cols, rows, refresh) + frame_footer(
        cols,
        rows,
        refresh,
    )
}

/// The glyph operations for one printed cell, from the two covered cell
/// values (a missing bottom cell is passed as DEAD).
pub fn glyph_for(top_alive: bool, bot_alive: bool) -> (r: Vec<RenderOp>)
    ensures
        r@ == glyph_ops(top_alive, bot_alive),
{
    let mut r: Vec<RenderOp> = Vec::new();
    if top_alive && bot_alive {
        r.push(RenderOp::SetBackgroundBlack);
        r.push(RenderOp::PrintBlank);
    } else if top_alive {
        r.push(RenderOp::SetForegroundBlack);
        r.push(RenderOp::PrintUpperHalf);
    } else if bot_alive {
        r.push(RenderOp::SetForegroundBlack);
        r.push(RenderOp::PrintLowerHalf);
    } else {
        r.push(RenderOp::PrintBlank);
    }
    r.push(RenderOp::ResetColor);
    proof {
        assert(r@ =~= glyph_ops(top_alive, bot_alive));
    }
    r
}

/// Renders the grid as compact half-block glyphs: the exact operation
/// sequence of the glyph-mode frame, two grid rows per printed row.
pub fn render_pix_frame(state: &GridState, first: bool, refresh: bool) -> (ops: Vec<RenderOp>)
    requires
        state.wf(),
        state.rows <= u16::MAX,
        state.cols <= u16::MAX,
    ensures
        ops@ == pix_frame(state.cells@, state.rows as int, state.cols as int, first, refresh),
{
    let rows = state.rows;
    let cols = state.cols;
    let ghost s = state.cells@;
    let mut ops: Vec<RenderOp> = Vec::new();
    if first && refresh {
        ops.push(RenderOp::Clear);
    }
    if !refresh {
        ops.push(RenderOp::PrintBorder(cols));
        ops.push(RenderOp::PrintNewline);
    }
    proof {
        assert(ops@ =~= frame_header(cols as int, first, refresh));
    }
    let quotient = rows / 2;
    let reminder = rows - quotient * 2;
    proof {
        lemma_fundamental_div_mod(rows as int, 2);
        lemma_mod_bound(rows as int, 2);
        assert(quotient + reminder == text_rows(rows as int));
    }
    let nrows = quotient + reminder;
    for i in 0..nrows
        invariant
            nrows == text_rows(rows as int),
            2 * nrows <= rows + 1,
            rows <= u16::MAX,
            cols <= u16::MAX,
            state.wf(),
            rows == state.rows,
            cols == state.cols,
            s == state.cells@,
            ops@ == frame_header(cols as int, first, refresh) + pix_rows_prefix(
                s,
                rows as int,
                cols as int,
                i as int,
                refresh,
            ),
    {
        for j in 0..cols
            invariant
                nrows == text_rows(rows as int),
                i < nrows,
                2 * nrows <= rows + 1,
                rows <= u16::MAX,
                cols <= u16::MAX,
                state.wf(),
                rows == state.rows,
                cols == state.cols,
                s == state.cells@,
                ops@ == frame_header(cols as int, first, refresh) + pix_rows_prefix(
                    s,
                    rows as int,
                    cols as int,
                    i as int,
                    refresh,
                ) + pix_row_prefix(s, rows as int, cols as int, i as int, j as int, refresh),
        {
            if refresh {
                ops.push(RenderOp::MoveTo(j as u16, i as u16));
            }
            let top_alive = state.cell(i * 2, j) == 1;
            let bot_alive = if i * 2 + 1 < rows {
                state.cell(i * 2 + 1, j) == 1
            } else {
                false
            };
            let mut g = glyph_for(top_alive, bot_alive);
            ops.append(&mut g);
            proof {
                assert(flat_index(2 * (i as int), j as int, cols as int) == flat_index(
                    (i * 2) as int,
                    j as int,
                    cols as int,
                ));
                assert(ops@ =~= frame_header(cols as int, first, refresh) + pix_rows_prefix(
                    s,
                    rows as int,
                    cols as int,
                    i as int,
                    refresh,
                ) + pix_row_prefix(s, rows as int, cols as int, i as int, j as int + 1, refresh));
            }
        }
        if !refresh {
            ops.push(RenderOp::PrintNewline);
        }
        proof {
            assert(ops@ =~= frame_header(cols as int, first, refresh) + pix_rows_prefix(
                s,
                rows as int,
                cols as int,
                i as int + 1,
                refresh,
            ));
        }
    }
    if refresh {
        ops.push(RenderOp::MoveTo(0, nrows as u16));
    } else {
        ops.push(RenderOp::PrintBorder(cols));
        ops.push(RenderOp::PrintNewline);
    }
    proof {
        assert(ops@ =~= pix_frame(s, rows as int, cols as int, first, refresh));
    }
    ops
}

/// Renders the grid as raw digits (the diagnostic mode): the exact
/// operation sequence of the digit-mode frame.
pub fn render_digit_frame(state: &GridState, first: bool, refresh: bool) -> (ops: Vec<RenderOp>)
    requires
        state.wf(),
        state.rows <= u16::MAX,
        state.cols <= u16::MAX,
    ensures
        ops@ == digit_frame(state.cells@, state.rows as int, state.cols as int, first, refresh),
{
    let rows = state.rows;
    let cols = state.cols;
    let ghost s = state.cells@;
    let mut ops: Vec<RenderOp> = Vec::new();
    if first && refresh {
        ops.push(RenderOp::Clear);
    }
    if !refresh {
        ops.push(RenderOp::PrintBorder(cols));
        ops.push(RenderOp::PrintNewline);
    }
    proof {
        assert(ops@ =~= frame_header(cols as int, first, refresh));
    }
    for i in 0..rows
        invariant
            rows <= u16::MAX,
            cols <= u16::MAX,
            state.wf(),
            rows == state.rows,
            cols == state.cols,
            s == state.cells@,
            ops@ == frame_header(cols as int, first, refresh) + digit_rows_prefix(
                s,
                cols as int,
                i as int,
                refresh,
            ),
    {
        for j in 0..cols
            invariant
                i < rows,
                rows <= u16::MAX,
                cols <= u16::MAX,
                state.wf(),
                rows == state.rows,
                cols == state.cols,
                s == state.cells@,
                ops@ == frame_header(cols as int, first, refresh) + digit_rows_prefix(
                    s,
                    cols as int,
                    i as int,
                    refresh,
                ) + digit_row_prefix(s, cols as int, i as int, j as int, refresh),
        {
            if refresh {
                ops.push(RenderOp::MoveTo(j as u16, i as u16));
            }
            let v = state.cell(i, j);
            ops.push(RenderOp::PrintDigit(v));
            proof {
                assert(ops@ =~= frame_header(cols as int, first, refresh) + digit_rows_prefix(
                    s,
                    cols as int,
                    i as int,
                    refresh,
                ) + digit_row_prefix(s, cols as int, i as int, j as int + 1, refresh));
            }
        }
        ops.push(RenderOp::PrintNewline);
        proof {
            assert(ops@ =~= frame_header(cols as int, first, refresh) + digit_rows_prefix(
                s,
                cols as int,
                i as int + 1,
                refresh,
            ));
        }
    }
    if refresh {
        ops.push(RenderOp::MoveTo(0, rows as u16));
    } else {
        ops.push(RenderOp::PrintBorder(cols));
        ops.push(RenderOp::PrintNewline);
    }
    proof {
        assert(ops@ =~= digit_frame(s, rows as int, cols as int, first, refresh));
    }
    ops
}

/// Plain mode keeps no hidden frame-to-frame state: the frame does not
/// depend on the first-frame marker, so rendering the same grid twice in
/// plain mode produces identical output both times.
pub proof fn lemma_plain_mode_stateless(
    s: Seq<u8>,
    rows: int,
    cols: int,
    first1: bool,
    first2: bool,
)
    ensures
        pix_frame(s, rows, cols, first1, false) == pix_frame(s, rows, cols, first2, false),
        digit_frame(s, rows, cols, first1, false) == digit_frame(s, rows, cols, first2, false),
{
    assert(frame_header(cols, first1, false) =~= frame_header(cols, first2, false));
}

} // verus!
