use term_life::grid::GridState;
use term_life::render::{glyph_for, render_digit_frame, render_pix_frame, RenderOp};

#[test]
fn glyph_selection() {
    assert_eq!(
        glyph_for(true, false),
        vec![RenderOp::SetForegroundBlack, RenderOp::PrintUpperHalf, RenderOp::ResetColor],
    );
    assert_eq!(
        glyph_for(false, true),
        vec![RenderOp::SetForegroundBlack, RenderOp::PrintLowerHalf, RenderOp::ResetColor],
    );
    assert_eq!(
        glyph_for(true, true),
        vec![RenderOp::SetBackgroundBlack, RenderOp::PrintBlank, RenderOp::ResetColor],
    );
    assert_eq!(glyph_for(false, false), vec![RenderOp::PrintBlank, RenderOp::ResetColor]);
}

#[test]
fn plain_mode_is_stateless() {
    let grid = GridState { rows: 3, cols: 3, cells: vec![0, 1, 0, 1, 0, 1, 0, 1, 0] };
    let first_call = render_pix_frame(&grid, true, false);
    let second_call = render_pix_frame(&grid, false, false);
    assert_eq!(first_call, second_call);
    let first_digits = render_digit_frame(&grid, true, false);
    let second_digits = render_digit_frame(&grid, false, false);
    assert_eq!(first_digits, second_digits);
}

#[test]
fn pix_frame_plain_literal() {
    let grid = GridState { rows: 2, cols: 2, cells: vec![1, 0, 0, 1] };
    let ops = render_pix_frame(&grid, true, false);
    assert_eq!(
        ops,
        vec![
            RenderOp::PrintBorder(2),
            RenderOp::PrintNewline,
            RenderOp::SetForegroundBlack,
            RenderOp::PrintUpperHalf,
            RenderOp::ResetColor,
            RenderOp::SetForegroundBlack,
            RenderOp::PrintLowerHalf,
            RenderOp::ResetColor,
            RenderOp::PrintNewline,
            RenderOp::PrintBorder(2),
            RenderOp::PrintNewline,
        ],
    );
}

#[test]
fn pix_frame_refresh_literal() {
    let grid = GridState { rows: 2, cols: 2, cells: vec![1, 1, 1, 0] };
    let ops = render_pix_frame(&grid, true, true);
    assert_eq!(
        ops,
        vec![
            RenderOp::Clear,
            RenderOp::MoveTo(0, 0),
            RenderOp::SetBackgroundBlack,
            RenderOp::PrintBlank,
            RenderOp::ResetColor,
            RenderOp::MoveTo(1, 0),
            RenderOp::SetForegroundBlack,
            RenderOp::PrintUpperHalf,
            RenderOp::ResetColor,
            RenderOp::MoveTo(0, 1),
        ],
    );
    // Later frames never clear again.
    let later = render_pix_frame(&grid, false, true);
    assert_eq!(later[0], RenderOp::MoveTo(0, 0));
    assert_eq!(later.len(), ops.len() - 1);
}

#[test]
fn pix_frame_odd_rows_treats_missing_bottom_as_dead() {
    // Three rows: the last printed row has no bottom partner, so a live
    // top cell there is an upper-half glyph.
    let grid = GridState { rows: 3, cols: 1, cells: vec![0, 0, 1] };
    let ops = render_pix_frame(&grid, true, false);
    assert_eq!(
        ops,
        vec![
            RenderOp::PrintBorder(1),
            RenderOp::PrintNewline,
            RenderOp::PrintBlank,
            RenderOp::ResetColor,
            RenderOp::PrintNewline,
            RenderOp::SetForegroundBlack,
            RenderOp::PrintUpperHalf,
            RenderOp::ResetColor,
            RenderOp::PrintNewline,
            RenderOp::PrintBorder(1),
            RenderOp::PrintNewline,
        ],
    );
}

#[test]
fn digit_frame_plain_literal() {
    let grid = GridState { rows: 2, cols: 2, cells: vec![1, 0, 0, 1] };
    let ops = render_digit_frame(&grid, true, false);
    assert_eq!(
        ops,
        vec![
            RenderOp::PrintBorder(2),
            RenderOp::PrintNewline,
            RenderOp::PrintDigit(1),
            RenderOp::PrintDigit(0),
            RenderOp::PrintNewline,
            RenderOp::PrintDigit(0),
            RenderOp::PrintDigit(1),
            RenderOp::PrintNewline,
            RenderOp::PrintBorder(2),
            RenderOp::PrintNewline,
        ],
    );
}

#[test]
fn digit_frame_refresh_literal() {
    let grid = GridState { rows: 2, cols: 2, cells: vec![1, 0, 0, 1] };
    let ops = render_digit_frame(&grid, true, true);
    assert_eq!(
        ops,
        vec![
            RenderOp::Clear,
            RenderOp::MoveTo(0, 0),
            RenderOp::PrintDigit(1),
            RenderOp::MoveTo(1, 0),
            RenderOp::PrintDigit(0),
            RenderOp::PrintNewline,
            RenderOp::MoveTo(0, 1),
            RenderOp::PrintDigit(0),
            RenderOp::MoveTo(1, 1),
            RenderOp::PrintDigit(1),
            RenderOp::PrintNewline,
            RenderOp::MoveTo(0, 2),
        ],
    );
}
