//! The seven tetromino templates and the rotation arithmetic.

use vstd::prelude::*;

verus! {

/// Number of tetromino templates.
pub const SHAPE_COUNT: usize = 7;

/// The index into a 4×4 template, read row by row, that the local cell
/// (`px`, `py`) shows after `r` quarter-turns.
pub open spec fn rotated_index(px: int, py: int, r: int) -> int {
    let q = r % 4;
    if q == 0 {
        4 * py + px
    } else if q == 1 {
        12 + py - 4 * px
    } else if q == 2 {
        15 - 4 * py - px
    } else {
        3 - py + 4 * px
    }
}

/// Whether template `shape` is filled at the linear index `index`.
///
/// ```text
/// 0: .X.. .X.. .X.. .X..      4: .X.. .XX. ..X. ....
/// 1: ..X. .XX. .X.. ....      5: .X.. .X.. .XX. ....
/// 2: .... .XX. .XX. ....      6: ..X. ..X. .XX. ....
/// 3: ..X. .XX. .X.. ....
/// ```
pub open spec fn shape_cell(shape: int, index: int) -> bool {
    if shape == 0 {
        index == 1 || index == 5 || index == 9 || index == 13
    } else if shape == 1 || shape == 3 {
        index == 2 || index == 5 || index == 6 || index == 9
    } else if shape == 2 {
        index == 5 || index == 6 || index == 9 || index == 10
    } else if shape == 4 {
        index == 1 || index == 5 || index == 6 || index == 10
    } else if shape == 5 {
        index == 1 || index == 5 || index == 9 || index == 10
    } else if shape == 6 {
        index == 2 || index == 6 || index == 9 || index == 10
    } else {
        false
    }
}

/// Whether the local cell (`x`, `y`) of `shape` is filled after `rotation`
/// quarter-turns.
pub open spec fn piece_cell(shape: int, rotation: int, x: int, y: int) -> bool {
    shape_cell(shape, rotated_index(x, y, rotation))
}

/// Computes the template index of a local cell under a rotation. Any
/// rotation count is accepted and taken modulo four.
pub fn rotate_piece(px: usize, py: usize, r: usize) -> (pi: usize)
    requires
        px < 4,
        py < 4,
    ensures
        pi == rotated_index(px as int, py as int, r as int),
        pi < 16,
{
    match r % 4 {
        0 => py * 4 + px,
        1 => 12 + py - (px * 4),
        2 => 15 - (py * 4) - px,
        _ => 3 - py + (px * 4),
    }
}

/// Looks up one entry of a template by its linear index.
pub fn shape_filled(shape: usize, index: usize) -> (filled: bool)
    ensures
        filled == shape_cell(shape as int, index as int),
{
    match shape {
        0 => index == 1 || index == 5 || index == 9 || index == 13,
        1 | 3 => index == 2 || index == 5 || index == 6 || index == 9,
        2 => index == 5 || index == 6 || index == 9 || index == 10,
        4 => index == 1 || index == 5 || index == 6 || index == 10,
        5 => index == 1 || index == 5 || index == 9 || index == 10,
        6 => index == 2 || index == 6 || index == 9 || index == 10,
        _ => false,
    }
}

/// Whether `shape`, turned by `rotation`, is filled at the local cell
/// (`px`, `py`).
pub fn template_cell(shape: usize, px: usize, py: usize, rotation: usize) -> (filled: bool)
    requires
        px < 4,
        py < 4,
    ensures
        filled == piece_cell(shape as int, rotation as int, px as int, py as int),
{
    shape_filled(shape, rotate_piece(px, py, rotation))
}

/// Rotation is periodic: four more quarter-turns select the same template
/// index.
pub proof fn lemma_rotation_period(px: int, py: int, r: int)
    ensures
        rotated_index(px, py, r) == rotated_index(px, py, r + 4),
{
}

/// Every piece, however turned, fills at least one of the four central
/// cells of its 4×4 box.
pub proof fn lemma_piece_fills_centre(shape: int, rotation: int)
    requires
        0 <= shape < 7,
    ensures
        piece_cell(shape, rotation, 1, 1) || piece_cell(shape, rotation, 2, 2) || piece_cell(
            shape,
            rotation,
            1,
            2,
        ) || piece_cell(shape, rotation, 2, 1),
{
}

} // verus!
