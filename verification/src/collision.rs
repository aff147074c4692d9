//! The playfield grid and the test that decides where a piece may stand.

use vstd::prelude::*;
use crate::shapes::{piece_cell, template_cell};

verus! {

/// Columns of the playfield, walls included.
pub const FIELD_WIDTH: usize = 12;

/// Rows of the playfield, floor included.
pub const FIELD_HEIGHT: usize = 18;

/// Column at which a new piece appears.
pub const FIELD_X_MIDDLE: usize = 4;

/// Cell code of an empty cell.
pub const EMPTY: char = '0';

/// Cell code of a row that was found full and waits to be removed.
pub const CLEARING: char = '8';

/// Cell code of the walls and the floor.
pub const BOUNDARY: char = '9';

/// The cell of `field` at column `x`, row `y`.
pub open spec fn cell(field: Seq<char>, x: int, y: int) -> char {
    field[y * 12 + x]
}

/// Whether (`x`, `y`) lies on the left wall, the right wall or the floor.
pub open spec fn on_border(x: int, y: int) -> bool {
    x == 0 || x == 11 || y == 17
}

/// A playfield is a 12×18 grid of cell codes `'0'` to `'9'` whose walls and
/// floor hold the boundary code.
pub open spec fn field_wf(field: Seq<char>) -> bool {
    &&& field.len() == 216
    &&& forall|i: int| 0 <= i < 216 ==> '0' <= #[trigger] field[i] <= '9'
    &&& forall|x: int, y: int|
        0 <= x < 12 && 0 <= y < 18 && on_border(x, y) ==> #[trigger] cell(field, x, y) == '9'
}

/// A piece fits when each of its filled cells lands inside the grid on an
/// empty cell.
pub open spec fn fits(shape: int, rotation: int, px: int, py: int, field: Seq<char>) -> bool {
    forall|x: int, y: int|
        0 <= x < 4 && 0 <= y < 4 && #[trigger] piece_cell(shape, rotation, x, y) ==> {
            &&& 0 <= px + x < 12
            &&& 0 <= py + y < 18
            &&& cell(field, px + x, py + y) == '0'
        }
}

/// Decides whether `tetromino`, turned by `rotation`, may stand with the
/// corner of its 4×4 box at (`pos_x`, `pos_y`). The field is only read.
pub fn does_piece_fit(
    tetromino: usize,
    rotation: usize,
    pos_x: usize,
    pos_y: usize,
    field: &[char],
) -> (ok: bool)
    requires
        field@.len() == 216,
    ensures
        ok == fits(tetromino as int, rotation as int, pos_x as int, pos_y as int, field@),
{
    let mut x: usize = 0;
    while x < 4
        invariant
            field@.len() == 216,
            x <= 4,
            forall|i: int, j: int|
                0 <= i < x && 0 <= j < 4 && #[trigger] piece_cell(
                    tetromino as int,
                    rotation as int,
                    i,
                    j,
                ) ==> {
                    &&& pos_x + i < 12
                    &&& pos_y + j < 18
                    &&& cell(field@, pos_x + i, pos_y + j) == '0'
                },
        decreases 4 - x,
    {
        let mut y: usize = 0;
        while y < 4
            invariant
                field@.len() == 216,
                x < 4,
                y <= 4,
                forall|i: int, j: int|
                    (0 <= i < x && 0 <= j < 4 || i == x && 0 <= j < y) && #[trigger] piece_cell(
                        tetromino as int,
                        rotation as int,
                        i,
                        j,
                    ) ==> {
                        &&& pos_x + i < 12
                        &&& pos_y + j < 18
                        &&& cell(field@, pos_x + i, pos_y + j) == '0'
                    },
            decreases 4 - y,
        {
            if template_cell(tetromino, x, y, rotation) {
                if pos_x >= FIELD_WIDTH || x >= FIELD_WIDTH - pos_x || pos_y >= FIELD_HEIGHT || y
                    >= FIELD_HEIGHT - pos_y {
                    return false;
                }
                if field[(pos_y + y) * FIELD_WIDTH + (pos_x + x)] != EMPTY {
                    return false;
                }
            }
            y += 1;
        }
        x += 1;
    }
    true
}

/// Occupying more cells never makes room: a piece that fits a field also
/// fits every field whose non-empty cells are among those of the first.
pub proof fn lemma_fits_monotone(
    shape: int,
    rotation: int,
    px: int,
    py: int,
    fuller: Seq<char>,
    emptier: Seq<char>,
)
    requires
        fuller.len() == 216,
        emptier.len() == 216,
        forall|i: int| 0 <= i < 216 && emptier[i] != '0' ==> fuller[i] != '0',
        fits(shape, rotation, px, py, fuller),
    ensures
        fits(shape, rotation, px, py, emptier),
{
    assert forall|x: int, y: int|
        0 <= x < 4 && 0 <= y < 4 && #[trigger] piece_cell(shape, rotation, x, y) implies {
        &&& 0 <= px + x < 12
        &&& 0 <= py + y < 18
        &&& cell(emptier, px + x, py + y) == '0'
    } by {
        let i = (py + y) * 12 + (px + x);
        assert(0 <= i < 216) by (nonlinear_arith)
            requires
                0 <= px + x < 12,
                0 <= py + y < 18,
                i == (py + y) * 12 + (px + x),
        ;
        assert(fuller[i] == '0');
    }
}

/// Collision is monotone in the field: a piece that does not fit a field
/// does not fit any field that is non-empty wherever the first is.
pub proof fn lemma_blocked_stays_blocked(
    shape: int,
    rotation: int,
    px: int,
    py: int,
    field: Seq<char>,
    fuller: Seq<char>,
)
    requires
        field.len() == 216,
        fuller.len() == 216,
        forall|i: int| 0 <= i < 216 && field[i] != '0' ==> fuller[i] != '0',
        !fits(shape, rotation, px, py, field),
    ensures
        !fits(shape, rotation, px, py, fuller),
{
    if fits(shape, rotation, px, py, fuller) {
        lemma_fits_monotone(shape, rotation, px, py, fuller, field);
    }
}

/// A filled cell of a piece that lands on a wall or on the floor keeps the
/// piece from fitting.
pub proof fn lemma_border_blocks(
    shape: int,
    rotation: int,
    px: int,
    py: int,
    x: int,
    y: int,
    field: Seq<char>,
)
    requires
        field_wf(field),
        0 <= x < 4,
        0 <= y < 4,
        piece_cell(shape, rotation, x, y),
        px + x == 0 || px + x == 11 || py + y == 17,
    ensures
        !fits(shape, rotation, px, py, field),
{
    if fits(shape, rotation, px, py, field) {
        assert(on_border(px + x, py + y));
        assert(cell(field, px + x, py + y) == '9');
    }
}

} // verus!
