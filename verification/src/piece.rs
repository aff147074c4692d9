//! The falling piece and how the latched keys move it.

use vstd::prelude::*;
use crate::shapes::{piece_cell, lemma_piece_fills_centre};
use crate::collision::{cell, does_piece_fit, field_wf, fits, on_border, FIELD_X_MIDDLE};

verus! {

/// The falling piece: which template, how many quarter-turns, and where the
/// corner of its 4×4 box stands.
#[derive(Clone, Copy, Debug, PartialEq, Eq, Structural)]
pub struct Piece {
    pub shape: usize,
    pub rotation: usize,
    pub x: usize,
    pub y: usize,
}

/// The keys latched for one tick.
#[derive(Clone, Copy, Debug, PartialEq, Eq, Structural)]
pub struct KeyMap {
    pub rotate: bool,
    pub left: bool,
    pub right: bool,
    pub down: bool,
}

/// Whether each filled cell of the piece lies strictly between the walls
/// and above the floor.
pub open spec fn clear_of_border(p: Piece) -> bool {
    forall|x: int, y: int|
        0 <= x < 4 && 0 <= y < 4 && #[trigger] piece_cell(
            p.shape as int,
            p.rotation as int,
            x,
            y,
        ) ==> 1 <= p.x + x <= 10 && p.y + y <= 16
}

/// A piece is well formed when its fields are in range and none of its
/// filled cells touches the border.
pub open spec fn piece_wf(p: Piece) -> bool {
    &&& p.shape < 7
    &&& p.rotation < 4
    &&& p.x < 12
    &&& p.y < 18
    &&& clear_of_border(p)
}

/// Whether the piece fits the field where it stands.
pub open spec fn piece_fits(p: Piece, field: Seq<char>) -> bool {
    fits(p.shape as int, p.rotation as int, p.x as int, p.y as int, field)
}

/// The piece as it appears: unturned, at the top, in the middle.
pub open spec fn spawned(shape: usize) -> Piece {
    Piece { shape, rotation: 0, x: 4, y: 0 }
}

/// The piece after the left or the right key; left wins over right.
pub open spec fn shifted(p: Piece, keys: KeyMap, field: Seq<char>) -> Piece {
    if keys.left && p.x > 0 && fits(
        p.shape as int,
        p.rotation as int,
        p.x - 1,
        p.y as int,
        field,
    ) {
        Piece { x: (p.x - 1) as usize, ..p }
    } else if keys.right && fits(p.shape as int, p.rotation as int, p.x + 1, p.y as int, field) {
        Piece { x: (p.x + 1) as usize, ..p }
    } else {
        p
    }
}

/// The piece after the down key.
pub open spec fn dropped(p: Piece, keys: KeyMap, field: Seq<char>) -> Piece {
    if keys.down && fits(p.shape as int, p.rotation as int, p.x as int, p.y + 1, field) {
        Piece { y: (p.y + 1) as usize, ..p }
    } else {
        p
    }
}

/// The piece after the rotate key: one quarter-turn further, if that fits.
pub open spec fn turned(p: Piece, keys: KeyMap, field: Seq<char>) -> Piece {
    if keys.rotate && fits(p.shape as int, p.rotation + 1, p.x as int, p.y as int, field) {
        Piece { rotation: ((p.rotation + 1) % 4) as usize, ..p }
    } else {
        p
    }
}

/// The piece after all latched keys, in the order shift, drop, turn.
pub open spec fn steered(p: Piece, keys: KeyMap, field: Seq<char>) -> Piece {
    turned(dropped(shifted(p, keys, field), keys, field), keys, field)
}

/// A piece that fits a well-formed field touches no border cell and has its
/// corner within eleven columns and seventeen rows.
pub proof fn lemma_fitting_piece_wf(p: Piece, field: Seq<char>)
    requires
        field_wf(field),
        p.shape < 7,
        p.rotation < 4,
        piece_fits(p, field),
    ensures
        piece_wf(p),
{
    lemma_piece_fills_centre(p.shape as int, p.rotation as int);
    assert forall|x: int, y: int|
        0 <= x < 4 && 0 <= y < 4 && #[trigger] piece_cell(
            p.shape as int,
            p.rotation as int,
            x,
            y,
        ) implies 1 <= p.x + x <= 10 && p.y + y <= 16 by {
        if on_border(p.x + x, p.y + y) {
            assert(cell(field, p.x + x, p.y + y) == '9');
        }
    }
}

/// A new piece touches no border cell, whatever its shape.
pub proof fn lemma_spawned_wf(shape: usize)
    requires
        shape < 7,
    ensures
        piece_wf(spawned(shape)),
{
}

/// Creates the piece as it appears at the top of the field.
pub fn spawn(shape: usize) -> (p: Piece)
    ensures
        p == spawned(shape),
{
    Piece { shape, rotation: 0, x: FIELD_X_MIDDLE, y: 0 }
}

/// Applies the latched keys to the piece: a shift, then a drop, then a
/// turn, each only where the moved piece fits.
pub fn steer(p: Piece, keys: KeyMap, field: &[char]) -> (q: Piece)
    requires
        field_wf(field@),
        piece_wf(p),
    ensures
        q == steered(p, keys, field@),
        piece_wf(q),
        piece_fits(p, field@) ==> piece_fits(q, field@),
        q.shape == p.shape,
{
    let mut q = p;
    if keys.left && q.x > 0 && does_piece_fit(q.shape, q.rotation, q.x - 1, q.y, field) {
        q.x = q.x - 1;
    } else if keys.right && does_piece_fit(q.shape, q.rotation, q.x + 1, q.y, field) {
        q.x = q.x + 1;
    }
    proof {
        assert(q == shifted(p, keys, field@));
        if q != p {
            lemma_fitting_piece_wf(q, field@);
        }
    }
    let ghost q1 = q;
    if keys.down && does_piece_fit(q.shape, q.rotation, q.x, q.y + 1, field) {
        q.y = q.y + 1;
    }
    proof {
        assert(q == dropped(q1, keys, field@));
        if q != q1 {
            lemma_fitting_piece_wf(q, field@);
        }
    }
    let ghost q2 = q;
    if keys.rotate && does_piece_fit(q.shape, q.rotation + 1, q.x, q.y, field) {
        q.rotation = (q.rotation + 1) % 4;
        proof {
            assert forall|x: int, y: int| #[trigger]
                piece_cell(q.shape as int, q.rotation as int, x, y) == piece_cell(
                    q2.shape as int,
                    q2.rotation + 1,
                    x,
                    y,
                ) by {}
            lemma_fitting_piece_wf(q, field@);
        }
    }
    q
}

} // verus!
