//! The game: the playfield, the falling piece and the scoreboard, and what
//! one tick does to them.

use vstd::prelude::*;
use rand::Rng;
use crate::shapes::SHAPE_COUNT;
use crate::collision::{does_piece_fit, field_wf, fits};
use crate::piece::{
    piece_fits, piece_wf, spawn, spawned, steer, steered, KeyMap, Piece, lemma_spawned_wf,
};
use crate::board::{
    collapse, collapsed, empty_field, fresh_field, full_rows, lines_wf, locked, mark_lines, marked,
    marks_match, no_marks, stamp,
};
use crate::rules::{
    lemma_period_after, lock_points, lock_score, period_after, period_at, ramp, ramped,
    INITIAL_SPEED,
};

verus! {

/// The whole state of a game between two ticks.
pub struct Game {
    /// The 12×18 grid of cell codes, row by row.
    pub field: Vec<char>,
    /// The falling piece.
    pub piece: Piece,
    /// The gravity period: ticks between two forced descents.
    pub speed: u64,
    /// Ticks since the last forced descent.
    pub speed_counter: u64,
    /// Pieces locked so far.
    pub piece_count: u64,
    /// Points so far.
    pub score: u64,
    /// Rows marked clear-pending that wait to be removed.
    pub lines: Vec<usize>,
    /// Set when a new piece found no room.
    pub is_over: bool,
}

/// The largest score from which one more lock cannot overflow.
pub const SCORE_LIMIT: u64 = 0xffff_ffff_ffff_f9a6;

/// Draws a number below `bound` by `gen_range(0..bound)` on the generator
/// that `rand::thread_rng()` returns. The crate documents that the value
/// lies in the half-open range and that an empty range panics; nothing
/// else is claimed of the draw.
#[verifier::external_body]
fn random_below(bound: usize) -> (n: usize)
    requires
        bound > 0,
    ensures
        n < bound,
{
    rand::thread_rng().gen_range(0..bound)
}

impl Game {
    /// The invariant of a game: a well-formed field and piece, pending rows
    /// that match the marks in the field, a gravity period that follows the
    /// ramp, and a gravity counter within the period.
    pub open spec fn wf(&self) -> bool {
        &&& field_wf(self.field@)
        &&& piece_wf(self.piece)
        &&& lines_wf(self.lines@)
        &&& marks_match(self.field@, self.lines@)
        &&& self.speed >= 1
        &&& self.speed == period_at(10, self.piece_count as nat)
        &&& self.speed_counter <= self.speed
    }

    /// Whether the falling piece overlaps nothing where it stands.
    pub open spec fn piece_free(&self) -> bool {
        piece_fits(self.piece, self.field@)
    }

    /// Whether the game is ready for a tick: still running, nothing left
    /// to remove, and counters that one more lock cannot overflow.
    pub open spec fn ready(&self) -> bool {
        &&& self.wf()
        &&& !self.is_over
        &&& self.lines@.len() == 0
        &&& self.score <= SCORE_LIMIT
        &&& self.piece_count < u64::MAX
    }

    /// Whether gravity is due and the piece cannot descend: it will lock.
    pub open spec fn landed(&self) -> bool {
        self.speed_counter == self.speed && !fits(
            self.piece.shape as int,
            self.piece.rotation as int,
            self.piece.x as int,
            self.piece.y + 1,
            self.field@,
        )
    }

    /// Whether `post` is `self` but for the piece and the gravity counter.
    pub open spec fn same_board(&self, post: Game) -> bool {
        &&& post.field@ == self.field@
        &&& post.lines@ == self.lines@
        &&& post.speed == self.speed
        &&& post.piece_count == self.piece_count
        &&& post.score == self.score
        &&& post.is_over == self.is_over
    }

    /// The game after the keys moved the piece.
    pub open spec fn after_keys(&self, keys: KeyMap) -> Game {
        Game { piece: steered(self.piece, keys, self.field@), ..*self }
    }

    /// Whether `post` is `self` after the keys moved the piece.
    pub open spec fn steered_to(&self, keys: KeyMap, post: Game) -> bool {
        &&& self.same_board(post)
        &&& post.speed_counter == self.speed_counter
        &&& post.piece == self.after_keys(keys).piece
    }

    /// Whether `post` is `self` after gravity had its turn on a piece that
    /// does not lock: one row down when gravity is due, else one more tick
    /// counted.
    pub open spec fn fell_to(&self, post: Game) -> bool {
        &&& self.same_board(post)
        &&& if self.speed_counter == self.speed {
            &&& post.piece == Piece { y: (self.piece.y + 1) as usize, ..self.piece }
            &&& post.speed_counter == 0
        } else {
            &&& post.piece == self.piece
            &&& post.speed_counter == self.speed_counter + 1
        }
    }

    /// Whether `post` is `self` after its piece was locked and `next_shape`
    /// spawned: the piece is written into the field, the ramp applied, the
    /// full rows under the piece marked and listed, the points added, and
    /// the game is over exactly if the new piece does not fit.
    pub open spec fn locked_to(&self, next_shape: usize, post: Game) -> bool {
        let stamped = locked(self.field@, self.piece);
        &&& post.field@ == marked(stamped, self.piece.y as int, 4)
        &&& post.lines@ == full_rows(stamped, self.piece.y as int, 4)
        &&& post.piece_count == self.piece_count + 1
        &&& post.speed == ramped(self.speed as nat, (self.piece_count + 1) as nat)
        &&& post.score == self.score + lock_points(post.lines@.len())
        &&& post.piece == spawned(next_shape)
        &&& post.is_over == !piece_fits(spawned(next_shape), post.field@)
        &&& post.speed_counter == 0
    }

    /// Whether `post` is `self` one tick later, `next_shape` being the
    /// shape drawn if the piece locks.
    pub open spec fn stepped_to(&self, keys: KeyMap, next_shape: usize, post: Game) -> bool {
        let mid = self.after_keys(keys);
        if mid.landed() {
            mid.locked_to(next_shape, post)
        } else {
            mid.fell_to(post)
        }
    }

    /// Starts a game: an empty field, the first shape at the top, no
    /// points, and the initial gravity period.
    pub fn new() -> (game: Game)
        ensures
            game.ready(),
            game.piece_free(),
            game.field@ == empty_field(),
            game.piece == spawned(0),
            game.speed == 10,
            game.speed_counter == 0,
            game.piece_count == 0,
            game.score == 0,
    {
        let game = Game {
            field: fresh_field(),
            piece: spawn(0),
            speed: INITIAL_SPEED,
            speed_counter: 0,
            piece_count: 0,
            score: 0,
            lines: Vec::new(),
            is_over: false,
        };
        proof {
            lemma_spawned_wf(0);
        }
        game
    }

    /// Tells whether gravity is due and the piece cannot descend.
    pub fn lands(&self) -> (yes: bool)
        requires
            self.wf(),
        ensures
            yes == self.landed(),
    {
        self.speed_counter == self.speed && !does_piece_fit(
            self.piece.shape,
            self.piece.rotation,
            self.piece.x,
            self.piece.y + 1,
            self.field.as_slice(),
        )
    }

    /// Moves the piece as the latched keys ask, where it fits.
    pub fn steer(&mut self, keys: KeyMap)
        requires
            old(self).wf(),
        ensures
            final(self).wf(),
            old(self).steered_to(keys, *final(self)),
            old(self).piece_free() ==> final(self).piece_free(),
    {
        self.piece = steer(self.piece, keys, self.field.as_slice());
    }

    /// Gives gravity its turn on a piece that does not lock.
    pub fn fall(&mut self)
        requires
            old(self).wf(),
            !old(self).landed(),
        ensures
            final(self).wf(),
            old(self).fell_to(*final(self)),
            old(self).piece_free() ==> final(self).piece_free(),
    {
        if self.speed_counter == self.speed {
            proof {
                crate::piece::lemma_fitting_piece_wf(
                    Piece { y: (self.piece.y + 1) as usize, ..self.piece },
                    self.field@,
                );
            }
            self.piece.y = self.piece.y + 1;
            self.speed_counter = 0;
        } else {
            self.speed_counter = self.speed_counter + 1;
        }
    }

    /// Locks the piece into the field and spawns `next_shape`.
    pub fn lock(&mut self, next_shape: usize)
        requires
            old(self).ready(),
            next_shape < 7,
        ensures
            final(self).wf(),
            old(self).locked_to(next_shape, *final(self)),
            !final(self).is_over ==> final(self).piece_free(),
    {
        assert(no_marks(self.field@)) by {
            assert forall|i: int| 0 <= i < 216 implies #[trigger] self.field@[i] != '8' by {
                assert(!self.lines@.contains((i / 12) as usize));
            }
        }
        stamp(&mut self.field, self.piece);
        self.piece_count = self.piece_count + 1;
        self.speed = ramp(self.speed, self.piece_count);
        self.lines = mark_lines(&mut self.field, self.piece.y);
        self.score = self.score + lock_score(self.lines.len());
        self.piece = spawn(next_shape);
        proof {
            lemma_spawned_wf(next_shape);
        }
        self.is_over = !does_piece_fit(
            self.piece.shape,
            self.piece.rotation,
            self.piece.x,
            self.piece.y,
            self.field.as_slice(),
        );
        self.speed_counter = 0;
    }

    /// Advances the game by one tick, with `next_shape` as the shape to
    /// spawn if the piece locks.
    pub fn step(&mut self, keys: KeyMap, next_shape: usize)
        requires
            old(self).ready(),
            next_shape < 7,
        ensures
            final(self).wf(),
            old(self).stepped_to(keys, next_shape, *final(self)),
            !final(self).is_over && (old(self).piece_free() || old(self).after_keys(keys).landed())
                ==> final(self).piece_free(),
    {
        self.steer(keys);
        if self.lands() {
            self.lock(next_shape);
        } else {
            self.fall();
        }
    }

    /// Advances the game by one tick. If the piece locks, the next shape is
    /// drawn at random among the seven.
    pub fn tick(&mut self, keys: KeyMap)
        requires
            old(self).ready(),
        ensures
            final(self).wf(),
            exists|next_shape: usize|
                next_shape < 7 && #[trigger] old(self).stepped_to(keys, next_shape, *final(self)),
            !final(self).is_over && (old(self).piece_free() || old(self).after_keys(keys).landed())
                ==> final(self).piece_free(),
    {
        self.steer(keys);
        if self.lands() {
            let next_shape = random_below(SHAPE_COUNT);
            self.lock(next_shape);
            assert(old(self).stepped_to(keys, next_shape, *self));
        } else {
            self.fall();
            assert(old(self).stepped_to(keys, 0, *self));
        }
    }

    /// Removes the pending rows from the field and forgets them. After it
    /// no cell holds the clear-pending code.
    pub fn collapse(&mut self)
        requires
            old(self).wf(),
        ensures
            final(self).wf(),
            final(self).field@ == collapsed(old(self).field@, old(self).lines@),
            final(self).lines@.len() == 0,
            no_marks(final(self).field@),
            final(self).piece == old(self).piece,
            final(self).speed == old(self).speed,
            final(self).speed_counter == old(self).speed_counter,
            final(self).piece_count == old(self).piece_count,
            final(self).score == old(self).score,
            final(self).is_over == old(self).is_over,
    {
        collapse(&mut self.field, &self.lines);
        self.lines.clear();
    }
}

/// The gravity period of a game is the one that the ramp, applied lock by
/// lock from the initial period, gives after as many locks as the game has
/// seen; it is never under one tick.
pub proof fn lemma_game_period(game: Game)
    requires
        game.wf(),
    ensures
        game.speed == period_after(10, game.piece_count as nat),
        game.speed >= 1,
{
    lemma_period_after(10, game.piece_count as nat);
}

} // verus!
