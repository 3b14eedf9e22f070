//! The decisions of the game loop, one call per event: spawning a piece (or
//! ending the game), steering it from the buttons, and the per-tick choice
//! between falling, locking and resetting the field.
use vstd::prelude::*;

use crate::field::{clear_from, empty_grid, PlayField};
use crate::generator::{kind_of_draw, next_kind, next_seed, wyrng_value};
use crate::piece::{collides_after, moved, shifted, turned_left, turned_right, with_rotation, Tetromino};

verus! {

/// Columns of the play field.
pub const GRID_WIDTH: usize = 8;

/// Rows of the play field.
pub const GRID_HEIGHT: usize = 32;

/// The generator state at power-on.
pub const SEED: u64 = 3;

/// The column at which new pieces appear.
pub const SPAWN_X: i32 = 4;

/// A piece that stops with its anchor at this row or above does not lock:
/// the whole field is cleared instead.
pub const RESET_ROW: i32 = 5;

/// A piece whose anchor reaches this many rows above the field's height stops.
pub const FLOOR_MARGIN: i32 = 4;

/// The buttons read on one tick; a failed read counts as released.
#[derive(Clone, Copy, Debug, PartialEq, Eq, Structural)]
pub struct Controls {
    pub left: bool,
    pub right: bool,
    pub rotate_left: bool,
    pub rotate_right: bool,
}

/// What a tick did with the falling piece.
#[derive(Clone, Copy, Debug, PartialEq, Eq, Structural)]
pub enum Step {
    /// The piece moved down one row and keeps falling.
    Fell,
    /// The piece was merged into the field and full rows were cleared.
    Locked,
    /// The piece stopped too high: the field was emptied.
    Reset,
}

/// The state that lives across pieces: the field and the generator state.
pub struct Game {
    pub field: PlayField,
    pub seed: u64,
}

/// The piece that a spawn from generator state `seed` creates.
pub open spec fn spawned(seed: u64) -> Tetromino {
    Tetromino { x: SPAWN_X, y: 0, typ: kind_of_draw(wyrng_value(seed)), rotation: 0 }
}

/// The piece after applying `c`: a horizontal move when exactly one of left
/// and right is pressed, then a turn when exactly one of the two rotation
/// buttons is pressed.
pub open spec fn steered(t: Tetromino, field: PlayField, c: Controls) -> Tetromino {
    let m = if c.left && !c.right {
        moved(t, field, -1, 0)
    } else if c.right && !c.left {
        moved(t, field, 1, 0)
    } else {
        t
    };
    if c.rotate_left && !c.rotate_right {
        with_rotation(m, turned_left(m.rotation as int))
    } else if c.rotate_right && !c.rotate_left {
        with_rotation(m, turned_right(m.rotation as int))
    } else {
        m
    }
}

/// The piece can fall no further: it has reached the floor margin or the row
/// below collides.
pub open spec fn stuck(t: Tetromino, field: PlayField) -> bool {
    t.y >= field.spec_height() - FLOOR_MARGIN || collides_after(t, field, 0, 1)
}

/// What a tick does with piece `t` on `field`.
pub open spec fn tick_step(t: Tetromino, field: PlayField) -> Step {
    if !stuck(t, field) {
        Step::Fell
    } else if t.y > RESET_ROW {
        Step::Locked
    } else {
        Step::Reset
    }
}

/// A piece that cannot descend locks when its anchor is at row 6, and
/// resets the field when it is at row 5.
pub proof fn lemma_lock_reset_boundary(t: Tetromino, field: PlayField)
    requires
        collides_after(t, field, 0, 1),
    ensures
        t.y == 6 ==> tick_step(t, field) == Step::Locked,
        t.y == 5 ==> tick_step(t, field) == Step::Reset,
{
}

impl Game {
    /// The field is well formed.
    pub open spec fn wf(&self) -> bool {
        self.field.wf()
    }

    /// An empty field of the standard size and the power-on generator state.
    pub fn new() -> (r: Game)
        ensures
            r.wf(),
            r.field.spec_width() == GRID_WIDTH,
            r.field@ == empty_grid(GRID_WIDTH as int, GRID_HEIGHT as int),
            r.seed == SEED,
    {
        Game { field: PlayField::new(GRID_WIDTH, GRID_HEIGHT), seed: SEED }
    }

    /// Starts the next piece, unless both quit buttons are pressed: then the
    /// game ends, nothing changes and no piece is returned.
    pub fn spawn(&mut self, quit_a: bool, quit_b: bool) -> (r: Option<Tetromino>)
        ensures
            quit_a && quit_b ==> r.is_none() && *final(self) == *old(self),
            !(quit_a && quit_b) ==> r == Some(spawned(old(self).seed)) && final(self).seed == next_seed(
                old(self).seed,
            ) && final(self).field == old(self).field,
    {
        if quit_a && quit_b {
            return None;
        }
        let typ = next_kind(&mut self.seed);
        Some(Tetromino::new(typ, SPAWN_X, 0))
    }

    /// Applies one tick's buttons to the falling piece.
    pub fn steer(&self, piece: &mut Tetromino, controls: Controls)
        requires
            self.wf(),
            old(piece).wf(),
        ensures
            final(piece).wf(),
            *final(piece) == steered(*old(piece), self.field, controls),
    {
        if controls.left && !controls.right {
            piece.move_left(&self.field);
        } else if controls.right && !controls.left {
            piece.move_right(&self.field);
        }
        if controls.rotate_left && !controls.rotate_right {
            piece.rotate_left();
        } else if controls.rotate_right && !controls.rotate_left {
            piece.rotate_right();
        }
    }

    /// One tick of gravity: the piece falls one row if it can; otherwise it
    /// locks into the field, which then clears its full rows, or, when it
    /// stopped at `RESET_ROW` or above, the field is emptied.
    pub fn tick(&mut self, piece: &mut Tetromino) -> (r: Step)
        requires
            old(self).wf(),
        ensures
            final(self).wf(),
            final(self).seed == old(self).seed,
            final(self).field.spec_width() == old(self).field.spec_width(),
            r == tick_step(*old(piece), old(self).field),
            r == Step::Fell ==> *final(piece) == shifted(*old(piece), 0, 1) && final(self).field
                == old(self).field,
            r == Step::Locked ==> *final(piece) == *old(piece) && final(self).field@ == clear_from(
                old(self).field.locked(
                    old(piece).typ,
                    old(piece).rotation as int,
                    old(piece).x as int,
                    old(piece).y as int,
                ),
                0,
            ),
            r == Step::Reset ==> *final(piece) == *old(piece) && final(self).field@ == empty_grid(
                old(self).field.spec_width(),
                old(self).field.spec_height(),
            ),
    {
        let floor = self.field.height() as i32 - FLOOR_MARGIN;
        if piece.y >= floor || !piece.can_move_down(&self.field) {
            if piece.y > RESET_ROW {
                self.field.lock(piece.typ, piece.rotation, piece.x, piece.y);
                self.field.clear_full_rows();
                Step::Locked
            } else {
                self.field = PlayField::new(self.field.width(), self.field.height());
                Step::Reset
            }
        } else {
            piece.move_down(&self.field);
            Step::Fell
        }
    }
}

} // verus!
