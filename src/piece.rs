//! The falling piece: its kind, rotation index and anchor position, with
//! movement checked against a play field and unchecked rotation.
use vstd::prelude::*;

use crate::field::PlayField;
use crate::shapes::{cell, filled, lemma_filled_within_box, lemma_some_cell_filled, TetrominoType};

verus! {

/// A piece in play. `x`, `y` is the column and row of the top-left corner of
/// its bounding box; `rotation` selects one of its kind's four states.
#[derive(Clone, Copy, Debug, PartialEq, Eq, Structural)]
pub struct Tetromino {
    pub x: i32,
    pub y: i32,
    pub typ: TetrominoType,
    pub rotation: usize,
}

/// The rotation index after one turn to the left.
pub open spec fn turned_left(rotation: int) -> int {
    (rotation + 3) % 4
}

/// The rotation index after one turn to the right.
pub open spec fn turned_right(rotation: int) -> int {
    (rotation + 1) % 4
}

/// Turning left then right, or right then left, restores any rotation index.
pub proof fn lemma_turns_cancel(rotation: int)
    requires
        0 <= rotation < 4,
    ensures
        turned_right(turned_left(rotation)) == rotation,
        turned_left(turned_right(rotation)) == rotation,
{
}

/// Whether the piece would collide after moving by `dx` columns and `dy` rows.
pub open spec fn collides_after(t: Tetromino, field: PlayField, dx: int, dy: int) -> bool {
    field.collides(t.typ, t.rotation as int, t.x + dx, t.y + dy)
}

/// The piece moved by `dx` columns and `dy` rows.
pub open spec fn shifted(t: Tetromino, dx: int, dy: int) -> Tetromino {
    Tetromino { x: (t.x + dx) as i32, y: (t.y + dy) as i32, ..t }
}

/// The piece after trying to move by `dx` columns and `dy` rows: moved if
/// that does not collide, unchanged otherwise.
pub open spec fn moved(t: Tetromino, field: PlayField, dx: int, dy: int) -> Tetromino {
    if collides_after(t, field, dx, dy) {
        t
    } else {
        shifted(t, dx, dy)
    }
}

/// The piece with rotation index `rotation`.
pub open spec fn with_rotation(t: Tetromino, rotation: int) -> Tetromino {
    Tetromino { rotation: rotation as usize, ..t }
}

/// A piece so far left, right or down that one more step leaves the field.
proof fn lemma_step_off_field(t: Tetromino, field: PlayField, dx: int, dy: int)
    requires
        field.wf(),
        (dx == -1 && dy == 0 && t.x == i32::MIN) || (dx == 1 && dy == 0 && t.x == i32::MAX) || (dx
            == 0 && dy == 1 && t.y == i32::MAX),
    ensures
        collides_after(t, field, dx, dy),
{
    lemma_some_cell_filled(t.typ, t.rotation as int);
    let (r, c) = choose|r: int, c: int| #[trigger] filled(t.typ, t.rotation as int, r, c);
    lemma_filled_within_box(t.typ, t.rotation as int, r, c);
    assert(field.blocks(t.x + dx + c, t.y + dy + r));
}

impl Tetromino {
    /// The rotation index is one of 0 to 3.
    pub open spec fn wf(&self) -> bool {
        self.rotation < 4
    }

    /// A piece of kind `typ` in rotation state 0 at column `x`, row `y`.
    pub fn new(typ: TetrominoType, x: i32, y: i32) -> (r: Tetromino)
        ensures
            r == (Tetromino { x, y, typ, rotation: 0 }),
            r.wf(),
    {
        Tetromino { x, y, typ, rotation: 0 }
    }

    /// 1 where the piece's current rotation state fills the cell at `y`, `x`
    /// of its bounding box, 0 elsewhere.
    pub fn get_data(&self, y: usize, x: usize) -> (r: u8)
        ensures
            r == (if filled(self.typ, self.rotation as int, y as int, x as int) {
                1u8
            } else {
                0u8
            }),
    {
        if cell(self.typ, self.rotation, y, x) {
            1
        } else {
            0
        }
    }

    /// Width of the piece's bounding box.
    pub fn w(&self) -> (r: usize)
        ensures
            r == crate::shapes::box_width(self.typ),
    {
        self.typ.bounding_width()
    }

    /// Height of the piece's bounding box.
    pub fn h(&self) -> (r: usize)
        ensures
            r == crate::shapes::box_height(self.typ),
    {
        self.typ.bounding_height()
    }

    /// Whether the piece could move one column right without colliding.
    pub fn can_move_right(&self, field: &PlayField) -> (r: bool)
        requires
            field.wf(),
        ensures
            r == !collides_after(*self, *field, 1, 0),
            r ==> self.x < i32::MAX,
    {
        if self.x == i32::MAX {
            proof {
                lemma_step_off_field(*self, *field, 1, 0);
            }
            false
        } else {
            !field.test_collision(self.typ, self.rotation, self.x + 1, self.y)
        }
    }

    /// Whether the piece could move one column left without colliding.
    pub fn can_move_left(&self, field: &PlayField) -> (r: bool)
        requires
            field.wf(),
        ensures
            r == !collides_after(*self, *field, -1, 0),
            r ==> self.x > i32::MIN,
    {
        if self.x == i32::MIN {
            proof {
                lemma_step_off_field(*self, *field, -1, 0);
            }
            false
        } else {
            !field.test_collision(self.typ, self.rotation, self.x - 1, self.y)
        }
    }

    /// Whether the piece could move one row down without colliding.
    pub fn can_move_down(&self, field: &PlayField) -> (r: bool)
        requires
            field.wf(),
        ensures
            r == !collides_after(*self, *field, 0, 1),
            r ==> self.y < i32::MAX,
    {
        if self.y == i32::MAX {
            proof {
                lemma_step_off_field(*self, *field, 0, 1);
            }
            false
        } else {
            !field.test_collision(self.typ, self.rotation, self.x, self.y + 1)
        }
    }

    /// Moves one column left unless that collides; otherwise nothing changes.
    pub fn move_left(&mut self, field: &PlayField)
        requires
            field.wf(),
        ensures
            *final(self) == moved(*old(self), *field, -1, 0),
    {
        if self.can_move_left(field) {
            self.x = self.x - 1;
        }
    }

    /// Moves one column right unless that collides; otherwise nothing changes.
    pub fn move_right(&mut self, field: &PlayField)
        requires
            field.wf(),
        ensures
            *final(self) == moved(*old(self), *field, 1, 0),
    {
        if self.can_move_right(field) {
            self.x = self.x + 1;
        }
    }

    /// Moves one row down unless that collides; otherwise nothing changes.
    pub fn move_down(&mut self, field: &PlayField)
        requires
            field.wf(),
        ensures
            *final(self) == moved(*old(self), *field, 0, 1),
    {
        if self.can_move_down(field) {
            self.y = self.y + 1;
        }
    }

    /// Turns the piece left. No collision check is made.
    pub fn rotate_left(&mut self)
        requires
            old(self).wf(),
        ensures
            final(self).wf(),
            *final(self) == with_rotation(*old(self), turned_left(old(self).rotation as int)),
    {
        self.rotation = if self.rotation == 0 {
            3
        } else {
            self.rotation - 1
        };
    }

    /// Turns the piece right. No collision check is made.
    pub fn rotate_right(&mut self)
        requires
            old(self).wf(),
        ensures
            final(self).wf(),
            *final(self) == with_rotation(*old(self), turned_right(old(self).rotation as int)),
    {
        self.rotation = if self.rotation == 3 {
            0
        } else {
            self.rotation + 1
        };
    }

    /// The field positions, as (row, column), of the cells the piece fills.
    pub fn cells(&self) -> (r: Vec<(i64, i64)>)
        ensures
            forall|i: int|
                0 <= i < r@.len() ==> filled(
                    self.typ,
                    self.rotation as int,
                    (#[trigger] r@[i]).0 - self.y,
                    r@[i].1 - self.x,
                ),
            forall|row: int, col: int|
                #[trigger] filled(self.typ, self.rotation as int, row, col) ==> exists|i: int|
                    0 <= i < r@.len() && (#[trigger] r@[i]).0 == self.y + row && r@[i].1 == self.x + col,
    {
        let h = self.h();
        let w = self.w();
        let mut r: Vec<(i64, i64)> = Vec::new();
        let mut row: usize = 0;
        while row < h
            invariant
                h == crate::shapes::box_height(self.typ),
                w == crate::shapes::box_width(self.typ),
                row <= h,
                forall|i: int|
                    0 <= i < r@.len() ==> filled(
                        self.typ,
                        self.rotation as int,
                        (#[trigger] r@[i]).0 - self.y,
                        r@[i].1 - self.x,
                    ),
                forall|a: int, b: int|
                    #[trigger] filled(self.typ, self.rotation as int, a, b) && a < row ==> exists|i: int|
                        0 <= i < r@.len() && (#[trigger] r@[i]).0 == self.y + a && r@[i].1 == self.x + b,
            decreases h - row,
        {
            let mut col: usize = 0;
            while col < w
                invariant
                    h == crate::shapes::box_height(self.typ),
                    w == crate::shapes::box_width(self.typ),
                    row < h,
                    col <= w,
                    forall|i: int|
                        0 <= i < r@.len() ==> filled(
                            self.typ,
                            self.rotation as int,
                            (#[trigger] r@[i]).0 - self.y,
                            r@[i].1 - self.x,
                        ),
                    forall|a: int, b: int|
                        #[trigger] filled(self.typ, self.rotation as int, a, b) && (a < row || (a == row
                            && b < col)) ==> exists|i: int|
                            0 <= i < r@.len() && (#[trigger] r@[i]).0 == self.y + a && r@[i].1 == self.x + b,
                decreases w - col,
            {
                if cell(self.typ, self.rotation, row, col) {
                    let ghost before = r@;
                    r.push((self.y as i64 + row as i64, self.x as i64 + col as i64));
                    assert forall|a: int, b: int|
                        #[trigger] filled(self.typ, self.rotation as int, a, b) && (a < row || (a == row
                            && b <= col)) implies exists|i: int|
                        0 <= i < r@.len() && (#[trigger] r@[i]).0 == self.y + a && r@[i].1 == self.x + b by {
                        if a == row && b == col {
                            assert(r@[before.len() as int].0 == self.y + a && r@[before.len() as int].1 == self.x + b);
                        } else {
                            let i = choose|i: int|
                                0 <= i < before.len() && (#[trigger] before[i]).0 == self.y + a && before[i].1 == self.x + b;
                            assert(r@[i] == before[i]);
                        }
                    }
                }
                col += 1;
            }
            row += 1;
            assert forall|a: int, b: int| #[trigger] filled(self.typ, self.rotation as int, a, b) && a == row - 1
                implies b < w by {
                lemma_filled_within_box(self.typ, self.rotation as int, a, b);
            }
        }
        assert forall|a: int, b: int| #[trigger] filled(self.typ, self.rotation as int, a, b) implies a < h by {
            lemma_filled_within_box(self.typ, self.rotation as int, a, b);
        }
        r
    }
}

} // verus!
