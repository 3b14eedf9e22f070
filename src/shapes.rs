//! The seven piece kinds and their four stored rotation states.
//!
//! A rotation state is kept as a 16-bit pattern: four rows of four cells, the
//! top row in the highest nibble and, within a row, column 0 in the highest
//! bit. Kinds whose bounding box is narrower or shorter than 4 leave the
//! cells outside their box clear.
use vstd::prelude::*;

verus! {

/// The seven piece kinds.
#[derive(Clone, Copy, Debug, PartialEq, Eq, Structural)]
pub enum TetrominoType {
    I,
    T,
    S,
    Z,
    O,
    L,
    J,
}

/// Chooses one of four patterns by rotation index.
pub open spec fn pick(rotation: int, a: u16, b: u16, c: u16, d: u16) -> u16 {
    if rotation == 0 {
        a
    } else if rotation == 1 {
        b
    } else if rotation == 2 {
        c
    } else {
        d
    }
}

/// The stored pattern of rotation state `rotation` (0 to 3) of `kind`.
pub open spec fn pattern(kind: TetrominoType, rotation: int) -> u16 {
    match kind {
        TetrominoType::I => pick(
            rotation,
            0b0000_1111_0000_0000,
            0b0010_0010_0010_0010,
            0b0000_0000_1111_0000,
            0b0100_0100_0100_0100,
        ),
        TetrominoType::J => pick(
            rotation,
            0b1000_1110_0000_0000,
            0b0110_0100_0100_0000,
            0b0000_1110_0010_0000,
            0b0100_0100_1100_0000,
        ),
        TetrominoType::L => pick(
            rotation,
            0b0010_1110_0000_0000,
            0b0100_0100_0110_0000,
            0b0000_1110_1000_0000,
            0b1100_0100_0100_0000,
        ),
        TetrominoType::O => pick(
            rotation,
            0b0110_0110_0000_0000,
            0b0110_0110_0000_0000,
            0b0110_0110_0000_0000,
            0b0110_0110_0000_0000,
        ),
        TetrominoType::S => pick(
            rotation,
            0b0110_1100_0000_0000,
            0b0100_0110_0010_0000,
            0b0000_0110_1100_0000,
            0b1000_1100_0100_0000,
        ),
        TetrominoType::T => pick(
            rotation,
            0b0100_1110_0000_0000,
            0b0100_0110_0100_0000,
            0b0000_1110_0100_0000,
            0b0100_1100_0100_0000,
        ),
        TetrominoType::Z => pick(
            rotation,
            0b1100_0110_0000_0000,
            0b0010_0110_0100_0000,
            0b0000_1100_0110_0000,
            0b0100_1100_1000_0000,
        ),
    }
}

/// Divisor that brings row `row` of a pattern to the lowest nibble.
pub open spec fn row_scale(row: int) -> int {
    if row == 0 {
        4096
    } else if row == 1 {
        256
    } else if row == 2 {
        16
    } else {
        1
    }
}

/// Divisor that brings column `col` of a row nibble to the lowest bit.
pub open spec fn col_scale(col: int) -> int {
    if col == 0 {
        8
    } else if col == 1 {
        4
    } else if col == 2 {
        2
    } else {
        1
    }
}

/// Whether the cell at `row`, `col` of a 4-by-4 pattern is set.
pub open spec fn pattern_bit(bits: u16, row: int, col: int) -> bool {
    0 <= row < 4 && 0 <= col < 4 && ((bits as int / row_scale(row)) % 16 / col_scale(col)) % 2 == 1
}

/// Whether rotation state `rotation` (taken modulo 4) of `kind` fills the
/// cell at `row`, `col` of its bounding box.
pub open spec fn filled(kind: TetrominoType, rotation: int, row: int, col: int) -> bool {
    pattern_bit(pattern(kind, rotation % 4), row, col)
}

/// Width of the bounding box of `kind`.
pub open spec fn box_width(kind: TetrominoType) -> int {
    match kind {
        TetrominoType::I | TetrominoType::O => 4,
        _ => 3,
    }
}

/// Height of the bounding box of `kind`.
pub open spec fn box_height(kind: TetrominoType) -> int {
    match kind {
        TetrominoType::I => 4,
        _ => 3,
    }
}

/// The kind that index `i` selects: 0 to 6 in the order I, T, S, Z, O, L, J;
/// any other index selects I.
pub open spec fn kind_of_index(i: int) -> TetrominoType {
    if i == 1 {
        TetrominoType::T
    } else if i == 2 {
        TetrominoType::S
    } else if i == 3 {
        TetrominoType::Z
    } else if i == 4 {
        TetrominoType::O
    } else if i == 5 {
        TetrominoType::L
    } else if i == 6 {
        TetrominoType::J
    } else {
        TetrominoType::I
    }
}

impl From<i32> for TetrominoType {
    fn from(x: i32) -> (r: Self)
        ensures
            r == kind_of_index(x as int),
    {
        match x {
            0 => TetrominoType::I,
            1 => TetrominoType::T,
            2 => TetrominoType::S,
            3 => TetrominoType::Z,
            4 => TetrominoType::O,
            5 => TetrominoType::L,
            6 => TetrominoType::J,
            _ => TetrominoType::I,
        }
    }
}

impl vstd::std_specs::convert::FromSpecImpl<i32> for TetrominoType {
    open spec fn obeys_from_spec() -> bool {
        true
    }

    open spec fn from_spec(v: i32) -> Self {
        kind_of_index(v as int)
    }
}

impl TetrominoType {
    /// Width of this kind's bounding box.
    pub fn bounding_width(self) -> (r: usize)
        ensures
            r == box_width(self),
    {
        match self {
            TetrominoType::I | TetrominoType::O => 4,
            _ => 3,
        }
    }

    /// Height of this kind's bounding box.
    pub fn bounding_height(self) -> (r: usize)
        ensures
            r == box_height(self),
    {
        match self {
            TetrominoType::I => 4,
            _ => 3,
        }
    }
}

fn pick_exec(rotation: usize, a: u16, b: u16, c: u16, d: u16) -> (r: u16)
    ensures
        r == pick(rotation as int, a, b, c, d),
{
    if rotation == 0 {
        a
    } else if rotation == 1 {
        b
    } else if rotation == 2 {
        c
    } else {
        d
    }
}

/// The stored pattern of rotation state `rotation` (0 to 3) of `kind`.
fn rotation_pattern(kind: TetrominoType, rotation: usize) -> (r: u16)
    ensures
        r == pattern(kind, rotation as int),
{
    match kind {
        TetrominoType::I => pick_exec(
            rotation,
            0b0000_1111_0000_0000,
            0b0010_0010_0010_0010,
            0b0000_0000_1111_0000,
            0b0100_0100_0100_0100,
        ),
        TetrominoType::J => pick_exec(
            rotation,
            0b1000_1110_0000_0000,
            0b0110_0100_0100_0000,
            0b0000_1110_0010_0000,
            0b0100_0100_1100_0000,
        ),
        TetrominoType::L => pick_exec(
            rotation,
            0b0010_1110_0000_0000,
            0b0100_0100_0110_0000,
            0b0000_1110_1000_0000,
            0b1100_0100_0100_0000,
        ),
        TetrominoType::O => pick_exec(
            rotation,
            0b0110_0110_0000_0000,
            0b0110_0110_0000_0000,
            0b0110_0110_0000_0000,
            0b0110_0110_0000_0000,
        ),
        TetrominoType::S => pick_exec(
            rotation,
            0b0110_1100_0000_0000,
            0b0100_0110_0010_0000,
            0b0000_0110_1100_0000,
            0b1000_1100_0100_0000,
        ),
        TetrominoType::T => pick_exec(
            rotation,
            0b0100_1110_0000_0000,
            0b0100_0110_0100_0000,
            0b0000_1110_0100_0000,
            0b0100_1100_0100_0000,
        ),
        TetrominoType::Z => pick_exec(
            rotation,
            0b1100_0110_0000_0000,
            0b0010_0110_0100_0000,
            0b0000_1100_0110_0000,
            0b0100_1100_1000_0000,
        ),
    }
}

/// Whether rotation state `rotation` (taken modulo 4) of `kind` fills the
/// cell at `row`, `col`; false for any cell outside the kind's bounding box.
pub fn cell(kind: TetrominoType, rotation: usize, row: usize, col: usize) -> (r: bool)
    ensures
        r == filled(kind, rotation as int, row as int, col as int),
{
    proof {
        lemma_filled_within_box(kind, rotation as int, row as int, col as int);
    }
    if row >= kind.bounding_height() || col >= kind.bounding_width() {
        return false;
    }
    let bits = rotation_pattern(kind, rotation % 4);
    let row_div: u16 = if row == 0 {
        4096
    } else if row == 1 {
        256
    } else if row == 2 {
        16
    } else {
        1
    };
    let col_div: u16 = if col == 0 {
        8
    } else if col == 1 {
        4
    } else if col == 2 {
        2
    } else {
        1
    };
    (bits / row_div) % 16 / col_div % 2 == 1
}

/// No rotation state fills a cell outside its kind's bounding box.
pub proof fn lemma_filled_within_box(kind: TetrominoType, rotation: int, row: int, col: int)
    ensures
        filled(kind, rotation, row, col) ==> 0 <= row < box_height(kind) && 0 <= col < box_width(kind),
{
    let r = rotation % 4;
    assert(0 <= r < 4);
    if filled(kind, rotation, row, col) {
        assert(0 <= row < 4 && 0 <= col < 4);
        assert(r == 0 || r == 1 || r == 2 || r == 3);
        assert(row == 0 || row == 1 || row == 2 || row == 3);
        assert(col == 0 || col == 1 || col == 2 || col == 3);
    }
}

/// Every rotation state of every kind fills at least one cell.
pub proof fn lemma_some_cell_filled(kind: TetrominoType, rotation: int)
    ensures
        exists|row: int, col: int| #[trigger] filled(kind, rotation, row, col),
{
    let r = rotation % 4;
    assert(r == 0 || r == 1 || r == 2 || r == 3);
    assert(filled(kind, rotation, 1, 1) || filled(kind, rotation, 1, 2) || filled(kind, rotation, 2, 1));
}

} // verus!
