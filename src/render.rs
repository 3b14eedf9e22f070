//! Where a field cell appears on the 128-by-32 display, which shows the field
//! turned on its side: field rows run along the display's long axis.
use vstd::prelude::*;

verus! {

/// Height of the display in pixels.
pub const SCREEN_HEIGHT: i32 = 32;

/// Side of one cell's square on the display, in pixels.
pub const BLOCK_SIZE: i32 = 4;

/// Offset that centres the field's eight columns across the display:
/// half of what they leave free of the display's height, plus one block.
pub const MARGIN_X: i32 = 4;

/// The display position of the top-left pixel of the square for the cell at
/// field row `row`, column `col`.
pub open spec fn origin(row: int, col: int) -> (int, int) {
    (row * BLOCK_SIZE, SCREEN_HEIGHT - col * BLOCK_SIZE - MARGIN_X)
}

/// Whether `v` fits an `i32`.
pub open spec fn fits_i32(v: int) -> bool {
    i32::MIN <= v <= i32::MAX
}

/// The display position of the top-left pixel of the cell at field row
/// `row`, column `col`, or `None` when it lies beyond the display
/// coordinate range.
pub fn block_origin(row: i64, col: i64) -> (r: Option<(i32, i32)>)
    ensures
        r == if fits_i32(origin(row as int, col as int).0) && fits_i32(origin(row as int, col as int).1) {
            Some((origin(row as int, col as int).0 as i32, origin(row as int, col as int).1 as i32))
        } else {
            None
        },
{
    if row < i32::MIN as i64 || row > i32::MAX as i64 || col < i32::MIN as i64 || col > i32::MAX as i64 {
        return None;
    }
    let block = BLOCK_SIZE as i64;
    assert(row * block == row * 4 && col * block == col * 4);
    let left = row * block;
    let top = SCREEN_HEIGHT as i64 - col * block - MARGIN_X as i64;
    if left < i32::MIN as i64 || left > i32::MAX as i64 || top < i32::MIN as i64 || top > i32::MAX as i64 {
        return None;
    }
    Some((left as i32, top as i32))
}

} // verus!
