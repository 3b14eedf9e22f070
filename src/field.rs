//! The play field: a grid of occupancy cells with collision testing, locking
//! of a piece into the grid, and compaction of full rows.
//!
//! Row 0 is the top of the stack; pieces fall toward increasing row indices.
use vstd::prelude::*;

use crate::shapes::{box_height, box_width, cell, filled, lemma_filled_within_box, TetrominoType};

verus! {

/// The occupancy grid. A cell holding 0 is empty; any other value is filled.
pub struct PlayField {
    width: usize,
    rows: Vec<Vec<usize>>,
}

impl View for PlayField {
    type V = Seq<Seq<usize>>;

    /// The rows of the grid, top row first.
    closed spec fn view(&self) -> Seq<Seq<usize>> {
        self.rows@.map_values(|r: Vec<usize>| r@)
    }
}

/// A grid of `height` rows, each of `width` zero cells.
pub open spec fn empty_grid(width: int, height: int) -> Seq<Seq<usize>> {
    Seq::new(height as nat, |y: int| Seq::new(width as nat, |x: int| 0usize))
}

impl PlayField {
    /// The number of columns.
    pub closed spec fn spec_width(&self) -> int {
        self.width as int
    }

    /// The number of rows.
    pub open spec fn spec_height(&self) -> int {
        self@.len() as int
    }

    /// Every row has the field's width, and both sizes fit a piece coordinate.
    pub open spec fn wf(&self) -> bool {
        &&& self.spec_width() <= i32::MAX
        &&& self.spec_height() <= i32::MAX
        &&& forall|y: int| 0 <= y < self.spec_height() ==> (#[trigger] self@[y]).len() == self.spec_width()
    }

    /// Whether a piece cell at column `xi`, row `yi` collides: it lies left of,
    /// right of or below the field, or on a filled cell below row 0. Cells at
    /// or above row 0 inside the side walls never collide.
    pub open spec fn blocks(&self, xi: int, yi: int) -> bool {
        xi < 0 || xi >= self.spec_width() || yi >= self.spec_height() || (yi > 0 && self@[yi][xi] != 0)
    }

    /// Whether `kind` in rotation state `rotation`, with its box's top-left
    /// corner at column `x`, row `y`, has a filled cell that collides.
    pub open spec fn collides(&self, kind: TetrominoType, rotation: int, x: int, y: int) -> bool {
        exists|row: int, col: int| #[trigger] filled(kind, rotation, row, col) && self.blocks(x + col, y + row)
    }

    /// The grid after locking `kind` in rotation state `rotation` with its
    /// box's top-left corner at column `x`, row `y`: each filled piece cell
    /// that lands inside the field below row 0 is or-ed with 1; nothing else
    /// changes.
    pub open spec fn locked(&self, kind: TetrominoType, rotation: int, x: int, y: int) -> Seq<Seq<usize>> {
        Seq::new(
            self@.len(),
            |yi: int|
                Seq::new(
                    self@[yi].len(),
                    |xi: int|
                        if yi > 0 && filled(kind, rotation, yi - y, xi - x) {
                            self@[yi][xi] | 1
                        } else {
                            self@[yi][xi]
                        },
                ),
        )
    }

    /// An empty field of `width` columns and `height` rows.
    pub fn new(width: usize, height: usize) -> (r: PlayField)
        requires
            width <= i32::MAX,
            height <= i32::MAX,
        ensures
            r.wf(),
            r.spec_width() == width,
            r@ == empty_grid(width as int, height as int),
    {
        let mut rows: Vec<Vec<usize>> = Vec::new();
        let mut y: usize = 0;
        while y < height
            invariant
                y <= height,
                rows@.len() == y,
                forall|k: int| 0 <= k < y ==> (#[trigger] rows@[k])@ == Seq::new(width as nat, |x: int| 0usize),
            decreases height - y,
        {
            let mut row: Vec<usize> = Vec::new();
            let mut x: usize = 0;
            while x < width
                invariant
                    x <= width,
                    row@ == Seq::new(x as nat, |i: int| 0usize),
                decreases width - x,
            {
                row.push(0);
                x += 1;
                assert(row@ =~= Seq::new(x as nat, |i: int| 0usize));
            }
            rows.push(row);
            y += 1;
        }
        let r = PlayField { width, rows };
        assert(r@ =~~= empty_grid(width as int, height as int));
        r
    }

    /// The number of columns.
    pub fn width(&self) -> (r: usize)
        ensures
            r == self.spec_width(),
    {
        self.width
    }

    /// The number of rows.
    pub fn height(&self) -> (r: usize)
        ensures
            r == self.spec_height(),
    {
        self.rows.len()
    }

    /// Whether the cell at column `x`, row `y` exists and is filled.
    pub fn occupied(&self, x: usize, y: usize) -> (r: bool)
        requires
            self.wf(),
        ensures
            r == (y < self.spec_height() && x < self.spec_width() && self@[y as int][x as int] != 0),
    {
        if y < self.rows.len() && x < self.width {
            assert(self@[y as int] == self.rows@[y as int]@);
            self.rows[y][x] != 0
        } else {
            false
        }
    }

    /// Whether `kind` in rotation state `rotation` (taken modulo 4), placed
    /// with its box's top-left corner at column `x`, row `y`, collides.
    pub fn test_collision(&self, kind: TetrominoType, rotation: usize, x: i32, y: i32) -> (r: bool)
        requires
            self.wf(),
        ensures
            r == self.collides(kind, rotation as int, x as int, y as int),
    {
        let h = kind.bounding_height();
        let w = kind.bounding_width();
        let height = self.rows.len();
        let mut row: usize = 0;
        while row < h
            invariant
                self.wf(),
                h == box_height(kind),
                w == box_width(kind),
                height == self.spec_height(),
                row <= h,
                forall|r: int, c: int|
                    0 <= r < row && #[trigger] filled(kind, rotation as int, r, c) ==> !self.blocks(
                        x + c,
                        y + r,
                    ),
            decreases h - row,
        {
            let mut col: usize = 0;
            while col < w
                invariant
                    self.wf(),
                    h == box_height(kind),
                    w == box_width(kind),
                    height == self.spec_height(),
                    row < h,
                    col <= w,
                    forall|r: int, c: int|
                        0 <= r < row && #[trigger] filled(kind, rotation as int, r, c) ==> !self.blocks(
                            x + c,
                            y + r,
                        ),
                    forall|c: int|
                        0 <= c < col && #[trigger] filled(kind, rotation as int, row as int, c)
                            ==> !self.blocks(x + c, y + row),
                decreases w - col,
            {
                if cell(kind, rotation, row, col) {
                    let yi = y as i64 + row as i64;
                    let xi = x as i64 + col as i64;
                    if xi < 0 || xi >= self.width as i64 || yi >= height as i64 {
                        assert(self.blocks(x + col, y + row));
                        return true;
                    }
                    assert(yi > 0 ==> self@[yi as int] == self.rows@[yi as int]@);
                    if yi > 0 && self.rows[yi as usize][xi as usize] != 0 {
                        assert(self.blocks(x + col, y + row));
                        return true;
                    }
                }
                col += 1;
            }
            row += 1;
        }
        assert forall|r: int, c: int| #[trigger] filled(kind, rotation as int, r, c) implies !self.blocks(
            x + c,
            y + r,
        ) by {
            lemma_filled_within_box(kind, rotation as int, r, c);
        }
        false
    }
}

/// Every cell of `row` is filled.
pub open spec fn row_full(row: Seq<usize>) -> bool {
    forall|x: int| 0 <= x < row.len() ==> #[trigger] row[x] != 0
}

/// The grid after removing row `y`: every row above it moves down by one
/// index and row 0 keeps its content. Removing row 0 itself empties it.
pub open spec fn collapse(g: Seq<Seq<usize>>, y: int) -> Seq<Seq<usize>> {
    Seq::new(
        g.len(),
        |k: int|
            if 1 <= k <= y {
                g[k - 1]
            } else if k == y {
                Seq::new(g[k].len(), |i: int| 0usize)
            } else {
                g[k]
            },
    )
}

/// The grid after scanning rows `y`, `y + 1`, ... in turn and collapsing
/// each one that is full when the scan reaches it.
pub open spec fn clear_from(g: Seq<Seq<usize>>, y: int) -> Seq<Seq<usize>>
    decreases g.len() - y,
    when 0 <= y
{
    if y >= g.len() {
        g
    } else {
        clear_from(if row_full(g[y]) { collapse(g, y) } else { g }, y + 1)
    }
}

/// Relative cell `row`, `col` comes before `end_row`, `end_col` in row-major order.
spec fn precedes(row: int, col: int, end_row: int, end_col: int) -> bool {
    row < end_row || (row == end_row && col < end_col)
}

/// The grid `g` with the lock applied to the relative cells that precede
/// `end_row`, `end_col`.
spec fn locked_upto(
    g: Seq<Seq<usize>>,
    kind: TetrominoType,
    rotation: int,
    x: int,
    y: int,
    end_row: int,
    end_col: int,
) -> Seq<Seq<usize>> {
    Seq::new(
        g.len(),
        |yi: int|
            Seq::new(
                g[yi].len(),
                |xi: int|
                    if yi > 0 && filled(kind, rotation, yi - y, xi - x) && precedes(
                        yi - y,
                        xi - x,
                        end_row,
                        end_col,
                    ) {
                        g[yi][xi] | 1
                    } else {
                        g[yi][xi]
                    },
            ),
    )
}

impl PlayField {
    /// One step of [`Self::lock`]: applies the lock to relative cell `row`, `col`.
    fn lock_cell(
        &mut self,
        Ghost(g): Ghost<Seq<Seq<usize>>>,
        kind: TetrominoType,
        rotation: usize,
        x: i32,
        y: i32,
        row: usize,
        col: usize,
    )
        requires
            old(self).wf(),
            g.len() == old(self).spec_height(),
            forall|a: int| 0 <= a < g.len() ==> (#[trigger] g[a]).len() == old(self).spec_width(),
            row < 4,
            col < 4,
            old(self)@ == locked_upto(g, kind, rotation as int, x as int, y as int, row as int, col as int),
        ensures
            final(self).wf(),
            final(self).spec_width() == old(self).spec_width(),
            final(self)@ == locked_upto(g, kind, rotation as int, x as int, y as int, row as int, col + 1),
    {
        let ghost rot = rotation as int;
        let ghost before = self@;
        let yi = y as i64 + row as i64;
        let xi = x as i64 + col as i64;
        let hit = cell(kind, rotation, row, col);
        let inside = yi > 0 && yi < self.rows.len() as i64 && xi >= 0 && xi < self.width as i64;
        if hit && inside {
            let (yu, xu) = (yi as usize, xi as usize);
            assert(self@[yu as int] == self.rows@[yu as int]@);
            let v = self.rows[yu][xu] | 1;
            self.rows[yu][xu] = v;
            assert(self@ =~~= before.update(yu as int, before[yu as int].update(xu as int, v)));
        }
        let ghost next = locked_upto(g, kind, rot, x as int, y as int, row as int, col + 1);
        assert forall|a: int, b: int| 0 <= a < g.len() && 0 <= b < g[a].len() implies #[trigger] self@[a][b]
            == next[a][b] by {
            if a - y == row && b - x == col {
                assert(before[a][b] == g[a][b]);
                assert(hit == filled(kind, rot, a - y, b - x));
                if hit && inside {
                    assert(self@[a][b] == (g[a][b] | 1));
                } else {
                    assert(self@[a][b] == g[a][b]);
                }
            } else {
                assert(self@[a][b] == before[a][b]);
            }
        }
        assert(self@ =~~= next);
    }

    /// Locks `kind` in rotation state `rotation` (taken modulo 4), placed with
    /// its box's top-left corner at column `x`, row `y`, into the grid.
    pub fn lock(&mut self, kind: TetrominoType, rotation: usize, x: i32, y: i32)
        requires
            old(self).wf(),
        ensures
            final(self).wf(),
            final(self).spec_width() == old(self).spec_width(),
            final(self)@ == old(self).locked(kind, rotation as int, x as int, y as int),
    {
        let ghost g = self@;
        let ghost rot = rotation as int;
        let h = kind.bounding_height();
        let w = kind.bounding_width();
        let height = self.rows.len();
        let mut row: usize = 0;
        assert(self@ =~~= locked_upto(g, kind, rot, x as int, y as int, 0, 0));
        while row < h
            invariant
                self.wf(),
                self.spec_width() == old(self).spec_width(),
                g == old(self)@,
                rot == rotation as int,
                h == box_height(kind),
                w == box_width(kind),
                height == self.spec_height(),
                row <= h,
                self@ == locked_upto(g, kind, rot, x as int, y as int, row as int, 0),
                g.len() == height,
                forall|a: int| 0 <= a < g.len() ==> (#[trigger] g[a]).len() == self.spec_width(),
            decreases h - row,
        {
            let mut col: usize = 0;
            while col < w
                invariant
                    self.wf(),
                    self.spec_width() == old(self).spec_width(),
                    g == old(self)@,
                    rot == rotation as int,
                    h == box_height(kind),
                    w == box_width(kind),
                    height == self.spec_height(),
                    row < h,
                    col <= w,
                    self@ == locked_upto(g, kind, rot, x as int, y as int, row as int, col as int),
                    g.len() == height,
                    forall|a: int| 0 <= a < g.len() ==> (#[trigger] g[a]).len() == self.spec_width(),
                decreases w - col,
            {
                self.lock_cell(Ghost(g), kind, rotation, x, y, row, col);
                col += 1;
            }
            row += 1;
            assert(self@ =~~= locked_upto(g, kind, rot, x as int, y as int, row as int, 0)) by {
                assert forall|r: int, c: int| #[trigger] filled(kind, rot, r, c) && r == row - 1 implies c
                    < w by {
                    lemma_filled_within_box(kind, rot, r, c);
                }
            }
        }
        assert(self@ =~~= old(self).locked(kind, rot, x as int, y as int)) by {
            assert forall|r: int, c: int| #[trigger] filled(kind, rot, r, c) implies r < h by {
                lemma_filled_within_box(kind, rot, r, c);
            }
        }
    }
}

impl PlayField {
    /// Whether every cell of row `y` is filled.
    pub fn is_row_full(&self, y: usize) -> (r: bool)
        requires
            self.wf(),
            y < self.spec_height(),
        ensures
            r == row_full(self@[y as int]),
    {
        assert(self@[y as int] == self.rows@[y as int]@);
        let mut x: usize = 0;
        while x < self.width
            invariant
                self.wf(),
                y < self.spec_height(),
                x <= self.spec_width(),
                self@[y as int] == self.rows@[y as int]@,
                forall|i: int| 0 <= i < x ==> #[trigger] self@[y as int][i] != 0,
            decreases self.width - x,
        {
            if self.rows[y][x] == 0 {
                return false;
            }
            x += 1;
        }
        true
    }

    /// Removes row `y`: zeroes it, then copies each row above it into the
    /// row below, from row `y - 1` up to row 0.
    fn collapse_row(&mut self, y: usize)
        requires
            old(self).wf(),
            y < old(self).spec_height(),
        ensures
            final(self).wf(),
            final(self).spec_width() == old(self).spec_width(),
            final(self)@ == collapse(old(self)@, y as int),
    {
        let ghost g = self@;
        let mut x: usize = 0;
        while x < self.width
            invariant
                self.wf(),
                self.spec_width() == old(self).spec_width(),
                g == old(self)@,
                g.len() == self@.len(),
                y < self.spec_height(),
                x <= self.spec_width(),
                forall|k: int| 0 <= k < g.len() && k != y ==> #[trigger] self@[k] == g[k],
                forall|i: int| 0 <= i < x ==> #[trigger] self@[y as int][i] == 0,
                forall|i: int| x <= i < self.spec_width() ==> #[trigger] self@[y as int][i] == g[y as int][i],
            decreases self.width - x,
        {
            let ghost before = self@;
            assert(self@[y as int] == self.rows@[y as int]@);
            self.rows[y][x] = 0;
            assert(self@ =~~= before.update(y as int, before[y as int].update(x as int, 0)));
            x += 1;
        }
        let ghost zeroed = self@;
        assert(zeroed =~~= g.update(y as int, Seq::new(g[y as int].len(), |i: int| 0usize)));
        let mut k: usize = y;
        while k > 0
            invariant
                self.wf(),
                self.spec_width() == old(self).spec_width(),
                g == old(self)@,
                g.len() == self@.len(),
                y < self.spec_height(),
                k <= y,
                zeroed.len() == g.len(),
                forall|j: int| 0 <= j < g.len() ==> #[trigger] self@[j] == if k < j <= y {
                    zeroed[j - 1]
                } else {
                    zeroed[j]
                },
            decreases k,
        {
            let ghost before = self@;
            let row = self.copy_row(k - 1);
            self.rows.set(k, row);
            assert(self@ =~~= before.update(k as int, before[k - 1]));
            k -= 1;
        }
        assert(self@ =~~= collapse(g, y as int));
    }

    /// A copy of row `y`.
    fn copy_row(&self, y: usize) -> (r: Vec<usize>)
        requires
            self.wf(),
            y < self.spec_height(),
        ensures
            r@ == self@[y as int],
    {
        assert(self@[y as int] == self.rows@[y as int]@);
        let mut r: Vec<usize> = Vec::new();
        let mut x: usize = 0;
        while x < self.width
            invariant
                self.wf(),
                y < self.spec_height(),
                x <= self.spec_width(),
                self@[y as int] == self.rows@[y as int]@,
                r@ == self@[y as int].subrange(0, x as int),
            decreases self.width - x,
        {
            r.push(self.rows[y][x]);
            x += 1;
            assert(r@ =~= self@[y as int].subrange(0, x as int));
        }
        assert(r@ =~= self@[y as int]);
        r
    }

    /// Scans the rows from row 0 downward and collapses each row that is full
    /// when the scan reaches it.
    pub fn clear_full_rows(&mut self)
        requires
            old(self).wf(),
        ensures
            final(self).wf(),
            final(self).spec_width() == old(self).spec_width(),
            final(self)@ == clear_from(old(self)@, 0),
    {
        let mut y: usize = 0;
        while y < self.rows.len()
            invariant
                self.wf(),
                self.spec_width() == old(self).spec_width(),
                y <= self.spec_height(),
                clear_from(self@, y as int) == clear_from(old(self)@, 0),
            decreases self.spec_height() - y,
        {
            if self.is_row_full(y) {
                self.collapse_row(y);
            }
            y += 1;
        }
    }
}

/// The number of filled cells in `row`.
pub open spec fn row_count(row: Seq<usize>) -> nat
    decreases row.len(),
{
    if row.len() == 0 {
        0
    } else {
        row_count(row.drop_last()) + if row.last() != 0 {
            1nat
        } else {
            0nat
        }
    }
}

/// The number of filled cells in the grid `g`.
pub open spec fn grid_count(g: Seq<Seq<usize>>) -> nat
    decreases g.len(),
{
    if g.len() == 0 {
        0
    } else {
        grid_count(g.drop_last()) + row_count(g.last())
    }
}

/// The number of full rows of `g` at index `y` or below it.
pub open spec fn full_rows_from(g: Seq<Seq<usize>>, y: int) -> nat
    decreases g.len() - y,
    when 0 <= y
{
    if y >= g.len() {
        0
    } else {
        full_rows_from(g, y + 1) + if row_full(g[y]) {
            1nat
        } else {
            0nat
        }
    }
}

/// Every row of `g` has `w` cells.
pub open spec fn rows_of_width(g: Seq<Seq<usize>>, w: int) -> bool {
    forall|k: int| 0 <= k < g.len() ==> (#[trigger] g[k]).len() == w
}

proof fn lemma_row_count_full(row: Seq<usize>)
    requires
        row_full(row),
    ensures
        row_count(row) == row.len(),
    decreases row.len(),
{
    if row.len() > 0 {
        assert(row.last() == row[row.len() - 1]);
        lemma_row_count_full(row.drop_last());
    }
}

proof fn lemma_row_count_zero(row: Seq<usize>)
    requires
        forall|i: int| 0 <= i < row.len() ==> #[trigger] row[i] == 0,
    ensures
        row_count(row) == 0,
    decreases row.len(),
{
    if row.len() > 0 {
        assert(row.last() == row[row.len() - 1]);
        lemma_row_count_zero(row.drop_last());
    }
}

proof fn lemma_grid_count_concat(a: Seq<Seq<usize>>, b: Seq<Seq<usize>>)
    ensures
        grid_count(a + b) == grid_count(a) + grid_count(b),
    decreases b.len(),
{
    if b.len() > 0 {
        lemma_grid_count_concat(a, b.drop_last());
        assert((a + b).drop_last() =~= a + b.drop_last());
        assert((a + b).last() == b.last());
    }
}

proof fn lemma_grid_count_single(r: Seq<usize>)
    ensures
        grid_count(seq![r]) == row_count(r),
{
    assert(seq![r].drop_last() =~= Seq::<Seq<usize>>::empty());
    assert(seq![r].last() == r);
    assert(grid_count(Seq::<Seq<usize>>::empty()) == 0);
}

/// Collapsing a full row below an empty row 0 removes exactly the `w` cells
/// of that row.
proof fn lemma_collapse_count(g: Seq<Seq<usize>>, y: int, w: int)
    requires
        rows_of_width(g, w),
        0 < y < g.len(),
        row_full(g[y]),
        forall|i: int| 0 <= i < w ==> #[trigger] g[0][i] == 0,
    ensures
        grid_count(collapse(g, y)) + w == grid_count(g),
{
    let top = g.subrange(0, y);
    let rest = g.subrange(y + 1, g.len() as int);
    assert(collapse(g, y) =~= seq![g[0]] + top + rest);
    assert(g =~= top + seq![g[y]] + rest);
    lemma_grid_count_concat(seq![g[0]] + top, rest);
    lemma_grid_count_concat(seq![g[0]], top);
    lemma_grid_count_concat(top + seq![g[y]], rest);
    lemma_grid_count_concat(top, seq![g[y]]);
    lemma_grid_count_single(g[0]);
    lemma_grid_count_single(g[y]);
    lemma_row_count_zero(g[0]);
    lemma_row_count_full(g[y]);
}

proof fn lemma_clear_from_count(g: Seq<Seq<usize>>, y: int, w: int)
    requires
        rows_of_width(g, w),
        w > 0,
        0 <= y,
        g.len() > 0,
        forall|i: int| 0 <= i < w ==> #[trigger] g[0][i] == 0,
    ensures
        grid_count(clear_from(g, y)) + w * full_rows_from(g, y) == grid_count(g),
    decreases g.len() - y,
{
    if y < g.len() {
        if row_full(g[y]) {
            if y == 0 {
                assert(g[0][0] != 0);
            }
            let c = collapse(g, y);
            lemma_collapse_count(g, y, w);
            assert(rows_of_width(c, w));
            assert(c[0] == g[0]);
            assert forall|k: int| y < k < g.len() implies #[trigger] c[k] == g[k] by {}
            lemma_full_rows_from_same(c, g, y + 1);
            lemma_clear_from_count(c, y + 1, w);
            assert(w * full_rows_from(g, y) == w + w * full_rows_from(g, y + 1)) by (nonlinear_arith)
                requires
                    full_rows_from(g, y) == full_rows_from(g, y + 1) + 1,
            ;
            assert(clear_from(g, y) == clear_from(c, y + 1));
        } else {
            lemma_clear_from_count(g, y + 1, w);
            assert(clear_from(g, y) == clear_from(g, y + 1));
        }
    } else {
        assert(w * 0 == 0);
    }
}

/// Grids that agree on the rows from `y` on have as many full rows there.
proof fn lemma_full_rows_from_same(a: Seq<Seq<usize>>, b: Seq<Seq<usize>>, y: int)
    requires
        0 <= y,
        a.len() == b.len(),
        forall|k: int| y <= k < a.len() ==> #[trigger] a[k] == b[k],
    ensures
        full_rows_from(a, y) == full_rows_from(b, y),
    decreases a.len() - y,
{
    if y < a.len() {
        lemma_full_rows_from_same(a, b, y + 1);
    }
}

/// Clearing full rows removes exactly the cells of the rows that were full:
/// when row 0 is empty, the number of filled cells drops by the width for
/// each full row, and by nothing else.
pub proof fn lemma_clear_removes_full_rows(g: Seq<Seq<usize>>, w: int)
    requires
        rows_of_width(g, w),
        w > 0,
        g.len() > 0,
        forall|i: int| 0 <= i < w ==> #[trigger] g[0][i] == 0,
    ensures
        grid_count(clear_from(g, 0)) + w * full_rows_from(g, 0) == grid_count(g),
{
    lemma_clear_from_count(g, 0, w);
}

proof fn lemma_clear_from_no_full(g: Seq<Seq<usize>>, y: int)
    requires
        0 <= y,
        forall|k: int| y <= k < g.len() ==> !row_full(#[trigger] g[k]),
    ensures
        clear_from(g, y) == g,
    decreases g.len() - y,
{
    if y < g.len() {
        lemma_clear_from_no_full(g, y + 1);
    }
}

/// With a single full row `y`, clearing moves every row above it down by
/// exactly one index and leaves the rows below it in place.
pub proof fn lemma_clear_single_row_shifts(g: Seq<Seq<usize>>, y: int)
    requires
        0 <= y < g.len(),
        row_full(g[y]),
        forall|k: int| 0 <= k < g.len() && k != y ==> !row_full(#[trigger] g[k]),
    ensures
        forall|k: int| 0 <= k < y ==> #[trigger] clear_from(g, 0)[k + 1] == g[k],
        forall|k: int| y < k < g.len() ==> #[trigger] clear_from(g, 0)[k] == g[k],
{
    lemma_clear_prefix_untouched(g, 0, y);
    let c = collapse(g, y);
    assert forall|k: int| y + 1 <= k < c.len() implies !row_full(#[trigger] c[k]) by {
        assert(c[k] == g[k]);
    }
    lemma_clear_from_no_full(c, y + 1);
}

/// Scanning rows `j` up to `y` that are not full changes nothing.
proof fn lemma_clear_prefix_untouched(g: Seq<Seq<usize>>, j: int, y: int)
    requires
        0 <= j <= y < g.len(),
        forall|k: int| j <= k < y ==> !row_full(#[trigger] g[k]),
    ensures
        clear_from(g, j) == clear_from(g, y),
    decreases y - j,
{
    if j < y {
        lemma_clear_prefix_untouched(g, j + 1, y);
    }
}

} // verus!
