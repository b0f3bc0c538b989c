//! Merging the wall cells of a level into rectangles, each of which becomes
//! one occluder.
use vstd::prelude::*;
use vstd::arithmetic::div_mod::{
    lemma_fundamental_div_mod, lemma_fundamental_div_mod_converse, lemma_mod_bound,
};
use crate::grid::{GridPos, TileValue, WorldPoint, MAX_CELLS, MAX_TILE_SIZE};

verus! {

/// A rectangle of wall cells, from `top_left` to `bottom_right`, both
/// included.
#[derive(Clone, Copy, Debug, PartialEq, Eq, Structural)]
pub struct Wall {
    pub top_left: GridPos,
    pub bottom_right: GridPos,
}

/// Index of cell `(x, y)` in a row-after-row grid of width `w`.
pub open spec fn cell_index(x: int, y: int, w: int) -> int {
    x + y * w
}

/// Number of consecutive `true` cells from `(x, y)` along +x.
pub open spec fn run_x(t: Seq<bool>, w: int, x: int, y: int) -> nat
    decreases w - x,
{
    if x < 0 || x >= w || !t[cell_index(x, y, w)] {
        0
    } else {
        1 + run_x(t, w, x + 1, y)
    }
}

/// Number of consecutive `true` cells from `(x, y)` along +y.
pub open spec fn run_y(t: Seq<bool>, w: int, h: int, x: int, y: int) -> nat
    decreases h - y,
{
    if y < 0 || y >= h || !t[cell_index(x, y, w)] {
        0
    } else {
        1 + run_y(t, w, h, x, y + 1)
    }
}

impl Wall {
    /// The wall holds cell `(x, y)`.
    pub open spec fn covers(self, x: int, y: int) -> bool {
        self.top_left.x <= x <= self.bottom_right.x && self.top_left.y <= y <= self.bottom_right.y
    }

    /// The centre of the wall's two corner cells scaled by `tile_size`.
    pub fn get_center(&self, tile_size: i64) -> (r: WorldPoint)
        requires
            0 <= self.top_left.x <= MAX_CELLS,
            0 <= self.top_left.y <= MAX_CELLS,
            0 <= self.bottom_right.x <= MAX_CELLS,
            0 <= self.bottom_right.y <= MAX_CELLS,
            0 <= tile_size <= MAX_TILE_SIZE,
        ensures
            r.x == (self.top_left.x + self.bottom_right.x) * tile_size / 2,
            r.y == (self.top_left.y + self.bottom_right.y) * tile_size / 2,
    {
        proof {
            let sx = self.top_left.x + self.bottom_right.x;
            let sy = self.top_left.y + self.bottom_right.y;
            assert(0 <= sx * tile_size <= 2 * MAX_CELLS * MAX_TILE_SIZE) by (nonlinear_arith)
                requires 0 <= sx <= 2 * MAX_CELLS, 0 <= tile_size <= MAX_TILE_SIZE;
            assert(0 <= sy * tile_size <= 2 * MAX_CELLS * MAX_TILE_SIZE) by (nonlinear_arith)
                requires 0 <= sy <= 2 * MAX_CELLS, 0 <= tile_size <= MAX_TILE_SIZE;
        }
        WorldPoint {
            x: (self.top_left.x + self.bottom_right.x) * tile_size / 2,
            y: (self.top_left.y + self.bottom_right.y) * tile_size / 2,
        }
    }

    /// The distance between the wall's two corner cells, scaled by
    /// `tile_size`, along each axis.
    pub fn get_size(&self, tile_size: i64) -> (r: WorldPoint)
        requires
            0 <= self.top_left.x <= MAX_CELLS,
            0 <= self.top_left.y <= MAX_CELLS,
            0 <= self.bottom_right.x <= MAX_CELLS,
            0 <= self.bottom_right.y <= MAX_CELLS,
            0 <= tile_size <= MAX_TILE_SIZE,
        ensures
            r.x == (if self.top_left.x >= self.bottom_right.x {
                self.top_left.x - self.bottom_right.x
            } else {
                self.bottom_right.x - self.top_left.x
            }) * tile_size,
            r.y == (if self.top_left.y >= self.bottom_right.y {
                self.top_left.y - self.bottom_right.y
            } else {
                self.bottom_right.y - self.top_left.y
            }) * tile_size,
    {
        let dx = if self.top_left.x >= self.bottom_right.x {
            self.top_left.x - self.bottom_right.x
        } else {
            self.bottom_right.x - self.top_left.x
        };
        let dy = if self.top_left.y >= self.bottom_right.y {
            self.top_left.y - self.bottom_right.y
        } else {
            self.bottom_right.y - self.top_left.y
        };
        proof {
            assert(0 <= dx * tile_size <= MAX_CELLS * MAX_TILE_SIZE) by (nonlinear_arith)
                requires 0 <= dx <= MAX_CELLS, 0 <= tile_size <= MAX_TILE_SIZE;
            assert(0 <= dy * tile_size <= MAX_CELLS * MAX_TILE_SIZE) by (nonlinear_arith)
                requires 0 <= dy <= MAX_CELLS, 0 <= tile_size <= MAX_TILE_SIZE;
        }
        WorldPoint { x: dx * tile_size, y: dy * tile_size }
    }
}

/// A grid of `w` by `h` cells within the size bound.
pub open spec fn dims_ok(w: int, h: int) -> bool {
    0 <= w <= MAX_CELLS && 0 <= h <= MAX_CELLS && w * h <= MAX_CELLS
}

/// Row `y` starts at `y * w`, and the whole row lies within the grid.
proof fn lemma_row_start(w: int, h: int, y: int)
    requires
        0 <= y < h,
        dims_ok(w, h),
    ensures
        0 <= y * w,
        y * w + w <= w * h,
{
    assert(0 <= y * w && y * w + w <= w * h) by (nonlinear_arith)
        requires 0 <= y < h, 0 <= w;
}

/// Length of the run of wall cells from `start` along +x.
pub fn count_wall_continues_x(tiles: &Vec<bool>, width: usize, height: usize, start: &GridPos) -> (r: usize)
    requires
        tiles@.len() == width * height,
        dims_ok(width as int, height as int),
        0 <= start.x < width,
        0 <= start.y < height,
    ensures
        r == run_x(tiles@, width as int, start.x as int, start.y as int),
        start.x + r <= width,
{
    let y = start.y as usize;
    let mut x = start.x as usize;
    let mut cur_length: usize = 0;
    proof {
        lemma_row_start(width as int, height as int, y as int);
    }
    let row = y * width;
    while x < width && tiles[row + x]
        invariant
            tiles@.len() == width * height,
            row == y * width,
            row + width <= width * height,
            dims_ok(width as int, height as int),
            x == start.x + cur_length,
            x <= width,
            y == start.y,
            run_x(tiles@, width as int, start.x as int, start.y as int) == cur_length + run_x(
                tiles@,
                width as int,
                x as int,
                y as int,
            ),
        decreases width - x,
    {
        x = x + 1;
        cur_length = cur_length + 1;
    }
    cur_length
}

/// Length of the run of wall cells from `start` along +y.
pub fn count_wall_continues_y(tiles: &Vec<bool>, width: usize, height: usize, start: &GridPos) -> (r: usize)
    requires
        tiles@.len() == width * height,
        dims_ok(width as int, height as int),
        0 <= start.x < width,
        0 <= start.y < height,
    ensures
        r == run_y(tiles@, width as int, height as int, start.x as int, start.y as int),
        start.y + r <= height,
{
    let x = start.x as usize;
    let mut y = start.y as usize;
    let mut cur_length: usize = 0;
    loop
        invariant
            tiles@.len() == width * height,
            dims_ok(width as int, height as int),
            0 <= x < width,
            y == start.y + cur_length,
            y <= height,
            x == start.x,
            run_y(tiles@, width as int, height as int, start.x as int, start.y as int) == cur_length
                + run_y(tiles@, width as int, height as int, x as int, y as int),
        ensures
            run_y(tiles@, width as int, height as int, start.x as int, start.y as int)
                == cur_length,
            y <= height,
            y == start.y + cur_length,
        decreases height - y,
    {
        if y >= height {
            break;
        }
        proof {
            lemma_row_start(width as int, height as int, y as int);
        }
        if !tiles[x + y * width] {
            break;
        }
        y = y + 1;
        cur_length = cur_length + 1;
    }
    cur_length
}

/// Cells `x .. x + len` of row `y` are all `true`.
pub open spec fn row_full(t: Seq<bool>, w: int, x: int, y: int, len: int) -> bool {
    forall|i: int| 0 <= i < len ==> #[trigger] t[cell_index(x + i, y, w)]
}

/// Cells `y .. y + len` of column `x` are all `true`.
pub open spec fn col_full(t: Seq<bool>, w: int, x: int, y: int, len: int) -> bool {
    forall|j: int| 0 <= j < len ==> #[trigger] t[cell_index(x, y + j, w)]
}

/// Number of consecutive rows from `y` on whose cells `x .. x + len` are all
/// `true`.
pub open spec fn rows_down(t: Seq<bool>, w: int, h: int, x: int, y: int, len: int) -> nat
    decreases h - y,
{
    if y < 0 || y >= h || !row_full(t, w, x, y, len) {
        0
    } else {
        1 + rows_down(t, w, h, x, y + 1, len)
    }
}

/// Number of consecutive columns from `x` on whose cells `y .. y + len` are
/// all `true`.
pub open spec fn cols_right(t: Seq<bool>, w: int, x: int, y: int, len: int) -> nat
    decreases w - x,
{
    if x < 0 || x >= w || !col_full(t, w, x, y, len) {
        0
    } else {
        1 + cols_right(t, w, x + 1, y, len)
    }
}

/// The wall that greedy merging takes at `root`: the longer of the runs along
/// +x and +y (+x on a tie), widened across the other axis for as long as the
/// next row, or column, of that run is all free wall cells.
pub open spec fn longest_wall(t: Seq<bool>, w: int, h: int, root: GridPos) -> Wall {
    let x = root.x as int;
    let y = root.y as int;
    let lx = run_x(t, w, x, y);
    let ly = run_y(t, w, h, x, y);
    if lx >= ly {
        Wall {
            top_left: root,
            bottom_right: GridPos {
                x: (x + lx - 1) as i64,
                y: (y + rows_down(t, w, h, x, y, lx as int) - 1) as i64,
            },
        }
    } else {
        Wall {
            top_left: root,
            bottom_right: GridPos {
                x: (x + cols_right(t, w, x, y, ly as int) - 1) as i64,
                y: (y + ly - 1) as i64,
            },
        }
    }
}

/// `t` with the cells of `wall` marked as taken.
pub open spec fn clear_wall(t: Seq<bool>, w: int, wall: Wall) -> Seq<bool> {
    Seq::new(t.len(), |j: int| t[j] && !wall.covers(j % w, j / w))
}

/// The cell at index `j` of a grid of width `w` is `(j % w, j / w)`, and the
/// cell `(x, y)` has index `x + y * w`.
proof fn lemma_cell_of_index(w: int, h: int, x: int, y: int)
    requires
        0 <= x < w,
        0 <= y < h,
    ensures
        cell_index(x, y, w) % w == x,
        cell_index(x, y, w) / w == y,
        0 <= cell_index(x, y, w) < w * h,
{
    lemma_fundamental_div_mod_converse(x + y * w, w, y, x);
    assert(0 <= x + y * w < w * h) by (nonlinear_arith)
        requires 0 <= x < w, 0 <= y < h;
}

/// Whether cells `x .. x + len` of row `y` are all `true`.
fn row_is_full(tiles: &Vec<bool>, width: usize, height: usize, x: usize, y: usize, len: usize) -> (r: bool)
    requires
        tiles@.len() == width * height,
        dims_ok(width as int, height as int),
        x + len <= width,
        y < height,
    ensures
        r == row_full(tiles@, width as int, x as int, y as int, len as int),
{
    proof {
        lemma_row_start(width as int, height as int, y as int);
    }
    let row = y * width;
    let mut i: usize = 0;
    while i < len
        invariant
            tiles@.len() == width * height,
            row == y * width,
            row + width <= width * height,
            dims_ok(width as int, height as int),
            x + len <= width,
            i <= len,
            forall|k: int| 0 <= k < i ==> #[trigger] tiles@[cell_index(x + k, y as int, width as int)],
        decreases len - i,
    {
        if !tiles[row + x + i] {
            assert(tiles@[cell_index(x + i, y as int, width as int)] == tiles@[row + x + i]);
            return false;
        }
        i = i + 1;
    }
    true
}

/// Whether cells `y .. y + len` of column `x` are all `true`.
fn col_is_full(tiles: &Vec<bool>, width: usize, height: usize, x: usize, y: usize, len: usize) -> (r: bool)
    requires
        tiles@.len() == width * height,
        dims_ok(width as int, height as int),
        x < width,
        y + len <= height,
    ensures
        r == col_full(tiles@, width as int, x as int, y as int, len as int),
{
    let mut j: usize = 0;
    while j < len
        invariant
            tiles@.len() == width * height,
            dims_ok(width as int, height as int),
            x < width,
            y + len <= height,
            j <= len,
            forall|k: int| 0 <= k < j ==> #[trigger] tiles@[cell_index(x as int, y + k, width as int)],
        decreases len - j,
    {
        proof {
            lemma_row_start(width as int, height as int, (y + j) as int);
        }
        if !tiles[x + (y + j) * width] {
            assert(tiles@[cell_index(x as int, y + j, width as int)] == tiles@[x + (y + j) * width]);
            return false;
        }
        j = j + 1;
    }
    true
}

/// How many rows from `y` on have cells `x .. x + len` all `true`.
fn count_rows_down(tiles: &Vec<bool>, width: usize, height: usize, x: usize, y: usize, len: usize) -> (r: usize)
    requires
        tiles@.len() == width * height,
        dims_ok(width as int, height as int),
        x + len <= width,
        y <= height,
    ensures
        r == rows_down(tiles@, width as int, height as int, x as int, y as int, len as int),
        y + r <= height,
{
    let mut k: usize = 0;
    loop
        invariant
            tiles@.len() == width * height,
            dims_ok(width as int, height as int),
            x + len <= width,
            y + k <= height,
            rows_down(tiles@, width as int, height as int, x as int, y as int, len as int) == k
                + rows_down(tiles@, width as int, height as int, x as int, y + k, len as int),
        ensures
            rows_down(tiles@, width as int, height as int, x as int, y as int, len as int) == k,
            y + k <= height,
        decreases height - y - k,
    {
        if y + k >= height {
            break;
        }
        if !row_is_full(tiles, width, height, x, y + k, len) {
            break;
        }
        k = k + 1;
    }
    k
}

/// How many columns from `x` on have cells `y .. y + len` all `true`.
fn count_cols_right(tiles: &Vec<bool>, width: usize, height: usize, x: usize, y: usize, len: usize) -> (r: usize)
    requires
        tiles@.len() == width * height,
        dims_ok(width as int, height as int),
        x <= width,
        y + len <= height,
    ensures
        r == cols_right(tiles@, width as int, x as int, y as int, len as int),
        x + r <= width,
{
    let mut k: usize = 0;
    loop
        invariant
            tiles@.len() == width * height,
            dims_ok(width as int, height as int),
            y + len <= height,
            x + k <= width,
            cols_right(tiles@, width as int, x as int, y as int, len as int) == k + cols_right(
                tiles@,
                width as int,
                x + k,
                y as int,
                len as int,
            ),
        ensures
            cols_right(tiles@, width as int, x as int, y as int, len as int) == k,
            x + k <= width,
        decreases width - x - k,
    {
        if x + k >= width {
            break;
        }
        if !col_is_full(tiles, width, height, x + k, y, len) {
            break;
        }
        k = k + 1;
    }
    k
}

/// Marks cells `from .. to` of row `y` as taken, one at a time.
fn clear_row_run(tiles: &mut Vec<bool>, width: usize, height: usize, y: usize, from: usize, to: usize)
    requires
        old(tiles)@.len() == width * height,
        dims_ok(width as int, height as int),
        y < height,
        from <= to <= width,
    ensures
        final(tiles)@ == Seq::new(
            old(tiles)@.len(),
            |j: int| old(tiles)@[j] && !(j / (width as int) == y && from <= j % (width as int) < to),
        ),
{
    let ghost t0 = tiles@;
    let mut x = from;
    proof {
        lemma_row_start(width as int, height as int, y as int);
    }
    assert(tiles@ =~= Seq::new(
        t0.len(),
        |j: int| t0[j] && !(j / (width as int) == y && from <= j % (width as int) < from),
    ));
    while x < to
        invariant
            from <= x <= to <= width,
            y < height,
            dims_ok(width as int, height as int),
            t0.len() == width * height,
            y * width + width <= width * height,
            tiles@ == Seq::new(
                t0.len(),
                |j: int| t0[j] && !(j / (width as int) == y && from <= j % (width as int) < x),
            ),
        decreases to - x,
    {
        tiles.set(x + y * width, false);
        proof {
            lemma_cell_of_index(width as int, height as int, x as int, y as int);
            assert forall|j: int| 0 <= j < t0.len() implies #[trigger] tiles@[j] == (t0[j] && !(j
                / (width as int) == y && from <= j % (width as int) < x + 1)) by {
                lemma_fundamental_div_mod(j, width as int);
                let w = width as int;
                if j / w == y && j % w == x {
                    assert(j == w * (y as int) + x);
                    assert(j == x + y * width) by (nonlinear_arith)
                        requires j == w * (y as int) + x, w == width;
                }
            }
        }
        x = x + 1;
        assert(tiles@ =~= Seq::new(
            t0.len(),
            |j: int| t0[j] && !(j / (width as int) == y && from <= j % (width as int) < x),
        ));
    }
}

/// Marks the cells of columns `x0 .. x1` in rows `y0 .. y1` as taken.
fn clear_rect(tiles: &mut Vec<bool>, width: usize, height: usize, x0: usize, x1: usize, y0: usize, y1: usize)
    requires
        old(tiles)@.len() == width * height,
        dims_ok(width as int, height as int),
        x0 <= x1 <= width,
        y0 <= y1 <= height,
    ensures
        final(tiles)@ == Seq::new(
            old(tiles)@.len(),
            |j: int|
                old(tiles)@[j] && !(y0 <= j / (width as int) < y1 && x0 <= j % (width as int) < x1),
        ),
{
    let ghost t0 = tiles@;
    let mut y = y0;
    assert(tiles@ =~= Seq::new(
        t0.len(),
        |j: int| t0[j] && !(y0 <= j / (width as int) < y0 && x0 <= j % (width as int) < x1),
    ));
    while y < y1
        invariant
            y0 <= y <= y1 <= height,
            x0 <= x1 <= width,
            dims_ok(width as int, height as int),
            t0.len() == width * height,
            tiles@ == Seq::new(
                t0.len(),
                |j: int| t0[j] && !(y0 <= j / (width as int) < y && x0 <= j % (width as int) < x1),
            ),
        decreases y1 - y,
    {
        clear_row_run(tiles, width, height, y, x0, x1);
        y = y + 1;
        assert(tiles@ =~= Seq::new(
            t0.len(),
            |j: int| t0[j] && !(y0 <= j / (width as int) < y && x0 <= j % (width as int) < x1),
        ));
    }
}

/// Takes the wall at `root`: the longer run of wall cells along +x or +y
/// (+x on a tie), widened across the other axis while the next row, or
/// column, of that run is all free wall cells. Marks its cells as taken and
/// returns it.
pub fn take_longest_wall(tiles: &mut Vec<bool>, width: usize, height: usize, root: &GridPos) -> (r: Wall)
    requires
        old(tiles)@.len() == width * height,
        dims_ok(width as int, height as int),
        0 <= root.x < width,
        0 <= root.y < height,
    ensures
        r == longest_wall(old(tiles)@, width as int, height as int, *root),
        final(tiles)@ == clear_wall(old(tiles)@, width as int, r),
{
    let x_wall_length = count_wall_continues_x(tiles, width, height, root);
    let y_wall_length = count_wall_continues_y(tiles, width, height, root);
    let ghost t0 = tiles@;
    let x0 = root.x as usize;
    let y0 = root.y as usize;
    if x_wall_length >= y_wall_length {
        let rows = count_rows_down(tiles, width, height, x0, y0, x_wall_length);
        clear_rect(tiles, width, height, x0, x0 + x_wall_length, y0, y0 + rows);
        let r = Wall {
            top_left: *root,
            bottom_right: GridPos { x: root.x + x_wall_length as i64 - 1, y: root.y + rows as i64 - 1 },
        };
        assert(tiles@ =~= clear_wall(t0, width as int, r));
        r
    } else {
        let cols = count_cols_right(tiles, width, height, x0, y0, y_wall_length);
        clear_rect(tiles, width, height, x0, x0 + cols, y0, y0 + y_wall_length);
        let r = Wall {
            top_left: *root,
            bottom_right: GridPos { x: root.x + cols as i64 - 1, y: root.y + y_wall_length as i64 - 1 },
        };
        assert(tiles@ =~= clear_wall(t0, width as int, r));
        r
    }
}

/// Which cells of `tiles` are walls.
pub open spec fn wall_mask(tiles: Seq<TileValue>) -> Seq<bool> {
    tiles.map_values(|t: TileValue| t == TileValue::Wall)
}

/// Greedy merging after visiting the first `n` cells, row after row, each
/// row from its first column: the cells not yet taken, and the walls taken
/// so far.
pub open spec fn decompose(t0: Seq<bool>, w: int, h: int, n: int) -> (Seq<bool>, Seq<Wall>)
    decreases n,
{
    if n <= 0 {
        (t0, seq![])
    } else {
        let (t, ws) = decompose(t0, w, h, n - 1);
        let x = (n - 1) % w;
        let y = (n - 1) / w;
        if t[cell_index(x, y, w)] {
            let wl = longest_wall(t, w, h, GridPos { x: x as i64, y: y as i64 });
            (clear_wall(t, w, wl), ws.push(wl))
        } else {
            (t, ws)
        }
    }
}

/// Merges the wall cells of a `width` by `height` grid into rectangles:
/// visiting the cells row after row, each cell not yet taken starts a wall as
/// `take_longest_wall` builds it.
pub fn tile_vector_to_wall_set(tiles: &Vec<TileValue>, width: usize, height: usize) -> (r: Vec<Wall>)
    requires
        tiles@.len() == width * height,
        dims_ok(width as int, height as int),
    ensures
        r@ == decompose(wall_mask(tiles@), width as int, height as int, width * height).1,
        exact_cover(wall_mask(tiles@), width as int, height as int, r@),
{
    let mut remaining_wall_tiles: Vec<bool> = Vec::new();
    let mut walls: Vec<Wall> = Vec::new();
    let mut i: usize = 0;
    while i < tiles.len()
        invariant
            0 <= i <= tiles@.len(),
            remaining_wall_tiles@ == wall_mask(tiles@).take(i as int),
        decreases tiles@.len() - i,
    {
        remaining_wall_tiles.push(tiles[i] == TileValue::Wall);
        assert(wall_mask(tiles@).take(i + 1) =~= wall_mask(tiles@).take(i as int).push(
            wall_mask(tiles@)[i as int],
        ));
        i = i + 1;
    }
    assert(remaining_wall_tiles@ =~= wall_mask(tiles@));
    let ghost t0 = remaining_wall_tiles@;
    let mut y: usize = 0;
    while y < height
        invariant
            y <= height,
            dims_ok(width as int, height as int),
            t0.len() == width * height,
            t0 == wall_mask(tiles@),
            (remaining_wall_tiles@, walls@) == decompose(t0, width as int, height as int, y * width),
        decreases height - y,
    {
        let mut x: usize = 0;
        while x < width
            invariant
                y < height,
                x <= width,
                dims_ok(width as int, height as int),
                t0.len() == width * height,
                (remaining_wall_tiles@, walls@) == decompose(
                    t0,
                    width as int,
                    height as int,
                    y * width + x,
                ),
            decreases width - x,
        {
            let ghost n = y * width + x;
            proof {
                lemma_fundamental_div_mod_converse(n, width as int, y as int, x as int);
                lemma_row_start(width as int, height as int, y as int);
                lemma_cell_of_index(width as int, height as int, x as int, y as int);
                lemma_decompose_len(t0, width as int, height as int, n);
            }
            let index = x + y * width;
            if remaining_wall_tiles[index] {
                let wall = take_longest_wall(
                    &mut remaining_wall_tiles,
                    width,
                    height,
                    &GridPos { x: x as i64, y: y as i64 },
                );
                walls.push(wall);
            }
            x = x + 1;
        }
        proof {
            assert((y + 1) * width == y * width + width) by (nonlinear_arith);
        }
        y = y + 1;
    }
    proof {
        assert(height * width == width * height) by (nonlinear_arith);
        lemma_wall_set_exact_cover(tiles@, width as int, height as int);
    }
    walls
}

proof fn lemma_decompose_len(t0: Seq<bool>, w: int, h: int, n: int)
    ensures
        decompose(t0, w, h, n).0.len() == t0.len(),
    decreases n,
{
    if n > 0 {
        lemma_decompose_len(t0, w, h, n - 1);
    }
}

/// A wall is a non-empty rectangle inside the grid.
pub open spec fn is_rect(wl: Wall, w: int, h: int) -> bool {
    &&& 0 <= wl.top_left.x <= wl.bottom_right.x < w
    &&& 0 <= wl.top_left.y <= wl.bottom_right.y < h
}

/// `ws` covers exactly the `true` cells of `t0`, each by one wall, and every
/// wall is a rectangle inside the grid.
pub open spec fn exact_cover(t0: Seq<bool>, w: int, h: int, ws: Seq<Wall>) -> bool {
    &&& forall|k: int| 0 <= k < ws.len() ==> is_rect(#[trigger] ws[k], w, h)
    &&& forall|k: int, a: int, b: int|
        0 <= k < ws.len() && #[trigger] ws[k].covers(a, b) ==> t0[cell_index(a, b, w)]
    &&& forall|k1: int, k2: int, a: int, b: int|
        0 <= k1 < ws.len() && 0 <= k2 < ws.len() && #[trigger] ws[k1].covers(a, b)
            && #[trigger] ws[k2].covers(a, b) ==> k1 == k2
    &&& forall|a: int, b: int|
        0 <= a < w && 0 <= b < h && #[trigger] t0[cell_index(a, b, w)] ==> exists|k: int|
            0 <= k < ws.len() && #[trigger] ws[k].covers(a, b)
}

/// What holds of greedy merging after each visited cell.
spec fn decompose_inv(t0: Seq<bool>, w: int, h: int, t: Seq<bool>, ws: Seq<Wall>, n: int) -> bool {
    &&& t.len() == t0.len()
    &&& forall|k: int| 0 <= k < ws.len() ==> is_rect(#[trigger] ws[k], w, h)
    &&& forall|k: int, a: int, b: int|
        0 <= k < ws.len() && #[trigger] ws[k].covers(a, b) ==> t0[cell_index(a, b, w)] && !t[cell_index(a, b, w)]
    &&& forall|k1: int, k2: int, a: int, b: int|
        0 <= k1 < ws.len() && 0 <= k2 < ws.len() && #[trigger] ws[k1].covers(a, b)
            && #[trigger] ws[k2].covers(a, b) ==> k1 == k2
    &&& forall|a: int, b: int|
        0 <= a < w && 0 <= b < h && #[trigger] t0[cell_index(a, b, w)] && !t[cell_index(a, b, w)]
            ==> exists|k: int| 0 <= k < ws.len() && #[trigger] ws[k].covers(a, b)
    &&& forall|a: int, b: int|
        0 <= a < w && 0 <= b < h && #[trigger] t[cell_index(a, b, w)] ==> t0[cell_index(a, b, w)]
    &&& forall|a: int, b: int|
        0 <= a < w && 0 <= b < h && cell_index(a, b, w) < n ==> !#[trigger] t[cell_index(a, b, w)]
}

proof fn lemma_run_x_cells(t: Seq<bool>, w: int, x: int, y: int)
    requires
        0 <= x,
    ensures
        x + run_x(t, w, x, y) <= w || run_x(t, w, x, y) == 0,
        forall|i: int| 0 <= i < run_x(t, w, x, y) ==> x + i < w && #[trigger] t[cell_index(x + i, y, w)],
    decreases w - x,
{
    if x < w && t[cell_index(x, y, w)] {
        lemma_run_x_cells(t, w, x + 1, y);
        assert forall|i: int| 0 <= i < run_x(t, w, x, y) implies x + i < w && #[trigger] t[cell_index(
            x + i,
            y,
            w,
        )] by {
            if i > 0 {
                assert(t[cell_index(x + 1 + (i - 1), y, w)]);
            }
        }
    }
}

proof fn lemma_run_y_cells(t: Seq<bool>, w: int, h: int, x: int, y: int)
    requires
        0 <= y,
    ensures
        y + run_y(t, w, h, x, y) <= h || run_y(t, w, h, x, y) == 0,
        forall|i: int| 0 <= i < run_y(t, w, h, x, y) ==> y + i < h && #[trigger] t[cell_index(x, y + i, w)],
    decreases h - y,
{
    if y < h && t[cell_index(x, y, w)] {
        lemma_run_y_cells(t, w, h, x, y + 1);
        assert forall|i: int| 0 <= i < run_y(t, w, h, x, y) implies y + i < h && #[trigger] t[cell_index(
            x,
            y + i,
            w,
        )] by {
            if i > 0 {
                assert(t[cell_index(x, y + 1 + (i - 1), w)]);
            }
        }
    }
}

proof fn lemma_rows_down(t: Seq<bool>, w: int, h: int, x: int, y: int, len: int)
    requires
        0 <= y,
    ensures
        y + rows_down(t, w, h, x, y, len) <= h || rows_down(t, w, h, x, y, len) == 0,
        forall|k: int|
            0 <= k < rows_down(t, w, h, x, y, len) ==> y + k < h && #[trigger] row_full(
                t,
                w,
                x,
                y + k,
                len,
            ),
    decreases h - y,
{
    if y < h && row_full(t, w, x, y, len) {
        lemma_rows_down(t, w, h, x, y + 1, len);
        assert forall|k: int| 0 <= k < rows_down(t, w, h, x, y, len) implies y + k < h
            && #[trigger] row_full(t, w, x, y + k, len) by {
            if k > 0 {
                assert(row_full(t, w, x, y + 1 + (k - 1), len));
            }
        }
    }
}

proof fn lemma_cols_right(t: Seq<bool>, w: int, x: int, y: int, len: int)
    requires
        0 <= x,
    ensures
        x + cols_right(t, w, x, y, len) <= w || cols_right(t, w, x, y, len) == 0,
        forall|k: int|
            0 <= k < cols_right(t, w, x, y, len) ==> x + k < w && #[trigger] col_full(
                t,
                w,
                x + k,
                y,
                len,
            ),
    decreases w - x,
{
    if x < w && col_full(t, w, x, y, len) {
        lemma_cols_right(t, w, x + 1, y, len);
        assert forall|k: int| 0 <= k < cols_right(t, w, x, y, len) implies x + k < w
            && #[trigger] col_full(t, w, x + k, y, len) by {
            if k > 0 {
                assert(col_full(t, w, x + 1 + (k - 1), y, len));
            }
        }
    }
}

/// The wall taken at a free cell holds that cell, is a rectangle inside the
/// grid, and holds only free cells.
proof fn lemma_longest_wall(t: Seq<bool>, w: int, h: int, root: GridPos)
    requires
        0 <= root.x < w <= MAX_CELLS,
        0 <= root.y < h <= MAX_CELLS,
        t[cell_index(root.x as int, root.y as int, w)],
    ensures
        is_rect(longest_wall(t, w, h, root), w, h),
        longest_wall(t, w, h, root).covers(root.x as int, root.y as int),
        forall|a: int, b: int| #[trigger]
            longest_wall(t, w, h, root).covers(a, b) ==> t[cell_index(a, b, w)],
{
    let x = root.x as int;
    let y = root.y as int;
    lemma_run_x_cells(t, w, x, y);
    lemma_run_y_cells(t, w, h, x, y);
    let lx = run_x(t, w, x, y) as int;
    let ly = run_y(t, w, h, x, y) as int;
    assert(lx >= 1);
    assert(ly >= 1);
    let wl = longest_wall(t, w, h, root);
    if lx >= ly {
        lemma_rows_down(t, w, h, x, y, lx);
        assert(row_full(t, w, x, y + 0, lx)) by {
            assert forall|i: int| 0 <= i < lx implies #[trigger] t[cell_index(x + i, y + 0, w)] by {
                assert(t[cell_index(x + i, y, w)]);
            }
        }
        assert(rows_down(t, w, h, x, y, lx) >= 1);
        assert forall|a: int, b: int| #[trigger] wl.covers(a, b) implies t[cell_index(a, b, w)] by {
            assert(row_full(t, w, x, y + (b - y), lx));
            assert(t[cell_index(x + (a - x), y + (b - y), w)]);
        }
    } else {
        lemma_cols_right(t, w, x, y, ly);
        assert(col_full(t, w, x + 0, y, ly)) by {
            assert forall|j: int| 0 <= j < ly implies #[trigger] t[cell_index(x + 0, y + j, w)] by {
                assert(t[cell_index(x, y + j, w)]);
            }
        }
        assert(cols_right(t, w, x, y, ly) >= 1);
        assert forall|a: int, b: int| #[trigger] wl.covers(a, b) implies t[cell_index(a, b, w)] by {
            assert(col_full(t, w, x + (a - x), y, ly));
            assert(t[cell_index(x + (a - x), y + (b - y), w)]);
        }
    }
}

proof fn lemma_decompose_inv(t0: Seq<bool>, w: int, h: int, n: int)
    requires
        0 <= n <= w * h,
        t0.len() == w * h,
        dims_ok(w, h),
    ensures
        decompose_inv(t0, w, h, decompose(t0, w, h, n).0, decompose(t0, w, h, n).1, n),
    decreases n,
{
    if n > 0 {
        lemma_decompose_inv(t0, w, h, n - 1);
        let (t, ws) = decompose(t0, w, h, n - 1);
        assert(w > 0) by (nonlinear_arith)
            requires n > 0, n <= w * h, w >= 0, h >= 0;
        let x = (n - 1) % w;
        let y = (n - 1) / w;
        lemma_fundamental_div_mod(n - 1, w);
        lemma_mod_bound(n - 1, w);
        assert(0 <= y < h) by (nonlinear_arith)
            requires n - 1 == w * y + x, 0 <= x < w, n <= w * h, n >= 1, w > 0;
        lemma_cell_of_index(w, h, x, y);
        assert(cell_index(x, y, w) == n - 1) by (nonlinear_arith)
            requires n - 1 == w * y + x;
        assert forall|a: int, b: int|
            0 <= a < w && 0 <= b < h && cell_index(a, b, w) == n - 1 implies a == x && b == y by {
            lemma_cell_of_index(w, h, a, b);
        }
        if t[cell_index(x, y, w)] {
            let root = GridPos { x: x as i64, y: y as i64 };
            let wl = longest_wall(t, w, h, root);
            let t2 = clear_wall(t, w, wl);
            let ws2 = ws.push(wl);
            lemma_longest_wall(t, w, h, root);
            assert forall|a: int, b: int| 0 <= a < w && 0 <= b < h implies #[trigger] t2[cell_index(
                a,
                b,
                w,
            )] == (t[cell_index(a, b, w)] && !wl.covers(a, b)) by {
                lemma_cell_of_index(w, h, a, b);
            }
            assert forall|k: int, a: int, b: int|
                0 <= k < ws2.len() && #[trigger] ws2[k].covers(a, b) implies t0[cell_index(a, b, w)]
                && !t2[cell_index(a, b, w)] by {
                if k < ws.len() {
                    assert(ws[k].covers(a, b));
                } else {
                    assert(wl.covers(a, b));
                    assert(t[cell_index(a, b, w)]);
                }
                assert(is_rect(ws2[k], w, h));
                lemma_cell_of_index(w, h, a, b);
            }
            assert forall|k1: int, k2: int, a: int, b: int|
                0 <= k1 < ws2.len() && 0 <= k2 < ws2.len() && #[trigger] ws2[k1].covers(a, b)
                    && #[trigger] ws2[k2].covers(a, b) implies k1 == k2 by {
                if k1 < ws.len() && k2 < ws.len() {
                    assert(ws[k1].covers(a, b) && ws[k2].covers(a, b));
                } else if k1 < ws.len() {
                    assert(ws[k1].covers(a, b));
                    assert(!t[cell_index(a, b, w)]);
                    assert(wl.covers(a, b));
                } else if k2 < ws.len() {
                    assert(ws[k2].covers(a, b));
                    assert(!t[cell_index(a, b, w)]);
                    assert(wl.covers(a, b));
                }
            }
            assert forall|a: int, b: int|
                0 <= a < w && 0 <= b < h && #[trigger] t0[cell_index(a, b, w)] && !t2[cell_index(a, b, w)]
                    implies exists|k: int| 0 <= k < ws2.len() && #[trigger] ws2[k].covers(a, b) by {
                if t[cell_index(a, b, w)] {
                    assert(ws2[ws.len() as int].covers(a, b));
                } else {
                    let k = choose|k: int| 0 <= k < ws.len() && #[trigger] ws[k].covers(a, b);
                    assert(ws2[k].covers(a, b));
                }
            }
            assert forall|k: int| 0 <= k < ws2.len() implies is_rect(#[trigger] ws2[k], w, h) by {
                if k < ws.len() {
                    assert(is_rect(ws[k], w, h));
                }
            }
            assert forall|a: int, b: int|
                0 <= a < w && 0 <= b < h && cell_index(a, b, w) < n implies !#[trigger] t2[cell_index(
                a,
                b,
                w,
            )] by {
                if cell_index(a, b, w) < n - 1 {
                    assert(!t[cell_index(a, b, w)]);
                } else {
                    assert(wl.covers(a, b));
                }
            }
            assert(decompose_inv(t0, w, h, t2, ws2, n));
        }
    }
}

/// Greedy merging covers exactly the wall cells of the grid, each wall cell
/// by exactly one wall, and every wall it takes is a rectangle within the
/// grid.
pub proof fn lemma_wall_set_exact_cover(tiles: Seq<TileValue>, w: int, h: int)
    requires
        tiles.len() == w * h,
        dims_ok(w, h),
    ensures
        exact_cover(wall_mask(tiles), w, h, decompose(wall_mask(tiles), w, h, w * h).1),
{
    let t0 = wall_mask(tiles);
    lemma_decompose_inv(t0, w, h, w * h);
    let (t, ws) = decompose(t0, w, h, w * h);
    assert forall|a: int, b: int|
        0 <= a < w && 0 <= b < h && #[trigger] t0[cell_index(a, b, w)] implies exists|k: int|
        0 <= k < ws.len() && #[trigger] ws[k].covers(a, b) by {
        lemma_cell_of_index(w, h, a, b);
        assert(!t[cell_index(a, b, w)]);
    }
}

} // verus!
