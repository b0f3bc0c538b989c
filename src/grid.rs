//! The tile grid of a level: its cells, their contents, the text format it is
//! read from, and the conversion between grid cells and world positions.
use vstd::prelude::*;

verus! {

/// Largest number of cells of a level, and so also its largest width or
/// height. Path costs are `u32` and a route costs at most 3 per cell, so every
/// cost the search sums, with its estimate, stays below `u32::MAX`.
pub const MAX_CELLS: usize = 1073741824;

/// Largest tile size, in world units.
pub const MAX_TILE_SIZE: i64 = 65536;

/// Largest magnitude of a world coordinate.
pub const WORLD_LIMIT: i64 = 1099511627776;

/// Tile size that levels read from text get.
pub const DEFAULT_TILE_SIZE: i64 = 50;

/// What one cell of the grid holds.
#[derive(Clone, Copy, Debug, PartialEq, Eq, Structural)]
pub enum TileValue {
    Empty,
    Wall,
    Pickup,
    Player,
    Enemy,
}

/// A cell of the grid.
#[derive(Clone, Copy, Debug, PartialEq, Eq, Hash, PartialOrd, Ord, Structural)]
pub struct GridPos {
    pub x: i64,
    pub y: i64,
}

/// A point of the world, in world units.
#[derive(Clone, Copy, Debug, PartialEq, Eq, Structural)]
pub struct WorldPoint {
    pub x: i64,
    pub y: i64,
}

/// Squared distance between two world points.
pub open spec fn dist2(a: WorldPoint, b: WorldPoint) -> int {
    (a.x - b.x) * (a.x - b.x) + (a.y - b.y) * (a.y - b.y)
}

/// Largest magnitude of a coordinate that distances are taken between.
pub const COORD_BOUND: i64 = 2305843009213693952;

/// Squared distance between `a` and `b`.
pub fn distance_squared(a: WorldPoint, b: WorldPoint) -> (r: i128)
    requires
        a.bounded(),
        b.bounded(),
    ensures
        r == dist2(a, b),
{
    let dx = a.x as i128 - b.x as i128;
    let dy = a.y as i128 - b.y as i128;
    proof {
        assert(0 <= dx * dx <= 4 * COORD_BOUND * COORD_BOUND) by (nonlinear_arith)
            requires -2 * COORD_BOUND <= dx <= 2 * COORD_BOUND;
        assert(0 <= dy * dy <= 4 * COORD_BOUND * COORD_BOUND) by (nonlinear_arith)
            requires -2 * COORD_BOUND <= dy <= 2 * COORD_BOUND;
    }
    dx * dx + dy * dy
}

impl WorldPoint {
    /// Both coordinates lie within `COORD_BOUND` of the origin.
    pub open spec fn bounded(self) -> bool {
        -COORD_BOUND <= self.x <= COORD_BOUND && -COORD_BOUND <= self.y <= COORD_BOUND
    }

    /// Both coordinates lie within `WORLD_LIMIT` of the origin.
    pub open spec fn in_world(self) -> bool {
        -WORLD_LIMIT <= self.x <= WORLD_LIMIT && -WORLD_LIMIT <= self.y <= WORLD_LIMIT
    }
}

/// `x / d` rounded to the nearest integer, halves away from zero.
pub open spec fn round_div(x: int, d: int) -> int {
    if x >= 0 {
        (2 * x + d) / (2 * d)
    } else {
        -((-2 * x + d) / (2 * d))
    }
}

/// Nearest integer to `x / d`, halves away from zero.
fn round_div_exec(x: i64, d: i64) -> (r: i64)
    requires
        1 <= d <= MAX_TILE_SIZE,
        -WORLD_LIMIT <= x <= WORLD_LIMIT,
    ensures
        r == round_div(x as int, d as int),
        -WORLD_LIMIT <= r <= WORLD_LIMIT,
{
    if x >= 0 {
        let r = (2 * x + d) / (2 * d);
        assert((2 * x + d) / (2 * d) <= x) by (nonlinear_arith)
            requires x >= 0, d >= 1;
        r
    } else {
        let r = (-2 * x + d) / (2 * d);
        assert((-2 * x + d) / (2 * d) <= -x) by (nonlinear_arith)
            requires x < 0, d >= 1;
        -r
    }
}

/// A level: its size, its tile size and its cells, row after row.
pub struct LevelTiles {
    pub width: usize,
    pub height: usize,
    pub tile_size: i64,
    pub tiles: Vec<TileValue>,
    pub pickups_total: usize,
    pub next_level: Vec<u8>,
}

impl LevelTiles {
    /// One tile per cell, sizes within bounds.
    pub open spec fn wf(self) -> bool {
        &&& self.tiles@.len() == self.width * self.height
        &&& self.width <= MAX_CELLS
        &&& self.height <= MAX_CELLS
        &&& self.width * self.height <= MAX_CELLS
        &&& 1 <= self.tile_size <= MAX_TILE_SIZE
    }

    pub open spec fn in_bounds(self, p: GridPos) -> bool {
        0 <= p.x < self.width && 0 <= p.y < self.height
    }

    /// The tile at `p`; every cell outside the grid is a wall.
    pub open spec fn tile_spec(self, p: GridPos) -> TileValue {
        if self.in_bounds(p) {
            self.tiles@[p.x + p.y * self.width]
        } else {
            TileValue::Wall
        }
    }

    /// A cell that can be walked on.
    pub open spec fn open_cell(self, p: GridPos) -> bool {
        self.tile_spec(p) != TileValue::Wall
    }

    /// The cell whose centre is nearest to `p`.
    pub open spec fn world_to_grid_spec(self, p: WorldPoint) -> GridPos {
        GridPos {
            x: (round_div(p.x as int, self.tile_size as int) + self.width as int / 2) as i64,
            y: (round_div(p.y as int, self.tile_size as int) + self.height as int / 2) as i64,
        }
    }

    /// The centre of the cell `p`; the grid's middle cell sits at the origin.
    pub open spec fn grid_to_world_spec(self, p: GridPos) -> WorldPoint {
        WorldPoint {
            x: ((p.x - self.width as int / 2) * self.tile_size) as i64,
            y: ((p.y - self.height as int / 2) * self.tile_size) as i64,
        }
    }

    /// Cells near enough to the world for `grid_to_world`.
    pub open spec fn near_world(p: GridPos) -> bool {
        -2 * WORLD_LIMIT <= p.x <= 2 * WORLD_LIMIT && -2 * WORLD_LIMIT <= p.y <= 2 * WORLD_LIMIT
    }

    /// Cost of one step from `a` to `b`, 0 where there is no such step: 2 to
    /// an open orthogonal neighbour, 3 to an open diagonal neighbour whose two
    /// shared orthogonal neighbours are open too.
    pub open spec fn step_cost(self, a: GridPos, b: GridPos) -> nat {
        let dx = b.x - a.x;
        let dy = b.y - a.y;
        if !self.open_cell(b) {
            0
        } else if (dx == 0 && (dy == 1 || dy == -1)) || (dy == 0 && (dx == 1 || dx == -1)) {
            2
        } else if (dx == 1 || dx == -1) && (dy == 1 || dy == -1) && self.open_cell(
            GridPos { x: b.x, y: a.y },
        ) && self.open_cell(GridPos { x: a.x, y: b.y }) {
            3
        } else {
            0
        }
    }

    /// Position of the step from `a` to `b` in the order successors are
    /// listed: east, west, north, south, then the diagonals north-east,
    /// south-east, north-west, south-west; 8 for no neighbour.
    pub open spec fn dir_rank(a: GridPos, b: GridPos) -> int {
        let dx = b.x - a.x;
        let dy = b.y - a.y;
        if dx == 1 && dy == 0 {
            0
        } else if dx == -1 && dy == 0 {
            1
        } else if dx == 0 && dy == 1 {
            2
        } else if dx == 0 && dy == -1 {
            3
        } else if dx == 1 && dy == 1 {
            4
        } else if dx == 1 && dy == -1 {
            5
        } else if dx == -1 && dy == 1 {
            6
        } else if dx == -1 && dy == -1 {
            7
        } else {
            8
        }
    }

    /// A diagonal step never cuts a wall corner: where either of the two
    /// orthogonal cells it passes between is a wall, the diagonal cell is no
    /// successor, open or not.
    pub proof fn lemma_no_corner_cutting(self, a: GridPos, b: GridPos)
        requires
            b.x - a.x == 1 || b.x - a.x == -1,
            b.y - a.y == 1 || b.y - a.y == -1,
            !self.open_cell(GridPos { x: b.x, y: a.y }) || !self.open_cell(GridPos { x: a.x, y: b.y }),
        ensures
            self.step_cost(a, b) == 0,
    {
    }

    /// A sequence of cells, each one step from the one before.
    pub open spec fn is_walk(self, s: Seq<GridPos>) -> bool {
        &&& s.len() >= 1
        &&& forall|i: int| 0 <= i < s.len() - 1 ==> self.step_cost(#[trigger] s[i], s[i + 1]) > 0
    }

    /// Sum of the step costs along `s`.
    pub open spec fn walk_cost(self, s: Seq<GridPos>) -> nat
        decreases s.len(),
    {
        if s.len() <= 1 {
            0
        } else {
            self.walk_cost(s.drop_last()) + self.step_cost(s[s.len() - 2], s.last())
        }
    }

    /// A walk from `from` to `to`.
    pub open spec fn is_route(self, s: Seq<GridPos>, from: GridPos, to: GridPos) -> bool {
        self.is_walk(s) && s[0] == from && s.last() == to
    }

    /// A route from `from` to `to` that no other route undercuts.
    pub open spec fn is_shortest_route(self, s: Seq<GridPos>, from: GridPos, to: GridPos) -> bool {
        &&& self.is_route(s, from, to)
        &&& forall|q: Seq<GridPos>| #[trigger]
            self.is_route(q, from, to) ==> self.walk_cost(s) <= self.walk_cost(q)
    }

    /// Some route leads from `from` to `to`.
    pub open spec fn reachable(self, from: GridPos, to: GridPos) -> bool {
        exists|q: Seq<GridPos>| #[trigger] self.is_route(q, from, to)
    }

    /// Pushes `(pos_test, cost)` onto `successor_vec` if `pos_test` is open;
    /// tells whether it did.
    fn test_successor(&self, pos_test: &GridPos, successor_vec: &mut Vec<(GridPos, u32)>, cost: u32) -> (r: bool)
        requires
            self.wf(),
        ensures
            r == self.open_cell(*pos_test),
            final(successor_vec)@ == if r {
                old(successor_vec)@.push((*pos_test, cost))
            } else {
                old(successor_vec)@
            },
    {
        if self.get_tile(pos_test) != TileValue::Wall {
            successor_vec.push((*pos_test, cost));
            return true;
        }
        false
    }

    /// The cells one step from `pos`, each with the cost of that step.
    pub fn successors(&self, pos: &GridPos) -> (r: Vec<(GridPos, u32)>)
        requires
            self.wf(),
        ensures
            forall|i: int| 0 <= i < r@.len() ==> #[trigger] r@[i].1 > 0 && r@[i].1 as nat
                == self.step_cost(*pos, r@[i].0),
            forall|q: GridPos| #[trigger]
                self.step_cost(*pos, q) > 0 ==> exists|i: int| 0 <= i < r@.len() && r@[i].0 == q,
            forall|i: int, j: int| 0 <= i < j < r@.len() ==> #[trigger] r@[i].0 != #[trigger] r@[j].0,
    {
        let mut v: Vec<(GridPos, u32)> = Vec::new();
        let w = self.width as i64;
        let h = self.height as i64;
        if pos.x < -1 || pos.x > w || pos.y < -1 || pos.y > h {
            proof {
                assert forall|q: GridPos| #[trigger] self.step_cost(*pos, q) > 0 implies false by {
                    assert(self.open_cell(q));
                }
            }
            return v;
        }
        let x = pos.x;
        let y = pos.y;
        let ghost ie = v@.len();
        let east = self.test_successor(&GridPos { x: x + 1, y }, &mut v, 2);
        let ghost iw = v@.len();
        let west = self.test_successor(&GridPos { x: x - 1, y }, &mut v, 2);
        let ghost in_ = v@.len();
        let north = self.test_successor(&GridPos { x, y: y + 1 }, &mut v, 2);
        let ghost is = v@.len();
        let south = self.test_successor(&GridPos { x, y: y - 1 }, &mut v, 2);
        let ghost ine = v@.len();
        let ghost s4 = v@;
        if east && north {
            self.test_successor(&GridPos { x: x + 1, y: y + 1 }, &mut v, 3);
        }
        let ghost ise = v@.len();
        let ghost s5 = v@;
        if east && south {
            self.test_successor(&GridPos { x: x + 1, y: y - 1 }, &mut v, 3);
        }
        let ghost inw = v@.len();
        let ghost s6 = v@;
        if west && north {
            self.test_successor(&GridPos { x: x - 1, y: y + 1 }, &mut v, 3);
        }
        let ghost isw = v@.len();
        let ghost s7 = v@;
        if west && south {
            self.test_successor(&GridPos { x: x - 1, y: y - 1 }, &mut v, 3);
        }
        proof {
            assert forall|i: int, j: int| 0 <= i < j < v@.len() implies Self::dir_rank(*pos, v@[i].0)
                < Self::dir_rank(*pos, v@[j].0) by {
                assert(v@.len() <= 8);
            }
            assert(s4.len() <= s5.len() <= s6.len() <= s7.len() <= v@.len());
            assert(forall|k: int| 0 <= k < s4.len() ==> s5[k] == s4[k]);
            assert(forall|k: int| 0 <= k < s5.len() ==> s6[k] == s5[k]);
            assert(forall|k: int| 0 <= k < s6.len() ==> s7[k] == s6[k]);
            assert(forall|k: int| 0 <= k < s7.len() ==> v@[k] == s7[k]);
            assert forall|q: GridPos| #[trigger]
                self.step_cost(*pos, q) > 0 implies exists|i: int|
                0 <= i < v@.len() && v@[i].0 == q by {
                let dx = q.x - x;
                let dy = q.y - y;
                if dx == 1 && dy == 0 {
                    assert(v@[ie as int].0 == q);
                } else if dx == -1 && dy == 0 {
                    assert(v@[iw as int].0 == q);
                } else if dx == 0 && dy == 1 {
                    assert(v@[in_ as int].0 == q);
                } else if dx == 0 && dy == -1 {
                    assert(v@[is as int].0 == q);
                } else if dx == 1 && dy == 1 {
                    assert(v@[ine as int].0 == q);
                } else if dx == 1 && dy == -1 {
                    assert(v@[ise as int].0 == q);
                } else if dx == -1 && dy == 1 {
                    assert(v@[inw as int].0 == q);
                } else {
                    assert(v@[isw as int].0 == q);
                }
            }
        }
        v
    }

    /// The tile at `pos`; `Wall` outside the grid.
    pub fn get_tile(&self, pos: &GridPos) -> (r: TileValue)
        requires
            self.wf(),
        ensures
            r == self.tile_spec(*pos),
    {
        if pos.x < 0 || pos.y < 0 || pos.x >= self.width as i64 || pos.y >= self.height as i64 {
            return TileValue::Wall;
        }
        let x = pos.x as usize;
        let y = pos.y as usize;
        proof {
            assert(x + y * self.width < self.width * self.height) by (nonlinear_arith)
                requires x < self.width, y < self.height;
        }
        self.tiles[x + y * self.width]
    }

    /// The cell whose centre is nearest to `pos`.
    pub fn world_to_grid(&self, pos: WorldPoint) -> (r: GridPos)
        requires
            self.wf(),
            pos.in_world(),
        ensures
            r == self.world_to_grid_spec(pos),
            Self::near_world(r),
    {
        let gx = round_div_exec(pos.x, self.tile_size);
        let gy = round_div_exec(pos.y, self.tile_size);
        GridPos { x: gx + (self.width as i64) / 2, y: gy + (self.height as i64) / 2 }
    }

    /// The world position of the centre of cell `pos`.
    pub fn grid_to_world(&self, pos: GridPos) -> (r: WorldPoint)
        requires
            self.wf(),
            Self::near_world(pos),
        ensures
            r == self.grid_to_world_spec(pos),
            r.bounded(),
    {
        let dx = pos.x - (self.width as i64) / 2;
        let dy = pos.y - (self.height as i64) / 2;
        proof {
            let t = self.tile_size as int;
            assert(-8 * WORLD_LIMIT * MAX_TILE_SIZE <= dx * t <= 8 * WORLD_LIMIT * MAX_TILE_SIZE)
                by (nonlinear_arith)
                requires -4 * WORLD_LIMIT <= dx <= 4 * WORLD_LIMIT, 1 <= t <= MAX_TILE_SIZE;
            assert(-8 * WORLD_LIMIT * MAX_TILE_SIZE <= dy * t <= 8 * WORLD_LIMIT * MAX_TILE_SIZE)
                by (nonlinear_arith)
                requires -4 * WORLD_LIMIT <= dy <= 4 * WORLD_LIMIT, 1 <= t <= MAX_TILE_SIZE;
        }
        WorldPoint { x: dx * self.tile_size, y: dy * self.tile_size }
    }
}

/// The tile at `(x, y)` of the generated test level of `w` by `h` cells: a
/// border of walls with a scatter of pillars inside.
pub open spec fn demo_tile(x: int, y: int, w: int, h: int) -> TileValue {
    if ((x * y) % 3 == 1 && (x * y / 3) % 4 == 1) || x * y == 0 || x == w - 1 || y == h - 1 {
        TileValue::Wall
    } else {
        TileValue::Empty
    }
}

/// A generated test level of `width` by `height` cells, laid out as
/// `demo_tile` says.
pub fn gen_level_tiles(width: usize, height: usize) -> (r: LevelTiles)
    requires
        width <= MAX_CELLS,
        height <= MAX_CELLS,
        width * height <= MAX_CELLS,
    ensures
        r.wf(),
        r.width == width,
        r.height == height,
        r.tile_size == DEFAULT_TILE_SIZE,
        r.pickups_total == 0,
        r.next_level@.len() == 0,
        forall|x: int, y: int|
            0 <= x < width && 0 <= y < height ==> #[trigger] r.tiles@[x + y * width] == demo_tile(
                x,
                y,
                width as int,
                height as int,
            ),
{
    let mut tiles: Vec<TileValue> = Vec::new();
    let mut y: usize = 0;
    while y < height
        invariant
            y <= height,
            width <= MAX_CELLS,
            height <= MAX_CELLS,
            width * height <= MAX_CELLS,
            tiles@.len() == y * width,
            forall|k: int|
                0 <= k < tiles@.len() ==> #[trigger] tiles@[k] == demo_tile(
                    k % (width as int),
                    k / (width as int),
                    width as int,
                    height as int,
                ),
        decreases height - y,
    {
        let mut x: usize = 0;
        proof {
            assert(y * width + width <= width * height) by (nonlinear_arith)
                requires y < height;
        }
        while x < width
            invariant
                x <= width,
                y < height,
                width <= MAX_CELLS,
                height <= MAX_CELLS,
                width * height <= MAX_CELLS,
                y * width + width <= width * height,
                tiles@.len() == y * width + x,
                forall|k: int|
                    0 <= k < tiles@.len() ==> #[trigger] tiles@[k] == demo_tile(
                        k % (width as int),
                        k / (width as int),
                        width as int,
                        height as int,
                    ),
            decreases width - x,
        {
            proof {
                assert(x * y <= width * height) by (nonlinear_arith)
                    requires x < width, y < height;
                vstd::arithmetic::div_mod::lemma_fundamental_div_mod_converse(
                    (y * width + x) as int,
                    width as int,
                    y as int,
                    x as int,
                );
            }
            let xy = x * y;
            let t = if (xy % 3 == 1 && (xy / 3) % 4 == 1) || xy == 0 || x == width - 1 || y == height
                - 1 {
                TileValue::Wall
            } else {
                TileValue::Empty
            };
            tiles.push(t);
            x = x + 1;
        }
        proof {
            assert((y + 1) * width == y * width + width) by (nonlinear_arith);
        }
        y = y + 1;
    }
    proof {
        assert(height * width == width * height) by (nonlinear_arith);
        assert forall|x: int, y: int| 0 <= x < width && 0 <= y < height implies #[trigger] tiles@[x
            + y * width] == demo_tile(x, y, width as int, height as int) by {
            vstd::arithmetic::div_mod::lemma_fundamental_div_mod_converse(
                x + y * width,
                width as int,
                y,
                x,
            );
            assert(0 <= x + y * width < width * height) by (nonlinear_arith)
                requires 0 <= x < width, 0 <= y < height;
        }
    }
    LevelTiles {
        width,
        height,
        tile_size: DEFAULT_TILE_SIZE,
        tiles,
        pickups_total: 0,
        next_level: Vec::new(),
    }
}

} // verus!
