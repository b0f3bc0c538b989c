//! The occluders that visibility is computed against: rectangles for the
//! level's walls, built once, and squares around moving blockers, rebuilt
//! every tick.
use vstd::prelude::*;
use crate::grid::{LevelTiles, WorldPoint, MAX_CELLS, MAX_TILE_SIZE, WORLD_LIMIT};
use crate::walls::{tile_vector_to_wall_set, Wall};

verus! {

/// An axis-aligned rectangle of the world, from `min` to `max`.
#[derive(Clone, Copy, Debug, PartialEq, Eq, Structural)]
pub struct Rect {
    pub min: WorldPoint,
    pub max: WorldPoint,
}

/// Largest half-size of a blocker.
pub const MAX_BLOCKER_HALF_SIZE: i64 = 1048576;

/// A moving object that blocks sight for as long as it stands somewhere.
#[derive(Clone, Copy, Debug, PartialEq, Eq, Structural)]
pub struct DynamicLightBlocker {
    pub half_size: i64,
}

impl DynamicLightBlocker {
    /// The square that the blocker covers when it stands at `position`.
    pub fn get_poly(&self, position: WorldPoint) -> (r: Rect)
        requires
            position.in_world(),
            0 <= self.half_size <= MAX_BLOCKER_HALF_SIZE,
        ensures
            r.min.x == position.x - self.half_size,
            r.min.y == position.y - self.half_size,
            r.max.x == position.x + self.half_size,
            r.max.y == position.y + self.half_size,
    {
        Rect {
            min: WorldPoint { x: position.x - self.half_size, y: position.y - self.half_size },
            max: WorldPoint { x: position.x + self.half_size, y: position.y + self.half_size },
        }
    }
}

impl LevelTiles {
    /// The world rectangle that the cells of `wall` fill: each cell spans one
    /// tile around its centre.
    pub open spec fn wall_rect_spec(self, wall: Wall) -> Rect {
        let half = self.tile_size / 2;
        let lo = self.grid_to_world_spec(wall.top_left);
        let hi = self.grid_to_world_spec(wall.bottom_right);
        Rect {
            min: WorldPoint { x: (lo.x - half) as i64, y: (lo.y - half) as i64 },
            max: WorldPoint { x: (hi.x - half + self.tile_size) as i64, y: (hi.y - half + self.tile_size) as i64 },
        }
    }

    /// The world rectangle that the cells of `wall` fill.
    pub fn wall_rect(&self, wall: &Wall) -> (r: Rect)
        requires
            self.wf(),
            0 <= wall.top_left.x <= MAX_CELLS,
            0 <= wall.top_left.y <= MAX_CELLS,
            0 <= wall.bottom_right.x <= MAX_CELLS,
            0 <= wall.bottom_right.y <= MAX_CELLS,
        ensures
            r == self.wall_rect_spec(*wall),
    {
        let half = self.tile_size / 2;
        let lo = self.grid_to_world(wall.top_left);
        let hi = self.grid_to_world(wall.bottom_right);
        proof {
            let t = self.tile_size as int;
            let w2 = self.width as int / 2;
            let h2 = self.height as int / 2;
            assert(-MAX_CELLS * MAX_TILE_SIZE <= (wall.top_left.x - w2) * t <= MAX_CELLS * MAX_TILE_SIZE)
                by (nonlinear_arith)
                requires -MAX_CELLS <= wall.top_left.x - w2 <= MAX_CELLS, 1 <= t <= MAX_TILE_SIZE;
            assert(-MAX_CELLS * MAX_TILE_SIZE <= (wall.top_left.y - h2) * t <= MAX_CELLS * MAX_TILE_SIZE)
                by (nonlinear_arith)
                requires -MAX_CELLS <= wall.top_left.y - h2 <= MAX_CELLS, 1 <= t <= MAX_TILE_SIZE;
            assert(-MAX_CELLS * MAX_TILE_SIZE <= (wall.bottom_right.x - w2) * t <= MAX_CELLS * MAX_TILE_SIZE)
                by (nonlinear_arith)
                requires -MAX_CELLS <= wall.bottom_right.x - w2 <= MAX_CELLS, 1 <= t <= MAX_TILE_SIZE;
            assert(-MAX_CELLS * MAX_TILE_SIZE <= (wall.bottom_right.y - h2) * t <= MAX_CELLS * MAX_TILE_SIZE)
                by (nonlinear_arith)
                requires -MAX_CELLS <= wall.bottom_right.y - h2 <= MAX_CELLS, 1 <= t <= MAX_TILE_SIZE;
        }
        Rect {
            min: WorldPoint { x: lo.x - half, y: lo.y - half },
            max: WorldPoint { x: hi.x - half + self.tile_size, y: hi.y - half + self.tile_size },
        }
    }
}

/// The occluders of a level: fixed ones for its walls, and those of the
/// blockers of the current tick.
pub struct LevelGeo {
    pub level_blocks: Vec<Rect>,
    pub temp_blocks: Vec<Rect>,
}

impl LevelGeo {
    /// The occluders of the walls of `level`, one per merged rectangle of wall
    /// cells, and no blockers yet.
    pub fn from_level(level: &LevelTiles) -> (r: LevelGeo)
        requires
            level.wf(),
        ensures
            r.temp_blocks@.len() == 0,
            r.level_blocks@ == crate::walls::decompose(
                crate::walls::wall_mask(level.tiles@),
                level.width as int,
                level.height as int,
                level.width * level.height,
            ).1.map_values(|wl: Wall| level.wall_rect_spec(wl)),
    {
        let walls = tile_vector_to_wall_set(&level.tiles, level.width, level.height);
        let mut blocks: Vec<Rect> = Vec::new();
        let mut i: usize = 0;
        while i < walls.len()
            invariant
                level.wf(),
                0 <= i <= walls@.len(),
                crate::walls::exact_cover(
                    crate::walls::wall_mask(level.tiles@),
                    level.width as int,
                    level.height as int,
                    walls@,
                ),
                blocks@ == walls@.take(i as int).map_values(|wl: Wall| level.wall_rect_spec(wl)),
            decreases walls@.len() - i,
        {
            let wl = walls[i];
            assert(crate::walls::is_rect(walls@[i as int], level.width as int, level.height as int));
            blocks.push(level.wall_rect(&wl));
            assert(walls@.take(i + 1) =~= walls@.take(i as int).push(wl));
            assert(blocks@ =~= walls@.take(i + 1).map_values(|wl: Wall| level.wall_rect_spec(wl)));
            i = i + 1;
        }
        assert(walls@.take(walls@.len() as int) =~= walls@);
        LevelGeo { level_blocks: blocks, temp_blocks: Vec::new() }
    }

    /// Adds a blocker's occluder for the current tick.
    pub fn temp_block(&mut self, block: Rect)
        ensures
            final(self).temp_blocks@ == old(self).temp_blocks@.push(block),
            final(self).level_blocks@ == old(self).level_blocks@,
    {
        self.temp_blocks.push(block);
    }

    /// All occluders: those of the current tick's blockers, then those of the
    /// walls.
    pub fn get_geo_multipoly(&self) -> (r: Vec<Rect>)
        ensures
            r@ == self.temp_blocks@ + self.level_blocks@,
    {
        let mut all_blocks = self.temp_blocks.clone();
        let mut i: usize = 0;
        let ghost start = all_blocks@;
        assert(self.temp_blocks@ =~= start);
        while i < self.level_blocks.len()
            invariant
                0 <= i <= self.level_blocks@.len(),
                all_blocks@ == self.temp_blocks@ + self.level_blocks@.take(i as int),
            decreases self.level_blocks@.len() - i,
        {
            all_blocks.push(self.level_blocks[i]);
            assert(self.level_blocks@.take(i + 1) =~= self.level_blocks@.take(i as int).push(
                self.level_blocks@[i as int],
            ));
            assert(all_blocks@ =~= self.temp_blocks@ + self.level_blocks@.take(i + 1));
            i = i + 1;
        }
        assert(self.level_blocks@.take(self.level_blocks@.len() as int) =~= self.level_blocks@);
        all_blocks
    }

    /// Drops the blockers' occluders before the next tick collects them anew.
    pub fn reset_temps_for_next_frame(&mut self)
        ensures
            final(self).temp_blocks@.len() == 0,
            final(self).level_blocks@ == old(self).level_blocks@,
    {
        self.temp_blocks.clear();
    }
}

/// Rebuilds the blockers' occluders for this tick: last tick's are dropped,
/// and each blocker adds its square at its current position, in order.
pub fn dynamic_light_blocking_system(level: &mut LevelGeo, blockers: &Vec<(DynamicLightBlocker, WorldPoint)>)
    requires
        forall|i: int|
            0 <= i < blockers@.len() ==> (#[trigger] blockers@[i]).1.in_world() && 0
                <= blockers@[i].0.half_size <= MAX_BLOCKER_HALF_SIZE,
    ensures
        final(level).level_blocks@ == old(level).level_blocks@,
        final(level).temp_blocks@.len() == blockers@.len(),
        forall|i: int|
            0 <= i < blockers@.len() ==> #[trigger] final(level).temp_blocks@[i] == blocker_square(
                blockers@[i].0,
                blockers@[i].1,
            ),
{
    level.reset_temps_for_next_frame();
    let mut i: usize = 0;
    while i < blockers.len()
        invariant
            0 <= i <= blockers@.len(),
            level.level_blocks@ == old(level).level_blocks@,
            level.temp_blocks@.len() == i,
            forall|k: int|
                0 <= k < blockers@.len() ==> (#[trigger] blockers@[k]).1.in_world() && 0
                    <= blockers@[k].0.half_size <= MAX_BLOCKER_HALF_SIZE,
            forall|k: int|
                0 <= k < i ==> #[trigger] level.temp_blocks@[k] == blocker_square(
                    blockers@[k].0,
                    blockers@[k].1,
                ),
        decreases blockers@.len() - i,
    {
        let (blocker, position) = blockers[i];
        let square = blocker.get_poly(position);
        level.temp_block(square);
        i = i + 1;
    }
}

/// The square that `blocker` covers when it stands at `position`.
pub open spec fn blocker_square(blocker: DynamicLightBlocker, position: WorldPoint) -> Rect {
    Rect {
        min: WorldPoint {
            x: (position.x - blocker.half_size) as i64,
            y: (position.y - blocker.half_size) as i64,
        },
        max: WorldPoint {
            x: (position.x + blocker.half_size) as i64,
            y: (position.y + blocker.half_size) as i64,
        },
    }
}

} // verus!
