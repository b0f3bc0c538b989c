//! Shortest routes over the grid of a level, by A* search.
use vstd::prelude::*;
use crate::grid::{GridPos, LevelTiles, WorldPoint};

verus! {

/// Manhattan distance between two cells.
pub open spec fn manhattan(a: GridPos, b: GridPos) -> nat {
    (if a.x >= b.x { a.x - b.x } else { b.x - a.x }) as nat + (if a.y >= b.y {
        a.y - b.y
    } else {
        b.y - a.y
    }) as nat
}

/// The search's estimate of the cost from `p` to `goal`: a third of the
/// Manhattan distance, the cost of a diagonal step, held within `u32`.
pub open spec fn heuristic_spec(p: GridPos, goal: GridPos) -> nat {
    let h = manhattan(p, goal) / 3;
    if h > u32::MAX {
        u32::MAX as nat
    } else {
        h
    }
}

impl GridPos {
    /// Manhattan distance to `other`.
    pub fn distance(&self, other: &GridPos) -> (r: u128)
        ensures
            r == manhattan(*self, *other),
    {
        let ax = self.x as i128;
        let ay = self.y as i128;
        let bx = other.x as i128;
        let by = other.y as i128;
        let dx: i128 = if ax >= bx { ax - bx } else { bx - ax };
        let dy: i128 = if ay >= by { ay - by } else { by - ay };
        (dx + dy) as u128
    }
}

/// The estimate that guides the search from `pos` towards `goal`.
pub fn heuristic(pos: &GridPos, goal: &GridPos) -> (r: u32)
    ensures
        r == heuristic_spec(*pos, *goal),
{
    let h = pos.distance(goal) / 3;
    if h > u32::MAX as u128 {
        u32::MAX
    } else {
        h as u32
    }
}

/// Whether the search has reached `goal`.
fn at_goal(pos: &GridPos, goal: &GridPos) -> (r: bool)
    ensures
        r == (*pos == *goal),
{
    pos.x == goal.x && pos.y == goal.y
}

/// Relies on pathfinding::directed::astar::astar: with non-negative step
/// costs and a heuristic that never overestimates the remaining cost (see
/// `lemma_heuristic_admissible`), it returns a cheapest route from `start` to
/// `goal` together with its cost, or `None` when no route exists. The goal is
/// an open cell, so every node but `start` lies in the grid of at most
/// `MAX_CELLS` cells: each cost it sums is that of a route without repeats, at
/// most 3 per cell, and each estimate at most a third of the grid's width
/// plus height, which together stay below `u32::MAX`.
#[verifier::external_body]
fn astar_search(map: &LevelTiles, start: &GridPos, goal: &GridPos) -> (r: Option<(Vec<GridPos>, u32)>)
    requires
        map.wf(),
        map.open_cell(*goal),
        LevelTiles::near_world(*start),
    ensures
        match r {
            Some((path, cost)) => map.is_shortest_route(path@, *start, *goal) && cost as nat
                == map.walk_cost(path@),
            None => !map.reachable(*start, *goal),
        },
{
    pathfinding::directed::astar::astar(
        start,
        |p: &GridPos| map.successors(p),
        |p: &GridPos| heuristic(p, goal),
        |p: &GridPos| at_goal(p, goal),
    )
}

/// Along any walk the cost is at least the Manhattan distance between its
/// ends, so the search's estimate never exceeds the true remaining cost.
pub proof fn lemma_heuristic_admissible(map: LevelTiles, q: Seq<GridPos>)
    requires
        map.is_walk(q),
    ensures
        manhattan(q[0], q.last()) <= map.walk_cost(q),
        heuristic_spec(q[0], q.last()) <= map.walk_cost(q),
    decreases q.len(),
{
    if q.len() > 1 {
        let p = q.drop_last();
        assert forall|i: int| 0 <= i < p.len() - 1 implies map.step_cost(#[trigger] p[i], p[i + 1])
            > 0 by {
            assert(map.step_cost(q[i], q[i + 1]) > 0);
        }
        lemma_heuristic_admissible(map, p);
        assert(map.step_cost(q[q.len() - 2], q[q.len() - 1]) > 0);
    }
}

impl LevelTiles {
    /// Centres of the cells of `s`, in order.
    pub open spec fn to_world(self, s: Seq<GridPos>) -> Seq<WorldPoint> {
        s.map_values(|c: GridPos| self.grid_to_world_spec(c))
    }

    /// Every cell of a walk after the first is inside the grid.
    proof fn lemma_walk_near_world(self, q: Seq<GridPos>)
        requires
            self.is_walk(q),
            LevelTiles::near_world(q[0]),
            self.wf(),
        ensures
            forall|i: int| 0 <= i < q.len() ==> LevelTiles::near_world(#[trigger] q[i]),
    {
        assert forall|i: int| 0 <= i < q.len() implies LevelTiles::near_world(#[trigger] q[i]) by {
            if i > 0 {
                assert(self.step_cost(q[i - 1], q[i - 1 + 1]) > 0);
                assert(self.open_cell(q[i]));
            }
        }
    }

    /// A cheapest route between the cells of `from` and `to`, as the world
    /// positions of the centres of its cells; `None` when there is none.
    pub fn get_path(&self, from: WorldPoint, to: WorldPoint) -> (r: Option<Vec<WorldPoint>>)
        requires
            self.wf(),
            from.in_world(),
            to.in_world(),
        ensures
            r.is_none() <==> !self.reachable(
                self.world_to_grid_spec(from),
                self.world_to_grid_spec(to),
            ),
            r.is_some() ==> exists|q: Seq<GridPos>|
                #[trigger] self.is_shortest_route(
                    q,
                    self.world_to_grid_spec(from),
                    self.world_to_grid_spec(to),
                ) && r.unwrap()@ == self.to_world(q),
            r.is_some() ==> r.unwrap()@.len() >= 1 && forall|i: int|
                0 <= i < r.unwrap()@.len() ==> (#[trigger] r.unwrap()@[i]).bounded(),
    {
        let goal = self.world_to_grid(to);
        let start = self.world_to_grid(from);
        let found = if at_goal(&start, &goal) {
            let mut single: Vec<GridPos> = Vec::new();
            single.push(start);
            proof {
                assert(self.is_route(single@, start, goal));
                assert forall|q: Seq<GridPos>| #[trigger]
                    self.is_route(q, start, goal) implies self.walk_cost(single@) <= self.walk_cost(q) by {}
            }
            Some((single, 0u32))
        } else if self.get_tile(&goal) == crate::grid::TileValue::Wall {
            proof {
                assert forall|q: Seq<GridPos>| !#[trigger] self.is_route(q, start, goal) by {
                    if self.is_route(q, start, goal) {
                        assert(q.len() >= 2);
                        assert(self.step_cost(q[q.len() - 2], q[q.len() - 2 + 1]) > 0);
                    }
                }
                assert(!self.reachable(start, goal));
            }
            None
        } else {
            astar_search(self, &start, &goal)
        };
        match found {
            None => None,
            Some((path, _cost)) => {
                proof {
                    self.lemma_walk_near_world(path@);
                }
                let mut pts: Vec<WorldPoint> = Vec::new();
                let mut i: usize = 0;
                while i < path.len()
                    invariant
                        self.wf(),
                        self.is_walk(path@),
                        forall|k: int| 0 <= k < path@.len() ==> LevelTiles::near_world(#[trigger] path@[k]),
                        0 <= i <= path@.len(),
                        pts@ == self.to_world(path@.take(i as int)),
                        forall|k: int| 0 <= k < pts@.len() ==> (#[trigger] pts@[k]).bounded(),
                    decreases path@.len() - i,
                {
                    let w = self.grid_to_world(path[i]);
                    pts.push(w);
                    proof {
                        assert(path@.take(i + 1) == path@.take(i as int).push(path@[i as int]));
                    }
                    i = i + 1;
                }
                proof {
                    assert(path@.take(path@.len() as int) == path@);
                    assert(self.is_shortest_route(path@, start, goal));
                    assert(pts@ == self.to_world(path@));
                }
                Some(pts)
            },
        }
    }
}

} // verus!
