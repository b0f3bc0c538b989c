//! What each enemy perceives, where it walks, and how it chooses between
//! chasing what it sees and searching where it last saw it.
use vstd::prelude::*;
use rand::Rng;
use crate::facing::{wrap, wrap_angle, Facing, ANGLE_LIMIT, PI_MICRO};
use crate::grid::{dist2, distance_squared, GridPos, LevelTiles, WorldPoint, WORLD_LIMIT};

verus! {

/// Shortest search radius, in world units.
pub const SEARCH_RADIUS_MIN: i64 = 50;

/// Longest search radius, in world units.
pub const SEARCH_RADIUS_MAX: i64 = 1050;

/// Time over which the search radius grows from its least to its greatest,
/// in milliseconds.
pub const SEARCH_RAMP_MS: u64 = 90000;

/// Speeds drawn while chasing: from `CHASE_SPEED_MIN` up to, not including,
/// `CHASE_SPEED_MAX`.
pub const CHASE_SPEED_MIN: i64 = 200;

pub const CHASE_SPEED_MAX: i64 = 300;

/// Speeds drawn while searching: from `SEARCH_SPEED_MIN` up to, not
/// including, `SEARCH_SPEED_MAX`.
pub const SEARCH_SPEED_MIN: i64 = 50;

pub const SEARCH_SPEED_MAX: i64 = 120;

/// Turn rate while chasing: a quarter turn per second, in microradians.
pub const CHASE_TURN_RATE: i64 = 1570796;

/// Turn rate while searching: a sixth of a turn per second, in microradians.
pub const SEARCH_TURN_RATE: i64 = 1047198;

/// A cached path whose end lies farther than this from the target is stale.
pub const STALE_DISTANCE: i64 = 60;

/// Within this distance of its target an agent has arrived.
pub const ARRIVAL_DISTANCE: i64 = 60;

/// Within this distance of a waypoint an agent moves on to the next one.
pub const WAYPOINT_RADIUS: i64 = 10;

/// Relies on rand::Rng::gen_range on rand::thread_rng(): a value drawn from
/// `lo..hi`. It panics on an empty range, which `requires` rules out.
#[verifier::external_body]
fn random_in(lo: i64, hi: i64) -> (r: i64)
    requires
        lo < hi,
    ensures
        lo <= r < hi,
{
    rand::thread_rng().gen_range(lo..hi)
}

/// A point far enough inside the world that a search around it stays in
/// the world.
pub open spec fn in_search_area(p: WorldPoint) -> bool {
    &&& -(WORLD_LIMIT - SEARCH_RADIUS_MAX) <= p.x <= WORLD_LIMIT - SEARCH_RADIUS_MAX
    &&& -(WORLD_LIMIT - SEARCH_RADIUS_MAX) <= p.y <= WORLD_LIMIT - SEARCH_RADIUS_MAX
}

/// Size of an angle.
pub open spec fn abs_angle(a: int) -> int {
    if a >= 0 {
        a
    } else {
        -a
    }
}

/// What a ray cast towards the target met first.
#[derive(Clone, Copy, Debug, PartialEq, Eq, Structural)]
pub enum Sight {
    /// The target, at `hit`, in direction `direction` (microradians).
    Seen { hit: WorldPoint, direction: i64 },
    /// Anything else, or nothing; or no ray was cast.
    Unseen,
}

/// What a ray cast from an enemy towards its target met first.
#[derive(Clone, Copy, Debug, PartialEq, Eq, Structural)]
pub enum RayHit {
    /// The target, at `point`.
    Target { point: WorldPoint },
    /// Something else, such as a wall.
    Other,
    /// Nothing within range.
    Nothing,
}

/// What an enemy knows of its target.
pub struct AiPerception {
    pub visual_range: i64,
    pub vision_cone_angle: i64,
    pub can_see_target: bool,
    pub target_position: WorldPoint,
    pub target_direction: i64,
    pub last_seen_time: u64,
}

impl AiPerception {
    /// Range and cone within bounds, last known position inside the world.
    pub open spec fn wf(self) -> bool {
        &&& 0 <= self.visual_range <= WORLD_LIMIT
        &&& 0 <= self.vision_cone_angle <= PI_MICRO
        &&& in_search_area(self.target_position)
    }

    /// Sees `visual_range` far within `vision_cone_angle` either side of its
    /// heading; has not seen the target, and takes `home_point` as where to
    /// search first.
    pub fn new(visual_range: i64, vision_cone_angle: i64, home_point: WorldPoint) -> (r: AiPerception)
        ensures
            r.visual_range == visual_range,
            r.vision_cone_angle == vision_cone_angle,
            !r.can_see_target,
            r.target_position == home_point,
            r.target_direction == 0,
            r.last_seen_time == 0,
    {
        AiPerception {
            visual_range,
            vision_cone_angle,
            can_see_target: false,
            target_position: home_point,
            target_direction: 0,
            last_seen_time: 0,
        }
    }

    /// The target, at `target` in direction `direction_angle` from an enemy at
    /// `own` facing `facing_angle`, is within range and within the cone.
    pub open spec fn in_cone_spec(
        self,
        own: WorldPoint,
        facing_angle: int,
        target: WorldPoint,
        direction_angle: int,
    ) -> bool {
        &&& dist2(own, target) <= self.visual_range * self.visual_range
        &&& abs_angle(wrap(direction_angle - facing_angle)) <= self.vision_cone_angle
    }

    /// The cheap test that comes before any ray is cast: is the target within
    /// range and within the cone of vision?
    pub fn target_in_cone(
        &self,
        own: WorldPoint,
        facing_angle: i64,
        target: WorldPoint,
        direction_angle: i64,
    ) -> (r: bool)
        requires
            self.wf(),
            own.in_world(),
            target.in_world(),
            -ANGLE_LIMIT <= facing_angle <= ANGLE_LIMIT,
            -ANGLE_LIMIT <= direction_angle <= ANGLE_LIMIT,
        ensures
            r == self.in_cone_spec(own, facing_angle as int, target, direction_angle as int),
    {
        let off_axis = wrap_angle(direction_angle - facing_angle);
        let off_axis_size = if off_axis >= 0 {
            off_axis
        } else {
            -off_axis
        };
        let range = self.visual_range as i128;
        proof {
            assert(0 <= range * range <= WORLD_LIMIT * WORLD_LIMIT) by (nonlinear_arith)
                requires 0 <= range <= WORLD_LIMIT;
        }
        distance_squared(own, target) <= range * range && off_axis_size <= self.vision_cone_angle
    }

    /// Records what this tick's look at the target found, at time `now_ms`.
    /// Once the target has not been seen, the time of the first look stands
    /// in for the time it was last seen.
    pub fn record_sight(&mut self, sight: Sight, now_ms: u64)
        requires
            old(self).wf(),
            sight matches Sight::Seen { hit, .. } ==> in_search_area(hit),
        ensures
            final(self).wf(),
            final(self).visual_range == old(self).visual_range,
            final(self).vision_cone_angle == old(self).vision_cone_angle,
            match sight {
                Sight::Seen { hit, direction } => {
                    &&& final(self).can_see_target
                    &&& final(self).target_position == hit
                    &&& final(self).target_direction == direction
                    &&& final(self).last_seen_time == now_ms
                },
                Sight::Unseen => {
                    &&& !final(self).can_see_target
                    &&& final(self).target_position == old(self).target_position
                    &&& final(self).target_direction == old(self).target_direction
                    &&& final(self).last_seen_time == if old(self).last_seen_time == 0 {
                        now_ms
                    } else {
                        old(self).last_seen_time
                    }
                },
            },
    {
        match sight {
            Sight::Seen { hit, direction } => {
                self.can_see_target = true;
                self.target_position = hit;
                self.target_direction = direction;
                self.last_seen_time = now_ms;
            },
            Sight::Unseen => {
                self.can_see_target = false;
                if self.last_seen_time == 0 {
                    self.last_seen_time = now_ms;
                }
            },
        }
    }
}

impl AiPerception {
    /// One tick of perception, from the cone test's result `in_cone` and what
    /// the ray cast towards the target met (`RayHit::Nothing` when no ray was
    /// cast): the target is seen exactly when it is in the cone and the ray met
    /// it first, and is then recorded where the ray met it, in direction
    /// `direction_angle`, at time `now_ms`.
    pub fn perceive(&mut self, in_cone: bool, ray: RayHit, direction_angle: i64, now_ms: u64)
        requires
            old(self).wf(),
            ray matches RayHit::Target { point } ==> in_search_area(point),
        ensures
            final(self).wf(),
            final(self).visual_range == old(self).visual_range,
            final(self).vision_cone_angle == old(self).vision_cone_angle,
            final(self).can_see_target == (in_cone && ray is Target),
            in_cone && ray is Target ==> {
                &&& final(self).target_position == ray->point
                &&& final(self).target_direction == direction_angle
                &&& final(self).last_seen_time == now_ms
            },
            !(in_cone && ray is Target) ==> {
                &&& final(self).target_position == old(self).target_position
                &&& final(self).target_direction == old(self).target_direction
                &&& final(self).last_seen_time == if old(self).last_seen_time == 0 {
                    now_ms
                } else {
                    old(self).last_seen_time
                }
            },
    {
        let sight = if in_cone {
            match ray {
                RayHit::Target { point } => Sight::Seen { hit: point, direction: direction_angle },
                _ => Sight::Unseen,
            }
        } else {
            Sight::Unseen
        };
        self.record_sight(sight, now_ms);
    }
}

/// What the movement controller asks of the physics this tick.
#[derive(Clone, Copy, Debug, PartialEq, Eq, Structural)]
pub enum MoveCommand {
    /// Stand still.
    Halt,
    /// Turn towards `waypoint` and move ahead.
    Steer { waypoint: WorldPoint },
}

/// Where an enemy is going and the path it follows there.
pub struct AiMovement {
    pub move_speed: i64,
    pub move_to_target: bool,
    pub target_position: WorldPoint,
    pub current_path: Vec<WorldPoint>,
    pub path_index: usize,
}

impl AiMovement {
    /// Target inside the world, waypoints within bounds.
    pub open spec fn wf(self) -> bool {
        &&& self.target_position.in_world()
        &&& forall|i: int|
            0 <= i < self.current_path@.len() ==> (#[trigger] self.current_path@[i]).bounded()
    }

    /// The cached path cannot be followed to the target as it stands.
    pub open spec fn path_stale(self) -> bool {
        ||| self.current_path@.len() == 0
        ||| self.path_index >= self.current_path@.len()
        ||| dist2(self.current_path@.last(), self.target_position) > STALE_DISTANCE
            * STALE_DISTANCE
    }

    /// Moving at `move_speed` towards `start_dest`, with no path yet.
    pub fn new(move_speed: i64, start_dest: WorldPoint) -> (r: AiMovement)
        ensures
            r.move_speed == move_speed,
            r.move_to_target,
            r.target_position == start_dest,
            r.current_path@.len() == 0,
            r.path_index == 0,
    {
        AiMovement {
            move_speed,
            move_to_target: true,
            target_position: start_dest,
            current_path: Vec::new(),
            path_index: 0,
        }
    }

    /// Sets out for `target`.
    pub fn move_to(&mut self, target: WorldPoint)
        ensures
            final(self).target_position == target,
            final(self).move_to_target,
            final(self).move_speed == old(self).move_speed,
            final(self).current_path@ == old(self).current_path@,
            final(self).path_index == old(self).path_index,
    {
        self.target_position = target;
        self.move_to_target = true;
    }

    /// Still on its way.
    pub fn is_moving(&self) -> (r: bool)
        ensures
            r == self.move_to_target,
    {
        self.move_to_target
    }
}

/// One tick of an enemy's path following from `position`. A stale path is searched
/// anew; with no route the agent gives up and halts. Within
/// `ARRIVAL_DISTANCE` of the target it has arrived and halts; otherwise it
/// steers towards the current waypoint, and moves on to the next one once
/// within `WAYPOINT_RADIUS` of it.
pub fn ai_movement_system(mover: &mut AiMovement, level: &LevelTiles, position: WorldPoint) -> (r: MoveCommand)
    requires
        old(mover).wf(),
        level.wf(),
        position.in_world(),
    ensures
        final(mover).wf(),
        final(mover).move_speed == old(mover).move_speed,
        final(mover).target_position == old(mover).target_position,
        !old(mover).move_to_target ==> {
            &&& r == MoveCommand::Halt
            &&& !final(mover).move_to_target
            &&& final(mover).current_path@ == old(mover).current_path@
            &&& final(mover).path_index == old(mover).path_index
        },
        old(mover).move_to_target && !old(mover).path_stale() ==> final(mover).current_path@ == old(mover).current_path@,
        old(mover).move_to_target && old(mover).path_stale() ==> {
            let s = level.world_to_grid_spec(position);
            let g = level.world_to_grid_spec(old(mover).target_position);
            &&& !level.reachable(s, g) ==> {
                &&& r == MoveCommand::Halt
                &&& !final(mover).move_to_target
                &&& final(mover).current_path@.len() == 0
                &&& final(mover).path_index == 0
            }
            &&& level.reachable(s, g) ==> exists|q: Seq<GridPos>|
                #[trigger] level.is_shortest_route(q, s, g) && final(mover).current_path@
                    == level.to_world(q)
        },
        old(mover).move_to_target && (!old(mover).path_stale() || level.reachable(
            level.world_to_grid_spec(position),
            level.world_to_grid_spec(old(mover).target_position),
        )) ==> {
            let idx = if old(mover).path_stale() {
                0
            } else {
                old(mover).path_index as int
            };
            let p = final(mover).current_path@;
            &&& 0 <= idx < p.len()
            &&& dist2(old(mover).target_position, position) < ARRIVAL_DISTANCE * ARRIVAL_DISTANCE
                ==> {
                &&& r == MoveCommand::Halt
                &&& !final(mover).move_to_target
                &&& final(mover).path_index == idx
            }
            &&& dist2(old(mover).target_position, position) >= ARRIVAL_DISTANCE
                * ARRIVAL_DISTANCE ==> {
                &&& r == MoveCommand::Steer { waypoint: p[idx] }
                &&& final(mover).move_to_target
                &&& final(mover).path_index == if dist2(position, p[idx]) < WAYPOINT_RADIUS
                    * WAYPOINT_RADIUS {
                    idx + 1
                } else {
                    idx
                }
            }
        },
{
    if !mover.move_to_target {
        return MoveCommand::Halt;
    }
    let n = mover.current_path.len();
    let stale = n == 0 || mover.path_index >= n || distance_squared(
        mover.current_path[n - 1],
        mover.target_position,
    ) > (STALE_DISTANCE * STALE_DISTANCE) as i128;
    if stale {
        mover.path_index = 0;
        match level.get_path(position, mover.target_position) {
            Some(path) => {
                mover.current_path = path;
            },
            None => {
                mover.current_path.clear();
                mover.move_to_target = false;
                return MoveCommand::Halt;
            },
        }
    }
    let to_target = distance_squared(mover.target_position, position);
    if to_target < (ARRIVAL_DISTANCE * ARRIVAL_DISTANCE) as i128 {
        mover.move_to_target = false;
        MoveCommand::Halt
    } else {
        let next_point = mover.current_path[mover.path_index];
        if distance_squared(position, next_point) < (WAYPOINT_RADIUS * WAYPOINT_RADIUS) as i128 {
            mover.path_index = mover.path_index + 1;
        }
        MoveCommand::Steer { waypoint: next_point }
    }
}

/// How far from the last known position a search may wander, `elapsed_ms`
/// after the target was last seen: growing evenly from the least radius to
/// the greatest over `SEARCH_RAMP_MS`, then staying there.
pub open spec fn search_radius_spec(elapsed_ms: int) -> int {
    if elapsed_ms >= SEARCH_RAMP_MS {
        SEARCH_RADIUS_MAX as int
    } else {
        SEARCH_RADIUS_MIN + (SEARCH_RADIUS_MAX - SEARCH_RADIUS_MIN) * elapsed_ms / (SEARCH_RAMP_MS as int)
    }
}

/// How far from the last known position a search may wander, `elapsed_ms`
/// after the target was last seen.
pub fn search_radius(elapsed_ms: u64) -> (r: i64)
    ensures
        r == search_radius_spec(elapsed_ms as int),
        SEARCH_RADIUS_MIN <= r <= SEARCH_RADIUS_MAX,
{
    if elapsed_ms >= SEARCH_RAMP_MS {
        SEARCH_RADIUS_MAX
    } else {
        let e = elapsed_ms as i64;
        proof {
            assert(0 <= 1000 * e / 90000 <= 1000) by (nonlinear_arith)
                requires 0 <= e < 90000;
        }
        SEARCH_RADIUS_MIN + (SEARCH_RADIUS_MAX - SEARCH_RADIUS_MIN) * e / (SEARCH_RAMP_MS as i64)
    }
}

/// The search radius never shrinks while the target stays unseen.
pub proof fn lemma_search_radius_monotone(a: int, b: int)
    requires
        0 <= a <= b,
    ensures
        search_radius_spec(a) <= search_radius_spec(b),
{
    if b < SEARCH_RAMP_MS {
        assert(1000 * a / 90000 <= 1000 * b / 90000) by (nonlinear_arith)
            requires 0 <= a <= b;
    } else if a < SEARCH_RAMP_MS {
        assert(1000 * a / 90000 <= 1000) by (nonlinear_arith)
            requires 0 <= a < 90000;
    }
}

/// Time since the target was last seen, none if the clock reads earlier.
pub open spec fn elapsed_since(now_ms: int, last_ms: int) -> int {
    if now_ms >= last_ms {
        now_ms - last_ms
    } else {
        0
    }
}

/// One tick of behaviour with the random values already drawn: chasing
/// when the target is seen (heading for where it is, at `speed`, turning
/// fast), searching when it is not and the last goal was reached (heading for
/// the last known position moved by `offset`, at `speed`, turning slowly),
/// and otherwise carrying on.
pub fn chase_behavior_with(
    mover: &mut AiMovement,
    perceiver: &AiPerception,
    facing: &mut Facing,
    speed: i64,
    offset: WorldPoint,
)
    requires
        old(mover).wf(),
        perceiver.wf(),
        -SEARCH_RADIUS_MAX <= offset.x <= SEARCH_RADIUS_MAX,
        -SEARCH_RADIUS_MAX <= offset.y <= SEARCH_RADIUS_MAX,
    ensures
        final(mover).wf(),
        final(facing).angle == old(facing).angle,
        final(mover).current_path@ == old(mover).current_path@,
        final(mover).path_index == old(mover).path_index,
        perceiver.can_see_target ==> {
            &&& final(mover).target_position == perceiver.target_position
            &&& final(mover).move_to_target
            &&& final(mover).move_speed == speed
            &&& final(facing).turn_rate == CHASE_TURN_RATE
        },
        !perceiver.can_see_target && !old(mover).move_to_target ==> {
            &&& final(mover).target_position == (WorldPoint {
                x: (perceiver.target_position.x + offset.x) as i64,
                y: (perceiver.target_position.y + offset.y) as i64,
            })
            &&& final(mover).move_to_target
            &&& final(mover).move_speed == speed
            &&& final(facing).turn_rate == SEARCH_TURN_RATE
        },
        !perceiver.can_see_target && old(mover).move_to_target ==> {
            &&& final(mover).target_position == old(mover).target_position
            &&& final(mover).move_to_target
            &&& final(mover).move_speed == old(mover).move_speed
            &&& final(facing).turn_rate == old(facing).turn_rate
        },
{
    if perceiver.can_see_target {
        mover.move_to(perceiver.target_position);
        mover.move_speed = speed;
        facing.turn_rate = CHASE_TURN_RATE;
    } else if !mover.is_moving() {
        let goal = WorldPoint {
            x: perceiver.target_position.x + offset.x,
            y: perceiver.target_position.y + offset.y,
        };
        mover.move_to(goal);
        mover.move_speed = speed;
        facing.turn_rate = SEARCH_TURN_RATE;
    }
}

/// One tick of behaviour at time `now_ms`, drawing the random values it
/// needs: a chasing speed from `CHASE_SPEED_MIN..CHASE_SPEED_MAX`; or a search
/// goal within the search radius of the last known position on each axis and
/// a searching speed from `SEARCH_SPEED_MIN..SEARCH_SPEED_MAX`.
pub fn ai_chase_behavior_system(mover: &mut AiMovement, perceiver: &AiPerception, facing: &mut Facing, now_ms: u64)
    requires
        old(mover).wf(),
        perceiver.wf(),
    ensures
        final(mover).wf(),
        final(facing).angle == old(facing).angle,
        final(mover).current_path@ == old(mover).current_path@,
        final(mover).path_index == old(mover).path_index,
        perceiver.can_see_target ==> {
            &&& final(mover).target_position == perceiver.target_position
            &&& final(mover).move_to_target
            &&& CHASE_SPEED_MIN <= final(mover).move_speed < CHASE_SPEED_MAX
            &&& final(facing).turn_rate == CHASE_TURN_RATE
        },
        !perceiver.can_see_target && !old(mover).move_to_target ==> {
            let radius = search_radius_spec(
                elapsed_since(now_ms as int, perceiver.last_seen_time as int),
            );
            &&& -radius <= final(mover).target_position.x - perceiver.target_position.x < radius
            &&& -radius <= final(mover).target_position.y - perceiver.target_position.y < radius
            &&& final(mover).move_to_target
            &&& SEARCH_SPEED_MIN <= final(mover).move_speed < SEARCH_SPEED_MAX
            &&& final(facing).turn_rate == SEARCH_TURN_RATE
        },
        !perceiver.can_see_target && old(mover).move_to_target ==> {
            &&& final(mover).target_position == old(mover).target_position
            &&& final(mover).move_to_target
            &&& final(mover).move_speed == old(mover).move_speed
            &&& final(facing).turn_rate == old(facing).turn_rate
        },
{
    if perceiver.can_see_target {
        let speed = random_in(CHASE_SPEED_MIN, CHASE_SPEED_MAX);
        chase_behavior_with(mover, perceiver, facing, speed, WorldPoint { x: 0, y: 0 });
    } else if !mover.is_moving() {
        let elapsed = if now_ms >= perceiver.last_seen_time {
            now_ms - perceiver.last_seen_time
        } else {
            0
        };
        let radius = search_radius(elapsed);
        let dx = random_in(-radius, radius);
        let dy = random_in(-radius, radius);
        let speed = random_in(SEARCH_SPEED_MIN, SEARCH_SPEED_MAX);
        chase_behavior_with(mover, perceiver, facing, speed, WorldPoint { x: dx, y: dy });
    } else {
        let speed = mover.move_speed;
        chase_behavior_with(mover, perceiver, facing, speed, WorldPoint { x: 0, y: 0 });
    }
}

} // verus!
