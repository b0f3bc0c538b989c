use stealth_ai::ai::{
    ai_chase_behavior_system, ai_movement_system, chase_behavior_with, search_radius, AiMovement, AiPerception, MoveCommand,
    RayHit, Sight, CHASE_TURN_RATE, SEARCH_TURN_RATE,
};
use stealth_ai::facing::{wrap_angle, Facing, PI_MICRO, TAU_MICRO};
use stealth_ai::grid::{GridPos, LevelTiles, WorldPoint};

fn p(x: i64, y: i64) -> WorldPoint {
    WorldPoint { x, y }
}

const TWENTY_FIVE_DEGREES: i64 = 436332;
const EIGHTY_DEGREES: i64 = 1396263;

#[test]
fn turning_across_the_half_turn_goes_the_short_way() {
    let mut f = Facing { angle: 3000000, turn_rate: 10000000 };
    f.turn_towards(-3000000, 1000);
    assert_eq!(f.angle, -3000000);

    let mut g = Facing { angle: 3000000, turn_rate: 100000 };
    g.turn_towards(-3000000, 1000);
    assert_eq!(g.angle, 3100000);
    g.turn_towards(-3000000, 1000);
    // Past the half turn the heading wraps to the negative side.
    assert_eq!(g.angle, 3200000 - TAU_MICRO);
}

#[test]
fn turning_is_limited_by_rate_and_time() {
    let mut f = Facing::new(1000000);
    f.turn_towards(2000000, 500);
    assert_eq!(f.angle, 500000);
    f.turn_towards(-1000000, 250);
    assert_eq!(f.angle, 250000);
    assert_eq!(f.turn_rate, 1000000);
}

#[test]
fn turning_to_an_unwrapped_target() {
    let mut f = Facing { angle: 0, turn_rate: 100000000 };
    f.turn_towards(TAU_MICRO + 1000, 1000);
    assert_eq!(f.angle, 1000);
}

#[test]
fn plain_turn_wraps() {
    let mut f = Facing { angle: PI_MICRO - 10, turn_rate: 1000 };
    f.turn(5, 100);
    assert_eq!(f.angle, PI_MICRO + 90 - TAU_MICRO);
    f.turn(-3, 100);
    assert_eq!(f.angle, PI_MICRO - 10);
    f.turn(0, 100);
    assert_eq!(f.angle, PI_MICRO - 10);
}

#[test]
fn wrap_angle_range() {
    assert_eq!(wrap_angle(0), 0);
    assert_eq!(wrap_angle(PI_MICRO), PI_MICRO);
    assert_eq!(wrap_angle(-PI_MICRO), PI_MICRO);
    assert_eq!(wrap_angle(TAU_MICRO), 0);
    assert_eq!(wrap_angle(-TAU_MICRO - 5), -5);
}

#[test]
fn perception_sees_target_ahead_and_not_off_axis() {
    let mut per = AiPerception::new(500, TWENTY_FIVE_DEGREES, p(0, 0));
    let mut casts = 0;
    let mut cast_ray = |target: WorldPoint| {
        casts += 1;
        Sight::Seen { hit: target, direction: 0 }
    };
    let own = p(0, 0);
    let ahead = p(400, 0);
    let sight = if per.target_in_cone(own, 0, ahead, 0) { cast_ray(ahead) } else { Sight::Unseen };
    per.record_sight(sight, 1000);
    assert!(per.can_see_target);
    assert_eq!(per.target_position, ahead);
    assert_eq!(per.last_seen_time, 1000);

    // 80 degrees off the heading, same distance: (400 cos 80°, 400 sin 80°).
    let off = p(69, 394);
    let sight = if per.target_in_cone(own, 0, off, EIGHTY_DEGREES) { cast_ray(off) } else { Sight::Unseen };
    per.record_sight(sight, 2000);
    assert!(!per.can_see_target);
    assert_eq!(per.target_position, ahead);
    assert_eq!(per.last_seen_time, 1000);
    assert_eq!(casts, 1);
}

#[test]
fn perception_range_limit() {
    let per = AiPerception::new(500, TWENTY_FIVE_DEGREES, p(0, 0));
    assert!(per.target_in_cone(p(0, 0), 0, p(500, 0), 0));
    assert!(!per.target_in_cone(p(0, 0), 0, p(501, 0), 0));
    assert!(per.target_in_cone(p(0, 0), PI_MICRO, p(-300, 0), -PI_MICRO));
}

#[test]
fn first_unseen_look_sets_last_seen_time() {
    let mut per = AiPerception::new(500, TWENTY_FIVE_DEGREES, p(0, 0));
    per.record_sight(Sight::Unseen, 7000);
    assert_eq!(per.last_seen_time, 7000);
    per.record_sight(Sight::Unseen, 9000);
    assert_eq!(per.last_seen_time, 7000);
    per.record_sight(Sight::Seen { hit: p(3, 4), direction: 12 }, 9500);
    assert_eq!(per.target_direction, 12);
    assert_eq!(per.last_seen_time, 9500);
}

#[test]
fn search_radius_grows_then_stops() {
    assert_eq!(search_radius(0), 50);
    assert_eq!(search_radius(45000), 550);
    assert_eq!(search_radius(90000), 1050);
    assert_eq!(search_radius(1000000), 1050);
    let mut last = 0;
    for t in (0..200000).step_by(1000) {
        let r = search_radius(t);
        assert!(r >= last);
        last = r;
    }
}

fn ring() -> LevelTiles {
    LevelTiles::load(b"next\n#####\n#   #\n# # #\n#   #\n#####\n").ok().unwrap()
}

#[test]
fn movement_follows_path_and_arrives() {
    let level = ring();
    let mut mover = AiMovement::new(150, p(50, 50));
    let start = level.grid_to_world(GridPos { x: 1, y: 1 });
    let cmd = ai_movement_system(&mut mover, &level, start);
    assert_eq!(mover.current_path.len(), 5);
    assert_eq!(cmd, MoveCommand::Steer { waypoint: start });
    assert_eq!(mover.path_index, 1);
    let cmd = ai_movement_system(&mut mover, &level, p(-45, -50));
    assert_eq!(cmd, MoveCommand::Steer { waypoint: mover.current_path[1] });
    assert_eq!(mover.path_index, 1);
    let cmd = ai_movement_system(&mut mover, &level, p(40, 40));
    assert_eq!(cmd, MoveCommand::Halt);
    assert!(!mover.is_moving());
    assert_eq!(ai_movement_system(&mut mover, &level, p(40, 40)), MoveCommand::Halt);
}

#[test]
fn movement_halts_when_no_route() {
    let level = LevelTiles::load(b"\n#####\n# # #\n###  \n#    \n#####\n").ok().unwrap();
    let mut mover = AiMovement::new(150, p(50, 50));
    let cmd = ai_movement_system(&mut mover, &level, p(-50, -50));
    assert_eq!(cmd, MoveCommand::Halt);
    assert!(!mover.is_moving());
    assert_eq!(mover.current_path.len(), 0);
}

#[test]
fn stale_path_is_searched_again() {
    let level = ring();
    let mut mover = AiMovement::new(150, p(50, 50));
    ai_movement_system(&mut mover, &level, p(-50, -50));
    mover.move_to(p(-50, 50));
    let cmd = ai_movement_system(&mut mover, &level, p(50, -50));
    assert_eq!(mover.current_path.first(), Some(&p(50, -50)));
    assert_eq!(mover.current_path.last(), Some(&p(-50, 50)));
    assert_eq!(cmd, MoveCommand::Steer { waypoint: p(50, -50) });
}

#[test]
fn chasing_sets_target_speed_and_turn_rate() {
    let mut per = AiPerception::new(500, TWENTY_FIVE_DEGREES, p(0, 0));
    per.record_sight(Sight::Seen { hit: p(100, 200), direction: 0 }, 10);
    let mut mover = AiMovement::new(150, p(0, 0));
    let mut facing = Facing::new(SEARCH_TURN_RATE);
    ai_chase_behavior_system(&mut mover, &per, &mut facing, 20);
    assert_eq!(mover.target_position, p(100, 200));
    assert!(mover.move_speed >= 200 && mover.move_speed < 300);
    assert_eq!(facing.turn_rate, CHASE_TURN_RATE);
}

#[test]
fn searching_picks_goal_within_radius() {
    let mut per = AiPerception::new(500, TWENTY_FIVE_DEGREES, p(0, 0));
    per.record_sight(Sight::Seen { hit: p(100, 200), direction: 0 }, 1000);
    per.record_sight(Sight::Unseen, 2000);
    for _ in 0..50 {
        let mut mover = AiMovement::new(150, p(0, 0));
        mover.move_to_target = false;
        let mut facing = Facing::new(CHASE_TURN_RATE);
        ai_chase_behavior_system(&mut mover, &per, &mut facing, 1000);
        let dx = mover.target_position.x - 100;
        let dy = mover.target_position.y - 200;
        assert!(dx >= -50 && dx < 50 && dy >= -50 && dy < 50);
        assert!(mover.move_speed >= 50 && mover.move_speed < 120);
        assert!(mover.is_moving());
        assert_eq!(facing.turn_rate, SEARCH_TURN_RATE);
    }
}

#[test]
fn behaviour_with_given_draws() {
    let mut per = AiPerception::new(500, TWENTY_FIVE_DEGREES, p(10, 10));
    per.record_sight(Sight::Unseen, 5);
    let mut mover = AiMovement::new(150, p(0, 0));
    let mut facing = Facing::new(7);
    chase_behavior_with(&mut mover, &per, &mut facing, 99, p(-3, 4));
    assert_eq!(mover.target_position, p(0, 0));
    assert_eq!(mover.move_speed, 150);
    assert_eq!(facing.turn_rate, 7);
    mover.move_to_target = false;
    chase_behavior_with(&mut mover, &per, &mut facing, 99, p(-3, 4));
    assert_eq!(mover.target_position, p(7, 14));
    assert_eq!(mover.move_speed, 99);
    assert_eq!(facing.turn_rate, SEARCH_TURN_RATE);
}

#[test]
fn perceive_needs_cone_and_target_hit() {
    let mut per = AiPerception::new(500, TWENTY_FIVE_DEGREES, p(0, 0));
    per.perceive(true, RayHit::Target { point: p(400, 0) }, 0, 100);
    assert!(per.can_see_target);
    assert_eq!(per.target_position, p(400, 0));
    assert_eq!(per.last_seen_time, 100);
    per.perceive(true, RayHit::Other, 5, 200);
    assert!(!per.can_see_target);
    assert_eq!(per.target_position, p(400, 0));
    per.perceive(false, RayHit::Target { point: p(10, 10) }, 5, 300);
    assert!(!per.can_see_target);
    assert_eq!(per.target_position, p(400, 0));
    assert_eq!(per.last_seen_time, 100);
    per.perceive(true, RayHit::Nothing, 5, 400);
    assert!(!per.can_see_target);
}
