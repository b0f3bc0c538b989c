use stealth_ai::grid::{gen_level_tiles, GridPos, LevelTiles, TileValue, WorldPoint};
use stealth_ai::level_text::LevelError;
use stealth_ai::obstacles::{dynamic_light_blocking_system, DynamicLightBlocker, LevelGeo, Rect};
use stealth_ai::path::heuristic;

const RING: &str = "next\n#####\n#   #\n# # #\n#   #\n#####\n";

fn ring() -> LevelTiles {
    LevelTiles::load(RING.as_bytes()).ok().unwrap()
}

fn p(x: i64, y: i64) -> WorldPoint {
    WorldPoint { x, y }
}

#[test]
fn load_reads_label_size_and_tiles() {
    let level = ring();
    assert_eq!(level.width, 5);
    assert_eq!(level.height, 5);
    assert_eq!(level.tile_size, 50);
    assert_eq!(level.next_level, b"next".to_vec());
    assert_eq!(level.tiles[0], TileValue::Wall);
    assert_eq!(level.tiles[6], TileValue::Empty);
    assert_eq!(level.tiles[12], TileValue::Wall);
    assert_eq!(level.pickups_total, 0);
}

#[test]
fn load_counts_pickups_and_skips_unknown_characters() {
    let level = LevelTiles::load(b"\n#$V#\n#X?$#\n").ok().unwrap();
    assert_eq!(level.width, 4);
    assert_eq!(level.height, 2);
    assert_eq!(level.pickups_total, 2);
    assert_eq!(level.next_level.len(), 0);
    assert_eq!(
        level.tiles,
        vec![
            TileValue::Wall,
            TileValue::Pickup,
            TileValue::Player,
            TileValue::Wall,
            TileValue::Wall,
            TileValue::Enemy,
            TileValue::Pickup,
            TileValue::Wall,
        ]
    );
}

#[test]
fn load_refuses_ragged_rows() {
    let r = LevelTiles::load(b"x\n###\n##\n");
    assert_eq!(r.err(), Some(LevelError::RaggedRows));
}

#[test]
fn load_accepts_a_wide_level() {
    let mut text = b"wide\n".to_vec();
    for _ in 0..2 {
        text.extend(std::iter::repeat(b'#').take(5000));
        text.push(b'\n');
    }
    let level = LevelTiles::load(&text).ok().unwrap();
    assert_eq!(level.width, 5000);
    assert_eq!(level.height, 2);
    assert_eq!(level.tiles.len(), 10000);
    let walls = stealth_ai::walls::tile_vector_to_wall_set(&level.tiles, 5000, 2);
    assert_eq!(walls.len(), 1);
}

#[test]
fn load_without_newline_is_empty_level() {
    let level = LevelTiles::load(b"only a label").ok().unwrap();
    assert_eq!(level.width, 0);
    assert_eq!(level.height, 0);
    assert_eq!(level.next_level, b"only a label".to_vec());
}

#[test]
fn tiles_outside_the_grid_are_walls() {
    let level = ring();
    assert_eq!(level.get_tile(&GridPos { x: 1, y: 1 }), TileValue::Empty);
    assert_eq!(level.get_tile(&GridPos { x: 5, y: 1 }), TileValue::Wall);
    assert_eq!(level.get_tile(&GridPos { x: 1, y: 5 }), TileValue::Wall);
    assert_eq!(level.get_tile(&GridPos { x: -1, y: 1 }), TileValue::Wall);
    assert_eq!(level.get_tile(&GridPos { x: 1, y: -1 }), TileValue::Wall);
}

#[test]
fn world_and_grid_conversions() {
    let level = ring();
    assert_eq!(level.grid_to_world(GridPos { x: 1, y: 1 }), p(-50, -50));
    assert_eq!(level.grid_to_world(GridPos { x: 2, y: 2 }), p(0, 0));
    assert_eq!(level.world_to_grid(p(-50, -50)), GridPos { x: 1, y: 1 });
    assert_eq!(level.world_to_grid(p(24, -25)), GridPos { x: 2, y: 1 });
    assert_eq!(level.world_to_grid(p(25, 74)), GridPos { x: 3, y: 3 });
}

#[test]
fn diagonal_never_cuts_a_wall_corner() {
    let level = LevelTiles::load(b"\n   \n  #\n # \n").ok().unwrap();
    let succ = level.successors(&GridPos { x: 1, y: 1 });
    assert!(!succ.iter().any(|(q, _)| *q == GridPos { x: 2, y: 2 }));
    assert!(succ.contains(&(GridPos { x: 0, y: 0 }, 3)));
    assert!(succ.contains(&(GridPos { x: 1, y: 0 }, 2)));
    assert!(succ.contains(&(GridPos { x: 0, y: 1 }, 2)));
    assert!(!succ.iter().any(|(q, _)| *q == GridPos { x: 2, y: 0 }));
    assert_eq!(succ.len(), 3);
}

#[test]
fn heuristic_is_a_third_of_manhattan() {
    assert_eq!(heuristic(&GridPos { x: 0, y: 0 }, &GridPos { x: 3, y: 6 }), 3);
    assert_eq!(heuristic(&GridPos { x: 1, y: 1 }, &GridPos { x: 3, y: 3 }), 1);
    assert_eq!(GridPos { x: -2, y: 5 }.distance(&GridPos { x: 3, y: 1 }), 9);
}

#[test]
fn ring_with_pillar_path_goes_around() {
    let level = ring();
    let from = level.grid_to_world(GridPos { x: 1, y: 1 });
    let to = level.grid_to_world(GridPos { x: 3, y: 3 });
    let path = level.get_path(from, to).unwrap();
    assert_eq!(path.len(), 5);
    assert_eq!(path[0], from);
    assert_eq!(path[4], to);
    assert!(!path.contains(&p(0, 0)));
}

#[test]
fn open_room_path_takes_diagonals() {
    let level = LevelTiles::load(b"\n#####\n#   #\n#   #\n#   #\n#####\n").ok().unwrap();
    let path = level.get_path(p(-50, -50), p(50, 50)).unwrap();
    assert_eq!(path, vec![p(-50, -50), p(0, 0), p(50, 50)]);
}

#[test]
fn path_to_same_cell_is_one_point() {
    let level = ring();
    assert_eq!(level.get_path(p(-50, -50), p(-40, -45)), Some(vec![p(-50, -50)]));
}

#[test]
fn walled_in_goal_is_unreachable() {
    let level = LevelTiles::load(b"\n#####\n# # #\n###  \n#    \n#####\n").ok().unwrap();
    assert_eq!(level.get_path(p(-50, -50), p(50, 50)), None);
    assert_eq!(level.get_path(p(-50, -50), p(0, -100)), None);
    assert_eq!(level.get_path(p(-50, -50), p(5000, 5000)), None);
}

#[test]
fn obstacle_registry_keeps_walls_and_refreshes_blockers() {
    let level = ring();
    let mut geo = LevelGeo::from_level(&level);
    assert_eq!(geo.level_blocks.len(), 5);
    assert_eq!(geo.level_blocks[0], Rect { min: p(-125, -125), max: p(125, -75) });
    let blocker = DynamicLightBlocker { half_size: 12 };
    let square = blocker.get_poly(p(10, 20));
    assert_eq!(square, Rect { min: p(-2, 8), max: p(22, 32) });
    geo.temp_block(square);
    let all = geo.get_geo_multipoly();
    assert_eq!(all.len(), 6);
    assert_eq!(all[0], square);
    assert_eq!(all[1], geo.level_blocks[0]);
    geo.reset_temps_for_next_frame();
    assert_eq!(geo.get_geo_multipoly().len(), 5);
}

#[test]
fn blockers_are_rebuilt_each_tick() {
    let level = ring();
    let mut geo = LevelGeo::from_level(&level);
    let b = DynamicLightBlocker { half_size: 25 };
    dynamic_light_blocking_system(&mut geo, &vec![(b, p(0, 0)), (b, p(100, -40))]);
    assert_eq!(geo.temp_blocks, vec![
        Rect { min: p(-25, -25), max: p(25, 25) },
        Rect { min: p(75, -65), max: p(125, -15) },
    ]);
    dynamic_light_blocking_system(&mut geo, &vec![(b, p(10, 10))]);
    assert_eq!(geo.temp_blocks, vec![Rect { min: p(-15, -15), max: p(35, 35) }]);
    assert_eq!(geo.level_blocks.len(), 5);
    dynamic_light_blocking_system(&mut geo, &vec![]);
    assert_eq!(geo.get_geo_multipoly().len(), 5);
}

#[test]
fn generated_level_has_border_and_pillars() {
    let level = gen_level_tiles(8, 6);
    assert_eq!(level.width, 8);
    assert_eq!(level.height, 6);
    assert_eq!(level.tiles.len(), 48);
    let at = |x: usize, y: usize| level.tiles[x + y * 8];
    assert_eq!(at(0, 3), TileValue::Wall);
    assert_eq!(at(7, 3), TileValue::Wall);
    assert_eq!(at(3, 5), TileValue::Wall);
    assert_eq!(at(4, 0), TileValue::Wall);
    assert_eq!(at(1, 1), TileValue::Empty);
    // x * y = 4: 4 % 3 == 1 and 4 / 3 = 1, 1 % 4 == 1: a pillar.
    assert_eq!(at(2, 2), TileValue::Wall);
    // x * y = 6: 6 % 3 == 0: open.
    assert_eq!(at(2, 3), TileValue::Empty);
    let big = gen_level_tiles(20, 20);
    // x * y = 16 at (4, 4): 16 % 3 == 1, 16 / 3 = 5, 5 % 4 == 1.
    assert_eq!(big.tiles[4 + 4 * 20], TileValue::Wall);
    assert_eq!(big.tiles[5 + 4 * 20], TileValue::Empty);
}

fn hops_around(level_text: &[u8]) -> usize {
    let level = LevelTiles::load(level_text).ok().unwrap();
    let from = level.grid_to_world(GridPos { x: 1, y: 1 });
    let to = level.grid_to_world(GridPos { x: 3, y: 3 });
    let path = level.get_path(from, to).unwrap();
    assert_eq!(path[0], from);
    assert_eq!(path[path.len() - 1], to);
    path.len() - 1
}

#[test]
fn five_by_five_hop_counts_by_wall_position() {
    assert_eq!(hops_around(b"\n#####\n#   #\n# # #\n#   #\n#####\n"), 4);
    assert_eq!(hops_around(b"\n#####\n# # #\n#   #\n#   #\n#####\n"), 3);
    assert_eq!(hops_around(b"\n#####\n#   #\n##  #\n#   #\n#####\n"), 3);
    assert_eq!(hops_around(b"\n#####\n#  ##\n#   #\n#   #\n#####\n"), 2);
    assert_eq!(hops_around(b"\n#####\n#   #\n#   #\n# # #\n#####\n"), 3);
}
