use stealth_ai::grid::{GridPos, TileValue, WorldPoint};
use stealth_ai::walls::{
    count_wall_continues_x, count_wall_continues_y, take_longest_wall, tile_vector_to_wall_set,
    Wall,
};

const E: TileValue = TileValue::Empty;
const W: TileValue = TileValue::Wall;

fn pos(x: i64, y: i64) -> GridPos {
    GridPos { x, y }
}

fn wall(x0: i64, y0: i64, x1: i64, y1: i64) -> Wall {
    Wall { top_left: pos(x0, y0), bottom_right: pos(x1, y1) }
}

#[test]
fn test_wall_rect_single_tile() {
    let w = wall(0, 0, 1, 1);
    assert_eq!(w.get_center(10), WorldPoint { x: 5, y: 5 });
    assert_eq!(w.get_size(10), WorldPoint { x: 10, y: 10 });
}

#[test]
fn test_wall_rect_long_x() {
    let w = wall(0, 0, 10, 1);
    assert_eq!(w.get_center(10), WorldPoint { x: 50, y: 5 });
    assert_eq!(w.get_size(10), WorldPoint { x: 100, y: 10 });
}

#[test]
fn test_wall_rect_long_y() {
    let w = wall(0, 0, 1, 10);
    assert_eq!(w.get_center(10), WorldPoint { x: 5, y: 50 });
    assert_eq!(w.get_size(10), WorldPoint { x: 10, y: 100 });
}

#[test]
fn test_wall_rect_square() {
    let w = wall(0, 0, 10, 10);
    assert_eq!(w.get_center(10), WorldPoint { x: 50, y: 50 });
    assert_eq!(w.get_size(10), WorldPoint { x: 100, y: 100 });
}

#[test]
fn test_wall_x_length_single() {
    let test_grid = vec![
        true, false, false,
        false, false, false,
        false, false, false,
    ];
    assert_eq!(count_wall_continues_x(&test_grid, 3, 3, &pos(0, 0)), 1);
}

#[test]
fn test_wall_x_length_mid() {
    let test_grid = vec![
        true, true, false,
        false, false, false,
        false, false, false,
    ];
    assert_eq!(count_wall_continues_x(&test_grid, 3, 3, &pos(0, 0)), 2);
}

#[test]
fn test_wall_x_length_wholeside() {
    let test_grid = vec![
        true, true, true,
        false, false, false,
        false, false, false,
    ];
    assert_eq!(count_wall_continues_x(&test_grid, 3, 3, &pos(0, 0)), 3);
}

#[test]
fn test_wall_y_length_single() {
    let test_grid = vec![
        true, false, false,
        false, false, false,
        false, false, false,
    ];
    assert_eq!(count_wall_continues_y(&test_grid, 3, 3, &pos(0, 0)), 1);
}

#[test]
fn test_wall_y_length_mid() {
    let test_grid = vec![
        true, false, false,
        true, false, false,
        false, false, false,
    ];
    assert_eq!(count_wall_continues_y(&test_grid, 3, 3, &pos(0, 0)), 2);
}

#[test]
fn test_wall_y_length_wholeside() {
    let test_grid = vec![
        true, false, false,
        true, false, false,
        true, false, false,
    ];
    assert_eq!(count_wall_continues_y(&test_grid, 3, 3, &pos(0, 0)), 3);
}

#[test]
fn test_takes_longest_wall_x() {
    let mut test_grid = vec![
        true, true, true,
        true, false, false,
        false, false, false,
    ];
    let expected_grid = vec![
        false, false, false,
        true, false, false,
        false, false, false,
    ];
    let expected_wall = wall(0, 0, 2, 0);
    let result_wall = take_longest_wall(&mut test_grid, 3, 3, &pos(0, 0));
    assert_eq!(result_wall.top_left, expected_wall.top_left, "Return correct wall top left bound");
    assert_eq!(result_wall.bottom_right, expected_wall.bottom_right, "Return correct wall bottom right bound");
    assert_eq!(test_grid, expected_grid, "Properly mutate grid");
}

#[test]
fn test_takes_longest_wall_y() {
    let mut test_grid = vec![
        true, true, false,
        true, false, false,
        true, false, false,
    ];
    let expected_grid = vec![
        false, true, false,
        false, false, false,
        false, false, false,
    ];
    let expected_wall = wall(0, 0, 0, 2);
    let result_wall = take_longest_wall(&mut test_grid, 3, 3, &pos(0, 0));
    assert_eq!(result_wall.top_left, expected_wall.top_left, "Return correct wall top left bound");
    assert_eq!(result_wall.bottom_right, expected_wall.bottom_right, "Return correct wall bottom right bound");
    assert_eq!(test_grid, expected_grid, "Properly mutate grid");
}

#[test]
fn test_makes_walls_steps() {
    let test_grid = vec![
        W, E, E,
        W, W, E,
        W, W, W,
    ];
    let expected_walls = vec![wall(0, 0, 0, 2), wall(1, 1, 1, 2), wall(2, 2, 2, 2)];
    let result_walls = tile_vector_to_wall_set(&test_grid, 3, 3);
    assert_eq!(result_walls.len(), 3, "3 walls expected");
    for i in 0..3 {
        assert_eq!(result_walls[i], expected_walls[i], "Wall {} matches", i);
    }
}

#[test]
fn test_makes_walls_empty() {
    let test_grid = vec![TileValue::Empty; 9];
    let result_walls = tile_vector_to_wall_set(&test_grid, 3, 3);
    assert_eq!(result_walls.len(), 0, "Empty grid should produce no walls");
}

#[test]
fn test_makes_walls_x() {
    let test_grid = vec![
        E, W, E,
        W, W, W,
        E, W, E,
    ];
    let expected_walls = vec![wall(1, 0, 1, 2), wall(0, 1, 0, 1), wall(2, 1, 2, 1)];
    let result_walls = tile_vector_to_wall_set(&test_grid, 3, 3);
    assert_eq!(result_walls.len(), 3, "3 walls expected");
    for i in 0..3 {
        assert_eq!(result_walls[i], expected_walls[i], "Wall {} matches", i);
    }
}

fn covered_once(walls: &[Wall], tiles: &[TileValue], w: i64, h: i64) -> bool {
    for y in 0..h {
        for x in 0..w {
            let n = walls
                .iter()
                .filter(|wl| {
                    wl.top_left.x <= x && x <= wl.bottom_right.x && wl.top_left.y <= y && y <= wl.bottom_right.y
                })
                .count();
            let is_wall = tiles[(x + y * w) as usize] == TileValue::Wall;
            if (is_wall && n != 1) || (!is_wall && n != 0) {
                return false;
            }
        }
    }
    true
}

#[test]
fn l_shaped_walls_merge_into_few_runs() {
    let test_grid = vec![
        W, E, E,
        W, E, E,
        W, W, W,
    ];
    let result_walls = tile_vector_to_wall_set(&test_grid, 3, 3);
    assert!(result_walls.len() == 2 || result_walls.len() == 3);
    assert_eq!(result_walls, vec![wall(0, 0, 0, 2), wall(1, 2, 2, 2)]);
    assert!(covered_once(&result_walls, &test_grid, 3, 3));
}

#[test]
fn all_wall_grid_merges_into_one_rectangle() {
    let test_grid = vec![TileValue::Wall; 9];
    let result_walls = tile_vector_to_wall_set(&test_grid, 3, 3);
    assert_eq!(result_walls, vec![wall(0, 0, 2, 2)]);
    assert!(covered_once(&result_walls, &test_grid, 3, 3));
}

#[test]
fn square_block_becomes_one_wall() {
    let mut test_grid = vec![
        true, true, false,
        true, true, false,
        false, false, false,
    ];
    let result_wall = take_longest_wall(&mut test_grid, 3, 3, &pos(0, 0));
    assert_eq!(result_wall, wall(0, 0, 1, 1));
    assert_eq!(test_grid, vec![false; 9]);
}

#[test]
fn tie_prefers_x_and_widens_only_over_full_rows() {
    let mut test_grid = vec![
        true, true, false,
        true, false, false,
        false, false, false,
    ];
    let result_wall = take_longest_wall(&mut test_grid, 3, 3, &pos(0, 0));
    assert_eq!(result_wall, wall(0, 0, 1, 0));
    assert_eq!(test_grid, vec![false, false, false, true, false, false, false, false, false]);
}

#[test]
fn column_run_widens_to_the_right() {
    let mut test_grid = vec![
        true, true, false,
        true, true, false,
        true, true, true,
    ];
    let result_wall = take_longest_wall(&mut test_grid, 3, 3, &pos(0, 0));
    assert_eq!(result_wall, wall(0, 0, 1, 2));
    assert_eq!(test_grid, vec![false, false, false, false, false, false, false, false, true]);
}

#[test]
fn block_with_notch_covers_every_wall_once() {
    let test_grid = vec![
        W, W, W, W,
        W, W, W, W,
        W, W, E, W,
        E, W, W, W,
    ];
    let result_walls = tile_vector_to_wall_set(&test_grid, 4, 4);
    assert_eq!(result_walls[0], wall(0, 0, 3, 1));
    assert!(covered_once(&result_walls, &test_grid, 4, 4));
}

#[test]
fn ring_with_pillar_covers_every_wall_once() {
    let test_grid = vec![
        W, W, W, W, W,
        W, E, E, E, W,
        W, E, W, E, W,
        W, E, E, E, W,
        W, W, W, W, W,
    ];
    let result_walls = tile_vector_to_wall_set(&test_grid, 5, 5);
    assert!(covered_once(&result_walls, &test_grid, 5, 5));
    assert_eq!(result_walls.len(), 5);
}
