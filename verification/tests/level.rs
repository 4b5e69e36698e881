use tank_arena::components::{
    clamp_dir, scale_by_unit, Circle, Dir, Movement, Position, DEFAULT_BULLET_RADIUS,
    DEFAULT_PLAYER_RADIUS,
};
use tank_arena::error::ErrorKind;
use tank_arena::map::{Block, BlockKind, GameMap};
use tank_arena::systems::{block_coord, get_position_block_center};

fn grid(rows: &[&str]) -> Vec<Vec<u8>> {
    rows.iter().map(|r| r.as_bytes().to_vec()).collect()
}

#[test]
fn walls_match_grid() {
    let rows = grid(&["x..x", ".s..", "..x."]);
    let map = GameMap::from_lines(&rows, (800, 600));
    assert!(map.is_wall(&Block(0, 0)));
    assert!(map.is_wall(&Block(3, 0)));
    assert!(map.is_wall(&Block(2, 2)));
    assert!(!map.is_wall(&Block(1, 0)));
    assert!(!map.is_wall(&Block(1, 1)));
    assert!(!map.is_wall(&Block(0, 2)));
    // outside the grid nothing is a wall
    assert!(!map.is_wall(&Block(9, 9)));
    assert!(!map.is_wall(&Block(0, 3)));
}

#[test]
fn spawn_blocks_are_ground_for_walls() {
    let rows = grid(&["s"]);
    let map = GameMap::from_lines(&rows, (160, 90));
    assert!(!map.is_wall(&Block(0, 0)));
    assert!(matches!(map.block_matrix[0][0], BlockKind::Ground));
}

#[test]
fn block_size_comes_from_resolution() {
    let rows = grid(&["."]);
    let map = GameMap::from_lines(&rows, (800, 600));
    assert_eq!(map.block_size(), 50);
    let map2 = GameMap::from_lines(&rows, (1920, 1080));
    assert_eq!(map2.block_size(), 120);
}

#[test]
fn spawns_claimed_once_until_exhausted() {
    let rows = grid(&["ss", "ss"]);
    let mut map = GameMap::from_lines(&rows, (800, 600));
    let mut claimed: Vec<Block> = Vec::new();
    for _ in 0..4 {
        let b = map.get_spawn_block().expect("pool should not be empty yet");
        assert!(
            !claimed.contains(&b),
            "the same spawn block was claimed twice"
        );
        claimed.push(b);
    }
    // all four spawn cells came out
    for x in 0..2u8 {
        for y in 0..2u8 {
            assert!(claimed.contains(&Block(x, y)));
        }
    }
    // the exhausted pool fails, and keeps failing
    let e = map.get_spawn_block().expect_err("pool should be exhausted");
    assert_eq!(e.kind(), ErrorKind::NoSpawnAvailable);
    let e2 = map.get_spawn_block().expect_err("pool stays exhausted");
    assert_eq!(e2.kind(), ErrorKind::NoSpawnAvailable);
}

#[test]
fn block_center_is_half_a_block_in() {
    let c = get_position_block_center(Block(5, 5));
    assert_eq!(c, Position { x: 16500, y: 16500 });
    let o = get_position_block_center(Block(0, 0));
    assert_eq!(o, Position { x: 1500, y: 1500 });
}

#[test]
fn block_coord_saturates() {
    assert_eq!(block_coord(-1), 0);
    assert_eq!(block_coord(0), 0);
    assert_eq!(block_coord(2999), 0);
    assert_eq!(block_coord(3000), 1);
    assert_eq!(block_coord(16500), 5);
    assert_eq!(block_coord(3000 * 300), 255);
}

#[test]
fn scaling_by_unit_components() {
    assert_eq!(scale_by_unit(50, 1000), 50);
    assert_eq!(scale_by_unit(50, -1000), -50);
    assert_eq!(scale_by_unit(50, 0), 0);
    assert_eq!(scale_by_unit(100, 707), 70);
    assert_eq!(scale_by_unit(100, -707), -70);
    assert_eq!(scale_by_unit(300, 951), 285);
}

#[test]
fn clamping_directions() {
    assert_eq!(clamp_dir(Dir { x: 5000, y: -5000 }), Dir { x: 1000, y: -1000 });
    assert_eq!(clamp_dir(Dir { x: 707, y: -707 }), Dir { x: 707, y: -707 });
}

#[test]
fn hit_point_ring_samples_the_circle() {
    let player = Circle::new_player_circle();
    assert_eq!(player.get_radius(), DEFAULT_PLAYER_RADIUS);
    assert_eq!(player.get_size(), 2 * DEFAULT_PLAYER_RADIUS);
    assert_eq!(player.hit_points.len(), 20);
    assert_eq!(player.hit_points[0], Position { x: 300, y: 0 });
    assert_eq!(player.hit_points[5], Position { x: 0, y: 300 });
    assert_eq!(player.hit_points[10], Position { x: -300, y: 0 });
    assert_eq!(player.hit_points[15], Position { x: 0, y: -300 });
    assert_eq!(player.hit_points[1], Position { x: 285, y: 92 });

    let bullet = Circle::new_bullet_circle();
    assert_eq!(bullet.get_radius(), DEFAULT_BULLET_RADIUS);
    assert!(bullet.get_radius() < player.get_radius());
    assert_eq!(bullet.hit_points.len(), 20);
    assert_eq!(bullet.hit_points[0], Position { x: 150, y: 0 });
}

#[test]
fn movement_integration_steps_by_velocity() {
    let mut m = Movement::new();
    let p = Position { x: 1000, y: 2000 };
    assert_eq!(p.next(&m), p);
    m.set_player_direction(Dir { x: 1000, y: 0 });
    assert_eq!(p.next(&m), Position { x: 1050, y: 2000 });
    m.stop();
    assert_eq!(p.next(&m), p);
    let bm = Movement::new_bullet_movement(Dir { x: 0, y: -1000 });
    assert_eq!(p.next(&bm), Position { x: 1000, y: 1900 });
}
