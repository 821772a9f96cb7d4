use terarria::tile::TileType;
use terarria::world::{in_world, tile_to_world, GameWorld};
use terarria::{TILE_SIZE_PX, WORLD_HEIGHT, WORLD_WIDTH};

#[test]
fn new_world_is_empty_air() {
    let w = GameWorld::new();
    assert_eq!(w.tiles.len(), WORLD_WIDTH * WORLD_HEIGHT);
    assert!(w.tiles.iter().all(|t| *t == TileType::Air));
    assert!(w.surface_heights.iter().all(|h| *h == WORLD_HEIGHT / 2));
    assert!(w.dirty.is_empty());
    let d = GameWorld::default();
    assert_eq!(d.tiles, w.tiles);
}

#[test]
fn outside_reads_as_bedrock() {
    let w = GameWorld::new();
    assert_eq!(w.get(-1, 0), TileType::Bedrock);
    assert_eq!(w.get(0, -1), TileType::Bedrock);
    assert_eq!(w.get(400, 0), TileType::Bedrock);
    assert_eq!(w.get(0, 200), TileType::Bedrock);
    assert_eq!(w.get(399, 199), TileType::Air);
}

#[test]
fn read_after_write() {
    let mut w = GameWorld::new();
    w.set(10, 20, TileType::Stone);
    assert_eq!(w.get(10, 20), TileType::Stone);
    assert_eq!(w.tiles[20 * WORLD_WIDTH + 10], TileType::Stone);
    assert_eq!(w.get(11, 20), TileType::Air);
    assert_eq!(w.get(10, 21), TileType::Air);
    w.set(10, 20, TileType::Wood);
    assert_eq!(w.get(10, 20), TileType::Wood);
}

#[test]
fn set_marks_dirty_once() {
    let mut w = GameWorld::new();
    w.set(1, 2, TileType::Sand);
    w.set(3, 4, TileType::Sand);
    w.set(1, 2, TileType::Dirt);
    assert_eq!(w.dirty, vec![(1, 2), (3, 4)]);
    let taken = w.take_dirty();
    assert_eq!(taken, vec![(1, 2), (3, 4)]);
    assert!(w.dirty.is_empty());
    assert_eq!(w.get(1, 2), TileType::Dirt);
}

#[test]
fn set_outside_does_nothing() {
    let mut w = GameWorld::new();
    w.set(-1, 5, TileType::Stone);
    w.set(5, 200, TileType::Stone);
    assert!(w.dirty.is_empty());
    assert!(w.tiles.iter().all(|t| *t == TileType::Air));
}

#[test]
fn mine_removes_solid_tiles_only() {
    let mut w = GameWorld::new();
    w.set(5, 5, TileType::Stone);
    w.take_dirty();
    assert!(w.mine(5, 5));
    assert_eq!(w.get(5, 5), TileType::Air);
    assert_eq!(w.dirty, vec![(5, 5)]);
    w.take_dirty();
    assert!(!w.mine(5, 5));
    assert!(w.dirty.is_empty());
    assert!(!w.mine(-3, 5));
}

#[test]
fn place_fills_air_next_to_terrain() {
    let mut w = GameWorld::new();
    w.set(7, 9, TileType::Stone);
    assert!(w.place(7, 8, TileType::Wood));
    assert_eq!(w.get(7, 8), TileType::Wood);
    assert!(!w.place(7, 8, TileType::Sand));
    assert_eq!(w.get(7, 8), TileType::Wood);
    assert!(!w.place(400, 8, TileType::Sand));
}

#[test]
fn place_refuses_floating_blocks() {
    let mut w = GameWorld::new();
    assert!(!w.can_place(50, 50));
    assert!(!w.place(50, 50, TileType::Dirt));
    assert_eq!(w.get(50, 50), TileType::Air);
    assert!(w.dirty.is_empty());
}

#[test]
fn place_accepts_each_neighbour() {
    for (nx, ny) in [(49, 50), (51, 50), (50, 49), (50, 51)] {
        let mut w = GameWorld::new();
        w.set(nx, ny, TileType::Stone);
        assert!(w.can_place(50, 50));
        assert!(w.place(50, 50, TileType::Sand));
        assert_eq!(w.get(50, 50), TileType::Sand);
    }
}

#[test]
fn world_edge_counts_as_terrain() {
    let mut w = GameWorld::new();
    assert!(w.can_place(0, 50));
    assert!(w.can_place(399, 50));
    assert!(w.can_place(50, 0));
    assert!(w.can_place(50, 199));
    assert!(w.place(0, 50, TileType::Dirt));
    assert!(!w.can_place(-1, 50));
}

#[test]
fn column_and_row_probes() {
    let mut w = GameWorld::new();
    w.set(10, 12, TileType::Dirt);
    assert!(w.column_has_solid(10, 10, 12));
    assert!(w.column_has_solid(10, 12, 12));
    assert!(!w.column_has_solid(10, 10, 11));
    assert!(!w.column_has_solid(11, 0, 199));
    assert!(w.row_has_solid(12, 8, 10));
    assert!(!w.row_has_solid(12, 11, 20));
    // empty ranges hit nothing
    assert!(!w.column_has_solid(10, 13, 12));
    assert!(!w.row_has_solid(12, 11, 10));
    // beyond the world counts as solid
    assert!(w.column_has_solid(5, 198, 200));
    assert!(w.row_has_solid(50, -1, 0));
}

#[test]
fn tile_centres_in_pixels() {
    assert_eq!(TILE_SIZE_PX, 16);
    assert_eq!(tile_to_world(0, 0), (8, -8));
    assert_eq!(tile_to_world(3, 2), (56, -40));
    assert_eq!(tile_to_world(-1, -1), (-8, 8));
}

#[test]
fn spawn_above_middle_column() {
    let mut w = GameWorld::new();
    w.surface_heights[200] = 70;
    assert_eq!(w.spawn_position(), tile_to_world(200, 68));
    let fresh = GameWorld::new();
    assert_eq!(fresh.spawn_position(), (200 * 16 + 8, -(98 * 16 + 8)));
}

#[test]
fn in_world_bounds() {
    assert!(in_world(0, 0));
    assert!(in_world(399, 199));
    assert!(!in_world(400, 0));
    assert!(!in_world(0, 200));
    assert!(!in_world(-1, 3));
}
