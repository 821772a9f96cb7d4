use terarria::terrain::{generate_world, TerrainPlan};
use terarria::tile::TileType;
use terarria::world::GameWorld;
use terarria::{WORLD_HEIGHT, WORLD_WIDTH};

fn flat_plan(height: usize) -> TerrainPlan {
    TerrainPlan {
        raw_heights: vec![height; WORLD_WIDTH],
        cave_mask: vec![false; WORLD_WIDTH * WORLD_HEIGHT],
        sand_patches: vec![0; WORLD_WIDTH],
        trees: vec![None; WORLD_WIDTH],
    }
}

fn generated(plan: &TerrainPlan) -> GameWorld {
    let mut w = GameWorld::new();
    generate_world(&mut w, plan);
    w
}

#[test]
fn flat_world_layers() {
    let w = generated(&flat_plan(60));
    for x in [0i32, 1, 200, 399] {
        assert_eq!(w.get(x, 0), TileType::Air);
        assert_eq!(w.get(x, 59), TileType::Air);
        assert_eq!(w.get(x, 60), TileType::Grass);
        for y in 61..=64 {
            assert_eq!(w.get(x, y), TileType::Dirt);
        }
        assert_eq!(w.get(x, 65), TileType::Stone);
        assert_eq!(w.get(x, 196), TileType::Stone);
        for y in 197..200 {
            assert_eq!(w.get(x, y), TileType::Bedrock);
        }
    }
    assert!(w.surface_heights.iter().all(|h| *h == 60));
}

#[test]
fn generation_leaves_dirty_list_alone() {
    let mut w = GameWorld::new();
    w.set(1, 1, TileType::Stone);
    generate_world(&mut w, &flat_plan(60));
    assert_eq!(w.dirty, vec![(1, 1)]);
    assert_eq!(w.get(1, 1), TileType::Air);
}

#[test]
fn surface_is_smoothed_by_neighbours() {
    let mut plan = flat_plan(60);
    for x in 0..WORLD_WIDTH {
        plan.raw_heights[x] = if x % 2 == 0 { 50 } else { 53 };
    }
    let w = generated(&plan);
    assert_eq!(w.surface_heights[0], 50);
    assert_eq!(w.surface_heights[1], 51);
    assert_eq!(w.surface_heights[2], 52);
    assert_eq!(w.surface_heights[399], 53);
    assert_eq!(w.get(1, 51), TileType::Grass);
    assert_eq!(w.get(2, 52), TileType::Grass);
}

#[test]
fn extreme_heights_stay_in_world() {
    let w = generated(&flat_plan(190));
    assert_eq!(w.get(30, 190), TileType::Grass);
    assert_eq!(w.get(30, 194), TileType::Dirt);
    assert_eq!(w.get(30, 195), TileType::Stone);
    assert_eq!(w.get(30, 197), TileType::Bedrock);
    let w = generated(&flat_plan(5));
    assert_eq!(w.get(30, 5), TileType::Grass);
    assert_eq!(w.get(30, 4), TileType::Air);
}

#[test]
fn caves_only_between_depth_and_floor() {
    let mut plan = flat_plan(60);
    plan.cave_mask = vec![true; WORLD_WIDTH * WORLD_HEIGHT];
    let w = generated(&plan);
    assert_eq!(w.get(100, 60), TileType::Grass);
    assert_eq!(w.get(100, 64), TileType::Dirt);
    assert_eq!(w.get(100, 65), TileType::Stone);
    assert_eq!(w.get(100, 66), TileType::Air);
    assert_eq!(w.get(100, 195), TileType::Air);
    assert_eq!(w.get(100, 196), TileType::Stone);
    assert_eq!(w.get(100, 197), TileType::Bedrock);
}

#[test]
fn single_cave_cell() {
    let mut plan = flat_plan(60);
    plan.cave_mask[100 * WORLD_WIDTH + 7] = true;
    plan.cave_mask[62 * WORLD_WIDTH + 7] = true;
    let w = generated(&plan);
    assert_eq!(w.get(7, 100), TileType::Air);
    assert_eq!(w.get(7, 62), TileType::Dirt);
    assert_eq!(w.get(8, 100), TileType::Stone);
}

#[test]
fn sand_patches_from_surface_down() {
    let mut plan = flat_plan(60);
    plan.sand_patches[10] = 2;
    plan.sand_patches[20] = 9;
    let w = generated(&plan);
    assert_eq!(w.get(10, 60), TileType::Sand);
    assert_eq!(w.get(10, 61), TileType::Sand);
    assert_eq!(w.get(10, 62), TileType::Dirt);
    for y in 60..64 {
        assert_eq!(w.get(20, y), TileType::Sand);
    }
    assert_eq!(w.get(20, 64), TileType::Dirt);
    assert_eq!(w.get(11, 60), TileType::Grass);
}

#[test]
fn sand_never_covers_bedrock() {
    let mut plan = flat_plan(190);
    plan.sand_patches[3] = 4;
    let w = generated(&plan);
    for y in 190..194 {
        assert_eq!(w.get(3, y), TileType::Sand);
    }
    let mut plan = flat_plan(190);
    plan.cave_mask = vec![true; WORLD_WIDTH * WORLD_HEIGHT];
    let w = generated(&plan);
    assert_eq!(w.get(3, 196), TileType::Stone);
    assert_eq!(w.get(3, 197), TileType::Bedrock);
}

#[test]
fn one_tree_trunk_and_crown() {
    let mut plan = flat_plan(60);
    plan.trees[5] = Some(6);
    let w = generated(&plan);
    for y in 54..60 {
        assert_eq!(w.get(5, y), TileType::Wood);
    }
    assert_eq!(w.get(5, 53), TileType::Leaves);
    for x in [3, 4, 6, 7] {
        assert_eq!(w.get(x, 53), TileType::Leaves);
        assert_eq!(w.get(x, 54), TileType::Leaves);
    }
    for x in [4, 6] {
        assert_eq!(w.get(x, 55), TileType::Leaves);
        assert_eq!(w.get(x, 56), TileType::Leaves);
    }
    assert_eq!(w.get(3, 55), TileType::Air);
    assert_eq!(w.get(7, 56), TileType::Air);
    assert_eq!(w.get(5, 52), TileType::Air);
    assert_eq!(w.get(2, 53), TileType::Air);
    assert_eq!(w.get(8, 54), TileType::Air);
    assert_eq!(w.get(4, 57), TileType::Air);
    assert_eq!(w.get(5, 60), TileType::Grass);
}

#[test]
fn trees_are_spaced_by_the_scan() {
    let mut plan = flat_plan(60);
    for x in 0..WORLD_WIDTH {
        plan.trees[x] = Some(4);
    }
    let w = generated(&plan);
    for x in 0..WORLD_WIDTH as i32 {
        let expect_tree = x >= 5 && x < 395 && (x - 5) % 6 == 0;
        assert_eq!(w.get(x, 59) == TileType::Wood, expect_tree, "column {x}");
    }
}

#[test]
fn scan_moves_one_column_without_request() {
    let mut plan = flat_plan(60);
    plan.trees[5] = Some(4);
    plan.trees[12] = Some(4);
    plan.trees[13] = Some(4);
    let w = generated(&plan);
    assert_eq!(w.get(5, 59), TileType::Wood);
    assert_eq!(w.get(12, 59), TileType::Wood);
    assert_eq!(w.get(13, 59), TileType::Air);
}

#[test]
fn trees_need_grass() {
    let mut plan = flat_plan(60);
    plan.trees[5] = Some(6);
    plan.trees[6] = Some(6);
    plan.sand_patches[5] = 2;
    let w = generated(&plan);
    assert_eq!(w.get(5, 59), TileType::Air);
    assert_eq!(w.get(5, 60), TileType::Sand);
    // the scan still jumps past column 5, so column 6 gets no tree either
    assert_eq!(w.get(6, 59), TileType::Air);
}

#[test]
fn no_tree_near_edges() {
    let mut plan = flat_plan(60);
    for x in [0, 1, 2, 3, 4, 395, 396, 397, 398, 399] {
        plan.trees[x] = Some(5);
    }
    let w = generated(&plan);
    for x in [0, 4, 395, 399] {
        assert_eq!(w.get(x, 59), TileType::Air);
    }
}

#[test]
fn tall_tree_is_clipped_at_the_top() {
    let mut plan = flat_plan(5);
    plan.trees[5] = Some(8);
    let w = generated(&plan);
    for y in 0..5 {
        assert_eq!(w.get(5, y), TileType::Wood);
    }
    assert_eq!(w.get(4, 0), TileType::Leaves);
    assert_eq!(w.get(4, 1), TileType::Leaves);
    assert_eq!(w.get(3, 1), TileType::Air);
}

#[test]
fn bedrock_floor_in_any_world() {
    let mut plan = flat_plan(100);
    for x in 0..WORLD_WIDTH {
        plan.raw_heights[x] = 5 + (x * 37) % 186;
        plan.sand_patches[x] = x % 7;
        plan.trees[x] = if x % 3 == 0 { Some(4 + x % 5) } else { None };
    }
    plan.cave_mask = (0..WORLD_WIDTH * WORLD_HEIGHT).map(|i| i % 5 != 0).collect();
    let w = generated(&plan);
    for x in 0..WORLD_WIDTH as i32 {
        for y in 197..200 {
            assert_eq!(w.get(x, y), TileType::Bedrock);
        }
        let s = w.surface_heights[x as usize] as i32;
        let top = w.get(x, s);
        assert!(top == TileType::Grass || top == TileType::Sand);
        for y in s + 1..=s + 4 {
            let t = w.get(x, y);
            assert!(t == TileType::Dirt || t == TileType::Sand);
        }
        for y in 0..s {
            let t = w.get(x, y);
            assert!(t == TileType::Air || t == TileType::Wood || t == TileType::Leaves);
        }
    }
}
