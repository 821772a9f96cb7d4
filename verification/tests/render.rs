use terarria::render::RenderStep;
use terarria::tile::TileType;
use terarria::view::TileRange;
use terarria::world::GameWorld;

fn sorted<T: Ord + Clone>(v: &[T]) -> Vec<T> {
    let mut v = v.to_vec();
    v.sort();
    v
}

fn sorted_spawn(v: &[((i32, i32), TileType)]) -> Vec<((i32, i32), TileType)> {
    let mut v = v.to_vec();
    v.sort_by_key(|(k, _)| *k);
    v
}

fn small_world() -> GameWorld {
    let mut w = GameWorld::new();
    w.set(1, 1, TileType::Stone);
    w.set(2, 1, TileType::Dirt);
    w.set(5, 5, TileType::Sand);
    w.take_dirty();
    w
}

#[test]
fn first_frame_spawns_non_air_cells_in_view() {
    let mut w = small_world();
    let view = TileRange::clamped_to_world(0, 3, 0, 3);
    let RenderStep { despawn, spawn } = w.render_step(&vec![], view);
    assert!(despawn.is_empty());
    assert_eq!(sorted_spawn(&spawn), vec![((1, 1), TileType::Stone), ((2, 1), TileType::Dirt)]);
}

#[test]
fn out_of_view_sprites_go_and_kept_ones_stay() {
    let mut w = small_world();
    let view = TileRange::clamped_to_world(0, 3, 0, 3);
    let rendered = vec![(1, 1), (2, 1), (5, 5)];
    let step = w.render_step(&rendered, view);
    assert_eq!(step.despawn, vec![(5, 5)]);
    assert!(step.spawn.is_empty());
}

#[test]
fn changed_cells_are_redrawn_at_once() {
    let mut w = small_world();
    let view = TileRange::clamped_to_world(0, 3, 0, 3);
    assert!(w.mine(1, 1));
    w.set(2, 1, TileType::Wood);
    w.set(3, 3, TileType::Leaves);
    let step = w.render_step(&vec![(1, 1), (2, 1)], view);
    assert_eq!(sorted(&step.despawn), vec![(1, 1), (2, 1)]);
    assert_eq!(sorted_spawn(&step.spawn), vec![((2, 1), TileType::Wood), ((3, 3), TileType::Leaves)]);
    assert!(w.dirty.is_empty());
}

#[test]
fn screen_matches_view_after_step() {
    let mut w = small_world();
    w.set(0, 2, TileType::Grass);
    let view = TileRange::clamped_to_world(0, 5, 0, 5);
    let rendered = vec![(1, 1), (5, 5)];
    let step = w.render_step(&rendered, view);
    let mut on_screen: Vec<(i32, i32)> =
        rendered.iter().copied().filter(|k| !step.despawn.contains(k)).collect();
    on_screen.extend(step.spawn.iter().map(|(k, _)| *k));
    let mut expected = vec![];
    for y in 0..=5 {
        for x in 0..=5 {
            if w.get(x, y) != TileType::Air {
                expected.push((x, y));
            }
        }
    }
    assert_eq!(sorted(&on_screen), sorted(&expected));
}

#[test]
fn empty_view_spawns_nothing() {
    let mut w = small_world();
    let view = TileRange::clamped_to_world(10, 5, 0, 3);
    let step = w.render_step(&vec![(1, 1)], view);
    assert_eq!(step.despawn, vec![(1, 1)]);
    assert!(step.spawn.is_empty());
}
