use terarria::controls::{cycle_selected_block, hotbar_block, player_intent, HOTBAR_SLOTS};
use terarria::hud::selected_label;
use terarria::noise::{hash_bits, lattice_key, octave_seed, HASH_MASK};
use terarria::tile::{block_name, texture_path, TileColor, TileType};
use terarria::view::TileRange;

const ALL: [TileType; 8] = [
    TileType::Air,
    TileType::Dirt,
    TileType::Grass,
    TileType::Stone,
    TileType::Bedrock,
    TileType::Sand,
    TileType::Wood,
    TileType::Leaves,
];

#[test]
fn only_air_is_not_solid() {
    for t in ALL {
        assert_eq!(t.is_solid(), t != TileType::Air);
    }
}

#[test]
fn air_has_no_color() {
    assert_eq!(TileType::Air.color(), None);
    for t in ALL {
        assert_eq!(t.color().is_none(), t == TileType::Air);
    }
}

#[test]
fn tile_colors_match_palette() {
    assert_eq!(TileType::Grass.color(), Some(TileColor { r: 22, g: 62, b: 12 }));
    assert_eq!(TileType::Dirt.color(), Some(TileColor { r: 52, g: 36, b: 16 }));
    assert_eq!(TileType::Stone.color(), Some(TileColor { r: 48, g: 48, b: 50 }));
    assert_eq!(TileType::Bedrock.color(), Some(TileColor { r: 18, g: 18, b: 20 }));
    assert_eq!(TileType::Sand.color(), Some(TileColor { r: 88, g: 82, b: 50 }));
    assert_eq!(TileType::Wood.color(), Some(TileColor { r: 44, g: 30, b: 14 }));
    assert_eq!(TileType::Leaves.color(), Some(TileColor { r: 12, g: 52, b: 10 }));
}

#[test]
fn default_tile_is_dirt() {
    assert_eq!(TileType::default(), TileType::Dirt);
}

#[test]
fn block_names() {
    assert_eq!(block_name(TileType::Air), "Air");
    assert_eq!(block_name(TileType::Grass), "Grass");
    assert_eq!(block_name(TileType::Dirt), "Dirt");
    assert_eq!(block_name(TileType::Stone), "Stone");
    assert_eq!(block_name(TileType::Bedrock), "Bedrock");
    assert_eq!(block_name(TileType::Sand), "Sand");
    assert_eq!(block_name(TileType::Wood), "Wood");
    assert_eq!(block_name(TileType::Leaves), "Leaves");
}

#[test]
fn texture_paths() {
    assert_eq!(texture_path(TileType::Air), None);
    assert_eq!(texture_path(TileType::Grass), Some("textures/tile_grass.png"));
    assert_eq!(texture_path(TileType::Bedrock), Some("textures/tile_bedrock.png"));
    assert_eq!(texture_path(TileType::Leaves), Some("textures/tile_leaves.png"));
}

#[test]
fn selected_label_text() {
    assert_eq!(selected_label(TileType::Dirt), "Selected: Dirt  [1-6 to change]");
    assert_eq!(selected_label(TileType::Leaves), "Selected: Leaves  [1-6 to change]");
}

#[test]
fn hotbar_slots() {
    assert_eq!(HOTBAR_SLOTS, 6);
    assert_eq!(hotbar_block(0), Some(TileType::Dirt));
    assert_eq!(hotbar_block(1), Some(TileType::Stone));
    assert_eq!(hotbar_block(2), Some(TileType::Sand));
    assert_eq!(hotbar_block(3), Some(TileType::Wood));
    assert_eq!(hotbar_block(4), Some(TileType::Leaves));
    assert_eq!(hotbar_block(5), Some(TileType::Grass));
    assert_eq!(hotbar_block(6), None);
}

#[test]
fn hotbar_keeps_selection_without_keys() {
    assert_eq!(cycle_selected_block(TileType::Sand, &[false; 6]), TileType::Sand);
}

#[test]
fn hotbar_highest_pressed_key_wins() {
    let pressed = [true, false, false, false, true, false];
    assert_eq!(cycle_selected_block(TileType::Dirt, &pressed), TileType::Leaves);
    let pressed = [false, true, false, false, false, false];
    assert_eq!(cycle_selected_block(TileType::Dirt, &pressed), TileType::Stone);
    let pressed = [false, false, false, false, false, true];
    assert_eq!(cycle_selected_block(TileType::Dirt, &pressed), TileType::Grass);
}

#[test]
fn movement_keys() {
    assert_eq!(player_intent(true, false, false, true).direction, -1);
    assert_eq!(player_intent(false, true, false, true).direction, 1);
    assert_eq!(player_intent(true, true, false, true).direction, 0);
    assert_eq!(player_intent(false, false, false, true).direction, 0);
}

#[test]
fn jump_needs_ground() {
    assert!(player_intent(false, false, true, true).jump);
    assert!(!player_intent(false, false, true, false).jump);
    assert!(!player_intent(false, false, false, true).jump);
}

#[test]
fn hash_known_values() {
    assert_eq!(hash_bits(0, 0), 0);
    assert_eq!(hash_bits(1, 0), 1953199);
    assert_eq!(hash_bits(5, 42), 4727794);
    assert_eq!(hash_bits(-3, 7), 4441399);
}

#[test]
fn hash_stays_in_24_bits() {
    for x in -50i64..50 {
        for seed in [0u64, 1, 12345, u64::MAX] {
            assert!(hash_bits(x, seed) <= HASH_MASK);
        }
    }
}

#[test]
fn lattice_keys() {
    assert_eq!(lattice_key(2, 3), 196618599);
    assert_eq!(lattice_key(-1, 5), -27440968);
    assert_eq!(lattice_key(0, 0), 0);
}

#[test]
fn octave_seeds() {
    assert_eq!(octave_seed(10, 0), 10);
    assert_eq!(octave_seed(10, 3), 645664597830827409);
}

#[test]
fn view_range_is_clamped_to_world() {
    let r = TileRange::clamped_to_world(-10, 1000, -3, 500);
    assert_eq!(r, TileRange { min_x: 0, max_x: 399, min_y: 0, max_y: 199 });
    let r = TileRange::clamped_to_world(5, 20, 7, 30);
    assert_eq!(r, TileRange { min_x: 5, max_x: 20, min_y: 7, max_y: 30 });
}

#[test]
fn view_range_contains() {
    let r = TileRange::clamped_to_world(5, 20, 7, 30);
    assert!(r.contains(5, 7));
    assert!(r.contains(20, 30));
    assert!(!r.contains(4, 10));
    assert!(!r.contains(21, 10));
    assert!(!r.contains(10, 6));
    assert!(!r.contains(10, 31));
}
