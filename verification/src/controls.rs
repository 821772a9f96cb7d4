//! Player intents: the hotbar and movement keys turned into decisions.
use vstd::prelude::*;

use crate::tile::TileType;

verus! {

/// Number of hotbar slots (number keys 1 to 6).
pub const HOTBAR_SLOTS: usize = 6;

/// The block each hotbar slot selects.
pub open spec fn hotbar_tile(slot: int) -> TileType {
    if slot == 0 {
        TileType::Dirt
    } else if slot == 1 {
        TileType::Stone
    } else if slot == 2 {
        TileType::Sand
    } else if slot == 3 {
        TileType::Wood
    } else if slot == 4 {
        TileType::Leaves
    } else {
        TileType::Grass
    }
}

/// Returns the block of hotbar slot `slot`, if there is such a slot.
pub fn hotbar_block(slot: usize) -> (t: Option<TileType>)
    ensures
        slot < HOTBAR_SLOTS ==> t == Some(hotbar_tile(slot as int)),
        slot >= HOTBAR_SLOTS ==> t is None,
{
    if slot == 0 {
        Some(TileType::Dirt)
    } else if slot == 1 {
        Some(TileType::Stone)
    } else if slot == 2 {
        Some(TileType::Sand)
    } else if slot == 3 {
        Some(TileType::Wood)
    } else if slot == 4 {
        Some(TileType::Leaves)
    } else if slot == 5 {
        Some(TileType::Grass)
    } else {
        None
    }
}

/// The block selected after this frame's hotbar key presses: when several
/// keys were pressed the highest slot wins; with none the selection stays.
pub fn cycle_selected_block(current: TileType, pressed: &[bool; 6]) -> (selected: TileType)
    ensures
        (forall|i: int| 0 <= i < HOTBAR_SLOTS ==> !#[trigger] pressed@[i]) ==> selected == current,
        forall|i: int|
            0 <= i < HOTBAR_SLOTS && #[trigger] pressed@[i] && (forall|j: int|
                i < j < HOTBAR_SLOTS ==> !pressed@[j]) ==> selected == hotbar_tile(i),
{
    let mut selected = current;
    let mut i: usize = 0;
    while i < HOTBAR_SLOTS
        invariant
            i <= HOTBAR_SLOTS,
            (forall|k: int| 0 <= k < i ==> !#[trigger] pressed@[k]) ==> selected == current,
            forall|k: int|
                0 <= k < i && #[trigger] pressed@[k] && (forall|j: int| k < j < i ==> !pressed@[j])
                    ==> selected == hotbar_tile(k),
        decreases HOTBAR_SLOTS - i,
    {
        if pressed[i] {
            match hotbar_block(i) {
                Some(t) => {
                    selected = t;
                },
                None => {},
            }
        }
        i = i + 1;
    }
    selected
}

/// What the player's keys ask for this frame.
#[derive(Clone, Copy, PartialEq, Eq, Debug, Structural)]
pub struct MoveIntent {
    /// -1 to move left, 1 to move right, 0 to stand (both keys cancel out).
    pub direction: i32,
    /// Whether to jump.
    pub jump: bool,
}

/// Turns the movement keys into an intent: left and right keys add up, and
/// a jump happens only when a jump key was just pressed while standing on
/// the ground.
pub fn player_intent(left: bool, right: bool, jump_pressed: bool, on_ground: bool) -> (m: MoveIntent)
    ensures
        m.direction == (if right { 1int } else { 0int }) - (if left { 1int } else { 0int }),
        m.jump == (jump_pressed && on_ground),
{
    let mut direction: i32 = 0;
    if left {
        direction = direction - 1;
    }
    if right {
        direction = direction + 1;
    }
    MoveIntent { direction, jump: jump_pressed && on_ground }
}

} // verus!
