//! Text shown on the heads-up display.
use vstd::prelude::*;

use crate::tile::{block_name, tile_name, TileType};

verus! {

/// The label naming the selected block.
pub open spec fn selected_label_text(t: TileType) -> Seq<char> {
    "Selected: "@ + tile_name(t) + "  [1-6 to change]"@
}

/// Builds the label naming the selected block.
pub fn selected_label(t: TileType) -> (s: String)
    ensures
        s@ == selected_label_text(t),
{
    let mut s = String::from_str("Selected: ");
    s.append(block_name(t));
    s.append("  [1-6 to change]");
    s
}

} // verus!
