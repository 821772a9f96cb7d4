//! Terrain layout: turning per-column surface heights and per-cell noise
//! decisions into the tile grid (soil layers, caves, sand patches, trees).
//!
//! The noise itself is sampled elsewhere; what arrives here is a
//! [`TerrainPlan`] of plain decisions, and everything done with it is
//! stated exactly in the contracts below.
use vstd::prelude::*;

use crate::tile::TileType;
use crate::world::{cell_count, cell_index, in_bounds, GameWorld};
use crate::{WORLD_HEIGHT, WORLD_WIDTH};

verus! {

/// Highest row (smallest y) a raw surface height may take.
pub const MIN_SURFACE: usize = 5;

/// Lowest row (largest y) a raw surface height may take.
pub const MAX_SURFACE: usize = 190;

/// Depth of the dirt layer below the grass.
pub const DIRT_DEPTH: usize = 4;

/// Number of bedrock rows at the bottom of the world.
pub const BEDROCK_ROWS: usize = 3;

/// Caves start this many rows below the surface.
pub const CAVE_DEPTH: usize = 6;

/// Caves stop this many rows above the bottom of the world.
pub const CAVE_FLOOR_MARGIN: usize = 4;

/// A sand patch is never deeper than this.
pub const MAX_SAND_DEPTH: usize = 4;

/// First column where a tree may stand, and the margin kept at the right edge.
pub const TREE_MARGIN: usize = 5;

/// After a tree site the next candidate column is this far to the right.
pub const TREE_SPACING: usize = 6;

/// The decisions that the noise functions make for one world.
pub struct TerrainPlan {
    /// Surface row of each column before smoothing.
    pub raw_heights: Vec<usize>,
    /// Row-major, one flag per cell: `true` where cave noise is above its threshold.
    pub cave_mask: Vec<bool>,
    /// Depth of the sand patch requested for each column (0: none).
    pub sand_patches: Vec<usize>,
    /// For each column, the height of the tree the noise asks for there, if any.
    pub trees: Vec<Option<usize>>,
}

/// The tile at row `y` of a column whose surface is row `s`, before caves,
/// sand and trees: air above, one grass tile, a dirt layer, stone, and
/// bedrock at the bottom.
pub open spec fn layer_tile(y: int, s: int) -> TileType {
    if y < s {
        TileType::Air
    } else if y == s {
        TileType::Grass
    } else if y <= s + DIRT_DEPTH {
        TileType::Dirt
    } else if y >= WORLD_HEIGHT - BEDROCK_ROWS {
        TileType::Bedrock
    } else {
        TileType::Stone
    }
}

/// Surface row of column `x` after smoothing: every inner column takes the
/// (rounded down) mean of itself and its two neighbours; the two edge
/// columns keep their raw height.
pub open spec fn smoothed_height(raw: Seq<usize>, x: int) -> int {
    if 1 <= x < WORLD_WIDTH - 1 {
        (raw[x - 1] + raw[x] + raw[x + 1]) / 3
    } else {
        raw[x] as int
    }
}

impl TerrainPlan {
    pub open spec fn wf(&self) -> bool {
        &&& self.raw_heights@.len() == WORLD_WIDTH
        &&& forall|x: int| 0 <= x < WORLD_WIDTH ==>
            MIN_SURFACE <= #[trigger] self.raw_heights@[x] <= MAX_SURFACE
        &&& self.cave_mask@.len() == cell_count()
        &&& self.sand_patches@.len() == WORLD_WIDTH
        &&& self.trees@.len() == WORLD_WIDTH
    }

    /// Surface row of column `x` in the generated world.
    pub open spec fn surface(&self, x: int) -> int {
        smoothed_height(self.raw_heights@, x)
    }

    /// Soil layers only.
    pub open spec fn layered(&self, x: int, y: int) -> TileType {
        layer_tile(y, self.surface(x))
    }

    /// Soil layers with caves carved out: a cell becomes air where its cave
    /// flag is set and it lies at least `CAVE_DEPTH` rows below the surface
    /// and above the last `CAVE_FLOOR_MARGIN` rows.
    pub open spec fn caved(&self, x: int, y: int) -> TileType {
        if self.surface(x) + CAVE_DEPTH <= y < WORLD_HEIGHT - CAVE_FLOOR_MARGIN
            && self.cave_mask@[cell_index(x, y)] {
            TileType::Air
        } else {
            self.layered(x, y)
        }
    }

    /// Depth of the sand patch actually laid in column `x`.
    pub open spec fn sand_depth(&self, x: int) -> int {
        if self.sand_patches@[x] < MAX_SAND_DEPTH {
            self.sand_patches@[x] as int
        } else {
            MAX_SAND_DEPTH as int
        }
    }

    /// Caved terrain with sand patches: the patch starts at the surface
    /// tile and goes down `sand_depth` rows, never into the bedrock rows.
    pub open spec fn sanded(&self, x: int, y: int) -> TileType {
        let s = self.surface(x);
        if s <= y < s + self.sand_depth(x) && y < WORLD_HEIGHT - BEDROCK_ROWS {
            TileType::Sand
        } else {
            self.caved(x, y)
        }
    }

    /// The tree scan stops at column `x`: it starts at `TREE_MARGIN` and,
    /// from a column left of `WORLD_WIDTH - TREE_MARGIN`, moves on by
    /// `TREE_SPACING` columns past a tree request and by one column otherwise.
    pub open spec fn scanned(&self, x: int) -> bool
        decreases x,
    {
        if x < TREE_MARGIN {
            false
        } else if x == TREE_MARGIN {
            true
        } else {
            ||| (x - 1 < WORLD_WIDTH - TREE_MARGIN && self.trees@[x - 1] is None
                && self.scanned(x - 1))
            ||| (x >= TREE_MARGIN + TREE_SPACING && x - TREE_SPACING < WORLD_WIDTH - TREE_MARGIN
                && self.trees@[x - TREE_SPACING] is Some && self.scanned(x - TREE_SPACING))
        }
    }

    /// Distance the tree scan moves on from column `x`.
    pub open spec fn scan_step(&self, x: int) -> int {
        if self.trees@[x] is Some {
            TREE_SPACING as int
        } else {
            1
        }
    }

    /// A tree grows in column `c`: the scan stops there, the noise asks for a
    /// tree, and the surface tile (after sand) is grass.
    pub open spec fn has_tree(&self, c: int) -> bool {
        &&& 0 <= c < WORLD_WIDTH - TREE_MARGIN
        &&& self.scanned(c)
        &&& self.trees@[c] is Some
        &&& self.sanded(c, self.surface(c)) == TileType::Grass
    }

    /// Top row of the trunk of the tree in column `c`.
    pub open spec fn tree_top(&self, c: int) -> int {
        tree_top_row(self.surface(c), self.trees@[c]->0 as int)
    }

    /// A tree in column `c` grown into cell `(x, y)`, starting from tile `t`.
    pub open spec fn grown_into(&self, c: int, t: TileType, x: int, y: int) -> TileType {
        tree_effect(t, c, self.surface(c), self.tree_top(c), x, y)
    }

    /// Column `c` holds one of the trees the scan has planted left of `lim`.
    pub open spec fn grown_before(&self, lim: int, c: int) -> bool {
        self.has_tree(c) && c < lim
    }

    /// Cell `(x, y)` lies in the crown of a tree planted left of `lim`
    /// (crowns are at most five columns wide, so only five columns can own it).
    pub open spec fn crowned_before(&self, lim: int, x: int, y: int) -> bool {
        ||| self.grown_before(lim, x - 2) && crown_cell(x - 2, self.tree_top(x - 2), x, y)
        ||| self.grown_before(lim, x - 1) && crown_cell(x - 1, self.tree_top(x - 1), x, y)
        ||| self.grown_before(lim, x) && crown_cell(x, self.tree_top(x), x, y)
        ||| self.grown_before(lim, x + 1) && crown_cell(x + 1, self.tree_top(x + 1), x, y)
        ||| self.grown_before(lim, x + 2) && crown_cell(x + 2, self.tree_top(x + 2), x, y)
    }

    /// The tile at `(x, y)` once the trees left of column `lim` have grown:
    /// trunks replace whatever was there, crowns fill only air.
    pub open spec fn grown_upto(&self, lim: int, x: int, y: int) -> TileType {
        if self.grown_before(lim, x) && trunk_cell(x, self.surface(x), self.tree_top(x), x, y) {
            TileType::Wood
        } else if self.sanded(x, y) == TileType::Air && self.crowned_before(lim, x, y) {
            TileType::Leaves
        } else {
            self.sanded(x, y)
        }
    }

    /// The tile at `(x, y)` of the generated world.
    pub open spec fn final_tile(&self, x: int, y: int) -> TileType {
        self.grown_upto(WORLD_WIDTH as int, x, y)
    }
}

/// Top row of a trunk of `h` tiles standing on surface row `s` (clipped at row 0).
pub open spec fn tree_top_row(s: int, h: int) -> int {
    if s >= h {
        s - h
    } else {
        0
    }
}

/// The trunk of a tree in column `c` on surface row `s` fills rows `top ..< s`.
pub open spec fn trunk_cell(c: int, s: int, top: int, x: int, y: int) -> bool {
    x == c && top <= y < s
}

/// The crown of a tree in column `c` whose trunk top is row `top`: five
/// columns wide on rows `top - 1` and `top`, three columns wide on rows
/// `top + 1` and `top + 2`, clipped to the world.
pub open spec fn crown_cell(c: int, top: int, x: int, y: int) -> bool {
    &&& in_bounds(x, y)
    &&& {
        ||| (y == top - 1 || y == top) && c - 2 <= x <= c + 2
        ||| (y == top + 1 || y == top + 2) && c - 1 <= x <= c + 1
    }
}

/// Tile `t` at `(x, y)` after a tree in column `c` (surface row `s`, trunk
/// top `top`) has grown: trunk cells become wood, crown cells that were air
/// become leaves.
pub open spec fn tree_effect(t: TileType, c: int, s: int, top: int, x: int, y: int) -> TileType {
    if trunk_cell(c, s, top, x, y) {
        TileType::Wood
    } else if t == TileType::Air && crown_cell(c, top, x, y) {
        TileType::Leaves
    } else {
        t
    }
}

/// Computes the smoothed surface height of every column.
fn smooth_heights(raw: &Vec<usize>) -> (heights: Vec<usize>)
    requires
        raw@.len() == WORLD_WIDTH,
        forall|x: int| 0 <= x < WORLD_WIDTH ==> MIN_SURFACE <= #[trigger] raw@[x] <= MAX_SURFACE,
    ensures
        heights@.len() == WORLD_WIDTH,
        forall|x: int| 0 <= x < WORLD_WIDTH ==> #[trigger] heights@[x] == smoothed_height(raw@, x),
        forall|x: int| 0 <= x < WORLD_WIDTH ==> MIN_SURFACE <= #[trigger] heights@[x] <= MAX_SURFACE,
{
    let mut heights: Vec<usize> = Vec::new();
    let mut x: usize = 0;
    while x < WORLD_WIDTH
        invariant
            x <= WORLD_WIDTH,
            raw@.len() == WORLD_WIDTH,
            forall|i: int| 0 <= i < WORLD_WIDTH ==> MIN_SURFACE <= #[trigger] raw@[i] <= MAX_SURFACE,
            heights@.len() == x,
            forall|i: int| 0 <= i < x ==> #[trigger] heights@[i] == smoothed_height(raw@, i),
            forall|i: int| 0 <= i < x ==> MIN_SURFACE <= #[trigger] heights@[i] <= MAX_SURFACE,
        decreases WORLD_WIDTH - x,
    {
        let h = if 1 <= x && x < WORLD_WIDTH - 1 {
            let a = raw[x - 1];
            let b = raw[x];
            let c = raw[x + 1];
            (a + b + c) / 3
        } else {
            raw[x]
        };
        heights.push(h);
        x = x + 1;
    }
    heights
}

/// Lays the soil layers of every column.
fn fill_layers(tiles: &mut Vec<TileType>, heights: &Vec<usize>)
    requires
        old(tiles)@.len() == cell_count(),
        heights@.len() == WORLD_WIDTH,
        forall|x: int| 0 <= x < WORLD_WIDTH ==> #[trigger] heights@[x] <= MAX_SURFACE,
    ensures
        final(tiles)@.len() == cell_count(),
        forall|x: int, y: int| #![trigger cell_index(x, y)] in_bounds(x, y) ==>
            final(tiles)@[cell_index(x, y)] == layer_tile(y, heights@[x] as int),
{
    let mut x: usize = 0;
    while x < WORLD_WIDTH
        invariant
            x <= WORLD_WIDTH,
            tiles@.len() == cell_count(),
            heights@.len() == WORLD_WIDTH,
            forall|i: int| 0 <= i < WORLD_WIDTH ==> #[trigger] heights@[i] <= MAX_SURFACE,
            forall|cx: int, cy: int| #![trigger cell_index(cx, cy)]
                in_bounds(cx, cy) && cx < x ==>
                tiles@[cell_index(cx, cy)] == layer_tile(cy, heights@[cx] as int),
        decreases WORLD_WIDTH - x,
    {
        let s = heights[x];
        let mut y: usize = 0;
        while y < WORLD_HEIGHT
            invariant
                x < WORLD_WIDTH,
                y <= WORLD_HEIGHT,
                s == heights@[x as int],
                tiles@.len() == cell_count(),
                heights@.len() == WORLD_WIDTH,
                forall|i: int| 0 <= i < WORLD_WIDTH ==> #[trigger] heights@[i] <= MAX_SURFACE,
                forall|cx: int, cy: int| #![trigger cell_index(cx, cy)]
                    in_bounds(cx, cy) && (cx < x || (cx == x && cy < y)) ==>
                    tiles@[cell_index(cx, cy)] == layer_tile(cy, heights@[cx] as int),
            decreases WORLD_HEIGHT - y,
        {
            let tile = if y < s {
                TileType::Air
            } else if y == s {
                TileType::Grass
            } else if y <= s + DIRT_DEPTH {
                TileType::Dirt
            } else if y >= WORLD_HEIGHT - BEDROCK_ROWS {
                TileType::Bedrock
            } else {
                TileType::Stone
            };
            let ghost before = tiles@;
            tiles.set(y * WORLD_WIDTH + x, tile);
            assert forall|cx: int, cy: int| #![trigger cell_index(cx, cy)]
                in_bounds(cx, cy) && (cx < x || (cx == x && cy < y + 1)) implies
                tiles@[cell_index(cx, cy)] == layer_tile(cy, heights@[cx] as int) by {
                if cx != x || cy != y {
                    assert(cell_index(cx, cy) != cell_index(x as int, y as int));
                }
            }
            y = y + 1;
        }
        x = x + 1;
    }
}


/// Carves caves into layered terrain.
fn carve_caves(tiles: &mut Vec<TileType>, heights: &Vec<usize>, plan: &TerrainPlan)
    requires
        plan.wf(),
        old(tiles)@.len() == cell_count(),
        heights@.len() == WORLD_WIDTH,
        forall|x: int| 0 <= x < WORLD_WIDTH ==> #[trigger] heights@[x] == plan.surface(x),
        forall|x: int| 0 <= x < WORLD_WIDTH ==> #[trigger] heights@[x] <= MAX_SURFACE,
        forall|x: int, y: int| #![trigger cell_index(x, y)] in_bounds(x, y) ==>
            old(tiles)@[cell_index(x, y)] == plan.layered(x, y),
    ensures
        final(tiles)@.len() == cell_count(),
        forall|x: int, y: int| #![trigger cell_index(x, y)] in_bounds(x, y) ==>
            final(tiles)@[cell_index(x, y)] == plan.caved(x, y),
{
    let mut x: usize = 0;
    while x < WORLD_WIDTH
        invariant
            x <= WORLD_WIDTH,
            plan.wf(),
            tiles@.len() == cell_count(),
            heights@.len() == WORLD_WIDTH,
            forall|i: int| 0 <= i < WORLD_WIDTH ==> #[trigger] heights@[i] == plan.surface(i),
            forall|i: int| 0 <= i < WORLD_WIDTH ==> #[trigger] heights@[i] <= MAX_SURFACE,
            forall|cx: int, cy: int| #![trigger cell_index(cx, cy)] in_bounds(cx, cy) ==>
                tiles@[cell_index(cx, cy)] == if cx < x {
                    plan.caved(cx, cy)
                } else {
                    plan.layered(cx, cy)
                },
        decreases WORLD_WIDTH - x,
    {
        let s = heights[x];
        let mut y: usize = s + CAVE_DEPTH;
        while y < WORLD_HEIGHT - CAVE_FLOOR_MARGIN
            invariant
                x < WORLD_WIDTH,
                plan.wf(),
                s == heights@[x as int],
                s + CAVE_DEPTH <= y,
                y <= WORLD_HEIGHT,
                tiles@.len() == cell_count(),
                heights@.len() == WORLD_WIDTH,
                forall|i: int| 0 <= i < WORLD_WIDTH ==> #[trigger] heights@[i] == plan.surface(i),
                forall|i: int| 0 <= i < WORLD_WIDTH ==> #[trigger] heights@[i] <= MAX_SURFACE,
                forall|cx: int, cy: int| #![trigger cell_index(cx, cy)] in_bounds(cx, cy) ==>
                    tiles@[cell_index(cx, cy)] == if cx < x || (cx == x && cy < y) {
                        plan.caved(cx, cy)
                    } else {
                        plan.layered(cx, cy)
                    },
            decreases WORLD_HEIGHT - y,
        {
            let i = y * WORLD_WIDTH + x;
            if plan.cave_mask[i] {
                tiles.set(i, TileType::Air);
            }
            assert forall|cx: int, cy: int| #![trigger cell_index(cx, cy)] in_bounds(cx, cy) implies
                tiles@[cell_index(cx, cy)] == if cx < x || (cx == x && cy < y + 1) {
                    plan.caved(cx, cy)
                } else {
                    plan.layered(cx, cy)
                } by {
                if cx != x || cy != y {
                    assert(cell_index(cx, cy) != cell_index(x as int, y as int));
                }
            }
            y = y + 1;
        }
        x = x + 1;
    }
}

/// Lays the sand patches over caved terrain.
fn lay_sand(tiles: &mut Vec<TileType>, heights: &Vec<usize>, plan: &TerrainPlan)
    requires
        plan.wf(),
        old(tiles)@.len() == cell_count(),
        heights@.len() == WORLD_WIDTH,
        forall|x: int| 0 <= x < WORLD_WIDTH ==> #[trigger] heights@[x] == plan.surface(x),
        forall|x: int| 0 <= x < WORLD_WIDTH ==> #[trigger] heights@[x] <= MAX_SURFACE,
        forall|x: int, y: int| #![trigger cell_index(x, y)] in_bounds(x, y) ==>
            old(tiles)@[cell_index(x, y)] == plan.caved(x, y),
    ensures
        final(tiles)@.len() == cell_count(),
        forall|x: int, y: int| #![trigger cell_index(x, y)] in_bounds(x, y) ==>
            final(tiles)@[cell_index(x, y)] == plan.sanded(x, y),
{
    let mut x: usize = 0;
    while x < WORLD_WIDTH
        invariant
            x <= WORLD_WIDTH,
            plan.wf(),
            tiles@.len() == cell_count(),
            heights@.len() == WORLD_WIDTH,
            forall|i: int| 0 <= i < WORLD_WIDTH ==> #[trigger] heights@[i] == plan.surface(i),
            forall|i: int| 0 <= i < WORLD_WIDTH ==> #[trigger] heights@[i] <= MAX_SURFACE,
            forall|cx: int, cy: int| #![trigger cell_index(cx, cy)] in_bounds(cx, cy) ==>
                tiles@[cell_index(cx, cy)] == if cx < x {
                    plan.sanded(cx, cy)
                } else {
                    plan.caved(cx, cy)
                },
        decreases WORLD_WIDTH - x,
    {
        let s = heights[x];
        let patch = plan.sand_patches[x];
        let depth = if patch < MAX_SAND_DEPTH { patch } else { MAX_SAND_DEPTH };
        let mut dy: usize = 0;
        while dy < depth
            invariant
                x < WORLD_WIDTH,
                plan.wf(),
                s == heights@[x as int],
                s <= MAX_SURFACE,
                depth == plan.sand_depth(x as int),
                dy <= depth,
                tiles@.len() == cell_count(),
                heights@.len() == WORLD_WIDTH,
                forall|i: int| 0 <= i < WORLD_WIDTH ==> #[trigger] heights@[i] == plan.surface(i),
                forall|i: int| 0 <= i < WORLD_WIDTH ==> #[trigger] heights@[i] <= MAX_SURFACE,
                forall|cx: int, cy: int| #![trigger cell_index(cx, cy)] in_bounds(cx, cy) ==>
                    tiles@[cell_index(cx, cy)] == if cx < x || (cx == x && cy < s + dy) {
                        plan.sanded(cx, cy)
                    } else {
                        plan.caved(cx, cy)
                    },
            decreases depth - dy,
        {
            let ty = s + dy;
            if ty < WORLD_HEIGHT - BEDROCK_ROWS {
                tiles.set(ty * WORLD_WIDTH + x, TileType::Sand);
            }
            assert forall|cx: int, cy: int| #![trigger cell_index(cx, cy)] in_bounds(cx, cy) implies
                tiles@[cell_index(cx, cy)] == if cx < x || (cx == x && cy < s + dy + 1) {
                    plan.sanded(cx, cy)
                } else {
                    plan.caved(cx, cy)
                } by {
                if cx != x || cy != ty {
                    assert(cell_index(cx, cy) != cell_index(x as int, ty as int));
                }
            }
            dy = dy + 1;
        }
        x = x + 1;
    }
}

/// Fills the air cells of row `wy` between columns `xlo` and `xhi` with leaves.
fn fill_crown_row(tiles: &mut Vec<TileType>, wy: i64, xlo: i64, xhi: i64)
    requires
        old(tiles)@.len() == cell_count(),
        -1000 <= xlo <= xhi + 1,
        xhi <= 1000,
    ensures
        final(tiles)@.len() == cell_count(),
        forall|x: int, y: int| #![trigger cell_index(x, y)] in_bounds(x, y) ==>
            final(tiles)@[cell_index(x, y)] == if y == wy && xlo <= x <= xhi
                && old(tiles)@[cell_index(x, y)] == TileType::Air {
                TileType::Leaves
            } else {
                old(tiles)@[cell_index(x, y)]
            },
{
    let ghost start = tiles@;
    let mut wx: i64 = xlo;
    while wx <= xhi
        invariant
            xlo <= wx <= xhi + 1,
            xhi <= 1000,
            tiles@.len() == cell_count(),
            start.len() == cell_count(),
            forall|x: int, y: int| #![trigger cell_index(x, y)] in_bounds(x, y) ==>
                tiles@[cell_index(x, y)] == if y == wy && xlo <= x < wx
                    && start[cell_index(x, y)] == TileType::Air {
                    TileType::Leaves
                } else {
                    start[cell_index(x, y)]
                },
        decreases xhi + 1 - wx,
    {
        if wx >= 0 && wx < WORLD_WIDTH as i64 && wy >= 0 && wy < WORLD_HEIGHT as i64 {
            let i = (wy as usize) * WORLD_WIDTH + (wx as usize);
            assert(i == cell_index(wx as int, wy as int));
            if tiles[i] == TileType::Air {
                tiles.set(i, TileType::Leaves);
            }
        }
        assert forall|x: int, y: int| #![trigger cell_index(x, y)] in_bounds(x, y) implies
            tiles@[cell_index(x, y)] == if y == wy && xlo <= x < wx + 1
                && start[cell_index(x, y)] == TileType::Air {
                TileType::Leaves
            } else {
                start[cell_index(x, y)]
            } by {
            if x != wx || y != wy {
                if in_bounds(wx as int, wy as int) {
                    assert(cell_index(x, y) != cell_index(wx as int, wy as int));
                }
            }
        }
        wx = wx + 1;
    }
}

/// Grows a tree of height `h` in column `c` whose surface is row `s`.
fn plant_tree(tiles: &mut Vec<TileType>, c: usize, s: usize, h: usize)
    requires
        old(tiles)@.len() == cell_count(),
        c < WORLD_WIDTH,
        s < WORLD_HEIGHT,
    ensures
        final(tiles)@.len() == cell_count(),
        forall|x: int, y: int| #![trigger cell_index(x, y)] in_bounds(x, y) ==>
            final(tiles)@[cell_index(x, y)] == tree_effect(
                old(tiles)@[cell_index(x, y)],
                c as int,
                s as int,
                tree_top_row(s as int, h as int),
                x,
                y,
            ),
{
    let ghost start = tiles@;
    // Trunk, from the surface upwards.
    let mut hh: usize = 1;
    while hh <= h && hh <= s
        invariant
            1 <= hh,
            hh <= h + 1,
            hh <= s + 1,
            c < WORLD_WIDTH,
            s < WORLD_HEIGHT,
            tiles@.len() == cell_count(),
            start.len() == cell_count(),
            forall|x: int, y: int| #![trigger cell_index(x, y)] in_bounds(x, y) ==>
                tiles@[cell_index(x, y)] == if x == c && s - hh < y < s {
                    TileType::Wood
                } else {
                    start[cell_index(x, y)]
                },
        decreases s + 1 - hh,
    {
        let row = s - hh;
        tiles.set(row * WORLD_WIDTH + c, TileType::Wood);
        assert forall|x: int, y: int| #![trigger cell_index(x, y)] in_bounds(x, y) implies
            tiles@[cell_index(x, y)] == if x == c && s - (hh + 1) < y < s {
                TileType::Wood
            } else {
                start[cell_index(x, y)]
            } by {
            if x != c || y != row {
                assert(cell_index(x, y) != cell_index(c as int, row as int));
            }
        }
        hh = hh + 1;
    }
    let top: usize = if s >= h {
        s - h
    } else {
        0
    };
    assert(top == tree_top_row(s as int, h as int));
    assert forall|x: int, y: int| #![trigger cell_index(x, y)] in_bounds(x, y) implies
        tiles@[cell_index(x, y)] == if trunk_cell(c as int, s as int, top as int, x, y) {
            TileType::Wood
        } else {
            start[cell_index(x, y)]
        } by {
    }
    // Crown, row by row from the top.
    let ghost trunked = tiles@;
    let top_i = top as i64;
    let c_i = c as i64;
    let mut ly: i64 = 0;
    while ly < 4
        invariant
            0 <= ly <= 4,
            top_i == top,
            c_i == c,
            top < WORLD_HEIGHT,
            c < WORLD_WIDTH,
            tiles@.len() == cell_count(),
            start.len() == cell_count(),
            forall|x: int, y: int| #![trigger cell_index(x, y)] in_bounds(x, y) ==>
                tiles@[cell_index(x, y)] == if trunk_cell(c as int, s as int, top as int, x, y) {
                    TileType::Wood
                } else if start[cell_index(x, y)] == TileType::Air && crown_cell(
                    c as int,
                    top as int,
                    x,
                    y,
                ) && y < top - 1 + ly {
                    TileType::Leaves
                } else {
                    start[cell_index(x, y)]
                },
        decreases 4 - ly,
    {
        let lw: i64 = 2 - ly / 2;
        let wy: i64 = top_i + ly - 1;
        fill_crown_row(tiles, wy, c_i - lw, c_i + lw);
        ly = ly + 1;
    }
}

/// Once the tree scan stops at `a`, the next column it stops at is
/// `a + scan_step(a)`: no scanned column lies in between.
proof fn lemma_scan_gap(plan: &TerrainPlan, a: int, b: int)
    requires
        plan.wf(),
        plan.scanned(a),
        plan.scanned(b),
        a < b,
        a < WORLD_WIDTH - TREE_MARGIN,
    ensures
        b >= a + plan.scan_step(a),
    decreases b,
{
    if b - 1 < WORLD_WIDTH - TREE_MARGIN && plan.trees@[b - 1] is None && plan.scanned(b - 1) {
        let p = b - 1;
        if p > a {
            lemma_scan_gap(plan, a, p);
        } else if p < a {
            lemma_scan_gap(plan, p, a);
        }
    } else {
        let p = b - TREE_SPACING;
        if p > a {
            lemma_scan_gap(plan, a, p);
        } else if p < a {
            lemma_scan_gap(plan, p, a);
        }
    }
}

/// No tree stands within `TREE_SPACING` columns left of a scanned column.
proof fn lemma_no_tree_just_before(plan: &TerrainPlan, x: int, c: int)
    requires
        plan.wf(),
        plan.scanned(x),
        x - TREE_SPACING < c < x,
    ensures
        !plan.has_tree(c),
{
    if plan.has_tree(c) {
        lemma_scan_gap(plan, c, x);
    }
}

/// From a scanned column `x` with a tree request, the scan jumps to
/// `x + TREE_SPACING`; only the tree at `x` (if it grows) is added.
proof fn lemma_grown_step(plan: &TerrainPlan, x: int, c: int)
    requires
        plan.wf(),
        plan.scanned(x),
        TREE_MARGIN <= x < WORLD_WIDTH - TREE_MARGIN,
        plan.trees@[x] is Some,
    ensures
        plan.grown_before(x + TREE_SPACING, c) == (plan.grown_before(x, c) || (c == x
            && plan.has_tree(x))),
{
    if x < c < x + TREE_SPACING && plan.has_tree(c) {
        lemma_scan_gap(plan, x, c);
    }
}

/// Both facts `lemma_tree_step` needs about one column `c`.
proof fn lemma_neighbour_column(plan: &TerrainPlan, x: int, c: int)
    requires
        plan.wf(),
        plan.scanned(x),
        TREE_MARGIN <= x < WORLD_WIDTH - TREE_MARGIN,
        plan.trees@[x] is Some,
    ensures
        plan.grown_before(x + TREE_SPACING, c) == (plan.grown_before(x, c) || (c == x
            && plan.has_tree(x))),
        x - TREE_SPACING < c < x ==> !plan.has_tree(c),
{
    lemma_grown_step(plan, x, c);
    if x - TREE_SPACING < c < x {
        lemma_no_tree_just_before(plan, x, c);
    }
}

/// Growing the tree scanned at `x` takes the world from `grown_upto(x)` to
/// `grown_upto(x + TREE_SPACING)`; around column `x` nothing has grown yet.
proof fn lemma_tree_step(plan: &TerrainPlan, x: int, cx: int, cy: int)
    requires
        plan.wf(),
        plan.scanned(x),
        TREE_MARGIN <= x < WORLD_WIDTH - TREE_MARGIN,
        plan.trees@[x] is Some,
        in_bounds(cx, cy),
    ensures
        x - 2 <= cx <= x + 2 ==> plan.grown_upto(x, cx, cy) == plan.sanded(cx, cy),
        plan.grown_upto(x + TREE_SPACING, cx, cy) == if plan.has_tree(x) {
            plan.grown_into(x, plan.grown_upto(x, cx, cy), cx, cy)
        } else {
            plan.grown_upto(x, cx, cy)
        },
{
    lemma_neighbour_column(plan, x, cx - 2);
    lemma_neighbour_column(plan, x, cx - 1);
    lemma_neighbour_column(plan, x, cx);
    lemma_neighbour_column(plan, x, cx + 1);
    lemma_neighbour_column(plan, x, cx + 2);
    assert(plan.grown_before(x + TREE_SPACING, cx - 2) == (plan.grown_before(x, cx - 2) || (cx - 2
        == x && plan.has_tree(x))));
    assert(plan.grown_before(x + TREE_SPACING, cx - 1) == (plan.grown_before(x, cx - 1) || (cx - 1
        == x && plan.has_tree(x))));
    assert(plan.grown_before(x + TREE_SPACING, cx) == (plan.grown_before(x, cx) || (cx == x
        && plan.has_tree(x))));
    assert(plan.grown_before(x + TREE_SPACING, cx + 1) == (plan.grown_before(x, cx + 1) || (cx + 1
        == x && plan.has_tree(x))));
    assert(plan.grown_before(x + TREE_SPACING, cx + 2) == (plan.grown_before(x, cx + 2) || (cx + 2
        == x && plan.has_tree(x))));
}

/// Grows the trees over sanded terrain.
#[verifier::rlimit(40)]
fn grow_trees(tiles: &mut Vec<TileType>, heights: &Vec<usize>, plan: &TerrainPlan)
    requires
        plan.wf(),
        old(tiles)@.len() == cell_count(),
        heights@.len() == WORLD_WIDTH,
        forall|x: int| 0 <= x < WORLD_WIDTH ==> #[trigger] heights@[x] == plan.surface(x),
        forall|x: int| 0 <= x < WORLD_WIDTH ==> #[trigger] heights@[x] <= MAX_SURFACE,
        forall|x: int, y: int| #![trigger cell_index(x, y)] in_bounds(x, y) ==>
            old(tiles)@[cell_index(x, y)] == plan.sanded(x, y),
    ensures
        final(tiles)@.len() == cell_count(),
        forall|x: int, y: int| #![trigger cell_index(x, y)] in_bounds(x, y) ==>
            final(tiles)@[cell_index(x, y)] == plan.final_tile(x, y),
{
    let mut x: usize = TREE_MARGIN;
    while x < WORLD_WIDTH - TREE_MARGIN
        invariant
            TREE_MARGIN <= x <= WORLD_WIDTH,
            plan.wf(),
            plan.scanned(x as int),
            tiles@.len() == cell_count(),
            heights@.len() == WORLD_WIDTH,
            forall|i: int| 0 <= i < WORLD_WIDTH ==> #[trigger] heights@[i] == plan.surface(i),
            forall|i: int| 0 <= i < WORLD_WIDTH ==> #[trigger] heights@[i] <= MAX_SURFACE,
            forall|cx: int, cy: int| #![trigger cell_index(cx, cy)] in_bounds(cx, cy) ==>
                tiles@[cell_index(cx, cy)] == plan.grown_upto(x as int, cx, cy),
        decreases WORLD_WIDTH - x,
    {
        match plan.trees[x] {
            Some(h) => {
                let s = heights[x];
                let ghost before = tiles@;
                proof {
                    lemma_tree_step(plan, x as int, x as int, s as int);
                }
                assert(s * WORLD_WIDTH + x == cell_index(x as int, s as int));
                assert(tiles@[cell_index(x as int, s as int)] == plan.sanded(x as int, s as int));
                let planted = tiles[s * WORLD_WIDTH + x] == TileType::Grass;
                assert(planted == plan.has_tree(x as int));
                if planted {
                    plant_tree(tiles, x, s, h);
                }
                assert(forall|cx: int, cy: int| #![trigger cell_index(cx, cy)] in_bounds(cx, cy)
                    ==> tiles@[cell_index(cx, cy)] == if plan.has_tree(x as int) {
                    plan.grown_into(x as int, before[cell_index(cx, cy)], cx, cy)
                } else {
                    before[cell_index(cx, cy)]
                });
                assert forall|cx: int, cy: int| #![trigger cell_index(cx, cy)] in_bounds(
                    cx,
                    cy,
                ) implies tiles@[cell_index(cx, cy)] == plan.grown_upto(
                    x + TREE_SPACING,
                    cx,
                    cy,
                ) by {
                    lemma_tree_step(plan, x as int, cx, cy);
                }
                x = x + TREE_SPACING;
            },
            None => {
                assert forall|cx: int, cy: int| #![trigger cell_index(cx, cy)] in_bounds(
                    cx,
                    cy,
                ) implies tiles@[cell_index(cx, cy)] == plan.grown_upto(x + 1, cx, cy) by {
                    assert(!plan.has_tree(x as int));
                }
                x = x + 1;
            },
        }
    }
    assert forall|cx: int, cy: int| #![trigger cell_index(cx, cy)] in_bounds(cx, cy) implies
        tiles@[cell_index(cx, cy)] == plan.final_tile(cx, cy) by {
        assert(plan.grown_upto(x as int, cx, cy) == plan.grown_upto(WORLD_WIDTH as int, cx, cy));
    }
}

/// Lays out a whole world from a plan: smoothed surface heights, soil
/// layers, caves, sand patches and trees. Every tile and every surface
/// height is overwritten; the dirty list is left as it was.
pub fn generate_world(world: &mut GameWorld, plan: &TerrainPlan)
    requires
        old(world).grid_ok(),
        plan.wf(),
    ensures
        final(world).grid_ok(),
        final(world).heights_ok(),
        old(world).dirty_ok() ==> final(world).wf(),
        forall|x: int| 0 <= x < WORLD_WIDTH ==> #[trigger] final(world).surface_heights@[x]
            == plan.surface(x),
        forall|x: int, y: int| in_bounds(x, y) ==> #[trigger] final(world).tile(x, y)
            == plan.final_tile(x, y),
        final(world).dirty@ == old(world).dirty@,
{
    let heights = smooth_heights(&plan.raw_heights);
    fill_layers(&mut world.tiles, &heights);
    carve_caves(&mut world.tiles, &heights, plan);
    lay_sand(&mut world.tiles, &heights, plan);
    grow_trees(&mut world.tiles, &heights, plan);
    world.surface_heights = heights;
    assert forall|x: int, y: int| in_bounds(x, y) implies #[trigger] world.tile(x, y)
        == plan.final_tile(x, y) by {
        assert(world.tiles@[cell_index(x, y)] == plan.final_tile(x, y));
    }
}

/// Smoothing keeps every surface height within `MIN_SURFACE ..= MAX_SURFACE`,
/// so the surface of a generated world never leaves it.
pub proof fn law_surface_in_range(plan: &TerrainPlan, x: int)
    requires
        plan.wf(),
        0 <= x < WORLD_WIDTH,
    ensures
        MIN_SURFACE <= plan.surface(x) <= MAX_SURFACE,
{
    if 1 <= x < WORLD_WIDTH - 1 {
        assert(MIN_SURFACE <= plan.raw_heights@[x - 1] <= MAX_SURFACE);
        assert(MIN_SURFACE <= plan.raw_heights@[x] <= MAX_SURFACE);
        assert(MIN_SURFACE <= plan.raw_heights@[x + 1] <= MAX_SURFACE);
    } else {
        assert(MIN_SURFACE <= plan.raw_heights@[x] <= MAX_SURFACE);
    }
}

/// Before trees grow, no cell is wood or leaves.
proof fn lemma_sanded_not_tree(plan: &TerrainPlan, x: int, y: int)
    ensures
        plan.sanded(x, y) != TileType::Wood,
        plan.sanded(x, y) != TileType::Leaves,
{
}

/// The bottom `BEDROCK_ROWS` rows of a generated world are bedrock.
pub proof fn law_bedrock_floor(plan: &TerrainPlan, x: int, y: int)
    requires
        plan.wf(),
        in_bounds(x, y),
        y >= WORLD_HEIGHT - BEDROCK_ROWS,
    ensures
        plan.final_tile(x, y) == TileType::Bedrock,
{
    law_surface_in_range(plan, x);
}

/// The surface tile of every column of a generated world is grass, or sand
/// where a sand patch lies.
pub proof fn law_surface_cover(plan: &TerrainPlan, x: int)
    requires
        plan.wf(),
        0 <= x < WORLD_WIDTH,
    ensures
        plan.final_tile(x, plan.surface(x)) == TileType::Grass
            || plan.final_tile(x, plan.surface(x)) == TileType::Sand,
{
    law_surface_in_range(plan, x);
}

/// The `DIRT_DEPTH` rows under the surface are dirt or sand: caves and
/// trees never reach them.
pub proof fn law_soil_layer(plan: &TerrainPlan, x: int, y: int)
    requires
        plan.wf(),
        0 <= x < WORLD_WIDTH,
        plan.surface(x) < y <= plan.surface(x) + DIRT_DEPTH,
    ensures
        plan.final_tile(x, y) == TileType::Dirt || plan.final_tile(x, y) == TileType::Sand,
{
    law_surface_in_range(plan, x);
}

/// Above the surface there is only air, wood and leaves.
pub proof fn law_open_sky(plan: &TerrainPlan, x: int, y: int)
    requires
        plan.wf(),
        in_bounds(x, y),
        y < plan.surface(x),
    ensures
        plan.final_tile(x, y) == TileType::Air || plan.final_tile(x, y) == TileType::Wood
            || plan.final_tile(x, y) == TileType::Leaves,
{
    law_surface_in_range(plan, x);
}

/// Wood stands only above the surface of a column whose surface tile was
/// grass: trees grow on grass only.
pub proof fn law_trees_on_grass(plan: &TerrainPlan, x: int, y: int)
    requires
        plan.wf(),
        in_bounds(x, y),
        plan.final_tile(x, y) == TileType::Wood,
    ensures
        plan.has_tree(x),
        plan.sanded(x, plan.surface(x)) == TileType::Grass,
        y < plan.surface(x),
{
    lemma_sanded_not_tree(plan, x, y);
}

/// Leaves only ever fill cells that were air before the trees grew.
pub proof fn law_leaves_fill_air(plan: &TerrainPlan, x: int, y: int)
    requires
        plan.wf(),
        in_bounds(x, y),
        plan.final_tile(x, y) == TileType::Leaves,
    ensures
        plan.sanded(x, y) == TileType::Air,
{
    lemma_sanded_not_tree(plan, x, y);
}

/// Two trees of a generated world stand at least `TREE_SPACING` columns apart.
pub proof fn law_trees_spaced(plan: &TerrainPlan, a: int, b: int)
    requires
        plan.wf(),
        plan.has_tree(a),
        plan.has_tree(b),
        a < b,
    ensures
        b - a >= TREE_SPACING,
{
    lemma_scan_gap(plan, a, b);
}

/// Caves are carved exactly where the noise asks: below the cave depth and
/// above the cave floor, a cell is air before trees grow exactly when its
/// own cave flag is set, and stone otherwise; in the finished world an
/// unflagged cell there is still stone, and a flagged one is air or (where a
/// crown reaches it) leaves.
pub proof fn law_caves_where_flagged(plan: &TerrainPlan, x: int, y: int)
    requires
        plan.wf(),
        0 <= x < WORLD_WIDTH,
        plan.surface(x) + CAVE_DEPTH <= y < WORLD_HEIGHT - CAVE_FLOOR_MARGIN,
    ensures
        plan.sanded(x, y) == if plan.cave_mask@[y * WORLD_WIDTH + x] {
            TileType::Air
        } else {
            TileType::Stone
        },
        !plan.cave_mask@[y * WORLD_WIDTH + x] ==> plan.final_tile(x, y) == TileType::Stone,
        plan.cave_mask@[y * WORLD_WIDTH + x] ==> (plan.final_tile(x, y) == TileType::Air
            || plan.final_tile(x, y) == TileType::Leaves),
{
    law_surface_in_range(plan, x);
}

/// The surface of an inner column is the rounded-down mean of the raw
/// heights of the column and its two neighbours: three times it is at most
/// their sum and more than the sum minus three. The edge columns keep their
/// raw height.
pub proof fn law_surface_is_mean(plan: &TerrainPlan, x: int)
    requires
        plan.wf(),
        0 <= x < WORLD_WIDTH,
    ensures
        1 <= x < WORLD_WIDTH - 1 ==> {
            let sum = plan.raw_heights@[x - 1] + plan.raw_heights@[x] + plan.raw_heights@[x + 1];
            3 * plan.surface(x) <= sum < 3 * plan.surface(x) + 3
        },
        (x == 0 || x == WORLD_WIDTH - 1) ==> plan.surface(x) == plan.raw_heights@[x],
{
}

} // verus!
