//! The world grid: a row-major array of tiles, the surface height of each
//! column, and the set of cells changed since the renderer last looked.
use vstd::prelude::*;

use crate::tile::TileType;
use crate::{TILE_SIZE_PX, WORLD_HEIGHT, WORLD_WIDTH};

verus! {

/// `(x, y)` names a cell of the world (`y` grows downwards from the top row).
pub open spec fn in_bounds(x: int, y: int) -> bool {
    0 <= x < WORLD_WIDTH && 0 <= y < WORLD_HEIGHT
}

/// Position of cell `(x, y)` in the row-major tile array.
pub open spec fn cell_index(x: int, y: int) -> int {
    y * WORLD_WIDTH + x
}

/// Number of cells in the world.
pub open spec fn cell_count() -> int {
    WORLD_WIDTH * WORLD_HEIGHT
}

/// Pixel position of the centre of tile `(tx, ty)`; the pixel y axis points up.
pub open spec fn tile_center(tx: int, ty: int) -> (int, int) {
    (tx * TILE_SIZE_PX + TILE_SIZE_PX / 2, -(ty * TILE_SIZE_PX + TILE_SIZE_PX / 2))
}

/// The game world: a 2D grid of tiles.
pub struct GameWorld {
    /// Row-major tiles: cell `(x, y)` is at `y * WORLD_WIDTH + x`.
    pub tiles: Vec<TileType>,
    /// Cells written through [`GameWorld::set`] since the last
    /// [`GameWorld::take_dirty`], each listed once.
    pub dirty: Vec<(i32, i32)>,
    /// Row of the surface tile of each column.
    pub surface_heights: Vec<usize>,
}

impl GameWorld {
    /// The shape every world keeps: a full grid, one in-world surface row per
    /// column, and a duplicate-free list of in-world dirty cells.
    pub open spec fn wf(&self) -> bool {
        &&& self.grid_ok()
        &&& self.heights_ok()
        &&& self.dirty_ok()
    }

    /// The tile array holds exactly one tile per cell.
    pub open spec fn grid_ok(&self) -> bool {
        self.tiles@.len() == cell_count()
    }

    /// One surface row per column, each inside the world.
    pub open spec fn heights_ok(&self) -> bool {
        &&& self.surface_heights@.len() == WORLD_WIDTH
        &&& forall|x: int| 0 <= x < WORLD_WIDTH ==> #[trigger] self.surface_heights@[x] < WORLD_HEIGHT
    }

    /// The dirty list names in-world cells, each once.
    pub open spec fn dirty_ok(&self) -> bool {
        &&& self.dirty@.no_duplicates()
        &&& forall|i: int| 0 <= i < self.dirty@.len() ==>
            in_bounds((#[trigger] self.dirty@[i]).0 as int, self.dirty@[i].1 as int)
    }

    /// The tile read at `(x, y)`: outside the world everything is bedrock.
    pub open spec fn tile(&self, x: int, y: int) -> TileType {
        if in_bounds(x, y) {
            self.tiles@[cell_index(x, y)]
        } else {
            TileType::Bedrock
        }
    }

    /// The set of cells awaiting a redraw.
    pub open spec fn dirty_set(&self) -> Set<(i32, i32)> {
        self.dirty@.to_set()
    }

    /// An all-air world whose surface lies halfway down every column.
    pub fn new() -> (w: Self)
        ensures
            w.wf(),
            forall|i: int| 0 <= i < cell_count() ==> w.tiles@[i] == TileType::Air,
            forall|x: int| 0 <= x < WORLD_WIDTH ==> w.surface_heights@[x] == WORLD_HEIGHT / 2,
            w.dirty@.len() == 0,
    {
        let mut tiles: Vec<TileType> = Vec::new();
        let mut i: usize = 0;
        while i < WORLD_WIDTH * WORLD_HEIGHT
            invariant
                i <= WORLD_WIDTH * WORLD_HEIGHT,
                tiles@.len() == i,
                forall|j: int| 0 <= j < i ==> tiles@[j] == TileType::Air,
            decreases WORLD_WIDTH * WORLD_HEIGHT - i,
        {
            tiles.push(TileType::Air);
            i = i + 1;
        }
        let mut surface_heights: Vec<usize> = Vec::new();
        let mut x: usize = 0;
        while x < WORLD_WIDTH
            invariant
                x <= WORLD_WIDTH,
                surface_heights@.len() == x,
                forall|j: int| 0 <= j < x ==> surface_heights@[j] == WORLD_HEIGHT / 2,
            decreases WORLD_WIDTH - x,
        {
            surface_heights.push(WORLD_HEIGHT / 2);
            x = x + 1;
        }
        GameWorld { tiles, dirty: Vec::new(), surface_heights }
    }

    /// Returns the tile at `(x, y)`, or bedrock outside the world.
    pub fn get(&self, x: i32, y: i32) -> (t: TileType)
        requires
            self.grid_ok(),
        ensures
            t == self.tile(x as int, y as int),
            !in_bounds(x as int, y as int) ==> t == TileType::Bedrock,
    {
        if x < 0 || y < 0 || x >= WORLD_WIDTH as i32 || y >= WORLD_HEIGHT as i32 {
            return TileType::Bedrock;
        }
        self.tiles[y as usize * WORLD_WIDTH + x as usize]
    }

    /// Writes `tile` at `(x, y)` and marks the cell dirty; does nothing
    /// outside the world.
    pub fn set(&mut self, x: i32, y: i32, tile: TileType)
        requires
            old(self).grid_ok(),
            old(self).dirty_ok(),
        ensures
            final(self).grid_ok(),
            final(self).dirty_ok(),
            old(self).wf() ==> final(self).wf(),
            final(self).surface_heights@ == old(self).surface_heights@,
            in_bounds(x as int, y as int) ==> {
                &&& final(self).tiles@ == old(self).tiles@.update(cell_index(x as int, y as int), tile)
                &&& final(self).dirty_set() == old(self).dirty_set().insert((x, y))
            },
            !in_bounds(x as int, y as int) ==> *final(self) == *old(self),
    {
        if x < 0 || y < 0 || x >= WORLD_WIDTH as i32 || y >= WORLD_HEIGHT as i32 {
            return;
        }
        let idx = y as usize * WORLD_WIDTH + x as usize;
        self.tiles.set(idx, tile);
        self.mark_dirty(x, y);
    }

    /// Adds `(x, y)` to the dirty list unless it is already there.
    fn mark_dirty(&mut self, x: i32, y: i32)
        requires
            old(self).grid_ok(),
            old(self).dirty_ok(),
            in_bounds(x as int, y as int),
        ensures
            final(self).grid_ok(),
            final(self).dirty_ok(),
            old(self).wf() ==> final(self).wf(),
            final(self).tiles@ == old(self).tiles@,
            final(self).surface_heights@ == old(self).surface_heights@,
            final(self).dirty_set() == old(self).dirty_set().insert((x, y)),
    {
        let mut i: usize = 0;
        let n = self.dirty.len();
        while i < n
            invariant
                self.grid_ok(),
                self.dirty_ok(),
                n == self.dirty@.len(),
                i <= n,
                forall|j: int| 0 <= j < i ==> self.dirty@[j] != (x, y),
            decreases n - i,
        {
            let (dx, dy) = self.dirty[i];
            if dx == x && dy == y {
                proof {
                    assert(self.dirty@.to_set().insert((x, y)) =~= self.dirty@.to_set());
                }
                return;
            }
            i = i + 1;
        }
        let ghost before = self.dirty@;
        self.dirty.push((x, y));
        proof {
            assert(self.dirty@ == before.push((x, y)));
            assert forall|c: (i32, i32)| #[trigger] self.dirty@.contains(c)
                <==> before.contains(c) || c == (x, y) by {
                if self.dirty@.contains(c) {
                    let k = choose|k: int| 0 <= k < self.dirty@.len() && self.dirty@[k] == c;
                    if k < before.len() {
                        assert(before[k] == c);
                    }
                }
                if before.contains(c) {
                    let k = choose|k: int| 0 <= k < before.len() && before[k] == c;
                    assert(self.dirty@[k] == c);
                }
                if c == (x, y) {
                    assert(self.dirty@[before.len() as int] == c);
                }
            }
            assert(self.dirty@.to_set() =~= before.to_set().insert((x, y)));
        }
    }

    /// Hands out the cells changed since the last call and forgets them.
    pub fn take_dirty(&mut self) -> (cells: Vec<(i32, i32)>)
        requires
            old(self).grid_ok(),
            old(self).dirty_ok(),
        ensures
            final(self).grid_ok(),
            final(self).dirty_ok(),
            old(self).wf() ==> final(self).wf(),
            cells@ == old(self).dirty@,
            cells@.to_set() == old(self).dirty_set(),
            cells@.no_duplicates(),
            final(self).dirty@.len() == 0,
            final(self).tiles@ == old(self).tiles@,
            final(self).surface_heights@ == old(self).surface_heights@,
    {
        let mut cells: Vec<(i32, i32)> = Vec::new();
        std::mem::swap(&mut cells, &mut self.dirty);
        cells
    }

    /// Some tile in column `tx`, rows `ty_lo ..= ty_hi`, blocks movement.
    pub open spec fn solid_in_column(&self, tx: int, ty_lo: int, ty_hi: int) -> bool {
        exists|ty: int| ty_lo <= ty <= ty_hi && #[trigger] self.tile(tx, ty).solid()
    }

    /// Some tile in row `ty`, columns `tx_lo ..= tx_hi`, blocks movement.
    pub open spec fn solid_in_row(&self, ty: int, tx_lo: int, tx_hi: int) -> bool {
        exists|tx: int| tx_lo <= tx <= tx_hi && #[trigger] self.tile(tx, ty).solid()
    }

    /// Whether a solid tile lies in column `tx` between rows `ty_lo` and
    /// `ty_hi` (both included); cells outside the world count as solid.
    /// This is the horizontal collision probe.
    pub fn column_has_solid(&self, tx: i32, ty_lo: i32, ty_hi: i32) -> (hit: bool)
        requires
            self.grid_ok(),
        ensures
            hit == self.solid_in_column(tx as int, ty_lo as int, ty_hi as int),
    {
        let mut ty: i64 = ty_lo as i64;
        while ty <= ty_hi as i64
            invariant
                self.grid_ok(),
                ty_lo <= ty <= ty_hi as i64 + 1 || (ty == ty_lo && ty_lo > ty_hi),
                forall|t: int| ty_lo <= t < ty ==> !(#[trigger] self.tile(tx as int, t).solid()),
            decreases ty_hi as i64 + 1 - ty,
        {
            if self.get(tx, ty as i32).is_solid() {
                return true;
            }
            ty = ty + 1;
        }
        false
    }

    /// Whether a solid tile lies in row `ty` between columns `tx_lo` and
    /// `tx_hi` (both included); cells outside the world count as solid.
    /// This is the vertical collision and ground probe.
    pub fn row_has_solid(&self, ty: i32, tx_lo: i32, tx_hi: i32) -> (hit: bool)
        requires
            self.grid_ok(),
        ensures
            hit == self.solid_in_row(ty as int, tx_lo as int, tx_hi as int),
    {
        let mut tx: i64 = tx_lo as i64;
        while tx <= tx_hi as i64
            invariant
                self.grid_ok(),
                tx_lo <= tx <= tx_hi as i64 + 1 || (tx == tx_lo && tx_lo > tx_hi),
                forall|t: int| tx_lo <= t < tx ==> !(#[trigger] self.tile(t, ty as int).solid()),
            decreases tx_hi as i64 + 1 - tx,
        {
            if self.get(tx as i32, ty).is_solid() {
                return true;
            }
            tx = tx + 1;
        }
        false
    }

    /// Mines the tile at `(x, y)`: a solid tile becomes air (and is marked
    /// dirty); air is left alone. Returns whether a tile was removed.
    pub fn mine(&mut self, x: i32, y: i32) -> (mined: bool)
        requires
            old(self).grid_ok(),
            old(self).dirty_ok(),
        ensures
            final(self).grid_ok(),
            final(self).dirty_ok(),
            old(self).wf() ==> final(self).wf(),
            mined == (in_bounds(x as int, y as int) && old(self).tile(x as int, y as int).solid()),
            final(self).surface_heights@ == old(self).surface_heights@,
            mined ==> {
                &&& final(self).tiles@ == old(self).tiles@.update(
                    cell_index(x as int, y as int),
                    TileType::Air,
                )
                &&& final(self).dirty_set() == old(self).dirty_set().insert((x, y))
            },
            !mined ==> *final(self) == *old(self),
    {
        if self.get(x, y).is_solid() {
            self.set(x, y, TileType::Air);
            x >= 0 && y >= 0 && x < WORLD_WIDTH as i32 && y < WORLD_HEIGHT as i32
        } else {
            false
        }
    }

    /// Some cell next to `(x, y)` (left, right, above or below) is solid;
    /// outside the world counts as solid.
    pub open spec fn touches_solid(&self, x: int, y: int) -> bool {
        ||| self.tile(x - 1, y).solid()
        ||| self.tile(x + 1, y).solid()
        ||| self.tile(x, y - 1).solid()
        ||| self.tile(x, y + 1).solid()
    }

    /// A block may be placed at `(x, y)`: the cell is an in-world air cell
    /// next to existing terrain.
    pub open spec fn placeable(&self, x: int, y: int) -> bool {
        in_bounds(x, y) && !self.tile(x, y).solid() && self.touches_solid(x, y)
    }

    /// Whether a block may be placed at `(x, y)`.
    pub fn can_place(&self, x: i32, y: i32) -> (ok: bool)
        requires
            self.grid_ok(),
        ensures
            ok == self.placeable(x as int, y as int),
    {
        if !in_world(x, y) || self.get(x, y).is_solid() {
            return false;
        }
        self.get(x - 1, y).is_solid() || self.get(x + 1, y).is_solid() || self.get(x, y - 1).is_solid()
            || self.get(x, y + 1).is_solid()
    }

    /// Places `tile` at `(x, y)` if that cell is air next to existing terrain
    /// (and marks it dirty). Returns whether the tile was placed.
    pub fn place(&mut self, x: i32, y: i32, tile: TileType) -> (placed: bool)
        requires
            old(self).grid_ok(),
            old(self).dirty_ok(),
        ensures
            final(self).grid_ok(),
            final(self).dirty_ok(),
            old(self).wf() ==> final(self).wf(),
            placed == old(self).placeable(x as int, y as int),
            final(self).surface_heights@ == old(self).surface_heights@,
            placed ==> {
                &&& final(self).tiles@ == old(self).tiles@.update(cell_index(x as int, y as int), tile)
                &&& final(self).dirty_set() == old(self).dirty_set().insert((x, y))
            },
            !placed ==> *final(self) == *old(self),
    {
        if self.can_place(x, y) {
            self.set(x, y, tile);
            true
        } else {
            false
        }
    }

    /// Returns the player spawn position, in pixels: the centre of the tile
    /// two rows above the surface of the middle column.
    pub fn spawn_position(&self) -> (p: (i64, i64))
        requires
            self.surface_heights@.len() == WORLD_WIDTH,
            self.surface_heights@[(WORLD_WIDTH / 2) as int] <= i32::MAX,
        ensures
            (p.0 as int, p.1 as int) == tile_center(
                (WORLD_WIDTH / 2) as int,
                self.surface_heights@[(WORLD_WIDTH / 2) as int] - 2,
            ),
    {
        let tx = WORLD_WIDTH / 2;
        let ty = self.surface_heights[tx];
        tile_to_world(tx as i32, ty as i32 - 2)
    }
}

impl Default for GameWorld {
    /// The same all-air world as [`GameWorld::new`].
    fn default() -> (w: Self)
        ensures
            w.wf(),
            forall|i: int| 0 <= i < cell_count() ==> w.tiles@[i] == TileType::Air,
            forall|x: int| 0 <= x < WORLD_WIDTH ==> w.surface_heights@[x] == WORLD_HEIGHT / 2,
            w.dirty@.len() == 0,
    {
        GameWorld::new()
    }
}

/// Whether `(x, y)` names a cell of the world.
pub fn in_world(x: i32, y: i32) -> (b: bool)
    ensures
        b == in_bounds(x as int, y as int),
{
    x >= 0 && y >= 0 && x < WORLD_WIDTH as i32 && y < WORLD_HEIGHT as i32
}

/// Reading back a written cell gives what was written; every other cell
/// reads as before. (`set` leaves the tile array in exactly this shape.)
pub proof fn law_read_after_write(
    before: GameWorld,
    after: GameWorld,
    x: int,
    y: int,
    t: TileType,
    qx: int,
    qy: int,
)
    requires
        before.grid_ok(),
        in_bounds(x, y),
        after.tiles@ == before.tiles@.update(cell_index(x, y), t),
    ensures
        after.tile(qx, qy) == if qx == x && qy == y {
            t
        } else {
            before.tile(qx, qy)
        },
{
    if in_bounds(qx, qy) && (qx != x || qy != y) {
        assert(cell_index(qx, qy) != cell_index(x, y));
    }
}

/// Mining a solid cell empties it without touching its neighbours, so the
/// emptied cell takes a new block exactly when it borders other terrain;
/// placing one there then changes that cell alone.
pub proof fn law_mine_then_place(w0: GameWorld, w1: GameWorld, w2: GameWorld, x: int, y: int, t: TileType)
    requires
        w0.grid_ok(),
        in_bounds(x, y),
        w0.tile(x, y).solid(),
        w1.tiles@ == w0.tiles@.update(cell_index(x, y), TileType::Air),
        w2.tiles@ == w1.tiles@.update(cell_index(x, y), t),
    ensures
        !w1.tile(x, y).solid(),
        w1.placeable(x, y) == w0.touches_solid(x, y),
        w2.tile(x, y) == t,
        forall|qx: int, qy: int| !(qx == x && qy == y) ==> #[trigger] w2.tile(qx, qy) == w0.tile(qx, qy),
{
    assert forall|qx: int, qy: int| !(qx == x && qy == y) implies #[trigger] w1.tile(qx, qy) == w0.tile(qx, qy) by {
        if in_bounds(qx, qy) {
            assert(cell_index(qx, qy) != cell_index(x, y));
        }
    }
    assert(w1.tile(x - 1, y) == w0.tile(x - 1, y));
    assert(w1.tile(x + 1, y) == w0.tile(x + 1, y));
    assert(w1.tile(x, y - 1) == w0.tile(x, y - 1));
    assert(w1.tile(x, y + 1) == w0.tile(x, y + 1));
    assert forall|qx: int, qy: int| !(qx == x && qy == y) implies #[trigger] w2.tile(qx, qy) == w0.tile(qx, qy) by {
        if in_bounds(qx, qy) {
            assert(cell_index(qx, qy) != cell_index(x, y));
        }
    }
}

/// Converts tile coordinates to the pixel position of the tile's centre.
pub fn tile_to_world(tx: i32, ty: i32) -> (p: (i64, i64))
    ensures
        (p.0 as int, p.1 as int) == tile_center(tx as int, ty as int),
{
    (tx as i64 * TILE_SIZE_PX + TILE_SIZE_PX / 2, -(ty as i64 * TILE_SIZE_PX + TILE_SIZE_PX / 2))
}

/// A block goes only into an air cell of the world that has a non-air cell
/// (or the world's edge) on at least one of its four sides; a solid cell is
/// never overwritten by placing.
pub proof fn law_place_only_into_air(w: GameWorld, x: int, y: int)
    ensures
        w.placeable(x, y) <==> (in_bounds(x, y) && w.tile(x, y) == TileType::Air && (w.tile(x - 1, y)
            != TileType::Air || w.tile(x + 1, y) != TileType::Air || w.tile(x, y - 1) != TileType::Air
            || w.tile(x, y + 1) != TileType::Air)),
        w.tile(x, y) != TileType::Air ==> !w.placeable(x, y),
{
}

} // verus!
