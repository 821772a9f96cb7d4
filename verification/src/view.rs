//! The rectangle of tiles kept on screen.
use vstd::prelude::*;

use crate::{WORLD_HEIGHT, WORLD_WIDTH};

verus! {

/// `v` limited to `lo ..= hi` (for `lo <= hi`).
pub open spec fn clamp_int(v: int, lo: int, hi: int) -> int {
    if v < lo {
        lo
    } else if v > hi {
        hi
    } else {
        v
    }
}

/// An inclusive rectangle of tile coordinates.
#[derive(Clone, Copy, PartialEq, Eq, Debug, Structural)]
pub struct TileRange {
    pub min_x: i32,
    pub max_x: i32,
    pub min_y: i32,
    pub max_y: i32,
}

fn clamp_i32(v: i32, lo: i32, hi: i32) -> (r: i32)
    requires
        lo <= hi,
    ensures
        r == clamp_int(v as int, lo as int, hi as int),
{
    if v < lo {
        lo
    } else if v > hi {
        hi
    } else {
        v
    }
}

impl TileRange {
    /// Tile `(tx, ty)` lies in the rectangle.
    pub open spec fn covers(&self, tx: int, ty: int) -> bool {
        self.min_x <= tx <= self.max_x && self.min_y <= ty <= self.max_y
    }

    /// Every corner of the rectangle lies inside the world.
    pub open spec fn within_world(&self) -> bool {
        &&& 0 <= self.min_x && self.max_x < WORLD_WIDTH
        &&& 0 <= self.min_y && self.max_y < WORLD_HEIGHT
    }

    /// The visible rectangle limited to the world: every bound is clamped to
    /// the world's columns and rows.
    pub fn clamped_to_world(min_x: i32, max_x: i32, min_y: i32, max_y: i32) -> (r: TileRange)
        ensures
            r.min_x == clamp_int(min_x as int, 0, WORLD_WIDTH - 1),
            r.max_x == clamp_int(max_x as int, 0, WORLD_WIDTH - 1),
            r.min_y == clamp_int(min_y as int, 0, WORLD_HEIGHT - 1),
            r.max_y == clamp_int(max_y as int, 0, WORLD_HEIGHT - 1),
            0 <= r.min_x < WORLD_WIDTH && 0 <= r.max_x < WORLD_WIDTH,
            0 <= r.min_y < WORLD_HEIGHT && 0 <= r.max_y < WORLD_HEIGHT,
            r.within_world(),
    {
        TileRange {
            min_x: clamp_i32(min_x, 0, WORLD_WIDTH as i32 - 1),
            max_x: clamp_i32(max_x, 0, WORLD_WIDTH as i32 - 1),
            min_y: clamp_i32(min_y, 0, WORLD_HEIGHT as i32 - 1),
            max_y: clamp_i32(max_y, 0, WORLD_HEIGHT as i32 - 1),
        }
    }

    /// Whether tile `(tx, ty)` lies in the rectangle; tiles outside it are
    /// taken off screen.
    pub fn contains(&self, tx: i32, ty: i32) -> (b: bool)
        ensures
            b == self.covers(tx as int, ty as int),
    {
        !(tx < self.min_x || tx > self.max_x || ty < self.min_y || ty > self.max_y)
    }
}

impl TileRange {
    /// Number of columns covered (at most 0 when empty).
    pub open spec fn width(&self) -> int {
        self.max_x - self.min_x + 1
    }

    /// Number of rows covered (at most 0 when empty).
    pub open spec fn height(&self) -> int {
        self.max_y - self.min_y + 1
    }

    /// Number of cells covered.
    pub open spec fn slot_count(&self) -> int {
        if self.width() > 0 && self.height() > 0 {
            self.width() * self.height()
        } else {
            0
        }
    }

    /// Row-major position of cell `(x, y)` among the covered cells.
    pub open spec fn slot(&self, x: int, y: int) -> int {
        (y - self.min_y) * self.width() + (x - self.min_x)
    }

    /// The number of covered cells, for a rectangle inside the world.
    pub fn slot_total(&self) -> (n: usize)
        requires
            self.within_world(),
        ensures
            n == self.slot_count(),
    {
        if self.min_x <= self.max_x && self.min_y <= self.max_y {
            let w = (self.max_x - self.min_x + 1) as usize;
            let h = (self.max_y - self.min_y + 1) as usize;
            proof {
                lemma_small_product(w as int, h as int);
            }
            w * h
        } else {
            0
        }
    }

    /// Position of covered cell `(x, y)` among the covered cells.
    pub fn slot_of(&self, x: i32, y: i32) -> (s: usize)
        requires
            self.within_world(),
            self.covers(x as int, y as int),
        ensures
            s == self.slot(x as int, y as int),
            s < self.slot_count(),
    {
        proof {
            lemma_slot_in_range(*self, x as int, y as int);
        }
        let w = (self.max_x - self.min_x + 1) as usize;
        (y - self.min_y) as usize * w + (x - self.min_x) as usize
    }
}

proof fn lemma_small_product(w: int, h: int)
    requires
        0 < w <= WORLD_WIDTH,
        0 < h <= WORLD_HEIGHT,
    ensures
        0 < w * h <= WORLD_WIDTH * WORLD_HEIGHT,
{
    assert(0 < w * h <= 400 * 200) by (nonlinear_arith)
        requires
            0 < w <= 400,
            0 < h <= 200,
    ;
}

/// A covered cell's slot lies among the covered cells.
pub proof fn lemma_slot_in_range(view: TileRange, x: int, y: int)
    requires
        view.within_world(),
        view.covers(x, y),
    ensures
        0 <= view.slot(x, y) < view.slot_count(),
        view.slot_count() <= WORLD_WIDTH * WORLD_HEIGHT,
{
    let a = x - view.min_x;
    let b = y - view.min_y;
    let w = view.width();
    let h = view.height();
    lemma_small_product(w, h);
    assert(0 <= b * w + a < h * w) by (nonlinear_arith)
        requires
            0 <= a < w,
            0 <= b < h,
    ;
    assert(h * w == w * h) by (nonlinear_arith);
}

/// Distinct covered cells have distinct slots.
pub proof fn lemma_slot_injective(view: TileRange, x1: int, y1: int, x2: int, y2: int)
    requires
        view.covers(x1, y1),
        view.covers(x2, y2),
        view.slot(x1, y1) == view.slot(x2, y2),
    ensures
        x1 == x2 && y1 == y2,
{
    let a1 = x1 - view.min_x;
    let b1 = y1 - view.min_y;
    let a2 = x2 - view.min_x;
    let b2 = y2 - view.min_y;
    let w = view.width();
    assert(b1 == b2) by (nonlinear_arith)
        requires
            0 <= a1 < w,
            0 <= a2 < w,
            0 <= b1,
            0 <= b2,
            b1 * w + a1 == b2 * w + a2,
    {
        if b1 < b2 {
            assert(b1 * w + w <= b2 * w);
        } else if b2 < b1 {
            assert(b2 * w + w <= b1 * w);
        }
    }
}

} // verus!
