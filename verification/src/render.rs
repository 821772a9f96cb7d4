//! Deciding, frame by frame, which tile sprites to take down and which to
//! put up, so that exactly the non-air tiles in view are on screen and a
//! changed tile is redrawn at once.
use vstd::prelude::*;

use crate::tile::TileType;
use crate::view::{lemma_slot_in_range, lemma_slot_injective, TileRange};
use crate::world::{cell_index, in_bounds, GameWorld};

verus! {

broadcast use vstd::seq_lib::lemma_seq_contains_after_push;

/// What the renderer has to do this frame.
pub struct RenderStep {
    /// Cells whose sprite goes away, each listed once.
    pub despawn: Vec<(i32, i32)>,
    /// Cells that get a new sprite, with the tile it shows, each listed once.
    pub spawn: Vec<((i32, i32), TileType)>,
}

impl GameWorld {
    /// The sprite of rendered cell `k` goes away: the cell changed, or it
    /// left the view.
    pub open spec fn must_despawn(
        &self,
        rendered: Seq<(i32, i32)>,
        view: TileRange,
        k: (i32, i32),
    ) -> bool {
        rendered.contains(k) && (self.dirty_set().contains(k) || !view.covers(k.0 as int, k.1 as int))
    }

    /// Cell `k` gets a new sprite: it is in view, shows no sprite once this
    /// frame's sprites are gone, and is not air.
    pub open spec fn must_spawn(&self, rendered: Seq<(i32, i32)>, view: TileRange, k: (i32, i32)) -> bool {
        &&& view.covers(k.0 as int, k.1 as int)
        &&& (!rendered.contains(k) || self.must_despawn(rendered, view, k))
        &&& self.tile(k.0 as int, k.1 as int) != TileType::Air
    }

    /// Every rendered cell that has not changed since it was drawn holds a
    /// non-air tile (what the renderer keeps true between frames).
    pub open spec fn rendered_current(&self, rendered: Seq<(i32, i32)>) -> bool {
        forall|k: (i32, i32)| #[trigger] rendered.contains(k) && !self.dirty_set().contains(k)
            ==> self.tile(k.0 as int, k.1 as int) != TileType::Air
    }

    /// Works out this frame's sprite changes from the cells that have a
    /// sprite (`rendered`) and the visible rectangle, and clears the dirty
    /// list, whose cells are redrawn by it.
    pub fn render_step(&mut self, rendered: &Vec<(i32, i32)>, view: TileRange) -> (step: RenderStep)
        requires
            old(self).grid_ok(),
            old(self).dirty_ok(),
            rendered@.no_duplicates(),
            view.within_world(),
        ensures
            final(self).grid_ok(),
            final(self).dirty_ok(),
            old(self).wf() ==> final(self).wf(),
            final(self).dirty@.len() == 0,
            final(self).tiles@ == old(self).tiles@,
            final(self).surface_heights@ == old(self).surface_heights@,
            step.despawn@.no_duplicates(),
            step.spawn@.no_duplicates(),
            forall|k: (i32, i32)| #[trigger] step.despawn@.contains(k) <==> old(self).must_despawn(
                rendered@,
                view,
                k,
            ),
            forall|k: (i32, i32), t: TileType| #[trigger] step.spawn@.contains((k, t)) <==> (
            old(self).must_spawn(rendered@, view, k) && t == old(self).tile(k.0 as int, k.1 as int)),
    {
        let dirty_flags = view_flags(&self.dirty, view);
        let no_cells: Vec<(i32, i32)> = Vec::new();
        let mut kept = view_flags(&no_cells, view);
        assert forall|k: (i32, i32)| view.covers(k.0 as int, k.1 as int) implies !(
        #[trigger] kept@[view.slot(k.0 as int, k.1 as int)]) by {
            assert(!no_cells@.contains(k));
        }
        assert(rendered@.subrange(0, 0) =~= Seq::<(i32, i32)>::empty());

        // Sprites to take down; the others are kept.
        let mut despawn: Vec<(i32, i32)> = Vec::new();
        let n = rendered.len();
        let mut i: usize = 0;
        while i < n
            invariant
                i <= n,
                n == rendered@.len(),
                rendered@.no_duplicates(),
                self.grid_ok(),
                self.dirty_ok(),
                view.within_world(),
                dirty_flags@.len() == view.slot_count(),
                forall|k: (i32, i32)| #![trigger self.dirty@.contains(k)] view.covers(k.0 as int, k.1 as int)
                    ==> (dirty_flags@[view.slot(k.0 as int, k.1 as int)] <==> self.dirty@.contains(k)),
                kept@.len() == view.slot_count(),
                despawn@.no_duplicates(),
                forall|d: (i32, i32)| #[trigger] despawn@.contains(d) <==> (
                rendered@.subrange(0, i as int).contains(d) && (self.dirty@.contains(d) || !view.covers(
                    d.0 as int,
                    d.1 as int,
                ))),
                forall|k: (i32, i32)| view.covers(k.0 as int, k.1 as int) ==> (
                #[trigger] kept@[view.slot(k.0 as int, k.1 as int)] <==> (rendered@.subrange(
                    0,
                    i as int,
                ).contains(k) && !self.dirty@.contains(k))),
            decreases n - i,
        {
            let k = rendered[i];
            let ghost prefix = rendered@.subrange(0, i as int);
            assert(rendered@.subrange(0, i + 1) =~= prefix.push(k));
            assert(!prefix.contains(k)) by {
                if prefix.contains(k) {
                    let j = choose|j: int| 0 <= j < prefix.len() && prefix[j] == k;
                    assert(rendered@[j] == rendered@[i as int]);
                }
            }
            let covered = view.contains(k.0, k.1);
            let is_dirty = covered && dirty_flags[view.slot_of(k.0, k.1)];
            if covered {
                assert(self.dirty@.contains(k) == is_dirty);
            }
            if is_dirty || !covered {
                let ghost before = despawn@;
                despawn.push(k);
                assert(despawn@ == before.push(k));
                assert(despawn@.no_duplicates()) by {
                    assert forall|a: int, b: int| 0 <= a < despawn@.len() && 0 <= b < despawn@.len()
                        && a != b implies despawn@[a] != despawn@[b] by {
                        if a == before.len() as int {
                            assert(before.contains(before[b]));
                        } else if b == before.len() as int {
                            assert(before.contains(before[a]));
                        }
                    }
                }
                assert forall|c: (i32, i32)| view.covers(c.0 as int, c.1 as int) implies (
                #[trigger] kept@[view.slot(c.0 as int, c.1 as int)] <==> (rendered@.subrange(
                    0,
                    i + 1,
                ).contains(c) && !self.dirty@.contains(c))) by {
                    if c == k {
                    }
                }
            } else {
                let ghost before = kept@;
                let idx = view.slot_of(k.0, k.1);
                kept.set(idx, true);
                assert forall|c: (i32, i32)| view.covers(c.0 as int, c.1 as int) implies (
                #[trigger] kept@[view.slot(c.0 as int, c.1 as int)] <==> (rendered@.subrange(
                    0,
                    i + 1,
                ).contains(c) && !self.dirty@.contains(c))) by {
                    if c != k {
                        if view.slot(c.0 as int, c.1 as int) == view.slot(k.0 as int, k.1 as int) {
                            lemma_slot_injective(view, c.0 as int, c.1 as int, k.0 as int, k.1 as int);
                        }
                        lemma_slot_in_range(view, c.0 as int, c.1 as int);
                        assert(kept@[view.slot(c.0 as int, c.1 as int)] == before[view.slot(
                            c.0 as int,
                            c.1 as int,
                        )]);
                    }
                }
            }
            i = i + 1;
        }
        assert(rendered@.subrange(0, n as int) =~= rendered@);

        // New sprites, row by row over the view.
        let mut spawn: Vec<((i32, i32), TileType)> = Vec::new();
        let mut ty: i32 = view.min_y;
        while ty <= view.max_y
            invariant
                view.within_world(),
                view.min_y <= ty,
                ty <= view.max_y + 1 || ty == view.min_y,
                self.grid_ok(),
                kept@.len() == view.slot_count(),
                forall|k: (i32, i32)| view.covers(k.0 as int, k.1 as int) ==> (
                #[trigger] kept@[view.slot(k.0 as int, k.1 as int)] <==> (rendered@.contains(k)
                    && !self.dirty@.contains(k))),
                spawn@.no_duplicates(),
                forall|k: (i32, i32), t: TileType| #[trigger] spawn@.contains((k, t)) <==> (k.1 < ty
                    && view.covers(k.0 as int, k.1 as int) && !(rendered@.contains(k)
                    && !self.dirty@.contains(k)) && t == self.tile(k.0 as int, k.1 as int) && t
                    != TileType::Air),
            decreases view.max_y + 1 - ty,
        {
            let mut tx: i32 = view.min_x;
            while tx <= view.max_x
                invariant
                    view.within_world(),
                    view.min_y <= ty <= view.max_y,
                    view.min_x <= tx,
                    tx <= view.max_x + 1 || tx == view.min_x,
                    self.grid_ok(),
                    kept@.len() == view.slot_count(),
                    forall|k: (i32, i32)| view.covers(k.0 as int, k.1 as int) ==> (
                    #[trigger] kept@[view.slot(k.0 as int, k.1 as int)] <==> (rendered@.contains(k)
                        && !self.dirty@.contains(k))),
                    spawn@.no_duplicates(),
                    forall|k: (i32, i32), t: TileType| #[trigger] spawn@.contains((k, t)) <==> ((k.1
                        < ty || (k.1 == ty && k.0 < tx)) && view.covers(k.0 as int, k.1 as int) && !(
                    rendered@.contains(k) && !self.dirty@.contains(k)) && t == self.tile(
                        k.0 as int,
                        k.1 as int,
                    ) && t != TileType::Air),
                decreases view.max_x + 1 - tx,
            {
                let k = (tx, ty);
                assert(in_bounds(tx as int, ty as int));
                if !kept[view.slot_of(tx, ty)] {
                    let t = self.get(tx, ty);
                    if t != TileType::Air {
                        let ghost before = spawn@;
                        spawn.push((k, t));
                        assert(spawn@ == before.push((k, t)));
                        assert(!before.contains((k, t)));
                        assert(spawn@.no_duplicates()) by {
                            assert forall|a: int, b: int| 0 <= a < spawn@.len() && 0 <= b
                                < spawn@.len() && a != b implies spawn@[a] != spawn@[b] by {
                                if a == before.len() as int {
                                    assert(before.contains(before[b]));
                                } else if b == before.len() as int {
                                    assert(before.contains(before[a]));
                                }
                            }
                        }
                    }
                }
                tx = tx + 1;
            }
            ty = ty + 1;
        }

        self.dirty = Vec::new();
        RenderStep { despawn, spawn }
    }
}

/// One flag per cell of `view`, set exactly for the covered cells listed in
/// `cells`.
fn view_flags(cells: &Vec<(i32, i32)>, view: TileRange) -> (flags: Vec<bool>)
    requires
        view.within_world(),
    ensures
        flags@.len() == view.slot_count(),
        forall|k: (i32, i32)| #![trigger cells@.contains(k)] view.covers(k.0 as int, k.1 as int) ==> (
        flags@[view.slot(k.0 as int, k.1 as int)] <==> cells@.contains(k)),
{
    let total = view.slot_total();
    let mut flags: Vec<bool> = Vec::new();
    let mut c: usize = 0;
    while c < total
        invariant
            c <= total,
            total == view.slot_count(),
            flags@.len() == c,
            forall|j: int| 0 <= j < c ==> !flags@[j],
        decreases total - c,
    {
        flags.push(false);
        c = c + 1;
    }
    assert(cells@.subrange(0, 0) =~= Seq::<(i32, i32)>::empty());
    assert forall|k: (i32, i32)| #![trigger cells@.subrange(0, 0).contains(k)] view.covers(
        k.0 as int,
        k.1 as int,
    ) implies (flags@[view.slot(k.0 as int, k.1 as int)] <==> cells@.subrange(0, 0).contains(k)) by {
        lemma_slot_in_range(view, k.0 as int, k.1 as int);
    }
    let n = cells.len();
    let mut i: usize = 0;
    while i < n
        invariant
            i <= n,
            n == cells@.len(),
            view.within_world(),
            flags@.len() == view.slot_count(),
            forall|k: (i32, i32)| #![trigger cells@.subrange(0, i as int).contains(k)] view.covers(
                k.0 as int,
                k.1 as int,
            ) ==> (flags@[view.slot(k.0 as int, k.1 as int)] <==> cells@.subrange(
                0,
                i as int,
            ).contains(k)),
        decreases n - i,
    {
        let k = cells[i];
        let ghost prefix = cells@.subrange(0, i as int);
        assert(cells@.subrange(0, i + 1) =~= prefix.push(k));
        let ghost before = flags@;
        if view.contains(k.0, k.1) {
            let idx = view.slot_of(k.0, k.1);
            flags.set(idx, true);
        }
        assert forall|q: (i32, i32)| #![trigger cells@.subrange(0, i + 1).contains(q)] view.covers(
            q.0 as int,
            q.1 as int,
        ) implies (flags@[view.slot(q.0 as int, q.1 as int)] <==> cells@.subrange(
            0,
            i + 1,
        ).contains(q)) by {
            lemma_slot_in_range(view, q.0 as int, q.1 as int);
            assert(prefix.contains(q) ==> before[view.slot(q.0 as int, q.1 as int)]);
            if q != k {
                if view.covers(k.0 as int, k.1 as int) && view.slot(q.0 as int, q.1 as int)
                    == view.slot(k.0 as int, k.1 as int) {
                    lemma_slot_injective(view, q.0 as int, q.1 as int, k.0 as int, k.1 as int);
                }
            }
        }
        i = i + 1;
    }
    assert(cells@.subrange(0, n as int) =~= cells@);
    flags
}

/// After a render step the screen is complete: the rendered cells that
/// stay plus the spawned cells are exactly the non-air cells in view,
/// provided every rendered cell that has not changed holds a non-air tile.
pub proof fn law_view_fully_drawn(
    w: GameWorld,
    rendered: Seq<(i32, i32)>,
    view: TileRange,
    despawn: Seq<(i32, i32)>,
    spawn: Seq<((i32, i32), TileType)>,
    k: (i32, i32),
)
    requires
        w.rendered_current(rendered),
        forall|d: (i32, i32)| #[trigger] despawn.contains(d) <==> w.must_despawn(rendered, view, d),
        forall|c: (i32, i32), t: TileType| #[trigger] spawn.contains((c, t)) <==> (w.must_spawn(
            rendered,
            view,
            c,
        ) && t == w.tile(c.0 as int, c.1 as int)),
    ensures
        ((rendered.contains(k) && !despawn.contains(k)) || spawn.contains(
            (k, w.tile(k.0 as int, k.1 as int)),
        )) <==> (view.covers(k.0 as int, k.1 as int) && w.tile(k.0 as int, k.1 as int)
            != TileType::Air),
{
    assert(despawn.contains(k) <==> w.must_despawn(rendered, view, k));
    assert(spawn.contains((k, w.tile(k.0 as int, k.1 as int))) <==> w.must_spawn(rendered, view, k));
}

/// Writing a cell keeps the renderer's invariant: the written cell becomes
/// dirty, so it no longer has to hold a non-air tile until it is redrawn.
pub proof fn law_write_keeps_rendered_current(
    before: GameWorld,
    after: GameWorld,
    rendered: Seq<(i32, i32)>,
    x: i32,
    y: i32,
    t: TileType,
)
    requires
        before.grid_ok(),
        before.rendered_current(rendered),
        in_bounds(x as int, y as int),
        after.tiles@ == before.tiles@.update(cell_index(x as int, y as int), t),
        after.dirty_set() == before.dirty_set().insert((x, y)),
    ensures
        after.rendered_current(rendered),
{
    assert forall|k: (i32, i32)| #[trigger] rendered.contains(k) && !after.dirty_set().contains(k)
        implies after.tile(k.0 as int, k.1 as int) != TileType::Air by {
        assert(k != (x, y));
        if in_bounds(k.0 as int, k.1 as int) {
            assert(cell_index(k.0 as int, k.1 as int) != cell_index(x as int, y as int));
        }
    }
}

} // verus!
