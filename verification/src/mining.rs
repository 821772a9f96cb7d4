//! The mining clock: while the mine button is held, a tile is mined each
//! time a full interval has elapsed; the first press mines at once.
use vstd::prelude::*;

verus! {

/// A repeating countdown in nanoseconds that paces mining.
#[derive(Clone, Copy, PartialEq, Eq, Debug, Structural)]
pub struct MineClock {
    /// Time accumulated towards the next mining tick.
    pub elapsed_ns: u64,
    /// Length of one mining interval.
    pub interval_ns: u64,
}

impl MineClock {
    /// The clock is usable: a positive interval, and at most one full
    /// interval accumulated.
    pub open spec fn wf(&self) -> bool {
        0 < self.interval_ns && self.elapsed_ns <= self.interval_ns
    }

    /// This frame mines: the button is held and the accumulated time reaches
    /// a full interval.
    pub open spec fn fires_on(&self, held: bool, delta_ns: u64) -> bool {
        held && self.elapsed_ns + delta_ns >= self.interval_ns
    }

    /// The clock after a frame: while held, the frame's time is added and
    /// whole intervals are taken off; on release the clock is re-armed to
    /// fire on the next press.
    pub open spec fn after(&self, held: bool, delta_ns: u64) -> MineClock {
        if held {
            MineClock {
                elapsed_ns: ((self.elapsed_ns + delta_ns) % (self.interval_ns as int)) as u64,
                interval_ns: self.interval_ns,
            }
        } else {
            MineClock { elapsed_ns: self.interval_ns, interval_ns: self.interval_ns }
        }
    }

    /// A clock with the given interval, armed so the first press mines.
    pub fn primed(interval_ns: u64) -> (c: MineClock)
        requires
            interval_ns > 0,
        ensures
            c.interval_ns == interval_ns,
            c.elapsed_ns == interval_ns,
            c.wf(),
    {
        MineClock { elapsed_ns: interval_ns, interval_ns }
    }

    /// Advances the clock by one frame of `delta_ns` nanoseconds with the
    /// mine button `held` or not; returns whether this frame mines.
    pub fn step(&mut self, held: bool, delta_ns: u64) -> (fire: bool)
        requires
            old(self).wf(),
        ensures
            final(self).wf(),
            *final(self) == old(self).after(held, delta_ns),
            fire == old(self).fires_on(held, delta_ns),
            final(self).interval_ns == old(self).interval_ns,
            held ==> fire == (old(self).elapsed_ns + delta_ns >= old(self).interval_ns),
            held ==> final(self).elapsed_ns == (old(self).elapsed_ns + delta_ns) % (
            old(self).interval_ns as int),
            !held ==> !fire && final(self).elapsed_ns == old(self).interval_ns,
    {
        if held {
            let total: u128 = self.elapsed_ns as u128 + delta_ns as u128;
            let interval: u128 = self.interval_ns as u128;
            let fire = total >= interval;
            let rest: u128 = total % interval;
            assert(rest < interval);
            self.elapsed_ns = rest as u64;
            fire
        } else {
            self.elapsed_ns = self.interval_ns;
            false
        }
    }
}

/// Total length of a run of frames, in nanoseconds.
pub open spec fn run_length(deltas: Seq<u64>) -> int
    decreases deltas.len(),
{
    if deltas.len() == 0 {
        0
    } else {
        deltas[0] + run_length(deltas.drop_first())
    }
}

/// Number of tiles mined over a run of frames with the button held.
pub open spec fn held_fires(c: MineClock, deltas: Seq<u64>) -> nat
    decreases deltas.len(),
{
    if deltas.len() == 0 {
        0
    } else {
        (if c.fires_on(true, deltas[0]) {
            1nat
        } else {
            0nat
        }) + held_fires(c.after(true, deltas[0]), deltas.drop_first())
    }
}

/// The clock at the end of a run of frames with the button held.
pub open spec fn held_end(c: MineClock, deltas: Seq<u64>) -> MineClock
    decreases deltas.len(),
{
    if deltas.len() == 0 {
        c
    } else {
        held_end(c.after(true, deltas[0]), deltas.drop_first())
    }
}

/// One held frame: the tiles it mines, times the interval, plus what stays
/// on the clock never exceeds what was on it plus the frame's time.
proof fn lemma_held_frame(c: MineClock, d: u64)
    requires
        c.wf(),
    ensures
        c.after(true, d).wf(),
        (if c.fires_on(true, d) { c.interval_ns as int } else { 0int }) + c.after(true, d).elapsed_ns
            <= c.elapsed_ns + d,
{
    let x: int = c.elapsed_ns + d;
    let i: int = c.interval_ns as int;
    vstd::arithmetic::div_mod::lemma_fundamental_div_mod(x, i);
    assert(0 <= x % i < i) by {
        vstd::arithmetic::div_mod::lemma_mod_bound(x, i);
    }
    if x >= i {
        assert(x / i >= 1) by {
            vstd::arithmetic::div_mod::lemma_div_is_ordered(i, x, i);
            vstd::arithmetic::div_mod::lemma_div_by_self(i);
        }
        assert(i * (x / i) >= i) by (nonlinear_arith)
            requires
                x / i >= 1,
                i > 0,
        ;
    } else {
        vstd::arithmetic::div_mod::lemma_small_mod(x as nat, i as nat);
    }
}

/// Mining is rate-limited: over any run of frames with the button held, the
/// tiles mined times the interval never exceed the time on the clock at the
/// start plus the run's length; from a clock holding at most one interval,
/// at most `1 + run_length / interval` tiles are mined.
pub proof fn law_mining_rate(c: MineClock, deltas: Seq<u64>)
    requires
        c.wf(),
    ensures
        held_end(c, deltas).wf(),
        held_fires(c, deltas) * c.interval_ns + held_end(c, deltas).elapsed_ns <= c.elapsed_ns
            + run_length(deltas),
        held_fires(c, deltas) <= 1 + run_length(deltas) / (c.interval_ns as int),
    decreases deltas.len(),
{
    let i: int = c.interval_ns as int;
    if deltas.len() > 0 {
        let d = deltas[0];
        let c1 = c.after(true, d);
        lemma_held_frame(c, d);
        law_mining_rate(c1, deltas.drop_first());
        let f1 = held_fires(c1, deltas.drop_first());
        let f0: int = if c.fires_on(true, d) { 1 } else { 0 };
        assert(held_fires(c, deltas) == f0 + f1);
        assert(f1 * c1.interval_ns == f1 * i);
        assert((f0 + f1) * i == f0 * i + f1 * i) by (nonlinear_arith);
        assert(run_length(deltas) == d + run_length(deltas.drop_first()));
        assert(held_end(c, deltas) == held_end(c1, deltas.drop_first()));
        let e = held_end(c1, deltas.drop_first()).elapsed_ns as int;
        let r = run_length(deltas.drop_first());
        assert(f1 * i + e <= c1.elapsed_ns + r);
        assert(f0 * i + c1.elapsed_ns <= c.elapsed_ns + d);
        assert((f0 + f1) * i + e <= c.elapsed_ns + d + r);
        assert(held_fires(c, deltas) * c.interval_ns == (f0 + f1) * i);
    } else {
        assert(held_fires(c, deltas) == 0);
        assert(held_fires(c, deltas) * c.interval_ns == 0);
    }
    assert(held_fires(c, deltas) * c.interval_ns + held_end(c, deltas).elapsed_ns <= c.elapsed_ns
        + run_length(deltas));
    let f: int = held_fires(c, deltas) as int;
    let s: int = run_length(deltas);
    assert(s >= 0) by {
        lemma_run_length_nonneg(deltas);
    }
    assert(f * i <= i + s);
    assert(f <= 1 + s / i) by (nonlinear_arith)
        requires
            f * i <= i + s,
            i > 0,
            s >= 0,
            f >= 0,
    {
        vstd::arithmetic::div_mod::lemma_fundamental_div_mod(s, i);
        vstd::arithmetic::div_mod::lemma_mod_bound(s, i);
    }
}

proof fn lemma_run_length_nonneg(deltas: Seq<u64>)
    ensures
        run_length(deltas) >= 0,
    decreases deltas.len(),
{
    if deltas.len() > 0 {
        lemma_run_length_nonneg(deltas.drop_first());
    }
}

/// The first frame of a press mines at once after a release, whatever the
/// frame's length.
pub proof fn law_press_after_release_mines(c: MineClock, released_ns: u64, pressed_ns: u64)
    requires
        c.wf(),
    ensures
        c.after(false, released_ns).fires_on(true, pressed_ns),
{
}

} // verus!
