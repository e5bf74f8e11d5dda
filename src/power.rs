//! The dependents' power meter and experience counter.
use crate::animation::elapsed;
use vstd::prelude::*;

verus! {

/// Milliseconds between two charges of the power meter.
pub const POWER_COOLDOWN: u64 = 3000;

/// Experience rule shared by every counter: one more point, and on reaching
/// the cap the points go back to zero, the cap doubles and the associated
/// capacity grows by one. Returns `(xp, max_xp, capacity)`.
pub open spec fn gain_xp(xp: int, max_xp: int, capacity: int) -> (int, int, int) {
    if xp + 1 >= max_xp {
        (0, 2 * max_xp, capacity + 1)
    } else {
        (xp + 1, max_xp, capacity)
    }
}

/// The mathematical state of the power meter.
pub struct PowerState {
    pub max_xp: int,
    pub xp: int,
    pub max_pp: int,
    pub pp: int,
    pub start: int,
}

impl PowerState {
    pub open spec fn wf(self) -> bool {
        1 <= self.max_xp && 0 <= self.xp < self.max_xp && 0 <= self.pp <= self.max_pp
    }

    /// One meter tick at `now` with `frogs` dependents alive: one charge is
    /// added when the meter is not full, fewer dependents are alive than the
    /// charges missing, and the cooldown has passed since the last change.
    pub open spec fn updated(self, frogs: int, now: int) -> PowerState {
        if self.pp < self.max_pp && frogs < self.max_pp - self.pp && elapsed(self.start, now)
            >= POWER_COOLDOWN {
            PowerState { pp: self.pp + 1, start: now, ..self }
        } else {
            self
        }
    }

    /// Using the power at `now`: one charge spent if there is one; the cooldown
    /// clock restarts only when the meter was full.
    pub open spec fn used(self, now: int) -> PowerState {
        if self.pp > 0 {
            PowerState {
                pp: self.pp - 1,
                start: if self.pp == self.max_pp {
                    now
                } else {
                    self.start
                },
                ..self
            }
        } else {
            self
        }
    }

    pub open spec fn xp_gained(self) -> PowerState {
        let g = gain_xp(self.xp, self.max_xp, self.max_pp);
        PowerState { xp: g.0, max_xp: g.1, max_pp: g.2, ..self }
    }

    /// Meter ticks with `frogs[k]` dependents at time `times[k]`, in order.
    pub open spec fn updated_through(self, frogs: Seq<int>, times: Seq<int>) -> PowerState
        decreases times.len(),
    {
        if times.len() == 0 || frogs.len() == 0 {
            self
        } else {
            self.updated_through(frogs.drop_last(), times.drop_last()).updated(
                frogs.last(),
                times.last(),
            )
        }
    }

    pub open spec fn xp_gained_times(self, n: nat) -> PowerState
        decreases n,
    {
        if n == 0 {
            self
        } else {
            self.xp_gained_times((n - 1) as nat).xp_gained()
        }
    }
}

proof fn lemma_meter_after_ticks(p: PowerState, frogs: Seq<int>, times: Seq<int>, j: int)
    requires
        p.wf(),
        p.pp == 0,
        times.len() == p.max_pp,
        frogs.len() == p.max_pp,
        forall|k: int|
            0 <= k < times.len() ==> #[trigger] times[k] - (if k == 0 {
                p.start
            } else {
                times[k - 1]
            }) >= POWER_COOLDOWN,
        forall|k: int| 0 <= k < frogs.len() ==> #[trigger] frogs[k] < p.max_pp - k,
        0 <= j <= times.len(),
    ensures
        p.updated_through(frogs.take(j), times.take(j)) == (PowerState {
            pp: j,
            start: if j == 0 {
                p.start
            } else {
                times[j - 1]
            },
            ..p
        }),
    decreases j,
{
    if j > 0 {
        lemma_meter_after_ticks(p, frogs, times, j - 1);
        assert(times.take(j).drop_last() =~= times.take(j - 1));
        assert(frogs.take(j).drop_last() =~= frogs.take(j - 1));
        let k = j - 1;
        assert(frogs[k] < p.max_pp - k);
        assert(times[k] - (if k == 0 {
            p.start
        } else {
            times[k - 1]
        }) >= POWER_COOLDOWN);
    }
}

/// Starting empty with capacity `N`, `N` ticks that each come a full cooldown
/// after the previous change, with fewer dependents alive than charges
/// missing, fill the meter exactly; further ticks never raise it past `N`.
pub proof fn lemma_meter_fills_to_capacity(p: PowerState, frogs: Seq<int>, times: Seq<int>)
    requires
        p.wf(),
        p.pp == 0,
        times.len() == p.max_pp,
        frogs.len() == p.max_pp,
        forall|k: int|
            0 <= k < times.len() ==> #[trigger] times[k] - (if k == 0 {
                p.start
            } else {
                times[k - 1]
            }) >= POWER_COOLDOWN,
        forall|k: int| 0 <= k < frogs.len() ==> #[trigger] frogs[k] < p.max_pp - k,
    ensures
        p.updated_through(frogs, times).pp == p.max_pp,
        forall|f: int, t: int| #[trigger] p.updated_through(frogs, times).updated(f, t).pp == p.max_pp,
{
    lemma_meter_after_ticks(p, frogs, times, times.len() as int);
    assert(times.take(times.len() as int) =~= times);
    assert(frogs.take(frogs.len() as int) =~= frogs);
}

proof fn lemma_xp_steps(p: PowerState, n: nat)
    requires
        p.wf(),
        p.xp == 0,
        n < p.max_xp,
    ensures
        p.xp_gained_times(n) == (PowerState { xp: n as int, ..p }),
    decreases n,
{
    if n > 0 {
        lemma_xp_steps(p, (n - 1) as nat);
    }
}

/// From zero points, each of the first `max_xp - 1` gains adds one point, and
/// gain number `max_xp` (the one that reaches the cap) resets the points to
/// zero, doubles the cap and adds one to the meter's capacity.
pub proof fn lemma_xp_levels_up_on_reaching_cap(p: PowerState)
    requires
        p.wf(),
        p.xp == 0,
    ensures
        forall|n: nat| n < p.max_xp ==> #[trigger] p.xp_gained_times(n).xp == n,
        forall|n: nat| n < p.max_xp ==> #[trigger] p.xp_gained_times(n).max_xp == p.max_xp,
        p.xp_gained_times(p.max_xp as nat) == (PowerState {
            xp: 0,
            max_xp: 2 * p.max_xp,
            max_pp: p.max_pp + 1,
            ..p
        }),
{
    assert forall|n: nat| n < p.max_xp implies #[trigger] p.xp_gained_times(n).xp == n by {
        lemma_xp_steps(p, n);
    }
    assert forall|n: nat| n < p.max_xp implies #[trigger] p.xp_gained_times(n).max_xp
        == p.max_xp by {
        lemma_xp_steps(p, n);
    }
    lemma_xp_steps(p, (p.max_xp - 1) as nat);
}

/// The dependents' power meter: charges (`pp`) refill on a cooldown and are
/// spent to summon; experience (`xp`) raises the meter's capacity.
pub struct FrogPower {
    max_xp: usize,
    xp: usize,
    max_pp: usize,
    pp: usize,
    start: u64,
}

impl View for FrogPower {
    type V = PowerState;

    closed spec fn view(&self) -> PowerState {
        PowerState {
            max_xp: self.max_xp as int,
            xp: self.xp as int,
            max_pp: self.max_pp as int,
            pp: self.pp as int,
            start: self.start as int,
        }
    }
}

impl FrogPower {
    /// A full meter of one charge, two points to the next level, cooldown clock at `now`.
    pub fn new(now: u64) -> (r: FrogPower)
        ensures
            r@ == (PowerState { max_xp: 2, xp: 0, max_pp: 1, pp: 1, start: now as int }),
            r@.wf(),
    {
        FrogPower { max_xp: 2, xp: 0, max_pp: 1, pp: 1, start: now }
    }

    /// One meter tick with `frogs` dependents alive.
    pub fn update(&mut self, frogs: usize, now: u64)
        requires
            old(self)@.wf(),
        ensures
            final(self)@ == old(self)@.updated(frogs as int, now as int),
            final(self)@.wf(),
    {
        let passed: u64 = if now >= self.start {
            now - self.start
        } else {
            0
        };
        if self.pp < self.max_pp && frogs < self.max_pp - self.pp && passed >= POWER_COOLDOWN {
            self.start = now;
            self.pp += 1;
        }
    }

    /// Spends one charge if there is one, and says whether it did.
    pub fn use_power(&mut self, now: u64) -> (r: bool)
        requires
            old(self)@.wf(),
        ensures
            final(self)@ == old(self)@.used(now as int),
            final(self)@.wf(),
            r == (old(self)@.pp > 0),
    {
        if self.pp > 0 {
            if self.pp == self.max_pp {
                self.start = now;
            }
            self.pp -= 1;
            true
        } else {
            false
        }
    }

    pub fn xp(&self) -> (r: usize)
        ensures
            r == self@.xp,
    {
        self.xp
    }

    pub fn max_xp(&self) -> (r: usize)
        ensures
            r == self@.max_xp,
    {
        self.max_xp
    }

    pub fn pp(&self) -> (r: usize)
        ensures
            r == self@.pp,
    {
        self.pp
    }

    pub fn max_pp(&self) -> (r: usize)
        ensures
            r == self@.max_pp,
    {
        self.max_pp
    }

    /// Gains one point of experience.
    pub fn increase_xp(&mut self)
        requires
            old(self)@.wf(),
            old(self)@.xp + 1 >= old(self)@.max_xp ==> 2 * old(self)@.max_xp <= usize::MAX
                && old(self)@.max_pp < usize::MAX,
        ensures
            final(self)@ == old(self)@.xp_gained(),
            final(self)@.wf(),
    {
        if self.xp + 1 < self.max_xp {
            self.xp += 1;
        } else {
            self.max_pp += 1;
            self.max_xp *= 2;
            self.xp = 0;
        }
    }
}

} // verus!
