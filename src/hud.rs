//! Heads-up display counters: the leader's stats and the optional power meter.
use crate::power::{gain_xp, FrogPower};
use vstd::prelude::*;

verus! {

/// The leader's experience and health.
pub struct JeanStats {
    pub max_xp: usize,
    pub xp: usize,
    pub max_hp: usize,
    pub hp: usize,
}

impl JeanStats {
    pub open spec fn wf(&self) -> bool {
        1 <= self.max_xp && self.xp < self.max_xp && self.hp <= self.max_hp
    }

    /// Ten points to the next level, full health of ten.
    pub fn new() -> (r: JeanStats)
        ensures
            r == (JeanStats { max_xp: 10, xp: 0, max_hp: 10, hp: 10 }),
            r.wf(),
    {
        JeanStats { max_xp: 10, xp: 0, max_hp: 10, hp: 10 }
    }
}

/// Everything the HUD shows; the power meter is there only once the power is had.
pub struct Hud {
    pub jean: JeanStats,
    pub frog_power: Option<FrogPower>,
}

impl Hud {
    pub fn new() -> (r: Hud)
        ensures
            r.jean == (JeanStats { max_xp: 10, xp: 0, max_hp: 10, hp: 10 }),
            r.frog_power.is_none(),
    {
        Hud { jean: JeanStats::new(), frog_power: None }
    }

    /// The leader gains one point of experience; reaching the cap raises the
    /// maximum health by one, doubles the cap and empties the points.
    pub fn increase_xp(&mut self)
        requires
            old(self).jean.wf(),
            old(self).jean.xp + 1 >= old(self).jean.max_xp ==> 2 * old(self).jean.max_xp
                <= usize::MAX && old(self).jean.max_hp < usize::MAX,
        ensures
            final(self).jean.wf(),
            (final(self).jean.xp as int, final(self).jean.max_xp as int, final(self).jean.max_hp as int)
                == gain_xp(
                old(self).jean.xp as int,
                old(self).jean.max_xp as int,
                old(self).jean.max_hp as int,
            ),
            final(self).jean.hp == old(self).jean.hp,
            final(self).frog_power == old(self).frog_power,
    {
        if self.jean.xp + 1 < self.jean.max_xp {
            self.jean.xp += 1;
        } else {
            self.jean.max_hp += 1;
            self.jean.max_xp *= 2;
            self.jean.xp = 0;
        }
    }
}

} // verus!
