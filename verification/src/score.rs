//! Fitness bookkeeping for one heuristic: total attack sent over total time
//! spent, with lost games' attack attenuated.

use vstd::prelude::*;

verus! {

/// Accumulated match results: time played and attack sent.
#[derive(Debug, Clone, PartialEq, Eq, Hash)]
pub struct Score {
    pub time: u32,
    pub attack: u32,
}

impl Default for Score {
    fn default() -> (r: Self)
        ensures
            r.time == 0,
            r.attack == 0,
    {
        Score { time: 0, attack: 0 }
    }
}

/// The attack credited for one match: the full amount for a win, half,
/// rounded down, for a loss.
pub open spec fn spec_credited_attack(attack: u32, win: bool) -> int {
    if win {
        attack as int
    } else {
        attack as int / 2
    }
}

/// Whether the first score's attack rate is at least the second's: the
/// rates compared exactly as fractions, an empty time counting as rate
/// zero.
pub open spec fn spec_rate_ge(a: Score, b: Score) -> bool {
    let ra_num: int = if a.time == 0 {
        0
    } else {
        a.attack as int
    };
    let rb_num: int = if b.time == 0 {
        0
    } else {
        b.attack as int
    };
    let ra_den: int = if a.time == 0 {
        1
    } else {
        a.time as int
    };
    let rb_den: int = if b.time == 0 {
        1
    } else {
        b.time as int
    };
    ra_num * rb_den >= rb_num * ra_den
}

impl Score {
    pub fn new() -> (r: Self)
        ensures
            r.time == 0,
            r.attack == 0,
    {
        Score { time: 0, attack: 0 }
    }

    /// Adds one match's outcome.
    pub fn update(&mut self, attack: u32, time: u32, win: bool)
        requires
            old(self).time + time <= u32::MAX,
            old(self).attack + attack <= u32::MAX,
        ensures
            final(self).time == old(self).time + time,
            final(self).attack == old(self).attack + spec_credited_attack(attack, win),
    {
        self.time = self.time + time;
        self.attack = self.attack + (if win {
            attack
        } else {
            attack / 2
        });
    }

    /// Compares two scores by attack per time, exactly as fractions.
    pub fn rate_at_least(&self, other: &Score) -> (r: bool)
        ensures
            r == spec_rate_ge(*self, *other),
    {
        let ra_num: u64 = if self.time == 0 {
            0
        } else {
            self.attack as u64
        };
        let rb_num: u64 = if other.time == 0 {
            0
        } else {
            other.attack as u64
        };
        let ra_den: u64 = if self.time == 0 {
            1
        } else {
            self.time as u64
        };
        let rb_den: u64 = if other.time == 0 {
            1
        } else {
            other.time as u64
        };
        proof {
            assert(ra_num * rb_den <= 0xffff_ffff * 0xffff_ffffu64) by (nonlinear_arith)
                requires
                    ra_num <= 0xffff_ffff,
                    rb_den <= 0xffff_ffff,
            ;
            assert(rb_num * ra_den <= 0xffff_ffff * 0xffff_ffffu64) by (nonlinear_arith)
                requires
                    rb_num <= 0xffff_ffff,
                    ra_den <= 0xffff_ffff,
            ;
        }
        ra_num * rb_den >= rb_num * ra_den
    }
}

} // verus!
