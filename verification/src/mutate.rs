//! Random generation and crossover of heuristic weights.

use vstd::prelude::*;
use crate::evaluate::Evaluator;
use crate::rng::{rand_below, rand_between};

verus! {

/// What evolution needs of a parameter: a random fresh value and a random
/// mix of two parents.
pub trait Gene {
    fn generate() -> Self where Self: core::marker::Sized;

    fn crossover(parent1: &Self, parent2: &Self) -> Self where Self: core::marker::Sized;
}

/// The average of two weights, rounded toward zero.
pub open spec fn spec_avg(a: i32, b: i32) -> int {
    let s = a + b;
    if s >= 0 {
        s / 2
    } else {
        -((-s) / 2)
    }
}

/// Saturation of a blended weight back into the weight range.
pub open spec fn spec_clamp_i32(v: int) -> int {
    if v > i32::MAX {
        i32::MAX as int
    } else if v < i32::MIN {
        i32::MIN as int
    } else {
        v
    }
}

/// What one crossed weight can be: one of the parents, their average, or a
/// fresh small value, each nudged by a small random jitter.
pub open spec fn spec_is_crossed(r: i32, a: i32, b: i32) -> bool {
    exists|base: int, jitter: int|
        #![trigger (base + jitter)]
        -10 <= jitter <= 10 && (base == a || base == b || base == spec_avg(a, b) || -150 <= base
            <= 150) && r == spec_clamp_i32(base + jitter)
}

fn clamp_to_i32(v: i64) -> (r: i32)
    ensures
        r as int == spec_clamp_i32(v as int),
{
    if v > i32::MAX as i64 {
        i32::MAX
    } else if v < i32::MIN as i64 {
        i32::MIN
    } else {
        v as i32
    }
}

impl Gene for i32 {
    /// A fresh weight, uniform over a small range.
    fn generate() -> (r: Self)
        ensures
            -10 <= r <= 10,
    {
        rand_between(-10, 10)
    }

    /// Mostly one of the parents, sometimes their average, rarely a fresh
    /// value, always with a small random jitter.
    fn crossover(parent1: &Self, parent2: &Self) -> (r: Self)
        ensures
            spec_is_crossed(r, *parent1, *parent2),
    {
        let roll = rand_below(100);
        let base: i64 = if roll <= 41 {
            *parent1 as i64
        } else if roll <= 83 {
            *parent2 as i64
        } else if roll <= 98 {
            let s = *parent1 as i64 + *parent2 as i64;
            if s >= 0 {
                s / 2
            } else {
                -((-s) / 2)
            }
        } else {
            rand_between(-150, 150) as i64
        };
        let jitter = rand_between(-10, 10);
        let r = clamp_to_i32(base + jitter as i64);
        proof {
            assert(-10 <= jitter as int <= 10 && r as int == spec_clamp_i32(
                base as int + jitter as int,
            ));
        }
        r
    }
}

/// Whether every weight of `r` is a crossover of the matching weights.
pub open spec fn spec_evaluator_crossed(r: Evaluator, a: Evaluator, b: Evaluator) -> bool {
    &&& spec_is_crossed(r.bumpiness, a.bumpiness, b.bumpiness)
    &&& spec_is_crossed(r.bumpiness_sq, a.bumpiness_sq, b.bumpiness_sq)
    &&& spec_is_crossed(r.cavities, a.cavities, b.cavities)
    &&& spec_is_crossed(r.cavities_sq, a.cavities_sq, b.cavities_sq)
    &&& spec_is_crossed(r.overhangs, a.overhangs, b.overhangs)
    &&& spec_is_crossed(r.overhangs_sq, a.overhangs_sq, b.overhangs_sq)
    &&& spec_is_crossed(r.covers, a.covers, b.covers)
    &&& spec_is_crossed(r.covers_sq, a.covers_sq, b.covers_sq)
    &&& spec_is_crossed(r.well_depth_1, a.well_depth_1, b.well_depth_1)
    &&& spec_is_crossed(r.well_depth_1_sq, a.well_depth_1_sq, b.well_depth_1_sq)
    &&& spec_is_crossed(r.well_depth_2, a.well_depth_2, b.well_depth_2)
    &&& spec_is_crossed(r.well_depth_2_sq, a.well_depth_2_sq, b.well_depth_2_sq)
    &&& spec_is_crossed(r.hight, a.hight, b.hight)
    &&& spec_is_crossed(r.hight_sq, a.hight_sq, b.hight_sq)
    &&& spec_is_crossed(r.b2b, a.b2b, b.b2b)
    &&& spec_is_crossed(r.holding[0], a.holding[0], b.holding[0])
    &&& spec_is_crossed(r.holding[1], a.holding[1], b.holding[1])
    &&& spec_is_crossed(r.holding[2], a.holding[2], b.holding[2])
    &&& spec_is_crossed(r.holding[3], a.holding[3], b.holding[3])
    &&& spec_is_crossed(r.holding[4], a.holding[4], b.holding[4])
    &&& spec_is_crossed(r.move_time, a.move_time, b.move_time)
    &&& spec_is_crossed(r.wasted_i, a.wasted_i, b.wasted_i)
    &&& spec_is_crossed(r.b2b_clear, a.b2b_clear, b.b2b_clear)
    &&& spec_is_crossed(r.combo_garbage, a.combo_garbage, b.combo_garbage)
    &&& spec_is_crossed(r.clear1, a.clear1, b.clear1)
    &&& spec_is_crossed(r.clear2, a.clear2, b.clear2)
    &&& spec_is_crossed(r.clear3, a.clear3, b.clear3)
    &&& spec_is_crossed(r.clear4, a.clear4, b.clear4)
}

/// Whether every weight of `r` lies in the fresh-weight range.
pub open spec fn spec_evaluator_small(r: Evaluator) -> bool {
    &&& -10 <= r.bumpiness <= 10
    &&& -10 <= r.bumpiness_sq <= 10
    &&& -10 <= r.cavities <= 10
    &&& -10 <= r.cavities_sq <= 10
    &&& -10 <= r.overhangs <= 10
    &&& -10 <= r.overhangs_sq <= 10
    &&& -10 <= r.covers <= 10
    &&& -10 <= r.covers_sq <= 10
    &&& -10 <= r.well_depth_1 <= 10
    &&& -10 <= r.well_depth_1_sq <= 10
    &&& -10 <= r.well_depth_2 <= 10
    &&& -10 <= r.well_depth_2_sq <= 10
    &&& -10 <= r.hight <= 10
    &&& -10 <= r.hight_sq <= 10
    &&& -10 <= r.b2b <= 10
    &&& -10 <= r.holding[0] <= 10
    &&& -10 <= r.holding[1] <= 10
    &&& -10 <= r.holding[2] <= 10
    &&& -10 <= r.holding[3] <= 10
    &&& -10 <= r.holding[4] <= 10
    &&& -10 <= r.move_time <= 10
    &&& -10 <= r.wasted_i <= 10
    &&& -10 <= r.b2b_clear <= 10
    &&& -10 <= r.combo_garbage <= 10
    &&& -10 <= r.clear1 <= 10
    &&& -10 <= r.clear2 <= 10
    &&& -10 <= r.clear3 <= 10
    &&& -10 <= r.clear4 <= 10
}

impl Gene for Evaluator {
    /// A fresh weight vector with every weight small and random.
    fn generate() -> (r: Self)
        ensures
            spec_evaluator_small(r),
    {
        Evaluator {
            bumpiness: i32::generate(),
            bumpiness_sq: i32::generate(),
            cavities: i32::generate(),
            cavities_sq: i32::generate(),
            overhangs: i32::generate(),
            overhangs_sq: i32::generate(),
            covers: i32::generate(),
            covers_sq: i32::generate(),
            well_depth_1: i32::generate(),
            well_depth_1_sq: i32::generate(),
            well_depth_2: i32::generate(),
            well_depth_2_sq: i32::generate(),
            hight: i32::generate(),
            hight_sq: i32::generate(),
            b2b: i32::generate(),
            holding: [
                i32::generate(),
                i32::generate(),
                i32::generate(),
                i32::generate(),
                i32::generate(),
            ],
            move_time: i32::generate(),
            wasted_i: i32::generate(),
            b2b_clear: i32::generate(),
            combo_garbage: i32::generate(),
            clear1: i32::generate(),
            clear2: i32::generate(),
            clear3: i32::generate(),
            clear4: i32::generate(),
        }
    }

    /// Crosses the two weight vectors weight by weight.
    fn crossover(parent1: &Self, parent2: &Self) -> (r: Self)
        ensures
            spec_evaluator_crossed(r, *parent1, *parent2),
    {
        Evaluator {
            bumpiness: i32::crossover(&parent1.bumpiness, &parent2.bumpiness),
            bumpiness_sq: i32::crossover(&parent1.bumpiness_sq, &parent2.bumpiness_sq),
            cavities: i32::crossover(&parent1.cavities, &parent2.cavities),
            cavities_sq: i32::crossover(&parent1.cavities_sq, &parent2.cavities_sq),
            overhangs: i32::crossover(&parent1.overhangs, &parent2.overhangs),
            overhangs_sq: i32::crossover(&parent1.overhangs_sq, &parent2.overhangs_sq),
            covers: i32::crossover(&parent1.covers, &parent2.covers),
            covers_sq: i32::crossover(&parent1.covers_sq, &parent2.covers_sq),
            well_depth_1: i32::crossover(&parent1.well_depth_1, &parent2.well_depth_1),
            well_depth_1_sq: i32::crossover(&parent1.well_depth_1_sq, &parent2.well_depth_1_sq),
            well_depth_2: i32::crossover(&parent1.well_depth_2, &parent2.well_depth_2),
            well_depth_2_sq: i32::crossover(&parent1.well_depth_2_sq, &parent2.well_depth_2_sq),
            hight: i32::crossover(&parent1.hight, &parent2.hight),
            hight_sq: i32::crossover(&parent1.hight_sq, &parent2.hight_sq),
            b2b: i32::crossover(&parent1.b2b, &parent2.b2b),
            holding: [
                i32::crossover(&parent1.holding[0], &parent2.holding[0]),
                i32::crossover(&parent1.holding[1], &parent2.holding[1]),
                i32::crossover(&parent1.holding[2], &parent2.holding[2]),
                i32::crossover(&parent1.holding[3], &parent2.holding[3]),
                i32::crossover(&parent1.holding[4], &parent2.holding[4]),
            ],
            move_time: i32::crossover(&parent1.move_time, &parent2.move_time),
            wasted_i: i32::crossover(&parent1.wasted_i, &parent2.wasted_i),
            b2b_clear: i32::crossover(&parent1.b2b_clear, &parent2.b2b_clear),
            combo_garbage: i32::crossover(&parent1.combo_garbage, &parent2.combo_garbage),
            clear1: i32::crossover(&parent1.clear1, &parent2.clear1),
            clear2: i32::crossover(&parent1.clear2, &parent2.clear2),
            clear3: i32::crossover(&parent1.clear3, &parent2.clear3),
            clear4: i32::crossover(&parent1.clear4, &parent2.clear4),
        }
    }
}

} // verus!
