//! The population the evolutionary tuner works on: generation, crossover
//! and selection. Running the matches themselves is the caller's business.

use vstd::prelude::*;
use crate::evaluate::Evaluator;
use crate::mutate::{Gene, spec_evaluator_small};
use crate::rng::rand_below;
use crate::score::Score;

verus! {

/// How many weight vectors one generation holds.
pub const POPULATION_SIZE: usize = 500;

/// How many random members selection draws before keeping the best two.
pub const SELECTION_SIZE: usize = 30;

/// The outcome of one simulated match, as the match runner reports it.
#[derive(Debug, Clone, PartialEq, Eq, Hash)]
pub struct BattleResult {
    pub attack: u32,
    pub time: u32,
    pub win: bool,
}

/// One tuned weight vector with its accumulated fitness.
#[derive(Debug, Clone, PartialEq, Eq, Hash)]
pub struct Member {
    pub evaluator: Evaluator,
    pub score: Score,
}

/// One generation of weight vectors.
#[derive(Debug, Clone, PartialEq, Eq, Hash)]
pub struct Population {
    pub generation: u32,
    pub members: Vec<Member>,
}

impl Population {
    /// A fresh first generation of random members with empty scores.
    pub fn generate() -> (r: Self)
        ensures
            r.generation == 0,
            r.members@.len() == POPULATION_SIZE,
            forall|i: int|
                0 <= i < r.members@.len() ==> spec_evaluator_small(
                    (#[trigger] r.members@[i]).evaluator,
                ) && r.members@[i].score.time == 0 && r.members@[i].score.attack == 0,
    {
        let mut members: Vec<Member> = Vec::new();
        while members.len() < POPULATION_SIZE
            invariant
                members@.len() <= POPULATION_SIZE,
                forall|i: int|
                    0 <= i < members@.len() ==> spec_evaluator_small(
                        (#[trigger] members@[i]).evaluator,
                    ) && members@[i].score.time == 0 && members@[i].score.attack == 0,
            decreases POPULATION_SIZE - members@.len(),
        {
            members.push(Member { evaluator: Evaluator::generate(), score: Score::new() });
        }
        Population { generation: 0, members }
    }

    /// The index of the best-rated member, and of the best-rated other
    /// member, among the members at `picks`.
    fn top_two_of(&self, picks: &Vec<usize>) -> (r: (usize, usize))
        requires
            picks@.len() >= 2,
            forall|i: int| 0 <= i < picks@.len() ==> #[trigger] picks@[i] < self.members@.len(),
        ensures
            r.0 < self.members@.len(),
            r.1 < self.members@.len(),
    {
        let mut best: usize = picks[0];
        let mut second: usize = picks[1];
        if !self.members[best].score.rate_at_least(&self.members[second].score) {
            let t = best;
            best = second;
            second = t;
        }
        let mut i: usize = 2;
        while i < picks.len()
            invariant
                picks@.len() >= 2,
                forall|j: int| 0 <= j < picks@.len() ==> #[trigger] picks@[j] < self.members@.len(),
                best < self.members@.len(),
                second < self.members@.len(),
                2 <= i <= picks@.len(),
            decreases picks@.len() - i,
        {
            let c = picks[i];
            if self.members[c].score.rate_at_least(&self.members[best].score) {
                second = best;
                best = c;
            } else if self.members[c].score.rate_at_least(&self.members[second].score) {
                second = c;
            }
            i = i + 1;
        }
        (best, second)
    }

    /// Two parents drawn by tournament: a random sample of distinct members,
    /// keeping the two with the best attack rates.
    fn select(&self) -> (r: (usize, usize))
        requires
            self.members@.len() == POPULATION_SIZE,
        ensures
            r.0 < self.members@.len(),
            r.1 < self.members@.len(),
    {
        let mut indices: Vec<usize> = Vec::new();
        let mut i: usize = 0;
        while i < POPULATION_SIZE
            invariant
                indices@.len() == i,
                i <= POPULATION_SIZE,
                forall|j: int| 0 <= j < i ==> #[trigger] indices@[j] < POPULATION_SIZE,
            decreases POPULATION_SIZE - i,
        {
            indices.push(i);
            i = i + 1;
        }
        let mut picks: Vec<usize> = Vec::new();
        let mut k: usize = 0;
        while k < SELECTION_SIZE
            invariant
                indices@.len() == POPULATION_SIZE,
                forall|j: int| 0 <= j < POPULATION_SIZE ==> #[trigger] indices@[j] < POPULATION_SIZE,
                picks@.len() == k,
                k <= SELECTION_SIZE,
                forall|j: int| 0 <= j < k ==> #[trigger] picks@[j] < POPULATION_SIZE,
            decreases SELECTION_SIZE - k,
        {
            let j = k + rand_below((POPULATION_SIZE - k) as u32) as usize;
            let picked = indices[j];
            let at_k = indices[k];
            indices[j] = at_k;
            indices[k] = picked;
            picks.push(picked);
            k = k + 1;
        }
        self.top_two_of(&picks)
    }

    /// The next generation: the two best members survive as they are, and
    /// the rest are crossovers of tournament-selected parents, scores reset.
    pub fn crossover(&self) -> (r: Self)
        requires
            self.members@.len() == POPULATION_SIZE,
            self.generation < u32::MAX,
        ensures
            r.generation == self.generation + 1,
            r.members@.len() == POPULATION_SIZE,
    {
        let mut all: Vec<usize> = Vec::new();
        let mut i: usize = 0;
        while i < POPULATION_SIZE
            invariant
                all@.len() == i,
                i <= POPULATION_SIZE,
                forall|j: int| 0 <= j < i ==> #[trigger] all@[j] < POPULATION_SIZE,
            decreases POPULATION_SIZE - i,
        {
            all.push(i);
            i = i + 1;
        }
        let (elite1, elite2) = self.top_two_of(&all);

        let mut new_members: Vec<Member> = Vec::new();
        new_members.push(self.members[elite1].clone());
        new_members.push(self.members[elite2].clone());
        while new_members.len() < POPULATION_SIZE
            invariant
                self.members@.len() == POPULATION_SIZE,
                2 <= new_members@.len() <= POPULATION_SIZE,
            decreases POPULATION_SIZE - new_members@.len(),
        {
            let (p1, p2) = self.select();
            let evaluator = Evaluator::crossover(
                &self.members[p1].evaluator,
                &self.members[p2].evaluator,
            );
            new_members.push(Member { evaluator, score: Score::new() });
        }

        Population { generation: self.generation + 1, members: new_members }
    }
}

} // verus!
