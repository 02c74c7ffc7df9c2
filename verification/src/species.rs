//! The species registry: per-species traits read and mutated by the phases.

use vstd::prelude::*;
use crate::rng::SimRng;

verus! {

/// One species' traits.  Fitness values are fixed-point fractions of
/// [`crate::SCALE`]; `carnivore_fitness` may exceed it (a predation
/// probability of one), `herbivore_fitness` stays below it.
pub struct Organism {
    pub name: String,
    pub carnivore_fitness: u64,
    pub herbivore_fitness: u64,
    pub color: u32,
    pub can_eat: Vec<bool>,
}

impl Organism {
    /// Well-formed for a registry of `s` species: the eligibility vector
    /// has one entry per species and the foraging skill is a fraction.
    pub open spec fn wf(self, s: nat) -> bool {
        &&& self.can_eat@.len() == s
        &&& self.herbivore_fitness < crate::SCALE
    }

    /// With probability `REROLL_PROB / SCALE`, re-roll the whole
    /// predation-eligibility vector, setting each entry independently with
    /// probability `EAT_PROB / SCALE`.  Self-predation stays excluded by
    /// the predation rule, not by this re-roll.  No other trait changes.
    pub fn change_can_eat(&mut self, rng: &mut SimRng)
        ensures
            final(self).name == old(self).name,
            final(self).carnivore_fitness == old(self).carnivore_fitness,
            final(self).herbivore_fitness == old(self).herbivore_fitness,
            final(self).color == old(self).color,
            final(self).can_eat@.len() == old(self).can_eat@.len(),
    {
        if rng.draw_unit() < crate::REROLL_PROB {
            let n = self.can_eat.len();
            let mut fresh: Vec<bool> = Vec::new();
            let mut i: usize = 0;
            while i < n
                invariant
                    i <= n,
                    fresh@.len() == i,
                decreases n - i,
            {
                fresh.push(rng.draw_unit() < crate::EAT_PROB);
                i += 1;
            }
            self.can_eat = fresh;
        }
    }
}

} // verus!
