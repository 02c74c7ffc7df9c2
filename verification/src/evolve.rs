//! The Evolutionary Pressure phase and hazard decay: periodic balancing of
//! fitness extremes, randomized re-rolling of predation eligibility, and
//! probabilistic clearing of lethal terrain.

use vstd::prelude::*;
use crate::grid;
use crate::sim::Simulation;

verus! {

/// Index of the maximum entry of `pops[0 .. upto]`, ties broken by the
/// lowest index (the running best is replaced only on strictly greater).
pub open spec fn argmax_upto(pops: Seq<u64>, upto: int) -> int
    decreases upto,
{
    if upto <= 1 {
        0
    } else {
        let prev = argmax_upto(pops, upto - 1);
        if pops[upto - 1] > pops[prev] {
            upto - 1
        } else {
            prev
        }
    }
}

/// Index of the minimum entry of `pops[0 .. upto]`, ties broken by the
/// lowest index.
pub open spec fn argmin_upto(pops: Seq<u64>, upto: int) -> int
    decreases upto,
{
    if upto <= 1 {
        0
    } else {
        let prev = argmin_upto(pops, upto - 1);
        if pops[upto - 1] < pops[prev] {
            upto - 1
        } else {
            prev
        }
    }
}

/// The scans pick the first extreme: the maximum scan yields an index
/// whose entry no other entry exceeds and that every earlier index falls
/// strictly short of; dually for the minimum scan.
pub proof fn lemma_extremes(pops: Seq<u64>, upto: int)
    requires
        1 <= upto <= pops.len(),
    ensures
        0 <= argmax_upto(pops, upto) < upto,
        0 <= argmin_upto(pops, upto) < upto,
        forall|i: int| 0 <= i < upto ==> #[trigger] pops[i] <= pops[argmax_upto(pops, upto)],
        forall|i: int|
            0 <= i < argmax_upto(pops, upto) ==> #[trigger] pops[i] < pops[argmax_upto(pops, upto)],
        forall|i: int| 0 <= i < upto ==> #[trigger] pops[i] >= pops[argmin_upto(pops, upto)],
        forall|i: int|
            0 <= i < argmin_upto(pops, upto) ==> #[trigger] pops[i] > pops[argmin_upto(pops, upto)],
    decreases upto,
{
    if upto > 1 {
        lemma_extremes(pops, upto - 1);
    }
}

/// `2 * x`, saturating at the machine cap.
pub open spec fn sat_double(x: u64) -> u64 {
    if x > u64::MAX / 2 {
        u64::MAX
    } else {
        (2 * x) as u64
    }
}

/// Double a fixed-point fitness value, saturating at the machine cap.
fn double_sat(x: u64) -> (r: u64)
    ensures
        r == sat_double(x),
{
    if x > u64::MAX / 2 {
        u64::MAX
    } else {
        2 * x
    }
}

impl Simulation {
    /// The Evolutionary Pressure phase: halve the carnivore fitness of
    /// the most populous species, then double that of the rarest (ties to
    /// the lowest id, so with all populations equal one species is halved
    /// then doubled), and give every species a chance to re-roll its
    /// predation-eligibility vector.  Grid, counters and terrain are
    /// untouched; every other trait of every species is preserved.
    pub fn mutate(&mut self)
        requires
            old(self).wf(),
        ensures
            final(self).wf(),
            final(self).size == old(self).size,
            final(self).map == old(self).map,
            final(self).populations == old(self).populations,
            final(self).food == old(self).food,
            final(self).food_map == old(self).food_map,
            final(self).lava_map == old(self).lava_map,
            final(self).organisms@.len() == old(self).organisms@.len(),
            forall|s: int|
                0 <= s < old(self).species_count() ==> (#[trigger] final(self).organisms@[s]).name
                    == old(self).organisms@[s].name && final(self).organisms@[s].herbivore_fitness
                    == old(self).organisms@[s].herbivore_fitness && final(self).organisms@[s].color == old(self).organisms@[s].color && final(self).organisms@[s].can_eat@.len() == old(self).organisms@[s].can_eat@.len(),
            ({
                let pops = old(self).populations@;
                let sc = old(self).species_count();
                let hi = argmax_upto(pops, sc);
                let lo = argmin_upto(pops, sc);
                let fit = |s: int| old(self).organisms@[s].carnivore_fitness;
                &&& (hi != lo ==> final(self).organisms@[hi].carnivore_fitness == fit(hi) / 2
                    && final(self).organisms@[lo].carnivore_fitness == sat_double(fit(lo)))
                &&& (hi == lo ==> final(self).organisms@[hi].carnivore_fitness == sat_double(
                    fit(hi) / 2,
                ))
                &&& forall|s: int|
                    0 <= s < sc && s != hi && s != lo ==> (#[trigger] final(self).organisms@[s]).carnivore_fitness == fit(s)
            }),
    {
        let sc = self.organisms.len();
        let ghost pops = self.populations@;
        let mut highest_index: usize = 0;
        let mut lowest_index: usize = 0;
        let mut i: usize = 1;
        while i < sc
            invariant
                1 <= i <= sc,
                sc == self.species_count(),
                self.wf(),
                pops == self.populations@,
                highest_index < i,
                lowest_index < i,
                highest_index as int == argmax_upto(pops, i as int),
                lowest_index as int == argmin_upto(pops, i as int),
            decreases sc - i,
        {
            if self.populations[i] > self.populations[highest_index] {
                highest_index = i;
            }
            if self.populations[i] < self.populations[lowest_index] {
                lowest_index = i;
            }
            i += 1;
        }
        let f_hi = self.organisms[highest_index].carnivore_fitness;
        self.organisms[highest_index].carnivore_fitness = f_hi / 2;
        let f_lo = self.organisms[lowest_index].carnivore_fitness;
        self.organisms[lowest_index].carnivore_fitness = double_sat(f_lo);
        let ghost adjusted = self.organisms@;
        let mut k: usize = 0;
        while k < sc
            invariant
                k <= sc,
                sc == self.species_count(),
                self.wf(),
                self.size == old(self).size,
                self.map == old(self).map,
                self.populations == old(self).populations,
                self.food == old(self).food,
                self.food_map == old(self).food_map,
                self.lava_map == old(self).lava_map,
                self.organisms@.len() == adjusted.len(),
                forall|s: int|
                    0 <= s < sc ==> (#[trigger] self.organisms@[s]).name == adjusted[s].name
                        && self.organisms@[s].carnivore_fitness == adjusted[s].carnivore_fitness
                        && self.organisms@[s].herbivore_fitness == adjusted[s].herbivore_fitness
                        && self.organisms@[s].color == adjusted[s].color
                        && self.organisms@[s].can_eat@.len() == adjusted[s].can_eat@.len(),
            decreases sc - k,
        {
            self.organisms[k].change_can_eat(&mut self.random_source);
            k += 1;
        }
        proof {
            lemma_extremes(pops, sc as int);
        }
    }

    /// One hazard-decay step: each hazard cell independently stays with
    /// probability `HAZARD_KEEP_PROB / SCALE`.  Hazard cells are never
    /// created, so the number of hazard cells cannot increase.
    pub fn decay_lava(&mut self)
        requires
            old(self).wf(),
        ensures
            final(self).wf(),
            final(self).size == old(self).size,
            final(self).organisms == old(self).organisms,
            final(self).populations == old(self).populations,
            final(self).food == old(self).food,
            final(self).map == old(self).map,
            final(self).food_map == old(self).food_map,
            final(self).lava_map@.len() == old(self).lava_map@.len(),
            forall|i: int|
                0 <= i < old(self).lava_map@.len() ==> (#[trigger] final(self).lava_map@[i]
                    ==> old(self).lava_map@[i]),
            grid::true_count(final(self).lava_map@) <= grid::true_count(old(self).lava_map@),
    {
        let total = self.lava_map.len();
        let mut i: usize = 0;
        while i < total
            invariant
                i <= total,
                self.wf(),
                total == self.lava_map@.len(),
                self.size == old(self).size,
                self.organisms == old(self).organisms,
                self.populations == old(self).populations,
                self.food == old(self).food,
                self.map == old(self).map,
                self.food_map == old(self).food_map,
                self.lava_map@.len() == old(self).lava_map@.len(),
                forall|j: int|
                    0 <= j < total ==> (#[trigger] self.lava_map@[j] ==> old(self).lava_map@[j]),
            decreases total - i,
        {
            if self.lava_map[i] {
                let keep = self.random_source.draw_unit() < crate::HAZARD_KEEP_PROB;
                self.lava_map.set(i, keep);
            }
            i += 1;
        }
        proof {
            grid::lemma_true_count_pointwise_le(self.lava_map@, old(self).lava_map@);
        }
    }

    /// One tick of the pipeline: Predation & Foraging, then Starvation,
    /// then Reproduction, and — when the caller flags it — Evolutionary
    /// Pressure followed by hazard decay.
    pub fn run_simulation_once(&mut self, mutate: bool)
        requires
            old(self).wf(),
        ensures
            final(self).wf(),
            final(self).size == old(self).size,
            final(self).organisms@.len() == old(self).organisms@.len(),
            final(self).food_map == old(self).food_map,
            !mutate ==> final(self).organisms == old(self).organisms,
            !mutate ==> final(self).lava_map == old(self).lava_map,
            forall|i: int|
                0 <= i < old(self).lava_map@.len() ==> (#[trigger] final(self).lava_map@[i]
                    ==> old(self).lava_map@[i]),
            grid::true_count(final(self).lava_map@) <= grid::true_count(old(self).lava_map@),
    {
        self.try_eat();
        self.starve();
        self.reproduce();
        if mutate {
            self.mutate();
            self.decay_lava();
        }
    }
}

} // verus!
