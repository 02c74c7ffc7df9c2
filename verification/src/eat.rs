//! The Predation & Foraging phase: every occupied cell, visited in a
//! randomized order, tries to eat one orthogonal neighbor and otherwise
//! forages from the terrain.

use vstd::prelude::*;
use crate::grid;
use crate::sim::Simulation;
use crate::sim::sat_inc;

verus! {

/// The deterministic heart of the predation rule: given the predator's and
/// the prey's carnivore fitness and a uniform draw below [`crate::SCALE`],
/// the attempt succeeds exactly when the draw falls below the fitness
/// difference.  A zero or negative difference fails for every draw.
pub fn predation_success(pred_fit: u64, prey_fit: u64, draw: u64) -> (r: bool)
    ensures
        r == (prey_fit < pred_fit && draw < pred_fit - prey_fit),
        pred_fit <= prey_fit ==> !r,
{
    prey_fit < pred_fit && draw < pred_fit - prey_fit
}

/// What one predation attempt by the occupant `me` against the cell at
/// (`py`, `px`) may do to the world: nothing if a meal was already taken
/// or the target is ineligible; otherwise either nothing (the draw
/// failed) or exactly one meal — the prey cell emptied, the prey's
/// population counter decremented, one unit of food to the predator.
/// When the fitness edge covers the whole probability scale the attempt
/// cannot fail: the meal is certain, whatever the draw.
pub open spec fn predation_step_rel(
    pre: Simulation,
    post: Simulation,
    py: int,
    px: int,
    me: i32,
    eaten_pre: bool,
    eaten_post: bool,
) -> bool {
    let them = pre.cell(py, px);
    &&& post.wf()
    &&& post.size == pre.size
    &&& post.organisms == pre.organisms
    &&& post.food_map == pre.food_map
    &&& post.lava_map == pre.lava_map
    &&& post.map@.len() == pre.map@.len()
    &&& (eaten_pre ==> post.map == pre.map && post.populations == pre.populations && post.food
        == pre.food && eaten_post)
    &&& ((them == -1 || them == me || !pre.organisms@[me as int].can_eat@[them as int]
        || pre.organisms@[me as int].carnivore_fitness
        <= pre.organisms@[them as int].carnivore_fitness) ==> post.map == pre.map
        && post.populations == pre.populations && post.food == pre.food && eaten_post == eaten_pre)
    &&& (!eaten_pre ==> ((post.map == pre.map && post.populations == pre.populations && post.food
        == pre.food && !eaten_post) || (them != -1 && them != me
        && pre.organisms@[me as int].can_eat@[them as int]
        && pre.organisms@[them as int].carnivore_fitness
        < pre.organisms@[me as int].carnivore_fitness && post.map@ == pre.map@.update(
        pre.idx(py, px),
        -1i32,
    ) && post.populations@ == pre.populations@.update(
        them as int,
        (pre.populations@[them as int] - 1) as u64,
    ) && post.food@ == pre.food@.update(me as int, sat_inc(pre.food@[me as int]))
        && eaten_post)))
    &&& (!eaten_pre && them != -1 && them != me && pre.organisms@[me as int].can_eat@[them as int]
        && pre.organisms@[them as int].carnivore_fitness + crate::SCALE
        <= pre.organisms@[me as int].carnivore_fitness ==> eaten_post)
}

impl Simulation {
    /// Attempt predation by `me` against a particular cell, consuming one
    /// random draw when the target is eligible.  At most one meal per
    /// predator: a set `eaten` flag blocks the attempt (though the draw is
    /// still consumed, as the eligibility test runs first).
    fn attempt_predation(&mut self, py: usize, px: usize, me: i32, eaten: &mut bool)
        requires
            old(self).wf(),
            py < old(self).size,
            px < old(self).size,
            0 <= me && (me as int) < old(self).species_count(),
        ensures
            predation_step_rel(
                *old(self),
                *final(self),
                py as int,
                px as int,
                me,
                *old(eaten),
                *final(eaten),
            ),
    {
        let them = self.occupant(py, px);
        let success = self.can_eat(me, them);
        if success && !*eaten {
            self.vacate(py, px);
            self.feed(me as usize);
            *eaten = true;
        }
    }

    /// The predation eligibility-and-luck test: `them` must be an occupant
    /// of another species that `me` may eat, and a uniform draw must fall
    /// below the carnivore-fitness difference.  If the predator's fitness
    /// does not exceed the prey's, the answer is `false` for every draw;
    /// if its edge covers the whole probability scale, the answer is
    /// `true` for every draw.  Only the random source changes.
    pub fn can_eat(&mut self, me: i32, them: i32) -> (r: bool)
        requires
            old(self).wf(),
            0 <= me && (me as int) < old(self).species_count(),
            old(self).valid_cell_value(them),
        ensures
            final(self).wf(),
            final(self).size == old(self).size,
            final(self).organisms == old(self).organisms,
            final(self).populations == old(self).populations,
            final(self).food == old(self).food,
            final(self).map == old(self).map,
            final(self).food_map == old(self).food_map,
            final(self).lava_map == old(self).lava_map,
            them == -1 ==> !r,
            them == me ==> !r,
            them != -1 && !old(self).organisms@[me as int].can_eat@[them as int] ==> !r,
            them != -1 && old(self).organisms@[me as int].carnivore_fitness <= old(self).organisms@[them as int].carnivore_fitness ==> !r,
            r ==> them != -1 && them != me && old(self).organisms@[me as int].can_eat@[them as int]
                && old(self).organisms@[them as int].carnivore_fitness < old(self).organisms@[me as int].carnivore_fitness,
            them != -1 && them != me && old(self).organisms@[me as int].can_eat@[them as int]
                && old(self).organisms@[them as int].carnivore_fitness + crate::SCALE
                <= old(self).organisms@[me as int].carnivore_fitness ==> r,
    {
        if them == -1 {
            return false;
        }
        if !self.organisms[me as usize].can_eat[them as usize] {
            return false;
        }
        if me == them {
            return false;
        }
        let draw = self.random_source.draw_unit();
        predation_success(
            self.organisms[me as usize].carnivore_fitness,
            self.organisms[them as usize].carnivore_fitness,
            draw,
        )
    }

    /// Attempt predation against the neighbor above, with toroidal wrap.
    pub fn look_up(&mut self, x: usize, y: usize, me: i32, eaten: &mut bool)
        requires
            old(self).wf(),
            x < old(self).size,
            y < old(self).size,
            0 <= me && (me as int) < old(self).species_count(),
        ensures
            predation_step_rel(
                *old(self),
                *final(self),
                grid::wrap_dec_spec(y as int, old(self).size as int),
                x as int,
                me,
                *old(eaten),
                *final(eaten),
            ),
    {
        let py = grid::wrap_dec(y, self.size);
        self.attempt_predation(py, x, me, eaten);
    }

    /// Attempt predation against the neighbor to the right, with toroidal
    /// wrap.
    pub fn look_right(&mut self, x: usize, y: usize, me: i32, eaten: &mut bool)
        requires
            old(self).wf(),
            x < old(self).size,
            y < old(self).size,
            0 <= me && (me as int) < old(self).species_count(),
        ensures
            predation_step_rel(
                *old(self),
                *final(self),
                y as int,
                grid::wrap_inc_spec(x as int, old(self).size as int),
                me,
                *old(eaten),
                *final(eaten),
            ),
    {
        let px = grid::wrap_inc(x, self.size);
        self.attempt_predation(y, px, me, eaten);
    }

    /// Attempt predation against the neighbor below, with toroidal wrap.
    pub fn look_down(&mut self, x: usize, y: usize, me: i32, eaten: &mut bool)
        requires
            old(self).wf(),
            x < old(self).size,
            y < old(self).size,
            0 <= me && (me as int) < old(self).species_count(),
        ensures
            predation_step_rel(
                *old(self),
                *final(self),
                grid::wrap_inc_spec(y as int, old(self).size as int),
                x as int,
                me,
                *old(eaten),
                *final(eaten),
            ),
    {
        let py = grid::wrap_inc(y, self.size);
        self.attempt_predation(py, x, me, eaten);
    }

    /// Attempt predation against the neighbor to the left, with toroidal
    /// wrap.
    pub fn look_left(&mut self, x: usize, y: usize, me: i32, eaten: &mut bool)
        requires
            old(self).wf(),
            x < old(self).size,
            y < old(self).size,
            0 <= me && (me as int) < old(self).species_count(),
        ensures
            predation_step_rel(
                *old(self),
                *final(self),
                y as int,
                grid::wrap_dec_spec(x as int, old(self).size as int),
                me,
                *old(eaten),
                *final(eaten),
            ),
    {
        let px = grid::wrap_dec(x, self.size);
        self.attempt_predation(y, px, me, eaten);
    }

    /// One occupant's whole turn of the Predation & Foraging phase: try
    /// the four orthogonal neighbors in the order up, right, down, left —
    /// at most one meal — and, if none succeeded, forage from the terrain.
    /// Across the turn the occupant's species gains at most one unit of
    /// food, no other species' food changes, and cells can only be
    /// emptied, never filled.
    pub fn try_eat_cell(&mut self, y: usize, x: usize)
        requires
            old(self).wf(),
            y < old(self).size,
            x < old(self).size,
        ensures
            final(self).wf(),
            final(self).size == old(self).size,
            final(self).organisms == old(self).organisms,
            final(self).food_map == old(self).food_map,
            final(self).lava_map == old(self).lava_map,
            final(self).map@.len() == old(self).map@.len(),
            forall|i: int|
                0 <= i < old(self).map@.len() ==> #[trigger] final(self).map@[i] == old(self).map@[i] || final(self).map@[i] == -1i32,
            final(self).food@.len() == old(self).food@.len(),
            forall|s: int|
                0 <= s < old(self).food@.len() ==> old(self).food@[s] <= #[trigger] final(self).food@[s],
            old(self).cell(y as int, x as int) == -1 ==> final(self).map == old(self).map
                && final(self).populations == old(self).populations && final(self).food == old(self).food,
            old(self).cell(y as int, x as int) != -1 ==> forall|s: int|
                0 <= s < old(self).food@.len() && s != old(self).cell(y as int, x as int) as int
                    ==> #[trigger] final(self).food@[s] == old(self).food@[s],
            old(self).cell(y as int, x as int) != -1 ==> final(self).food@[old(self).cell(
                y as int,
                x as int,
            ) as int] <= sat_inc(old(self).food@[old(self).cell(y as int, x as int) as int]),
    {
        let me = self.occupant(y, x);
        if me == -1 {
            return ;
        }
        let mut eaten = false;
        let ghost m0 = self.map@;
        self.look_up(x, y, me, &mut eaten);
        proof {
            self.lemma_idx_bounds(grid::wrap_dec_spec(y as int, self.size as int), x as int);
            assert(forall|i: int|
                0 <= i < m0.len() ==> #[trigger] self.map@[i] == m0[i] || self.map@[i] == -1i32);
        }
        let ghost m1 = self.map@;
        self.look_right(x, y, me, &mut eaten);
        proof {
            self.lemma_idx_bounds(y as int, grid::wrap_inc_spec(x as int, self.size as int));
            assert(forall|i: int|
                0 <= i < m1.len() ==> #[trigger] self.map@[i] == m1[i] || self.map@[i] == -1i32);
            assert(forall|i: int|
                0 <= i < m0.len() ==> #[trigger] self.map@[i] == m0[i] || self.map@[i] == -1i32);
        }
        let ghost m2 = self.map@;
        self.look_down(x, y, me, &mut eaten);
        proof {
            self.lemma_idx_bounds(grid::wrap_inc_spec(y as int, self.size as int), x as int);
            assert(forall|i: int|
                0 <= i < m2.len() ==> #[trigger] self.map@[i] == m2[i] || self.map@[i] == -1i32);
            assert(forall|i: int|
                0 <= i < m0.len() ==> #[trigger] self.map@[i] == m0[i] || self.map@[i] == -1i32);
        }
        let ghost m3 = self.map@;
        self.look_left(x, y, me, &mut eaten);
        proof {
            self.lemma_idx_bounds(y as int, grid::wrap_dec_spec(x as int, self.size as int));
            assert(forall|i: int|
                0 <= i < m3.len() ==> #[trigger] self.map@[i] == m3[i] || self.map@[i] == -1i32);
            assert(forall|i: int|
                0 <= i < m0.len() ==> #[trigger] self.map@[i] == m0[i] || self.map@[i] == -1i32);
        }
        let i = self.flat(y, x);
        let food_there = self.random_source.draw_unit() > self.food_map[i];
        let i_eat = self.random_source.draw_unit()
            < self.organisms[me as usize].herbivore_fitness;
        if food_there && i_eat && !eaten {
            self.feed(me as usize);
        }
    }

    /// The Predation & Foraging phase: visit every cell once, row order
    /// and per-row column order each freshly shuffled, giving every
    /// occupant one turn.  Cells are only ever emptied and food reserves
    /// only ever grow during this phase.
    pub fn try_eat(&mut self)
        requires
            old(self).wf(),
        ensures
            final(self).wf(),
            final(self).size == old(self).size,
            final(self).organisms == old(self).organisms,
            final(self).food_map == old(self).food_map,
            final(self).lava_map == old(self).lava_map,
            final(self).map@.len() == old(self).map@.len(),
            forall|i: int|
                0 <= i < old(self).map@.len() ==> #[trigger] final(self).map@[i] == old(self).map@[i] || final(self).map@[i] == -1i32,
            final(self).food@.len() == old(self).food@.len(),
            forall|s: int|
                0 <= s < old(self).food@.len() ==> old(self).food@[s] <= #[trigger] final(self).food@[s],
            forall|s: int|
                0 <= s < old(self).species_count() ==> #[trigger] final(self).populations@[s]
                    <= old(self).populations@[s],
    {
        let ghost s0 = *self;
        let n = self.size;
        let order_y = self.random_source.permutation(n);
        let mut yi: usize = 0;
        while yi < n
            invariant
                self.wf(),
                yi <= n,
                n == self.size,
                order_y@.len() == n,
                forall|i: int| 0 <= i < n ==> #[trigger] order_y@[i] < n,
                self.size == s0.size,
                self.organisms == s0.organisms,
                self.food_map == s0.food_map,
                self.lava_map == s0.lava_map,
                self.map@.len() == s0.map@.len(),
                forall|i: int|
                    0 <= i < s0.map@.len() ==> #[trigger] self.map@[i] == s0.map@[i]
                        || self.map@[i] == -1i32,
                self.food@.len() == s0.food@.len(),
                forall|s: int|
                    0 <= s < s0.food@.len() ==> s0.food@[s] <= #[trigger] self.food@[s],
            decreases n - yi,
        {
            let y = order_y[yi];
            let order_x = self.random_source.permutation(n);
            let mut xi: usize = 0;
            while xi < n
                invariant
                    self.wf(),
                    xi <= n,
                    y < n,
                    n == self.size,
                    order_x@.len() == n,
                    forall|i: int| 0 <= i < n ==> #[trigger] order_x@[i] < n,
                    self.size == s0.size,
                    self.organisms == s0.organisms,
                    self.food_map == s0.food_map,
                    self.lava_map == s0.lava_map,
                    self.map@.len() == s0.map@.len(),
                    forall|i: int|
                        0 <= i < s0.map@.len() ==> #[trigger] self.map@[i] == s0.map@[i]
                            || self.map@[i] == -1i32,
                    self.food@.len() == s0.food@.len(),
                    forall|s: int|
                        0 <= s < s0.food@.len() ==> s0.food@[s] <= #[trigger] self.food@[s],
                decreases n - xi,
            {
                let x = order_x[xi];
                self.try_eat_cell(y, x);
                xi += 1;
            }
            yi += 1;
        }
        proof {
            assert forall|s: int|
                0 <= s < self.species_count() implies #[trigger] self.populations@[s]
                <= s0.populations@[s] by {
                grid::lemma_cell_count_only_emptied(s0.map@, self.map@, s as i32);
            };
        }
    }
}

} // verus!
