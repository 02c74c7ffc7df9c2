//! The Starvation phase: hazard terrain kills unconditionally; elsewhere a
//! population-scaled stochastic death test applies, and survivors consume
//! one unit of their species' food reserve.

use vstd::prelude::*;
use crate::grid;
use crate::sim::Simulation;
use crate::sim::sat_dec;

verus! {

/// The deterministic part of the starvation test: with a uniform draw, the
/// occupant dies exactly when `draw * population` exceeds `food * SCALE`
/// (the fixed-point form of `draw * population > food`).  A species whose
/// food reserve covers its population never starves, whatever the draw.
pub fn starvation_verdict(draw: u64, pop: u64, food: u64) -> (r: bool)
    requires
        draw < crate::SCALE,
        pop <= (crate::MAX_GRID_SIZE * crate::MAX_GRID_SIZE) as u64,
    ensures
        r == (draw * pop > food * crate::SCALE),
        pop == 0 ==> !r,
        pop <= food ==> !r,
{
    if food >= pop {
        proof {
            assert(draw * pop <= food * crate::SCALE) by (nonlinear_arith)
                requires
                    draw < crate::SCALE,
                    pop <= food,
            ;
        }
        false
    } else {
        proof {
            assert(draw * pop < crate::SCALE * ((crate::MAX_GRID_SIZE
                * crate::MAX_GRID_SIZE) as u64 + 1)) by (nonlinear_arith)
                requires
                    draw < crate::SCALE,
                    pop <= (crate::MAX_GRID_SIZE * crate::MAX_GRID_SIZE) as u64,
            ;
            assert(food * crate::SCALE < crate::SCALE * ((crate::MAX_GRID_SIZE
                * crate::MAX_GRID_SIZE) as u64 + 1)) by (nonlinear_arith)
                requires
                    food < pop,
                    pop <= (crate::MAX_GRID_SIZE * crate::MAX_GRID_SIZE) as u64,
            ;
        }
        let lhs = draw * pop;
        let rhs = food * crate::SCALE;
        lhs > rhs
    }
}

/// What one Starvation visit of the cell at (`y`, `x`) may do: nothing on
/// an empty cell; otherwise the occupant either dies — its cell emptied
/// and its counter decremented — or survives and its species' food drops
/// by one, floored at zero.  An occupant on hazard terrain always dies,
/// and one whose species' food covers its population, off hazard terrain,
/// always survives.
pub open spec fn starvation_step_rel(pre: Simulation, post: Simulation, y: int, x: int) -> bool {
    let i = pre.idx(y, x);
    let me = pre.map@[i];
    &&& post.wf()
    &&& post.size == pre.size
    &&& post.organisms == pre.organisms
    &&& post.food_map == pre.food_map
    &&& post.lava_map == pre.lava_map
    &&& post.map@.len() == pre.map@.len()
    &&& post.food@.len() == pre.food@.len()
    &&& (forall|k: int|
        0 <= k < pre.map@.len() ==> #[trigger] post.map@[k] == pre.map@[k] || post.map@[k]
            == -1i32)
    &&& (pre.lava_map@[i] ==> post.map@[i] == -1i32)
    &&& (me == -1 ==> post.map == pre.map && post.populations == pre.populations && post.food
        == pre.food)
    &&& (me != -1 ==> ((post.map@ == pre.map@.update(i, -1i32) && post.populations@
        == pre.populations@.update(me as int, (pre.populations@[me as int] - 1) as u64)
        && post.food == pre.food) || (!pre.lava_map@[i] && post.map == pre.map
        && post.populations == pre.populations && post.food@ == pre.food@.update(
        me as int,
        sat_dec(pre.food@[me as int]),
    ))))
    &&& (me != -1 && !pre.lava_map@[i] && pre.populations@[me as int] <= pre.food@[me as int]
        ==> post.map == pre.map)
}

impl Simulation {
    /// The population-scaled stochastic death test for one individual of
    /// species `me`: dies when a uniform draw times the species'
    /// population exceeds its food reserve.  Only the random source
    /// changes; a species with no more population than food never loses
    /// this test.
    pub fn die(&mut self, me: usize) -> (r: bool)
        requires
            old(self).wf(),
            (me as int) < old(self).species_count(),
        ensures
            final(self).wf(),
            final(self).size == old(self).size,
            final(self).organisms == old(self).organisms,
            final(self).populations == old(self).populations,
            final(self).food == old(self).food,
            final(self).map == old(self).map,
            final(self).food_map == old(self).food_map,
            final(self).lava_map == old(self).lava_map,
            old(self).populations@[me as int] == 0 ==> !r,
            old(self).populations@[me as int] <= old(self).food@[me as int] ==> !r,
            r ==> old(self).populations@[me as int] > old(self).food@[me as int],
    {
        let draw = self.random_source.draw_unit();
        let pop = self.populations[me];
        let food = self.food[me];
        proof {
            grid::lemma_cell_count_le_len(self.map@, me as i32);
            assert(self.size * self.size <= crate::MAX_GRID_SIZE * crate::MAX_GRID_SIZE)
                by (nonlinear_arith)
                requires
                    self.size <= crate::MAX_GRID_SIZE,
            ;
        }
        starvation_verdict(draw, pop, food)
    }

    /// One Starvation visit of the cell at (`y`, `x`).
    pub fn starve_cell(&mut self, y: usize, x: usize)
        requires
            old(self).wf(),
            y < old(self).size,
            x < old(self).size,
        ensures
            starvation_step_rel(*old(self), *final(self), y as int, x as int),
    {
        let me = self.occupant(y, x);
        if me == -1 {
            return ;
        }
        let i = self.flat(y, x);
        if self.lava_map[i] {
            self.vacate(y, x);
        } else if self.die(me as usize) {
            self.vacate(y, x);
        } else {
            self.unfeed(me as usize);
        }
    }

    /// The Starvation phase: visit every cell once in a freshly randomized
    /// row and column order.  Cells are only ever emptied, and afterwards
    /// every hazard cell is empty — any occupant on hazard terrain has
    /// died, whatever its food or population.
    pub fn starve(&mut self)
        requires
            old(self).wf(),
        ensures
            final(self).wf(),
            final(self).size == old(self).size,
            final(self).organisms == old(self).organisms,
            final(self).food_map == old(self).food_map,
            final(self).lava_map == old(self).lava_map,
            final(self).map@.len() == old(self).map@.len(),
            final(self).food@.len() == old(self).food@.len(),
            forall|i: int|
                0 <= i < old(self).map@.len() ==> #[trigger] final(self).map@[i] == old(
                    self,
                ).map@[i] || final(self).map@[i] == -1i32,
            forall|y: int, x: int|
                0 <= y < old(self).size && 0 <= x < old(self).size && old(self).lava_map@[old(
                    self,
                ).idx(y, x)] ==> #[trigger] final(self).cell(y, x) == -1i32,
            forall|s: int|
                0 <= s < old(self).species_count() ==> #[trigger] final(self).populations@[s]
                    <= old(self).populations@[s],
            forall|s: int|
                0 <= s < old(self).food@.len() ==> #[trigger] final(self).food@[s] <= old(
                    self,
                ).food@[s],
    {
        let ghost s0 = *self;
        let n = self.size;
        let order_y = self.random_source.permutation(n);
        let mut yi: usize = 0;
        while yi < n
            invariant
                self.wf(),
                yi <= n,
                n == self.size,
                order_y@.len() == n,
                forall|i: int| 0 <= i < n ==> #[trigger] order_y@[i] < n,
                forall|val: usize| val < n ==> order_y@.contains(val),
                self.size == s0.size,
                self.organisms == s0.organisms,
                self.food_map == s0.food_map,
                self.lava_map == s0.lava_map,
                self.map@.len() == s0.map@.len(),
                self.food@.len() == s0.food@.len(),
                forall|s: int|
                    0 <= s < s0.food@.len() ==> #[trigger] self.food@[s] <= s0.food@[s],
                forall|i: int|
                    0 <= i < s0.map@.len() ==> #[trigger] self.map@[i] == s0.map@[i]
                        || self.map@[i] == -1i32,
                forall|j: int, x: int|
                    0 <= j < yi && 0 <= x < n && s0.lava_map@[#[trigger] s0.idx(order_y@[j] as int, x)]
                        ==> self.cell(order_y@[j] as int, x) == -1i32,
            decreases n - yi,
        {
            let y = order_y[yi];
            let order_x = self.random_source.permutation(n);
            let mut xi: usize = 0;
            while xi < n
                invariant
                    self.wf(),
                    xi <= n,
                    y < n,
                    yi < n,
                    n == self.size,
                    order_y@.len() == n,
                    y == order_y@[yi as int],
                    forall|i: int| 0 <= i < n ==> #[trigger] order_y@[i] < n,
                    order_x@.len() == n,
                    forall|i: int| 0 <= i < n ==> #[trigger] order_x@[i] < n,
                    forall|val: usize| val < n ==> order_x@.contains(val),
                    self.size == s0.size,
                    self.organisms == s0.organisms,
                    self.food_map == s0.food_map,
                    self.lava_map == s0.lava_map,
                    self.map@.len() == s0.map@.len(),
                    self.food@.len() == s0.food@.len(),
                    forall|s: int|
                        0 <= s < s0.food@.len() ==> #[trigger] self.food@[s] <= s0.food@[s],
                    forall|i: int|
                        0 <= i < s0.map@.len() ==> #[trigger] self.map@[i] == s0.map@[i]
                            || self.map@[i] == -1i32,
                    forall|j: int, x: int|
                        0 <= j < yi && 0 <= x < n && s0.lava_map@[#[trigger] s0.idx(order_y@[j] as int, x)]
                            ==> self.cell(order_y@[j] as int, x) == -1i32,
                    forall|j: int|
                        0 <= j < xi && s0.lava_map@[s0.idx(y as int, order_x@[j] as int)]
                            ==> #[trigger] self.cell(y as int, order_x@[j] as int) == -1i32,
                decreases n - xi,
            {
                let x = order_x[xi];
                let ghost pre = *self;
                self.starve_cell(y, x);
                proof {
                    assert forall|yy: int, xx: int|
                        0 <= yy < n && 0 <= xx < n implies (#[trigger] self.cell(yy, xx)
                        == pre.cell(yy, xx) || self.cell(yy, xx) == -1i32) by {
                        pre.lemma_idx_bounds(yy, xx);
                    };
                    pre.lemma_idx_bounds(y as int, x as int);
                }
                xi += 1;
            }
            proof {
                assert forall|x: int|
                    0 <= x < n && s0.lava_map@[s0.idx(y as int, x)] implies #[trigger] self.cell(
                    y as int,
                    x,
                ) == -1i32 by {
                    assert(order_x@.contains(x as usize));
                    let j = choose|j: int| 0 <= j < order_x@.len() && order_x@[j] == x as usize;
                    assert(s0.lava_map@[s0.idx(y as int, order_x@[j] as int)]);
                    assert(self.cell(y as int, order_x@[j] as int) == -1i32);
                };
            }
            yi += 1;
        }
        proof {
            assert forall|y: int, x: int|
                0 <= y < s0.size && 0 <= x < s0.size && s0.lava_map@[s0.idx(y, x)]
                implies #[trigger] self.cell(y, x) == -1i32 by {
                assert(order_y@.contains(y as usize));
                let j = choose|j: int| 0 <= j < order_y@.len() && order_y@[j] == y as usize;
                assert(s0.lava_map@[s0.idx(order_y@[j] as int, x)]);
                assert(self.cell(order_y@[j] as int, x) == -1i32);
            };
            assert forall|s: int|
                0 <= s < self.species_count() implies #[trigger] self.populations@[s]
                <= s0.populations@[s] by {
                grid::lemma_cell_count_only_emptied(s0.map@, self.map@, s as i32);
            };
        }
    }
}

} // verus!

