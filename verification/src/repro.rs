//! The Reproduction phase: an empty cell gains a newborn of the species
//! with the strictly highest tally among its eight Moore neighbors, ties
//! keeping the lowest id, when that tally reaches the threshold.

use vstd::prelude::*;
use crate::grid;
use crate::sim::Simulation;

verus! {

/// A cell whose Reproduction fate is settled at phase entry: empty, with
/// all eight Moore neighbors occupied.  Births fill only empty cells, so
/// such a neighborhood cannot change during the phase, and no traversal
/// order can alter the tally this cell sees when it is visited.
pub open spec fn settled_cell(pre: Simulation, y: int, x: int) -> bool {
    &&& 0 <= y < pre.size
    &&& 0 <= x < pre.size
    &&& pre.cell(y, x) == -1i32
    &&& pre.moore_occupied(y, x)
}

/// The settled fate itself: born into with the entry-state scan winner
/// exactly when the winning tally reaches the threshold, still empty
/// otherwise.
pub open spec fn settled_repro_outcome(pre: Simulation, post: Simulation, y: int, x: int) -> bool {
    let scan = pre.scan_best(y, x, pre.species_count());
    if scan.1 >= crate::REPRO_LIMIT {
        post.cell(y, x) == scan.0 as i32
    } else {
        post.cell(y, x) == -1i32
    }
}

/// Mid-phase, a settled cell still sees its entry neighborhood: the phase
/// preserves occupied cells, and every Moore neighbor of a settled cell
/// was occupied at entry.
proof fn lemma_settled_neighborhood(s0: Simulation, cur: Simulation, y: int, x: int)
    requires
        s0.wf(),
        cur.size == s0.size,
        cur.map@.len() == s0.map@.len(),
        settled_cell(s0, y, x),
        forall|i: int|
            0 <= i < s0.map@.len() && s0.map@[i] != -1i32 ==> #[trigger] cur.map@[i]
                == s0.map@[i],
    ensures
        cur.moore_cells(y, x) == s0.moore_cells(y, x),
{
    let nn = s0.size as int;
    let ym = grid::wrap_dec_spec(y, nn);
    let yp = grid::wrap_inc_spec(y, nn);
    let xm = grid::wrap_dec_spec(x, nn);
    let xp = grid::wrap_inc_spec(x, nn);
    s0.lemma_idx_bounds(ym, xm);
    s0.lemma_idx_bounds(y, xm);
    s0.lemma_idx_bounds(yp, xm);
    s0.lemma_idx_bounds(ym, x);
    s0.lemma_idx_bounds(yp, x);
    s0.lemma_idx_bounds(ym, xp);
    s0.lemma_idx_bounds(y, xp);
    s0.lemma_idx_bounds(yp, xp);
    assert(cur.cell(ym, xm) == s0.cell(ym, xm)) by {
        assert(s0.moore_cells(y, x)[0] != -1i32);
    }
    assert(cur.cell(y, xm) == s0.cell(y, xm)) by {
        assert(s0.moore_cells(y, x)[1] != -1i32);
    }
    assert(cur.cell(yp, xm) == s0.cell(yp, xm)) by {
        assert(s0.moore_cells(y, x)[2] != -1i32);
    }
    assert(cur.cell(ym, x) == s0.cell(ym, x)) by {
        assert(s0.moore_cells(y, x)[3] != -1i32);
    }
    assert(cur.cell(yp, x) == s0.cell(yp, x)) by {
        assert(s0.moore_cells(y, x)[4] != -1i32);
    }
    assert(cur.cell(ym, xp) == s0.cell(ym, xp)) by {
        assert(s0.moore_cells(y, x)[5] != -1i32);
    }
    assert(cur.cell(y, xp) == s0.cell(y, xp)) by {
        assert(s0.moore_cells(y, x)[6] != -1i32);
    }
    assert(cur.cell(yp, xp) == s0.cell(yp, xp)) by {
        assert(s0.moore_cells(y, x)[7] != -1i32);
    }
    assert(cur.moore_cells(y, x) =~= s0.moore_cells(y, x));
}

impl Simulation {
    /// The eight Moore neighbors of (`y`, `x`), with toroidal wrap.
    pub open spec fn moore_cells(self, y: int, x: int) -> Seq<i32> {
        let n = self.size as int;
        let ym = grid::wrap_dec_spec(y, n);
        let yp = grid::wrap_inc_spec(y, n);
        let xm = grid::wrap_dec_spec(x, n);
        let xp = grid::wrap_inc_spec(x, n);
        seq![
            self.cell(ym, xm),
            self.cell(y, xm),
            self.cell(yp, xm),
            self.cell(ym, x),
            self.cell(yp, x),
            self.cell(ym, xp),
            self.cell(y, xp),
            self.cell(yp, xp),
        ]
    }

    /// How many of the eight Moore neighbors of (`y`, `x`) hold `v`.
    pub open spec fn tally(self, y: int, x: int, v: i32) -> nat {
        grid::cell_count(self.moore_cells(y, x), v)
    }

    /// Every Moore neighbor of (`y`, `x`) is occupied.
    pub open spec fn moore_occupied(self, y: int, x: int) -> bool {
        forall|k: int| 0 <= k < 8 ==> #[trigger] self.moore_cells(y, x)[k] != -1i32
    }

    /// The winner scan over species ids `0 .. upto`: the running best is
    /// replaced only by a strictly greater tally, so among equal tallies
    /// the lowest id is kept.  Yields `(winner id, winning tally)`, with
    /// id `-1` while no species has a positive tally.
    pub open spec fn scan_best(self, y: int, x: int, upto: int) -> (int, nat)
        decreases upto,
    {
        if upto <= 0 {
            (-1int, 0nat)
        } else {
            let prev = self.scan_best(y, x, upto - 1);
            let t = self.tally(y, x, (upto - 1) as i32);
            if t > prev.1 {
                (upto - 1, t)
            } else {
                prev
            }
        }
    }

    /// The scan picks the first species attaining the maximum tally: no
    /// species beats the winning tally, the winner attains it, and every
    /// species with a lower id falls strictly short — the lowest-id-wins
    /// tie-break of the reproduction rule.
    pub proof fn lemma_reproduction_winner(self, y: int, x: int, upto: int)
        requires
            0 <= upto,
        ensures
            self.scan_best(y, x, upto).0 == -1 || 0 <= self.scan_best(y, x, upto).0 < upto,
            self.scan_best(y, x, upto).0 == -1 ==> self.scan_best(y, x, upto).1 == 0,
            self.scan_best(y, x, upto).0 != -1 ==> self.tally(
                y,
                x,
                self.scan_best(y, x, upto).0 as i32,
            ) == self.scan_best(y, x, upto).1 && self.scan_best(y, x, upto).1 >= 1,
            forall|s: int|
                0 <= s < upto ==> #[trigger] self.tally(y, x, s as i32) <= self.scan_best(
                    y,
                    x,
                    upto,
                ).1,
            forall|s: int|
                0 <= s < self.scan_best(y, x, upto).0 ==> #[trigger] self.tally(y, x, s as i32)
                    < self.scan_best(y, x, upto).1,
        decreases upto,
    {
        if upto > 0 {
            self.lemma_reproduction_winner(y, x, upto - 1);
        }
    }

    /// The tally scan reads only the Moore neighborhood: two states that
    /// agree on it agree on the winner and the winning tally.
    pub proof fn lemma_scan_congruent(self, other: Simulation, y: int, x: int, upto: int)
        requires
            self.moore_cells(y, x) == other.moore_cells(y, x),
        ensures
            self.scan_best(y, x, upto) == other.scan_best(y, x, upto),
        decreases upto,
    {
        if upto > 0 {
            self.lemma_scan_congruent(other, y, x, upto - 1);
        }
    }

    /// The eight Moore neighbor values of (`y`, `x`), in scan order.
    fn moore_neighbors_vec(&self, y: usize, x: usize) -> (v: Vec<i32>)
        requires
            self.wf(),
            y < self.size,
            x < self.size,
        ensures
            v@ == self.moore_cells(y as int, x as int),
    {
        let n = self.size;
        let ym = grid::wrap_dec(y, n);
        let yp = grid::wrap_inc(y, n);
        let xm = grid::wrap_dec(x, n);
        let xp = grid::wrap_inc(x, n);
        let mut v: Vec<i32> = Vec::new();
        v.push(self.occupant(ym, xm));
        v.push(self.occupant(y, xm));
        v.push(self.occupant(yp, xm));
        v.push(self.occupant(ym, x));
        v.push(self.occupant(yp, x));
        v.push(self.occupant(ym, xp));
        v.push(self.occupant(y, xp));
        v.push(self.occupant(yp, xp));
        proof {
            assert(v@ =~= self.moore_cells(y as int, x as int));
        }
        v
    }

    /// Count how many entries of `v` equal `target`.
    fn count_in(v: &Vec<i32>, target: i32) -> (c: usize)
        ensures
            c == grid::cell_count(v@, target),
    {
        let mut c: usize = 0;
        let mut i: usize = 0;
        while i < v.len()
            invariant
                i <= v@.len(),
                c <= i,
                c == grid::cell_count(v@.subrange(0, i as int), target),
            decreases v@.len() - i,
        {
            proof {
                assert(v@.subrange(0, i as int + 1).drop_last() =~= v@.subrange(0, i as int));
                assert(v@.subrange(0, i as int + 1).last() == v@[i as int]);
            }
            if v[i] == target {
                c += 1;
            }
            i += 1;
        }
        proof {
            assert(v@.subrange(0, v@.len() as int) =~= v@);
        }
        c
    }

    /// One Reproduction visit of the cell at (`y`, `x`): an occupied cell
    /// is left entirely alone (the visit consumes no randomness); an empty
    /// cell gains a newborn of the winner of the Moore-tally scan exactly
    /// when the winning tally reaches the threshold, and stays empty
    /// otherwise.
    pub fn reproduce_cell(&mut self, y: usize, x: usize)
        requires
            old(self).wf(),
            y < old(self).size,
            x < old(self).size,
        ensures
            final(self).wf(),
            old(self).cell(y as int, x as int) != -1 ==> *final(self) == *old(self),
            old(self).cell(y as int, x as int) == -1 && old(self).scan_best(
                y as int,
                x as int,
                old(self).species_count(),
            ).1 < crate::REPRO_LIMIT ==> *final(self) == *old(self),
            old(self).cell(y as int, x as int) == -1 && old(self).scan_best(
                y as int,
                x as int,
                old(self).species_count(),
            ).1 >= crate::REPRO_LIMIT ==> {
                let win = old(self).scan_best(y as int, x as int, old(self).species_count()).0;
                &&& final(self).map@ == old(self).map@.update(
                    old(self).idx(y as int, x as int),
                    win as i32,
                )
                &&& final(self).populations@ == old(self).populations@.update(
                    win,
                    (old(self).populations@[win] + 1) as u64,
                )
                &&& final(self).organisms == old(self).organisms
                &&& final(self).food == old(self).food
                &&& final(self).food_map == old(self).food_map
                &&& final(self).lava_map == old(self).lava_map
                &&& final(self).random_source == old(self).random_source
                &&& final(self).size == old(self).size
            },
    {
        let me = self.occupant(y, x);
        if me != -1 {
            return ;
        }
        let neigh = self.moore_neighbors_vec(y, x);
        let sc = self.organisms.len();
        let mut best_s: i32 = -1;
        let mut best_t: usize = 0;
        let mut s: usize = 0;
        while s < sc
            invariant
                s <= sc,
                self.wf(),
                y < self.size,
                x < self.size,
                sc == self.species_count(),
                neigh@ == self.moore_cells(y as int, x as int),
                best_s as int == self.scan_best(y as int, x as int, s as int).0,
                best_t as nat == self.scan_best(y as int, x as int, s as int).1,
            decreases sc - s,
        {
            let t = Self::count_in(&neigh, s as i32);
            if t > best_t {
                best_t = t;
                best_s = s as i32;
            }
            s += 1;
        }
        if best_t >= crate::REPRO_LIMIT {
            proof {
                self.lemma_reproduction_winner(y as int, x as int, sc as int);
            }
            self.occupy(y, x, best_s);
        }
    }

    /// The Reproduction phase: visit every cell once in a freshly
    /// randomized row and column order.  Occupied cells keep their
    /// occupant; empty cells may gain one.  A cell that was empty with a
    /// fully occupied Moore neighborhood at phase entry has its fate
    /// fixed by the entry state alone: it receives the scan winner
    /// exactly when the winning tally reaches the threshold, and stays
    /// empty otherwise, whatever the traversal order.
    pub fn reproduce(&mut self)
        requires
            old(self).wf(),
        ensures
            final(self).wf(),
            final(self).size == old(self).size,
            final(self).organisms == old(self).organisms,
            final(self).food == old(self).food,
            final(self).food_map == old(self).food_map,
            final(self).lava_map == old(self).lava_map,
            final(self).map@.len() == old(self).map@.len(),
            forall|i: int|
                0 <= i < old(self).map@.len() && old(self).map@[i] != -1i32
                    ==> #[trigger] final(self).map@[i] == old(self).map@[i],
            forall|y: int, x: int|
                #[trigger] settled_cell(*old(self), y, x) ==> settled_repro_outcome(
                    *old(self),
                    *final(self),
                    y,
                    x,
                ),
    {
        let ghost s0 = *self;
        let n = self.size;
        let order_y = self.random_source.permutation(n);
        let mut yi: usize = 0;
        while yi < n
            invariant
                self.wf(),
                s0.wf(),
                yi <= n,
                n == self.size,
                order_y@.len() == n,
                forall|i: int| 0 <= i < n ==> #[trigger] order_y@[i] < n,
                forall|val: usize| val < n ==> order_y@.contains(val),
                self.size == s0.size,
                self.organisms == s0.organisms,
                self.food == s0.food,
                self.food_map == s0.food_map,
                self.lava_map == s0.lava_map,
                self.map@.len() == s0.map@.len(),
                forall|i: int|
                    0 <= i < s0.map@.len() && s0.map@[i] != -1i32 ==> #[trigger] self.map@[i]
                        == s0.map@[i],
                forall|yy: int, xx: int|
                    #[trigger] settled_cell(s0, yy, xx) ==> self.cell(yy, xx) == -1i32 || (
                    s0.scan_best(yy, xx, s0.species_count()).1 >= crate::REPRO_LIMIT
                        && self.cell(yy, xx) == s0.scan_best(
                        yy,
                        xx,
                        s0.species_count(),
                    ).0 as i32),
                forall|j: int, xx: int|
                    0 <= j < yi && #[trigger] settled_cell(s0, order_y@[j] as int, xx)
                        && s0.scan_best(order_y@[j] as int, xx, s0.species_count()).1
                        >= crate::REPRO_LIMIT ==> self.cell(order_y@[j] as int, xx)
                        == s0.scan_best(order_y@[j] as int, xx, s0.species_count()).0 as i32,
            decreases n - yi,
        {
            let y = order_y[yi];
            let order_x = self.random_source.permutation(n);
            let mut xi: usize = 0;
            while xi < n
                invariant
                    self.wf(),
                    s0.wf(),
                    xi <= n,
                    y < n,
                    yi < n,
                    n == self.size,
                    order_y@.len() == n,
                    y == order_y@[yi as int],
                    forall|i: int| 0 <= i < n ==> #[trigger] order_y@[i] < n,
                    order_x@.len() == n,
                    forall|i: int| 0 <= i < n ==> #[trigger] order_x@[i] < n,
                    forall|val: usize| val < n ==> order_x@.contains(val),
                    self.size == s0.size,
                    self.organisms == s0.organisms,
                    self.food == s0.food,
                    self.food_map == s0.food_map,
                    self.lava_map == s0.lava_map,
                    self.map@.len() == s0.map@.len(),
                    forall|i: int|
                        0 <= i < s0.map@.len() && s0.map@[i] != -1i32 ==> #[trigger] self.map@[i]
                            == s0.map@[i],
                    forall|yy: int, xx: int|
                        #[trigger] settled_cell(s0, yy, xx) ==> self.cell(yy, xx) == -1i32 || (
                        s0.scan_best(yy, xx, s0.species_count()).1 >= crate::REPRO_LIMIT
                            && self.cell(yy, xx) == s0.scan_best(
                            yy,
                            xx,
                            s0.species_count(),
                        ).0 as i32),
                    forall|j: int, xx: int|
                        0 <= j < yi && #[trigger] settled_cell(s0, order_y@[j] as int, xx)
                            && s0.scan_best(order_y@[j] as int, xx, s0.species_count()).1
                            >= crate::REPRO_LIMIT ==> self.cell(order_y@[j] as int, xx)
                            == s0.scan_best(order_y@[j] as int, xx, s0.species_count()).0 as i32,
                    forall|j: int|
                        0 <= j < xi && #[trigger] settled_cell(
                            s0,
                            y as int,
                            order_x@[j] as int,
                        ) && s0.scan_best(y as int, order_x@[j] as int, s0.species_count()).1
                            >= crate::REPRO_LIMIT ==> self.cell(y as int, order_x@[j] as int)
                            == s0.scan_best(y as int, order_x@[j] as int, s0.species_count()).0 as i32,
                decreases n - xi,
            {
                let x = order_x[xi];
                let ghost pre = *self;
                self.reproduce_cell(y, x);
                proof {
                    pre.lemma_idx_bounds(y as int, x as int);
                    if pre.cell(y as int, x as int) == -1 && pre.scan_best(
                        y as int,
                        x as int,
                        pre.species_count(),
                    ).1 >= crate::REPRO_LIMIT {
                        assert(pre.map@[pre.idx(y as int, x as int)] == -1i32);
                    }
                    assert forall|yy: int, xx: int|
                        0 <= yy < n && 0 <= xx < n && !(yy == y as int && xx == x as int)
                        implies #[trigger] self.cell(yy, xx) == pre.cell(yy, xx) by {
                        pre.lemma_idx_bounds(yy, xx);
                        if pre.idx(yy, xx) == pre.idx(y as int, x as int) {
                            pre.lemma_idx_injective(yy, xx, y as int, x as int);
                        }
                    };
                    if settled_cell(s0, y as int, x as int) {
                        lemma_settled_neighborhood(s0, pre, y as int, x as int);
                        pre.lemma_scan_congruent(s0, y as int, x as int, s0.species_count());
                        if s0.scan_best(y as int, x as int, s0.species_count()).1
                            >= crate::REPRO_LIMIT {
                            assert(self.cell(y as int, x as int) == s0.scan_best(
                                y as int,
                                x as int,
                                s0.species_count(),
                            ).0 as i32);
                        } else {
                            assert(self.cell(y as int, x as int) == -1i32);
                        }
                    }
                }
                xi += 1;
            }
            proof {
                assert forall|xx: int|
                    0 <= xx < n && settled_cell(s0, y as int, xx) && s0.scan_best(
                        y as int,
                        xx,
                        s0.species_count(),
                    ).1 >= crate::REPRO_LIMIT implies self.cell(y as int, xx) == s0.scan_best(
                    y as int,
                    xx,
                    s0.species_count(),
                ).0 as i32 by {
                    assert(order_x@.contains(xx as usize));
                    let j = choose|j: int| 0 <= j < order_x@.len() && order_x@[j] == xx as usize;
                    assert(settled_cell(s0, y as int, order_x@[j] as int));
                };
            }
            yi += 1;
        }
        proof {
            assert forall|yy: int, xx: int| settled_cell(s0, yy, xx) implies settled_repro_outcome(
                s0,
                *self,
                yy,
                xx,
            ) by {
                if s0.scan_best(yy, xx, s0.species_count()).1 >= crate::REPRO_LIMIT {
                    assert(order_y@.contains(yy as usize));
                    let j = choose|j: int| 0 <= j < order_y@.len() && order_y@[j] == yy as usize;
                    assert(settled_cell(s0, order_y@[j] as int, xx));
                }
            };
        }
    }
}

} // verus!
