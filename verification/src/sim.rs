//! The world state: occupancy grid, per-species counters, terrain overlays,
//! and the centralized mutation points that keep them consistent.

use vstd::prelude::*;
use crate::grid;
use crate::rng::SimRng;
use crate::species::Organism;

verus! {

/// What a renderer sees in one cell: lethal terrain, an empty cell, or an
/// occupant's species id and display color.
#[derive(PartialEq, Eq, Structural, Clone, Copy, Debug)]
pub enum CellView {
    Hazard,
    Empty,
    Occupied(i32, u32),
}

/// Why construction was refused.
#[derive(PartialEq, Eq, Structural, Clone, Copy, Debug)]
pub enum ConfigError {
    BadSpeciesCount,
    BadGridSize,
    BadOverlayDims,
    BadOverlayValues,
    BadTraits,
}

/// `x + 1`, saturating at the machine cap.
pub open spec fn sat_inc(x: u64) -> u64 {
    if x == u64::MAX {
        x
    } else {
        (x + 1) as u64
    }
}

/// `x - 1`, floored at zero.
pub open spec fn sat_dec(x: u64) -> u64 {
    if x == 0 {
        0u64
    } else {
        (x - 1) as u64
    }
}

/// Acceptable number of species.
pub open spec fn config_species_ok(orgs: Seq<Organism>) -> bool {
    1 <= orgs.len() <= crate::MAX_SPECIES as int
}

/// Acceptable grid side length.
pub open spec fn config_size_ok(size: usize) -> bool {
    1 <= size <= crate::MAX_GRID_SIZE
}

/// Both overlays cover the grid exactly.
pub open spec fn config_dims_ok(size: usize, lava: Seq<bool>, food_map: Seq<u64>) -> bool {
    lava.len() == size * size && food_map.len() == size * size
}

/// Every food-availability entry is a fraction of [`crate::SCALE`].
pub open spec fn config_food_values_ok(food_map: Seq<u64>) -> bool {
    forall|i: int| 0 <= i < food_map.len() ==> #[trigger] food_map[i] < crate::SCALE
}

/// Every species' traits are well-formed for this registry.
pub open spec fn config_traits_ok(orgs: Seq<Organism>) -> bool {
    forall|s: int| 0 <= s < orgs.len() ==> (#[trigger] orgs[s]).wf(orgs.len())
}

/// The whole world state.  `map` is a flat row-major `size * size` grid of
/// cells, each `-1` (empty) or a species id; `populations[s]` counts the
/// live individuals of species `s`; `food[s]` is its shared food reserve;
/// `lava_map` marks lethal terrain; `food_map` holds each cell's foraging
/// difficulty as a fraction of [`crate::SCALE`].
pub struct Simulation {
    pub organisms: Vec<Organism>,
    pub populations: Vec<u64>,
    pub food: Vec<u64>,
    pub map: Vec<i32>,
    pub food_map: Vec<u64>,
    pub lava_map: Vec<bool>,
    pub random_source: SimRng,
    pub size: usize,
}

impl Simulation {
    /// Number of species in the registry.
    pub open spec fn species_count(self) -> int {
        self.organisms@.len() as int
    }

    /// Flat row-major index of the cell at row `y`, column `x`.
    pub open spec fn idx(self, y: int, x: int) -> int {
        y * self.size + x
    }

    /// The occupant of the cell at row `y`, column `x`: a species id, or
    /// `-1` for empty.
    pub open spec fn cell(self, y: int, x: int) -> i32 {
        self.map@[self.idx(y, x)]
    }

    /// A legal cell value: empty or a species id of the registry.
    pub open spec fn valid_cell_value(self, c: i32) -> bool {
        c == -1 || (0 <= c && (c as int) < self.species_count())
    }

    /// Every per-species counter equals the number of grid cells that
    /// currently hold that species.
    pub open spec fn populations_consistent(self) -> bool {
        forall|s: int|
            0 <= s < self.species_count() ==> #[trigger] self.populations@[s]
                == grid::cell_count(self.map@, s as i32)
    }

    /// The world-state invariant, established at construction and
    /// preserved by every phase.
    pub open spec fn wf(self) -> bool {
        &&& 1 <= self.size <= crate::MAX_GRID_SIZE
        &&& 1 <= self.species_count() <= crate::MAX_SPECIES
        &&& self.map@.len() == self.size * self.size
        &&& self.food_map@.len() == self.size * self.size
        &&& self.lava_map@.len() == self.size * self.size
        &&& self.populations@.len() == self.species_count()
        &&& self.food@.len() == self.species_count()
        &&& forall|i: int|
            0 <= i < self.map@.len() ==> self.valid_cell_value(#[trigger] self.map@[i])
        &&& forall|i: int| 0 <= i < self.food_map@.len() ==> #[trigger] self.food_map@[i] < crate::SCALE
        &&& forall|s: int|
            0 <= s < self.species_count() ==> (#[trigger] self.organisms@[s]).wf(
                self.organisms@.len(),
            )
        &&& self.populations_consistent()
    }

    /// Population consistency: in any well-formed world — so after
    /// construction and after every phase, each of which ensures
    /// well-formedness — every species' counter equals the number of grid
    /// cells holding that species, and no counter exceeds the number of
    /// cells.
    pub proof fn lemma_population_consistency(self)
        requires
            self.wf(),
        ensures
            forall|s: int|
                0 <= s < self.species_count() ==> #[trigger] self.populations@[s]
                    == grid::cell_count(self.map@, s as i32),
            forall|s: int|
                0 <= s < self.species_count() ==> #[trigger] self.populations@[s] <= self.size
                    * self.size,
    {
        assert forall|s: int|
            0 <= s < self.species_count() implies #[trigger] self.populations@[s] <= self.size
            * self.size by {
            grid::lemma_cell_count_le_len(self.map@, s as i32);
        };
    }

    /// A cell's flat index lies inside the grid.
    pub proof fn lemma_idx_bounds(self, y: int, x: int)
        requires
            0 <= y < self.size,
            0 <= x < self.size,
        ensures
            0 <= self.idx(y, x) < self.size * self.size,
    {
        assert(0 <= y * self.size + x < self.size * self.size) by (nonlinear_arith)
            requires
                0 <= y < self.size,
                0 <= x < self.size,
        ;
    }

    /// Distinct coordinates have distinct flat indices.
    pub proof fn lemma_idx_injective(self, y1: int, x1: int, y2: int, x2: int)
        requires
            0 <= y1 < self.size,
            0 <= x1 < self.size,
            0 <= y2 < self.size,
            0 <= x2 < self.size,
            self.idx(y1, x1) == self.idx(y2, x2),
        ensures
            y1 == y2,
            x1 == x2,
    {
        assert(y1 == y2 && x1 == x2) by (nonlinear_arith)
            requires
                0 <= y1 < self.size,
                0 <= x1 < self.size,
                0 <= y2 < self.size,
                0 <= x2 < self.size,
                y1 * self.size + x1 == y2 * self.size + x2,
        ;
    }

    /// Flat row-major index of (`y`, `x`).
    pub(crate) fn flat(&self, y: usize, x: usize) -> (i: usize)
        requires
            self.size <= crate::MAX_GRID_SIZE,
            y < self.size,
            x < self.size,
        ensures
            i == self.idx(y as int, x as int),
            i < self.size * self.size,
    {
        proof {
            self.lemma_idx_bounds(y as int, x as int);
            assert(self.size * self.size <= crate::MAX_GRID_SIZE * crate::MAX_GRID_SIZE)
                by (nonlinear_arith)
                requires
                    self.size <= crate::MAX_GRID_SIZE,
            ;
        }
        y * self.size + x
    }

    /// Read the occupant of the cell at row `y`, column `x`.
    pub fn occupant(&self, y: usize, x: usize) -> (c: i32)
        requires
            self.wf(),
            y < self.size,
            x < self.size,
        ensures
            c == self.cell(y as int, x as int),
            self.valid_cell_value(c),
    {
        let i = self.flat(y, x);
        self.map[i]
    }

    /// Put an individual of species `s` into the empty cell at (`y`, `x`),
    /// incrementing that species' population counter.
    pub fn occupy(&mut self, y: usize, x: usize, s: i32)
        requires
            old(self).wf(),
            y < old(self).size,
            x < old(self).size,
            old(self).cell(y as int, x as int) == -1,
            0 <= s && (s as int) < old(self).species_count(),
        ensures
            final(self).wf(),
            final(self).size == old(self).size,
            final(self).organisms == old(self).organisms,
            final(self).food == old(self).food,
            final(self).food_map == old(self).food_map,
            final(self).lava_map == old(self).lava_map,
            final(self).random_source == old(self).random_source,
            final(self).map@ == old(self).map@.update(old(self).idx(y as int, x as int), s),
            final(self).populations@ == old(self).populations@.update(
                s as int,
                (old(self).populations@[s as int] + 1) as u64,
            ),
    {
        let i = self.flat(y, x);
        proof {
            grid::lemma_cell_count_le_len(self.map@, s);
            assert(self.size * self.size <= crate::MAX_GRID_SIZE * crate::MAX_GRID_SIZE)
                by (nonlinear_arith)
                requires
                    self.size <= crate::MAX_GRID_SIZE,
            ;
        }
        let sp = s as usize;
        let p = self.populations[sp];
        self.map.set(i, s);
        self.populations.set(sp, p + 1);
        proof {
            let om = old(self).map@;
            let ii = old(self).idx(y as int, x as int);
            assert forall|v: int|
                0 <= v < self.species_count() implies #[trigger] self.populations@[v]
                == grid::cell_count(self.map@, v as i32) by {
                grid::lemma_cell_count_update(om, ii, s, v as i32);
            };
        }
    }

    /// Empty the occupied cell at (`y`, `x`), decrementing its species'
    /// population counter.
    pub fn vacate(&mut self, y: usize, x: usize)
        requires
            old(self).wf(),
            y < old(self).size,
            x < old(self).size,
            old(self).cell(y as int, x as int) != -1,
        ensures
            final(self).wf(),
            final(self).size == old(self).size,
            final(self).organisms == old(self).organisms,
            final(self).food == old(self).food,
            final(self).food_map == old(self).food_map,
            final(self).lava_map == old(self).lava_map,
            final(self).random_source == old(self).random_source,
            final(self).map@ == old(self).map@.update(old(self).idx(y as int, x as int), -1i32),
            final(self).populations@ == old(self).populations@.update(
                old(self).cell(y as int, x as int) as int,
                (old(self).populations@[old(self).cell(y as int, x as int) as int] - 1) as u64,
            ),
            old(self).populations@[old(self).cell(y as int, x as int) as int] >= 1,
    {
        let i = self.flat(y, x);
        let s = self.map[i];
        proof {
            grid::lemma_cell_count_at_least_one(
                self.map@,
                old(self).idx(y as int, x as int),
                s,
            );
        }
        let sp = s as usize;
        let p = self.populations[sp];
        self.map.set(i, -1);
        self.populations.set(sp, p - 1);
        proof {
            let om = old(self).map@;
            let ii = old(self).idx(y as int, x as int);
            assert forall|v: int|
                0 <= v < self.species_count() implies #[trigger] self.populations@[v]
                == grid::cell_count(self.map@, v as i32) by {
                grid::lemma_cell_count_update(om, ii, -1i32, v as i32);
            };
        }
    }

    /// Add one unit of food to species `s`'s reserve.
    pub fn feed(&mut self, s: usize)
        requires
            old(self).wf(),
            (s as int) < old(self).species_count(),
        ensures
            final(self).wf(),
            final(self).size == old(self).size,
            final(self).organisms == old(self).organisms,
            final(self).populations == old(self).populations,
            final(self).map == old(self).map,
            final(self).food_map == old(self).food_map,
            final(self).lava_map == old(self).lava_map,
            final(self).random_source == old(self).random_source,
            final(self).food@ == old(self).food@.update(
                s as int,
                sat_inc(old(self).food@[s as int]),
            ),
    {
        let f = self.food[s];
        self.food.set(s, if f == u64::MAX { f } else { f + 1 });
    }

    /// Take one unit of food from species `s`'s reserve, floored at zero.
    pub fn unfeed(&mut self, s: usize)
        requires
            old(self).wf(),
            (s as int) < old(self).species_count(),
        ensures
            final(self).wf(),
            final(self).size == old(self).size,
            final(self).organisms == old(self).organisms,
            final(self).populations == old(self).populations,
            final(self).map == old(self).map,
            final(self).food_map == old(self).food_map,
            final(self).lava_map == old(self).lava_map,
            final(self).random_source == old(self).random_source,
            final(self).food@ == old(self).food@.update(
                s as int,
                sat_dec(old(self).food@[s as int]),
            ),
    {
        let f = self.food[s];
        self.food.set(s, if f == 0 { 0 } else { f - 1 });
    }

    /// Build a world from a species registry, a grid side length, the two
    /// terrain overlays and a seed for the pseudorandom source.  The grid
    /// starts empty; [`Simulation::init`] populates it.  Construction is
    /// refused exactly when one of the configuration conditions fails, with
    /// the error of the first failed check.
    pub fn new(
        organisms: Vec<Organism>,
        size: usize,
        lava_map: Vec<bool>,
        food_map: Vec<u64>,
        seed: u64,
    ) -> (r: Result<Simulation, ConfigError>)
        ensures
            (r matches Err(e) && e == ConfigError::BadSpeciesCount) <==> !config_species_ok(
                organisms@,
            ),
            (r matches Err(e) && e == ConfigError::BadGridSize) <==> (config_species_ok(organisms@)
                && !config_size_ok(size)),
            (r matches Err(e) && e == ConfigError::BadOverlayDims) <==> (config_species_ok(
                organisms@,
            ) && config_size_ok(size) && !config_dims_ok(size, lava_map@, food_map@)),
            (r matches Err(e) && e == ConfigError::BadOverlayValues) <==> (config_species_ok(
                organisms@,
            ) && config_size_ok(size) && config_dims_ok(size, lava_map@, food_map@)
                && !config_food_values_ok(food_map@)),
            (r matches Err(e) && e == ConfigError::BadTraits) <==> (config_species_ok(organisms@)
                && config_size_ok(size) && config_dims_ok(size, lava_map@, food_map@)
                && config_food_values_ok(food_map@) && !config_traits_ok(organisms@)),
            (r matches Ok(sim)) <==> (config_species_ok(organisms@) && config_size_ok(size)
                && config_dims_ok(size, lava_map@, food_map@) && config_food_values_ok(food_map@)
                && config_traits_ok(organisms@)),
            r matches Ok(sim) ==> sim.wf(),
            r matches Ok(sim) ==> sim.size == size,
            r matches Ok(sim) ==> sim.organisms@ == organisms@,
            r matches Ok(sim) ==> sim.lava_map@ == lava_map@,
            r matches Ok(sim) ==> sim.food_map@ == food_map@,
            r matches Ok(sim) ==> forall|i: int|
                0 <= i < sim.map@.len() ==> #[trigger] sim.map@[i] == -1i32,
            r matches Ok(sim) ==> forall|s: int|
                0 <= s < sim.species_count() ==> #[trigger] sim.populations@[s] == 0,
            r matches Ok(sim) ==> forall|s: int|
                0 <= s < sim.species_count() ==> #[trigger] sim.food@[s] == 0,
    {
        let sc = organisms.len();
        if sc < 1 || sc > crate::MAX_SPECIES {
            return Err(ConfigError::BadSpeciesCount);
        }
        if size < 1 || size > crate::MAX_GRID_SIZE {
            return Err(ConfigError::BadGridSize);
        }
        proof {
            assert(size * size <= crate::MAX_GRID_SIZE * crate::MAX_GRID_SIZE)
                by (nonlinear_arith)
                requires
                    size <= crate::MAX_GRID_SIZE,
            ;
        }
        let total = size * size;
        if lava_map.len() != total || food_map.len() != total {
            return Err(ConfigError::BadOverlayDims);
        }
        let mut i: usize = 0;
        while i < total
            invariant
                i <= total,
                food_map@.len() == total,
                config_species_ok(organisms@),
                config_size_ok(size),
                config_dims_ok(size, lava_map@, food_map@),
                forall|j: int| 0 <= j < i ==> #[trigger] food_map@[j] < crate::SCALE,
            decreases total - i,
        {
            if food_map[i] >= crate::SCALE {
                return Err(ConfigError::BadOverlayValues);
            }
            i += 1;
        }
        let mut s: usize = 0;
        while s < sc
            invariant
                s <= sc,
                organisms@.len() == sc,
                config_species_ok(organisms@),
                config_size_ok(size),
                config_dims_ok(size, lava_map@, food_map@),
                config_food_values_ok(food_map@),
                forall|j: int| 0 <= j < s ==> (#[trigger] organisms@[j]).wf(sc as nat),
            decreases sc - s,
        {
            if organisms[s].can_eat.len() != sc || organisms[s].herbivore_fitness >= crate::SCALE {
                proof {
                    assert(!organisms@[s as int].wf(sc as nat));
                }
                return Err(ConfigError::BadTraits);
            }
            s += 1;
        }
        let mut map: Vec<i32> = Vec::new();
        let mut k: usize = 0;
        while k < total
            invariant
                k <= total,
                map@.len() == k,
                forall|j: int| 0 <= j < k ==> #[trigger] map@[j] == -1i32,
            decreases total - k,
        {
            map.push(-1);
            k += 1;
        }
        let mut populations: Vec<u64> = Vec::new();
        let mut food: Vec<u64> = Vec::new();
        let mut m: usize = 0;
        while m < sc
            invariant
                m <= sc,
                populations@.len() == m,
                food@.len() == m,
                forall|j: int| 0 <= j < m ==> #[trigger] populations@[j] == 0,
                forall|j: int| 0 <= j < m ==> #[trigger] food@[j] == 0,
            decreases sc - m,
        {
            populations.push(0);
            food.push(0);
            m += 1;
        }
        let sim = Simulation {
            organisms,
            populations,
            food,
            map,
            food_map,
            lava_map,
            random_source: SimRng::from_seed(seed),
            size,
        };
        proof {
            assert forall|v: int|
                0 <= v < sim.species_count() implies #[trigger] sim.populations@[v]
                == grid::cell_count(sim.map@, v as i32) by {
                grid::lemma_cell_count_none(sim.map@, v as i32);
            };
        }
        Ok(sim)
    }

    /// Seed the grid: every cell receives an occupant of a uniformly drawn
    /// species, and the population counters follow.  Afterwards no cell is
    /// empty.
    pub fn init(&mut self)
        requires
            old(self).wf(),
            forall|i: int| 0 <= i < old(self).map@.len() ==> #[trigger] old(self).map@[i] == -1i32,
        ensures
            final(self).wf(),
            final(self).size == old(self).size,
            final(self).organisms == old(self).organisms,
            final(self).food == old(self).food,
            final(self).food_map == old(self).food_map,
            final(self).lava_map == old(self).lava_map,
            forall|i: int|
                0 <= i < final(self).map@.len() ==> 0 <= #[trigger] final(self).map@[i]
                    < final(self).species_count(),
    {
        let ghost s0 = *self;
        let n = self.size;
        let sc = self.organisms.len();
        let mut y: usize = 0;
        while y < n
            invariant
                self.wf(),
                y <= n,
                n == self.size,
                sc == self.organisms@.len(),
                self.size == s0.size,
                self.organisms == s0.organisms,
                self.food == s0.food,
                self.food_map == s0.food_map,
                self.lava_map == s0.lava_map,
                forall|i: int| 0 <= i < y * n ==> 0 <= #[trigger] self.map@[i] < sc,
                forall|i: int| y * n <= i < self.map@.len() ==> #[trigger] self.map@[i] == -1i32,
            decreases n - y,
        {
            let mut x: usize = 0;
            while x < n
                invariant
                    self.wf(),
                    x <= n,
                    y < n,
                    n == self.size,
                    sc == self.organisms@.len(),
                    self.size == s0.size,
                    self.organisms == s0.organisms,
                    self.food == s0.food,
                    self.food_map == s0.food_map,
                    self.lava_map == s0.lava_map,
                    forall|i: int| 0 <= i < y * n + x ==> 0 <= #[trigger] self.map@[i] < sc,
                    forall|i: int|
                        y * n + x <= i < self.map@.len() ==> #[trigger] self.map@[i] == -1i32,
                decreases n - x,
            {
                let d = self.random_source.draw_below(sc as u64);
                let sp = d as i32;
                proof {
                    self.lemma_idx_bounds(y as int, x as int);
                }
                self.occupy(y, x, sp);
                x += 1;
            }
            proof {
                assert((y + 1) * n == y * n + n) by (nonlinear_arith);
            }
            y += 1;
        }
    }

    /// What a renderer should draw at (`y`, `x`): hazard terrain wins,
    /// then an occupant with its species' color, else empty ground.
    pub fn cell_view(&self, y: usize, x: usize) -> (r: CellView)
        requires
            self.wf(),
            y < self.size,
            x < self.size,
        ensures
            self.lava_map@[self.idx(y as int, x as int)] ==> r == CellView::Hazard,
            !self.lava_map@[self.idx(y as int, x as int)] && self.cell(y as int, x as int) == -1
                ==> r == CellView::Empty,
            !self.lava_map@[self.idx(y as int, x as int)] && self.cell(y as int, x as int) != -1
                ==> r == CellView::Occupied(
                self.cell(y as int, x as int),
                self.organisms@[self.cell(y as int, x as int) as int].color,
            ),
    {
        let i = self.flat(y, x);
        if self.lava_map[i] {
            CellView::Hazard
        } else {
            let c = self.map[i];
            if c == -1 {
                CellView::Empty
            } else {
                CellView::Occupied(c, self.organisms[c as usize].color)
            }
        }
    }
}

} // verus!
