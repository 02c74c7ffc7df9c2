use toroidal_life::grid::{wrap_dec, wrap_inc};
use toroidal_life::sim::{CellView, Simulation};
use toroidal_life::species::Organism;
use toroidal_life::SCALE;

fn species(carn: u64, herb: u64, can_eat: Vec<bool>) -> Organism {
    Organism {
        name: String::from("s"),
        carnivore_fitness: carn,
        herbivore_fitness: herb,
        color: 0x0012_3456,
        can_eat,
    }
}

fn empty_world(orgs: Vec<Organism>, size: usize, seed: u64) -> Simulation {
    let lava = vec![false; size * size];
    let food = vec![0u64; size * size];
    Simulation::new(orgs, size, lava, food, seed).unwrap()
}

/// Recount the grid and compare with the per-species counters.
fn assert_population_consistent(sim: &Simulation) {
    let mut counts = vec![0u64; sim.organisms.len()];
    for y in 0..sim.size {
        for x in 0..sim.size {
            let c = sim.occupant(y, x);
            if c != -1 {
                counts[c as usize] += 1;
            }
        }
    }
    assert_eq!(sim.populations, counts);
}

#[test]
fn toroidal_wrap_at_all_edges() {
    assert_eq!(wrap_dec(0, 4), 3);
    assert_eq!(wrap_inc(3, 4), 0);
    assert_eq!(wrap_dec(2, 4), 1);
    assert_eq!(wrap_inc(0, 4), 1);
    assert_eq!(wrap_dec(0, 1), 0);
    assert_eq!(wrap_inc(0, 1), 0);
}

#[test]
fn init_fills_every_cell() {
    let orgs = vec![
        species(SCALE / 2, 0, vec![false, false]),
        species(SCALE / 2, 0, vec![false, false]),
    ];
    let mut sim = empty_world(orgs, 4, 42);
    sim.init();
    for y in 0..4 {
        for x in 0..4 {
            let c = sim.occupant(y, x);
            assert!(c == 0 || c == 1);
        }
    }
    assert_eq!(sim.populations[0] + sim.populations[1], 16);
    assert_population_consistent(&sim);
}

#[test]
fn forced_predation_eats_exactly_once() {
    // A guaranteed predation: the predator's fitness edge equals the whole
    // probability scale, so any draw succeeds; nobody can forage.
    let orgs = vec![
        species(SCALE, 0, vec![false, true]),
        species(0, 0, vec![false, false]),
    ];
    let mut sim = empty_world(orgs, 4, 9);
    sim.occupy(0, 0, 0);
    sim.occupy(0, 1, 1);
    sim.try_eat();
    assert_eq!(sim.occupant(0, 1), -1);
    assert_eq!(sim.occupant(0, 0), 0);
    assert_eq!(sim.food, vec![1, 0]);
    assert_eq!(sim.populations, vec![1, 0]);
    assert_population_consistent(&sim);
}

#[test]
fn predation_wraps_across_the_top_edge() {
    let orgs = vec![
        species(SCALE, 0, vec![false, true]),
        species(0, 0, vec![false, false]),
    ];
    let mut sim = empty_world(orgs, 4, 5);
    sim.occupy(0, 0, 0);
    sim.occupy(3, 0, 1); // the up-neighbor of row 0 wraps to row 3
    sim.try_eat();
    assert_eq!(sim.occupant(3, 0), -1);
    assert_eq!(sim.food, vec![1, 0]);
    assert_eq!(sim.populations, vec![1, 0]);
}

#[test]
fn at_most_one_meal_per_predator() {
    // Four guaranteed prey around one predator: exactly one is eaten, and
    // it is the one tried first (up).
    let orgs = vec![
        species(SCALE, 0, vec![false, true]),
        species(0, 0, vec![false, false]),
    ];
    let mut sim = empty_world(orgs, 4, 77);
    sim.occupy(1, 1, 0);
    sim.occupy(0, 1, 1);
    sim.occupy(1, 2, 1);
    sim.occupy(2, 1, 1);
    sim.occupy(1, 0, 1);
    sim.try_eat();
    assert_eq!(sim.food, vec![1, 0]);
    assert_eq!(sim.populations, vec![1, 3]);
    assert_eq!(sim.occupant(0, 1), -1);
    assert_eq!(sim.occupant(1, 2), 1);
    assert_eq!(sim.occupant(2, 1), 1);
    assert_eq!(sim.occupant(1, 0), 1);
    assert_population_consistent(&sim);
}

#[test]
fn predation_never_succeeds_without_fitness_edge() {
    // Equal fitness: the probability is exactly zero, whatever the draws.
    let orgs = vec![
        species(SCALE / 2, 0, vec![false, true]),
        species(SCALE / 2, 0, vec![true, false]),
    ];
    let mut sim = empty_world(orgs, 4, 3);
    for _ in 0..200 {
        assert!(!sim.can_eat(0, 1));
    }
}

#[test]
fn predation_always_succeeds_with_full_edge() {
    // A fitness edge covering the whole probability scale: the test
    // succeeds for every draw.
    let orgs = vec![
        species(SCALE, 0, vec![false, true]),
        species(0, 0, vec![false, false]),
    ];
    let mut sim = empty_world(orgs, 4, 19);
    for _ in 0..200 {
        assert!(sim.can_eat(0, 1));
    }
}

#[test]
fn hazard_occupant_always_dies() {
    let orgs = vec![species(0, 0, vec![false])];
    let size = 2;
    let mut lava = vec![false; size * size];
    lava[0] = true; // cell (0, 0)
    let food = vec![0u64; size * size];
    let mut sim = Simulation::new(orgs, size, lava, food, 11).unwrap();
    sim.occupy(0, 0, 0);
    sim.food[0] = 1_000; // plenty of food: hazard kills regardless
    sim.starve();
    assert_eq!(sim.occupant(0, 0), -1);
    assert_eq!(sim.populations, vec![0]);
    assert_eq!(sim.food, vec![1_000]); // a death consumes no food
    assert_population_consistent(&sim);
}

#[test]
fn well_fed_occupant_survives_starvation() {
    let orgs = vec![species(0, 0, vec![false])];
    let mut sim = empty_world(orgs, 2, 13);
    sim.occupy(1, 1, 0);
    sim.food[0] = 5; // food covers the population: survival is certain
    sim.starve();
    assert_eq!(sim.occupant(1, 1), 0);
    assert_eq!(sim.populations, vec![1]);
    assert_eq!(sim.food, vec![4]); // the survivor consumed one unit
}

#[test]
fn death_test_never_fires_with_enough_food() {
    let orgs = vec![species(0, 0, vec![false])];
    let mut sim = empty_world(orgs, 2, 17);
    sim.occupy(0, 0, 0);
    sim.food[0] = 1;
    for _ in 0..200 {
        assert!(!sim.die(0));
    }
}

#[test]
fn reproduction_picks_the_majority_species() {
    // One empty cell with 3 neighbors of species A and 5 of species B:
    // B wins and its population grows by exactly one.
    let orgs = vec![
        species(0, 0, vec![false, false]),
        species(0, 0, vec![false, false]),
    ];
    let mut sim = empty_world(orgs, 4, 23);
    for y in 0..4 {
        for x in 0..4 {
            if (y, x) == (1, 1) {
                continue;
            }
            let a_neighbor = y == 0 && x <= 2;
            let moore = (0..=2).contains(&y) && (0..=2).contains(&x);
            if a_neighbor {
                sim.occupy(y, x, 0);
            } else if moore {
                sim.occupy(y, x, 1);
            } else {
                sim.occupy(y, x, 0); // outside the neighborhood
            }
        }
    }
    let b_before = sim.populations[1];
    sim.reproduce();
    assert_eq!(sim.occupant(1, 1), 1);
    assert_eq!(sim.populations[1], b_before + 1);
    assert_population_consistent(&sim);
}

#[test]
fn reproduction_needs_threshold_tally() {
    // A lone occupant gives every empty cell a tally of one, below the
    // threshold of two: nothing is born anywhere.
    let orgs = vec![species(0, 0, vec![false])];
    let mut sim = empty_world(orgs, 4, 29);
    sim.occupy(0, 0, 0);
    sim.reproduce();
    assert_eq!(sim.populations, vec![1]);
    assert_eq!(sim.occupant(0, 0), 0);
}

#[test]
fn reproduction_tie_keeps_lowest_id() {
    // Two neighbors each of species A and B: the tally ties at two and
    // the lower id wins the cell.
    let orgs = vec![
        species(0, 0, vec![false, false]),
        species(0, 0, vec![false, false]),
    ];
    let mut sim = empty_world(orgs, 4, 31);
    sim.occupy(0, 0, 0);
    sim.occupy(0, 1, 0);
    sim.occupy(0, 2, 1);
    sim.occupy(1, 0, 1);
    sim.reproduce_cell(1, 1);
    assert_eq!(sim.occupant(1, 1), 0);
    assert_eq!(sim.populations, vec![3, 2]);
}

#[test]
fn reproduce_cell_leaves_occupied_cells_alone() {
    let orgs = vec![
        species(0, 0, vec![false, false]),
        species(0, 0, vec![false, false]),
    ];
    let mut sim = empty_world(orgs, 4, 37);
    sim.occupy(1, 1, 1);
    for x in 0..3 {
        sim.occupy(0, x, 0);
    }
    sim.reproduce_cell(1, 1);
    assert_eq!(sim.occupant(1, 1), 1);
    assert_eq!(sim.populations, vec![3, 1]);
}

#[test]
fn cell_view_reports_hazard_over_occupant() {
    let orgs = vec![species(0, 0, vec![false])];
    let size = 2;
    let mut lava = vec![false; size * size];
    lava[0] = true;
    let food = vec![0u64; size * size];
    let mut sim = Simulation::new(orgs, size, lava, food, 41).unwrap();
    sim.occupy(0, 0, 0);
    sim.occupy(0, 1, 0);
    assert_eq!(sim.cell_view(0, 0), CellView::Hazard);
    assert_eq!(sim.cell_view(0, 1), CellView::Occupied(0, 0x0012_3456));
    assert_eq!(sim.cell_view(1, 0), CellView::Empty);
}
