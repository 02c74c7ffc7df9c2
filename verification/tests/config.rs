use toroidal_life::sim::{ConfigError, Simulation};
use toroidal_life::species::Organism;
use toroidal_life::SCALE;

fn plain_org(species_count: usize) -> Organism {
    Organism {
        name: String::from("org"),
        carnivore_fitness: SCALE / 2,
        herbivore_fitness: SCALE / 2,
        color: 0x00FF_0000,
        can_eat: vec![false; species_count],
    }
}

fn flat_overlays(size: usize) -> (Vec<bool>, Vec<u64>) {
    (vec![false; size * size], vec![0u64; size * size])
}

#[test]
fn new_rejects_zero_species() {
    let (lava, food) = flat_overlays(4);
    let r = Simulation::new(vec![], 4, lava, food, 1);
    assert!(matches!(r, Err(ConfigError::BadSpeciesCount)));
}

#[test]
fn new_rejects_zero_grid_size() {
    let (lava, food) = flat_overlays(0);
    let r = Simulation::new(vec![plain_org(1)], 0, lava, food, 1);
    assert!(matches!(r, Err(ConfigError::BadGridSize)));
}

#[test]
fn new_rejects_wrong_overlay_dims() {
    let lava = vec![false; 15];
    let food = vec![0u64; 16];
    let r = Simulation::new(vec![plain_org(1)], 4, lava, food, 1);
    assert!(matches!(r, Err(ConfigError::BadOverlayDims)));
}

#[test]
fn new_rejects_out_of_range_food_availability() {
    let (lava, mut food) = flat_overlays(4);
    food[7] = SCALE;
    let r = Simulation::new(vec![plain_org(1)], 4, lava, food, 1);
    assert!(matches!(r, Err(ConfigError::BadOverlayValues)));
}

#[test]
fn new_rejects_wrong_eligibility_length() {
    let (lava, food) = flat_overlays(4);
    let mut org = plain_org(2);
    org.can_eat = vec![false; 3];
    let r = Simulation::new(vec![org, plain_org(2)], 4, lava, food, 1);
    assert!(matches!(r, Err(ConfigError::BadTraits)));
}

#[test]
fn new_rejects_out_of_range_herbivore_fitness() {
    let (lava, food) = flat_overlays(4);
    let mut org = plain_org(1);
    org.herbivore_fitness = SCALE;
    let r = Simulation::new(vec![org], 4, lava, food, 1);
    assert!(matches!(r, Err(ConfigError::BadTraits)));
}

#[test]
fn new_starts_empty_with_zero_counters() {
    let (lava, food) = flat_overlays(3);
    let sim = Simulation::new(vec![plain_org(2), plain_org(2)], 3, lava, food, 7).unwrap();
    for y in 0..3 {
        for x in 0..3 {
            assert_eq!(sim.occupant(y, x), -1);
        }
    }
    assert_eq!(sim.populations, vec![0, 0]);
    assert_eq!(sim.food, vec![0, 0]);
}
