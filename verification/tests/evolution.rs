use toroidal_life::sim::Simulation;
use toroidal_life::species::Organism;

fn animal(carn: u64) -> Organism {
    Organism {
        name: String::from("a"),
        carnivore_fitness: carn,
        herbivore_fitness: 0,
        color: 7,
        can_eat: vec![false; 3],
    }
}

fn loner(carn: u64) -> Organism {
    Organism {
        name: String::from("a"),
        carnivore_fitness: carn,
        herbivore_fitness: 0,
        color: 7,
        can_eat: vec![false],
    }
}

fn bare_world(orgs: Vec<Organism>, size: usize, seed: u64) -> Simulation {
    let lava = vec![false; size * size];
    let food = vec![0u64; size * size];
    Simulation::new(orgs, size, lava, food, seed).unwrap()
}

#[test]
fn pressure_halves_max_and_doubles_min() {
    let mut sim = bare_world(vec![animal(100), animal(40), animal(60)], 4, 1);
    // populations: species 0 gets 3 cells, species 1 one, species 2 two
    sim.occupy(0, 0, 0);
    sim.occupy(0, 1, 0);
    sim.occupy(0, 2, 0);
    sim.occupy(1, 0, 1);
    sim.occupy(2, 0, 2);
    sim.occupy(2, 1, 2);
    sim.mutate();
    assert_eq!(sim.organisms[0].carnivore_fitness, 50); // halved once
    assert_eq!(sim.organisms[1].carnivore_fitness, 80); // doubled once
    assert_eq!(sim.organisms[2].carnivore_fitness, 60); // untouched
    assert_eq!(sim.populations, vec![3, 1, 2]);
    for org in sim.organisms.iter() {
        assert_eq!(org.herbivore_fitness, 0);
        assert_eq!(org.color, 7);
        assert_eq!(org.can_eat.len(), 3);
    }
}

#[test]
fn pressure_ties_pick_lowest_id_twice() {
    // All populations equal: species 0 is both extremes, halved then
    // doubled in that order.
    let mut sim = bare_world(vec![animal(101), animal(33), animal(44)], 4, 2);
    sim.mutate();
    assert_eq!(sim.organisms[0].carnivore_fitness, 100); // 101 / 2 * 2
    assert_eq!(sim.organisms[1].carnivore_fitness, 33);
    assert_eq!(sim.organisms[2].carnivore_fitness, 44);
}

#[test]
fn eligibility_reroll_keeps_other_traits() {
    let mut sim = bare_world(vec![animal(9), animal(9), animal(9)], 4, 3);
    let mut org = animal(123);
    for _ in 0..100 {
        org.change_can_eat(&mut sim.random_source);
        assert_eq!(org.carnivore_fitness, 123);
        assert_eq!(org.herbivore_fitness, 0);
        assert_eq!(org.color, 7);
        assert_eq!(org.name, "a");
        assert_eq!(org.can_eat.len(), 3);
    }
}

#[test]
fn hazard_decay_never_grows() {
    let size = 8;
    let lava = vec![true; size * size];
    let food = vec![0u64; size * size];
    let mut sim = Simulation::new(vec![loner(1)], size, lava, food, 4).unwrap();
    let mut previous = size * size;
    for _ in 0..50 {
        sim.decay_lava();
        let now = sim.lava_map.iter().filter(|&&h| h).count();
        assert!(now <= previous);
        previous = now;
    }
}

#[test]
fn permutation_visits_each_index_once() {
    let mut sim = bare_world(vec![loner(1)], 2, 5);
    for n in [1usize, 2, 7, 100] {
        let mut order = sim.random_source.permutation(n);
        order.sort();
        let expected: Vec<usize> = (0..n).collect();
        assert_eq!(order, expected);
    }
}

#[test]
fn full_tick_keeps_populations_consistent() {
    let orgs = vec![
        Organism {
            name: String::from("a"),
            carnivore_fitness: 800_000,
            herbivore_fitness: 300_000,
            color: 1,
            can_eat: vec![false, true, true],
        },
        Organism {
            name: String::from("b"),
            carnivore_fitness: 500_000,
            herbivore_fitness: 500_000,
            color: 2,
            can_eat: vec![true, false, true],
        },
        Organism {
            name: String::from("c"),
            carnivore_fitness: 200_000,
            herbivore_fitness: 900_000,
            color: 3,
            can_eat: vec![true, true, false],
        },
    ];
    let size = 8;
    let mut lava = vec![false; size * size];
    lava[10] = true;
    lava[35] = true;
    let food: Vec<u64> = (0..size * size).map(|i| (i as u64 * 13_000) % 1_000_000).collect();
    let mut sim = Simulation::new(orgs, size, lava, food, 2024).unwrap();
    sim.init();
    for tick in 0..20 {
        sim.run_simulation_once(tick % 5 == 0);
        let mut counts = vec![0u64; 3];
        let mut occupied = 0u64;
        for y in 0..size {
            for x in 0..size {
                let c = sim.occupant(y, x);
                if c != -1 {
                    counts[c as usize] += 1;
                    occupied += 1;
                }
            }
        }
        assert_eq!(sim.populations, counts);
        assert!(occupied <= (size * size) as u64);
    }
}
