use ecosim::brain::Brain;
use ecosim::simulation::Simulation;

const W: i64 = 800_000;
const H: i64 = 600_000;

fn zero_brain() -> Brain {
    Brain {
        weights_input: vec![0; 88],
        weights_output: vec![0; 24],
        biases: vec![0; 11],
        last_inputs: vec![0; 11],
        last_hidden: vec![0; 8],
        last_outputs: vec![0; 3],
    }
}

#[test]
fn new_world_has_standard_population() {
    let sim = Simulation::new(W, H, 1);
    assert_eq!(sim.positions.len(), 800);
    assert_eq!(sim.food.len(), 100);
    assert_eq!(sim.predators.len(), 5);
    assert_eq!(sim.rocks.len(), 15);
    assert_eq!(sim.mud.len(), 10);
    assert_eq!(sim.get_avg_energy(), 100_000);
    let stats = sim.get_tribe_stats();
    assert_eq!(stats.len(), 4);
    assert_eq!(stats.iter().map(|&c| c as i64).sum::<i64>(), 800);
    for &(x, y) in &sim.positions {
        assert!((0..=W).contains(&x) && (0..=H).contains(&y));
    }
    for &(_, _, r) in &sim.rocks {
        assert!((20_000..50_000).contains(&r));
    }
    for &(_, _, r) in &sim.mud {
        assert!((40_000..100_000).contains(&r));
    }
}

#[test]
fn ticks_keep_agents_in_bounds_and_alive() {
    let mut sim = Simulation::new(W, H, 2);
    for _ in 0..3 {
        sim.step();
        for &(x, y) in &sim.positions {
            assert!((0..=W).contains(&x) && (0..=H).contains(&y));
        }
        for &(x, y) in &sim.predators {
            assert!((0..=W).contains(&x) && (0..=H).contains(&y));
        }
        for &e in &sim.energies {
            assert!(e > 0 && e <= 200_000);
        }
    }
}

#[test]
fn same_seed_reproduces_a_run() {
    let mut a = Simulation::new(W, H, 42);
    let mut b = Simulation::new(W, H, 42);
    for _ in 0..2 {
        a.step();
        b.step();
    }
    assert_eq!(a.positions, b.positions);
    assert_eq!(a.energies, b.energies);
    assert_eq!(a.get_avg_energy(), b.get_avg_energy());
}

#[test]
fn feeding_gains_food_energy_and_respawns_the_food() {
    let mut sim = Simulation::empty(W, H, 11);
    sim.add_agent(400_000, 300_000, 0, 100_000, 0, zero_brain());
    sim.add_food(400_000, 300_000);
    sim.step();
    // A silent controller moves at half throttle: speed 1.5, move cost
    // 1.5 * 0.2 = 0.3, then the meal adds 40.
    assert_eq!(sim.energies[0], 139_700);
    assert_ne!(sim.food[0], (400_000, 300_000));
    let (fx, fy) = sim.food[0];
    assert!((0..=W).contains(&fx) && (0..=H).contains(&fy));
}

#[test]
fn feeding_is_capped_at_the_energy_cap() {
    let mut sim = Simulation::empty(W, H, 12);
    sim.add_agent(400_000, 300_000, 0, 199_000, 0, zero_brain());
    sim.add_food(400_000, 300_000);
    sim.step();
    assert_eq!(sim.energies[0], 200_000);
}

#[test]
fn dead_slot_without_parents_is_reborn_fresh() {
    let mut sim = Simulation::empty(W, H, 13);
    sim.add_agent(100_000, 100_000, 0, -1_000, 3, zero_brain());
    sim.step();
    // The only other candidate is the slot itself, so the rebirth is a
    // fresh random agent at full starting energy.
    assert_eq!(sim.energies[0], 100_000);
    assert_eq!(sim.voices[0], 0);
    let (x, y) = sim.positions[0];
    assert!((0..=W).contains(&x) && (0..=H).contains(&y));
}

#[test]
fn dead_slot_with_rich_parents_is_bred() {
    let mut sim = Simulation::empty(W, H, 14);
    sim.add_agent(100_000, 100_000, 0, -1_000, 0, zero_brain());
    sim.add_agent(600_000, 100_000, 0, 150_000, 2, zero_brain());
    sim.add_agent(600_000, 500_000, 0, 150_000, 2, zero_brain());
    sim.step();
    // The offspring starts at 60 energy with the first parent's tribe;
    // each parent pays 20 and then spends its own tick's move cost.
    assert_eq!(sim.energies[0], 60_000);
    assert_eq!(sim.tribes[0], 2);
    assert_eq!(sim.energies[1], 129_700);
    assert_eq!(sim.energies[2], 129_700);
}

#[test]
fn warrior_defeats_predator_and_pays_battle_cost() {
    let mut sim = Simulation::empty(W, H, 15);
    sim.add_agent(400_000, 300_000, 0, 200_000, 0, zero_brain());
    sim.add_predator(405_000, 300_000);
    sim.step();
    // 200 - 0.3 move cost - 50 battle cost.
    assert_eq!(sim.energies[0], 149_700);
    assert_ne!(sim.predators[0], (405_000, 300_000));
}

#[test]
fn weak_agent_near_predator_dies_and_is_reborn() {
    let mut sim = Simulation::empty(W, H, 16);
    sim.add_agent(400_000, 300_000, 0, 50_000, 1, zero_brain());
    sim.add_predator(405_000, 300_000);
    sim.step();
    // Killed by the predator, then the slot is reborn fresh (there are
    // no other agents to breed from): never a dead slot after a tick.
    assert_eq!(sim.energies[0], 100_000);
}

#[test]
fn mud_slows_and_triples_the_cost() {
    let mut sim = Simulation::empty(W, H, 17);
    sim.add_agent(400_000, 300_000, 0, 100_000, 0, zero_brain());
    sim.add_mud(400_000, 300_000, 50_000);
    sim.step();
    // Speed 1.5 * 0.3 = 0.45, cost 0.45 * 0.2 * 3 = 0.27.
    assert_eq!(sim.energies[0], 100_000 - 270);
}

#[test]
fn rock_blocks_movement() {
    let mut sim = Simulation::empty(W, H, 18);
    sim.add_agent(400_000, 300_000, 0, 100_000, 0, zero_brain());
    // A rock dead ahead: the candidate position lands inside it and the
    // move is rejected wholesale.
    sim.add_rock(403_000, 300_000, 20_000);
    sim.step();
    assert_eq!(sim.positions[0], (400_000, 300_000));
}

#[test]
fn clamp_keeps_agents_inside_after_resize() {
    let mut sim = Simulation::empty(W, H, 19);
    sim.add_agent(700_000, 500_000, 0, 100_000, 0, zero_brain());
    sim.resize(100_000, 100_000);
    sim.step();
    let (x, y) = sim.positions[0];
    assert!((0..=100_000).contains(&x));
    assert!((0..=100_000).contains(&y));
}

#[test]
fn food_count_grows_and_shrinks() {
    let mut sim = Simulation::new(W, H, 20);
    let before = sim.food.clone();
    sim.set_food_count(150);
    assert_eq!(sim.food.len(), 150);
    assert_eq!(&sim.food[..100], &before[..]);
    for &(x, y) in &sim.food[100..] {
        assert!((0..=W).contains(&x) && (0..=H).contains(&y));
    }
    sim.set_food_count(30);
    assert_eq!(sim.food.len(), 30);
    assert_eq!(&sim.food[..30], &before[..30]);
}

#[test]
fn zoom_is_clamped_and_pan_divides_by_zoom() {
    let mut sim = Simulation::empty(W, H, 21);
    sim.pan(500, -300);
    assert_eq!(sim.view_x, 500);
    assert_eq!(sim.view_y, -300);
    sim.zoom_at(10_000);
    assert_eq!(sim.zoom, 5000);
    sim.zoom_at(1);
    assert_eq!(sim.zoom, 100);
    sim.pan(500, 0);
    // 500 / 0.1 = 5000 more view units.
    assert_eq!(sim.view_x, 5500);
}

#[test]
fn average_energy_is_truncated_mean() {
    let mut sim = Simulation::empty(W, H, 22);
    assert_eq!(sim.get_avg_energy(), 0);
    sim.add_agent(0, 0, 0, 100_000, 0, zero_brain());
    sim.add_agent(0, 0, 0, 50_000, 0, zero_brain());
    assert_eq!(sim.get_avg_energy(), 75_000);
    sim.add_agent(0, 0, 0, -1_000, 0, zero_brain());
    assert_eq!(sim.get_avg_energy(), 49_666);
}

#[test]
fn tribe_stats_count_each_tag() {
    let mut sim = Simulation::empty(W, H, 23);
    sim.add_agent(0, 0, 0, 100_000, 0, zero_brain());
    sim.add_agent(0, 0, 0, 100_000, 1, zero_brain());
    sim.add_agent(0, 0, 0, 100_000, 1, zero_brain());
    sim.add_agent(0, 0, 0, 100_000, 3, zero_brain());
    let stats = sim.get_tribe_stats();
    assert_eq!(stats, vec![1, 2, 0, 1]);
}

#[test]
fn tick_rebuilds_the_index_from_living_agents() {
    let mut sim = Simulation::empty(W, H, 24);
    sim.add_agent(400_000, 300_000, 0, 100_000, 0, zero_brain());
    sim.add_agent(100_000, 100_000, 0, -500, 1, zero_brain());
    sim.step();
    // Slot 0 was alive at tick start and is indexed at its old position;
    // slot 1 was dead when the index was rebuilt.
    assert!(sim.grid.query(400_000, 300_000).contains(&0));
    assert!(!sim.grid.query(100_000, 100_000).contains(&1));
}

#[test]
fn setters_take_effect() {
    let mut sim = Simulation::empty(W, H, 25);
    sim.set_mutation_rate(500);
    sim.set_predator_speed(3_000);
    sim.set_reproduction_threshold(80_000);
    assert_eq!(sim.mutation_rate, 500);
    assert_eq!(sim.predator_speed, 3_000);
    assert_eq!(sim.reproduction_threshold, 80_000);
}

#[test]
fn degenerate_world_stays_at_the_origin() {
    let mut sim = Simulation::empty(0, 0, 26);
    sim.add_agent(0, 0, 0, 100_000, 0, zero_brain());
    sim.step();
    assert_eq!(sim.positions[0], (0, 0));
    assert!(sim.energies[0] > 0);
}

#[test]
fn nearest_food_ties_go_to_the_earliest_slot() {
    let mut sim = Simulation::empty(W, H, 27);
    sim.add_agent(400_000, 300_000, 0, 100_000, 0, zero_brain());
    // Two food items at the same distance: the earlier slot is eaten.
    sim.add_food(399_000, 300_000);
    sim.add_food(401_000, 300_000);
    sim.step();
    assert_ne!(sim.food[0], (399_000, 300_000));
    assert_eq!(sim.food[1], (401_000, 300_000));
}

#[test]
fn predator_steps_toward_nearest_living_agent() {
    let mut sim = Simulation::empty(W, H, 28);
    sim.add_agent(400_000, 300_000, 0, 100_000, 0, zero_brain());
    sim.add_predator(500_000, 300_000);
    sim.step();
    // Distance 100 at speed 2.2 straight along the x axis.
    assert_eq!(sim.predators[0], (497_800, 300_000));
}

#[test]
fn predators_push_each_other_apart() {
    let mut sim = Simulation::empty(W, H, 29);
    sim.add_agent(400_000, 300_000, 0, 100_000, 0, zero_brain());
    sim.add_predator(500_000, 300_000);
    sim.add_predator(520_000, 300_000);
    sim.step();
    // The first predator chases at 2.2 and is pushed 0.8 further away
    // from its neighbor 20 units behind it.
    assert_eq!(sim.predators[0], (497_000, 300_000));
}

#[test]
fn rock_blocks_a_predator() {
    let mut sim = Simulation::empty(W, H, 30);
    sim.add_agent(400_000, 300_000, 0, 100_000, 0, zero_brain());
    sim.add_predator(500_000, 300_000);
    sim.add_rock(495_000, 300_000, 10_000);
    sim.step();
    // The candidate position lands inside the rock, so the predator
    // stays in place rather than sliding along it.
    assert_eq!(sim.predators[0], (500_000, 300_000));
}

#[test]
fn bred_offspring_spawns_beside_a_parent() {
    let mut sim = Simulation::empty(W, H, 31);
    sim.add_agent(100_000, 100_000, 0, -1_000, 0, zero_brain());
    sim.add_agent(600_000, 100_000, 0, 150_000, 2, zero_brain());
    sim.add_agent(600_000, 500_000, 0, 150_000, 2, zero_brain());
    sim.step();
    assert_eq!(sim.energies[0], 60_000);
    let (x, y) = sim.positions[0];
    assert!((x - 600_000).abs() <= 5_000);
    assert!((y - 100_000).abs() <= 5_000 || (y - 500_000).abs() <= 5_000);
}
