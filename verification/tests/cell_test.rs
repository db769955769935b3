use cell_evolution::cell::{
    axis_distance, birth_succeeds, bucket, bucket_key, in_reach, is_inside_margin, step_along,
    turned, Cell, Color,
};
use cell_evolution::food::{nearest_index, Food};
use cell_evolution::genes::Genes;
use cell_evolution::randoms::{random, RandomStream};
use cell_evolution::simulator::SimulatorConfig;
use std::collections::HashMap;

fn baseline() -> Genes {
    Genes {
        size: 30_000_000,
        flagellum_size: 5_000_000,
        stomach_size: 10_000_000,
        steps_until_child_born: 200_000_000,
    }
}

fn cell_at(x: u32, y: u32) -> Cell {
    Cell {
        x,
        y,
        degrees: 0,
        color: Color { red: 60, green: 10, blue: 120 },
        genes: baseline(),
        child_genes: None,
        alive: true,
        display_seed: 0,
        reproduction_cooldown: 0,
        remaining_steps_until_child_born: 0,
        stomach_amount: 5_000_000,
        rotation_chance: 0,
    }
}

fn grid(columns: usize, rows: usize, spacing: u32) -> Vec<Vec<Option<Food>>> {
    (0..columns)
        .map(|i| {
            (0..rows)
                .map(|j| Some(Food::new(i as u32 * spacing + spacing / 2, j as u32 * spacing + spacing / 2)))
                .collect()
        })
        .collect()
}

#[test]
fn new_cell_starts_alive_with_the_birth_reserve() {
    let config = SimulatorConfig::new();
    let mut rng = RandomStream::new(9);
    let cell = Cell::new(baseline(), 100, 200, &config, &mut rng);
    assert_eq!((cell.x, cell.y), (100, 200));
    assert!(cell.alive);
    assert!(cell.degrees < 360);
    assert_eq!(cell.stomach_amount, 5_000_000);
    assert_eq!(cell.rotation_chance, 0);
    assert_eq!(cell.remaining_steps_until_child_born, 0);
    assert_eq!(cell.reproduction_cooldown, 200);
    assert_eq!(cell.child_genes, None);
    assert_eq!(cell.genes, baseline());
    assert!(0 <= cell.display_seed && cell.display_seed < 1_000_000);
    assert!(50 <= cell.color.red && cell.color.red < 150);
    assert!(cell.color.green < 100);
    assert!(100 <= cell.color.blue && cell.color.blue < 200);
}

#[test]
fn new_cell_takes_five_draws_in_order() {
    let config = SimulatorConfig::new();
    let mut rng = RandomStream::new(9);
    let mut reference = RandomStream::new(9);
    let cell = Cell::new(baseline(), 1, 2, &config, &mut rng);
    assert_eq!(cell.degrees, random(&mut reference, 360));
    assert_eq!(cell.display_seed, random(&mut reference, 1_000_000) as i64);
    assert_eq!(cell.color.red, 50 + random(&mut reference, 100));
    assert_eq!(cell.color.green, random(&mut reference, 100));
    assert_eq!(cell.color.blue, 100 + random(&mut reference, 100));
    assert_eq!(random(&mut rng, 1000), random(&mut reference, 1000));
}

#[test]
fn random_position_keeps_the_margin() {
    let config = SimulatorConfig::new();
    let mut rng = RandomStream::new(9);
    for _ in 0..1000 {
        let pos = Cell::get_random_pos_in_bounds(&config, &mut rng);
        assert!(20 <= pos && pos < 1580);
        let pos = Cell::random_pos_in_extent(100, 40, &mut rng);
        assert!(20 <= pos && pos < 80);
    }
}

#[test]
fn derived_quantities_of_the_baseline() {
    let cell = cell_at(100, 100);
    // 5 * 1.5 + 10 * 0.25
    assert_eq!(cell.get_speed(), 10_000_000);
    // 30 * 0.02 + 5
    assert_eq!(cell.get_eating_distance(), 5_600_000);
    // 0.007 * 10 + 0.0006 * 30
    assert_eq!(cell.get_energy_usage(), 88_000);
    assert_eq!(cell.get_fullness(), Some(500_000));
}

#[test]
fn fullness_of_a_cell_without_stomach_is_nothing() {
    let mut cell = cell_at(100, 100);
    cell.genes.stomach_size = 0;
    assert_eq!(cell.get_fullness(), None);
}

#[test]
fn eating_adds_half_a_unit_up_to_the_stomach() {
    let mut cell = cell_at(100, 100);
    cell.eat_food();
    assert_eq!(cell.stomach_amount, 5_500_000);
    cell.stomach_amount = 9_800_000;
    cell.eat_food();
    assert_eq!(cell.stomach_amount, 10_000_000);
    cell.eat_food();
    assert_eq!(cell.stomach_amount, 10_000_000);
}

#[test]
fn spending_more_than_the_reserve_kills() {
    let mut cell = cell_at(100, 100);
    cell.take_food(5_000_000);
    assert_eq!(cell.stomach_amount, 0);
    assert!(cell.alive);
    cell.take_food(1);
    assert_eq!(cell.stomach_amount, -1);
    assert!(!cell.alive);
    cell.eat_food();
    assert!(!cell.alive);
}

#[test]
fn die_marks_the_cell_dead() {
    let mut cell = cell_at(100, 100);
    cell.die();
    assert!(!cell.alive);
    assert_eq!(cell.stomach_amount, 5_000_000);
}

#[test]
fn movement_follows_the_heading() {
    let config = SimulatorConfig::new();
    let mut rng = RandomStream::new(1);
    let mut cell = cell_at(800, 800);
    cell.degrees = 0;
    cell.rotation_chance = -1_000_000;
    cell.simulate_movement(&config, &mut rng);
    assert_eq!((cell.x, cell.y), (810, 800));
    assert_eq!(cell.degrees, 0);
    assert_eq!(cell.rotation_chance, -999_400);

    cell.degrees = 90;
    cell.simulate_movement(&config, &mut rng);
    assert_eq!((cell.x, cell.y), (810, 810));

    cell.degrees = 180;
    cell.simulate_movement(&config, &mut rng);
    assert_eq!((cell.x, cell.y), (800, 810));

    cell.degrees = 210;
    cell.simulate_movement(&config, &mut rng);
    // cos(210) * 10 = -8.66, sin(210) * 10 = -5
    assert_eq!((cell.x, cell.y), (792, 805));
}

#[test]
fn movement_against_a_wall_turns_instead() {
    let config = SimulatorConfig::new();
    let mut rng = RandomStream::new(1);
    let mut reference = RandomStream::new(1);
    let mut cell = cell_at(25, 800);
    cell.degrees = 180;
    cell.rotation_chance = -1_000_000;
    cell.simulate_movement(&config, &mut rng);
    assert_eq!((cell.x, cell.y), (25, 800));
    assert_eq!(cell.degrees, (180 + 60 + random(&mut reference, 70)) % 360);
    assert!(240 <= cell.degrees && cell.degrees < 310);
}

#[test]
fn movement_on_a_field_without_interior_never_moves() {
    let mut config = SimulatorConfig::new();
    config.width = 10;
    config.height = 10;
    let mut rng = RandomStream::new(1);
    let mut cell = cell_at(5, 5);
    cell.degrees = 45;
    for _ in 0..50 {
        cell.simulate_movement(&config, &mut rng);
        assert_eq!((cell.x, cell.y), (5, 5));
    }
}

#[test]
fn certain_rotation_resets_the_chance() {
    let config = SimulatorConfig::new();
    let mut rng = RandomStream::new(1);
    let mut cell = cell_at(800, 800);
    cell.rotation_chance = 1_000_000;
    cell.simulate_movement(&config, &mut rng);
    assert_eq!(cell.rotation_chance, 0);
    assert!(cell.degrees < 360);
}

#[test]
fn cooldown_counts_down_to_zero() {
    let config = SimulatorConfig::new();
    let mut rng = RandomStream::new(1);
    let mut cell = cell_at(800, 800);
    cell.reproduction_cooldown = 2;
    assert!(cell.simulate_reproduction(&config, &mut rng).is_none());
    assert_eq!(cell.reproduction_cooldown, 1);
    cell.simulate_reproduction(&config, &mut rng);
    cell.simulate_reproduction(&config, &mut rng);
    assert_eq!(cell.reproduction_cooldown, 0);
    assert_eq!(cell.stomach_amount, 5_000_000);
}

#[test]
fn gestation_costs_and_ends_in_a_birth() {
    let config = SimulatorConfig::new();
    let mut rng = RandomStream::new(1);
    let mut cell = cell_at(800, 800);
    let other = baseline();
    cell.start_reproduction(&other, &config, &mut rng);
    assert_eq!(cell.remaining_steps_until_child_born, 200);
    assert_eq!(cell.reproduction_cooldown, 200);
    let carried = cell.child_genes;
    assert!(carried.is_some());
    for _ in 0..199 {
        assert!(cell.simulate_reproduction(&config, &mut rng).is_none());
    }
    assert_eq!(cell.remaining_steps_until_child_born, 1);
    assert_eq!(cell.stomach_amount, 5_000_000 - 199 * 10_000);
    // with a gestation of 200 ticks the birth chance exceeds 1
    let child = cell.simulate_reproduction(&config, &mut rng).unwrap();
    assert_eq!(cell.remaining_steps_until_child_born, 0);
    assert_eq!(cell.stomach_amount, 5_000_000 - 200 * 10_000 - 1_000_000);
    assert_eq!(cell.child_genes, None);
    assert_eq!(Some(child.genes), carried);
    assert_eq!((child.x, child.y), (cell.x, cell.y));
    assert!(child.alive);
    assert_eq!(child.stomach_amount, 5_000_000);
    assert_eq!(child.reproduction_cooldown, 200);
}

#[test]
fn reproduce_without_carried_genes_bears_nothing() {
    let config = SimulatorConfig::new();
    let mut rng = RandomStream::new(1);
    let mut cell = cell_at(800, 800);
    assert!(cell.reproduce(&config, &mut rng).is_none());
    assert_eq!(cell.stomach_amount, 4_000_000);
}

#[test]
fn birth_chance_grows_with_the_gestation() {
    // 0.18 * cbrt(200) = 1.05: always
    assert!(birth_succeeds(999_999, 200_000_000));
    // 0.18 * cbrt(8) = 0.36
    assert!(birth_succeeds(359_999, 8_000_000));
    assert!(!birth_succeeds(360_000, 8_000_000));
    assert!(!birth_succeeds(360_001, 8_000_000));
    // 0.18 * cbrt(1) = 0.18
    assert!(birth_succeeds(179_999, 1_000_000));
    assert!(!birth_succeeds(180_000, 1_000_000));
    assert!(!birth_succeeds(0, 0));
    assert!(!birth_succeeds(0, -5_000_000));
}

#[test]
fn gestation_length_drops_the_fraction() {
    let config = SimulatorConfig::new();
    let mut rng = RandomStream::new(1);
    let mut cell = cell_at(800, 800);
    cell.genes.steps_until_child_born = 3_999_999;
    cell.start_reproduction(&baseline(), &config, &mut rng);
    assert_eq!(cell.remaining_steps_until_child_born, 3);
    cell.genes.steps_until_child_born = -3_000_000;
    cell.start_reproduction(&baseline(), &config, &mut rng);
    assert_eq!(cell.remaining_steps_until_child_born, 0);
    cell.genes.steps_until_child_born = i64::MAX;
    cell.start_reproduction(&baseline(), &config, &mut rng);
    assert_eq!(cell.remaining_steps_until_child_born, u32::MAX);
}

#[test]
fn step_moves_then_spends_energy() {
    let config = SimulatorConfig::new();
    let mut rng = RandomStream::new(1);
    let mut cell = cell_at(800, 800);
    cell.rotation_chance = -1_000_000;
    cell.reproduction_cooldown = 5;
    let child = cell.simulate_step(&config, &mut rng);
    assert!(child.is_none());
    assert_eq!((cell.x, cell.y), (810, 800));
    assert_eq!(cell.reproduction_cooldown, 4);
    assert_eq!(cell.stomach_amount, 5_000_000 - 88_000);
    assert!(cell.alive);
}

#[test]
fn step_kills_a_starving_cell() {
    let config = SimulatorConfig::new();
    let mut rng = RandomStream::new(1);
    let mut cell = cell_at(800, 800);
    cell.stomach_amount = 87_999;
    cell.simulate_step(&config, &mut rng);
    assert!(!cell.alive);
    assert_eq!(cell.stomach_amount, -1);
}

#[test]
fn nearest_index_rounds_to_the_grid() {
    assert_eq!(nearest_index(0, 40), 0);
    assert_eq!(nearest_index(19, 40), 0);
    assert_eq!(nearest_index(20, 40), 0);
    assert_eq!(nearest_index(59, 40), 0);
    assert_eq!(nearest_index(60, 40), 1);
    assert_eq!(nearest_index(99, 40), 1);
    assert_eq!(nearest_index(100, 40), 2);
    assert_eq!(nearest_index(u32::MAX, 1), u32::MAX as u64 - 1);
    for x in 40..2000u32 {
        let expected = ((x as f64 - 40.0) / 40.0).round() as u64;
        assert_eq!(nearest_index(x, 40), expected);
    }
}

#[test]
fn food_at_the_position_of_the_cell_is_eaten() {
    let mut food = grid(5, 5, 40);
    let mut cell = cell_at(100, 60);
    assert!(cell.find_food_and_eat(&mut food, 40));
    assert_eq!(cell.stomach_amount, 5_500_000);
    assert_eq!(food[2][1], None);
    let left: usize = food.iter().map(|line| line.iter().filter(|f| f.is_some()).count()).sum();
    assert_eq!(left, 24);
    // the place stays empty: nothing is eaten there again
    assert!(!cell.find_food_and_eat(&mut food, 40));
    assert_eq!(cell.stomach_amount, 5_500_000);
}

#[test]
fn food_is_eaten_only_within_the_eating_distance() {
    // the eating distance of the baseline is 5.6: a sum of 31 is within, 32 is not
    let mut food = grid(5, 5, 40);
    let mut cell = cell_at(100 + 31, 60);
    assert!(cell.find_food_and_eat(&mut food, 40));
    let mut food = grid(5, 5, 40);
    let mut cell = cell_at(100 + 16, 60 + 15);
    assert!(cell.find_food_and_eat(&mut food, 40));
    let mut food = grid(5, 5, 40);
    let mut cell = cell_at(100 + 32, 60);
    assert!(!cell.find_food_and_eat(&mut food, 40));
    assert_eq!(cell.stomach_amount, 5_000_000);
    assert_eq!(food, grid(5, 5, 40));
    let mut cell = cell_at(100 + 16, 60 + 16);
    assert!(!cell.find_food_and_eat(&mut food, 40));
}

#[test]
fn lookup_outside_the_grid_finds_nothing() {
    let mut food = grid(5, 5, 40);
    let mut cell = cell_at(5000, 60);
    assert!(!cell.find_food_and_eat(&mut food, 40));
    let mut cell = cell_at(60, 5000);
    assert!(!cell.find_food_and_eat(&mut food, 40));
    let mut cell = cell_at(u32::MAX, u32::MAX);
    assert!(!cell.find_food_and_eat(&mut food, 40));
    let mut cell = cell_at(60, 60);
    assert!(!cell.find_food_and_eat(&mut food, 0));
    let mut empty: Vec<Vec<Option<Food>>> = Vec::new();
    assert!(!cell.find_food_and_eat(&mut empty, 40));
    assert_eq!(food, grid(5, 5, 40));
}

#[test]
fn cell_without_reach_eats_nothing() {
    let mut food = grid(5, 5, 40);
    let mut cell = cell_at(100, 60);
    cell.genes.size = 0;
    cell.genes.flagellum_size = 0;
    assert!(!cell.find_food_and_eat(&mut food, 40));
    cell.genes.flagellum_size = -5_000_000;
    assert!(!cell.find_food_and_eat(&mut food, 40));
}

#[test]
fn buckets_are_one_mating_radius_wide() {
    assert_eq!(bucket(0), u32::MAX);
    assert_eq!(bucket(1), 0);
    assert_eq!(bucket(49), 0);
    assert_eq!(bucket(50), 0);
    assert_eq!(bucket(99), 0);
    assert_eq!(bucket(100), 1);
    assert_eq!(bucket(149), 1);
    assert_eq!(bucket(150), 2);
    assert_eq!(bucket_key(100, 150), (1u64 << 32) + 2);
    assert_ne!(bucket_key(100, 150), bucket_key(150, 100));
}

#[test]
fn first_cell_in_a_bucket_registers_and_the_second_finds_it() {
    let config = SimulatorConfig::new();
    let mut locations: HashMap<u64, usize> = HashMap::new();
    let mut first = cell_at(100, 100);
    let mut second = cell_at(149, 101);
    let mut third = cell_at(120, 120);
    assert_eq!(first.find_mate_and_reproduce(0, &mut locations, &config), None);
    assert_eq!(first.reproduction_cooldown, 0);
    assert_eq!(locations.len(), 1);
    assert_eq!(second.find_mate_and_reproduce(1, &mut locations, &config), Some(0));
    assert_eq!(second.reproduction_cooldown, 200);
    assert_eq!(locations.len(), 1);
    // the registration stays for the cells that follow
    assert_eq!(third.find_mate_and_reproduce(2, &mut locations, &config), Some(0));
    assert_eq!(locations.get(&bucket_key(100, 100)), Some(&0));
}

#[test]
fn cell_on_cooldown_does_not_look_for_a_mate() {
    let config = SimulatorConfig::new();
    let mut locations: HashMap<u64, usize> = HashMap::new();
    let mut first = cell_at(100, 100);
    first.reproduction_cooldown = 3;
    assert_eq!(first.find_mate_and_reproduce(0, &mut locations, &config), None);
    assert!(locations.is_empty());
    assert_eq!(first.reproduction_cooldown, 3);
}

#[test]
fn cells_in_different_buckets_do_not_meet() {
    let config = SimulatorConfig::new();
    let mut locations: HashMap<u64, usize> = HashMap::new();
    let mut first = cell_at(100, 100);
    let mut second = cell_at(150, 100);
    assert_eq!(first.find_mate_and_reproduce(0, &mut locations, &config), None);
    assert_eq!(second.find_mate_and_reproduce(1, &mut locations, &config), None);
    assert_eq!(locations.len(), 2);
}

#[test]
fn step_along_drops_the_fraction() {
    // cos(30) * 10 = 8.66
    assert_eq!(step_along(866_025, 10_000_000), 8);
    assert_eq!(step_along(-866_025, 10_000_000), -8);
    assert_eq!(step_along(1_000_000, 10_000_000), 10);
    assert_eq!(step_along(0, 10_000_000), 0);
    assert_eq!(step_along(500_000, 1_999_999), 0);
    assert_eq!(step_along(1_000_000, -2_500_000), -2);
}

#[test]
fn turned_adds_sixty_degrees_and_the_draw() {
    assert_eq!(turned(0, 0), 60);
    assert_eq!(turned(0, 69), 129);
    assert_eq!(turned(300, 0), 0);
    assert_eq!(turned(350, 69), 119);
    assert_eq!(turned(720, 5), 65);
    assert_eq!(turned(u32::MAX, u32::MAX), (u32::MAX % 360 + 60 + u32::MAX % 360) % 360);
}

#[test]
fn margin_is_half_a_grid_cell() {
    assert!(is_inside_margin(20, 800, 40));
    assert!(!is_inside_margin(19, 800, 40));
    assert!(is_inside_margin(779, 800, 40));
    assert!(!is_inside_margin(780, 800, 40));
    assert!(!is_inside_margin(-1, 800, 40));
    assert!(!is_inside_margin(5, 10, 40));
    assert!(is_inside_margin(0, 1, 1));
    assert!(!is_inside_margin(i128::MAX, u32::MAX, 2));
}

#[test]
fn axis_distance_is_the_sum_along_both_axes() {
    assert_eq!(axis_distance(10, 20, 13, 16), 7);
    assert_eq!(axis_distance(13, 16, 10, 20), 7);
    assert_eq!(axis_distance(0, 0, u32::MAX, u32::MAX), 2 * (u32::MAX as u64));
    assert_eq!(axis_distance(5, 5, 5, 5), 0);
}

#[test]
fn reach_compares_the_root_of_the_distance() {
    // sqrt(31) < 5.6 < sqrt(32)
    assert!(in_reach(31, 5_600_000));
    assert!(!in_reach(32, 5_600_000));
    // sqrt(16) = 4 is not below 4
    assert!(!in_reach(16, 4_000_000));
    assert!(in_reach(16, 4_000_001));
    assert!(in_reach(0, 1));
    assert!(!in_reach(0, 0));
    assert!(!in_reach(0, -1));
    assert!(in_reach(u64::MAX, i64::MAX));
}

#[test]
fn birth_reserve_is_capped_at_the_stomach() {
    let config = SimulatorConfig::new();
    let mut rng = RandomStream::new(9);
    let mut genes = baseline();
    genes.stomach_size = 1_000_000;
    let cell = Cell::new(genes, 100, 200, &config, &mut rng);
    assert!(cell.alive);
    assert_eq!(cell.stomach_amount, 1_000_000);
    assert_eq!(cell.get_fullness(), Some(1_000_000));
    genes.stomach_size = 4_999_999;
    assert_eq!(Cell::new(genes, 100, 200, &config, &mut rng).stomach_amount, 4_999_999);
    genes.stomach_size = 5_000_000;
    assert_eq!(Cell::new(genes, 100, 200, &config, &mut rng).stomach_amount, 5_000_000);
    genes.stomach_size = 5_000_001;
    assert_eq!(Cell::new(genes, 100, 200, &config, &mut rng).stomach_amount, 5_000_000);
    assert_eq!(Cell::birth_reserve(&genes), 5_000_000);
    genes.stomach_size = 0;
    assert_eq!(Cell::new(genes, 100, 200, &config, &mut rng).stomach_amount, 0);
    genes.stomach_size = -3_000_000;
    assert_eq!(Cell::new(genes, 100, 200, &config, &mut rng).stomach_amount, 0);
    assert_eq!(Cell::birth_reserve(&genes), 0);
}

#[test]
fn child_with_a_small_stomach_is_born_within_it() {
    let config = SimulatorConfig::new();
    let mut rng = RandomStream::new(1);
    let mut parent = cell_at(800, 800);
    let mut carried = baseline();
    carried.stomach_size = 1_000_000;
    parent.child_genes = Some(carried);
    parent.remaining_steps_until_child_born = 1;
    let child = parent.simulate_step(&config, &mut rng).unwrap();
    assert!(child.alive);
    assert_eq!(child.genes, carried);
    assert_eq!(child.stomach_amount, 1_000_000);
}
