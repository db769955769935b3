use cell_evolution::genes::{mutated, pick, pick_from, pick_with_mutation, Genes};
use cell_evolution::randoms::RandomStream;
use cell_evolution::simulator::{Reproduction, SimulatorConfig};

fn baseline() -> Genes {
    Genes {
        size: 30_000_000,
        flagellum_size: 5_000_000,
        stomach_size: 10_000_000,
        steps_until_child_born: 200_000_000,
    }
}

#[test]
fn asexual_genes_are_the_baseline() {
    let mut rng = RandomStream::new(7);
    assert_eq!(Genes::new(Reproduction::Asexual, &mut rng), baseline());
}

#[test]
fn asexual_genes_draw_nothing() {
    let mut used = RandomStream::new(7);
    let mut fresh = RandomStream::new(7);
    Genes::new(Reproduction::Asexual, &mut used);
    assert_eq!(
        cell_evolution::randoms::random(&mut used, 1000),
        cell_evolution::randoms::random(&mut fresh, 1000)
    );
}

#[test]
fn sexual_genes_jitter_around_the_baseline() {
    let mut rng = RandomStream::new(7);
    let mut sizes = std::collections::BTreeSet::new();
    for _ in 0..200 {
        let genes = Genes::new(Reproduction::Sexual, &mut rng);
        assert!(27_000_000 <= genes.size && genes.size <= 32_000_000);
        assert_eq!(genes.size % 1_000_000, 0);
        assert!(genes.stomach_size == 9_000_000 || genes.stomach_size == 10_000_000);
        assert!(4_500_000 <= genes.flagellum_size && genes.flagellum_size < 5_500_000);
        assert!(195_000_000 <= genes.steps_until_child_born);
        assert!(genes.steps_until_child_born <= 204_000_000);
        sizes.insert(genes.size);
    }
    assert!(sizes.len() > 1);
}

#[test]
fn pick_returns_one_of_the_two() {
    let mut rng = RandomStream::new(3);
    let mut firsts = 0;
    for _ in 0..1000 {
        let chosen = pick(11, 22, &mut rng);
        assert!(chosen == 11 || chosen == 22);
        if chosen == 11 {
            firsts += 1;
        }
    }
    assert!(300 < firsts && firsts < 700);
}

#[test]
fn no_mutation_without_a_chance() {
    let mut config = SimulatorConfig::new();
    config.mutation_chance = 0;
    let mut rng = RandomStream::new(3);
    for _ in 0..1000 {
        let value = pick_with_mutation(10_000_000, 20_000_000, &config, &mut rng);
        assert!(value == 10_000_000 || value == 20_000_000);
    }
}

#[test]
fn certain_mutation_moves_by_the_scaled_average() {
    let mut config = SimulatorConfig::new();
    config.mutation_chance = 1_000_000;
    config.mutation_percent_change = 100_000;
    let mut rng = RandomStream::new(3);
    let mut seen = std::collections::BTreeSet::new();
    for _ in 0..1000 {
        // the average of the parents is 15, a tenth of it 1.5
        let value = pick_with_mutation(10_000_000, 20_000_000, &config, &mut rng);
        assert!([8_500_000, 11_500_000, 18_500_000, 21_500_000].contains(&value));
        seen.insert(value);
    }
    assert_eq!(seen.len(), 4);
}

#[test]
fn mutation_saturates_at_the_end_of_the_range() {
    let mut config = SimulatorConfig::new();
    config.mutation_chance = 1_000_000;
    config.mutation_percent_change = 1_000_000;
    let mut rng = RandomStream::new(3);
    for _ in 0..100 {
        let value = pick_with_mutation(i64::MAX, i64::MAX, &config, &mut rng);
        assert!(value == i64::MAX || value == 0);
    }
}

#[test]
fn mix_of_equal_parents_without_mutation_is_the_parent() {
    let mut config = SimulatorConfig::new();
    config.mutation_chance = 0;
    let mut rng = RandomStream::new(5);
    let parent = baseline();
    for _ in 0..100 {
        assert_eq!(parent.mix(&parent, &config, &mut rng), parent);
    }
}

#[test]
fn mix_keeps_the_stomach_within_the_size() {
    let mut config = SimulatorConfig::new();
    config.mutation_chance = 500_000;
    config.mutation_percent_change = 900_000;
    let mut rng = RandomStream::new(5);
    let a = Genes {
        size: 4_000_000,
        flagellum_size: 5_000_000,
        stomach_size: 10_000_000,
        steps_until_child_born: 200_000_000,
    };
    let b = Genes {
        size: 6_000_000,
        flagellum_size: 3_000_000,
        stomach_size: 9_000_000,
        steps_until_child_born: 100_000_000,
    };
    for _ in 0..1000 {
        let child = a.mix(&b, &config, &mut rng);
        assert!(child.stomach_size <= child.size);
    }
}

#[test]
fn mix_of_close_parents_stays_positive() {
    let config = SimulatorConfig::new();
    let mut rng = RandomStream::new(11);
    let mut a = baseline();
    let mut b = Genes::new(Reproduction::Sexual, &mut rng);
    for _ in 0..2000 {
        let child = a.mix(&b, &config, &mut rng);
        assert!(child.size > 0);
        assert!(child.flagellum_size > 0);
        assert!(child.stomach_size > 0);
        assert!(child.steps_until_child_born > 0);
        assert!(child.stomach_size <= child.size);
        a = b;
        b = child;
    }
}

#[test]
fn mix_of_distant_parents_can_go_negative() {
    let mut config = SimulatorConfig::new();
    config.mutation_chance = 1_000_000;
    config.mutation_percent_change = 100_000;
    let mut rng = RandomStream::new(11);
    let a = Genes {
        size: 1_000_000,
        flagellum_size: 1_000_000,
        stomach_size: 1_000_000,
        steps_until_child_born: 1_000_000,
    };
    let b = Genes {
        size: 100_000_000,
        flagellum_size: 100_000_000,
        stomach_size: 100_000_000,
        steps_until_child_born: 100_000_000,
    };
    let mut negative = false;
    for _ in 0..200 {
        let child = a.mix(&b, &config, &mut rng);
        // 1 - 0.1 * 50.5
        if child.size == -4_050_000 {
            negative = true;
        }
        assert!(child.stomach_size <= child.size);
    }
    assert!(negative);
}

#[test]
fn pick_from_takes_the_first_above_one_half() {
    assert_eq!(pick_from(500_001, 1, 2), 1);
    assert_eq!(pick_from(500_000, 1, 2), 2);
    assert_eq!(pick_from(0, 1, 2), 2);
    assert_eq!(pick_from(999_999, 1, 2), 1);
}

#[test]
fn mutated_moves_by_a_share_of_the_average() {
    // the average of 10 and 20 is 15, a tenth of it 1.5
    assert_eq!(mutated(10_000_000, 10_000_000, 20_000_000, 100_000, 1), 11_500_000);
    assert_eq!(mutated(10_000_000, 10_000_000, 20_000_000, 100_000, -1), 8_500_000);
    assert_eq!(mutated(20_000_000, 10_000_000, 20_000_000, 100_000, -1), 18_500_000);
    assert_eq!(mutated(7, 10_000_000, 20_000_000, 0, 1), 7);
    // 1 - 0.1 * 50.5
    assert_eq!(mutated(1_000_000, 1_000_000, 100_000_000, 100_000, -1), -4_050_000);
    assert_eq!(mutated(i64::MAX, i64::MAX, i64::MAX, 1_000_000, 1), i64::MAX);
    assert_eq!(mutated(i64::MIN, i64::MIN, i64::MIN, 1_000_000, 1), i64::MIN);
    // the average and the share are rounded toward zero
    assert_eq!(mutated(0, 3, 4, 1_000_000, 1), 3);
    assert_eq!(mutated(0, -3, -4, 1_000_000, 1), -3);
    assert_eq!(mutated(0, 3, 4, 999_999, 1), 2);
}
