//! The trait vector of a cell, and how two of them are crossed and mutated.

use crate::fixed::{
    divide, lemma_trunc_div_bounds, min_of, saturate, saturating, scale, scaled, trunc_div, SCALE,
};
use crate::randoms::{advanced, drawn, drawn_unit, random, random_float, RandomStream};
use crate::simulator::{Reproduction, SimulatorConfig};
use vstd::prelude::*;

verus! {

/// The heritable traits of a cell, in millionths.
#[derive(Debug, Clone, Copy, PartialEq, Eq, Structural)]
pub struct Genes {
    /// Body radius.
    pub size: i64,
    /// Length of the propulsion organ.
    pub flagellum_size: i64,
    /// The largest reserve that the cell can hold.
    pub stomach_size: i64,
    /// Ticks for which a child is carried.
    pub steps_until_child_born: i64,
}

/// One of two values: the first where the draw exceeds one half.
pub open spec fn spec_pick_from(draw: i64, a: i64, b: i64) -> i64 {
    if draw > 500_000 {
        a
    } else {
        b
    }
}

/// One of two values, by the next draw.
pub open spec fn spec_pick(a: i64, b: i64, words: Seq<u64>) -> i64 {
    spec_pick_from(drawn_unit(words), a, b)
}

/// A trait value moved by the mutation amount of its parents' values `a`
/// and `b`: up where `sign` is positive, down where it is not.
pub open spec fn spec_mutated(chosen: i64, a: i64, b: i64, percent_change: i64, sign: i64) -> i64 {
    let amount = mutation_amount(a, b, percent_change);
    saturate(
        if sign > 0 {
            chosen + amount
        } else {
            chosen - amount
        },
    )
}

/// The size of a mutation of a trait whose parents carry `a` and `b`: the
/// parents' average times the configured fraction.
pub open spec fn mutation_amount(a: i64, b: i64, percent_change: i64) -> int {
    scaled(trunc_div(a as int + b as int, 2), percent_change as int)
}

/// The value that a child gets for one trait, over three or two draws: which
/// parent's value, whether it mutates, and if so in which direction.
pub open spec fn spec_pick_with_mutation(
    a: i64,
    b: i64,
    config: SimulatorConfig,
    words: Seq<u64>,
) -> (i64, Seq<u64>) {
    let chosen = spec_pick(a, b, words);
    let second = advanced(words);
    if drawn_unit(second) < config.mutation_chance {
        let third = advanced(second);
        (
            spec_mutated(
                chosen,
                a,
                b,
                config.mutation_percent_change,
                spec_pick(-1i64, 1i64, third),
            ),
            advanced(third),
        )
    } else {
        (chosen, advanced(second))
    }
}

/// Picks one of two values by a draw.
pub fn pick_from(draw: i64, a: i64, b: i64) -> (chosen: i64)
    ensures
        chosen == spec_pick_from(draw, a, b),
{
    if draw > 500_000 {
        a
    } else {
        b
    }
}

/// Picks one of two values with equal chance.
pub fn pick(a: i64, b: i64, rng: &mut RandomStream) -> (chosen: i64)
    ensures
        chosen == spec_pick(a, b, old(rng)@),
        final(rng)@ == advanced(old(rng)@),
{
    pick_from(random_float(rng), a, b)
}

/// Moves a trait value up or down by the mutation amount of its parents'
/// values.
pub fn mutated(chosen: i64, a: i64, b: i64, percent_change: i64, sign: i64) -> (value: i64)
    ensures
        value == spec_mutated(chosen, a, b, percent_change, sign),
{
    proof {
        lemma_trunc_div_bounds(a as int + b as int, 2);
    }
    let average: i64 = divide(a as i128 + b as i128, 2) as i64;
    let amount: i128 = scale(average, percent_change);
    if sign > 0 {
        saturating(chosen as i128 + amount)
    } else {
        saturating(chosen as i128 - amount)
    }
}

/// Picks one parent's value and, with the configured chance, moves it up or
/// down by the mutation amount.
pub fn pick_with_mutation(a: i64, b: i64, config: &SimulatorConfig, rng: &mut RandomStream) -> (value: i64)
    ensures
        (value, final(rng)@) == spec_pick_with_mutation(a, b, *config, old(rng)@),
{
    let chosen = pick(a, b, rng);
    if random_float(rng) < config.mutation_chance {
        let sign = pick(-1, 1, rng);
        mutated(chosen, a, b, config.mutation_percent_change, sign)
    } else {
        chosen
    }
}

impl Genes {
    /// Every trait is strictly positive.
    pub open spec fn positive(&self) -> bool {
        &&& self.size > 0
        &&& self.flagellum_size > 0
        &&& self.stomach_size > 0
        &&& self.steps_until_child_born > 0
    }

    /// No trait is negative.
    pub open spec fn non_negative(&self) -> bool {
        &&& self.size >= 0
        &&& self.flagellum_size >= 0
        &&& self.stomach_size >= 0
        &&& self.steps_until_child_born >= 0
    }

    /// The genes of a cell of the first generation: the baseline in asexual
    /// mode, and the baseline with a jitter drawn for each trait otherwise.
    pub open spec fn spec_new(repro_method: Reproduction, words: Seq<u64>) -> (Genes, Seq<u64>) {
        match repro_method {
            Reproduction::Asexual => (
                Genes {
                    size: 30_000_000,
                    stomach_size: 10_000_000,
                    flagellum_size: 5_000_000,
                    steps_until_child_born: 200_000_000,
                },
                words,
            ),
            Reproduction::Sexual => {
                let second = advanced(words);
                let third = advanced(second);
                let fourth = advanced(third);
                (
                    Genes {
                        size: (27_000_000 + drawn(words, 6) * SCALE) as i64,
                        stomach_size: (9_000_000 + drawn(second, 2) * SCALE) as i64,
                        flagellum_size: (4_500_000 + drawn_unit(third)) as i64,
                        steps_until_child_born: (195_000_000 + drawn(fourth, 10) * SCALE) as i64,
                    },
                    advanced(fourth),
                )
            },
        }
    }

    /// The genes of a cell of the first generation.
    pub fn new(repro_method: Reproduction, rng: &mut RandomStream) -> (genes: Self)
        ensures
            (genes, final(rng)@) == Self::spec_new(repro_method, old(rng)@),
            genes.positive(),
            genes.stomach_size <= genes.size,
            genes.stomach_size >= 9_000_000,
    {
        match repro_method {
            Reproduction::Asexual => Genes {
                size: 30_000_000,
                stomach_size: 10_000_000,
                flagellum_size: 5_000_000,
                steps_until_child_born: 200_000_000,
            },
            Reproduction::Sexual => {
                let size: i64 = 27_000_000 + random(rng, 6) as i64 * SCALE;
                let stomach_size: i64 = 9_000_000 + random(rng, 2) as i64 * SCALE;
                let flagellum_size: i64 = 4_500_000 + random_float(rng);
                let steps_until_child_born: i64 = 195_000_000 + random(rng, 10) as i64 * SCALE;
                Genes { size, stomach_size, flagellum_size, steps_until_child_born }
            },
        }
    }

    /// The genes of a child of `self` and `other`: each trait is picked and
    /// mutated on its own, and the stomach is then capped at the child's size.
    pub open spec fn spec_mix(
        self,
        other: Genes,
        config: SimulatorConfig,
        words: Seq<u64>,
    ) -> (Genes, Seq<u64>) {
        let (size, second) = spec_pick_with_mutation(self.size, other.size, config, words);
        let (stomach, third) = spec_pick_with_mutation(
            self.stomach_size,
            other.stomach_size,
            config,
            second,
        );
        let (flagellum, fourth) = spec_pick_with_mutation(
            self.flagellum_size,
            other.flagellum_size,
            config,
            third,
        );
        let (steps, fifth) = spec_pick_with_mutation(
            self.steps_until_child_born,
            other.steps_until_child_born,
            config,
            fourth,
        );
        (
            Genes {
                size,
                stomach_size: min_of(stomach as int, size as int) as i64,
                flagellum_size: flagellum,
                steps_until_child_born: steps,
            },
            fifth,
        )
    }

    /// The genes of a child of `self` and `other`.
    pub fn mix(&self, other: &Self, config: &SimulatorConfig, rng: &mut RandomStream) -> (child: Self)
        ensures
            (child, final(rng)@) == self.spec_mix(*other, *config, old(rng)@),
            child.stomach_size <= child.size,
    {
        let size = pick_with_mutation(self.size, other.size, config, rng);
        let stomach = pick_with_mutation(self.stomach_size, other.stomach_size, config, rng);
        let flagellum_size = pick_with_mutation(
            self.flagellum_size,
            other.flagellum_size,
            config,
            rng,
        );
        let steps_until_child_born = pick_with_mutation(
            self.steps_until_child_born,
            other.steps_until_child_born,
            config,
            rng,
        );
        Genes {
            size,
            stomach_size: if stomach <= size {
                stomach
            } else {
                size
            },
            flagellum_size,
            steps_until_child_born,
        }
    }
}

/// A mutation of a trait with parents `a` and `b` cannot make it zero or
/// negative: either no mutation can happen, or the mutation amount is smaller
/// than the smaller parent value.
pub open spec fn mutation_keeps_positive(a: i64, b: i64, config: SimulatorConfig) -> bool {
    let amount = mutation_amount(a, b, config.mutation_percent_change);
    config.mutation_chance <= 0 || (-min_of(a as int, b as int) < amount < min_of(
        a as int,
        b as int,
    ))
}

/// A trait picked from two positive parent values stays positive whatever
/// is drawn, as long as a mutation cannot reach zero.
pub proof fn lemma_pick_with_mutation_positive(
    a: i64,
    b: i64,
    config: SimulatorConfig,
    words: Seq<u64>,
)
    requires
        a > 0,
        b > 0,
        mutation_keeps_positive(a, b, config),
    ensures
        spec_pick_with_mutation(a, b, config, words).0 > 0,
{
    crate::randoms::lemma_drawn_below(advanced(words), 0);
}

/// A child's stomach never exceeds its size, whatever the parents, the
/// configuration and the draws. Where both parents are positive in every
/// trait and no mutation can reach zero, the child is positive in every trait.
pub proof fn lemma_mix_bounds(a: Genes, b: Genes, config: SimulatorConfig, words: Seq<u64>)
    ensures
        a.spec_mix(b, config, words).0.stomach_size <= a.spec_mix(b, config, words).0.size,
        a.positive() && b.positive() && mutation_keeps_positive(a.size, b.size, config)
            && mutation_keeps_positive(a.stomach_size, b.stomach_size, config)
            && mutation_keeps_positive(a.flagellum_size, b.flagellum_size, config)
            && mutation_keeps_positive(
            a.steps_until_child_born,
            b.steps_until_child_born,
            config,
        ) ==> a.spec_mix(b, config, words).0.positive(),
{
    if a.positive() && b.positive() && mutation_keeps_positive(a.size, b.size, config)
        && mutation_keeps_positive(a.stomach_size, b.stomach_size, config)
        && mutation_keeps_positive(a.flagellum_size, b.flagellum_size, config)
        && mutation_keeps_positive(a.steps_until_child_born, b.steps_until_child_born, config) {
        let (size, second) = spec_pick_with_mutation(a.size, b.size, config, words);
        let (stomach, third) = spec_pick_with_mutation(
            a.stomach_size,
            b.stomach_size,
            config,
            second,
        );
        let (flagellum, fourth) = spec_pick_with_mutation(
            a.flagellum_size,
            b.flagellum_size,
            config,
            third,
        );
        lemma_pick_with_mutation_positive(a.size, b.size, config, words);
        lemma_pick_with_mutation_positive(a.stomach_size, b.stomach_size, config, second);
        lemma_pick_with_mutation_positive(a.flagellum_size, b.flagellum_size, config, third);
        lemma_pick_with_mutation_positive(
            a.steps_until_child_born,
            b.steps_until_child_born,
            config,
            fourth,
        );
    }
}

} // verus!
