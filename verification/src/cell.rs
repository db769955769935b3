//! A cell: its state, what a tick does to it, and its probes for food and
//! for a mate.

use crate::angle::{cosine, sine, spec_cosine, spec_sine};
use crate::fixed::{
    divide, lemma_product_bound, lemma_trunc_div_bounds, min_of, saturate, saturating, scale,
    scaled, trunc_div, SCALE, SCALE_SQUARED,
};
use crate::food::{grid_of, nearest_index, spec_nearest_index, without_food, Food};
use crate::genes::Genes;
use crate::randoms::{advanced, drawn, drawn_unit, random, random_float, RandomStream};
use crate::simulator::SimulatorConfig;
use std::collections::HashMap;
use vstd::prelude::*;

verus! {

/// By how much the chance of a random turn grows in every tick.
pub const DEFAULT_ROTATION_CHANCE_CHANGE: i64 = 600;

/// What one food item adds to the reserve.
pub const STOMACH_INCREASE_FROM_FOOD_AMOUNT: i64 = 500_000;

/// Energy used per tick for each unit of speed.
pub const STOMACH_DECREASE_FROM_SPEED_AMOUNT: i64 = 7_000;

/// Energy used per tick for each unit of size.
pub const STOMACH_DECREASE_FROM_SIZE_AMOUNT: i64 = 600;

/// Speed gained per unit of flagellum.
pub const FLAGELLUM_SPEED_MULTIPLIER: i64 = 1_500_000;

/// Speed gained per unit of stomach.
pub const STOMACH_SIZE_SPEED_MULTIPLIER: i64 = 250_000;

/// Eating distance gained per unit of size.
pub const SIZE_EATING_DISTANCE_MULTIPLIER: i64 = 20_000;

/// Edge of a mating bucket.
pub const REPRODUCTION_DISTANCE: u32 = 50;

/// What an attempted birth costs the parent.
pub const CHILDBIRTH_FOOD_DECREASE: i64 = 1_000_000;

/// What each tick of a gestation costs the parent.
pub const CHILD_DEVELOPMENT_FOOD_DECREASE: i64 = 10_000;

/// The reserve of a new cell whose stomach holds that much.
pub const INITIAL_STOMACH_AMOUNT: i64 = 5_000_000;

/// The chance of a birth is this factor times the cube root of the gestation
/// length.
pub const BIRTH_CHANCE_FACTOR: i64 = 180_000;

/// The colour in which a cell is drawn.
#[derive(Debug, Clone, Copy, PartialEq, Eq, Structural)]
pub struct Color {
    pub red: u32,
    pub green: u32,
    pub blue: u32,
}

/// One organism. Fractions are in millionths, the heading in whole degrees.
#[derive(Debug, Clone, Copy, PartialEq, Eq)]
pub struct Cell {
    pub x: u32,
    pub y: u32,
    /// Heading, in degrees.
    pub degrees: u32,
    pub color: Color,
    pub genes: Genes,
    /// The genes of the child that the cell carries, if it carries one.
    pub child_genes: Option<Genes>,
    pub alive: bool,
    /// A fraction that only varies how the cell is drawn.
    pub display_seed: i64,
    /// Ticks before the cell can mate again.
    pub reproduction_cooldown: u32,
    /// Ticks before the carried child is born; 0 where none is carried.
    pub remaining_steps_until_child_born: u32,
    /// The reserve: the food in the stomach.
    pub stomach_amount: i64,
    /// The chance that the cell turns at random in this tick.
    pub rotation_chance: i64,
}

/// A gestation length in whole ticks: the fraction is dropped, and the count
/// saturates at the ends of `u32`.
pub open spec fn whole_steps(steps: i64) -> u32 {
    if steps <= 0 {
        0
    } else if steps as int / SCALE as int > u32::MAX {
        u32::MAX
    } else {
        (steps as int / SCALE as int) as u32
    }
}

impl Cell {
    /// Speed, from the flagellum and the stomach.
    pub open spec fn spec_speed(&self) -> i64 {
        saturate(
            scaled(self.genes.flagellum_size as int, FLAGELLUM_SPEED_MULTIPLIER as int) + scaled(
                self.genes.stomach_size as int,
                STOMACH_SIZE_SPEED_MULTIPLIER as int,
            ),
        )
    }

    /// The distance within which the cell reaches food.
    pub open spec fn spec_eating_distance(&self) -> i64 {
        saturate(
            scaled(self.genes.size as int, SIZE_EATING_DISTANCE_MULTIPLIER as int)
                + self.genes.flagellum_size,
        )
    }

    /// The energy that one tick costs, from the speed and the size.
    pub open spec fn spec_energy_usage(&self) -> i64 {
        saturate(
            scaled(STOMACH_DECREASE_FROM_SPEED_AMOUNT as int, self.spec_speed() as int) + scaled(
                STOMACH_DECREASE_FROM_SIZE_AMOUNT as int,
                self.genes.size as int,
            ),
        )
    }

    /// The reserve as a fraction of the stomach, or nothing where the
    /// stomach has no size.
    pub open spec fn spec_fullness(&self) -> Option<i64> {
        let amount = self.stomach_amount as int * SCALE as int;
        if self.genes.stomach_size > 0 {
            Some(saturate(trunc_div(amount, self.genes.stomach_size as int)))
        } else if self.genes.stomach_size < 0 {
            Some(saturate(trunc_div(-amount, -(self.genes.stomach_size as int))))
        } else {
            None
        }
    }

    /// The cell after one food item: the reserve grows by a fixed amount, up
    /// to the size of the stomach.
    pub open spec fn spec_eat_food(self) -> Cell {
        Cell {
            stomach_amount: min_of(
                saturate(self.stomach_amount + STOMACH_INCREASE_FROM_FOOD_AMOUNT) as int,
                self.genes.stomach_size as int,
            ) as i64,
            ..self
        }
    }

    /// The cell after spending `amount`: it dies where the reserve falls
    /// below zero.
    pub open spec fn spec_take_food(self, amount: i64) -> Cell {
        let left = saturate(self.stomach_amount - amount);
        Cell { stomach_amount: left, alive: self.alive && left >= 0, ..self }
    }

    /// The reserve that a cell with the given genes is born with: a fixed
    /// amount, or what its stomach holds where that is less, and nothing
    /// where the stomach has no size.
    pub open spec fn spec_birth_reserve(genes: Genes) -> i64 {
        if genes.stomach_size <= 0 {
            0
        } else if genes.stomach_size < INITIAL_STOMACH_AMOUNT {
            genes.stomach_size
        } else {
            INITIAL_STOMACH_AMOUNT
        }
    }

    /// The reserve that a cell with the given genes is born with.
    pub fn birth_reserve(genes: &Genes) -> (reserve: i64)
        ensures
            reserve == Self::spec_birth_reserve(*genes),
            0 <= reserve <= INITIAL_STOMACH_AMOUNT,
            genes.stomach_size >= 0 ==> reserve <= genes.stomach_size,
    {
        if genes.stomach_size <= 0 {
            0
        } else if genes.stomach_size < INITIAL_STOMACH_AMOUNT {
            genes.stomach_size
        } else {
            INITIAL_STOMACH_AMOUNT
        }
    }

    /// A new cell at a position, over five draws: heading, display seed, and
    /// the three parts of its colour. Its reserve is the birth reserve of its
    /// genes.
    pub open spec fn spec_new(
        genes: Genes,
        x: u32,
        y: u32,
        config: SimulatorConfig,
        words: Seq<u64>,
    ) -> (Cell, Seq<u64>) {
        let second = advanced(words);
        let third = advanced(second);
        let fourth = advanced(third);
        let fifth = advanced(fourth);
        (
            Cell {
                x,
                y,
                degrees: drawn(words, 360),
                stomach_amount: Self::spec_birth_reserve(genes),
                rotation_chance: 0,
                remaining_steps_until_child_born: 0,
                reproduction_cooldown: config.reproduction_cooldown,
                alive: true,
                genes,
                child_genes: None,
                display_seed: drawn_unit(second),
                color: Color {
                    red: (50 + drawn(third, 100)) as u32,
                    green: drawn(fourth, 100),
                    blue: (100 + drawn(fifth, 100)) as u32,
                },
            },
            advanced(fifth),
        )
    }

    /// A new cell with the given genes at the given position.
    pub fn new(genes: Genes, x: u32, y: u32, config: &SimulatorConfig, rng: &mut RandomStream) -> (cell: Self)
        ensures
            (cell, final(rng)@) == Self::spec_new(genes, x, y, *config, old(rng)@),
            cell.alive,
            cell.degrees < 360,
            cell.reserve_in_bounds(),
    {
        let degrees = random(rng, 360);
        let display_seed = random_float(rng);
        let red = 50 + random(rng, 100);
        let green = random(rng, 100);
        let blue = 100 + random(rng, 100);
        Self {
            x,
            y,
            degrees,
            stomach_amount: Self::birth_reserve(&genes),
            rotation_chance: 0,
            remaining_steps_until_child_born: 0,
            reproduction_cooldown: config.reproduction_cooldown,
            alive: true,
            genes,
            child_genes: None,
            display_seed,
            color: Color { red, green, blue },
        }
    }

    /// A coordinate at least half a grid cell away from both ends of an
    /// extent.
    pub fn random_pos_in_extent(extent: u32, food_spacing: u32, rng: &mut RandomStream) -> (pos: u32)
        requires
            food_spacing <= extent,
        ensures
            pos == food_spacing / 2 + drawn(old(rng)@, (extent - food_spacing) as u32),
            final(rng)@ == advanced(old(rng)@),
            food_spacing / 2 <= pos,
            food_spacing < extent ==> pos < extent - food_spacing / 2,
    {
        food_spacing / 2 + random(rng, extent - food_spacing)
    }

    /// A coordinate at least half a grid cell away from both sides of the
    /// field.
    pub fn get_random_pos_in_bounds(config: &SimulatorConfig, rng: &mut RandomStream) -> (pos: u32)
        requires
            config.food_spacing <= config.width,
        ensures
            pos == config.food_spacing / 2 + drawn(
                old(rng)@,
                (config.width - config.food_spacing) as u32,
            ),
            final(rng)@ == advanced(old(rng)@),
            config.food_spacing / 2 <= pos,
            config.food_spacing < config.width ==> pos < config.width - config.food_spacing / 2,
    {
        Self::random_pos_in_extent(config.width, config.food_spacing, rng)
    }

    /// Takes in one food item.
    pub fn eat_food(&mut self)
        ensures
            *final(self) == old(self).spec_eat_food(),
    {
        let grown = saturating(self.stomach_amount as i128 + STOMACH_INCREASE_FROM_FOOD_AMOUNT as i128);
        self.stomach_amount = if grown > self.genes.stomach_size {
            self.genes.stomach_size
        } else {
            grown
        };
    }

    /// Spends `amount` of the reserve; the cell dies where that is more
    /// than it has.
    pub fn take_food(&mut self, amount: i64)
        ensures
            *final(self) == old(self).spec_take_food(amount),
    {
        self.stomach_amount = saturating(self.stomach_amount as i128 - amount as i128);
        if self.stomach_amount < 0 {
            self.die();
        }
    }

    /// The reserve as a fraction of the stomach.
    pub fn get_fullness(&self) -> (fullness: Option<i64>)
        ensures
            fullness == self.spec_fullness(),
    {
        let amount: i128 = self.stomach_amount as i128 * SCALE as i128;
        if self.genes.stomach_size > 0 {
            Some(saturating(divide(amount, self.genes.stomach_size as i128)))
        } else if self.genes.stomach_size < 0 {
            Some(saturating(divide(-amount, -(self.genes.stomach_size as i128))))
        } else {
            None
        }
    }

    /// The speed of the cell.
    pub fn get_speed(&self) -> (speed: i64)
        ensures
            speed == self.spec_speed(),
            self.genes.non_negative() ==> speed >= 0,
    {
        saturating(
            scale(self.genes.flagellum_size, FLAGELLUM_SPEED_MULTIPLIER) + scale(
                self.genes.stomach_size,
                STOMACH_SIZE_SPEED_MULTIPLIER,
            ),
        )
    }

    /// The distance within which the cell reaches food.
    pub fn get_eating_distance(&self) -> (distance: i64)
        ensures
            distance == self.spec_eating_distance(),
    {
        saturating(
            scale(self.genes.size, SIZE_EATING_DISTANCE_MULTIPLIER)
                + self.genes.flagellum_size as i128,
        )
    }

    /// The energy that one tick costs the cell.
    pub fn get_energy_usage(&self) -> (usage: i64)
        ensures
            usage == self.spec_energy_usage(),
            self.genes.non_negative() ==> usage >= 0,
    {
        saturating(
            scale(STOMACH_DECREASE_FROM_SPEED_AMOUNT, self.get_speed()) + scale(
                STOMACH_DECREASE_FROM_SIZE_AMOUNT,
                self.genes.size,
            ),
        )
    }

    /// Marks the cell dead.
    pub fn die(&mut self)
        ensures
            *final(self) == (Cell { alive: false, ..*old(self) }),
    {
        self.alive = false;
    }
}

/// How far a cell moves along one axis in a tick: the sine or cosine of its
/// heading times its speed, with the fraction dropped.
pub open spec fn spec_step_along(component: i64, speed: i64) -> int {
    trunc_div(component as int * speed as int, SCALE_SQUARED as int)
}

/// A heading turned by 60 degrees and `extra` more.
pub open spec fn spec_turned(degrees: u32, extra: u32) -> u32 {
    ((degrees as int % 360 + 60 + extra as int) % 360) as u32
}

/// Whether a coordinate keeps the margin of half a grid cell to both ends
/// of an extent.
pub open spec fn inside_margin(coordinate: int, extent: u32, food_spacing: u32) -> bool {
    food_spacing as int / 2 <= coordinate < extent as int - food_spacing as int / 2
}

/// Whether a birth succeeds on a draw: the draw is below the birth chance
/// factor times the cube root of the gestation length. Both sides are cubed.
pub open spec fn spec_birth_succeeds(draw: i64, steps: i64) -> bool {
    (draw as int) * (draw as int) * (draw as int) * (SCALE as int) < (BIRTH_CHANCE_FACTOR as int)
        * (BIRTH_CHANCE_FACTOR as int) * (BIRTH_CHANCE_FACTOR as int) * (steps as int)
}

/// How far a cell moves along one axis in a tick.
pub fn step_along(component: i64, speed: i64) -> (step: i128)
    ensures
        step == spec_step_along(component, speed),
{
    proof {
        lemma_product_bound(component as int, speed as int, 0x8000_0000_0000_0000);
    }
    divide(component as i128 * speed as i128, SCALE_SQUARED)
}

/// A heading turned by 60 degrees and `extra` more.
pub fn turned(degrees: u32, extra: u32) -> (heading: u32)
    ensures
        heading == spec_turned(degrees, extra),
        heading < 360,
{
    (((degrees % 360) as u64 + 60 + extra as u64) % 360) as u32
}

/// Tests whether a coordinate keeps the margin to both ends of an extent.
pub fn is_inside_margin(coordinate: i128, extent: u32, food_spacing: u32) -> (inside: bool)
    ensures
        inside == inside_margin(coordinate as int, extent, food_spacing),
{
    let margin: i128 = (food_spacing / 2) as i128;
    coordinate >= margin && coordinate < extent as i128 - margin
}

/// Decides a birth from a draw in [0, 1] and the gestation length.
pub fn birth_succeeds(draw: i64, steps: i64) -> (born: bool)
    requires
        0 <= draw <= SCALE,
    ensures
        born == spec_birth_succeeds(draw, steps),
{
    let wide: i128 = draw as i128;
    assert(0 <= wide * wide <= 1_000_000_000_000) by (nonlinear_arith)
        requires
            0 <= wide <= 1_000_000,
    ;
    let square: i128 = wide * wide;
    assert(0 <= square * wide <= 1_000_000_000_000_000_000) by (nonlinear_arith)
        requires
            0 <= wide <= 1_000_000,
            0 <= square <= 1_000_000_000_000,
    ;
    let cube: i128 = square * wide;
    let factor: i128 = BIRTH_CHANCE_FACTOR as i128 * BIRTH_CHANCE_FACTOR as i128
        * BIRTH_CHANCE_FACTOR as i128;
    assert(factor == 5_832_000_000_000_000);
    cube * (SCALE as i128) < factor * (steps as i128)
}

impl Cell {
    /// The cell after the movement of one tick. It moves along each axis
    /// unless that would leave the margin, in which case it turns by 60
    /// degrees and a draw below 70 more. Then a draw against the chance of a
    /// random turn, which has grown by a fixed amount, decides whether the
    /// cell takes a heading drawn below 360 and resets that chance.
    pub open spec fn spec_simulate_movement(self, config: SimulatorConfig, words: Seq<u64>) -> (
        Cell,
        Seq<u64>,
    ) {
        let speed = self.spec_speed();
        let new_x = self.x + spec_step_along(spec_cosine(self.degrees), speed);
        let new_y = self.y + spec_step_along(spec_sine(self.degrees), speed);
        let chance = saturate(self.rotation_chance + DEFAULT_ROTATION_CHANCE_CHANGE);
        let x_moves = inside_margin(new_x, config.width, config.food_spacing);
        let y_moves = inside_margin(new_y, config.height, config.food_spacing);
        let after_x = if x_moves {
            words
        } else {
            advanced(words)
        };
        let heading_x = if x_moves {
            self.degrees
        } else {
            spec_turned(self.degrees, drawn(words, 70))
        };
        let after_y = if y_moves {
            after_x
        } else {
            advanced(after_x)
        };
        let heading_y = if y_moves {
            heading_x
        } else {
            spec_turned(heading_x, drawn(after_x, 70))
        };
        let moved = Cell {
            x: if x_moves {
                new_x as u32
            } else {
                self.x
            },
            y: if y_moves {
                new_y as u32
            } else {
                self.y
            },
            ..self
        };
        if drawn_unit(after_y) < chance {
            (
                Cell { degrees: drawn(advanced(after_y), 360), rotation_chance: 0, ..moved },
                advanced(advanced(after_y)),
            )
        } else {
            (Cell { degrees: heading_y, rotation_chance: chance, ..moved }, advanced(after_y))
        }
    }

    /// The movement of one tick.
    pub fn simulate_movement(&mut self, config: &SimulatorConfig, rng: &mut RandomStream)
        ensures
            (*final(self), final(rng)@) == old(self).spec_simulate_movement(*config, old(rng)@),
    {
        let speed = self.get_speed();
        let dx = step_along(cosine(self.degrees), speed);
        let dy = step_along(sine(self.degrees), speed);
        proof {
            lemma_product_bound(
                spec_cosine(self.degrees) as int,
                speed as int,
                0x8000_0000_0000_0000,
            );
            lemma_product_bound(spec_sine(self.degrees) as int, speed as int, 0x8000_0000_0000_0000);
            lemma_trunc_div_bounds(
                spec_cosine(self.degrees) as int * speed as int,
                SCALE_SQUARED as int,
            );
            lemma_trunc_div_bounds(
                spec_sine(self.degrees) as int * speed as int,
                SCALE_SQUARED as int,
            );
        }
        self.rotation_chance = saturating(
            self.rotation_chance as i128 + DEFAULT_ROTATION_CHANCE_CHANGE as i128,
        );

        let new_x: i128 = self.x as i128 + dx;
        if is_inside_margin(new_x, config.width, config.food_spacing) {
            self.x = new_x as u32;
        } else {
            self.degrees = turned(self.degrees, random(rng, 70));
        }

        let new_y: i128 = self.y as i128 + dy;
        if is_inside_margin(new_y, config.height, config.food_spacing) {
            self.y = new_y as u32;
        } else {
            self.degrees = turned(self.degrees, random(rng, 70));
        }

        if random_float(rng) < self.rotation_chance {
            self.degrees = random(rng, 360);
            self.rotation_chance = 0;
        }
    }

    /// The parent after an attempted birth, the child if one is born, and
    /// the stream. The attempt costs the parent a fixed amount and clears
    /// the genes that it carried; a draw decides whether the child, a new
    /// cell at the parent's position, is born.
    pub open spec fn spec_reproduce(self, config: SimulatorConfig, words: Seq<u64>) -> (
        Cell,
        Option<Cell>,
        Seq<u64>,
    ) {
        let parent = Cell {
            child_genes: None,
            ..self.spec_take_food(CHILDBIRTH_FOOD_DECREASE)
        };
        let after = advanced(words);
        if spec_birth_succeeds(drawn_unit(words), self.genes.steps_until_child_born)
            && self.child_genes.is_some() {
            let (child, rest) = Cell::spec_new(
                self.child_genes.unwrap(),
                self.x,
                self.y,
                config,
                after,
            );
            (parent, Some(child), rest)
        } else {
            (parent, None, after)
        }
    }

    /// Attempts the birth of the child that the cell carries.
    pub fn reproduce(&mut self, config: &SimulatorConfig, rng: &mut RandomStream) -> (child: Option<
        Cell,
    >)
        ensures
            (*final(self), child, final(rng)@) == old(self).spec_reproduce(*config, old(rng)@),
            child.is_some() ==> child.unwrap().alive,
    {
        self.take_food(CHILDBIRTH_FOOD_DECREASE);
        let carried = self.child_genes;
        self.child_genes = None;
        // a short gestation makes a birth less likely
        let born = birth_succeeds(random_float(rng), self.genes.steps_until_child_born);
        match carried {
            Some(genes) => {
                if born {
                    Some(Cell::new(genes, self.x, self.y, config, rng))
                } else {
                    None
                }
            },
            None => None,
        }
    }

    /// The cell after the reproduction phase of one tick, and the child if
    /// one is born. The cooldown counts down; a gestation counts down at a
    /// fixed cost per tick and ends in an attempted birth.
    pub open spec fn spec_simulate_reproduction(self, config: SimulatorConfig, words: Seq<u64>) -> (
        Cell,
        Option<Cell>,
        Seq<u64>,
    ) {
        let cooled = Cell {
            reproduction_cooldown: if self.reproduction_cooldown > 0 {
                (self.reproduction_cooldown - 1) as u32
            } else {
                0
            },
            ..self
        };
        if self.remaining_steps_until_child_born > 0 {
            let carrying = Cell {
                remaining_steps_until_child_born: (self.remaining_steps_until_child_born
                    - 1) as u32,
                ..cooled
            }.spec_take_food(CHILD_DEVELOPMENT_FOOD_DECREASE);
            if carrying.remaining_steps_until_child_born == 0 {
                carrying.spec_reproduce(config, words)
            } else {
                (carrying, None, words)
            }
        } else {
            (cooled, None, words)
        }
    }

    /// The reproduction phase of one tick.
    pub fn simulate_reproduction(&mut self, config: &SimulatorConfig, rng: &mut RandomStream) -> (child:
        Option<Cell>)
        ensures
            (*final(self), child, final(rng)@) == old(self).spec_simulate_reproduction(
                *config,
                old(rng)@,
            ),
            child.is_some() ==> child.unwrap().alive,
    {
        if self.reproduction_cooldown > 0 {
            self.reproduction_cooldown -= 1;
        }
        if self.remaining_steps_until_child_born > 0 {
            self.remaining_steps_until_child_born -= 1;
            self.take_food(CHILD_DEVELOPMENT_FOOD_DECREASE);
            if self.remaining_steps_until_child_born == 0 {
                return self.reproduce(config, rng);
            }
        }
        None
    }

    /// The cell after one tick, and the child if one is born: movement, then
    /// reproduction, then the energy that the tick costs.
    pub open spec fn spec_simulate_step(self, config: SimulatorConfig, words: Seq<u64>) -> (
        Cell,
        Option<Cell>,
        Seq<u64>,
    ) {
        let (moved, second) = self.spec_simulate_movement(config, words);
        let (parent, child, third) = moved.spec_simulate_reproduction(config, second);
        (parent.spec_take_food(parent.spec_energy_usage()), child, third)
    }

    /// One tick of the cell.
    pub fn simulate_step(&mut self, config: &SimulatorConfig, rng: &mut RandomStream) -> (child: Option<
        Cell,
    >)
        ensures
            (*final(self), child, final(rng)@) == old(self).spec_simulate_step(*config, old(rng)@),
            child.is_some() ==> child.unwrap().alive,
    {
        self.simulate_movement(config, rng);
        let possibly_new_child = self.simulate_reproduction(config, rng);
        self.take_food(self.get_energy_usage());
        possibly_new_child
    }

    /// The cell once it carries a child of its own genes and `other`: the
    /// child's genes are mixed, the gestation starts at its full length and
    /// the cooldown at the configured one.
    pub open spec fn spec_start_reproduction(
        self,
        other: Genes,
        config: SimulatorConfig,
        words: Seq<u64>,
    ) -> (Cell, Seq<u64>) {
        let (child_genes, rest) = self.genes.spec_mix(other, config, words);
        (
            Cell {
                child_genes: Some(child_genes),
                remaining_steps_until_child_born: whole_steps(self.genes.steps_until_child_born),
                reproduction_cooldown: config.reproduction_cooldown,
                ..self
            },
            rest,
        )
    }

    /// Starts the gestation of a child of this cell and the genes `other`.
    pub fn start_reproduction(&mut self, other: &Genes, config: &SimulatorConfig, rng: &mut RandomStream)
        ensures
            (*final(self), final(rng)@) == old(self).spec_start_reproduction(
                *other,
                *config,
                old(rng)@,
            ),
    {
        self.child_genes = Some(self.genes.mix(other, config, rng));
        let steps = self.genes.steps_until_child_born;
        self.remaining_steps_until_child_born = if steps <= 0 {
            0
        } else if steps / SCALE > u32::MAX as i64 {
            u32::MAX
        } else {
            (steps / SCALE) as u32
        };
        self.reproduction_cooldown = config.reproduction_cooldown;
    }
}

/// The sum of the distances along both axes between two places.
pub open spec fn spec_axis_distance(x: u32, y: u32, other_x: u32, other_y: u32) -> int {
    (if x >= other_x {
        x - other_x
    } else {
        other_x - x
    }) + (if y >= other_y {
        y - other_y
    } else {
        other_y - y
    })
}

/// Whether food at a given sum of axis distances is within an eating
/// distance: the square root of the sum is below the distance. Both sides
/// are squared.
pub open spec fn spec_in_reach(axis_distance: int, eating_distance: i64) -> bool {
    eating_distance > 0 && axis_distance * (SCALE_SQUARED as int) < (eating_distance as int) * (
    eating_distance as int)
}

/// The mating bucket of a coordinate: buckets are one mating radius wide and
/// start one radius in; coordinates before that fall into bucket 0, and 0
/// into the last bucket.
pub open spec fn spec_bucket(coordinate: u32) -> u32 {
    if coordinate >= REPRODUCTION_DISTANCE {
        ((coordinate - REPRODUCTION_DISTANCE) / REPRODUCTION_DISTANCE as int) as u32
    } else if coordinate == 0 {
        u32::MAX
    } else {
        0
    }
}

/// The key of the mating bucket of a position: the bucket of `x` in the upper
/// half, that of `y` in the lower.
pub open spec fn spec_bucket_key(x: u32, y: u32) -> u64 {
    (spec_bucket(x) as int * 0x1_0000_0000 + spec_bucket(y) as int) as u64
}

/// The sum of the distances along both axes between two places.
pub fn axis_distance(x: u32, y: u32, other_x: u32, other_y: u32) -> (distance: u64)
    ensures
        distance == spec_axis_distance(x, y, other_x, other_y),
        distance <= 0x1_ffff_fffe,
{
    let along_x: u64 = if x >= other_x {
        (x - other_x) as u64
    } else {
        (other_x - x) as u64
    };
    let along_y: u64 = if y >= other_y {
        (y - other_y) as u64
    } else {
        (other_y - y) as u64
    };
    along_x + along_y
}

/// Tests whether food at a sum of axis distances is within an eating
/// distance.
pub fn in_reach(axis_distance: u64, eating_distance: i64) -> (reached: bool)
    ensures
        reached == spec_in_reach(axis_distance as int, eating_distance),
{
    if eating_distance <= 0 {
        false
    } else {
        let wide: i128 = eating_distance as i128;
        assert(0 <= wide * wide <= 0x8000_0000_0000_0000 * 0x8000_0000_0000_0000)
            by (nonlinear_arith)
            requires
                0 <= wide <= 0x8000_0000_0000_0000,
        ;
        (axis_distance as i128) * SCALE_SQUARED < wide * wide
    }
}

/// The mating bucket of a coordinate.
pub fn bucket(coordinate: u32) -> (index: u32)
    ensures
        index == spec_bucket(coordinate),
{
    if coordinate >= REPRODUCTION_DISTANCE {
        (coordinate - REPRODUCTION_DISTANCE) / REPRODUCTION_DISTANCE
    } else if coordinate == 0 {
        u32::MAX
    } else {
        0
    }
}

/// The key of the mating bucket of a position.
pub fn bucket_key(x: u32, y: u32) -> (key: u64)
    ensures
        key == spec_bucket_key(x, y),
{
    bucket(x) as u64 * 0x1_0000_0000 + bucket(y) as u64
}

impl Cell {
    /// The place of the food that the cell eats, if it eats: the grid place
    /// nearest to it, where that lies on the grid, holds food, and the food
    /// is within the cell's eating distance.
    pub open spec fn spec_find_food(self, grid: Seq<Seq<Option<Food>>>, food_spacing: u32) -> Option<
        (int, int),
    > {
        let column = spec_nearest_index(self.x, food_spacing);
        let row = spec_nearest_index(self.y, food_spacing);
        if food_spacing > 0 && column < grid.len() && row < grid[column].len()
            && grid[column][row].is_some() && spec_in_reach(
            spec_axis_distance(
                self.x,
                self.y,
                grid[column][row].unwrap().x,
                grid[column][row].unwrap().y,
            ),
            self.spec_eating_distance(),
        ) {
            Some((column, row))
        } else {
            None
        }
    }

    /// Eats the food nearest to the cell if it is within reach, and says
    /// whether it did. The food that is eaten leaves the grid; nothing else
    /// on the grid changes.
    pub fn find_food_and_eat(&mut self, all_food: &mut Vec<Vec<Option<Food>>>, food_spacing: u32) -> (eaten:
        bool)
        ensures
            eaten == old(self).spec_find_food(grid_of(*old(all_food)), food_spacing).is_some(),
            eaten ==> *final(self) == old(self).spec_eat_food() && grid_of(*final(all_food))
                == without_food(
                grid_of(*old(all_food)),
                old(self).spec_find_food(grid_of(*old(all_food)), food_spacing).unwrap().0,
                old(self).spec_find_food(grid_of(*old(all_food)), food_spacing).unwrap().1,
            ),
            !eaten ==> *final(self) == *old(self) && grid_of(*final(all_food)) == grid_of(
                *old(all_food),
            ),
            !eaten ==> *final(all_food) == *old(all_food),
            eaten ==> grid_of(*final(all_food))[spec_nearest_index(
                old(self).x,
                food_spacing,
            )][spec_nearest_index(old(self).y, food_spacing)].is_none(),
    {
        if food_spacing == 0 {
            return false;
        }
        let nearest_food_x = nearest_index(self.x, food_spacing);
        let nearest_food_y = nearest_index(self.y, food_spacing);
        if nearest_food_x >= all_food.len() as u64 {
            return false;
        }
        let column = nearest_food_x as usize;
        if nearest_food_y >= all_food[column].len() as u64 {
            return false;
        }
        let row = nearest_food_y as usize;
        match all_food[column][row] {
            Some(food) => {
                let distance = axis_distance(self.x, self.y, food.x, food.y);
                if in_reach(distance, self.get_eating_distance()) {
                    self.eat_food();
                    all_food[column][row] = None;
                    assert(grid_of(*all_food) =~= without_food(
                        grid_of(*old(all_food)),
                        column as int,
                        row as int,
                    ));
                    true
                } else {
                    false
                }
            },
            None => false,
        }
    }

    /// Looks for a mate. A cell whose cooldown runs does nothing. Any other
    /// cell looks up the mating bucket of its position: where another cell is
    /// registered there, it restarts its own cooldown and returns that
    /// cell's index, and the registration stays; where none is, it registers
    /// itself under `index_to_add`.
    pub fn find_mate_and_reproduce(
        &mut self,
        index_to_add: usize,
        reproduction_locations: &mut HashMap<u64, usize>,
        config: &SimulatorConfig,
    ) -> (mate: Option<usize>)
        ensures
            mate == old(self).spec_find_mate(old(reproduction_locations)@),
            *final(self) == old(self).spec_after_mate_search(
                old(reproduction_locations)@,
                *config,
            ),
            final(reproduction_locations)@ == old(self).spec_register(
                index_to_add,
                old(reproduction_locations)@,
            ),
    {
        // a cell that has reproduced a short while ago does not try again
        if self.reproduction_cooldown != 0 {
            return None;
        }
        let box_loc = bucket_key(self.x, self.y);
        let found = match reproduction_locations.get(&box_loc) {
            Some(other_cell) => Some(*other_cell),
            None => None,
        };
        if found.is_some() {
            self.reproduction_cooldown = config.reproduction_cooldown;
        } else {
            reproduction_locations.insert(box_loc, index_to_add);
        }
        found
    }

    /// The index of the mate that the cell finds among the registered cells.
    pub open spec fn spec_find_mate(self, locations: Map<u64, usize>) -> Option<usize> {
        let key = spec_bucket_key(self.x, self.y);
        if self.reproduction_cooldown == 0 && locations.contains_key(key) {
            Some(locations[key])
        } else {
            None
        }
    }

    /// The cell after its search for a mate: its cooldown restarts where it
    /// found one.
    pub open spec fn spec_after_mate_search(
        self,
        locations: Map<u64, usize>,
        config: SimulatorConfig,
    ) -> Cell {
        if self.spec_find_mate(locations).is_some() {
            Cell { reproduction_cooldown: config.reproduction_cooldown, ..self }
        } else {
            self
        }
    }

    /// The registered cells after the search of this one, which registers
    /// where its cooldown is over and its bucket is free.
    pub open spec fn spec_register(self, index: usize, locations: Map<u64, usize>) -> Map<
        u64,
        usize,
    > {
        let key = spec_bucket_key(self.x, self.y);
        if self.reproduction_cooldown == 0 && !locations.contains_key(key) {
            locations.insert(key, index)
        } else {
            locations
        }
    }
}

impl Cell {
    /// The bounds of the reserve of a live cell whose genes are not
    /// negative: it is not below zero and not above the size of the stomach.
    pub open spec fn reserve_in_bounds(&self) -> bool {
        self.alive && self.genes.non_negative() ==> 0 <= self.stomach_amount
            <= self.genes.stomach_size
    }
}

/// The energy that a tick costs a cell without negative genes is not
/// negative.
pub proof fn lemma_energy_usage_not_negative(cell: Cell)
    requires
        cell.genes.non_negative(),
    ensures
        cell.spec_speed() >= 0,
        cell.spec_energy_usage() >= 0,
{
    let flagellum = cell.genes.flagellum_size as int * FLAGELLUM_SPEED_MULTIPLIER as int;
    let stomach = cell.genes.stomach_size as int * STOMACH_SIZE_SPEED_MULTIPLIER as int;
    lemma_trunc_div_bounds(flagellum, SCALE as int);
    lemma_trunc_div_bounds(stomach, SCALE as int);
    let speed = cell.spec_speed();
    assert(speed >= 0);
    let by_speed = STOMACH_DECREASE_FROM_SPEED_AMOUNT as int * speed as int;
    let by_size = STOMACH_DECREASE_FROM_SIZE_AMOUNT as int * cell.genes.size as int;
    lemma_trunc_div_bounds(by_speed, SCALE as int);
    lemma_trunc_div_bounds(by_size, SCALE as int);
}

/// Eating keeps the reserve in its bounds.
pub proof fn lemma_eat_food_keeps_bounds(cell: Cell)
    requires
        cell.reserve_in_bounds(),
    ensures
        cell.spec_eat_food().reserve_in_bounds(),
{
}

/// A new cell is alive and has its reserve in its bounds.
pub proof fn lemma_new_cell_in_bounds(
    genes: Genes,
    x: u32,
    y: u32,
    config: SimulatorConfig,
    words: Seq<u64>,
)
    ensures
        Cell::spec_new(genes, x, y, config, words).0.alive,
        Cell::spec_new(genes, x, y, config, words).0.reserve_in_bounds(),
{
}

/// Starting a gestation changes neither the reserve nor the genes nor
/// whether the cell lives.
pub proof fn lemma_start_reproduction_keeps_bounds(
    cell: Cell,
    other: Genes,
    config: SimulatorConfig,
    words: Seq<u64>,
)
    requires
        cell.reserve_in_bounds(),
    ensures
        cell.spec_start_reproduction(other, config, words).0.reserve_in_bounds(),
        cell.spec_start_reproduction(other, config, words).0.alive == cell.alive,
{
}

/// A tick keeps the reserve of a cell in its bounds, and a child that is
/// born in it is alive with its reserve in its bounds. A dead cell stays
/// dead.
pub proof fn lemma_simulate_step_keeps_bounds(cell: Cell, config: SimulatorConfig, words: Seq<u64>)
    requires
        cell.reserve_in_bounds(),
    ensures
        cell.spec_simulate_step(config, words).0.reserve_in_bounds(),
        cell.spec_simulate_step(config, words).0.alive ==> cell.alive,
        cell.spec_simulate_step(config, words).0.genes == cell.genes,
        cell.spec_simulate_step(config, words).1.is_some() ==> cell.spec_simulate_step(
            config,
            words,
        ).1.unwrap().alive && cell.spec_simulate_step(
            config,
            words,
        ).1.unwrap().reserve_in_bounds(),
{
    let (moved, second) = cell.spec_simulate_movement(config, words);
    assert(moved.stomach_amount == cell.stomach_amount && moved.genes == cell.genes && moved.alive
        == cell.alive);
    let (parent, child, third) = moved.spec_simulate_reproduction(config, second);
    assert(parent.genes == cell.genes);
    assert(parent.stomach_amount <= cell.stomach_amount);
    assert(parent.alive ==> cell.alive);
    if cell.genes.non_negative() {
        lemma_energy_usage_not_negative(parent);
    }
}

} // verus!
