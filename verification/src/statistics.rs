//! Figures that describe a population and a food grid.

use crate::cell::Cell;
use crate::fixed::{divide, saturate, saturating, trunc_div, SCALE};
use crate::food::{grid_of, without_food, Food};
use crate::genes::Genes;
use crate::simulator::{Simulator, SimulatorView};
use vstd::prelude::*;

verus! {

/// Number of places among the first `upto` of a column that hold food.
pub open spec fn occupied_in_column(line: Seq<Option<Food>>, upto: int) -> nat
    decreases upto,
{
    if upto <= 0 {
        0
    } else {
        occupied_in_column(line, upto - 1) + if line[upto - 1].is_some() {
            1nat
        } else {
            0nat
        }
    }
}

/// Number of places in the first `upto` columns of a grid that hold food.
pub open spec fn occupied_places(grid: Seq<Seq<Option<Food>>>, upto: int) -> nat
    decreases upto,
{
    if upto <= 0 {
        0
    } else {
        occupied_places(grid, upto - 1) + occupied_in_column(
            grid[upto - 1],
            grid[upto - 1].len() as int,
        )
    }
}

/// Number of places in the first `upto` columns of a grid.
pub open spec fn all_places(grid: Seq<Seq<Option<Food>>>, upto: int) -> nat
    decreases upto,
{
    if upto <= 0 {
        0
    } else {
        all_places(grid, upto - 1) + grid[upto - 1].len()
    }
}

/// The share of the places of a grid that hold food, in millionths; nothing
/// for a grid without places.
pub open spec fn spec_food_availability(grid: Seq<Seq<Option<Food>>>) -> Option<i64> {
    let total = all_places(grid, grid.len() as int);
    if total == 0 {
        None
    } else {
        Some(((occupied_places(grid, grid.len() as int) * SCALE) / total as int) as i64)
    }
}

/// A column that holds food wherever another of its length does holds no
/// less food.
pub proof fn lemma_column_count_monotone(
    first: Seq<Option<Food>>,
    second: Seq<Option<Food>>,
    upto: int,
)
    requires
        0 <= upto <= first.len(),
        first.len() == second.len(),
        forall|j: int| 0 <= j < upto && first[j].is_some() ==> (#[trigger] second[j]).is_some(),
    ensures
        occupied_in_column(first, upto) <= occupied_in_column(second, upto),
    decreases upto,
{
    if upto > 0 {
        lemma_column_count_monotone(first, second, upto - 1);
        assert(first[upto - 1].is_some() ==> second[upto - 1].is_some());
    }
}

/// A grid that holds food wherever another of its shape does holds no less
/// food.
pub proof fn lemma_grid_count_monotone(
    first: Seq<Seq<Option<Food>>>,
    second: Seq<Seq<Option<Food>>>,
    upto: int,
)
    requires
        0 <= upto <= first.len(),
        first.len() == second.len(),
        forall|i: int| 0 <= i < first.len() ==> (#[trigger] first[i]).len() == second[i].len(),
        forall|i: int, j: int|
            0 <= i < first.len() && 0 <= j < first[i].len() && first[i][j].is_some() ==> (
            #[trigger] second[i][j]).is_some(),
    ensures
        occupied_places(first, upto) <= occupied_places(second, upto),
    decreases upto,
{
    if upto > 0 {
        lemma_grid_count_monotone(first, second, upto - 1);
        let column = upto - 1;
        assert(first[column].len() == second[column].len());
        assert forall|j: int| 0 <= j < first[column].len() && first[column][j].is_some() implies (
        #[trigger] second[column][j]).is_some() by {
            assert(second[column][j].is_some());
        }
        lemma_column_count_monotone(first[column], second[column], first[column].len() as int);
    }
}

/// A column that loses the item of one place holds at most one item less.
pub proof fn lemma_column_count_without(line: Seq<Option<Food>>, row: int, upto: int)
    requires
        0 <= row < line.len(),
        0 <= upto <= line.len(),
    ensures
        occupied_in_column(line.update(row, None), upto) + 1 >= occupied_in_column(line, upto),
        upto <= row ==> occupied_in_column(line.update(row, None), upto) == occupied_in_column(
            line,
            upto,
        ),
    decreases upto,
{
    if upto > 0 {
        lemma_column_count_without(line, row, upto - 1);
    }
}

/// A grid that loses the item of one place holds at most one item less.
pub proof fn lemma_grid_count_without(
    grid: Seq<Seq<Option<Food>>>,
    column: int,
    row: int,
    upto: int,
)
    requires
        0 <= column < grid.len(),
        0 <= row < grid[column].len(),
        0 <= upto <= grid.len(),
    ensures
        occupied_places(without_food(grid, column, row), upto) + 1 >= occupied_places(grid, upto),
        upto <= column ==> occupied_places(without_food(grid, column, row), upto)
            == occupied_places(grid, upto),
    decreases upto,
{
    if upto > 0 {
        lemma_grid_count_without(grid, column, row, upto - 1);
        if upto - 1 == column {
            lemma_column_count_without(grid[column], row, grid[column].len() as int);
        }
    }
}

/// A grid that holds food on every place holds as many items as it has
/// places.
pub proof fn lemma_full_grid_count(grid: Seq<Seq<Option<Food>>>, upto: int)
    requires
        0 <= upto <= grid.len(),
        forall|i: int, j: int|
            0 <= i < grid.len() && 0 <= j < grid[i].len() ==> (#[trigger] grid[i][j]).is_some(),
    ensures
        occupied_places(grid, upto) == all_places(grid, upto),
    decreases upto,
{
    if upto > 0 {
        lemma_full_grid_count(grid, upto - 1);
        lemma_full_column_count(grid[upto - 1], grid[upto - 1].len() as int);
    }
}

/// A column that holds food on every place holds as many items as it has
/// places.
proof fn lemma_full_column_count(line: Seq<Option<Food>>, upto: int)
    requires
        0 <= upto <= line.len(),
        forall|j: int| 0 <= j < line.len() ==> (#[trigger] line[j]).is_some(),
    ensures
        occupied_in_column(line, upto) == upto,
    decreases upto,
{
    if upto > 0 {
        lemma_full_column_count(line, upto - 1);
    }
}

/// Two grids of one shape have as many places.
pub proof fn lemma_all_places_of_shape(
    first: Seq<Seq<Option<Food>>>,
    second: Seq<Seq<Option<Food>>>,
    upto: int,
)
    requires
        0 <= upto <= first.len(),
        first.len() == second.len(),
        forall|i: int| 0 <= i < first.len() ==> (#[trigger] first[i]).len() == second[i].len(),
    ensures
        all_places(first, upto) == all_places(second, upto),
    decreases upto,
{
    if upto > 0 {
        lemma_all_places_of_shape(first, second, upto - 1);
    }
}

/// Counts the places of a grid that hold food, and all its places.
pub fn count_food(food: &Vec<Vec<Option<Food>>>) -> (counts: (u64, u64))
    requires
        food.len() <= u32::MAX,
        forall|i: int| 0 <= i < food.len() ==> (#[trigger] food[i]).len() <= u32::MAX,
    ensures
        counts.0 == occupied_places(grid_of(*food), food.len() as int),
        counts.1 == all_places(grid_of(*food), food.len() as int),
        counts.0 <= counts.1,
{
    let mut occupied: u64 = 0;
    let mut total: u64 = 0;
    let mut column: usize = 0;
    while column < food.len()
        invariant
            column <= food.len(),
            food.len() <= u32::MAX,
            forall|i: int| 0 <= i < food.len() ==> (#[trigger] food[i]).len() <= u32::MAX,
            occupied == occupied_places(grid_of(*food), column as int),
            total == all_places(grid_of(*food), column as int),
            occupied <= total <= column * 0xffff_ffff,
        decreases food.len() - column,
    {
        let line = &food[column];
        let mut in_column: u64 = 0;
        let mut row: usize = 0;
        while row < line.len()
            invariant
                row <= line.len(),
                line.len() <= u32::MAX,
                in_column == occupied_in_column(line@, row as int),
                in_column <= row,
            decreases line.len() - row,
        {
            if line[row].is_some() {
                in_column += 1;
            }
            row += 1;
        }
        assert(column * 0xffff_ffff + 0xffff_ffff <= 0xffff_ffff * 0xffff_ffff) by (nonlinear_arith)
            requires
                column < 0xffff_ffff,
        ;
        occupied += in_column;
        total += line.len() as u64;
        column += 1;
    }
    (occupied, total)
}

/// The share of the places of a grid that hold food.
pub fn food_availability(food: &Vec<Vec<Option<Food>>>) -> (share: Option<i64>)
    requires
        food.len() <= u32::MAX,
        forall|i: int| 0 <= i < food.len() ==> (#[trigger] food[i]).len() <= u32::MAX,
    ensures
        share == spec_food_availability(grid_of(*food)),
        share.is_some() ==> 0 <= share.unwrap() <= SCALE,
{
    let (occupied, total) = count_food(food);
    if total == 0 {
        None
    } else {
        let scaled: u128 = occupied as u128 * SCALE as u128;
        assert(scaled / (total as u128) <= 1_000_000) by (nonlinear_arith)
            requires
                scaled == occupied * 1_000_000,
                occupied <= total,
                total > 0,
        ;
        Some((scaled / total as u128) as i64)
    }
}

/// The sums of the four traits over the first `upto` cells.
pub ghost struct TraitSums {
    pub size: int,
    pub flagellum_size: int,
    pub stomach_size: int,
    pub steps_until_child_born: int,
}

/// The sums of the four traits over the first `upto` cells.
pub open spec fn trait_sums(cells: Seq<Cell>, upto: int) -> TraitSums
    decreases upto,
{
    if upto <= 0 {
        TraitSums { size: 0, flagellum_size: 0, stomach_size: 0, steps_until_child_born: 0 }
    } else {
        let before = trait_sums(cells, upto - 1);
        let genes = cells[upto - 1].genes;
        TraitSums {
            size: before.size + genes.size,
            flagellum_size: before.flagellum_size + genes.flagellum_size,
            stomach_size: before.stomach_size + genes.stomach_size,
            steps_until_child_born: before.steps_until_child_born + genes.steps_until_child_born,
        }
    }
}

/// The average of each trait over a population, rounded toward zero;
/// nothing for an empty population.
pub open spec fn spec_average_genes(cells: Seq<Cell>) -> Option<Genes> {
    if cells.len() == 0 {
        None
    } else {
        let sums = trait_sums(cells, cells.len() as int);
        let count = cells.len() as int;
        Some(
            Genes {
                size: saturate(trunc_div(sums.size, count)),
                flagellum_size: saturate(trunc_div(sums.flagellum_size, count)),
                stomach_size: saturate(trunc_div(sums.stomach_size, count)),
                steps_until_child_born: saturate(trunc_div(sums.steps_until_child_born, count)),
            },
        )
    }
}

/// The average genes of a population.
pub fn average_genes(cells: &Vec<Cell>) -> (average: Option<Genes>)
    ensures
        average == spec_average_genes(cells@),
        average.is_none() <==> cells.len() == 0,
{
    if cells.len() == 0 {
        return None;
    }
    let mut size: i128 = 0;
    let mut flagellum_size: i128 = 0;
    let mut stomach_size: i128 = 0;
    let mut steps_until_child_born: i128 = 0;
    let mut index: usize = 0;
    while index < cells.len()
        invariant
            index <= cells.len(),
            (TraitSums {
                size: size as int,
                flagellum_size: flagellum_size as int,
                stomach_size: stomach_size as int,
                steps_until_child_born: steps_until_child_born as int,
            }) == trait_sums(cells@, index as int),
            -(index * 0x8000_0000_0000_0000) <= size <= index * 0x8000_0000_0000_0000,
            -(index * 0x8000_0000_0000_0000) <= flagellum_size <= index * 0x8000_0000_0000_0000,
            -(index * 0x8000_0000_0000_0000) <= stomach_size <= index * 0x8000_0000_0000_0000,
            -(index * 0x8000_0000_0000_0000) <= steps_until_child_born <= index
                * 0x8000_0000_0000_0000,
        decreases cells.len() - index,
    {
        let genes = cells[index].genes;
        size += genes.size as i128;
        flagellum_size += genes.flagellum_size as i128;
        stomach_size += genes.stomach_size as i128;
        steps_until_child_born += genes.steps_until_child_born as i128;
        index += 1;
    }
    let count: i128 = cells.len() as i128;
    Some(
        Genes {
            size: saturating(divide(size, count)),
            flagellum_size: saturating(divide(flagellum_size, count)),
            stomach_size: saturating(divide(stomach_size, count)),
            steps_until_child_born: saturating(divide(steps_until_child_born, count)),
        },
    )
}

/// What a set of simulators shows between two ticks, each figure averaged
/// over the simulators that have it. Fractions are in millionths.
#[derive(Debug, Clone, Copy, PartialEq, Eq)]
pub struct Summary {
    /// The average size of the populations.
    pub population_size: i64,
    /// The average share of grid places that hold food, over the simulators
    /// whose grid has places.
    pub food_available: Option<i64>,
    /// The average of the average genes, over the simulators whose
    /// population is not extinct.
    pub genes: Option<Genes>,
    /// The number of simulators whose population is extinct.
    pub extinct: usize,
}

/// Sums over the first simulators of a set.
pub ghost struct Totals {
    /// The population sizes.
    pub population: int,
    /// The shares of grid places that hold food.
    pub share: int,
    /// How many simulators have a grid with places.
    pub with_places: int,
    /// The average genes of the populations that are not extinct.
    pub genes: TraitSums,
    /// How many simulators have an extinct population.
    pub extinct: int,
}

/// The sums over the first `upto` simulators.
pub open spec fn totals(simulators: Seq<SimulatorView>, upto: int) -> Totals
    decreases upto,
{
    if upto <= 0 {
        Totals {
            population: 0,
            share: 0,
            with_places: 0,
            genes: TraitSums {
                size: 0,
                flagellum_size: 0,
                stomach_size: 0,
                steps_until_child_born: 0,
            },
            extinct: 0,
        }
    } else {
        let before = totals(simulators, upto - 1);
        let simulator = simulators[upto - 1];
        let share = spec_food_availability(simulator.food);
        let average = spec_average_genes(simulator.cells);
        Totals {
            population: before.population + simulator.cells.len(),
            share: before.share + if share.is_some() {
                share.unwrap() as int
            } else {
                0
            },
            with_places: before.with_places + if share.is_some() {
                1int
            } else {
                0int
            },
            genes: if average.is_some() {
                TraitSums {
                    size: before.genes.size + average.unwrap().size,
                    flagellum_size: before.genes.flagellum_size + average.unwrap().flagellum_size,
                    stomach_size: before.genes.stomach_size + average.unwrap().stomach_size,
                    steps_until_child_born: before.genes.steps_until_child_born
                        + average.unwrap().steps_until_child_born,
                }
            } else {
                before.genes
            },
            extinct: before.extinct + if average.is_some() {
                0int
            } else {
                1int
            },
        }
    }
}

/// The summary of a set of simulators; nothing for an empty set.
pub open spec fn spec_summarize(simulators: Seq<SimulatorView>) -> Option<Summary> {
    if simulators.len() == 0 {
        None
    } else {
        let count = simulators.len() as int;
        let sums = totals(simulators, count);
        let living = count - sums.extinct;
        Some(
            Summary {
                population_size: saturate((sums.population * SCALE) / count),
                food_available: if sums.with_places == 0 {
                    None
                } else {
                    Some(saturate(sums.share / sums.with_places))
                },
                genes: if living == 0 {
                    None
                } else {
                    Some(
                        Genes {
                            size: saturate(trunc_div(sums.genes.size, living)),
                            flagellum_size: saturate(trunc_div(sums.genes.flagellum_size, living)),
                            stomach_size: saturate(trunc_div(sums.genes.stomach_size, living)),
                            steps_until_child_born: saturate(
                                trunc_div(sums.genes.steps_until_child_born, living),
                            ),
                        },
                    )
                },
                extinct: sums.extinct as usize,
            },
        )
    }
}

/// A scaled quotient can be had from the quotient and the remainder.
proof fn lemma_scaled_quotient(dividend: int, divisor: int)
    requires
        0 <= dividend,
        0 < divisor,
    ensures
        (dividend * SCALE) / divisor == (dividend / divisor) * SCALE + ((dividend % divisor)
            * SCALE) / divisor,
        0 <= ((dividend % divisor) * SCALE) / divisor < SCALE,
{
    let quotient = dividend / divisor;
    let rest = dividend % divisor;
    vstd::arithmetic::div_mod::lemma_fundamental_div_mod(dividend, divisor);
    vstd::arithmetic::div_mod::lemma_mod_bound(dividend, divisor);
    assert(dividend * SCALE == rest * SCALE + (quotient * SCALE) * divisor) by (nonlinear_arith)
        requires
            dividend == divisor * quotient + rest,
    ;
    vstd::arithmetic::div_mod::lemma_hoist_over_denominator(
        rest * SCALE,
        quotient * SCALE,
        divisor as nat,
    );
    assert(0 <= rest * SCALE < SCALE * divisor) by (nonlinear_arith)
        requires
            0 <= rest < divisor,
            SCALE == 1_000_000,
    ;
    vstd::arithmetic::div_mod::lemma_div_pos_is_pos(rest * SCALE, divisor);
    vstd::arithmetic::div_mod::lemma_div_by_multiple_is_strongly_ordered(
        rest * SCALE,
        SCALE * divisor,
        SCALE as int,
        divisor,
    );
    vstd::arithmetic::div_mod::lemma_div_multiples_vanish(SCALE as int, divisor);
    assert(SCALE * divisor == divisor * SCALE) by (nonlinear_arith);
}

/// The views of a set of simulators.
pub open spec fn views_of(simulators: Seq<Simulator>) -> Seq<SimulatorView> {
    Seq::new(simulators.len(), |i: int| simulators[i]@)
}

/// Summarizes a set of simulators: the averages of their population sizes,
/// of their food shares and of their average genes.
pub fn summarize(simulators: &Vec<Simulator>) -> (summary: Option<Summary>)
    requires
        forall|i: int| 0 <= i < simulators.len() ==> (#[trigger] simulators[i]).well_formed(),
    ensures
        summary == spec_summarize(views_of(simulators@)),
        summary.is_none() <==> simulators.len() == 0,
{
    if simulators.len() == 0 {
        return None;
    }
    let ghost views = views_of(simulators@);
    let mut population: u128 = 0;
    let mut share: i128 = 0;
    let mut with_places: usize = 0;
    let mut size: i128 = 0;
    let mut flagellum_size: i128 = 0;
    let mut stomach_size: i128 = 0;
    let mut steps_until_child_born: i128 = 0;
    let mut extinct: usize = 0;
    let mut index: usize = 0;
    while index < simulators.len()
        invariant
            index <= simulators.len(),
            views == views_of(simulators@),
            forall|i: int| 0 <= i < simulators.len() ==> (#[trigger] simulators[i]).well_formed(),
            (Totals {
                population: population as int,
                share: share as int,
                with_places: with_places as int,
                genes: TraitSums {
                    size: size as int,
                    flagellum_size: flagellum_size as int,
                    stomach_size: stomach_size as int,
                    steps_until_child_born: steps_until_child_born as int,
                },
                extinct: extinct as int,
            }) == totals(views, index as int),
            population <= index * 0xffff_ffff_ffff_ffff,
            0 <= share <= index * 1_000_000,
            with_places <= index,
            extinct <= index,
            -(index * 0x8000_0000_0000_0000) <= size <= index * 0x8000_0000_0000_0000,
            -(index * 0x8000_0000_0000_0000) <= flagellum_size <= index * 0x8000_0000_0000_0000,
            -(index * 0x8000_0000_0000_0000) <= stomach_size <= index * 0x8000_0000_0000_0000,
            -(index * 0x8000_0000_0000_0000) <= steps_until_child_born <= index
                * 0x8000_0000_0000_0000,
        decreases simulators.len() - index,
    {
        let simulator = &simulators[index];
        assert(simulator@ == views[index as int]);
        assert(simulator.well_formed());
        population += simulator.get_cells().len() as u128;
        match simulator.get_food_availability_fraction() {
            Some(fraction) => {
                share += fraction as i128;
                with_places += 1;
            },
            None => {},
        }
        match simulator.get_average_genes() {
            Some(genes) => {
                size += genes.size as i128;
                flagellum_size += genes.flagellum_size as i128;
                stomach_size += genes.stomach_size as i128;
                steps_until_child_born += genes.steps_until_child_born as i128;
            },
            None => {
                extinct += 1;
            },
        }
        index += 1;
    }
    let count = simulators.len();
    let living = count - extinct;
    let whole: u128 = population / count as u128;
    let rest: u128 = population % count as u128;
    proof {
        lemma_scaled_quotient(population as int, count as int);
        assert(whole <= 0xffff_ffff_ffff_ffff) by (nonlinear_arith)
            requires
                whole == population / (count as u128),
                population <= count * 0xffff_ffff_ffff_ffff,
                count > 0,
        ;
    }
    let average_population: u128 = whole * SCALE as u128 + (rest * SCALE as u128) / count as u128;
    Some(
        Summary {
            population_size: if average_population > i64::MAX as u128 {
                i64::MAX
            } else {
                average_population as i64
            },
            food_available: if with_places == 0 {
                None
            } else {
                Some(saturating(share / with_places as i128))
            },
            genes: if living == 0 {
                None
            } else {
                Some(
                    Genes {
                        size: saturating(divide(size, living as i128)),
                        flagellum_size: saturating(divide(flagellum_size, living as i128)),
                        stomach_size: saturating(divide(stomach_size, living as i128)),
                        steps_until_child_born: saturating(
                            divide(steps_until_child_born, living as i128),
                        ),
                    },
                )
            },
            extinct,
        },
    )
}

} // verus!
