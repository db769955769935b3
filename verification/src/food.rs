//! The food field: a grid of places that hold at most one food item each,
//! filled at the start and replenished at random in every tick.

use crate::fixed::SCALE;
use crate::randoms::{advanced, drawn_unit, lemma_drawn_below, random_float, RandomStream};
use crate::simulator::SimulatorConfig;
use vstd::prelude::*;

verus! {

/// One food item, at a fixed position of the field.
#[derive(Debug, Clone, Copy, PartialEq, Eq, Structural)]
pub struct Food {
    pub x: u32,
    pub y: u32,
}

impl Food {
    /// A food item at a position.
    pub fn new(x: u32, y: u32) -> (food: Self)
        ensures
            food == (Food { x, y }),
    {
        Self { x, y }
    }
}

/// The food grid as a matrix: columns of optional food items.
pub open spec fn grid_of(food: Vec<Vec<Option<Food>>>) -> Seq<Seq<Option<Food>>> {
    Seq::new(food.len() as nat, |i: int| food[i]@)
}

/// The grid once the item at a place is gone.
pub open spec fn without_food(grid: Seq<Seq<Option<Food>>>, column: int, row: int) -> Seq<
    Seq<Option<Food>>,
> {
    grid.update(column, grid[column].update(row, None))
}

/// Index of the grid line nearest to a coordinate: the coordinate less one
/// spacing, over the spacing, rounded to nearest, and 0 where that is
/// negative.
pub open spec fn spec_nearest_index(coordinate: u32, food_spacing: u32) -> int
    recommends
        food_spacing > 0,
{
    if 2 * coordinate >= food_spacing {
        (2 * coordinate - food_spacing) / (2 * food_spacing as int)
    } else {
        0
    }
}

/// Where on a grid line of the given index food is placed: in the middle of
/// its grid cell.
pub open spec fn spec_food_position(index: int, food_spacing: u32) -> int {
    index * food_spacing + food_spacing / 2
}

/// Index of the grid line nearest to a coordinate.
pub fn nearest_index(coordinate: u32, food_spacing: u32) -> (index: u64)
    requires
        food_spacing > 0,
    ensures
        index == spec_nearest_index(coordinate, food_spacing),
{
    let doubled: u64 = 2 * coordinate as u64;
    if doubled >= food_spacing as u64 {
        (doubled - food_spacing as u64) / (2 * food_spacing as u64)
    } else {
        0
    }
}

/// Whether a grid has the columns and rows that a configuration asks for.
pub open spec fn grid_fits(grid: Seq<Seq<Option<Food>>>, config: SimulatorConfig) -> bool {
    &&& config.food_spacing > 0
    &&& grid.len() == config.columns()
    &&& forall|i: int| 0 <= i < grid.len() ==> (#[trigger] grid[i]).len() == config.rows()
}

/// The food item of a grid place.
pub open spec fn food_at(column: int, row: int, food_spacing: u32) -> Food {
    Food {
        x: spec_food_position(column, food_spacing) as u32,
        y: spec_food_position(row, food_spacing) as u32,
    }
}

/// A grid with food at every place.
pub open spec fn full_grid(config: SimulatorConfig) -> Seq<Seq<Option<Food>>> {
    Seq::new(
        config.columns() as nat,
        |i: int| Seq::new(config.rows() as nat, |j: int| Some(food_at(i, j, config.food_spacing))),
    )
}

/// Whether an empty grid place gets food on a draw: the draw is below the
/// reciprocal of the food density.
pub open spec fn spec_spawns(draw: i64, food_density: u32) -> bool {
    draw * food_density < SCALE
}

/// One column after the spawn pass has visited its first `upto` places. An
/// occupied place is left alone and costs no draw; an empty one costs a draw,
/// which decides whether food appears there.
pub open spec fn spawn_in_column(
    line: Seq<Option<Food>>,
    column: int,
    config: SimulatorConfig,
    words: Seq<u64>,
    upto: int,
) -> (Seq<Option<Food>>, Seq<u64>)
    decreases upto,
{
    if upto <= 0 {
        (line, words)
    } else {
        let (before, rest) = spawn_in_column(line, column, config, words, upto - 1);
        let row = upto - 1;
        if before[row].is_some() {
            (before, rest)
        } else if spec_spawns(drawn_unit(rest), config.food_density) {
            (before.update(row, Some(food_at(column, row, config.food_spacing))), advanced(rest))
        } else {
            (before, advanced(rest))
        }
    }
}

/// The grid after the spawn pass has visited its first `upto` columns.
pub open spec fn spawn_in_grid(
    grid: Seq<Seq<Option<Food>>>,
    config: SimulatorConfig,
    words: Seq<u64>,
    upto: int,
) -> (Seq<Seq<Option<Food>>>, Seq<u64>)
    decreases upto,
{
    if upto <= 0 {
        (grid, words)
    } else {
        let (before, rest) = spawn_in_grid(grid, config, words, upto - 1);
        let column = upto - 1;
        let (line, after) = spawn_in_column(
            before[column],
            column,
            config,
            rest,
            before[column].len() as int,
        );
        (before.update(column, line), after)
    }
}

/// The grid and the stream after a spawn pass over the whole grid.
pub open spec fn spec_add_food(
    grid: Seq<Seq<Option<Food>>>,
    config: SimulatorConfig,
    words: Seq<u64>,
) -> (Seq<Seq<Option<Food>>>, Seq<u64>) {
    spawn_in_grid(grid, config, words, grid.len() as int)
}

/// The spawn pass keeps the length of a column, leaves every occupied place
/// as it was, and changes no place that it has not visited yet.
pub proof fn lemma_spawn_in_column(
    line: Seq<Option<Food>>,
    column: int,
    config: SimulatorConfig,
    words: Seq<u64>,
    upto: int,
)
    requires
        upto <= line.len(),
    ensures
        spawn_in_column(line, column, config, words, upto).0.len() == line.len(),
        forall|j: int|
            0 <= j < line.len() && (line[j].is_some() || j >= upto) ==> spawn_in_column(
                line,
                column,
                config,
                words,
                upto,
            ).0[j] == line[j],
    decreases upto,
{
    if upto > 0 {
        lemma_spawn_in_column(line, column, config, words, upto - 1);
    }
}

/// The spawn pass keeps the shape of the grid, leaves every occupied place
/// as it was, and changes no column that it has not visited yet.
pub proof fn lemma_spawn_in_grid(
    grid: Seq<Seq<Option<Food>>>,
    config: SimulatorConfig,
    words: Seq<u64>,
    upto: int,
)
    requires
        upto <= grid.len(),
    ensures
        spawn_in_grid(grid, config, words, upto).0.len() == grid.len(),
        forall|i: int|
            0 <= i < grid.len() ==> (#[trigger] spawn_in_grid(grid, config, words, upto).0[i]).len()
                == grid[i].len(),
        forall|i: int|
            upto <= i < grid.len() ==> #[trigger] spawn_in_grid(grid, config, words, upto).0[i]
                == grid[i],
        forall|i: int, j: int|
            0 <= i < grid.len() && 0 <= j < grid[i].len() && grid[i][j].is_some()
                ==> #[trigger] spawn_in_grid(grid, config, words, upto).0[i][j] == grid[i][j],
    decreases upto,
{
    if upto > 0 {
        lemma_spawn_in_grid(grid, config, words, upto - 1);
        let (before, rest) = spawn_in_grid(grid, config, words, upto - 1);
        let column = upto - 1;
        lemma_spawn_in_column(before[column], column, config, rest, before[column].len() as int);
    }
}

/// With a food density of at most 1 the spawn pass fills every place of a
/// column that it visits.
pub proof fn lemma_spawn_in_column_fills(
    line: Seq<Option<Food>>,
    column: int,
    config: SimulatorConfig,
    words: Seq<u64>,
    upto: int,
)
    requires
        config.food_density <= 1,
        upto <= line.len(),
    ensures
        forall|j: int|
            0 <= j < upto ==> (#[trigger] spawn_in_column(line, column, config, words, upto).0[j]).is_some(),
    decreases upto,
{
    if upto > 0 {
        lemma_spawn_in_column_fills(line, column, config, words, upto - 1);
        lemma_spawn_in_column(line, column, config, words, upto - 1);
        let (before, rest) = spawn_in_column(line, column, config, words, upto - 1);
        lemma_drawn_below(rest, 0);
        assert(drawn_unit(rest) * config.food_density < SCALE) by (nonlinear_arith)
            requires
                0 <= drawn_unit(rest) < SCALE,
                0 <= config.food_density <= 1,
        ;
    }
}

/// With a food density of at most 1 the spawn pass fills every place of a
/// grid.
pub proof fn lemma_spawn_in_grid_fills(
    grid: Seq<Seq<Option<Food>>>,
    config: SimulatorConfig,
    words: Seq<u64>,
    upto: int,
)
    requires
        config.food_density <= 1,
        upto <= grid.len(),
    ensures
        forall|i: int, j: int|
            0 <= i < upto && 0 <= j < grid[i].len() ==> (#[trigger] spawn_in_grid(
                grid,
                config,
                words,
                upto,
            ).0[i][j]).is_some(),
    decreases upto,
{
    if upto > 0 {
        lemma_spawn_in_grid_fills(grid, config, words, upto - 1);
        lemma_spawn_in_grid(grid, config, words, upto - 1);
        let (before, rest) = spawn_in_grid(grid, config, words, upto - 1);
        let column = upto - 1;
        lemma_spawn_in_column_fills(
            before[column],
            column,
            config,
            rest,
            before[column].len() as int,
        );
    }
}

/// Decides from a draw whether an empty grid place gets food.
pub fn spawns(draw: i64, food_density: u32) -> (spawned: bool)
    requires
        0 <= draw <= SCALE,
    ensures
        spawned == spec_spawns(draw, food_density),
{
    assert(0 <= draw * food_density <= 1_000_000 * 0xffff_ffff) by (nonlinear_arith)
        requires
            0 <= draw <= 1_000_000,
            0 <= food_density <= 0xffff_ffff,
    ;
    draw * (food_density as i64) < SCALE
}

/// Every food position of the grid fits the field.
pub open spec fn positions_fit(config: SimulatorConfig) -> bool {
    &&& forall|i: int|
        0 <= i < config.columns() ==> 0 <= #[trigger] spec_food_position(i, config.food_spacing)
            < config.width
    &&& forall|j: int|
        0 <= j < config.rows() ==> 0 <= #[trigger] spec_food_position(j, config.food_spacing)
            < config.height
}

/// Food is placed in the middle of its grid cell, which lies on the field.
pub proof fn lemma_positions_fit(config: SimulatorConfig)
    requires
        config.food_spacing > 0,
    ensures
        positions_fit(config),
{
    let s = config.food_spacing as int;
    assert forall|i: int| 0 <= i < config.columns() implies 0 <= #[trigger] spec_food_position(
        i,
        config.food_spacing,
    ) < config.width by {
        lemma_position_in_extent(i, config.width as int, s);
    }
    assert forall|j: int| 0 <= j < config.rows() implies 0 <= #[trigger] spec_food_position(
        j,
        config.food_spacing,
    ) < config.height by {
        lemma_position_in_extent(j, config.height as int, s);
    }
}

/// The middle of a grid cell that fits an extent lies within the extent.
proof fn lemma_position_in_extent(index: int, extent: int, spacing: int)
    requires
        spacing > 0,
        extent >= 0,
        0 <= index < extent / spacing,
    ensures
        0 <= index * spacing + spacing / 2 < extent,
        0 <= index * spacing,
{
    vstd::arithmetic::div_mod::lemma_fundamental_div_mod(extent, spacing);
    vstd::arithmetic::div_mod::lemma_mod_bound(extent, spacing);
    assert(index * spacing + spacing <= (extent / spacing) * spacing) by (nonlinear_arith)
        requires
            index + 1 <= extent / spacing,
            spacing > 0,
    ;
    assert(spacing * (extent / spacing) == (extent / spacing) * spacing) by (nonlinear_arith);
    assert(0 <= index * spacing) by (nonlinear_arith)
        requires
            0 <= index,
            spacing > 0,
    ;
}

/// Puts food on every place of a grid.
pub fn fill_grid(food: &mut Vec<Vec<Option<Food>>>, config: &SimulatorConfig)
    requires
        grid_fits(grid_of(*old(food)), *config),
    ensures
        grid_of(*final(food)) == full_grid(*config),
        grid_fits(grid_of(*final(food)), *config),
{
    let food_spacing = config.food_spacing;
    let columns = config.width / food_spacing;
    let rows = config.height / food_spacing;
    let food_offset = food_spacing / 2;
    proof {
        lemma_positions_fit(*config);
    }
    let mut column: u32 = 0;
    while column < columns
        invariant
            column <= columns,
            columns == config.columns(),
            rows == config.rows(),
            food_spacing == config.food_spacing,
            food_offset == food_spacing / 2,
            positions_fit(*config),
            grid_fits(grid_of(*food), *config),
            forall|i: int|
                0 <= i < column ==> #[trigger] grid_of(*food)[i] == full_grid(*config)[i],
        decreases columns - column,
    {
        let mut row: u32 = 0;
        while row < rows
            invariant
                column < columns,
                row <= rows,
                columns == config.columns(),
                rows == config.rows(),
                food_spacing == config.food_spacing,
                food_offset == food_spacing / 2,
                positions_fit(*config),
                grid_fits(grid_of(*food), *config),
                forall|i: int|
                    0 <= i < column ==> #[trigger] grid_of(*food)[i] == full_grid(*config)[i],
                forall|j: int|
                    0 <= j < row ==> #[trigger] grid_of(*food)[column as int][j] == Some(
                        food_at(column as int, j, food_spacing),
                    ),
            decreases rows - row,
        {
            assert(food.len() == grid_of(*food).len());
            assert(food[column as int]@ == grid_of(*food)[column as int]);
            assert(spec_food_position(column as int, food_spacing) < config.width);
            assert(spec_food_position(row as int, food_spacing) < config.height);
            proof {
                lemma_position_in_extent(
                    column as int,
                    config.width as int,
                    food_spacing as int,
                );
                lemma_position_in_extent(row as int, config.height as int, food_spacing as int);
            }
            let ghost before = *food;
            food[column as usize][row as usize] = Some(
                Food::new(column * food_spacing + food_offset, row * food_spacing + food_offset),
            );
            assert(grid_of(*food) =~= grid_of(before).update(
                column as int,
                grid_of(before)[column as int].update(
                    row as int,
                    Some(food_at(column as int, row as int, food_spacing)),
                ),
            ));
            row += 1;
        }
        assert(grid_of(*food)[column as int] =~= full_grid(*config)[column as int]);
        column += 1;
    }
    assert(grid_of(*food) =~= full_grid(*config));
}

/// The spawn pass: every empty place of a grid gets food with the chance
/// that the food density gives; occupied places stay as they are.
pub fn spawn_pass(food: &mut Vec<Vec<Option<Food>>>, config: &SimulatorConfig, rng: &mut RandomStream)
    requires
        grid_fits(grid_of(*old(food)), *config),
    ensures
        (grid_of(*final(food)), final(rng)@) == spec_add_food(
            grid_of(*old(food)),
            *config,
            old(rng)@,
        ),
        grid_fits(grid_of(*final(food)), *config),
        forall|i: int, j: int|
            0 <= i < old(food).len() && 0 <= j < old(food)[i].len() && old(food)[i][j].is_some()
                ==> #[trigger] grid_of(*final(food))[i][j] == old(food)[i][j],
{
    let food_spacing = config.food_spacing;
    let columns = config.width / food_spacing;
    let rows = config.height / food_spacing;
    let food_offset = food_spacing / 2;
    let food_density = config.food_density;
    let ghost grid0 = grid_of(*food);
    let ghost words0 = rng@;
    proof {
        lemma_positions_fit(*config);
        lemma_spawn_in_grid(grid0, *config, words0, grid0.len() as int);
    }
    let mut column: u32 = 0;
    while column < columns
        invariant
            column <= columns,
            columns == config.columns(),
            rows == config.rows(),
            food_spacing == config.food_spacing,
            food_offset == food_spacing / 2,
            food_density == config.food_density,
            grid_fits(grid0, *config),
            grid_fits(grid_of(*food), *config),
            (grid_of(*food), rng@) == spawn_in_grid(
                grid0,
                *config,
                words0,
                column as int,
            ),
        decreases columns - column,
    {
        let ghost grid1 = grid_of(*food);
        let ghost words1 = rng@;
        let ghost line1 = grid1[column as int];
        let mut row: u32 = 0;
        assert(grid_of(*food) =~= grid1.update(column as int, line1));
        while row < rows
            invariant
                column < columns,
                row <= rows,
                columns == config.columns(),
                rows == config.rows(),
                food_spacing == config.food_spacing,
                food_offset == food_spacing / 2,
                food_density == config.food_density,
                grid_fits(grid1, *config),
                line1 == grid1[column as int],
                grid_of(*food) == grid1.update(
                    column as int,
                    spawn_in_column(line1, column as int, *config, words1, row as int).0,
                ),
                rng@ == spawn_in_column(line1, column as int, *config, words1, row as int).1,
            decreases rows - row,
        {
            proof {
                lemma_spawn_in_column(line1, column as int, *config, words1, row as int);
                lemma_position_in_extent(
                    column as int,
                    config.width as int,
                    food_spacing as int,
                );
                lemma_position_in_extent(row as int, config.height as int, food_spacing as int);
            }
            let ghost before = grid_of(*food);
            assert(food.len() == before.len());
            assert(food[column as int]@ == before[column as int]);
            let ghost visited = spawn_in_column(
                line1,
                column as int,
                *config,
                words1,
                row as int,
            );
            assert(before[column as int] == visited.0);
            if food[column as usize][row as usize].is_none() {
                let draw = random_float(rng);
                if spawns(draw, food_density) {
                    food[column as usize][row as usize] = Some(
                        Food::new(
                            column * food_spacing + food_offset,
                            row * food_spacing + food_offset,
                        ),
                    );
                    assert(grid_of(*food) =~= before.update(
                        column as int,
                        visited.0.update(
                            row as int,
                            Some(food_at(column as int, row as int, food_spacing)),
                        ),
                    ));
                }
            }
            assert(grid_of(*food) =~= grid1.update(
                column as int,
                spawn_in_column(line1, column as int, *config, words1, row + 1).0,
            ));
            row += 1;
        }
        proof {
            lemma_spawn_in_column(line1, column as int, *config, words1, rows as int);
            assert(grid_fits(grid_of(*food), *config));
        }
        column += 1;
    }
}

} // verus!
