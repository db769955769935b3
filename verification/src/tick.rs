//! What one tick does to a simulator, as a function of what it holds, and
//! what holds of every tick.

use crate::cell::{lemma_energy_usage_not_negative, spec_bucket_key, whole_steps, Cell};
use crate::fixed::saturate;
use crate::food::spec_nearest_index;
use crate::food::{
    lemma_spawn_in_grid, lemma_spawn_in_grid_fills, spec_add_food, without_food, Food,
};
use crate::simulator::{Reproduction, SimulatorConfig, SimulatorView};
use crate::statistics::{
    all_places, lemma_all_places_of_shape, lemma_full_grid_count, lemma_grid_count_monotone,
    lemma_grid_count_without, occupied_places,
};
use vstd::prelude::*;

verus! {

/// The state that the pass over the population works on.
pub ghost struct PassState {
    pub cells: Seq<Cell>,
    pub food: Seq<Seq<Option<Food>>>,
    pub words: Seq<u64>,
    /// The cells registered in mating buckets, by the key of their bucket.
    pub locations: Map<u64, usize>,
}

/// The state after the cell at `index` has had its turn. A dead cell is
/// skipped. A live one eats the food nearest to it if that is within reach;
/// then, in asexual mode, it starts a gestation from its own genes if its
/// cooldown is over, and in sexual mode it looks for a mate and starts a
/// gestation, from its own genes, in the mate that it finds; then it goes
/// through its tick, and a child that it bears joins the end of the
/// population.
pub open spec fn visit(state: PassState, config: SimulatorConfig, index: int) -> PassState {
    let cell = state.cells[index];
    if !cell.alive {
        state
    } else {
        let hit = cell.spec_find_food(state.food, config.food_spacing);
        let fed = if hit.is_some() {
            cell.spec_eat_food()
        } else {
            cell
        };
        let food = if hit.is_some() {
            without_food(state.food, hit.unwrap().0, hit.unwrap().1)
        } else {
            state.food
        };
        let mated = match config.reproduction {
            Reproduction::Asexual => {
                if fed.reproduction_cooldown == 0 {
                    let (carrying, rest) = fed.spec_start_reproduction(
                        fed.genes,
                        config,
                        state.words,
                    );
                    PassState {
                        cells: state.cells.update(index, carrying),
                        food,
                        words: rest,
                        locations: state.locations,
                    }
                } else {
                    PassState {
                        cells: state.cells.update(index, fed),
                        food,
                        words: state.words,
                        locations: state.locations,
                    }
                }
            },
            Reproduction::Sexual => {
                let mate = fed.spec_find_mate(state.locations);
                let cells = state.cells.update(
                    index,
                    fed.spec_after_mate_search(state.locations, config),
                );
                let locations = fed.spec_register(index as usize, state.locations);
                if mate.is_some() && mate.unwrap() < cells.len() {
                    let (carrying, rest) = cells[mate.unwrap() as int].spec_start_reproduction(
                        fed.genes,
                        config,
                        state.words,
                    );
                    PassState {
                        cells: cells.update(mate.unwrap() as int, carrying),
                        food,
                        words: rest,
                        locations,
                    }
                } else {
                    PassState { cells, food, words: state.words, locations }
                }
            },
        };
        let (stepped, child, rest) = mated.cells[index].spec_simulate_step(config, mated.words);
        let cells = mated.cells.update(index, stepped);
        PassState {
            cells: if child.is_some() {
                cells.push(child.unwrap())
            } else {
                cells
            },
            food,
            words: rest,
            locations: mated.locations,
        }
    }
}

/// The state after the first `upto` cells have had their turn, in the order
/// of the population.
pub open spec fn pass(state: PassState, config: SimulatorConfig, upto: int) -> PassState
    decreases upto,
{
    if upto <= 0 {
        state
    } else {
        visit(pass(state, config, upto - 1), config, upto - 1)
    }
}

/// Picks the live cells.
pub open spec fn is_alive() -> spec_fn(Cell) -> bool {
    |cell: Cell| cell.alive
}

/// The state in which the pass over the population starts: after the spawn
/// pass, with no cell registered in a mating bucket.
pub open spec fn before_turns(before: SimulatorView) -> PassState {
    let (food, words) = spec_add_food(before.food, before.config, before.words);
    PassState { cells: before.cells, food, words, locations: Map::empty() }
}

/// The state after every cell that was in the population before the tick
/// has had its turn.
pub open spec fn after_turns(before: SimulatorView) -> PassState {
    pass(before_turns(before), before.config, before.cells.len() as int)
}

/// The simulator after one tick: the counter goes up by one, the spawn pass
/// runs over the grid, every cell that was in the population before the tick
/// has its turn, and the dead leave the population, the others keeping their
/// order.
pub open spec fn spec_simulate_step(before: SimulatorView) -> SimulatorView {
    let passed = after_turns(before);
    SimulatorView {
        config: before.config,
        steps: (before.steps + 1) as u32,
        cells: passed.cells.filter(is_alive()),
        food: passed.food,
        words: passed.words,
    }
}

/// The simulator after a number of ticks.
pub open spec fn spec_run(before: SimulatorView, ticks: nat) -> SimulatorView
    decreases ticks,
{
    if ticks == 0 {
        before
    } else {
        spec_simulate_step(spec_run(before, (ticks - 1) as nat))
    }
}

/// A turn never shortens the population and keeps the shape of the grid.
pub proof fn lemma_visit_shape(state: PassState, config: SimulatorConfig, index: int)
    requires
        0 <= index < state.cells.len(),
    ensures
        visit(state, config, index).cells.len() >= state.cells.len(),
        visit(state, config, index).food.len() == state.food.len(),
        forall|i: int|
            0 <= i < state.food.len() ==> (#[trigger] visit(state, config, index).food[i]).len()
                == state.food[i].len(),
{
}

/// Every cell of a population has its reserve in its bounds.
pub open spec fn all_in_bounds(cells: Seq<Cell>) -> bool {
    forall|i: int| 0 <= i < cells.len() ==> (#[trigger] cells[i]).reserve_in_bounds()
}

/// The turn of one cell keeps every reserve in its bounds.
pub proof fn lemma_visit_keeps_bounds(state: PassState, config: SimulatorConfig, index: int)
    requires
        0 <= index < state.cells.len(),
        all_in_bounds(state.cells),
    ensures
        all_in_bounds(visit(state, config, index).cells),
{
    let cell = state.cells[index];
    assert(cell.reserve_in_bounds());
}

/// The turns of the first `upto` cells keep every reserve in its bounds,
/// and never shorten the population.
pub proof fn lemma_pass_keeps_bounds(state: PassState, config: SimulatorConfig, upto: int)
    requires
        upto <= state.cells.len(),
        all_in_bounds(state.cells),
    ensures
        all_in_bounds(pass(state, config, upto).cells),
        pass(state, config, upto).cells.len() >= state.cells.len(),
    decreases upto,
{
    if upto > 0 {
        lemma_pass_keeps_bounds(state, config, upto - 1);
        let before = pass(state, config, upto - 1);
        lemma_visit_shape(before, config, upto - 1);
        lemma_visit_keeps_bounds(before, config, upto - 1);
    }
}

/// After a tick every cell of the population is alive: a cell that died in
/// the tick, or before it, has left the population.
pub proof fn lemma_tick_removes_the_dead(before: SimulatorView)
    ensures
        forall|i: int|
            0 <= i < spec_simulate_step(before).cells.len() ==> (#[trigger] spec_simulate_step(
                before,
            ).cells[i]).alive,
{
    broadcast use Seq::lemma_filter_pred;

    let after = spec_simulate_step(before);
    assert forall|i: int| 0 <= i < after.cells.len() implies (#[trigger] after.cells[i]).alive by {
        assert(is_alive()(after.cells[i]));
    }
}

/// Where every cell has its reserve in its bounds before a tick, every cell
/// has so after it: the reserve of a live cell without negative genes never
/// leaves the interval from zero to the size of its stomach, or to the
/// reserve that it was born with where its stomach is smaller than that.
pub proof fn lemma_tick_keeps_reserves_in_bounds(before: SimulatorView)
    requires
        all_in_bounds(before.cells),
    ensures
        all_in_bounds(spec_simulate_step(before).cells),
{
    let (food, words) = spec_add_food(before.food, before.config, before.words);
    let start = PassState { cells: before.cells, food, words, locations: Map::empty() };
    lemma_pass_keeps_bounds(start, before.config, before.cells.len() as int);
    let passed = pass(start, before.config, before.cells.len() as int);
    let after = spec_simulate_step(before);
    assert forall|i: int| 0 <= i < after.cells.len() implies (
    #[trigger] after.cells[i]).reserve_in_bounds() by {
        assert(passed.cells.filter(is_alive()).contains(after.cells[i]));
        passed.cells.lemma_filter_contains_rev(is_alive(), after.cells[i]);
        let k = choose|k: int| 0 <= k < passed.cells.len() && passed.cells[k] == after.cells[i];
        assert(passed.cells[k].reserve_in_bounds());
    }
}

/// The turn of a cell puts no food on the grid: a place that holds food
/// after it held the same food before it.
pub proof fn lemma_visit_only_removes_food(state: PassState, config: SimulatorConfig, index: int)
    requires
        0 <= index < state.cells.len(),
    ensures
        forall|i: int, j: int|
            0 <= i < state.food.len() && 0 <= j < state.food[i].len() && (#[trigger] visit(
                state,
                config,
                index,
            ).food[i][j]).is_some() ==> visit(state, config, index).food[i][j] == state.food[i][j],
{
}

/// The turns of the population put no food on the grid: food that a cell
/// has eaten stays away until the spawn pass of a later tick.
pub proof fn lemma_pass_only_removes_food(state: PassState, config: SimulatorConfig, upto: int)
    requires
        upto <= state.cells.len(),
    ensures
        pass(state, config, upto).cells.len() >= state.cells.len(),
        pass(state, config, upto).food.len() == state.food.len(),
        forall|i: int|
            0 <= i < state.food.len() ==> (#[trigger] pass(state, config, upto).food[i]).len()
                == state.food[i].len(),
        forall|i: int, j: int|
            0 <= i < state.food.len() && 0 <= j < state.food[i].len() && (#[trigger] pass(
                state,
                config,
                upto,
            ).food[i][j]).is_some() ==> pass(state, config, upto).food[i][j] == state.food[i][j],
    decreases upto,
{
    if upto > 0 {
        lemma_pass_only_removes_food(state, config, upto - 1);
        let before = pass(state, config, upto - 1);
        lemma_visit_shape(before, config, upto - 1);
        lemma_visit_only_removes_food(before, config, upto - 1);
    }
}

/// A tick puts no other food on a place that holds food: what the place
/// held before the tick it holds after it, or nothing.
pub proof fn lemma_tick_never_overwrites_food(before: SimulatorView)
    ensures
        spec_simulate_step(before).food.len() == before.food.len(),
        forall|i: int|
            0 <= i < before.food.len() ==> (#[trigger] spec_simulate_step(before).food[i]).len()
                == before.food[i].len(),
        forall|i: int, j: int|
            0 <= i < before.food.len() && 0 <= j < before.food[i].len()
                && before.food[i][j].is_some() && (#[trigger] spec_simulate_step(
                before,
            ).food[i][j]).is_some() ==> spec_simulate_step(before).food[i][j] == before.food[i][j],
{
    let (food, words) = spec_add_food(before.food, before.config, before.words);
    lemma_spawn_in_grid(before.food, before.config, before.words, before.food.len() as int);
    let start = PassState { cells: before.cells, food, words, locations: Map::empty() };
    lemma_pass_only_removes_food(start, before.config, before.cells.len() as int);
}

/// Two simulators that hold the same run alike: after the same number of
/// ticks they hold the same again.
pub proof fn lemma_run_is_determined(first: SimulatorView, second: SimulatorView, ticks: nat)
    requires
        first == second,
    ensures
        spec_run(first, ticks) == spec_run(second, ticks),
{
}

/// A sequence of live cells is its own selection of live cells.
proof fn lemma_filter_all_alive(cells: Seq<Cell>)
    requires
        forall|i: int| 0 <= i < cells.len() ==> (#[trigger] cells[i]).alive,
    ensures
        cells.filter(is_alive()) == cells,
    decreases cells.len(),
{
    reveal(Seq::filter);
    if cells.len() > 0 {
        lemma_filter_all_alive(cells.drop_last());
        assert(cells.drop_last().push(cells.last()) =~= cells);
    }
}

/// The selection of live cells starts with the first cell where that one is
/// alive.
proof fn lemma_filter_keeps_first(cells: Seq<Cell>)
    requires
        cells.len() > 0,
        cells[0].alive,
    ensures
        cells.filter(is_alive()).len() > 0,
        cells.filter(is_alive())[0] == cells[0],
    decreases cells.len(),
{
    reveal(Seq::filter);
    if cells.len() > 1 {
        lemma_filter_keeps_first(cells.drop_last());
    }
}

/// What the turn of one cell does to the population: every cell stays at its
/// place and keeps its genes, none comes back to life, the cells other than
/// the one whose turn it is keep their reserve and stay as alive as they
/// were, and at most one cell joins the end, which is alive.
pub proof fn lemma_visit_keeps_cells(state: PassState, config: SimulatorConfig, index: int)
    requires
        0 <= index < state.cells.len(),
    ensures
        state.cells.len() <= visit(state, config, index).cells.len() <= state.cells.len() + 1,
        forall|i: int|
            0 <= i < state.cells.len() ==> (#[trigger] visit(state, config, index).cells[i]).genes
                == state.cells[i].genes,
        forall|i: int|
            0 <= i < state.cells.len() && (#[trigger] visit(state, config, index).cells[i]).alive
                ==> state.cells[i].alive,
        forall|i: int|
            0 <= i < state.cells.len() && i != index ==> (#[trigger] visit(
                state,
                config,
                index,
            ).cells[i]).alive == state.cells[i].alive && visit(
                state,
                config,
                index,
            ).cells[i].stomach_amount == state.cells[i].stomach_amount,
        visit(state, config, index).cells.len() > state.cells.len() ==> visit(
            state,
            config,
            index,
        ).cells[state.cells.len() as int].alive,
{
}

/// What the turns of the first `upto` cells do to the population: every
/// cell that was there stays at its place and keeps its genes, none comes
/// back to life, and the cells that joined are alive.
pub proof fn lemma_pass_keeps_cells(state: PassState, config: SimulatorConfig, upto: int)
    requires
        upto <= state.cells.len(),
    ensures
        pass(state, config, upto).cells.len() >= state.cells.len(),
        forall|i: int|
            0 <= i < state.cells.len() ==> (#[trigger] pass(state, config, upto).cells[i]).genes
                == state.cells[i].genes,
        forall|i: int|
            0 <= i < state.cells.len() && (#[trigger] pass(state, config, upto).cells[i]).alive
                ==> state.cells[i].alive,
        forall|i: int|
            state.cells.len() <= i < pass(state, config, upto).cells.len() ==> (#[trigger] pass(
                state,
                config,
                upto,
            ).cells[i]).alive,
    decreases upto,
{
    if upto > 0 {
        lemma_pass_keeps_cells(state, config, upto - 1);
        let before = pass(state, config, upto - 1);
        lemma_visit_keeps_cells(before, config, upto - 1);
        let after = visit(before, config, upto - 1);
        assert(after == pass(state, config, upto));
        assert forall|i: int| state.cells.len() <= i < after.cells.len() implies (
        #[trigger] after.cells[i]).alive by {
            if i < before.cells.len() {
                assert(before.cells[i].alive);
            }
        }
    }
}

/// The population after a tick is the population before it, each cell at
/// its place with its genes, less the dead, and behind it the cells born in
/// the tick, which are alive. No dead cell comes back to life.
pub proof fn lemma_tick_keeps_order(before: SimulatorView)
    ensures
        after_turns(before).cells.len() >= before.cells.len(),
        spec_simulate_step(before).cells == after_turns(before).cells.take(
            before.cells.len() as int,
        ).filter(is_alive()) + after_turns(before).cells.skip(before.cells.len() as int),
        forall|i: int|
            0 <= i < before.cells.len() ==> (#[trigger] after_turns(before).cells[i]).genes
                == before.cells[i].genes,
        forall|i: int|
            0 <= i < before.cells.len() && (#[trigger] after_turns(before).cells[i]).alive
                ==> before.cells[i].alive,
        forall|i: int|
            before.cells.len() <= i < after_turns(before).cells.len() ==> (#[trigger] after_turns(
                before,
            ).cells[i]).alive,
{
    let count = before.cells.len() as int;
    lemma_pass_keeps_cells(before_turns(before), before.config, count);
    let passed = after_turns(before).cells;
    let stayed = passed.take(count);
    let born = passed.skip(count);
    assert(stayed + born =~= passed);
    Seq::filter_distributes_over_add(stayed, born, is_alive());
    assert forall|j: int| 0 <= j < born.len() implies (#[trigger] born[j]).alive by {
        assert(born[j] == passed[count + j]);
    }
    lemma_filter_all_alive(born);
}

/// The turns that follow the first leave the first cell its reserve, and
/// leave empty a grid place that the first turn left empty.
proof fn lemma_later_turns(
    state: PassState,
    config: SimulatorConfig,
    upto: int,
    column: int,
    row: int,
)
    requires
        1 <= upto <= state.cells.len(),
        0 <= column < state.food.len(),
        0 <= row < state.food[column].len(),
        visit(state, config, 0).food[column][row].is_none(),
    ensures
        pass(state, config, upto).cells.len() >= state.cells.len(),
        pass(state, config, upto).cells[0].stomach_amount == visit(
            state,
            config,
            0,
        ).cells[0].stomach_amount,
        pass(state, config, upto).cells[0].alive == visit(state, config, 0).cells[0].alive,
        pass(state, config, upto).cells[0].genes == visit(state, config, 0).cells[0].genes,
        pass(state, config, upto).food[column][row].is_none(),
    decreases upto,
{
    lemma_pass_only_removes_food(state, config, upto - 1);
    let before = pass(state, config, upto - 1);
    if upto == 1 {
        assert(pass(state, config, 0) == state);
        assert(pass(state, config, 1) == visit(state, config, 0));
        lemma_visit_keeps_cells(state, config, 0);
    } else {
        lemma_later_turns(state, config, upto - 1, column, row);
        lemma_visit_keeps_cells(before, config, upto - 1);
        lemma_visit_shape(before, config, upto - 1);
        lemma_visit_only_removes_food(before, config, upto - 1);
    }
}

/// A cell that stands on a food item as the first of the population, and
/// that neither carries a child nor is free to start one, eats that item in
/// the tick: the place is empty after the tick, and the cell, if the tick
/// leaves it alive, holds what it held, more by one food item up to the
/// size of its stomach, less by the energy that the tick costs.
pub proof fn lemma_cell_eats_the_food_it_stands_on(before: SimulatorView, column: int, row: int)
    requires
        before.config.food_spacing > 0,
        before.cells.len() > 0,
        before.cells[0].alive,
        before.cells[0].reproduction_cooldown > 0,
        before.cells[0].remaining_steps_until_child_born == 0,
        before.cells[0].spec_eating_distance() > 0,
        column == spec_nearest_index(before.cells[0].x, before.config.food_spacing),
        row == spec_nearest_index(before.cells[0].y, before.config.food_spacing),
        0 <= column < before.food.len(),
        0 <= row < before.food[column].len(),
        before.food[column][row] == Some(Food { x: before.cells[0].x, y: before.cells[0].y }),
    ensures
        spec_simulate_step(before).food[column][row].is_none(),
        saturate(
            before.cells[0].spec_eat_food().stomach_amount - before.cells[0].spec_energy_usage(),
        ) >= 0 ==> spec_simulate_step(before).cells.len() > 0 && spec_simulate_step(
            before,
        ).cells[0].genes == before.cells[0].genes && spec_simulate_step(
            before,
        ).cells[0].stomach_amount == saturate(
            before.cells[0].spec_eat_food().stomach_amount - before.cells[0].spec_energy_usage(),
        ),
{
    let cell = before.cells[0];
    let start = before_turns(before);
    lemma_spawn_in_grid(before.food, before.config, before.words, before.food.len() as int);
    assert(start.food[column][row] == before.food[column][row]);
    let reach = cell.spec_eating_distance() as int;
    assert(0 < reach * reach) by (nonlinear_arith)
        requires
            reach > 0,
    ;
    assert(cell.spec_find_food(start.food, before.config.food_spacing) == Some((column, row)));
    let first = visit(start, before.config, 0);
    assert(first.food[column][row].is_none());
    assert(first.cells[0].genes == cell.genes);
    assert(first.cells[0].stomach_amount == saturate(
        cell.spec_eat_food().stomach_amount - cell.spec_energy_usage(),
    ));
    lemma_later_turns(start, before.config, before.cells.len() as int, column, row);
    let passed = after_turns(before);
    if passed.cells[0].alive {
        lemma_filter_keeps_first(passed.cells);
    }
}

/// Whether a cell is ready to mate and fit to live through a tick: it is
/// alive, its cooldown is over, it carries no child, its genes are not
/// negative, and its reserve is within its bounds and covers the energy that
/// a tick costs.
pub open spec fn ready_to_mate(cell: Cell) -> bool {
    &&& cell.alive
    &&& cell.reproduction_cooldown == 0
    &&& cell.remaining_steps_until_child_born == 0
    &&& cell.genes.non_negative()
    &&& cell.reserve_in_bounds()
    &&& cell.stomach_amount >= cell.spec_energy_usage()
}

/// In sexual mode, two cells that are ready to mate and stand in one mating
/// bucket mate in the tick: the first of the population, which the second
/// finds, carries a child of its own genes and the second's for its full
/// gestation, and starts its cooldown; the second carries none, and has
/// counted its fresh cooldown down once.
pub proof fn lemma_pair_in_one_bucket_mates(before: SimulatorView)
    requires
        before.config.reproduction == Reproduction::Sexual,
        before.cells.len() == 2,
        ready_to_mate(before.cells[0]),
        ready_to_mate(before.cells[1]),
        spec_bucket_key(before.cells[0].x, before.cells[0].y) == spec_bucket_key(
            before.cells[1].x,
            before.cells[1].y,
        ),
    ensures
        spec_simulate_step(before).cells.len() == 2,
        spec_simulate_step(before).cells[0].remaining_steps_until_child_born == whole_steps(
            before.cells[0].genes.steps_until_child_born,
        ),
        spec_simulate_step(before).cells[0].child_genes == Some(
            before.cells[0].genes.spec_mix(
                before.cells[1].genes,
                before.config,
                visit(before_turns(before), before.config, 0).words,
            ).0,
        ),
        spec_simulate_step(before).cells[0].reproduction_cooldown
            == before.config.reproduction_cooldown,
        spec_simulate_step(before).cells[1].remaining_steps_until_child_born == 0,
        spec_simulate_step(before).cells[1].child_genes == before.cells[1].child_genes,
        spec_simulate_step(before).cells[1].reproduction_cooldown == if before.config.reproduction_cooldown
            > 0 {
            (before.config.reproduction_cooldown - 1) as u32
        } else {
            0
        },
{
    let config = before.config;
    let start = before_turns(before);
    let a = before.cells[0];
    let b = before.cells[1];
    lemma_energy_usage_not_negative(a);
    lemma_energy_usage_not_negative(b);
    let first = visit(start, config, 0);
    assert(pass(start, config, 0) == start);
    assert(pass(start, config, 1) == first);
    assert(pass(start, config, 2) == visit(first, config, 1));
    let key = spec_bucket_key(a.x, a.y);
    assert(!start.locations.contains_key(key));
    assert(first.cells.len() == 2);
    assert(first.locations == start.locations.insert(key, 0usize));
    assert(first.cells[1] == b);
    assert(first.cells[0].alive);
    assert(first.cells[0].genes == a.genes);
    assert(first.cells[0].remaining_steps_until_child_born == 0);
    let second = visit(first, config, 1);
    assert(first.locations.contains_key(key));
    assert(first.locations[key] == 0usize);
    assert(second.cells.len() == 2);
    assert(second.cells[0].alive);
    assert(second.cells[1].alive);
    lemma_filter_all_alive(second.cells);
}

/// Number of live cells among the first `upto` of a population.
pub open spec fn live_cells(cells: Seq<Cell>, upto: int) -> nat
    decreases upto,
{
    if upto <= 0 {
        0
    } else {
        live_cells(cells, upto - 1) + if cells[upto - 1].alive {
            1nat
        } else {
            0nat
        }
    }
}

/// The turn of a cell takes at most one food item off the grid, and none
/// where the cell is dead.
pub proof fn lemma_visit_eats_at_most_one(state: PassState, config: SimulatorConfig, index: int)
    requires
        0 <= index < state.cells.len(),
    ensures
        occupied_places(visit(state, config, index).food, state.food.len() as int) + (
        if state.cells[index].alive {
            1nat
        } else {
            0nat
        }) >= occupied_places(state.food, state.food.len() as int),
{
    let cell = state.cells[index];
    let hit = cell.spec_find_food(state.food, config.food_spacing);
    if cell.alive && hit.is_some() {
        lemma_grid_count_without(
            state.food,
            hit.unwrap().0,
            hit.unwrap().1,
            state.food.len() as int,
        );
    }
}

/// The turns of the first `upto` cells take at most as many food items off
/// the grid as there are live cells among them.
pub proof fn lemma_pass_food_count(state: PassState, config: SimulatorConfig, upto: int)
    requires
        0 <= upto <= state.cells.len(),
    ensures
        occupied_places(pass(state, config, upto).food, state.food.len() as int) + live_cells(
            state.cells,
            upto,
        ) >= occupied_places(state.food, state.food.len() as int),
    decreases upto,
{
    if upto > 0 {
        lemma_pass_food_count(state, config, upto - 1);
        lemma_pass_only_removes_food(state, config, upto - 1);
        lemma_pass_keeps_cells(state, config, upto - 1);
        let before = pass(state, config, upto - 1);
        lemma_visit_eats_at_most_one(before, config, upto - 1);
        assert(before.cells[upto - 1].alive ==> state.cells[upto - 1].alive);
    }
}

/// A tick leaves at least as much food on the grid as there was before it,
/// less one item for each cell that was alive before it: the spawn pass takes
/// none away, and a cell eats at most one item in its turn.
pub proof fn lemma_tick_food_count(before: SimulatorView)
    ensures
        occupied_places(spec_simulate_step(before).food, before.food.len() as int) + live_cells(
            before.cells,
            before.cells.len() as int,
        ) >= occupied_places(before.food, before.food.len() as int),
{
    lemma_spawn_in_grid(before.food, before.config, before.words, before.food.len() as int);
    let start = before_turns(before);
    lemma_grid_count_monotone(before.food, start.food, before.food.len() as int);
    lemma_pass_food_count(start, before.config, before.cells.len() as int);
}

/// With a food density of at most 1 the spawn pass fills the grid, so that
/// after the tick no more places are empty than there were live cells
/// before it.
pub proof fn lemma_tick_food_count_at_full_spawn(before: SimulatorView)
    requires
        before.config.food_density <= 1,
    ensures
        occupied_places(spec_simulate_step(before).food, before.food.len() as int) + live_cells(
            before.cells,
            before.cells.len() as int,
        ) >= all_places(before.food, before.food.len() as int),
{
    let count = before.food.len() as int;
    lemma_spawn_in_grid(before.food, before.config, before.words, count);
    lemma_spawn_in_grid_fills(before.food, before.config, before.words, count);
    let start = before_turns(before);
    assert forall|i: int, j: int|
        0 <= i < start.food.len() && 0 <= j < start.food[i].len() implies (
    #[trigger] start.food[i][j]).is_some() by {
        assert(start.food[i].len() == before.food[i].len());
    }
    lemma_full_grid_count(start.food, count);
    lemma_all_places_of_shape(before.food, start.food, count);
    lemma_pass_food_count(start, before.config, before.cells.len() as int);
}

} // verus!
