//! The simulator: its configuration, its population and food grid, and the
//! tick that advances them.

use crate::cell::Cell;
use crate::fixed::SCALE;
use crate::food::{fill_grid, full_grid, grid_fits, grid_of, spawn_pass, spec_add_food, Food};
use crate::genes::Genes;
use crate::randoms::{advanced, drawn, seeded_words, RandomStream};
use crate::statistics::{
    average_genes, food_availability, spec_average_genes, spec_food_availability,
};
use crate::tick::{
    all_in_bounds, is_alive, lemma_tick_keeps_reserves_in_bounds, lemma_tick_removes_the_dead,
    lemma_visit_shape, pass, spec_run, spec_simulate_step, visit, PassState,
};
use std::collections::HashMap;
use vstd::prelude::*;

verus! {


/// How cells reproduce.
#[derive(Debug, Clone, Copy, PartialEq, Eq, Structural)]
pub enum Reproduction {
    /// A cell starts a gestation on its own whenever its cooldown has run out.
    Asexual,
    /// A cell that finds another in its mating bucket impregnates it.
    Sexual,
}

impl Reproduction {
    /// The mode that a name stands for: `asexual` or `sexual`, and nothing
    /// for any other name.
    pub open spec fn spec_from_name(name: Seq<char>) -> Option<Reproduction> {
        if name == "asexual"@ {
            Some(Reproduction::Asexual)
        } else if name == "sexual"@ {
            Some(Reproduction::Sexual)
        } else {
            None
        }
    }

    /// The mode that a name stands for.
    pub fn from_name(name: &str) -> (mode: Option<Reproduction>)
        ensures
            mode == Self::spec_from_name(name@),
    {
        let given = name.to_owned();
        if given == "asexual".to_owned() {
            Some(Reproduction::Asexual)
        } else if given == "sexual".to_owned() {
            Some(Reproduction::Sexual)
        } else {
            None
        }
    }
}

impl Default for Reproduction {
    fn default() -> (mode: Self)
        ensures
            mode == Reproduction::Asexual,
    {
        Reproduction::Asexual
    }
}

/// Why a configuration is refused.
#[derive(Debug, Clone, Copy, PartialEq, Eq, Structural)]
pub enum ConfigError {
    /// The food grid spacing is zero.
    ZeroFoodSpacing,
    /// The field is narrower or lower than one grid cell.
    FieldTooSmall,
    /// The food density, a reciprocal probability, is zero.
    ZeroFoodDensity,
    /// The mutation chance is not a probability.
    MutationChanceOutOfRange,
    /// The mutation magnitude is negative.
    NegativeMutationChange,
    /// The name of a reproduction mode stands for none.
    UnknownReproduction,
}

/// Why a simulator takes no tick.
#[derive(Debug, Clone, Copy, PartialEq, Eq, Structural)]
pub enum StepError {
    /// The configuration is not valid, or the grid has not the shape that
    /// it asks for.
    NotWellFormed,
    /// The tick counter is at its end.
    CounterAtEnd,
}

/// The parameters of a run. Fractions are in millionths.
#[derive(Debug, Clone, Copy, PartialEq, Eq, Structural)]
pub struct SimulatorConfig {
    pub reproduction: Reproduction,
    /// Reciprocal of the chance that an empty grid cell gets food in a tick.
    pub food_density: u32,
    pub width: u32,
    pub height: u32,
    pub cell_number: u32,
    pub food_spacing: u32,
    pub reproduction_cooldown: u32,
    pub mutation_chance: i64,
    pub mutation_percent_change: i64,
}

impl SimulatorConfig {
    /// The default run: asexual, 12 cells on a field of 1600 by 1600.
    pub fn new() -> (config: Self)
        ensures
            config == (SimulatorConfig {
                reproduction: Reproduction::Asexual,
                food_density: 240,
                width: 1_600,
                height: 1_600,
                cell_number: 12,
                food_spacing: 40,
                reproduction_cooldown: 200,
                mutation_chance: 10_000,
                mutation_percent_change: 100_000,
            }),
            config.valid(),
    {
        Self {
            reproduction: Reproduction::Asexual,
            food_density: 240,
            width: 1_600,
            height: 1_600,
            cell_number: 12,
            food_spacing: 40,
            reproduction_cooldown: 200,
            mutation_chance: 10_000,
            mutation_percent_change: 100_000,
        }
    }

    /// The first reason, in the order of `ConfigError`, for which the
    /// configuration is refused.
    pub open spec fn defect(&self) -> Option<ConfigError> {
        if self.food_spacing == 0 {
            Some(ConfigError::ZeroFoodSpacing)
        } else if self.width < self.food_spacing || self.height < self.food_spacing {
            Some(ConfigError::FieldTooSmall)
        } else if self.food_density == 0 {
            Some(ConfigError::ZeroFoodDensity)
        } else if self.mutation_chance < 0 || self.mutation_chance > SCALE {
            Some(ConfigError::MutationChanceOutOfRange)
        } else if self.mutation_percent_change < 0 {
            Some(ConfigError::NegativeMutationChange)
        } else {
            None
        }
    }

    /// A configuration that a simulator accepts.
    pub open spec fn valid(&self) -> bool {
        self.defect().is_none()
    }

    /// Number of columns of the food grid.
    pub open spec fn columns(&self) -> int
        recommends
            self.food_spacing > 0,
    {
        self.width as int / self.food_spacing as int
    }

    /// Number of rows of the food grid.
    pub open spec fn rows(&self) -> int
        recommends
            self.food_spacing > 0,
    {
        self.height as int / self.food_spacing as int
    }

    /// Accepts a valid configuration and names the defect of any other.
    pub fn validate(&self) -> (checked: Result<(), ConfigError>)
        ensures
            checked == match self.defect() {
                Some(error) => Err::<(), ConfigError>(error),
                None => Ok(()),
            },
            checked.is_ok() <==> self.valid(),
    {
        if self.food_spacing == 0 {
            Err(ConfigError::ZeroFoodSpacing)
        } else if self.width < self.food_spacing || self.height < self.food_spacing {
            Err(ConfigError::FieldTooSmall)
        } else if self.food_density == 0 {
            Err(ConfigError::ZeroFoodDensity)
        } else if self.mutation_chance < 0 || self.mutation_chance > SCALE {
            Err(ConfigError::MutationChanceOutOfRange)
        } else if self.mutation_percent_change < 0 {
            Err(ConfigError::NegativeMutationChange)
        } else {
            Ok(())
        }
    }
}

/// One simulation: the configuration, the tick counter, the population in
/// its order, the food grid and the random stream.
pub struct Simulator {
    config: SimulatorConfig,
    steps: u32,
    cells: Vec<Cell>,
    food: Vec<Vec<Option<Food>>>,
    rng: RandomStream,
}

/// What a simulator holds.
pub ghost struct SimulatorView {
    pub config: SimulatorConfig,
    pub steps: u32,
    pub cells: Seq<Cell>,
    /// The food grid: one sequence per column.
    pub food: Seq<Seq<Option<Food>>>,
    /// The state of the random stream.
    pub words: Seq<u64>,
}

impl View for Simulator {
    type V = SimulatorView;

    closed spec fn view(&self) -> SimulatorView {
        SimulatorView {
            config: self.config,
            steps: self.steps,
            cells: self.cells@,
            food: grid_of(self.food),
            words: self.rng@,
        }
    }
}

/// The first `upto` cells of a new simulator, and the stream after they
/// were made. Each takes its genes, then its two coordinates, then what a
/// new cell draws.
pub open spec fn initial_cells(config: SimulatorConfig, words: Seq<u64>, upto: int) -> (
    Seq<Cell>,
    Seq<u64>,
)
    decreases upto,
{
    if upto <= 0 {
        (Seq::empty(), words)
    } else {
        let (cells, rest) = initial_cells(config, words, upto - 1);
        let (genes, after_genes) = Genes::spec_new(config.reproduction, rest);
        let x = config.food_spacing / 2 + drawn(
            after_genes,
            (config.width - config.food_spacing) as u32,
        );
        let after_x = advanced(after_genes);
        let y = config.food_spacing / 2 + drawn(
            after_x,
            (config.height - config.food_spacing) as u32,
        );
        let (cell, after_cell) = Cell::spec_new(
            genes,
            x as u32,
            y as u32,
            config,
            advanced(after_x),
        );
        (cells.push(cell), after_cell)
    }
}

/// A new simulator: no tick has run, the population has the configured
/// size, and every place of the grid holds food.
pub open spec fn spec_new(config: SimulatorConfig, seed: u64) -> SimulatorView {
    let (cells, words) = initial_cells(config, seeded_words(seed), config.cell_number as int);
    SimulatorView { config, steps: 0, cells, food: full_grid(config), words }
}

/// A new population has the configured size; its cells are alive and have
/// their reserves in their bounds.
pub proof fn lemma_initial_cells(config: SimulatorConfig, words: Seq<u64>, upto: int)
    requires
        0 <= upto,
    ensures
        initial_cells(config, words, upto).0.len() == upto,
        all_in_bounds(initial_cells(config, words, upto).0),
        forall|i: int| 0 <= i < upto ==> (#[trigger] initial_cells(config, words, upto).0[i]).alive,
    decreases upto,
{
    if upto > 0 {
        lemma_initial_cells(config, words, upto - 1);
    }
}

/// The configuration after the options that are given are applied, and
/// whether they are: the first option that is refused leaves the
/// configuration as it was.
pub open spec fn spec_configure(
    config: SimulatorConfig,
    food_density: Option<u32>,
    repro_method: Option<&str>,
) -> (SimulatorConfig, Result<(), ConfigError>) {
    if food_density == Some(0u32) {
        (config, Err(ConfigError::ZeroFoodDensity))
    } else if repro_method.is_some() && Reproduction::spec_from_name(
        repro_method.unwrap()@,
    ).is_none() {
        (config, Err(ConfigError::UnknownReproduction))
    } else {
        (
            SimulatorConfig {
                food_density: if food_density.is_some() {
                    food_density.unwrap()
                } else {
                    config.food_density
                },
                reproduction: if repro_method.is_some() {
                    Reproduction::spec_from_name(repro_method.unwrap()@).unwrap()
                } else {
                    config.reproduction
                },
                ..config
            },
            Ok(()),
        )
    }
}

/// What a cell shows to a reader between two ticks.
#[derive(Debug, Clone, Copy, PartialEq, Eq)]
pub struct CellSnapshot {
    pub x: u32,
    pub y: u32,
    /// Heading, in degrees.
    pub degrees: u32,
    pub genes: Genes,
    pub remaining_steps_until_child_born: u32,
    pub alive: bool,
    pub display_seed: i64,
    /// The reserve as a fraction of the stomach, in millionths.
    pub fullness: Option<i64>,
}

/// What a simulator shows to a reader between two ticks.
#[derive(Debug, Clone, PartialEq, Eq)]
pub struct Snapshot {
    pub steps: u32,
    pub cells: Vec<CellSnapshot>,
    /// For every grid place, by columns, whether it holds food.
    pub food: Vec<Vec<bool>>,
}

/// What a cell shows.
pub open spec fn spec_cell_snapshot(cell: Cell) -> CellSnapshot {
    CellSnapshot {
        x: cell.x,
        y: cell.y,
        degrees: cell.degrees,
        genes: cell.genes,
        remaining_steps_until_child_born: cell.remaining_steps_until_child_born,
        alive: cell.alive,
        display_seed: cell.display_seed,
        fullness: cell.spec_fullness(),
    }
}

/// Whether a snapshot shows what a simulator holds: the tick counter, every
/// cell in the order of the population, and the occupancy of the grid.
pub open spec fn shows(snapshot: Snapshot, simulator: SimulatorView) -> bool {
    &&& snapshot.steps == simulator.steps
    &&& snapshot.cells.len() == simulator.cells.len()
    &&& forall|i: int|
        0 <= i < simulator.cells.len() ==> #[trigger] snapshot.cells[i] == spec_cell_snapshot(
            simulator.cells[i],
        )
    &&& snapshot.food.len() == simulator.food.len()
    &&& forall|i: int|
        0 <= i < simulator.food.len() ==> (#[trigger] snapshot.food[i]).len()
            == simulator.food[i].len()
    &&& forall|i: int, j: int|
        0 <= i < simulator.food.len() && 0 <= j < simulator.food[i].len()
            ==> #[trigger] snapshot.food[i][j] == simulator.food[i][j].is_some()
}

impl Simulator {
    /// A simulator for a valid configuration, with its random stream seeded
    /// by `seed`.
    pub fn new(config: SimulatorConfig, seed: u64) -> (simulator: Self)
        requires
            config.valid(),
        ensures
            simulator@ == spec_new(config, seed),
            simulator.well_formed(),
            simulator@.cells.len() == config.cell_number,
            all_in_bounds(simulator@.cells),
    {
        proof {
            lemma_initial_cells(config, seeded_words(seed), config.cell_number as int);
        }
        let mut rng = RandomStream::new(seed);
        let mut cells: Vec<Cell> = Vec::new();
        let mut made: u32 = 0;
        while made < config.cell_number
            invariant
                made <= config.cell_number,
                config.valid(),
                (cells@, rng@) == initial_cells(config, seeded_words(seed), made as int),
            decreases config.cell_number - made,
        {
            let genes = Genes::new(config.reproduction, &mut rng);
            let x = Cell::get_random_pos_in_bounds(&config, &mut rng);
            let y = Cell::random_pos_in_extent(config.height, config.food_spacing, &mut rng);
            let cell = Cell::new(genes, x, y, &config, &mut rng);
            cells.push(cell);
            made += 1;
        }

        let columns = config.width / config.food_spacing;
        let rows = config.height / config.food_spacing;
        let mut food: Vec<Vec<Option<Food>>> = Vec::new();
        let mut column: u32 = 0;
        while column < columns
            invariant
                column <= columns,
                food.len() == column,
                forall|i: int| 0 <= i < column ==> (#[trigger] food[i]).len() == rows,
            decreases columns - column,
        {
            let mut line: Vec<Option<Food>> = Vec::new();
            let mut row: u32 = 0;
            while row < rows
                invariant
                    row <= rows,
                    line.len() == row,
                decreases rows - row,
            {
                line.push(None);
                row += 1;
            }
            food.push(line);
            column += 1;
        }

        let mut new_self = Self { cells, food, config, steps: 0, rng };
        assert(grid_fits(grid_of(new_self.food), config));
        new_self.fill_food();
        new_self
    }

    /// A simulator for the configuration if it is valid, and its defect if
    /// not.
    pub fn try_new(config: SimulatorConfig, seed: u64) -> (made: Result<Self, ConfigError>)
        ensures
            match made {
                Ok(simulator) => config.valid() && simulator@ == spec_new(config, seed)
                    && simulator.well_formed(),
                Err(error) => config.defect() == Some(error),
            },
    {
        match config.validate() {
            Ok(()) => Ok(Self::new(config, seed)),
            Err(error) => Err(error),
        }
    }

    /// One tick, where the simulator can take one: it is well formed and its
    /// counter is not at its end. Otherwise nothing changes.
    pub fn step(&mut self) -> (taken: Result<(), StepError>)
        ensures
            !old(self).well_formed() ==> taken == Err::<(), StepError>(StepError::NotWellFormed),
            old(self).well_formed() && old(self)@.steps == u32::MAX ==> taken == Err::<
                (),
                StepError,
            >(StepError::CounterAtEnd),
            old(self).well_formed() && old(self)@.steps < u32::MAX ==> taken.is_ok(),
            taken.is_ok() ==> final(self)@ == spec_simulate_step(old(self)@),
            taken.is_ok() ==> final(self).well_formed(),
            taken.is_ok() ==> forall|i: int|
                0 <= i < final(self)@.cells.len() ==> (#[trigger] final(self)@.cells[i]).alive,
            taken.is_err() ==> final(self)@ == old(self)@,
            all_in_bounds(old(self)@.cells) ==> all_in_bounds(final(self)@.cells),
    {
        if !self.is_well_formed() {
            Err(StepError::NotWellFormed)
        } else if self.steps == u32::MAX {
            Err(StepError::CounterAtEnd)
        } else {
            self.simulate_step();
            Ok(())
        }
    }

    /// Runs a number of ticks.
    pub fn run(&mut self, ticks: u32)
        requires
            old(self).well_formed(),
            old(self)@.steps + ticks <= u32::MAX,
        ensures
            final(self)@ == spec_run(old(self)@, ticks as nat),
            final(self).well_formed(),
            final(self)@.steps == old(self)@.steps + ticks,
            final(self)@.config == old(self)@.config,
            all_in_bounds(old(self)@.cells) ==> all_in_bounds(final(self)@.cells),
    {
        let mut done: u32 = 0;
        while done < ticks
            invariant
                done <= ticks,
                self.well_formed(),
                self@ == spec_run(old(self)@, done as nat),
                old(self)@.steps + ticks <= u32::MAX,
                self@.steps == old(self)@.steps + done,
                self@.config == old(self)@.config,
                all_in_bounds(old(self)@.cells) ==> all_in_bounds(self@.cells),
            decreases ticks - done,
        {
            self.simulate_step();
            done += 1;
        }
    }

    /// Applies the options that are given, or none of them where one is
    /// refused: a food density of zero, or a name that stands for no
    /// reproduction mode.
    pub fn configure(&mut self, food_density: Option<u32>, repro_method: Option<&str>) -> (applied:
        Result<(), ConfigError>)
        ensures
            applied == spec_configure(old(self)@.config, food_density, repro_method).1,
            final(self)@ == (SimulatorView {
                config: spec_configure(old(self)@.config, food_density, repro_method).0,
                ..old(self)@
            }),
            applied.is_err() ==> final(self)@ == old(self)@,
            old(self).well_formed() ==> final(self).well_formed(),
    {
        let mut config = self.config;
        match food_density {
            Some(density) => {
                if density == 0 {
                    return Err(ConfigError::ZeroFoodDensity);
                }
                config.food_density = density;
            },
            None => {},
        }
        match repro_method {
            Some(name) => {
                match Reproduction::from_name(name) {
                    Some(reproduction) => {
                        config.reproduction = reproduction;
                    },
                    None => {
                        return Err(ConfigError::UnknownReproduction);
                    },
                }
            },
            None => {},
        }
        self.config = config;
        Ok(())
    }

    /// What the simulator shows between two ticks.
    pub fn snapshot(&self) -> (snapshot: Snapshot)
        ensures
            shows(snapshot, self@),
    {
        let mut cells: Vec<CellSnapshot> = Vec::new();
        let mut index: usize = 0;
        while index < self.cells.len()
            invariant
                index <= self.cells.len(),
                cells.len() == index,
                forall|i: int|
                    0 <= i < index ==> #[trigger] cells[i] == spec_cell_snapshot(self.cells[i]),
            decreases self.cells.len() - index,
        {
            let cell = &self.cells[index];
            cells.push(
                CellSnapshot {
                    x: cell.x,
                    y: cell.y,
                    degrees: cell.degrees,
                    genes: cell.genes,
                    remaining_steps_until_child_born: cell.remaining_steps_until_child_born,
                    alive: cell.alive,
                    display_seed: cell.display_seed,
                    fullness: cell.get_fullness(),
                },
            );
            index += 1;
        }
        let mut food: Vec<Vec<bool>> = Vec::new();
        let mut column: usize = 0;
        while column < self.food.len()
            invariant
                column <= self.food.len(),
                food.len() == column,
                forall|i: int| 0 <= i < column ==> (#[trigger] food[i]).len() == self.food[i].len(),
                forall|i: int, j: int|
                    0 <= i < column && 0 <= j < self.food[i].len() ==> #[trigger] food[i][j]
                        == self.food[i][j].is_some(),
            decreases self.food.len() - column,
        {
            let line = &self.food[column];
            let mut occupied: Vec<bool> = Vec::new();
            let mut row: usize = 0;
            while row < line.len()
                invariant
                    row <= line.len(),
                    occupied.len() == row,
                    forall|j: int| 0 <= j < row ==> #[trigger] occupied[j] == line[j].is_some(),
                decreases line.len() - row,
            {
                occupied.push(line[row].is_some());
                row += 1;
            }
            food.push(occupied);
            column += 1;
        }
        Snapshot { steps: self.steps, cells, food }
    }

    /// Sets the food density, which cannot be zero.
    pub fn set_food_density(&mut self, density: u32) -> (applied: Result<(), ConfigError>)
        ensures
            density == 0 ==> applied == Err::<(), ConfigError>(ConfigError::ZeroFoodDensity)
                && final(self)@ == old(self)@,
            density != 0 ==> applied.is_ok() && final(self)@ == (SimulatorView {
                config: SimulatorConfig { food_density: density, ..old(self)@.config },
                ..old(self)@
            }),
            old(self).well_formed() ==> final(self).well_formed(),
    {
        if density == 0 {
            Err(ConfigError::ZeroFoodDensity)
        } else {
            self.config.food_density = density;
            Ok(())
        }
    }

    /// Sets how the cells reproduce from the name of the mode, and refuses
    /// a name that stands for none.
    pub fn set_reproductive_method(&mut self, repro_method: &str) -> (applied: Result<
        (),
        ConfigError,
    >)
        ensures
            match Reproduction::spec_from_name(repro_method@) {
                Some(reproduction) => applied.is_ok() && final(self)@ == (SimulatorView {
                    config: SimulatorConfig { reproduction, ..old(self)@.config },
                    ..old(self)@
                }),
                None => applied == Err::<(), ConfigError>(ConfigError::UnknownReproduction)
                    && final(self)@ == old(self)@,
            },
            old(self).well_formed() ==> final(self).well_formed(),
    {
        match Reproduction::from_name(repro_method) {
            Some(reproduction) => {
                self.config.reproduction = reproduction;
                Ok(())
            },
            None => Err(ConfigError::UnknownReproduction),
        }
    }

    /// The share of the grid places that hold food, in millionths; nothing
    /// for a grid without places.
    pub fn get_food_availability_fraction(&self) -> (share: Option<i64>)
        requires
            self.well_formed(),
        ensures
            share == spec_food_availability(self@.food),
            share.is_some() ==> 0 <= share.unwrap() <= SCALE,
    {
        assert(forall|i: int|
            0 <= i < self.food.len() ==> (#[trigger] self.food[i])@ == grid_of(self.food)[i]);
        food_availability(&self.food)
    }

    /// The average of each trait over the population; nothing once the
    /// population is extinct.
    pub fn get_average_genes(&self) -> (average: Option<Genes>)
        ensures
            average == spec_average_genes(self@.cells),
            average.is_none() <==> self@.cells.len() == 0,
    {
        average_genes(&self.cells)
    }

    /// Sets how the cells reproduce.
    pub fn set_reproduction(&mut self, reproduction: Reproduction)
        ensures
            final(self)@ == (SimulatorView {
                config: SimulatorConfig { reproduction, ..old(self)@.config },
                ..old(self)@
            }),
            old(self).well_formed() ==> final(self).well_formed(),
    {
        self.config.reproduction = reproduction;
    }

    /// The configuration is valid and the grid has the shape that it asks
    /// for.
    pub open spec fn well_formed(&self) -> bool {
        self@.config.valid() && grid_fits(self@.food, self@.config)
    }

    /// Tests whether the configuration is valid and the grid has the shape
    /// that it asks for.
    pub fn is_well_formed(&self) -> (fits: bool)
        ensures
            fits == self.well_formed(),
    {
        if self.config.validate().is_err() {
            return false;
        }
        let columns = (self.config.width / self.config.food_spacing) as usize;
        let rows = (self.config.height / self.config.food_spacing) as usize;
        if self.food.len() != columns {
            return false;
        }
        let mut column: usize = 0;
        while column < self.food.len()
            invariant
                column <= self.food.len(),
                rows == self@.config.rows(),
                forall|i: int|
                    0 <= i < column ==> (#[trigger] grid_of(self.food)[i]).len() == rows,
            decreases self.food.len() - column,
        {
            if self.food[column].len() != rows {
                assert(grid_of(self.food)[column as int].len() != rows);
                return false;
            }
            column += 1;
        }
        true
    }

    /// The number of ticks that have run.
    pub fn get_steps(&self) -> (steps: u32)
        ensures
            steps == self@.steps,
    {
        self.steps
    }

    /// The configuration.
    pub fn get_config(&self) -> (config: &SimulatorConfig)
        ensures
            *config == self@.config,
    {
        &self.config
    }

    /// The configuration, to be changed between two ticks. The change is
    /// not validated: one that `validate` refuses, or one of the field or of
    /// the food spacing, leaves a simulator that is not well formed, which
    /// no tick accepts.
    pub fn get_config_mut(&mut self) -> (config: &mut SimulatorConfig)
        ensures
            *config == old(self)@.config,
            final(self)@ == (SimulatorView { config: *final(config), ..old(self)@ }),
    {
        &mut self.config
    }

    /// The population, in its order.
    pub fn get_cells(&self) -> (cells: &Vec<Cell>)
        ensures
            cells@ == self@.cells,
    {
        &self.cells
    }

    /// The food grid, by columns.
    pub fn get_food(&self) -> (food: &Vec<Vec<Option<Food>>>)
        ensures
            grid_of(*food) == self@.food,
    {
        &self.food
    }

    /// Adds a cell at the end of the population.
    pub fn add_cell(&mut self, new_cell: Cell)
        ensures
            final(self)@ == (SimulatorView { cells: old(self)@.cells.push(new_cell), ..old(self)@ }),
            old(self).well_formed() ==> final(self).well_formed(),
    {
        self.cells.push(new_cell);
    }

    /// Puts food on every place of the grid.
    pub fn fill_food(&mut self)
        requires
            old(self).well_formed(),
        ensures
            final(self)@ == (SimulatorView { food: full_grid(old(self)@.config), ..old(self)@ }),
            final(self).well_formed(),
    {
        fill_grid(&mut self.food, &self.config);
    }

    /// Removes the dead from the population; the others keep their order.
    pub fn remove_dead(&mut self)
        ensures
            final(self)@ == (SimulatorView {
                cells: old(self)@.cells.filter(is_alive()),
                ..old(self)@
            }),
            old(self).well_formed() ==> final(self).well_formed(),
    {
        let mut survivors: Vec<Cell> = Vec::new();
        let mut index: usize = 0;
        assert(self.cells@.take(0) =~= Seq::<Cell>::empty());
        while index < self.cells.len()
            invariant
                index <= self.cells.len(),
                self.cells == old(self).cells,
                self.config == old(self).config,
                self.steps == old(self).steps,
                self.food == old(self).food,
                self.rng == old(self).rng,
                survivors@ == self.cells@.take(index as int).filter(is_alive()),
            decreases self.cells.len() - index,
        {
            broadcast use Seq::lemma_filter_push;

            assert(self.cells@.take(index + 1) =~= self.cells@.take(index as int).push(
                self.cells@[index as int],
            ));
            if self.cells[index].alive {
                survivors.push(self.cells[index]);
            }
            index += 1;
        }
        assert(self.cells@.take(self.cells.len() as int) =~= self.cells@);
        self.cells = survivors;
    }

    /// One tick.
    pub fn simulate_step(&mut self)
        requires
            old(self).well_formed(),
            old(self)@.steps < u32::MAX,
        ensures
            final(self)@ == spec_simulate_step(old(self)@),
            final(self).well_formed(),
            forall|i: int|
                0 <= i < final(self)@.cells.len() ==> (#[trigger] final(self)@.cells[i]).alive,
            all_in_bounds(old(self)@.cells) ==> all_in_bounds(final(self)@.cells),
    {
        proof {
            lemma_tick_removes_the_dead(self@);
            if all_in_bounds(self@.cells) {
                lemma_tick_keeps_reserves_in_bounds(self@);
            }
        }
        self.steps += 1;

        self.add_food();

        let food_spacing = self.config.food_spacing;
        let ghost config = self.config;
        let ghost start = PassState {
            cells: self.cells@,
            food: grid_of(self.food),
            words: self.rng@,
            locations: Map::empty(),
        };

        // births join the end of the population and have their turn in the next tick
        let population = self.cells.len();
        let mut reproduction_locations: HashMap<u64, usize> = HashMap::new();
        let mut cell_index: usize = 0;
        while cell_index < population
            invariant
                cell_index <= population,
                population == start.cells.len(),
                population <= self.cells.len(),
                self.config == config,
                food_spacing == config.food_spacing,
                self.steps == old(self).steps + 1,
                grid_fits(grid_of(self.food), config),
                (PassState {
                    cells: self.cells@,
                    food: grid_of(self.food),
                    words: self.rng@,
                    locations: reproduction_locations@,
                }) == pass(start, config, cell_index as int),
            decreases population - cell_index,
        {
            let ghost state = PassState {
                cells: self.cells@,
                food: grid_of(self.food),
                words: self.rng@,
                locations: reproduction_locations@,
            };
            proof {
                lemma_visit_shape(state, config, cell_index as int);
            }
            let mut cell = self.cells[cell_index];
            // a dead cell has no turn
            if cell.alive {
                cell.find_food_and_eat(&mut self.food, food_spacing);

                match self.config.reproduction {
                    Reproduction::Asexual => {
                        if cell.reproduction_cooldown == 0 {
                            let genes = cell.genes;
                            cell.start_reproduction(&genes, &self.config, &mut self.rng);
                        }
                        self.cells[cell_index] = cell;
                    },
                    Reproduction::Sexual => {
                        let genes = cell.genes;
                        let found = cell.find_mate_and_reproduce(
                            cell_index,
                            &mut reproduction_locations,
                            &self.config,
                        );
                        self.cells[cell_index] = cell;
                        if let Some(index_to_impregnate) = found {
                            if index_to_impregnate < self.cells.len() {
                                let mut cell_to_impregnate = self.cells[index_to_impregnate];
                                cell_to_impregnate.start_reproduction(
                                    &genes,
                                    &self.config,
                                    &mut self.rng,
                                );
                                self.cells[index_to_impregnate] = cell_to_impregnate;
                            }
                        }
                    },
                }

                let mut cell = self.cells[cell_index];
                let possibly_new_cell = cell.simulate_step(&self.config, &mut self.rng);
                self.cells[cell_index] = cell;
                if let Some(new_cell) = possibly_new_cell {
                    self.cells.push(new_cell);
                }
            }
            assert((PassState {
                cells: self.cells@,
                food: grid_of(self.food),
                words: self.rng@,
                locations: reproduction_locations@,
            }) == visit(state, config, cell_index as int));
            cell_index += 1;
        }

        self.remove_dead();
    }

    /// The spawn pass: every empty place of the grid gets food with the
    /// chance that the food density gives; occupied places stay as they are.
    pub fn add_food(&mut self)
        requires
            old(self).well_formed(),
        ensures
            final(self)@ == (SimulatorView {
                food: spec_add_food(old(self)@.food, old(self)@.config, old(self)@.words).0,
                words: spec_add_food(old(self)@.food, old(self)@.config, old(self)@.words).1,
                ..old(self)@
            }),
            final(self).well_formed(),
            forall|i: int, j: int|
                0 <= i < old(self)@.food.len() && 0 <= j < old(self)@.food[i].len() && old(
                    self,
                )@.food[i][j].is_some() ==> #[trigger] final(self)@.food[i][j] == old(
                    self,
                )@.food[i][j],
    {
        spawn_pass(&mut self.food, &self.config, &mut self.rng);
    }

}

} // verus!
