use vstd::prelude::*;

use crate::food::FoodField;
use crate::pheromone_grid::{PheromoneGrid, PheromoneLevel, diffused};

verus! {

/// How far an ant sees, in cells; 0 means only the cell it stands on.
pub const ANT_VISION_RANGE: usize = 1;

/// Home pheromone a searching ant leaves on its own cell each tick.
pub const HOME_DOSE_CENTER: PheromoneLevel = 100;

/// Home pheromone a searching ant leaves on each other cell it sees.
pub const HOME_DOSE_AROUND: PheromoneLevel = 30;

/// Each diffusion step moves `1 / DIFFUSION_DIVISOR` of a cell's level, a
/// twentieth, to its neighbours.
pub const DIFFUSION_DIVISOR: PheromoneLevel = 20;

/// The tunable constants of a simulation.
#[derive(Copy, Clone, Debug, PartialEq, Eq, Structural)]
pub struct Config {
    pub width: usize,
    pub height: usize,
    pub vision_radius: usize,
    pub dose_center: PheromoneLevel,
    pub dose_around: PheromoneLevel,
    pub diffusion_divisor: PheromoneLevel,
}

impl Config {
    pub open spec fn wf(&self) -> bool {
        &&& self.width > 0
        &&& self.height > 0
        &&& self.width * self.height <= usize::MAX
        &&& self.vision_radius < usize::MAX / 2
        &&& self.diffusion_divisor > 0
    }

    /// A field of the given size with the standard vision, doses and
    /// diffusion rate.
    pub fn with_size(width: usize, height: usize) -> (r: Config)
        ensures
            r.width == width,
            r.height == height,
            r.vision_radius == ANT_VISION_RANGE,
            r.dose_center == HOME_DOSE_CENTER,
            r.dose_around == HOME_DOSE_AROUND,
            r.diffusion_divisor == DIFFUSION_DIVISOR,
    {
        Config {
            width,
            height,
            vision_radius: ANT_VISION_RANGE,
            dose_center: HOME_DOSE_CENTER,
            dose_around: HOME_DOSE_AROUND,
            diffusion_divisor: DIFFUSION_DIVISOR,
        }
    }
}

/// The fields the ants share: food and two pheromone trails.
pub struct Environment {
    pub config: Config,
    pub food: FoodField,
    pub food_pheromone: PheromoneGrid,
    pub home_pheromone: PheromoneGrid,
}

impl Environment {
    /// Every field is well formed and has the configured size.
    pub open spec fn wf(&self) -> bool {
        &&& self.config.wf()
        &&& self.food.wf()
        &&& self.food.width == self.config.width
        &&& self.food.height == self.config.height
        &&& self.food_pheromone.wf()
        &&& self.food_pheromone.width == self.config.width
        &&& self.food_pheromone.height == self.config.height
        &&& self.home_pheromone.wf()
        &&& self.home_pheromone.width == self.config.width
        &&& self.home_pheromone.height == self.config.height
    }

    /// Fields of the configured size, without food or pheromone.
    pub fn new(config: Config) -> (r: Environment)
        requires
            config.wf(),
        ensures
            r.wf(),
            r.config == config,
            forall|x: int, y: int| r.food.in_bounds(x, y) ==> #[trigger] r.food.amount(x, y) == 0,
            forall|x: int, y: int|
                r.home_pheromone.in_bounds(x, y) ==> #[trigger] r.home_pheromone.level(x, y) == 0,
            forall|x: int, y: int|
                r.food_pheromone.in_bounds(x, y) ==> #[trigger] r.food_pheromone.level(x, y) == 0,
    {
        Environment {
            config,
            food: FoodField::new(config.width, config.height),
            food_pheromone: PheromoneGrid::new(config.width, config.height),
            home_pheromone: PheromoneGrid::new(config.width, config.height),
        }
    }

    /// One diffusion step on both pheromone fields; the food stays.
    pub fn step(&mut self)
        requires
            old(self).wf(),
        ensures
            final(self).wf(),
            final(self).config == old(self).config,
            final(self).food == old(self).food,
            final(self).food_pheromone.cells@ == diffused(
                old(self).food_pheromone.cells@,
                old(self).config.width as int,
                old(self).config.height as int,
                old(self).config.diffusion_divisor,
            ),
            final(self).home_pheromone.cells@ == diffused(
                old(self).home_pheromone.cells@,
                old(self).config.width as int,
                old(self).config.height as int,
                old(self).config.diffusion_divisor,
            ),
    {
        let divisor = self.config.diffusion_divisor;
        self.food_pheromone.diffuse(divisor);
        self.home_pheromone.diffuse(divisor);
    }
}

} // verus!
