//! A colony of ants that forage for food on a grid, guided by a diffusing
//! pheromone field.

pub mod ant;
pub mod collision;
pub mod colony;
pub mod environment;
pub mod food;
pub mod nexus;
pub mod pheromone_grid;
pub mod scenario;
