//! A genetic-algorithm optimizer for open-path travelling-salesman tours.
//!
//! Cities have integer coordinates; a tour is scored by the length of the
//! open path it describes (each edge rounded down to a whole unit), and a
//! shorter path is a fitter one.
pub mod city;
pub mod path;
pub mod perm;
pub mod random;
pub mod simulation;

pub use city::{city_distance, City};
pub use path::Path;
pub use random::Generator;
pub use simulation::{record_best, scaled_count, Rate, Simulation, SimulationError, SURVIVING_WEAK_COUNT};
