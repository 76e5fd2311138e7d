use vstd::prelude::*;

pub mod circuit;
pub mod cli;
pub mod decimal;
pub mod mna;
pub mod parser;
pub mod results;
pub mod scalar;
pub mod simulator;
pub mod solver;
pub mod text;
pub mod value;

pub use circuit::{Circuit, Component, Node};
pub use parser::SpiceParser;
pub use results::SimulationResult;
pub use simulator::Simulator;

verus! {

/// The version of the library.
pub const VERSION: &'static str = "0.1.0";

/// What the library is.
pub const DESCRIPTION: &'static str = "A SPICE-style circuit simulator";

} // verus!
