//! Errors of the simulation layer.
use vstd::prelude::*;

verus! {

/// An error raised while preparing or running a simulation.
#[derive(Debug, PartialEq, Eq)]
pub enum SimulationError {
    /// An FMI function returned a status other than OK or Warning.
    FMICall,
    /// A parameter or an input of the simulation is not acceptable.
    Parameter(String),
    /// A textual input could not be parsed.
    Parse(String),
}


/// An executable result agrees with a specified one whose error is the
/// message of a `SimulationError::Parameter`.
pub open spec fn matches_parameter_error<T>(
    r: Result<T, SimulationError>,
    s: Result<T, Seq<char>>,
) -> bool {
    match (r, s) {
        (Ok(a), Ok(b)) => a == b,
        (Err(SimulationError::Parameter(m)), Err(e)) => m@ == e,
        _ => false,
    }
}

} // verus!
