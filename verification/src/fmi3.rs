//! FMI 3.0 status codes.
use vstd::prelude::*;
use crate::sim::SimulationError;

verus! {

/// The status returned by an FMI 3.0 function.
#[derive(Debug, Clone, Copy, PartialEq, Eq)]
pub enum fmi3Status {
    fmi3OK,
    fmi3Warning,
    fmi3Discard,
    fmi3Error,
    fmi3Fatal,
}

/// Whether a status lets the simulation go on (OK or Warning).
pub open spec fn is_success(status: fmi3Status) -> bool {
    status == fmi3Status::fmi3OK || status == fmi3Status::fmi3Warning
}

/// Checks the status of an FMI call: OK and Warning are passed on,
/// every other status is turned into `SimulationError::FMICall`.
pub fn call(status: fmi3Status) -> (res: Result<fmi3Status, SimulationError>)
    ensures
        is_success(status) ==> res == Ok::<fmi3Status, SimulationError>(status),
        !is_success(status) ==> res == Err::<fmi3Status, SimulationError>(SimulationError::FMICall),
{
    match status {
        fmi3Status::fmi3OK | fmi3Status::fmi3Warning => Ok(status),
        _ => Err(SimulationError::FMICall),
    }
}

} // verus!
