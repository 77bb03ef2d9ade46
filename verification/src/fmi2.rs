//! FMI 2.0 status codes.
use vstd::prelude::*;
use crate::sim::SimulationError;

verus! {

/// The status returned by an FMI 2.0 function.
#[derive(Debug, Clone, Copy, PartialEq, Eq)]
pub enum fmi2Status {
    fmi2OK,
    fmi2Warning,
    fmi2Discard,
    fmi2Error,
    fmi2Fatal,
    fmi2Pending,
}

/// Whether a status lets the simulation go on (OK or Warning).
pub open spec fn is_success(status: fmi2Status) -> bool {
    status == fmi2Status::fmi2OK || status == fmi2Status::fmi2Warning
}

/// Checks the status of an FMI call: OK and Warning are passed on,
/// every other status is turned into `SimulationError::FMICall`.
pub fn call(status: fmi2Status) -> (res: Result<fmi2Status, SimulationError>)
    ensures
        is_success(status) ==> res == Ok::<fmi2Status, SimulationError>(status),
        !is_success(status) ==> res == Err::<fmi2Status, SimulationError>(SimulationError::FMICall),
{
    match status {
        fmi2Status::fmi2OK | fmi2Status::fmi2Warning => Ok(status),
        _ => Err(SimulationError::FMICall),
    }
}

/// What the simulation reads of a scalar variable of an FMI 2.0 model
/// description: its value reference and, for the derivative of a continuous
/// state (a `Real` with a `derivative` attribute), the index of that state
/// (counting the model variables from 1).
#[derive(Debug, PartialEq, Clone, Copy)]
pub struct ScalarVariable {
    pub valueReference: u32,
    pub derivative: Option<u32>,
}

/// The variable at a 1-based index.
pub open spec fn at_index(vars: Seq<ScalarVariable>, index: u32) -> ScalarVariable {
    vars[index - 1]
}

/// Whether a 1-based index names a model variable.
pub open spec fn is_variable_index(vars: Seq<ScalarVariable>, index: u32) -> bool {
    1 <= index <= vars.len()
}

/// Whether the variable at `index` is the derivative of a state that is a
/// model variable.
pub open spec fn is_state_derivative(vars: Seq<ScalarVariable>, index: u32) -> bool {
    &&& is_variable_index(vars, index)
    &&& at_index(vars, index).derivative is Some
    &&& is_variable_index(vars, at_index(vars, index).derivative->0)
}

/// The value references of the state derivatives listed (by 1-based index)
/// in the model structure, and those of their states, in the same order.
pub fn derivative_and_state_value_references(
    derivative_indices: &Vec<u32>,
    variables: &Vec<ScalarVariable>,
) -> (r: (Vec<u32>, Vec<u32>))
    requires
        forall|i: int| 0 <= i < derivative_indices.len() ==> #[trigger] is_state_derivative(variables@, derivative_indices@[i]),
    ensures
        r.0@ == derivative_indices@.map_values(|i: u32| at_index(variables@, i).valueReference),
        r.1@ == derivative_indices@.map_values(
            |i: u32| at_index(variables@, at_index(variables@, i).derivative->0).valueReference,
        ),
        r.0.len() == derivative_indices.len(),
        r.1.len() == derivative_indices.len(),
        forall|i: int| 0 <= i < derivative_indices.len() ==> {
            let d = #[trigger] variables@[derivative_indices@[i] - 1];
            &&& r.0@[i] == d.valueReference
            &&& r.1@[i] == variables@[d.derivative->0 - 1].valueReference
        },
{
    let mut derivative_vrs: Vec<u32> = Vec::new();
    let mut state_vrs: Vec<u32> = Vec::new();
    let mut k: usize = 0;
    while k < derivative_indices.len()
        invariant
            0 <= k <= derivative_indices.len(),
            forall|i: int| 0 <= i < derivative_indices.len() ==> #[trigger] is_state_derivative(variables@, derivative_indices@[i]),
            derivative_vrs.len() == k,
            state_vrs.len() == k,
            forall|i: int| 0 <= i < k ==> #[trigger] derivative_vrs@[i] == at_index(variables@, derivative_indices@[i]).valueReference,
            forall|i: int| 0 <= i < k ==> #[trigger] state_vrs@[i] == at_index(variables@, at_index(variables@, derivative_indices@[i]).derivative->0).valueReference,
        decreases derivative_indices.len() - k,
    {
        assert(is_state_derivative(variables@, derivative_indices@[k as int]));
        let variable = &variables[(derivative_indices[k] - 1) as usize];
        derivative_vrs.push(variable.valueReference);
        match variable.derivative {
            Some(state_index) => {
                state_vrs.push(variables[(state_index - 1) as usize].valueReference);
            },
            None => {},
        }
        k = k + 1;
    }
    assert(derivative_vrs@ =~= derivative_indices@.map_values(|i: u32| at_index(variables@, i).valueReference));
    assert(state_vrs@ =~= derivative_indices@.map_values(
        |i: u32| at_index(variables@, at_index(variables@, i).derivative->0).valueReference,
    ));
    (derivative_vrs, state_vrs)
}

} // verus!
