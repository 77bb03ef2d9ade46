//! The part of an FMI 3.0 model description that the DAE set-up reads.
use vstd::prelude::*;
use crate::decimal::{decimal_digits, push_decimal};
use crate::sim::{SimulationError, matches_parameter_error};

verus! {

/// A model variable: its name, its value reference and, for the derivative of
/// a continuous state, the value reference of that state (the `derivative`
/// attribute).
#[derive(Debug, PartialEq)]
pub struct ModelVariable {
    pub name: String,
    pub valueReference: u32,
    pub derivative: Option<u32>,
}

/// The index of the first variable with value reference `vr`, or -1.
pub open spec fn position_of_value_reference(vars: Seq<ModelVariable>, vr: u32) -> int
    decreases vars.len(),
{
    if vars.len() == 0 {
        -1
    } else {
        let p = position_of_value_reference(vars.drop_last(), vr);
        if p >= 0 {
            p
        } else if vars.last().valueReference == vr {
            vars.len() - 1
        } else {
            -1
        }
    }
}

/// The message when no variable has a value reference.
pub open spec fn unknown_value_reference_message(vr: u32) -> Seq<char> {
    "No variable with value reference "@ + decimal_digits(vr as nat)
}

/// The index of the first variable with value reference `vr`, or the message
/// that there is none.
pub open spec fn spec_fetch_variable(vars: Seq<ModelVariable>, vr: u32) -> Result<usize, Seq<char>> {
    let p = position_of_value_reference(vars, vr);
    if p >= 0 {
        Ok(p as usize)
    } else {
        Err(unknown_value_reference_message(vr))
    }
}

pub proof fn lemma_position_bounds(vars: Seq<ModelVariable>, vr: u32)
    ensures
        -1 <= position_of_value_reference(vars, vr) < vars.len(),
        position_of_value_reference(vars, vr) >= 0 ==> vars[position_of_value_reference(vars, vr)].valueReference == vr,
    decreases vars.len(),
{
    if vars.len() > 0 {
        lemma_position_bounds(vars.drop_last(), vr);
    }
}

/// Finds the first variable with value reference `vr`; `Parameter` error if
/// there is none.
pub fn fetch_variable_by_value_reference(variables: &Vec<ModelVariable>, vr: u32) -> (r: Result<usize, SimulationError>)
    ensures
        matches_parameter_error(r, spec_fetch_variable(variables@, vr)),
        r matches Ok(i) ==> i < variables.len() && variables@[i as int].valueReference == vr,
        r matches Ok(i) ==> forall|j: int| 0 <= j < i ==> #[trigger] variables@[j].valueReference != vr,
        r is Err <==> forall|j: int| 0 <= j < variables.len() ==> #[trigger] variables@[j].valueReference != vr,
{
    proof {
        lemma_position_of_value_reference_is_first(variables@, vr);
    }
    let mut i: usize = 0;
    while i < variables.len()
        invariant
            0 <= i <= variables.len(),
            position_of_value_reference(variables@.take(i as int), vr) == -1,
        decreases variables.len() - i,
    {
        assert(variables@.take(i + 1).drop_last() =~= variables@.take(i as int));
        if variables[i].valueReference == vr {
            proof {
                lemma_position_bounds(variables@, vr);
                lemma_position_prefix(variables@, vr, i + 1);
                assert(position_of_value_reference(variables@, vr) == i);
                lemma_position_of_value_reference_is_first(variables@, vr);
                assert(forall|j: int| 0 <= j < i ==> #[trigger] variables@[j].valueReference != vr);
            }
            return Ok(i);
        }
        i = i + 1;
    }
    assert(variables@.take(variables.len() as int) =~= variables@);
    let mut m = String::from_str("No variable with value reference ");
    push_decimal(&mut m, vr as u128);
    Err(SimulationError::Parameter(m))
}

/// A match among the first `k` variables is the first match of all.
pub proof fn lemma_position_prefix(vars: Seq<ModelVariable>, vr: u32, k: int)
    requires
        0 <= k <= vars.len(),
        position_of_value_reference(vars.take(k), vr) >= 0,
    ensures
        position_of_value_reference(vars, vr) == position_of_value_reference(vars.take(k), vr),
    decreases vars.len(),
{
    if k == vars.len() {
        assert(vars.take(k) =~= vars);
    } else {
        assert(vars.drop_last().take(k) =~= vars.take(k));
        lemma_position_prefix(vars.drop_last(), vr, k);
    }
}

/// The index of the first variable named `name`, or -1.
pub open spec fn position_of_name(vars: Seq<ModelVariable>, name: Seq<char>) -> int
    decreases vars.len(),
{
    if vars.len() == 0 {
        -1
    } else {
        let p = position_of_name(vars.drop_last(), name);
        if p >= 0 {
            p
        } else if vars.last().name@ == name {
            vars.len() - 1
        } else {
            -1
        }
    }
}

/// The message when no variable has a name.
pub open spec fn unknown_name_message(name: Seq<char>) -> Seq<char> {
    "Unknown variable '"@ + name + "'"@
}

/// The index of the first variable named `name`, or the message that there is
/// none.
pub open spec fn spec_variable_index(vars: Seq<ModelVariable>, name: Seq<char>) -> Result<usize, Seq<char>> {
    let p = position_of_name(vars, name);
    if p >= 0 {
        Ok(p as usize)
    } else {
        Err(unknown_name_message(name))
    }
}

pub proof fn lemma_position_of_name_bounds(vars: Seq<ModelVariable>, name: Seq<char>)
    ensures
        -1 <= position_of_name(vars, name) < vars.len(),
        position_of_name(vars, name) >= 0 ==> vars[position_of_name(vars, name)].name@ == name,
    decreases vars.len(),
{
    if vars.len() > 0 {
        lemma_position_of_name_bounds(vars.drop_last(), name);
    }
}

pub proof fn lemma_position_of_name_prefix(vars: Seq<ModelVariable>, name: Seq<char>, k: int)
    requires
        0 <= k <= vars.len(),
        position_of_name(vars.take(k), name) >= 0,
    ensures
        position_of_name(vars, name) == position_of_name(vars.take(k), name),
    decreases vars.len(),
{
    if k == vars.len() {
        assert(vars.take(k) =~= vars);
    } else {
        assert(vars.drop_last().take(k) =~= vars.take(k));
        lemma_position_of_name_prefix(vars.drop_last(), name, k);
    }
}

/// Finds the first variable named `name`; `Parameter` error if there is none.
pub fn variable_index_by_name(variables: &Vec<ModelVariable>, name: &String) -> (r: Result<usize, SimulationError>)
    ensures
        matches_parameter_error(r, spec_variable_index(variables@, name@)),
        r matches Ok(i) ==> i < variables.len() && variables@[i as int].name@ == name@,
        r matches Ok(i) ==> forall|j: int| 0 <= j < i ==> #[trigger] variables@[j].name@ != name@,
        r is Err <==> forall|j: int| 0 <= j < variables.len() ==> #[trigger] variables@[j].name@ != name@,
{
    proof {
        lemma_position_of_name_is_first(variables@, name@);
    }
    let mut i: usize = 0;
    while i < variables.len()
        invariant
            0 <= i <= variables.len(),
            position_of_name(variables@.take(i as int), name@) == -1,
        decreases variables.len() - i,
    {
        assert(variables@.take(i + 1).drop_last() =~= variables@.take(i as int));
        if variables[i].name == *name {
            proof {
                lemma_position_of_name_prefix(variables@, name@, i + 1);
                assert(position_of_name(variables@, name@) == i);
                lemma_position_of_name_is_first(variables@, name@);
                assert(forall|j: int| 0 <= j < i ==> #[trigger] variables@[j].name@ != name@);
            }
            return Ok(i);
        }
        i = i + 1;
    }
    assert(variables@.take(variables.len() as int) =~= variables@);
    let mut m = String::from_str("Unknown variable '");
    m.append(name.as_str());
    m.append("'");
    Err(SimulationError::Parameter(m))
}

/// The position of a value reference is the first variable that has it, or
/// -1 exactly when no variable has it.
pub proof fn lemma_position_of_value_reference_is_first(vars: Seq<ModelVariable>, vr: u32)
    ensures
        position_of_value_reference(vars, vr) == -1 <==> forall|j: int| 0 <= j < vars.len() ==> #[trigger] vars[j].valueReference != vr,
        position_of_value_reference(vars, vr) >= 0 ==> {
            let p = position_of_value_reference(vars, vr);
            &&& p < vars.len()
            &&& vars[p].valueReference == vr
            &&& forall|j: int| 0 <= j < p ==> #[trigger] vars[j].valueReference != vr
        },
    decreases vars.len(),
{
    if vars.len() > 0 {
        let q = vars.drop_last();
        lemma_position_of_value_reference_is_first(q, vr);
        lemma_position_bounds(q, vr);
        assert forall|j: int| 0 <= j < q.len() implies #[trigger] q[j] == vars[j] by {}
        let pq = position_of_value_reference(q, vr);
        if pq >= 0 {
            assert forall|j: int| 0 <= j < pq implies #[trigger] vars[j].valueReference != vr by {
                assert(q[j].valueReference != vr);
            }
            assert(vars[pq] == q[pq]);
        } else {
            assert forall|j: int| 0 <= j < q.len() implies #[trigger] vars[j].valueReference != vr by {
                assert(q[j].valueReference != vr);
            }
        }
        if forall|j: int| 0 <= j < vars.len() ==> #[trigger] vars[j].valueReference != vr {
            assert forall|j: int| 0 <= j < q.len() implies #[trigger] q[j].valueReference != vr by {
                assert(vars[j].valueReference != vr);
            }
            assert(vars[vars.len() - 1].valueReference != vr);
        }
    }
}

/// The position of a name is the first variable that has it, or -1 exactly
/// when no variable has it.
pub proof fn lemma_position_of_name_is_first(vars: Seq<ModelVariable>, name: Seq<char>)
    ensures
        position_of_name(vars, name) == -1 <==> forall|j: int| 0 <= j < vars.len() ==> #[trigger] vars[j].name@ != name,
        position_of_name(vars, name) >= 0 ==> {
            let p = position_of_name(vars, name);
            &&& p < vars.len()
            &&& vars[p].name@ == name
            &&& forall|j: int| 0 <= j < p ==> #[trigger] vars[j].name@ != name
        },
    decreases vars.len(),
{
    if vars.len() > 0 {
        let q = vars.drop_last();
        lemma_position_of_name_is_first(q, name);
        lemma_position_of_name_bounds(q, name);
        assert forall|j: int| 0 <= j < q.len() implies #[trigger] q[j] == vars[j] by {}
        let pq = position_of_name(q, name);
        if pq >= 0 {
            assert forall|j: int| 0 <= j < pq implies #[trigger] vars[j].name@ != name by {
                assert(q[j].name@ != name);
            }
            assert(vars[pq] == q[pq]);
        } else {
            assert forall|j: int| 0 <= j < q.len() implies #[trigger] vars[j].name@ != name by {
                assert(q[j].name@ != name);
            }
        }
        if forall|j: int| 0 <= j < vars.len() ==> #[trigger] vars[j].name@ != name {
            assert forall|j: int| 0 <= j < q.len() implies #[trigger] q[j].name@ != name by {
                assert(vars[j].name@ != name);
            }
            assert(vars[vars.len() - 1].name@ != name);
        }
    }
}

} // verus!
