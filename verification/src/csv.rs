//! Recorded trajectories as CSV records: a header row (`time` and the names
//! of the recorded variables), then one row per sample (the time and the
//! values, as literals).
use vstd::prelude::*;
use crate::decimal::{decimal_digits, push_decimal};
use crate::model_description::{
    ModelVariable, lemma_position_of_name_bounds, lemma_position_of_name_is_first, position_of_name,
    spec_variable_index, variable_index_by_name,
};
use crate::sim::SimulationError;
use crate::text::{
    collect_results, lemma_collect_results_all_ok, lemma_collect_results_ok,
    lemma_collect_results_prefix_err, views,
};

verus! {

/// Trajectories as text: the model-variable index of each value column, and
/// per sample the time and the values as literals.
#[derive(Debug, PartialEq)]
pub struct TrajectoryTable {
    pub variable_indices: Vec<usize>,
    pub time: Vec<String>,
    pub rows: Vec<Vec<String>>,
}

/// The header record: `time`, then the names of the recorded variables.
pub open spec fn header_record(vars: Seq<ModelVariable>, indices: Seq<usize>) -> Seq<Seq<char>> {
    seq!["time"@] + indices.map_values(|i: usize| vars[i as int].name@)
}

/// The record of the `i`-th sample: its time, then its values.
pub open spec fn sample_record(table: TrajectoryTable, i: int) -> Seq<Seq<char>> {
    seq![table.time@[i]@] + views(table.rows@[i]@)
}

/// The records of a CSV file of trajectories (what `write_csv` writes): the
/// header, then one record per time point.
pub fn write_csv(table: &TrajectoryTable, variables: &Vec<ModelVariable>) -> (records: Vec<Vec<String>>)
    requires
        forall|j: int| 0 <= j < table.variable_indices.len() ==> #[trigger] table.variable_indices@[j] < variables.len(),
        table.time.len() <= table.rows.len(),
    ensures
        records.len() == table.time.len() + 1,
        views(records@[0]@) == header_record(variables@, table.variable_indices@),
        forall|i: int| 0 <= i < table.time.len() ==> #[trigger] views(records@[i + 1]@) == sample_record(*table, i),
        records@[0].len() == table.variable_indices.len() + 1,
        records@[0]@[0]@ == "time"@,
        forall|j: int| 0 <= j < table.variable_indices.len()
            ==> #[trigger] records@[0]@[j + 1]@ == variables@[table.variable_indices@[j] as int].name@,
        forall|i: int| 0 <= i < table.time.len() ==> {
            &&& #[trigger] records@[i + 1].len() == table.rows@[i].len() + 1
            &&& records@[i + 1]@[0]@ == table.time@[i]@
        },
        forall|i: int, k: int| 0 <= i < table.time.len() && 0 <= k < table.rows@[i].len()
            ==> #[trigger] records@[i + 1]@[k + 1]@ == #[trigger] table.rows@[i]@[k]@,
{
    let records = write_records(table, variables);
    proof {
        assert(views(records@[0]@).len() == records@[0].len());
        assert(views(records@[0]@)[0] == records@[0]@[0]@);
        assert forall|j: int| 0 <= j < table.variable_indices.len()
            implies #[trigger] records@[0]@[j + 1]@ == variables@[table.variable_indices@[j] as int].name@ by {
            assert(views(records@[0]@)[j + 1] == records@[0]@[j + 1]@);
        }
        assert forall|i: int| 0 <= i < table.time.len() implies {
            &&& #[trigger] records@[i + 1].len() == table.rows@[i].len() + 1
            &&& records@[i + 1]@[0]@ == table.time@[i]@
        } by {
            assert(views(records@[i + 1]@) == sample_record(*table, i));
            assert(views(records@[i + 1]@).len() == records@[i + 1].len());
            assert(views(records@[i + 1]@)[0] == records@[i + 1]@[0]@);
        }
        assert forall|i: int, k: int| 0 <= i < table.time.len() && 0 <= k < table.rows@[i].len()
            implies #[trigger] records@[i + 1]@[k + 1]@ == #[trigger] table.rows@[i]@[k]@ by {
            assert(views(records@[i + 1]@) == sample_record(*table, i));
            assert(views(records@[i + 1]@).len() == records@[i + 1].len());
            assert(views(records@[i + 1]@)[k + 1] == records@[i + 1]@[k + 1]@);
            assert(views(table.rows@[i]@)[k] == table.rows@[i]@[k]@);
        }
    }
    records
}

/// The header record, then the record of each sample.
fn write_records(table: &TrajectoryTable, variables: &Vec<ModelVariable>) -> (records: Vec<Vec<String>>)
    requires
        forall|j: int| 0 <= j < table.variable_indices.len() ==> #[trigger] table.variable_indices@[j] < variables.len(),
        table.time.len() <= table.rows.len(),
    ensures
        records.len() == table.time.len() + 1,
        views(records@[0]@) == header_record(variables@, table.variable_indices@),
        forall|i: int| 0 <= i < table.time.len() ==> #[trigger] views(records@[i + 1]@) == sample_record(*table, i),
{
    let mut header: Vec<String> = Vec::new();
    header.push(String::from_str("time"));
    let mut j: usize = 0;
    while j < table.variable_indices.len()
        invariant
            0 <= j <= table.variable_indices.len(),
            forall|k: int| 0 <= k < table.variable_indices.len() ==> #[trigger] table.variable_indices@[k] < variables.len(),
            header.len() == j + 1,
            header@[0]@ == "time"@,
            forall|k: int| 0 <= k < j ==> #[trigger] header@[k + 1]@ == variables@[table.variable_indices@[k] as int].name@,
        decreases table.variable_indices.len() - j,
    {
        let index = table.variable_indices[j];
        header.push(variables[index].name.clone());
        j = j + 1;
    }
    assert(views(header@) =~= header_record(variables@, table.variable_indices@)) by {
        assert forall|k: int| 1 <= k < header.len() implies #[trigger] header@[k]@ == variables@[table.variable_indices@[k - 1] as int].name@ by {
            assert(header@[(k - 1) + 1]@ == variables@[table.variable_indices@[k - 1] as int].name@);
        }
    }
    let mut records: Vec<Vec<String>> = Vec::new();
    records.push(header);
    let mut i: usize = 0;
    while i < table.time.len()
        invariant
            0 <= i <= table.time.len() <= table.rows.len(),
            records.len() == i + 1,
            views(records@[0]@) == header_record(variables@, table.variable_indices@),
            forall|k: int| 0 <= k < i ==> #[trigger] views(records@[k + 1]@) == sample_record(*table, k),
        decreases table.time.len() - i,
    {
        let mut record: Vec<String> = Vec::new();
        record.push(table.time[i].clone());
        let row = &table.rows[i];
        let mut j: usize = 0;
        while j < row.len()
            invariant
                0 <= j <= row.len(),
                record.len() == j + 1,
                record@[0] == table.time@[i as int],
                forall|k: int| 0 <= k < j ==> #[trigger] record@[k + 1] == row@[k],
            decreases row.len() - j,
        {
            record.push(row[j].clone());
            j = j + 1;
        }
        assert(views(record@) =~= sample_record(*table, i as int)) by {
            assert forall|k: int| 1 <= k < record.len() implies #[trigger] record@[k] == row@[k - 1] by {
                assert(record@[(k - 1) + 1] == row@[k - 1]);
            }
        }
        records.push(record);
        i = i + 1;
    }
    records
}

/// The message when a record has no time field (`row` counts the header as
/// row 1).
pub open spec fn missing_time_message(row: nat) -> Seq<char> {
    "Missing time value in row "@ + decimal_digits(row)
}

/// The variable index of each header name after the first.
pub open spec fn header_indices(headers: Seq<String>, vars: Seq<ModelVariable>) -> Seq<Result<usize, Seq<char>>> {
    if headers.len() == 0 {
        Seq::empty()
    } else {
        headers.drop_first().map_values(|h: String| spec_variable_index(vars, h@))
    }
}

/// The time and values of each data record, or the message that it has no
/// time field.
pub open spec fn record_fields(records: Seq<Vec<String>>) -> Seq<Result<(Seq<char>, Seq<Seq<char>>), Seq<char>>> {
    records.map(|i: int, r: Vec<String>|
        if r@.len() == 0 {
            Err(missing_time_message((i + 2) as nat))
        } else {
            Ok((r@[0]@, views(r@.drop_first())))
        })
}

/// The time and values of each sample of a table.
pub open spec fn table_fields(time: Seq<String>, rows: Seq<Vec<String>>) -> Seq<(Seq<char>, Seq<Seq<char>>)> {
    Seq::new(time.len(), |k: int| (time[k]@, views(rows[k]@)))
}

fn header_variable_indices(headers: &Vec<String>, variables: &Vec<ModelVariable>) -> (r: Result<Vec<usize>, SimulationError>)
    ensures
        match (r, collect_results(header_indices(headers@, variables@))) {
            (Ok(v), Ok(w)) => v@ == w,
            (Err(SimulationError::Parameter(m)), Err(e)) => m@ == e,
            _ => false,
        },
{
    let mut variable_indices: Vec<usize> = Vec::new();
    if headers.len() == 0 {
        assert(header_indices(headers@, variables@) =~= Seq::<Result<usize, Seq<char>>>::empty());
        assert(variable_indices@ =~= Seq::<usize>::empty());
        return Ok(variable_indices);
    }
    let ghost all = header_indices(headers@, variables@);
    let mut h: usize = 1;
    assert(all.take(0) =~= Seq::<Result<usize, Seq<char>>>::empty());
    while h < headers.len()
        invariant
            1 <= h <= headers.len(),
            all == header_indices(headers@, variables@),
            collect_results(all.take(h - 1)) == Ok::<Seq<usize>, Seq<char>>(variable_indices@),
        decreases headers.len() - h,
    {
        let ghost rs = all.take(h as int);
        assert(rs.drop_last() =~= all.take(h - 1));
        assert(rs.last() == spec_variable_index(variables@, headers@[h as int]@));
        match variable_index_by_name(variables, &headers[h]) {
            Ok(index) => {
                variable_indices.push(index);
            },
            Err(e) => {
                proof {
                    lemma_collect_results_prefix_err(all, h as int);
                }
                return Err(e);
            },
        }
        h = h + 1;
    }
    assert(all.take(h - 1) =~= all);
    Ok(variable_indices)
}

/// What `read_csv` gives for a header and data records: the variable index
/// of each column after the first, and the time and values of each record;
/// or the message of the first name that is no variable, else of the first
/// record without a time field.
pub open spec fn spec_read_csv(
    headers: Seq<String>,
    records: Seq<Vec<String>>,
    vars: Seq<ModelVariable>,
) -> Result<(Seq<usize>, Seq<(Seq<char>, Seq<Seq<char>>)>), Seq<char>> {
    match collect_results(header_indices(headers, vars)) {
        Err(e) => Err(e),
        Ok(indices) => match collect_results(record_fields(records)) {
            Err(e) => Err(e),
            Ok(fields) => Ok((indices, fields)),
        },
    }
}

/// Reads the records of a CSV file of trajectories: the header names the
/// time column, then a model variable per column; each record holds the
/// time, then the values, as literals.
pub fn read_csv(
    headers: &Vec<String>,
    records: &Vec<Vec<String>>,
    variables: &Vec<ModelVariable>,
) -> (r: Result<TrajectoryTable, SimulationError>)
    requires
        forall|i: int| 0 <= i < records.len() ==> #[trigger] records@[i].len() <= headers.len() || records@[i].len() <= 1,
    ensures
        match (r, spec_read_csv(headers@, records@, variables@)) {
            (Ok(t), Ok((indices, fields))) => {
                &&& t.variable_indices@ == indices
                &&& t.time.len() == fields.len()
                &&& t.rows.len() == fields.len()
                &&& forall|i: int| 0 <= i < fields.len() ==> #[trigger] fields[i] == (t.time@[i]@, views(t.rows@[i]@))
            },
            (Err(SimulationError::Parameter(m)), Err(e)) => m@ == e,
            _ => false,
        },
        r is Ok <==> {
            &&& forall|j: int| 1 <= j < headers.len() ==> exists|k: int|
                0 <= k < variables.len() && #[trigger] variables@[k].name@ == (#[trigger] headers@[j])@
            &&& forall|i: int| 0 <= i < records.len() ==> #[trigger] records@[i].len() > 0
        },
        r matches Ok(t) ==> {
            &&& t.variable_indices.len() == (if headers.len() == 0 { 0 } else { headers.len() - 1 })
            &&& forall|j: int| 0 <= j < t.variable_indices.len() ==> {
                let idx = #[trigger] t.variable_indices@[j] as int;
                &&& idx < variables.len()
                &&& variables@[idx].name@ == headers@[j + 1]@
                &&& forall|k: int| 0 <= k < idx ==> #[trigger] variables@[k].name@ != headers@[j + 1]@
            }
            &&& t.time.len() == records.len()
            &&& t.rows.len() == records.len()
            &&& forall|i: int| 0 <= i < records.len() ==> {
                &&& #[trigger] t.time@[i]@ == records@[i]@[0]@
                &&& t.rows@[i].len() == records@[i].len() - 1
            }
            &&& forall|i: int, k: int| 0 <= i < records.len() && 0 <= k < t.rows@[i].len()
                ==> #[trigger] t.rows@[i]@[k]@ == records@[i]@[k + 1]@
        },
{
    let r = read_records(headers, records, variables);
    let n_vars: usize = variables.len();
    proof {
        assert(variables@.len() == n_vars);
        lemma_read_csv_fields(headers@, records@, variables@);
        if r is Ok {
            let t = r->Ok_0;
            let fields = spec_read_csv(headers@, records@, variables@)->Ok_0.1;
            assert forall|i: int| 0 <= i < records.len() implies {
                &&& #[trigger] t.time@[i]@ == records@[i]@[0]@
                &&& t.rows@[i].len() == records@[i].len() - 1
            } by {
                assert(fields[i] == (t.time@[i]@, views(t.rows@[i]@)));
                assert(views(t.rows@[i]@).len() == t.rows@[i].len());
                assert(views(records@[i]@.drop_first()).len() == records@[i]@.drop_first().len());
            }
            assert forall|i: int, k: int| 0 <= i < records.len() && 0 <= k < t.rows@[i].len()
                implies #[trigger] t.rows@[i]@[k]@ == records@[i]@[k + 1]@ by {
                assert(fields[i] == (t.time@[i]@, views(t.rows@[i]@)));
                assert(views(t.rows@[i]@).len() == t.rows@[i].len());
                assert(views(t.rows@[i]@)[k] == t.rows@[i]@[k]@);
                assert(views(records@[i]@.drop_first())[k] == records@[i]@.drop_first()[k]@);
            }
        }
    }
    r
}

/// What `spec_read_csv` gives, field by field: it succeeds exactly when each
/// header name after the first names a variable and each record has a time
/// field; then each index is that of the first variable with the name, and
/// each record gives its first field as the time and the rest as the values.
pub proof fn lemma_read_csv_fields(headers: Seq<String>, records: Seq<Vec<String>>, vars: Seq<ModelVariable>)
    requires
        vars.len() <= usize::MAX,
    ensures
        spec_read_csv(headers, records, vars) is Ok <==> {
            &&& forall|j: int| 1 <= j < headers.len() ==> exists|k: int|
                0 <= k < vars.len() && #[trigger] vars[k].name@ == (#[trigger] headers[j])@
            &&& forall|i: int| 0 <= i < records.len() ==> #[trigger] records[i].len() > 0
        },
        spec_read_csv(headers, records, vars) matches Ok((indices, fields)) ==> {
            &&& indices.len() == (if headers.len() == 0 { 0 } else { headers.len() - 1 })
            &&& forall|j: int| 0 <= j < indices.len() ==> {
                let idx = #[trigger] indices[j] as int;
                &&& idx < vars.len()
                &&& vars[idx].name@ == headers[j + 1]@
                &&& forall|k: int| 0 <= k < idx ==> #[trigger] vars[k].name@ != headers[j + 1]@
            }
            &&& fields.len() == records.len()
            &&& forall|i: int| 0 <= i < records.len()
                ==> #[trigger] fields[i] == (records[i]@[0]@, views(records[i]@.drop_first()))
        },
{
    let hs = header_indices(headers, vars);
    let rs = record_fields(records);
    lemma_collect_results_ok(hs);
    lemma_collect_results_ok(rs);
    assert forall|j: int| 1 <= j < headers.len() implies
        (#[trigger] hs[j - 1] is Ok <==> exists|k: int| 0 <= k < vars.len() && #[trigger] vars[k].name@ == headers[j]@) &&
        (hs[j - 1] matches Ok(idx) ==> {
            &&& idx < vars.len()
            &&& vars[idx as int].name@ == headers[j]@
            &&& forall|k: int| 0 <= k < idx ==> #[trigger] vars[k].name@ != headers[j]@
        }) by {
        assert(headers.drop_first()[j - 1] == headers[j]);
        assert(hs[j - 1] == spec_variable_index(vars, headers[j]@));
        lemma_position_of_name_is_first(vars, headers[j]@);
        lemma_position_of_name_bounds(vars, headers[j]@);
        let p = position_of_name(vars, headers[j]@);
        if p >= 0 {
            assert(vars[p].name@ == headers[j]@);
        }
        if exists|k: int| 0 <= k < vars.len() && #[trigger] vars[k].name@ == headers[j]@ {
            let k = choose|k: int| 0 <= k < vars.len() && #[trigger] vars[k].name@ == headers[j]@;
            assert(vars[k].name@ == headers[j]@);
            assert(p != -1);
        }
        assert(hs[j - 1] is Ok <==> p >= 0);
        assert(p >= 0 <==> exists|k: int| 0 <= k < vars.len() && #[trigger] vars[k].name@ == headers[j]@);
        if hs[j - 1] is Ok {
            assert(hs[j - 1]->Ok_0 as int == p);
            assert(forall|k: int| 0 <= k < p ==> #[trigger] vars[k].name@ != headers[j]@);
        }
    }
    assert forall|i: int| 0 <= i < records.len() implies (#[trigger] rs[i] is Ok <==> records[i].len() > 0) by {}
    assert(hs.len() == (if headers.len() == 0 { 0 } else { headers.len() - 1 }));
    if forall|i: int| 0 <= i < records.len() ==> #[trigger] records[i].len() > 0 {
        assert forall|i: int| 0 <= i < rs.len() implies #[trigger] rs[i] is Ok by {
            assert(records[i].len() > 0);
        }
    }
    if collect_results(rs) is Ok {
        assert forall|i: int| 0 <= i < records.len() implies #[trigger] records[i].len() > 0 by {
            assert(rs[i] is Ok);
        }
        let fields = collect_results(rs)->Ok_0;
        assert forall|i: int| 0 <= i < records.len()
            implies #[trigger] fields[i] == (records[i]@[0]@, views(records[i]@.drop_first())) by {
            assert(rs[i] == Ok::<(Seq<char>, Seq<Seq<char>>), Seq<char>>(fields[i]));
            assert(records[i].len() > 0);
        }
    }
    if (forall|j: int| 1 <= j < headers.len() ==> exists|k: int|
        0 <= k < vars.len() && #[trigger] vars[k].name@ == (#[trigger] headers[j])@) {
        assert forall|j: int| 0 <= j < hs.len() implies #[trigger] hs[j] is Ok by {
            assert(hs[(j + 1) - 1] is Ok);
        }
    }
    if collect_results(hs) is Ok {
        assert forall|j: int| 1 <= j < headers.len() implies exists|k: int|
            0 <= k < vars.len() && #[trigger] vars[k].name@ == (#[trigger] headers[j])@ by {
            assert(hs[j - 1] is Ok);
        }
        let indices = collect_results(hs)->Ok_0;
        assert forall|j: int| 0 <= j < indices.len() implies {
            let idx = #[trigger] indices[j] as int;
            &&& idx < vars.len()
            &&& vars[idx].name@ == headers[j + 1]@
            &&& forall|k: int| 0 <= k < idx ==> #[trigger] vars[k].name@ != headers[j + 1]@
        } by {
            assert(hs[(j + 1) - 1] == Ok::<usize, Seq<char>>(indices[j]));
        }
    }
}

/// Reads the header and the data records into a table.
fn read_records(
    headers: &Vec<String>,
    records: &Vec<Vec<String>>,
    variables: &Vec<ModelVariable>,
) -> (r: Result<TrajectoryTable, SimulationError>)
    requires
        forall|i: int| 0 <= i < records.len() ==> #[trigger] records@[i].len() <= headers.len() || records@[i].len() <= 1,
    ensures
        match (r, spec_read_csv(headers@, records@, variables@)) {
            (Ok(t), Ok((indices, fields))) => {
                &&& t.variable_indices@ == indices
                &&& t.time.len() == fields.len()
                &&& t.rows.len() == fields.len()
                &&& forall|i: int| 0 <= i < fields.len() ==> #[trigger] fields[i] == (t.time@[i]@, views(t.rows@[i]@))
            },
            (Err(SimulationError::Parameter(m)), Err(e)) => m@ == e,
            _ => false,
        },
{
    let variable_indices = header_variable_indices(headers, variables)?;
    let mut time: Vec<String> = Vec::new();
    let mut rows: Vec<Vec<String>> = Vec::new();
    let mut i: usize = 0;
    assert(record_fields(records@.take(0)) =~= Seq::<Result<(Seq<char>, Seq<Seq<char>>), Seq<char>>>::empty());
    assert(table_fields(time@, rows@) =~= Seq::<(Seq<char>, Seq<Seq<char>>)>::empty());
    while i < records.len()
        invariant
            0 <= i <= records.len(),
            time.len() == i,
            rows.len() == i,
            collect_results(header_indices(headers@, variables@)) == Ok::<Seq<usize>, Seq<char>>(variable_indices@),
            collect_results(record_fields(records@.take(i as int))) == Ok::<Seq<(Seq<char>, Seq<Seq<char>>)>, Seq<char>>(
                table_fields(time@, rows@),
            ),
        decreases records.len() - i,
    {
        let record = &records[i];
        let ghost t0 = time@;
        let ghost r0 = rows@;
        let ghost rs = record_fields(records@.take(i + 1));
        assert(rs.drop_last() =~= record_fields(records@.take(i as int)));
        if record.len() == 0 {
            let mut m = String::from_str("Missing time value in row ");
            push_decimal(&mut m, (i as u128) + 2);
            proof {
                let all = record_fields(records@);
                assert(all.take(i + 1) =~= rs);
                lemma_collect_results_prefix_err(all, i + 1);
            }
            return Err(SimulationError::Parameter(m));
        }
        time.push(record[0].clone());
        let mut row: Vec<String> = Vec::new();
        let mut j: usize = 1;
        while j < record.len()
            invariant
                1 <= j <= record.len(),
                row.len() == j - 1,
                forall|k: int| 0 <= k < j - 1 ==> #[trigger] row@[k] == record@[k + 1],
            decreases record.len() - j,
        {
            row.push(record[j].clone());
            j = j + 1;
        }
        assert(views(row@) =~= views(record@.drop_first()));
        let ghost before = table_fields(t0, r0);
        rows.push(row);
        proof {
            assert(table_fields(time@, rows@) =~= before.push((record@[0]@, views(record@.drop_first()))));
            assert(rs.last() == Ok::<(Seq<char>, Seq<Seq<char>>), Seq<char>>((record@[0]@, views(record@.drop_first()))));
            assert(collect_results(record_fields(records@.take(i + 1))) == Ok::<Seq<(Seq<char>, Seq<Seq<char>>)>, Seq<char>>(
                before.push((record@[0]@, views(record@.drop_first()))),
            ));
        }
        i = i + 1;
    }
    assert(records@.take(records.len() as int) =~= records@);
    Ok(TrajectoryTable { variable_indices, time, rows })
}

/// Reading the records that `write_csv` writes gives the table back: the
/// variable indices, and the time and values of each sample. This holds where
/// each recorded variable is the first of the model variables with its name
/// (names are unique in a model description) and each row holds one value per
/// recorded variable.
pub proof fn lemma_read_csv_of_written_records(
    table: TrajectoryTable,
    vars: Seq<ModelVariable>,
    records: Seq<Vec<String>>,
)
    requires
        forall|j: int| 0 <= j < table.variable_indices@.len() ==> {
            let idx = #[trigger] table.variable_indices@[j];
            &&& idx < vars.len()
            &&& position_of_name(vars, vars[idx as int].name@) == idx
        },
        table.time@.len() == table.rows@.len(),
        forall|i: int| 0 <= i < table.rows@.len() ==> #[trigger] table.rows@[i]@.len() == table.variable_indices@.len(),
        records.len() == table.time@.len() + 1,
        views(records[0]@) == header_record(vars, table.variable_indices@),
        forall|i: int| 0 <= i < table.time@.len() ==> #[trigger] views(records[i + 1]@) == sample_record(table, i),
    ensures
        spec_read_csv(records[0]@, records.drop_first(), vars) == Ok::<(Seq<usize>, Seq<(Seq<char>, Seq<Seq<char>>)>), Seq<char>>(
            (table.variable_indices@, table_fields(table.time@, table.rows@)),
        ),
        forall|i: int| 0 <= i < records.drop_first().len() ==> #[trigger] records.drop_first()[i]@.len() <= records[0]@.len(),
{
    let headers = records[0]@;
    let indices = table.variable_indices@;
    assert(headers.len() == indices.len() + 1) by {
        assert(views(headers).len() == headers.len());
    }
    assert forall|j: int| 0 <= j < indices.len() implies #[trigger] header_indices(headers, vars)[j] == Ok::<usize, Seq<char>>(indices[j]) by {
        assert(headers.drop_first()[j]@ == views(headers)[j + 1]);
        assert(views(headers)[j + 1] == vars[indices[j] as int].name@);
        lemma_position_of_name_bounds(vars, vars[indices[j] as int].name@);
    }
    assert(header_indices(headers, vars) =~= indices.map_values(|v: usize| Ok::<usize, Seq<char>>(v)));
    lemma_collect_results_all_ok::<usize, Seq<char>>(indices);
    let data = records.drop_first();
    let fields = table_fields(table.time@, table.rows@);
    assert forall|i: int| 0 <= i < data.len() implies #[trigger] record_fields(data)[i] == Ok::<(Seq<char>, Seq<Seq<char>>), Seq<char>>(fields[i]) by {
        assert(data[i] == records[i + 1]);
        assert(views(data[i]@) == sample_record(table, i));
        assert(views(data[i]@).len() == data[i]@.len());
        assert(data[i]@[0]@ == views(data[i]@)[0]);
        assert(views(data[i]@.drop_first()) =~= views(table.rows@[i]@)) by {
            assert forall|k: int| 0 <= k < data[i]@.len() - 1 implies #[trigger] views(data[i]@.drop_first())[k] == views(table.rows@[i]@)[k] by {
                assert(views(data[i]@)[k + 1] == views(data[i]@.drop_first())[k]);
            }
        }
    }
    assert(record_fields(data) =~= fields.map_values(|f: (Seq<char>, Seq<Seq<char>>)| Ok::<(Seq<char>, Seq<Seq<char>>), Seq<char>>(f)));
    lemma_collect_results_all_ok::<(Seq<char>, Seq<Seq<char>>), Seq<char>>(fields);
    assert forall|i: int| 0 <= i < data.len() implies #[trigger] data[i]@.len() <= headers.len() by {
        assert(data[i] == records[i + 1]);
        assert(views(data[i]@).len() == data[i]@.len());
        assert(views(records[0]@).len() == headers.len());
    }
}

} // verus!
