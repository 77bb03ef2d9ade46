use fmi_rs::csv::{read_csv, write_csv, TrajectoryTable};
use fmi_rs::model_description::ModelVariable;
use fmi_rs::sim::SimulationError;

fn s(v: &str) -> String {
    v.to_string()
}

fn variables() -> Vec<ModelVariable> {
    vec![
        ModelVariable { name: s("time"), valueReference: 0, derivative: None },
        ModelVariable { name: s("h"), valueReference: 1, derivative: None },
        ModelVariable { name: s("v"), valueReference: 3, derivative: None },
    ]
}

fn table() -> TrajectoryTable {
    TrajectoryTable {
        variable_indices: vec![2, 1],
        time: vec![s("0"), s("0.5")],
        rows: vec![vec![s("1"), s("true")], vec![s("2.5"), s("false")]],
    }
}

fn strings(v: &[&str]) -> Vec<String> {
    v.iter().map(|x| s(x)).collect()
}

#[test]
fn writes_header_and_samples() {
    let records = write_csv(&table(), &variables());
    assert_eq!(
        records,
        vec![strings(&["time", "v", "h"]), strings(&["0", "1", "true"]), strings(&["0.5", "2.5", "false"])]
    );
}

#[test]
fn reads_header_and_samples() {
    let headers = strings(&["time", "v", "h"]);
    let records = vec![strings(&["0", "1", "true"]), strings(&["0.5", "2.5", "false"])];
    let t = read_csv(&headers, &records, &variables()).unwrap();
    assert_eq!(t, table());
}

#[test]
fn csv_records_round_trip() {
    let written = write_csv(&table(), &variables());
    let t = read_csv(&written[0], &written[1..].to_vec(), &variables()).unwrap();
    assert_eq!(t, table());
}

#[test]
fn reads_unknown_column_as_error() {
    let headers = strings(&["time", "v", "w"]);
    assert_eq!(
        read_csv(&headers, &vec![], &variables()).unwrap_err(),
        SimulationError::Parameter(s("Unknown variable 'w'"))
    );
}

#[test]
fn reads_record_without_time_as_error() {
    let headers = strings(&["time", "h"]);
    let records = vec![strings(&["0", "1"]), vec![]];
    assert_eq!(
        read_csv(&headers, &records, &variables()).unwrap_err(),
        SimulationError::Parameter(s("Missing time value in row 3"))
    );
}

#[test]
fn reads_empty_file() {
    let t = read_csv(&vec![], &vec![], &variables()).unwrap();
    assert!(t.variable_indices.is_empty() && t.time.is_empty() && t.rows.is_empty());
}
