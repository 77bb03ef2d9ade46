use fmi_rs::dae::{
    dae_value_references, format_dependency_kinds, format_value_references,
    parse_dependency_kinds, parse_value_references, AlgebraicVariable, AlgebraicVariables,
    ContinuousStateDerivative, DaeManifest, DaeManifestError, DependencyKind, Formulation,
    ModelStructure, Residual,
};
use fmi_rs::model_description::ModelVariable;
use fmi_rs::sim::SimulationError;

fn parse_message(e: DaeManifestError) -> String {
    match e {
        DaeManifestError::Parse(m) => m,
        DaeManifestError::Io(e) => panic!("unexpected I/O error {e}"),
    }
}

#[test]
fn reads_value_reference_lists() {
    assert_eq!(parse_value_references("1 2 3").unwrap(), vec![1, 2, 3]);
    assert_eq!(parse_value_references("42").unwrap(), vec![42]);
    assert_eq!(parse_value_references("").unwrap(), Vec::<u32>::new());
    assert_eq!(parse_value_references("+5 007").unwrap(), vec![5, 7]);
}

#[test]
fn refuses_malformed_value_reference_lists() {
    assert_eq!(parse_message(parse_value_references("1  2").unwrap_err()), "cannot parse integer from empty string");
    assert_eq!(parse_message(parse_value_references("1 x").unwrap_err()), "invalid digit found in string");
    assert_eq!(parse_message(parse_value_references(" 1").unwrap_err()), "cannot parse integer from empty string");
    assert_eq!(parse_message(parse_value_references("1 4294967296").unwrap_err()), "number too large to fit in target type");
    assert_eq!(parse_message(parse_value_references("1 a 4294967296").unwrap_err()), "invalid digit found in string");
}

#[test]
fn writes_value_reference_lists() {
    assert_eq!(format_value_references(&vec![1, 2, 3]), "1 2 3");
    assert_eq!(format_value_references(&vec![]), "");
    assert_eq!(format_value_references(&vec![4294967295]), "4294967295");
}

#[test]
fn value_reference_lists_round_trip() {
    for vs in [vec![], vec![0], vec![1, 20, 300], vec![4294967295, 0, 7]] {
        assert_eq!(parse_value_references(&format_value_references(&vs)).unwrap(), vs);
    }
}

#[test]
fn dependency_kind_names() {
    let all = [
        (DependencyKind::Dependent, "dependent"),
        (DependencyKind::Constant, "constant"),
        (DependencyKind::Fixed, "fixed"),
        (DependencyKind::Tunable, "tunable"),
        (DependencyKind::Discrete, "discrete"),
    ];
    for (k, name) in all {
        assert_eq!(k.to_string(), name);
        assert_eq!(DependencyKind::from_str(name).unwrap(), k);
    }
    assert_eq!(parse_message(DependencyKind::from_str("Dependent").unwrap_err()), "Matching variant not found");
    assert_eq!(parse_message(DependencyKind::from_str("").unwrap_err()), "Matching variant not found");
}

#[test]
fn dependency_kind_lists() {
    assert_eq!(
        parse_dependency_kinds("dependent fixed discrete").unwrap(),
        vec![DependencyKind::Dependent, DependencyKind::Fixed, DependencyKind::Discrete]
    );
    assert_eq!(parse_dependency_kinds("").unwrap(), vec![]);
    assert_eq!(parse_message(parse_dependency_kinds("dependent exact").unwrap_err()), "Matching variant not found");
    let ks = vec![DependencyKind::Tunable, DependencyKind::Constant];
    assert_eq!(format_dependency_kinds(&ks), "tunable constant");
    assert_eq!(parse_dependency_kinds(&format_dependency_kinds(&ks)).unwrap(), ks);
}

fn variable(name: &str, vr: u32, derivative: Option<u32>) -> ModelVariable {
    ModelVariable { name: name.to_string(), valueReference: vr, derivative }
}

fn derivative(vr: u32) -> ContinuousStateDerivative {
    ContinuousStateDerivative { valueReference: vr, dependencies: None, dependenciesKind: None }
}

fn formulation(vr: u32) -> Formulation {
    Formulation { index: 1, valueReference: vr, dependencies: None, dependenciesKind: None }
}

fn manifest(derivs: Vec<u32>, algebraics: Vec<u32>, residuals: Vec<Vec<u32>>) -> DaeManifest {
    DaeManifest {
        algebraicVariables: AlgebraicVariables {
            algebraicVariables: algebraics.into_iter().map(|vr| AlgebraicVariable { valueReference: vr }).collect(),
        },
        modelStructure: ModelStructure {
            continuousStateDerivatives: derivs.into_iter().map(derivative).collect(),
            residuals: residuals
                .into_iter()
                .map(|fs| Residual { formulations: fs.into_iter().map(formulation).collect() })
                .collect(),
        },
    }
}

fn pendulum_variables() -> Vec<ModelVariable> {
    vec![
        variable("x", 1, None),
        variable("der(x)", 2, Some(1)),
        variable("y", 3, None),
        variable("der(y)", 4, Some(3)),
        variable("lambda", 5, None),
        variable("res", 6, None),
    ]
}

#[test]
fn assembles_dae_value_references() {
    let m = manifest(vec![2, 4], vec![5], vec![vec![6]]);
    let r = dae_value_references(&m, &pendulum_variables()).unwrap();
    assert_eq!(r.known_vrs, vec![1, 3, 5]);
    assert_eq!(r.unknown_vrs, vec![2, 4, 6]);
}

#[test]
fn dae_without_residuals() {
    let m = manifest(vec![4], vec![], vec![]);
    let r = dae_value_references(&m, &pendulum_variables()).unwrap();
    assert_eq!(r.known_vrs, vec![3]);
    assert_eq!(r.unknown_vrs, vec![4]);
}

#[test]
fn dae_unknown_derivative_reference() {
    let m = manifest(vec![2, 99], vec![], vec![]);
    assert_eq!(
        dae_value_references(&m, &pendulum_variables()).unwrap_err(),
        SimulationError::Parameter("No variable with value reference 99".to_string())
    );
}

#[test]
fn dae_derivative_without_state() {
    let m = manifest(vec![3], vec![], vec![]);
    assert_eq!(
        dae_value_references(&m, &pendulum_variables()).unwrap_err(),
        SimulationError::Parameter("Variable 'y' is missing the derivative attribute".to_string())
    );
}

#[test]
fn dae_residual_needs_one_formulation() {
    let m = manifest(vec![2], vec![], vec![vec![6], vec![5, 6]]);
    assert_eq!(
        dae_value_references(&m, &pendulum_variables()).unwrap_err(),
        SimulationError::Parameter("Residual 2 must have exactly one formuation".to_string())
    );
    let m = manifest(vec![2], vec![], vec![vec![]]);
    assert_eq!(
        dae_value_references(&m, &pendulum_variables()).unwrap_err(),
        SimulationError::Parameter("Residual 1 must have exactly one formuation".to_string())
    );
}

#[test]
fn dae_derivative_errors_come_first() {
    let m = manifest(vec![3], vec![], vec![vec![]]);
    assert_eq!(
        dae_value_references(&m, &pendulum_variables()).unwrap_err(),
        SimulationError::Parameter("Variable 'y' is missing the derivative attribute".to_string())
    );
}
