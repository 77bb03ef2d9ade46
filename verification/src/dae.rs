//! The manifest of the FMI layered standard for differential-algebraic
//! equations (`fmi-ls-manifest.xml`) and the textual form of its
//! space-separated attributes.
use vstd::prelude::*;
use crate::decimal::{
    IntErrorKind, decimal_digits, format_decimal, is_digit, lemma_decimal_digits,
    lemma_u32_from_str_of_decimal_digits, parse_u32, push_decimal, spec_u32_from_str,
};
use crate::model_description::{
    ModelVariable, fetch_variable_by_value_reference, lemma_position_bounds,
    position_of_value_reference, unknown_value_reference_message,
};
use crate::sim::{SimulationError, matches_parameter_error};
use crate::text::{
    chars_equal, chars_of, collect_results, has_no_space, join_spaces, join_with_spaces,
    lemma_collect_results_all_ok, lemma_collect_results_ok, lemma_collect_results_prefix_err, lemma_join_spaces_len,
    lemma_split_join, parse_separated, parse_separated_with,
};

verus! {

/// `std::io::Error`, declared so that `DaeManifestError::Io` can carry it;
/// nothing is read of it.
#[verifier::external_type_specification]
#[verifier::external_body]
pub struct ExIoError(std::io::Error);

/// The root of a DAE manifest.
#[derive(Debug, PartialEq)]
pub struct DaeManifest {
    pub algebraicVariables: AlgebraicVariables,
    pub modelStructure: ModelStructure,
}

/// The algebraic variables of the DAE.
#[derive(Debug, PartialEq)]
pub struct AlgebraicVariables {
    pub algebraicVariables: Vec<AlgebraicVariable>,
}

/// An algebraic variable, named by its value reference.
#[derive(Debug, PartialEq)]
pub struct AlgebraicVariable {
    pub valueReference: u32,
}

/// How an unknown depends on one of its dependencies.
#[derive(Debug, Clone, Copy, PartialEq, Eq)]
pub enum DependencyKind {
    Dependent,
    Constant,
    Fixed,
    Tunable,
    Discrete,
}

/// The derivative of a continuous state and what it depends on.
#[derive(Debug, PartialEq)]
pub struct ContinuousStateDerivative {
    pub valueReference: u32,
    pub dependencies: Option<Vec<u32>>,
    pub dependenciesKind: Option<Vec<DependencyKind>>,
}

/// One formulation of a residual.
#[derive(Debug, PartialEq)]
pub struct Formulation {
    pub index: u32,
    pub valueReference: u32,
    pub dependencies: Option<Vec<u32>>,
    pub dependenciesKind: Option<Vec<DependencyKind>>,
}

/// A residual equation, given by its formulations.
#[derive(Debug, PartialEq)]
pub struct Residual {
    pub formulations: Vec<Formulation>,
}

/// The structure of the DAE: the state derivatives and the residuals.
#[derive(Debug, PartialEq)]
pub struct ModelStructure {
    pub continuousStateDerivatives: Vec<ContinuousStateDerivative>,
    pub residuals: Vec<Residual>,
}

/// Why a DAE manifest could not be read.
#[derive(Debug)]
pub enum DaeManifestError {
    /// The file could not be opened or read.
    Io(std::io::Error),
    /// The file's content is not a valid manifest.
    Parse(String),
}

/// The name of a dependency kind in the manifest (camel case).
pub open spec fn dependency_kind_name(k: DependencyKind) -> Seq<char> {
    match k {
        DependencyKind::Dependent => "dependent"@,
        DependencyKind::Constant => "constant"@,
        DependencyKind::Fixed => "fixed"@,
        DependencyKind::Tunable => "tunable"@,
        DependencyKind::Discrete => "discrete"@,
    }
}

/// The dependency kind that a name denotes; names are matched exactly.
pub open spec fn spec_dependency_kind_from_str(s: Seq<char>) -> Result<DependencyKind, ()> {
    if s == "dependent"@ {
        Ok(DependencyKind::Dependent)
    } else if s == "constant"@ {
        Ok(DependencyKind::Constant)
    } else if s == "fixed"@ {
        Ok(DependencyKind::Fixed)
    } else if s == "tunable"@ {
        Ok(DependencyKind::Tunable)
    } else if s == "discrete"@ {
        Ok(DependencyKind::Discrete)
    } else {
        Err(())
    }
}

/// The message of a refused integer literal (as `ParseIntError` displays it).
pub open spec fn int_error_message(k: IntErrorKind) -> Seq<char> {
    match k {
        IntErrorKind::Empty => "cannot parse integer from empty string"@,
        IntErrorKind::InvalidDigit => "invalid digit found in string"@,
        IntErrorKind::PosOverflow => "number too large to fit in target type"@,
    }
}

/// The message of a refused dependency kind.
pub open spec fn unknown_kind_message() -> Seq<char> {
    "Matching variant not found"@
}

/// A list of value references as the manifest writes it.
pub open spec fn spec_value_references_from_str(s: Seq<char>) -> Result<Seq<u32>, IntErrorKind> {
    parse_separated(s, |t: Seq<char>| spec_u32_from_str(t))
}

/// A list of dependency kinds as the manifest writes it.
pub open spec fn spec_dependency_kinds_from_str(s: Seq<char>) -> Result<Seq<DependencyKind>, ()> {
    parse_separated(s, |t: Seq<char>| spec_dependency_kind_from_str(t))
}

/// The attribute text of a list of value references.
pub open spec fn value_references_text(vs: Seq<u32>) -> Seq<char> {
    join_spaces(vs.map_values(|v: u32| decimal_digits(v as nat)))
}

/// The attribute text of a list of dependency kinds.
pub open spec fn dependency_kinds_text(ks: Seq<DependencyKind>) -> Seq<char> {
    join_spaces(ks.map_values(|k: DependencyKind| dependency_kind_name(k)))
}

impl DependencyKind {
    /// The name of the kind in the manifest.
    pub fn to_string(&self) -> (s: String)
        ensures
            s@ == dependency_kind_name(*self),
    {
        match self {
            DependencyKind::Dependent => String::from_str("dependent"),
            DependencyKind::Constant => String::from_str("constant"),
            DependencyKind::Fixed => String::from_str("fixed"),
            DependencyKind::Tunable => String::from_str("tunable"),
            DependencyKind::Discrete => String::from_str("discrete"),
        }
    }

    /// The kind that a name denotes, or `DaeManifestError::Parse` with the
    /// message "Matching variant not found".
    pub fn from_str(s: &str) -> (r: Result<DependencyKind, DaeManifestError>)
        ensures
            match (r, spec_dependency_kind_from_str(s@)) {
                (Ok(k), Ok(w)) => k == w,
                (Err(DaeManifestError::Parse(m)), Err(_)) => m@ == unknown_kind_message(),
                _ => false,
            },
    {
        match kind_from_chars(&chars_of(s)) {
            Ok(k) => Ok(k),
            Err(_) => Err(DaeManifestError::Parse(String::from_str("Matching variant not found"))),
        }
    }
}

fn kind_from_chars(t: &Vec<char>) -> (r: Result<DependencyKind, ()>)
    ensures
        r == spec_dependency_kind_from_str(t@),
{
    if chars_equal(t, &chars_of("dependent")) {
        Ok(DependencyKind::Dependent)
    } else if chars_equal(t, &chars_of("constant")) {
        Ok(DependencyKind::Constant)
    } else if chars_equal(t, &chars_of("fixed")) {
        Ok(DependencyKind::Fixed)
    } else if chars_equal(t, &chars_of("tunable")) {
        Ok(DependencyKind::Tunable)
    } else if chars_equal(t, &chars_of("discrete")) {
        Ok(DependencyKind::Discrete)
    } else {
        Err(())
    }
}

/// Reads a space-separated list of value references (the `dependencies`
/// attribute). The empty string is the empty list; each piece between single
/// spaces must be read by `u32::from_str`, and the first one that is not gives
/// the error, with `ParseIntError`'s message.
pub fn parse_value_references(s: &str) -> (r: Result<Vec<u32>, DaeManifestError>)
    ensures
        match (r, spec_value_references_from_str(s@)) {
            (Ok(v), Ok(w)) => v@ == w,
            (Err(DaeManifestError::Parse(m)), Err(k)) => m@ == int_error_message(k),
            _ => false,
        },
{
    let r = parse_separated_with(s, parse_u32, Ghost(|t: Seq<char>| spec_u32_from_str(t)));
    match r {
        Ok(v) => Ok(v),
        Err(k) => {
            let m = match k {
                IntErrorKind::Empty => String::from_str("cannot parse integer from empty string"),
                IntErrorKind::InvalidDigit => String::from_str("invalid digit found in string"),
                IntErrorKind::PosOverflow => String::from_str("number too large to fit in target type"),
            };
            Err(DaeManifestError::Parse(m))
        },
    }
}

/// Reads a space-separated list of dependency kinds (the `dependenciesKind`
/// attribute), with the grammar of `parse_value_references`.
pub fn parse_dependency_kinds(s: &str) -> (r: Result<Vec<DependencyKind>, DaeManifestError>)
    ensures
        match (r, spec_dependency_kinds_from_str(s@)) {
            (Ok(v), Ok(w)) => v@ == w,
            (Err(DaeManifestError::Parse(m)), Err(_)) => m@ == unknown_kind_message(),
            _ => false,
        },
{
    let r = parse_separated_with(s, kind_from_chars, Ghost(|t: Seq<char>| spec_dependency_kind_from_str(t)));
    match r {
        Ok(v) => Ok(v),
        Err(_) => Err(DaeManifestError::Parse(String::from_str("Matching variant not found"))),
    }
}

/// Writes a list of value references as the manifest does: decimal numbers
/// separated by single spaces.
pub fn format_value_references(vs: &Vec<u32>) -> (s: String)
    ensures
        s@ == value_references_text(vs@),
{
    let mut pieces: Vec<String> = Vec::new();
    let mut i: usize = 0;
    while i < vs.len()
        invariant
            0 <= i <= vs.len(),
            pieces.len() == i,
            forall|j: int| 0 <= j < i ==> #[trigger] pieces@[j]@ == decimal_digits(vs@[j] as nat),
        decreases vs.len() - i,
    {
        let p = format_decimal(vs[i] as u128);
        pieces.push(p);
        i = i + 1;
    }
    assert(pieces@.map_values(|p: String| p@) =~= vs@.map_values(|v: u32| decimal_digits(v as nat)));
    join_with_spaces(&pieces)
}

/// Writes a list of dependency kinds as the manifest does: names separated by
/// single spaces.
pub fn format_dependency_kinds(ks: &Vec<DependencyKind>) -> (s: String)
    ensures
        s@ == dependency_kinds_text(ks@),
{
    let mut pieces: Vec<String> = Vec::new();
    let mut i: usize = 0;
    while i < ks.len()
        invariant
            0 <= i <= ks.len(),
            pieces.len() == i,
            forall|j: int| 0 <= j < i ==> #[trigger] pieces@[j]@ == dependency_kind_name(ks@[j]),
        decreases ks.len() - i,
    {
        let p = ks[i].to_string();
        pieces.push(p);
        i = i + 1;
    }
    assert(pieces@.map_values(|p: String| p@) =~= ks@.map_values(|k: DependencyKind| dependency_kind_name(k)));
    join_with_spaces(&pieces)
}

/// Every dependency kind is read back from its name.
pub proof fn lemma_dependency_kind_round_trip(k: DependencyKind)
    ensures
        spec_dependency_kind_from_str(dependency_kind_name(k)) == Ok::<DependencyKind, ()>(k),
{
    reveal_strlit("dependent");
    reveal_strlit("constant");
    reveal_strlit("fixed");
    reveal_strlit("tunable");
    reveal_strlit("discrete");
    let d = "dependent"@;
    let c = "constant"@;
    let f = "fixed"@;
    let t = "tunable"@;
    let x = "discrete"@;
    assert(d.len() == 9 && c.len() == 8 && f.len() == 5 && t.len() == 7 && x.len() == 8);
    assert(c[0] != x[0]);
    assert(c != x);
    assert(c != d && f != d && f != c && t != d && t != c && t != f && x != d && x != f && x != t);
}

/// A list of value references written as attribute text is read back
/// unchanged.
pub proof fn lemma_value_references_round_trip(vs: Seq<u32>)
    ensures
        spec_value_references_from_str(value_references_text(vs)) == Ok::<Seq<u32>, IntErrorKind>(vs),
{
    let f = |t: Seq<char>| spec_u32_from_str(t);
    let g = |v: u32| decimal_digits(v as nat);
    let ps = vs.map_values(g);
    if vs.len() == 0 {
        assert(ps =~= Seq::<Seq<char>>::empty());
        assert(vs =~= Seq::<u32>::empty());
    } else {
        assert forall|i: int| 0 <= i < ps.len() implies #[trigger] has_no_space(ps[i]) && ps[i].len() >= 1 by {
            lemma_decimal_digits(vs[i] as nat);
            assert forall|j: int| 0 <= j < ps[i].len() implies ps[i][j] != ' ' by {
                assert(is_digit(ps[i][j]));
            }
        }
        lemma_split_join(ps);
        lemma_join_spaces_len(ps);
        assert(ps.last().len() >= 1);
        assert forall|i: int| 0 <= i < vs.len() implies #[trigger] f(ps[i]) == Ok::<u32, IntErrorKind>(vs[i]) by {
            lemma_u32_from_str_of_decimal_digits(vs[i]);
        }
        assert(ps.map_values(f) =~= vs.map_values(|v: u32| Ok::<u32, IntErrorKind>(v)));
        lemma_collect_results_all_ok::<u32, IntErrorKind>(vs);
    }
}

/// A list of dependency kinds written as attribute text is read back
/// unchanged.
pub proof fn lemma_dependency_kinds_round_trip(ks: Seq<DependencyKind>)
    ensures
        spec_dependency_kinds_from_str(dependency_kinds_text(ks)) == Ok::<Seq<DependencyKind>, ()>(ks),
{
    let f = |t: Seq<char>| spec_dependency_kind_from_str(t);
    let g = |k: DependencyKind| dependency_kind_name(k);
    let ps = ks.map_values(g);
    reveal_strlit("dependent");
    reveal_strlit("constant");
    reveal_strlit("fixed");
    reveal_strlit("tunable");
    reveal_strlit("discrete");
    if ks.len() == 0 {
        assert(ps =~= Seq::<Seq<char>>::empty());
        assert(ks =~= Seq::<DependencyKind>::empty());
    } else {
        assert forall|i: int| 0 <= i < ps.len() implies #[trigger] has_no_space(ps[i]) && ps[i].len() >= 1 by {
            match ks[i] {
                DependencyKind::Dependent => {},
                DependencyKind::Constant => {},
                DependencyKind::Fixed => {},
                DependencyKind::Tunable => {},
                DependencyKind::Discrete => {},
            }
        }
        lemma_split_join(ps);
        lemma_join_spaces_len(ps);
        assert forall|i: int| 0 <= i < ks.len() implies #[trigger] f(ps[i]) == Ok::<DependencyKind, ()>(ks[i]) by {
            lemma_dependency_kind_round_trip(ks[i]);
        }
        assert(ps.map_values(f) =~= ks.map_values(|k: DependencyKind| Ok::<DependencyKind, ()>(k)));
        lemma_collect_results_all_ok::<DependencyKind, ()>(ks);
    }
}

/// The value references that a DAE solver works with: the knowns (the
/// continuous states, then the algebraic variables) and the unknowns (the
/// state derivatives, then the residuals), in manifest order.
#[derive(Debug, PartialEq)]
pub struct DaeValueReferences {
    pub known_vrs: Vec<u32>,
    pub unknown_vrs: Vec<u32>,
}

/// The message when a state derivative has no `derivative` attribute.
pub open spec fn missing_derivative_message(name: Seq<char>) -> Seq<char> {
    "Variable '"@ + name + "' is missing the derivative attribute"@
}

/// The message when a residual has not exactly one formulation (`i` counts
/// from 1).
pub open spec fn residual_formulation_message(i: nat) -> Seq<char> {
    "Residual "@ + decimal_digits(i) + " must have exactly one formuation"@
}

/// The continuous state whose derivative has value reference `vr`: the
/// `derivative` attribute of the first variable with that value reference.
pub open spec fn spec_state_reference(vars: Seq<ModelVariable>, vr: u32) -> Result<u32, Seq<char>> {
    let p = position_of_value_reference(vars, vr);
    if p < 0 {
        Err(unknown_value_reference_message(vr))
    } else {
        match vars[p].derivative {
            Some(s) => Ok(s),
            None => Err(missing_derivative_message(vars[p].name@)),
        }
    }
}

/// The value reference of the `i`-th residual (from 0): that of its one
/// formulation.
pub open spec fn spec_residual_reference(i: int, r: Residual) -> Result<u32, Seq<char>> {
    if r.formulations@.len() == 1 {
        Ok(r.formulations@[0].valueReference)
    } else {
        Err(residual_formulation_message((i + 1) as nat))
    }
}

/// The state of each state derivative.
pub open spec fn state_references(vars: Seq<ModelVariable>, derivs: Seq<ContinuousStateDerivative>) -> Seq<Result<u32, Seq<char>>> {
    derivs.map_values(|d: ContinuousStateDerivative| spec_state_reference(vars, d.valueReference))
}

/// The value reference of each residual.
pub open spec fn residual_references(rs: Seq<Residual>) -> Seq<Result<u32, Seq<char>>> {
    rs.map(|i: int, r: Residual| spec_residual_reference(i, r))
}

/// The value references of the state derivatives.
pub open spec fn derivative_references(derivs: Seq<ContinuousStateDerivative>) -> Seq<u32> {
    derivs.map_values(|d: ContinuousStateDerivative| d.valueReference)
}

/// The value references of the algebraic variables.
pub open spec fn algebraic_references(avs: Seq<AlgebraicVariable>) -> Seq<u32> {
    avs.map_values(|a: AlgebraicVariable| a.valueReference)
}

/// The knowns and unknowns of the DAE that a manifest describes, or the
/// message of the first problem: the state derivatives are checked in order,
/// then the residuals.
pub open spec fn spec_dae_value_references(
    m: DaeManifest,
    vars: Seq<ModelVariable>,
) -> Result<(Seq<u32>, Seq<u32>), Seq<char>> {
    let derivs = m.modelStructure.continuousStateDerivatives@;
    match collect_results(state_references(vars, derivs)) {
        Err(e) => Err(e),
        Ok(states) => match collect_results(residual_references(m.modelStructure.residuals@)) {
            Err(e) => Err(e),
            Ok(residuals) => Ok((
                states + algebraic_references(m.algebraicVariables.algebraicVariables@),
                derivative_references(derivs) + residuals,
            )),
        },
    }
}

fn state_reference(variables: &Vec<ModelVariable>, vr: u32) -> (r: Result<u32, SimulationError>)
    ensures
        matches_parameter_error(r, spec_state_reference(variables@, vr)),
{
    proof {
        lemma_position_bounds(variables@, vr);
    }
    let i = fetch_variable_by_value_reference(variables, vr)?;
    assert(i as int == position_of_value_reference(variables@, vr));
    match variables[i].derivative {
        Some(s) => Ok(s),
        None => {
            let mut m = String::from_str("Variable '");
            m.append(variables[i].name.as_str());
            m.append("' is missing the derivative attribute");
            Err(SimulationError::Parameter(m))
        },
    }
}

/// Whether the state derivative with value reference `vr` names a model
/// variable whose `derivative` attribute gives its state.
pub open spec fn has_state(vars: Seq<ModelVariable>, vr: u32) -> bool {
    let p = position_of_value_reference(vars, vr);
    p >= 0 && vars[p].derivative is Some
}

/// The state of the state derivative with value reference `vr`: the
/// `derivative` attribute of the first variable with that value reference.
pub open spec fn state_of(vars: Seq<ModelVariable>, vr: u32) -> u32 {
    vars[position_of_value_reference(vars, vr)].derivative->0
}

/// The layout of the knowns and unknowns of a DAE. The set-up succeeds
/// exactly when every state derivative names a variable with a `derivative`
/// attribute and every residual has one formulation. Then the knowns are the
/// state of each state derivative, then the value reference of each algebraic
/// variable, in manifest order; the unknowns are the value reference of each
/// state derivative, then that of the one formulation of each residual, in
/// manifest order.
pub proof fn lemma_dae_value_references_layout(m: DaeManifest, vars: Seq<ModelVariable>)
    ensures
        spec_dae_value_references(m, vars) is Ok <==> {
            &&& forall|i: int| 0 <= i < m.modelStructure.continuousStateDerivatives@.len()
                ==> #[trigger] has_state(vars, m.modelStructure.continuousStateDerivatives@[i].valueReference)
            &&& forall|j: int| 0 <= j < m.modelStructure.residuals@.len()
                ==> #[trigger] m.modelStructure.residuals@[j].formulations@.len() == 1
        },
        spec_dae_value_references(m, vars) matches Ok((k, u)) ==> {
            let d = m.modelStructure.continuousStateDerivatives@;
            let a = m.algebraicVariables.algebraicVariables@;
            let rs = m.modelStructure.residuals@;
            &&& k.len() == d.len() + a.len()
            &&& u.len() == d.len() + rs.len()
            &&& forall|i: int| 0 <= i < d.len() ==> #[trigger] k[i] == state_of(vars, d[i].valueReference)
            &&& forall|j: int| 0 <= j < a.len() ==> #[trigger] k[d.len() + j] == a[j].valueReference
            &&& forall|i: int| 0 <= i < d.len() ==> #[trigger] u[i] == d[i].valueReference
            &&& forall|j: int| 0 <= j < rs.len() ==> #[trigger] u[d.len() + j] == rs[j].formulations@[0].valueReference
        },
{
    let d = m.modelStructure.continuousStateDerivatives@;
    let a = m.algebraicVariables.algebraicVariables@;
    let rs = m.modelStructure.residuals@;
    let srs = state_references(vars, d);
    let rrs = residual_references(rs);
    lemma_collect_results_ok(srs);
    lemma_collect_results_ok(rrs);
    assert forall|i: int| 0 <= i < d.len() implies (#[trigger] srs[i] is Ok <==> has_state(vars, d[i].valueReference))
        && (srs[i] is Ok ==> srs[i] == Ok::<u32, Seq<char>>(state_of(vars, d[i].valueReference))) by {
        lemma_position_bounds(vars, d[i].valueReference);
    }
    assert forall|j: int| 0 <= j < rs.len() implies (#[trigger] rrs[j] is Ok <==> rs[j].formulations@.len() == 1)
        && (rrs[j] is Ok ==> rrs[j] == Ok::<u32, Seq<char>>(rs[j].formulations@[0].valueReference)) by {}
    if spec_dae_value_references(m, vars) is Ok {
        assert forall|i: int| 0 <= i < d.len() implies #[trigger] has_state(vars, d[i].valueReference) by {
            assert(srs[i] is Ok);
        }
        assert forall|j: int| 0 <= j < rs.len() implies #[trigger] rs[j].formulations@.len() == 1 by {
            assert(rrs[j] is Ok);
        }
    } else {
        if collect_results(srs) is Err {
            let i = choose|i: int| 0 <= i < srs.len() && !(#[trigger] srs[i] is Ok);
            assert(!has_state(vars, d[i].valueReference));
        } else {
            let j = choose|j: int| 0 <= j < rrs.len() && !(#[trigger] rrs[j] is Ok);
            assert(rs[j].formulations@.len() != 1);
        }
    }
    if spec_dae_value_references(m, vars) is Ok {
        let states = collect_results(srs)->Ok_0;
        let residual_vrs = collect_results(rrs)->Ok_0;
        assert forall|i: int| 0 <= i < d.len() implies #[trigger] states[i] == state_of(vars, d[i].valueReference) by {
            assert(srs[i] == Ok::<u32, Seq<char>>(states[i]));
        }
        assert forall|j: int| 0 <= j < rs.len() implies #[trigger] residual_vrs[j] == rs[j].formulations@[0].valueReference by {
            assert(rrs[j] == Ok::<u32, Seq<char>>(residual_vrs[j]));
        }
    }
}

/// Derives the knowns and unknowns of a DAE from its manifest and the model
/// variables (the set-up of a DAE in model-exchange simulation).
pub fn dae_value_references(
    manifest: &DaeManifest,
    variables: &Vec<ModelVariable>,
) -> (r: Result<DaeValueReferences, SimulationError>)
    ensures
        match (r, spec_dae_value_references(*manifest, variables@)) {
            (Ok(v), Ok((k, u))) => v.known_vrs@ == k && v.unknown_vrs@ == u,
            (Err(SimulationError::Parameter(m)), Err(e)) => m@ == e,
            _ => false,
        },
        r is Ok <==> {
            &&& forall|i: int| 0 <= i < manifest.modelStructure.continuousStateDerivatives@.len()
                ==> #[trigger] has_state(variables@, manifest.modelStructure.continuousStateDerivatives@[i].valueReference)
            &&& forall|j: int| 0 <= j < manifest.modelStructure.residuals@.len()
                ==> #[trigger] manifest.modelStructure.residuals@[j].formulations@.len() == 1
        },
        r matches Ok(v) ==> {
            let d = manifest.modelStructure.continuousStateDerivatives@;
            let a = manifest.algebraicVariables.algebraicVariables@;
            let rs = manifest.modelStructure.residuals@;
            &&& v.known_vrs@.len() == d.len() + a.len()
            &&& v.unknown_vrs@.len() == d.len() + rs.len()
            &&& forall|i: int| 0 <= i < d.len() ==> #[trigger] v.known_vrs@[i] == state_of(variables@, d[i].valueReference)
            &&& forall|j: int| 0 <= j < a.len() ==> #[trigger] v.known_vrs@[d.len() + j] == a[j].valueReference
            &&& forall|i: int| 0 <= i < d.len() ==> #[trigger] v.unknown_vrs@[i] == d[i].valueReference
            &&& forall|j: int| 0 <= j < rs.len() ==> #[trigger] v.unknown_vrs@[d.len() + j] == rs[j].formulations@[0].valueReference
        },
{
    let r = assemble_dae_value_references(manifest, variables);
    proof {
        lemma_dae_value_references_layout(*manifest, variables@);
    }
    r
}

fn assemble_dae_value_references(
    manifest: &DaeManifest,
    variables: &Vec<ModelVariable>,
) -> (r: Result<DaeValueReferences, SimulationError>)
    ensures
        match (r, spec_dae_value_references(*manifest, variables@)) {
            (Ok(v), Ok((k, u))) => v.known_vrs@ == k && v.unknown_vrs@ == u,
            (Err(SimulationError::Parameter(m)), Err(e)) => m@ == e,
            _ => false,
        },
{
    let derivs = &manifest.modelStructure.continuousStateDerivatives;
    let mut states: Vec<u32> = Vec::new();
    let mut derivative_vrs: Vec<u32> = Vec::new();
    let mut i: usize = 0;
    assert(state_references(variables@, derivs@.take(0)) =~= Seq::<Result<u32, Seq<char>>>::empty());
    while i < derivs.len()
        invariant
            0 <= i <= derivs.len(),
            derivs@ == manifest.modelStructure.continuousStateDerivatives@,
            collect_results(state_references(variables@, derivs@.take(i as int))) == Ok::<Seq<u32>, Seq<char>>(states@),
            derivative_vrs@ == derivative_references(derivs@.take(i as int)),
        decreases derivs.len() - i,
    {
        let vr = derivs[i].valueReference;
        let ghost rs = state_references(variables@, derivs@.take(i + 1));
        assert(rs.drop_last() =~= state_references(variables@, derivs@.take(i as int)));
        assert(rs.last() == spec_state_reference(variables@, derivs@[i as int].valueReference));
        let s = state_reference(variables, vr);
        match s {
            Err(e) => {
                proof {
                    let all = state_references(variables@, derivs@);
                    assert(all.take(i + 1) =~= rs);
                    lemma_collect_results_prefix_err(all, i + 1);
                }
                return Err(e);
            },
            Ok(x) => {
                states.push(x);
                derivative_vrs.push(vr);
            },
        }
        assert(derivative_vrs@ =~= derivative_references(derivs@.take(i + 1)));
        i = i + 1;
    }
    assert(derivs@.take(derivs.len() as int) =~= derivs@);

    let residuals = &manifest.modelStructure.residuals;
    let mut residual_vrs: Vec<u32> = Vec::new();
    let mut j: usize = 0;
    assert(residual_references(residuals@.take(0)) =~= Seq::<Result<u32, Seq<char>>>::empty());
    while j < residuals.len()
        invariant
            0 <= j <= residuals.len(),
            residuals@ == manifest.modelStructure.residuals@,
            collect_results(state_references(variables@, manifest.modelStructure.continuousStateDerivatives@)) == Ok::<Seq<u32>, Seq<char>>(states@),
            collect_results(residual_references(residuals@.take(j as int))) == Ok::<Seq<u32>, Seq<char>>(residual_vrs@),
        decreases residuals.len() - j,
    {
        let ghost rs = residual_references(residuals@.take(j + 1));
        assert(rs.drop_last() =~= residual_references(residuals@.take(j as int)));
        assert(rs.last() == spec_residual_reference(j as int, residuals@[j as int]));
        if residuals[j].formulations.len() == 1 {
            residual_vrs.push(residuals[j].formulations[0].valueReference);
        } else {
            let mut m = String::from_str("Residual ");
            push_decimal(&mut m, (j as u128) + 1);
            m.append(" must have exactly one formuation");
            proof {
                let all = residual_references(residuals@);
                assert(all.take(j + 1) =~= rs);
                lemma_collect_results_prefix_err(all, j + 1);
            }
            return Err(SimulationError::Parameter(m));
        }
        j = j + 1;
    }
    assert(residuals@.take(residuals.len() as int) =~= residuals@);

    let algebraics = &manifest.algebraicVariables.algebraicVariables;
    let mut known_vrs = states;
    let mut k: usize = 0;
    assert(known_vrs@ =~= states@ + algebraic_references(algebraics@.take(0)));
    while k < algebraics.len()
        invariant
            0 <= k <= algebraics.len(),
            known_vrs@ == states@ + algebraic_references(algebraics@.take(k as int)),
        decreases algebraics.len() - k,
    {
        known_vrs.push(algebraics[k].valueReference);
        assert(known_vrs@ =~= states@ + algebraic_references(algebraics@.take(k + 1)));
        k = k + 1;
    }
    assert(algebraics@.take(algebraics.len() as int) =~= algebraics@);
    let mut unknown_vrs = derivative_vrs;
    let mut residual_vrs = residual_vrs;
    unknown_vrs.append(&mut residual_vrs);
    Ok(DaeValueReferences { known_vrs, unknown_vrs })
}

} // verus!
