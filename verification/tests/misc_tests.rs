use fmi_rs::build_description::default_false;
use fmi_rs::fmi2::{self, derivative_and_state_value_references, fmi2Status, ScalarVariable};
use fmi_rs::fmi3::{self, fmi3Status};
use fmi_rs::log::{trim_end, DefaultLogger};
use fmi_rs::sim::SimulationError;
use fmi_rs::util::{reference_fmus_archive_name, reference_fmus_url};

#[test]
fn fmi2_call_passes_ok_and_warning() {
    assert_eq!(fmi2::call(fmi2Status::fmi2OK), Ok(fmi2Status::fmi2OK));
    assert_eq!(fmi2::call(fmi2Status::fmi2Warning), Ok(fmi2Status::fmi2Warning));
    for s in [fmi2Status::fmi2Discard, fmi2Status::fmi2Error, fmi2Status::fmi2Fatal, fmi2Status::fmi2Pending] {
        assert_eq!(fmi2::call(s), Err(SimulationError::FMICall));
    }
}

#[test]
fn fmi3_call_passes_ok_and_warning() {
    assert_eq!(fmi3::call(fmi3Status::fmi3OK), Ok(fmi3Status::fmi3OK));
    assert_eq!(fmi3::call(fmi3Status::fmi3Warning), Ok(fmi3Status::fmi3Warning));
    for s in [fmi3Status::fmi3Discard, fmi3Status::fmi3Error, fmi3Status::fmi3Fatal] {
        assert_eq!(fmi3::call(s), Err(SimulationError::FMICall));
    }
}

#[test]
fn external_is_false_by_default() {
    assert!(!default_false());
}

#[test]
fn reference_fmus_location() {
    assert_eq!(
        reference_fmus_url("0.0.39"),
        "https://github.com/modelica/Reference-FMUs/releases/download/v0.0.39/Reference-FMUs-0.0.39.zip"
    );
    assert_eq!(reference_fmus_archive_name("0.0.39"), "Reference-FMUs-0.0.39.zip");
}

#[test]
fn trims_trailing_white_space_like_std() {
    for s in ["", "abc", "abc  ", "abc\n", " a b \t\r\n", "x\u{3000}\u{2028}\u{85}", "\u{A0}", "a\u{200B}"] {
        assert_eq!(trim_end(s), s.trim_end(), "{s:?}");
    }
}

#[test]
fn plain_log_lines() {
    let logger = DefaultLogger::new(false);
    assert!(!logger.is_terminal);
    assert_eq!(logger.call_line("fmi3Reset()"), "[FMI] fmi3Reset()");
    assert_eq!(logger.call_line("x  "), "[FMI] x  ");
    assert_eq!(logger.message_line(fmi3Status::fmi3OK, "logEvents", "done\n"), "[INFO] [logEvents] done");
    assert_eq!(logger.message_line(fmi3Status::fmi3Warning, "c", "w"), "[WARNING] [c] w");
    assert_eq!(logger.message_line(fmi3Status::fmi3Discard, "c", "d "), "[DISCARD] [c] d");
    assert_eq!(logger.message_line(fmi3Status::fmi3Error, "c", "e"), "[ERROR] [c] e");
    assert_eq!(logger.message_line(fmi3Status::fmi3Fatal, "c", "f"), "[FATAL] [c] f");
}

#[test]
fn terminal_log_lines() {
    let logger = DefaultLogger::new(true);
    let line = logger.message_line(fmi3Status::fmi3Warning, "cat", "message \t");
    assert!(
        line == "[WARNING] [cat] message" || line == "\u{1b}[33m[WARNING]\u{1b}[0m [cat] message",
        "{line:?}"
    );
    let line = logger.message_line(fmi3Status::fmi3OK, "cat", "m");
    assert!(line == "[INFO] [cat] m" || line == "\u{1b}[94m[INFO]\u{1b}[0m [cat] m", "{line:?}");
    let line = logger.message_line(fmi3Status::fmi3Fatal, "cat", "m");
    assert!(line == "[FATAL] [cat] m" || line == "\u{1b}[91m[FATAL]\u{1b}[0m [cat] m", "{line:?}");
    let line = logger.call_line("fmi3Terminate()");
    assert!(line == "[FMI] fmi3Terminate()" || line == "\u{1b}[90m[FMI]\u{1b}[0m fmi3Terminate()", "{line:?}");
}

#[test]
fn colored_prefixes_follow_colored_override() {
    let logger = DefaultLogger::new(true);
    colored::control::set_override(true);
    let warning = logger.message_line(fmi3Status::fmi3Warning, "c", "w");
    let error = logger.message_line(fmi3Status::fmi3Error, "c", "e");
    let call = logger.call_line("fmi3DoStep()");
    colored::control::set_override(false);
    let plain = logger.message_line(fmi3Status::fmi3Warning, "c", "w");
    colored::control::unset_override();
    assert_eq!(warning, "\u{1b}[33m[WARNING]\u{1b}[0m [c] w");
    assert_eq!(error, "\u{1b}[91m[ERROR]\u{1b}[0m [c] e");
    assert_eq!(call, "\u{1b}[90m[FMI]\u{1b}[0m fmi3DoStep()");
    assert_eq!(plain, "[WARNING] [c] w");
}

#[test]
fn fmi2_derivatives_and_their_states() {
    let vars = vec![
        ScalarVariable { valueReference: 10, derivative: None },
        ScalarVariable { valueReference: 11, derivative: Some(1) },
        ScalarVariable { valueReference: 12, derivative: None },
        ScalarVariable { valueReference: 13, derivative: Some(3) },
    ];
    let (derivatives, states) = derivative_and_state_value_references(&vec![4, 2], &vars);
    assert_eq!(derivatives, vec![13, 11]);
    assert_eq!(states, vec![12, 10]);
    let (derivatives, states) = derivative_and_state_value_references(&vec![], &vars);
    assert!(derivatives.is_empty() && states.is_empty());
}
