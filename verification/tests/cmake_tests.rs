use fmi_rs::build_description::{
    BuildConfiguration, BuildDescription, IncludeDirectory, PreprocessorDefinition, SourceFile,
    SourceFileSet,
};
use fmi_rs::cmake::{fmi2_cmake_lists, fmi3_cmake_lists, InterfaceSources};

fn s(v: &str) -> String {
    v.to_string()
}

fn interface(id: &str, files: &[&str]) -> InterfaceSources {
    InterfaceSources { modelIdentifier: s(id), sourceFiles: files.iter().map(|f| s(f)).collect() }
}

#[test]
fn fmi2_project_prefers_co_simulation() {
    let t = fmi2_cmake_lists(&Some(interface("cs", &["a.c", "b.c"])), &Some(interface("me", &["m.c"])), s("/x.fmu")).unwrap();
    assert_eq!(t.model_identifier, "cs");
    assert_eq!(t.fmi_major_version, 2);
    assert!(t.definitions.is_empty());
    assert_eq!(
        t.sources,
        vec![
            "src/modelDescription.xml",
            "include/fmi2Functions.h",
            "include/fmi2FunctionTypes.h",
            "include/fmi2TypesPlatform.h",
            "src/sources/a.c",
            "src/sources/b.c",
        ]
    );
    assert_eq!(t.include_dirs, vec!["include", "src/sources"]);
    assert_eq!(t.target_path, "/x.fmu");
}

#[test]
fn fmi2_project_falls_back_to_model_exchange() {
    let t = fmi2_cmake_lists(&None, &Some(interface("me", &["m.c"])), s("t")).unwrap();
    assert_eq!(t.model_identifier, "me");
    assert_eq!(t.sources.last().unwrap(), "src/sources/m.c");
}

#[test]
fn fmi2_project_needs_an_interface() {
    assert_eq!(
        fmi2_cmake_lists(&None, &None, s("t")).unwrap_err(),
        "No model identifier found in modelDescription.xml"
    );
}

fn definition(name: &str, value: Option<&str>) -> PreprocessorDefinition {
    PreprocessorDefinition {
        name: s(name),
        optional: false,
        value: value.map(s),
        description: None,
        options: vec![],
        annotations: None,
    }
}

fn set(defs: Vec<PreprocessorDefinition>, incs: &[&str], files: &[&str]) -> SourceFileSet {
    SourceFileSet {
        name: None,
        language: None,
        compiler: None,
        compilerOptions: None,
        sourceFiles: files.iter().map(|f| SourceFile { name: s(f), annotations: None }).collect(),
        preprocessorDefinitions: defs,
        includeDirectories: incs.iter().map(|d| IncludeDirectory { name: s(d), annotations: None }).collect(),
        annotations: None,
    }
}

fn configuration(sets: Vec<SourceFileSet>) -> BuildConfiguration {
    BuildConfiguration {
        modelIdentifier: s("M"),
        platform: None,
        description: None,
        sourceFileSets: sets,
        libraries: vec![],
        annotations: None,
    }
}

fn build_description() -> BuildDescription {
    BuildDescription {
        fmiVersion: s("3.0"),
        buildConfigurations: vec![
            configuration(vec![
                set(vec![definition("A", Some("1")), definition("B", None)], &["inc"], &["a.c"]),
                set(vec![], &[], &["b.c", "c.c"]),
            ]),
            configuration(vec![set(vec![definition("C", Some(""))], &["x/y"], &[])]),
        ],
        annotations: None,
    }
}

#[test]
fn fmi3_project_collects_every_source_file_set() {
    let bd = build_description();
    let t = fmi3_cmake_lists(&Some(s("cs")), &Some(s("me")), &bd, s("/p.fmu"), false).unwrap();
    assert_eq!(t.model_identifier, "cs");
    assert_eq!(t.fmi_major_version, 3);
    assert_eq!(
        t.definitions,
        vec!["FMI3_OVERRIDE_FUNCTION_PREFIX", "FMI3_ACTUAL_FUNCTION_PREFIX=\"\"", "A=1", "B", "C="]
    );
    assert_eq!(t.include_dirs, vec!["include", "src/sources/inc", "src/sources/x/y"]);
    assert_eq!(
        t.sources,
        vec!["src/modelDescription.xml", "src/sources/a.c", "src/sources/b.c", "src/sources/c.c"]
    );
    assert_eq!(t.target_path, "/p.fmu");
}

#[test]
fn fmi3_project_on_windows_exports_functions() {
    let bd = build_description();
    let t = fmi3_cmake_lists(&None, &Some(s("me")), &bd, s("p"), true).unwrap();
    assert_eq!(t.model_identifier, "me");
    assert_eq!(t.definitions[2], "FMI3_Export=__declspec(dllexport)");
    assert_eq!(t.definitions.len(), 6);
}

#[test]
fn fmi3_project_needs_an_interface() {
    let bd = build_description();
    assert_eq!(
        fmi3_cmake_lists(&None, &None, &bd, s("p"), false).unwrap_err(),
        "No model identifier found in modelDescription.xml"
    );
}
