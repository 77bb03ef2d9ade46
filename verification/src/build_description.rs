//! The FMI build description (`sources/buildDescription.xml`): how the C
//! sources of an FMU are compiled.
use vstd::prelude::*;

verus! {

/// Fallback type for the `Annotations` element, whose content is not read.
#[derive(Debug, PartialEq, Clone, Copy, Default)]
pub struct Annotations;

/// The root of a build description.
#[derive(Debug, PartialEq)]
pub struct BuildDescription {
    pub fmiVersion: String,
    pub buildConfigurations: Vec<BuildConfiguration>,
    pub annotations: Option<Annotations>,
}

/// How to build the FMU for one model identifier (and optionally one platform).
#[derive(Debug, PartialEq)]
pub struct BuildConfiguration {
    pub modelIdentifier: String,
    pub platform: Option<String>,
    pub description: Option<String>,
    pub sourceFileSets: Vec<SourceFileSet>,
    pub libraries: Vec<Library>,
    pub annotations: Option<Annotations>,
}

/// A set of source files compiled with the same settings.
#[derive(Debug, PartialEq)]
pub struct SourceFileSet {
    pub name: Option<String>,
    pub language: Option<String>,
    pub compiler: Option<String>,
    pub compilerOptions: Option<String>,
    pub sourceFiles: Vec<SourceFile>,
    pub preprocessorDefinitions: Vec<PreprocessorDefinition>,
    pub includeDirectories: Vec<IncludeDirectory>,
    pub annotations: Option<Annotations>,
}

/// A source file, relative to the `sources` directory of the FMU.
#[derive(Debug, PartialEq)]
pub struct SourceFile {
    pub name: String,
    pub annotations: Option<Annotations>,
}

/// A preprocessor definition, with an optional value.
#[derive(Debug, PartialEq)]
pub struct PreprocessorDefinition {
    pub name: String,
    pub optional: bool,
    pub value: Option<String>,
    pub description: Option<String>,
    pub options: Vec<PreprocessorOption>,
    pub annotations: Option<Annotations>,
}

/// A possible value of a preprocessor definition.
#[derive(Debug, PartialEq)]
pub struct PreprocessorOption {
    pub value: Option<String>,
    pub description: Option<String>,
}

/// An include directory, relative to the `sources` directory of the FMU.
#[derive(Debug, PartialEq)]
pub struct IncludeDirectory {
    pub name: String,
    pub annotations: Option<Annotations>,
}

/// A library that the FMU links against.
#[derive(Debug, PartialEq)]
pub struct Library {
    pub name: String,
    pub version: Option<String>,
    pub external: bool,
    pub description: Option<String>,
    pub annotations: Option<Annotations>,
}

/// The value of an optional boolean attribute that is absent (`external`).
pub fn default_false() -> (b: bool)
    ensures
        !b,
{
    false
}

} // verus!
