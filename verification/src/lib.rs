//! Verified core of an FMI simulation toolkit: the data model of FMI build
//! descriptions and DAE manifests, the textual grammar of their attributes,
//! the assembly of DAE value references, of CMake projects and of CSV tables,
//! FMI status checks and the formatting of log lines.
#![allow(non_camel_case_types, non_snake_case)]

pub mod build_description;
pub mod cmake;
pub mod csv;
pub mod dae;
pub mod decimal;
pub mod fmi2;
pub mod fmi3;
pub mod log;
pub mod model_description;
pub mod sim;
pub mod text;
pub mod util;
