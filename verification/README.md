# fmi-rs (verified core)

The verified core of an FMI (Functional Mock-up Interface) toolkit, written
in Verus.

- `src/` is the library, verified by Verus: the data model of build
  descriptions and DAE manifests, the grammar of the space-separated
  attributes of DAE manifests, decimal numbers, the value references of a
  DAE, the content of the CMake project that rebuilds an FMU, CSV records of
  trajectories, FMI status checks and log lines.
- `app/` is ordinary Rust around it: reading XML files with serde and
  quick-xml, reading and writing CSV files, writing log lines to streams,
  downloading files and loading symbols of shared libraries.
- `tests/` runs the library on concrete values.
