//! Static rebuild of Open Babel's plugin machinery, and the value types of its bindings.
//!
//! The patching modules turn a selection of the upstream C++ tree into a tree whose
//! plugin lookups are resolved at compile time: `manifest` selects the files, `rules`
//! and `engine` rewrite them with the rule sets of `patches`, `registry` generates the
//! per-category routers, `babelconfig` fills in the configuration header and `pipeline`
//! ties the steps together. `conversion`, `fingerprint`, `forcefields` and `io` hold the
//! names and parameters that the bindings hand to the compiled library.
pub mod text;
pub mod rules;
pub mod engine;
pub mod registry;
pub mod manifest;
pub mod patches;
pub mod pipeline;
pub mod babelconfig;
pub mod conversion;
pub mod fingerprint;
pub mod forcefields;
pub mod io;
