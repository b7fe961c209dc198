//! Verified code generation core of Craby: type mapping and source templates for
//! Rust/C++ TurboModule bindings, schema analysis, and the build helpers around them.
use vstd::prelude::*;

pub mod text;
pub mod case;
pub mod schema;
pub mod naming;
pub mod rust_gen;
pub mod cxx_gen;
pub mod generator;
pub mod platform_gen;
pub mod toolchain;
pub mod ndk;
pub mod setup;
pub mod keyed;
pub mod deps;
pub mod bridging;
pub mod cli;
pub mod parser;
pub mod ts;
pub mod idmap;
pub mod analyzer;
pub mod project;
pub mod artifacts;
pub mod catalog;
pub mod registry;
pub mod package_json;

verus! {

} // verus!
