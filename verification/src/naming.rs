//! Names that the generated files and build artifacts share.
use vstd::prelude::*;
use vstd::string::*;
use crate::case::{pascal_case, snake_case, spec_pascal_case, spec_snake_case};

verus! {

/// Class name of a module's C++ TurboModule (eg. `fast_calculator` ->
/// `CxxFastCalculatorModule`).
pub open spec fn spec_cxx_mod_cls_name(name: Seq<char>) -> Seq<char> {
    "Cxx"@ + spec_pascal_case(name) + "Module"@
}

pub fn cxx_mod_cls_name(name: &str) -> (r: String)
    ensures
        r@ == spec_cxx_mod_cls_name(name@),
{
    let mut r = String::from_str("Cxx");
    let p = pascal_case(name);
    r.append(p.as_str());
    r.append("Module");
    r
}

/// Name of a module's Objective-C module provider (eg. `fast_calculator` ->
/// `FastCalculatorModuleProvider`).
pub open spec fn spec_objc_mod_provider_name(name: Seq<char>) -> Seq<char> {
    spec_pascal_case(name) + "ModuleProvider"@
}

pub fn objc_mod_provider_name(name: &str) -> (r: String)
    ensures
        r@ == spec_objc_mod_provider_name(name@),
{
    let mut r = pascal_case(name);
    r.append("ModuleProvider");
    r
}

/// Name of the Rust module that implements a TurboModule (eg. `CrabyTest` ->
/// `craby_test_impl`).
pub open spec fn spec_impl_mod_name(name: Seq<char>) -> Seq<char> {
    spec_snake_case(name) + "_impl"@
}

pub fn impl_mod_name(name: &str) -> (r: String)
    ensures
        r@ == spec_impl_mod_name(name@),
{
    let mut r = snake_case(name);
    r.append("_impl");
    r
}

/// Base name of the library that a project builds (eg. `CrabyTest` -> `craby_test`).
pub open spec fn spec_lib_base_name(name: Seq<char>) -> Seq<char> {
    spec_snake_case(name)
}

pub fn lib_base_name(name: &str) -> (r: String)
    ensures
        r@ == spec_lib_base_name(name@),
{
    snake_case(name)
}

/// File name of the static library as the platform projects link it (eg. `CrabyTest` ->
/// `libcraby_test-craby.a`).
pub open spec fn spec_dest_lib_name(name: Seq<char>) -> Seq<char> {
    "lib"@ + spec_lib_base_name(name) + "-craby.a"@
}

pub fn dest_lib_name(name: &str) -> (r: String)
    ensures
        r@ == spec_dest_lib_name(name@),
{
    let mut r = String::from_str("lib");
    let b = lib_base_name(name);
    r.append(b.as_str());
    r.append("-craby.a");
    r
}

/// Directory name of the iOS XCFramework (eg. `CrabyTest` -> `libcraby_test.xcframework`).
pub open spec fn spec_xcframework_name(name: Seq<char>) -> Seq<char> {
    "lib"@ + spec_lib_base_name(name) + ".xcframework"@
}

pub fn xcframework_name(name: &str) -> (r: String)
    ensures
        r@ == spec_xcframework_name(name@),
{
    let mut r = String::from_str("lib");
    let b = lib_base_name(name);
    r.append(b.as_str());
    r.append(".xcframework");
    r
}

/// Marker written at the top of generated files that are overwritten on every run.
pub open spec fn spec_generated_comment() -> Seq<char> {
    "Auto-generated by Craby. DO NOT EDIT."@
}

pub fn generated_comment() -> (r: String)
    ensures
        r@ == spec_generated_comment(),
{
    String::from_str("Auto-generated by Craby. DO NOT EDIT.")
}

/// Prefix of the line of `generated.rs` that records the schema hash.
pub open spec fn spec_hash_command_prefix() -> Seq<char> {
    "// Hash: "@
}

pub fn hash_command_prefix() -> (r: String)
    ensures
        r@ == spec_hash_command_prefix(),
{
    String::from_str("// Hash: ")
}

} // verus!
