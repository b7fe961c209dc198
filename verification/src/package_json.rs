//! A package's `package.json`: the `codegenConfig` check that `doctor` runs, and the workspace
//! entries that `init` adds to the library's and the example app's manifests.
use vstd::prelude::*;

verus! {

/// The `codegenConfig` fields that the build reads.
pub struct CodegenConfigFields {
    /// `codegenConfig.jsSrcsDir`, where it is a string.
    pub js_srcs_dir: Option<String>,
    /// `codegenConfig.android.javaPackageName`, where it is a string.
    pub java_package_name: Option<String>,
}

pub open spec fn opt_str_view(o: Option<String>) -> Option<Seq<char>> {
    match o {
        Some(s) => Some(s@),
        None => None,
    }
}

/// The two fields as character sequences.
pub open spec fn fields_view(f: CodegenConfigFields) -> (Option<Seq<char>>, Option<Seq<char>>) {
    (opt_str_view(f.js_srcs_dir), opt_str_view(f.java_package_name))
}

/// A `codegenConfig` entry: absent, present but not an object, or its fields.
pub open spec fn config_view(c: Option<Option<CodegenConfigFields>>) -> Option<Option<(Option<Seq<char>>, Option<Seq<char>>)>> {
    match c {
        None => None,
        Some(None) => Some(None),
        Some(Some(f)) => Some(Some(fields_view(f))),
    }
}

pub open spec fn config_read_view(r: Result<Option<Option<CodegenConfigFields>>, String>) -> Result<
    Option<Option<(Option<Seq<char>>, Option<Seq<char>>)>>,
    Seq<char>,
> {
    match r {
        Err(e) => Err(e@),
        Ok(c) => Ok(config_view(c)),
    }
}

/// What serde_json reads from a `package.json` text: the message of its parse error, or its
/// `codegenConfig` entry (absent, not an object, or the string values of `jsSrcsDir` and
/// `android.javaPackageName`).
pub uninterp spec fn codegen_config_of(text: Seq<char>) -> Result<Option<Option<(Option<Seq<char>>, Option<Seq<char>>)>>, Seq<char>>;

/// Parses `text` with `serde_json::from_str::<Value>` and reads `codegenConfig` with
/// `Value::get`, `Value::as_str` and a match on `Value::Object`. The contract claims only that
/// the result is a function of the text; what it is on given texts is left to serde_json.
#[verifier::external_body]
fn read_codegen_config(text: &str) -> (r: Result<Option<Option<CodegenConfigFields>>, String>)
    ensures
        config_read_view(r) == codegen_config_of(text@),
{
    let doc = serde_json::from_str::<serde_json::Value>(text).map_err(|e| e.to_string())?;
    match doc.get("codegenConfig") {
        None => Ok(None),
        Some(serde_json::Value::Object(cfg)) => Ok(Some(Some(CodegenConfigFields {
            js_srcs_dir: cfg.get("jsSrcsDir").and_then(|v| v.as_str()).map(|s| s.to_string()),
            java_package_name: cfg.get("android").and_then(|a| a.get("javaPackageName")).and_then(|v| v.as_str()).map(
                |s| s.to_string(),
            ),
        }))),
        Some(_) => Ok(Some(None)),
    }
}

/// The verdict on a `codegenConfig` entry.
pub open spec fn spec_codegen_config_status(cfg: Option<Option<(Option<Seq<char>>, Option<Seq<char>>)>>) -> Result<(), Seq<char>> {
    match cfg {
        None => Err("`codegenConfig` field not found in the `package.json`"@),
        Some(None) => Err("Invalid `codegenConfig` value"@),
        Some(Some((js_srcs_dir, java_package_name))) => if js_srcs_dir is Some && java_package_name is Some {
            Ok(())
        } else {
            Err("`codegenConfig.jsSrcsDir` and `codegenConfig.android.javaPackageName` are required"@)
        },
    }
}

pub open spec fn unit_result_view(r: Result<(), String>) -> Result<(), Seq<char>> {
    match r {
        Ok(()) => Ok(()),
        Err(e) => Err(e@),
    }
}

/// Judges a `codegenConfig` entry: both `jsSrcsDir` and `android.javaPackageName` are needed.
pub fn codegen_config_status(cfg: &Option<Option<CodegenConfigFields>>) -> (r: Result<(), String>)
    ensures
        unit_result_view(r) == spec_codegen_config_status(config_view(*cfg)),
{
    match cfg {
        None => Err(String::from_str("`codegenConfig` field not found in the `package.json`")),
        Some(None) => Err(String::from_str("Invalid `codegenConfig` value")),
        Some(Some(f)) => {
            if f.js_srcs_dir.is_some() && f.java_package_name.is_some() {
                Ok(())
            } else {
                Err(String::from_str("`codegenConfig.jsSrcsDir` and `codegenConfig.android.javaPackageName` are required"))
            }
        },
    }
}

/// Checks the TurboModule configuration of a `package.json` text: `Err` with serde_json's
/// message where the text is not JSON, else the verdict on its `codegenConfig` entry.
pub fn check_codegen_config(package_json: &str) -> (r: Result<Result<(), String>, String>)
    ensures
        match codegen_config_of(package_json@) {
            Err(m) => r matches Err(e) && e@ == m,
            Ok(c) => r matches Ok(v) && unit_result_view(v) == spec_codegen_config_status(c),
        },
{
    match read_codegen_config(package_json) {
        Err(e) => Err(e),
        Ok(cfg) => Ok(codegen_config_status(&cfg)),
    }
}

pub open spec fn opt_str_ref_view(o: Option<&str>) -> Option<Seq<char>> {
    match o {
        Some(s) => Some(s@),
        None => None,
    }
}

pub open spec fn edit_view(r: Result<Option<String>, String>) -> Result<Option<Seq<char>>, Seq<char>> {
    match r {
        Err(e) => Err(e@),
        Ok(None) => Ok(None),
        Ok(Some(t)) => Ok(Some(t@)),
    }
}

/// What serde_json makes of a JSON text with one entry added: the message of a parse error
/// (of the text or of the value); `None` where the document is not an object; else the
/// document, pretty-printed, with `key` set to the value in the root object (`object_key`
/// `None`) or in the object stored under `object_key` where there is one.
pub uninterp spec fn json_with_entry(
    text: Seq<char>,
    object_key: Option<Seq<char>>,
    key: Seq<char>,
    value_json: Seq<char>,
) -> Result<Option<Seq<char>>, Seq<char>>;

/// Parses both texts with `serde_json::from_str::<Value>`, finds the object with
/// `Value::as_object_mut` (and `Map::get_mut` under `object_key`), adds the entry with
/// `Map::insert` and prints the document with `serde_json::to_string_pretty`. The contract
/// claims only that the result is a function of the arguments.
#[verifier::external_body]
fn json_insert(text: &str, object_key: Option<&str>, key: &str, value_json: &str) -> (r: Result<Option<String>, String>)
    ensures
        edit_view(r) == json_with_entry(text@, opt_str_ref_view(object_key), key@, value_json@),
{
    let mut doc = serde_json::from_str::<serde_json::Value>(text).map_err(|e| e.to_string())?;
    let value = serde_json::from_str::<serde_json::Value>(value_json).map_err(|e| e.to_string())?;
    let Some(root) = doc.as_object_mut() else { return Ok(None) };
    let target = match object_key {
        None => Some(root),
        Some(k) => root.get_mut(k).and_then(|v| v.as_object_mut()),
    };
    if let Some(obj) = target {
        obj.insert(key.to_string(), value);
    }
    serde_json::to_string_pretty(&doc).map(Some).map_err(|e| e.to_string())
}

/// The library's root `package.json` with `"workspaces": ["example"]` added.
pub open spec fn spec_root_package_json(text: Seq<char>) -> Result<Option<Seq<char>>, Seq<char>> {
    json_with_entry(text, None, "workspaces"@, "[\"example\"]"@)
}

/// The example app's `package.json`: the library as a dependency (`"workspace:*"`) in
/// `dependencies`, then the devkit (`"*"`) in `devDependencies`, each where that object exists.
pub open spec fn spec_example_package_json(text: Seq<char>, pkg_name: Seq<char>) -> Result<Option<Seq<char>>, Seq<char>> {
    match json_with_entry(text, Some("dependencies"@), pkg_name, "\"workspace:*\""@) {
        Err(e) => Err(e),
        Ok(None) => Ok(None),
        Ok(Some(t)) => json_with_entry(t, Some("devDependencies"@), "@craby/devkit"@, "\"*\""@),
    }
}

/// The new text of the library's root `package.json` (`None`: the document is not an object
/// and stays as it is; `Err`: serde_json's message).
pub fn root_package_json(text: &str) -> (r: Result<Option<String>, String>)
    ensures
        edit_view(r) == spec_root_package_json(text@),
{
    json_insert(text, None, "workspaces", "[\"example\"]")
}

/// The new text of the example app's `package.json` (`None`: the document is not an object
/// and stays as it is; `Err`: serde_json's message).
pub fn example_package_json(text: &str, pkg_name: &str) -> (r: Result<Option<String>, String>)
    ensures
        edit_view(r) == spec_example_package_json(text@, pkg_name@),
{
    match json_insert(text, Some("dependencies"), pkg_name, "\"workspace:*\"") {
        Err(e) => Err(e),
        Ok(None) => Ok(None),
        Ok(Some(t)) => json_insert(t.as_str(), Some("devDependencies"), "@craby/devkit", "\"*\""),
    }
}

} // verus!
