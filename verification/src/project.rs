//! A new project: the names its template is rendered with, the placeholders in the
//! template's paths, and the `.gitignore` entries it needs.
use vstd::prelude::*;
use vstd::string::*;
use crate::case::{flat_case, kebab_case, pascal_case, snake_case, spec_flat_case, spec_kebab_case, spec_pascal_case, spec_snake_case};
use crate::naming::{cxx_mod_cls_name, objc_mod_provider_name, spec_cxx_mod_cls_name, spec_objc_mod_provider_name};
use crate::text::{contains_str, contains_sub, copy_str, join, occurs_at, replace_all, replace_str, starts_with, views};
use crate::toolchain::{joined_path, path_join};

verus! {

/// The names a package is rendered with (for `fast-calculator`: `fast_calculator`,
/// `CxxFastCalculatorModule`, `fastcalculator`, `fast_calculator`, `fast-calculator`,
/// `FastCalculator`, `FastCalculatorModuleProvider`).
pub struct InitNames {
    pub crate_name: String,
    pub cxx_name: String,
    pub flat_name: String,
    pub snake_name: String,
    pub kebab_name: String,
    pub pascal_name: String,
    pub objc_provider: String,
}

/// The names of a package, derived from its crate name (the package name in snake case).
pub fn init_names(pkg_name: &str) -> (r: InitNames)
    ensures
        r.crate_name@ == spec_snake_case(pkg_name@),
        r.cxx_name@ == spec_cxx_mod_cls_name(spec_snake_case(pkg_name@)),
        r.flat_name@ == spec_flat_case(spec_snake_case(pkg_name@)),
        r.snake_name@ == spec_snake_case(spec_snake_case(pkg_name@)),
        r.kebab_name@ == spec_kebab_case(spec_snake_case(pkg_name@)),
        r.pascal_name@ == spec_pascal_case(spec_snake_case(pkg_name@)),
        r.objc_provider@ == spec_objc_mod_provider_name(spec_snake_case(pkg_name@)),
{
    let crate_name = snake_case(pkg_name);
    let cxx_name = cxx_mod_cls_name(crate_name.as_str());
    let flat_name = flat_case(crate_name.as_str());
    let snake_name = snake_case(crate_name.as_str());
    let kebab_name = kebab_case(crate_name.as_str());
    let pascal_name = pascal_case(crate_name.as_str());
    let objc_provider = objc_mod_provider_name(crate_name.as_str());
    InitNames { crate_name, cxx_name, flat_name, snake_name, kebab_name, pascal_name, objc_provider }
}

/// The answers a new package is rendered with.
pub struct InitAnswers {
    pub pkg_name: String,
    pub pkg_version: String,
    pub description: String,
    pub author_name: String,
    pub author_email: String,
    pub repository_url: String,
    pub year: String,
}

/// The template's data, by key in ascending order (as a `BTreeMap` holds it).
pub open spec fn spec_template_data(a: InitAnswers, n: InitNames) -> Seq<(Seq<char>, Seq<char>)> {
    seq![
        ("author_email"@, a.author_email@),
        ("author_name"@, a.author_name@),
        ("crate_name"@, n.crate_name@),
        ("cxx_name"@, n.cxx_name@),
        ("description"@, a.description@),
        ("flat_name"@, n.flat_name@),
        ("kebab_name"@, n.kebab_name@),
        ("objc_provider"@, n.objc_provider@),
        ("pascal_name"@, n.pascal_name@),
        ("pkg_name"@, a.pkg_name@),
        ("pkg_version"@, a.pkg_version@),
        ("repository_url"@, a.repository_url@),
        ("snake_name"@, n.snake_name@),
        ("year"@, a.year@),
    ]
}

pub open spec fn pairs_view(v: Seq<(String, String)>) -> Seq<(Seq<char>, Seq<char>)> {
    v.map_values(|p: (String, String)| (p.0@, p.1@))
}

fn pair(k: &str, v: &String) -> (r: (String, String))
    ensures
        r.0@ == k@,
        r.1@ == v@,
{
    (copy_str(k), copy_str(v.as_str()))
}

/// The template's data for a new package.
pub fn template_data(a: &InitAnswers, n: &InitNames) -> (r: Vec<(String, String)>)
    ensures
        pairs_view(r@) == spec_template_data(*a, *n),
{
    let mut r: Vec<(String, String)> = Vec::new();
    r.push(pair("author_email", &a.author_email));
    r.push(pair("author_name", &a.author_name));
    r.push(pair("crate_name", &n.crate_name));
    r.push(pair("cxx_name", &n.cxx_name));
    r.push(pair("description", &a.description));
    r.push(pair("flat_name", &n.flat_name));
    r.push(pair("kebab_name", &n.kebab_name));
    r.push(pair("objc_provider", &n.objc_provider));
    r.push(pair("pascal_name", &n.pascal_name));
    r.push(pair("pkg_name", &a.pkg_name));
    r.push(pair("pkg_version", &a.pkg_version));
    r.push(pair("repository_url", &a.repository_url));
    r.push(pair("snake_name", &n.snake_name));
    r.push(pair("year", &a.year));
    assert(pairs_view(r@) =~= spec_template_data(*a, *n));
    r
}

/// The placeholder of a key: `{{key}}`.
pub open spec fn placeholder(k: Seq<char>) -> Seq<char> {
    "{{"@ + k + "}}"@
}

/// `s` with each placeholder replaced by its value, key by key in the data's order.
pub open spec fn replace_placeholders(s: Seq<char>, data: Seq<(Seq<char>, Seq<char>)>) -> Seq<char>
    decreases data.len(),
{
    if data.len() == 0 {
        s
    } else {
        let d = data.last();
        replace_all(replace_placeholders(s, data.drop_last()), placeholder(d.0), d.1)
    }
}

/// Replaces the placeholders of the data in a text.
pub fn fill_placeholders(text: &str, data: &Vec<(String, String)>) -> (r: String)
    ensures
        r@ == replace_placeholders(text@, pairs_view(data@)),
{
    let mut out = copy_str(text);
    let n = data.len();
    let mut i: usize = 0;
    let ghost dv = pairs_view(data@);
    assert(dv.take(0) =~= Seq::<(Seq<char>, Seq<char>)>::empty());
    while i < n
        invariant
            n == data@.len(),
            dv == pairs_view(data@),
            i <= n,
            out@ == replace_placeholders(text@, dv.take(i as int)),
        decreases n - i,
    {
        assert(dv.take(i + 1).drop_last() =~= dv.take(i as int));
        assert(dv.take(i + 1).last() == (data@[i as int].0@, data@[i as int].1@));
        let mut pat = String::from_str("{{");
        pat.append(data[i].0.as_str());
        pat.append("}}");
        proof {
            reveal_strlit("{{");
        }
        out = replace_str(out.as_str(), pat.as_str(), data[i].1.as_str());
        i = i + 1;
    }
    assert(dv.take(n as int) =~= dv);
    out
}

/// The text of a path's parent, where it has one (`Path::parent`), under the path rules of the
/// platform the library is built for.
pub uninterp spec fn path_parent(p: Seq<char>) -> Option<Seq<char>>;

/// The text of a path's last component, where it has one (`Path::file_name`), under the path
/// rules of the platform the library is built for.
pub uninterp spec fn path_file_name(p: Seq<char>) -> Option<Seq<char>>;

pub open spec fn opt_view(o: Option<String>) -> Option<Seq<char>> {
    match o {
        Some(s) => Some(s@),
        None => None,
    }
}

/// `std::path::Path::parent`, as text.
#[verifier::external_body]
fn parent_of(p: &str) -> (r: Option<String>)
    ensures
        opt_view(r) == path_parent(p@),
{
    match std::path::Path::new(p).parent() {
        Some(x) => Some(x.to_string_lossy().into_owned()),
        None => None,
    }
}

/// `std::path::Path::file_name`, as text.
#[verifier::external_body]
fn file_name_of(p: &str) -> (r: Option<String>)
    ensures
        opt_view(r) == path_file_name(p@),
{
    match std::path::Path::new(p).file_name() {
        Some(x) => Some(x.to_string_lossy().into_owned()),
        None => None,
    }
}

/// A template path with its placeholders filled: the whole path, or (keeping the base name)
/// only its parent, joined again with the unchanged base name.
pub open spec fn spec_replace_path(path: Seq<char>, data: Seq<(Seq<char>, Seq<char>)>, keep_base_name: bool) -> Seq<char> {
    if keep_base_name {
        joined_path(replace_placeholders(path_parent(path)->0, data), path_file_name(path)->0)
    } else {
        replace_placeholders(path, data)
    }
}

/// Fills the placeholders of a template path; keeping the base name needs a path with a
/// parent and a last component.
pub fn replace_path(path: &str, data: &Vec<(String, String)>, keep_base_name: bool) -> (r: String)
    requires
        keep_base_name ==> path_parent(path@) is Some && path_file_name(path@) is Some,
    ensures
        r@ == spec_replace_path(path@, pairs_view(data@), keep_base_name),
{
    if keep_base_name {
        let base_name = match file_name_of(path) {
            Some(b) => b,
            None => {
                assert(false);
                String::new()
            },
        };
        let parent = match parent_of(path) {
            Some(p) => p,
            None => {
                assert(false);
                String::new()
            },
        };
        let replaced = fill_placeholders(parent.as_str(), data);
        path_join(replaced.as_str(), base_name.as_str())
    } else {
        fill_placeholders(path, data)
    }
}

/// `replace_path` where it applies; `None` for a path without parent or last component when
/// the base name is kept.
pub fn try_replace_path(path: &str, data: &Vec<(String, String)>, keep_base_name: bool) -> (r: Option<String>)
    ensures
        (keep_base_name ==> path_parent(path@) is Some && path_file_name(path@) is Some) ==> (r matches Some(s)
            && s@ == spec_replace_path(path@, pairs_view(data@), keep_base_name)),
        !(keep_base_name ==> path_parent(path@) is Some && path_file_name(path@) is Some) ==> r is None,
{
    if keep_base_name {
        let p = parent_of(path);
        let f = file_name_of(path);
        if p.is_none() || f.is_none() {
            return None;
        }
    }
    Some(replace_path(path, data, keep_base_name))
}

/// The library name of a crate: its name without underscores.
pub fn lib_name_of(crate_name: &str) -> (r: String)
    ensures
        r@ == replace_all(crate_name@, "_"@, ""@),
{
    proof {
        reveal_strlit("_");
    }
    replace_str(crate_name, "_", "")
}

/// What `.gitignore` becomes: created with the Craby entries where there is none; else the
/// entries it misses (`target/`, `.craby`) appended under a `# Craby` heading; `None` where it
/// has both.
pub open spec fn spec_gitignore(existing: Option<Seq<char>>) -> Option<Seq<char>> {
    match existing {
        None => Some("# Craby\n.craby\ntarget/"@),
        Some(content) => {
            let missing = (if !contains_sub(content, "target/"@) {
                seq!["target/"@]
            } else {
                Seq::empty()
            }) + (if !contains_sub(content, ".craby"@) {
                seq![".craby"@]
            } else {
                Seq::empty()
            });
            if missing.len() > 0 {
                Some(content + "\n\n# Craby\n"@ + join(missing, "\n"@))
            } else {
                None
            }
        },
    }
}

/// The new content of `.gitignore`, or `None` where it needs no change.
pub fn gitignore_update(existing: Option<&str>) -> (r: Option<String>)
    ensures
        opt_view(r) == spec_gitignore(
            match existing {
                Some(s) => Some(s@),
                None => None,
            },
        ),
{
    match existing {
        None => Some(String::from_str("# Craby\n.craby\ntarget/")),
        Some(content) => {
            let mut missing: Vec<String> = Vec::new();
            if !contains_str(content, "target/") {
                missing.push(String::from_str("target/"));
            }
            if !contains_str(content, ".craby") {
                missing.push(String::from_str(".craby"));
            }
            let ghost m = (if !contains_sub(content@, "target/"@) {
                seq!["target/"@]
            } else {
                Seq::empty()
            }) + (if !contains_sub(content@, ".craby"@) {
                seq![".craby"@]
            } else {
                Seq::empty()
            });
            assert(views(missing@) =~= m);
            if missing.len() > 0 {
                let mut out = String::from_str(content);
                out.append("\n\n# Craby\n");
                let joined = crate::text::join_strings(&missing, "\n");
                out.append(joined.as_str());
                Some(out)
            } else {
                None
            }
        },
    }
}

} // verus!

verus! {

/// What `handlebars` renders from a template and the values of its variables (`None` where
/// it refuses the template).
pub uninterp spec fn handlebars_rendered(template: Seq<char>, data: Seq<(Seq<char>, Seq<char>)>) -> Option<Seq<char>>;

/// `handlebars::Handlebars::new().render_template`, with the values given as a map from
/// variable names to texts; `None` where it returns an error. What the rendering gives is
/// only named here, not stated.
#[verifier::external_body]
fn render_with_handlebars(template: &str, data: &Vec<(String, String)>) -> (r: Option<String>)
    ensures
        opt_view(r) == handlebars_rendered(template@, pairs_view(data@)),
{
    let values: std::collections::BTreeMap<&str, &str> = data.iter().map(|(k, v)| (k.as_str(), v.as_str())).collect();
    handlebars::Handlebars::new().render_template(template, &values).ok()
}

/// Why the content of a template file could not be rendered.
#[derive(Debug, PartialEq, Eq, Structural, Clone, Copy)]
pub enum TemplateError {
    /// The template engine refused the text.
    Render,
}

/// Renders the content of a template file with the project's values.
pub fn render_content(template: &str, data: &Vec<(String, String)>) -> (r: Result<String, TemplateError>)
    ensures
        match handlebars_rendered(template@, pairs_view(data@)) {
            Some(s) => r matches Ok(t) && t@ == s,
            None => r == Err::<String, TemplateError>(TemplateError::Render),
        },
{
    match render_with_handlebars(template, data) {
        Some(s) => Ok(s),
        None => Err(TemplateError::Render),
    }
}

/// Whether a source file is a module specification: a `.ts` file whose name starts with
/// `Native`.
pub open spec fn spec_is_spec_source(file_name: Seq<char>, ext: Seq<char>) -> bool {
    ext == "ts"@ && starts_with(file_name, "Native"@)
}

pub fn is_spec_source(file_name: &str, ext: &str) -> (r: bool)
    ensures
        r == spec_is_spec_source(file_name@, ext@),
{
    crate::text::str_eq(ext, "ts") && crate::text::starts_with_str(file_name, "Native")
}

/// `metro.config.js` of the example app.
pub open spec fn spec_metro_config() -> Seq<char> {
    "const { getMetroConfig } = require('@craby/devkit');\nconst { getDefaultConfig, mergeConfig } = require('@react-native/metro-config');\n\n/**\n* Metro configuration\n* https://reactnative.dev/docs/metro\n*\n* @type {import('@react-native/metro-config').MetroConfig}\n*/\nconst config = getMetroConfig(__dirname);\n\nmodule.exports = mergeConfig(getDefaultConfig(__dirname), config);\n"@
}

pub fn metro_config() -> (r: String)
    ensures
        r@ == spec_metro_config(),
{
    String::from_str(
        "const { getMetroConfig } = require('@craby/devkit');\nconst { getDefaultConfig, mergeConfig } = require('@react-native/metro-config');\n\n/**\n* Metro configuration\n* https://reactnative.dev/docs/metro\n*\n* @type {import('@react-native/metro-config').MetroConfig}\n*/\nconst config = getMetroConfig(__dirname);\n\nmodule.exports = mergeConfig(getDefaultConfig(__dirname), config);\n",
    )
}

/// `react-native.config.js` of the example app.
pub open spec fn spec_react_native_config() -> Seq<char> {
    "const path = require('node:path');\nconst { withWorkspaceModule } = require('@craby/devkit');\n\nconst modulePackagePath = path.resolve(__dirname, '..');\nconst config = {};\n\nmodule.exports = withWorkspaceModule(config, modulePackagePath);\n"@
}

pub fn react_native_config() -> (r: String)
    ensures
        r@ == spec_react_native_config(),
{
    String::from_str(
        "const path = require('node:path');\nconst { withWorkspaceModule } = require('@craby/devkit');\n\nconst modulePackagePath = path.resolve(__dirname, '..');\nconst config = {};\n\nmodule.exports = withWorkspaceModule(config, modulePackagePath);\n",
    )
}

} // verus!

verus! {

proof fn lemma_occurs_in_prefix(s: Seq<char>, t: Seq<char>, p: Seq<char>)
    requires
        contains_sub(s, p),
    ensures
        contains_sub(s + t, p),
{
    let i = choose|i: int| #[trigger] occurs_at(s, p, i);
    assert((s + t).subrange(i, i + p.len()) =~= s.subrange(i, i + p.len()));
    assert(occurs_at(s + t, p, i));
}

proof fn lemma_occurs_at_end(s: Seq<char>, p: Seq<char>)
    ensures
        contains_sub(s + p, p),
{
    assert((s + p).subrange(s.len() as int, (s.len() + p.len()) as int) =~= p);
    assert(occurs_at(s + p, p, s.len() as int));
}

/// Updating `.gitignore` twice changes nothing the second time: once updated, it holds both
/// entries.
pub proof fn lemma_gitignore_update_idempotent(existing: Option<Seq<char>>)
    ensures
        spec_gitignore(existing) matches Some(updated) ==> spec_gitignore(Some(updated)) is None,
{
    reveal_strlit("# Craby\n.craby\ntarget/");
    reveal_strlit("\n\n# Craby\n");
    reveal_strlit("# Craby\n");
    reveal_strlit("\n");
    reveal_strlit("target/");
    reveal_strlit(".craby");
    let t = "target/"@;
    let c = ".craby"@;
    match existing {
        None => {
            let out = "# Craby\n.craby\ntarget/"@;
            assert(out =~= "# Craby\n"@ + c + "\n"@ + t);
            lemma_occurs_at_end("# Craby\n"@ + c + "\n"@, t);
            lemma_occurs_at_end("# Craby\n"@, c);
            lemma_occurs_in_prefix("# Craby\n"@ + c, "\n"@ + t, c);
            assert(("# Craby\n"@ + c) + ("\n"@ + t) =~= out);
        },
        Some(content) => {
            let has_t = contains_sub(content, t);
            let has_c = contains_sub(content, c);
            let missing = (if !has_t { seq![t] } else { Seq::empty() }) + (if !has_c { seq![c] } else { Seq::empty() });
            if missing.len() > 0 {
                let head = content + "\n\n# Craby\n"@;
                let out = head + join(missing, "\n"@);
                assert(spec_gitignore(existing) == Some(out));
                if has_t {
                    lemma_occurs_in_prefix(content, "\n\n# Craby\n"@, t);
                    lemma_occurs_in_prefix(head, join(missing, "\n"@), t);
                }
                if has_c {
                    lemma_occurs_in_prefix(content, "\n\n# Craby\n"@, c);
                    lemma_occurs_in_prefix(head, join(missing, "\n"@), c);
                }
                if !has_t && !has_c {
                    assert(missing =~= seq![t, c]);
                    assert(missing.drop_last() =~= seq![t]);
                    assert(join(missing.drop_last(), "\n"@) == t);
                    assert(join(missing, "\n"@) =~= t + "\n"@ + c);
                    assert(out =~= (head + t) + ("\n"@ + c));
                    lemma_occurs_at_end(head, t);
                    lemma_occurs_in_prefix(head + t, "\n"@ + c, t);
                    assert(out =~= (head + t + "\n"@) + c);
                    lemma_occurs_at_end(head + t + "\n"@, c);
                } else if !has_t {
                    assert(missing =~= seq![t]);
                    assert(join(missing, "\n"@) == t);
                    lemma_occurs_at_end(head, t);
                } else if !has_c {
                    assert(missing =~= seq![c]);
                    assert(join(missing, "\n"@) == c);
                    lemma_occurs_at_end(head, c);
                }
                assert(contains_sub(out, t));
                assert(contains_sub(out, c));
            }
        },
    }
}

} // verus!
