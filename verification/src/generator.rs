//! Per-module code generation: the spec trait, the implementation skeleton, and the Rust and
//! C++ parts that the file templates assemble.
use vstd::prelude::*;
use vstd::string::*;
use crate::schema::{CodegenError, Schema, TypeAnnotation};
use crate::rust_gen::RsCxxBridge;
use crate::cxx_gen::CxxMethod;

verus! {

/// Everything generated for one module.
pub struct CodegenResult {
    pub module_name: String,
    /// Name of the Rust module that implements the TurboModule.
    pub impl_mod: String,
    /// The spec trait (`pub trait MyModuleSpec { .. }`).
    pub spec_code: String,
    /// The implementation skeleton.
    pub impl_code: String,
    pub rs_cxx_bridge: RsCxxBridge,
    pub cxx_methods: Vec<CxxMethod>,
    /// JSI bridging templates, in the order the header must declare them.
    pub cxx_bridging_templates: Vec<String>,
}

} // verus!

verus! {

/// Generates the code of one module from its schema.
pub struct CodeGenerator;

/// The signatures of the methods with their Rust types, in order, or the first error.
pub open spec fn spec_method_sigs(fs: Seq<crate::schema::FunctionSpec>) -> Result<Seq<Seq<char>>, CodegenError>
    decreases fs.len(),
{
    if fs.len() == 0 {
        Ok(Seq::empty())
    } else {
        match spec_method_sigs(fs.drop_last()) {
            Err(e) => Err(e),
            Ok(prev) => match crate::rust_gen::spec_fn_rs_sig(fs.last()) {
                Ok(s) => Ok(prev.push(s)),
                Err(e) => Err(e),
            },
        }
    }
}

/// Inputs on which the methods' signatures are computed without a panic: every method that
/// is reached is a function whose unsupported parameters are not reached.
pub open spec fn method_sigs_defined(fs: Seq<crate::schema::FunctionSpec>) -> bool {
    forall|i: int|
        0 <= i < fs.len() && spec_method_sigs(#[trigger] fs.take(i)) is Ok ==> crate::rust_gen::rs_sig_defined(fs[i])
}

/// The name of a module's spec trait (eg. `CrabyTestSpec`).
pub open spec fn spec_trait_name(module_name: Seq<char>) -> Seq<char> {
    crate::case::spec_pascal_case(module_name + "Spec"@)
}

/// The spec trait of a schema: `pub trait MyModuleSpec { fn ..; }`.
pub open spec fn spec_generate_spec(s: Schema) -> Result<Seq<char>, CodegenError> {
    match spec_method_sigs(s.spec.methods@) {
        Err(e) => Err(e),
        Ok(sigs) => Ok(
            "pub trait "@ + spec_trait_name(s.module_name@) + " {\n"@ + crate::text::spec_indent(
                crate::text::join(sigs.map_values(|x: Seq<char>| x + ";"@), "\n"@),
                4,
            ) + "\n}"@,
        ),
    }
}

/// A method of the implementation skeleton: its signature with an `unimplemented!()` body.
pub open spec fn spec_impl_method(sig: Seq<char>) -> Seq<char> {
    sig + " {\n    unimplemented!();\n}"@
}

/// The implementation skeleton of a schema: a unit struct implementing the spec trait.
pub open spec fn spec_generate_impl(s: Schema) -> Result<Seq<char>, CodegenError> {
    match spec_method_sigs(s.spec.methods@) {
        Err(e) => Err(e),
        Ok(sigs) => {
            let mod_name = crate::case::spec_pascal_case(s.module_name@);
            Ok(
                "use crate::{ffi::"@ + crate::case::spec_snake_case(s.module_name@) + "::*, generated::*};\n\npub struct "@
                    + mod_name + ";\n\nimpl "@ + spec_trait_name(s.module_name@) + " for "@ + mod_name + " {\n"@
                    + crate::text::spec_indent(
                    crate::text::join(sigs.map_values(|x: Seq<char>| spec_impl_method(x)), "\n\n"@),
                    4,
                ) + "\n}"@,
            )
        },
    }
}

proof fn lemma_method_sigs_err_extends(fs: Seq<crate::schema::FunctionSpec>, k: int)
    requires
        0 <= k <= fs.len(),
    ensures
        spec_method_sigs(fs.take(k)) is Err ==> spec_method_sigs(fs) == spec_method_sigs(fs.take(k)),
    decreases fs.len() - k,
{
    if k < fs.len() {
        assert(fs.take(k + 1).drop_last() =~= fs.take(k));
        lemma_method_sigs_err_extends(fs, k + 1);
    } else {
        assert(fs.take(k) =~= fs);
    }
}

/// The signatures of the methods with their Rust types.
fn method_sigs(fs: &Vec<crate::schema::FunctionSpec>) -> (r: Result<Vec<String>, CodegenError>)
    requires
        method_sigs_defined(fs@),
    ensures
        r matches Ok(v) ==> spec_method_sigs(fs@) == Ok::<Seq<Seq<char>>, CodegenError>(crate::text::views(v@)),
        r matches Err(e) ==> spec_method_sigs(fs@) == Err::<Seq<Seq<char>>, CodegenError>(e),
{
    let n = fs.len();
    let mut out: Vec<String> = Vec::new();
    let mut i: usize = 0;
    assert(crate::text::views(out@) =~= Seq::<Seq<char>>::empty());
    assert(fs@.take(0).len() == 0);
    while i < n
        invariant
            n == fs@.len(),
            i <= n,
            method_sigs_defined(fs@),
            spec_method_sigs(fs@.take(i as int)) == Ok::<Seq<Seq<char>>, CodegenError>(crate::text::views(out@)),
        decreases n - i,
    {
        assert(fs@.take(i + 1).drop_last() =~= fs@.take(i as int));
        assert(fs@.take(i + 1).last() == fs@[i as int]);
        assert(crate::rust_gen::rs_sig_defined(fs@[i as int]));
        match fs[i].rs_sig() {
            Ok(s) => {
                let ghost b = out@;
                out.push(s);
                assert(crate::text::views(out@) =~= crate::text::views(b).push(s@));
            },
            Err(e) => {
                proof {
                    lemma_method_sigs_err_extends(fs@, i + 1);
                }
                return Err(e);
            },
        }
        i = i + 1;
    }
    assert(fs@.take(n as int) =~= fs@);
    Ok(out)
}

/// Appends `suffix` to each string.
fn map_suffix(v: &Vec<String>, suffix: &str) -> (r: Vec<String>)
    ensures
        crate::text::views(r@) == crate::text::views(v@).map_values(|x: Seq<char>| x + suffix@),
{
    let n = v.len();
    let mut out: Vec<String> = Vec::new();
    let mut i: usize = 0;
    while i < n
        invariant
            n == v@.len(),
            i <= n,
            crate::text::views(out@) == crate::text::views(v@).take(i as int).map_values(|x: Seq<char>| x + suffix@),
        decreases n - i,
    {
        let s = crate::rust_gen::cat2(v[i].as_str(), suffix);
        let ghost b = out@;
        out.push(s);
        proof {
            assert(crate::text::views(out@) =~= crate::text::views(b).push(s@));
            assert(crate::text::views(v@).take(i + 1).map_values(|x: Seq<char>| x + suffix@) =~= crate::text::views(v@).take(i as int).map_values(
                |x: Seq<char>| x + suffix@,
            ).push(v@[i as int]@ + suffix@));
        }
        i = i + 1;
    }
    assert(crate::text::views(v@).take(n as int) =~= crate::text::views(v@));
    out
}

/// The C++ methods of a list of methods (name, metadata, implementation each), or the first
/// error.
pub open spec fn spec_cxx_methods(m: Seq<char>, fs: Seq<crate::schema::FunctionSpec>) -> Result<Seq<(Seq<char>, Seq<char>, Seq<char>)>, CodegenError>
    decreases fs.len(),
{
    if fs.len() == 0 {
        Ok(Seq::empty())
    } else {
        match spec_cxx_methods(m, fs.drop_last()) {
            Err(e) => Err(e),
            Ok(prev) => match crate::cxx_gen::spec_cxx_method(m, fs.last()) {
                Ok(x) => Ok(prev.push(x)),
                Err(e) => Err(e),
            },
        }
    }
}

/// Inputs on which the C++ methods are generated without a panic: every method reached is a
/// function.
pub open spec fn cxx_methods_defined(m: Seq<char>, fs: Seq<crate::schema::FunctionSpec>) -> bool {
    forall|i: int|
        0 <= i < fs.len() && spec_cxx_methods(m, #[trigger] fs.take(i)) is Ok ==> *fs[i].type_annotation is FunctionTypeAnnotation
}

/// The view of a list of C++ methods.
pub open spec fn cxx_method_views(v: Seq<CxxMethod>) -> Seq<(Seq<char>, Seq<char>, Seq<char>)> {
    v.map_values(|c: CxxMethod| (c.name@, c.metadata@, c.impl_func@))
}

proof fn lemma_cxx_methods_err_extends(m: Seq<char>, fs: Seq<crate::schema::FunctionSpec>, k: int)
    requires
        0 <= k <= fs.len(),
    ensures
        spec_cxx_methods(m, fs.take(k)) is Err ==> spec_cxx_methods(m, fs) == spec_cxx_methods(m, fs.take(k)),
    decreases fs.len() - k,
{
    if k < fs.len() {
        assert(fs.take(k + 1).drop_last() =~= fs.take(k));
        lemma_cxx_methods_err_extends(m, fs, k + 1);
    } else {
        assert(fs.take(k) =~= fs);
    }
}

/// Inputs on which the whole module is generated without a panic: each part's condition,
/// where the parts before it succeeded.
pub open spec fn generate_defined(s: Schema) -> bool {
    &&& method_sigs_defined(s.spec.methods@)
    &&& (spec_generate_spec(s) is Ok && spec_generate_impl(s) is Ok
        ==> crate::rust_gen::methods_bridge_no_panic(s.module_name@, s.spec.methods@))
    &&& (spec_generate_spec(s) is Ok && spec_generate_impl(s) is Ok && crate::rust_gen::spec_rs_cxx_bridge(s) is Ok
        ==> cxx_methods_defined(s.module_name@, s.spec.methods@))
    &&& (spec_generate_spec(s) is Ok && spec_generate_impl(s) is Ok && crate::rust_gen::spec_rs_cxx_bridge(s) is Ok
        && spec_cxx_methods(s.module_name@, s.spec.methods@) is Ok ==> crate::bridging::bridging_defined(s))
}

/// The first error that generating the module meets, in the order the parts are generated.
pub open spec fn spec_generate_error(s: Schema) -> Option<CodegenError> {
    if let Err(e) = spec_generate_spec(s) {
        Some(e)
    } else if let Err(e) = spec_generate_impl(s) {
        Some(e)
    } else if let Err(e) = crate::rust_gen::spec_rs_cxx_bridge(s) {
        Some(e)
    } else if let Err(e) = spec_cxx_methods(s.module_name@, s.spec.methods@) {
        Some(e)
    } else if let Err(e) = crate::bridging::spec_bridging_templates(s) {
        Some(e)
    } else {
        None
    }
}

impl CodeGenerator {
    pub fn new() -> (r: Self) {
        CodeGenerator
    }

    /// Generates the spec trait for the given schema.
    pub fn generate_spec(&self, schema: &Schema) -> (r: Result<String, CodegenError>)
        requires
            method_sigs_defined(schema.spec.methods@),
        ensures
            r matches Ok(s) ==> spec_generate_spec(*schema) == Ok::<Seq<char>, CodegenError>(s@),
            r matches Err(e) ==> spec_generate_spec(*schema) == Err::<Seq<char>, CodegenError>(e),
    {
        let spec_name = crate::rust_gen::cat2(schema.module_name.as_str(), "Spec");
        let trait_name = crate::case::pascal_case(spec_name.as_str());
        let sigs = method_sigs(&schema.spec.methods)?;
        let methods = map_suffix(&sigs, ";");
        let joined = crate::text::join_strings(&methods, "\n");
        let body = crate::text::indent_str(joined, 4);
        let mut out = String::from_str("pub trait ");
        out.append(trait_name.as_str());
        out.append(" {\n");
        out.append(body.as_str());
        out.append("\n}");
        Ok(out)
    }

    /// Generates the empty implementation of the spec trait for the given schema.
    pub fn generate_impl(&self, schema: &Schema) -> (r: Result<String, CodegenError>)
        requires
            method_sigs_defined(schema.spec.methods@),
        ensures
            r matches Ok(s) ==> spec_generate_impl(*schema) == Ok::<Seq<char>, CodegenError>(s@),
            r matches Err(e) ==> spec_generate_impl(*schema) == Err::<Seq<char>, CodegenError>(e),
    {
        let mod_name = crate::case::pascal_case(schema.module_name.as_str());
        let snake_name = crate::case::snake_case(schema.module_name.as_str());
        let spec_name = crate::rust_gen::cat2(schema.module_name.as_str(), "Spec");
        let trait_name = crate::case::pascal_case(spec_name.as_str());
        let sigs = method_sigs(&schema.spec.methods)?;
        let methods = map_suffix(&sigs, " {\n    unimplemented!();\n}");
        assert(crate::text::views(methods@) =~= crate::text::views(sigs@).map_values(|x: Seq<char>| spec_impl_method(x)));
        let joined = crate::text::join_strings(&methods, "\n\n");
        let body = crate::text::indent_str(joined, 4);
        let mut out = String::from_str("use crate::{ffi::");
        out.append(snake_name.as_str());
        out.append("::*, generated::*};\n\npub struct ");
        out.append(mod_name.as_str());
        out.append(";\n\nimpl ");
        out.append(trait_name.as_str());
        out.append(" for ");
        out.append(mod_name.as_str());
        out.append(" {\n");
        out.append(body.as_str());
        out.append("\n}");
        Ok(out)
    }

    /// Returns the C++ TurboModule methods of the schema.
    pub fn get_cxx_methods(&self, schema: &Schema) -> (r: Result<Vec<CxxMethod>, CodegenError>)
        requires
            cxx_methods_defined(schema.module_name@, schema.spec.methods@),
        ensures
            r matches Ok(v) ==> spec_cxx_methods(schema.module_name@, schema.spec.methods@) == Ok::<Seq<(Seq<char>, Seq<char>, Seq<char>)>, CodegenError>(cxx_method_views(v@)),
            r matches Err(e) ==> spec_cxx_methods(schema.module_name@, schema.spec.methods@) == Err::<Seq<(Seq<char>, Seq<char>, Seq<char>)>, CodegenError>(e),
    {
        let fs = &schema.spec.methods;
        let m = &schema.module_name;
        let n = fs.len();
        let mut out: Vec<CxxMethod> = Vec::new();
        let mut i: usize = 0;
        assert(cxx_method_views(out@) =~= Seq::<(Seq<char>, Seq<char>, Seq<char>)>::empty());
        while i < n
            invariant
                n == fs@.len(),
                fs@ == schema.spec.methods@,
                m@ == schema.module_name@,
                i <= n,
                cxx_methods_defined(m@, fs@),
                spec_cxx_methods(m@, fs@.take(i as int)) == Ok::<Seq<(Seq<char>, Seq<char>, Seq<char>)>, CodegenError>(cxx_method_views(out@)),
            decreases n - i,
        {
            assert(fs@.take(i + 1).drop_last() =~= fs@.take(i as int));
            assert(fs@.take(i + 1).last() == fs@[i as int]);
            match fs[i].as_cxx_method(m) {
                Ok(c) => {
                    let ghost b = out@;
                    out.push(c);
                    assert(cxx_method_views(out@) =~= cxx_method_views(b).push((c.name@, c.metadata@, c.impl_func@)));
                },
                Err(e) => {
                    proof {
                        lemma_cxx_methods_err_extends(m@, fs@, i + 1);
                    }
                    return Err(e);
                },
            }
            i = i + 1;
        }
        assert(fs@.take(n as int) =~= fs@);
        Ok(out)
    }

    /// Returns the JSI bridging templates of the schema, in the order the bridging header
    /// declares them.
    pub fn get_cxx_bridging_templates(&self, schema: &Schema) -> (r: Result<Vec<String>, CodegenError>)
        requires
            crate::bridging::bridging_defined(*schema),
        ensures
            r matches Ok(v) ==> crate::bridging::spec_bridging_templates(*schema) == Ok::<Seq<Seq<char>>, CodegenError>(crate::text::views(v@)),
            r matches Err(e) ==> crate::bridging::spec_bridging_templates(*schema) == Err::<Seq<Seq<char>>, CodegenError>(e),
    {
        crate::bridging::bridging_templates(schema)
    }

    /// Generates everything for one module: the spec trait, the implementation skeleton, the
    /// cxx bridge, the C++ methods and the bridging templates, stopping at the first error.
    pub fn generate(&self, schema: &Schema) -> (r: Result<CodegenResult, CodegenError>)
        requires
            generate_defined(*schema),
        ensures
            r matches Err(e) ==> spec_generate_error(*schema) == Some(e),
            r matches Ok(res) ==> {
                &&& spec_generate_error(*schema) is None
                &&& res.module_name@ == schema.module_name@
                &&& res.impl_mod@ == crate::naming::spec_impl_mod_name(schema.module_name@)
                &&& spec_generate_spec(*schema) == Ok::<Seq<char>, CodegenError>(res.spec_code@)
                &&& spec_generate_impl(*schema) == Ok::<Seq<char>, CodegenError>(res.impl_code@)
                &&& crate::rust_gen::spec_rs_cxx_bridge(*schema) == Ok::<(Seq<Seq<char>>, Seq<Seq<char>>, Seq<Seq<char>>, Seq<Seq<char>>), CodegenError>((
                    crate::text::views(res.rs_cxx_bridge.struct_defs@),
                    crate::text::views(res.rs_cxx_bridge.enum_defs@),
                    crate::text::views(res.rs_cxx_bridge.func_extern_sigs@),
                    crate::text::views(res.rs_cxx_bridge.func_impls@),
                ))
                &&& spec_cxx_methods(schema.module_name@, schema.spec.methods@) == Ok::<Seq<(Seq<char>, Seq<char>, Seq<char>)>, CodegenError>(cxx_method_views(res.cxx_methods@))
                &&& crate::bridging::spec_bridging_templates(*schema) == Ok::<Seq<Seq<char>>, CodegenError>(crate::text::views(res.cxx_bridging_templates@))
            },
    {
        let spec_code = self.generate_spec(schema)?;
        let impl_code = self.generate_impl(schema)?;
        let rs_cxx_bridge = self.get_rs_cxx_bridges(schema)?;
        let cxx_methods = self.get_cxx_methods(schema)?;
        let cxx_bridging_templates = self.get_cxx_bridging_templates(schema)?;
        Ok(CodegenResult {
            module_name: schema.module_name.clone(),
            impl_mod: crate::naming::impl_mod_name(schema.module_name.as_str()),
            spec_code,
            impl_code,
            rs_cxx_bridge,
            cxx_methods,
            cxx_bridging_templates,
        })
    }

    /// Returns the cxx bridge definitions of the schema.
    pub fn get_rs_cxx_bridges(&self, schema: &Schema) -> (r: Result<RsCxxBridge, CodegenError>)
        requires
            crate::rust_gen::methods_bridge_no_panic(schema.module_name@, schema.spec.methods@),
        ensures
            r matches Ok(b) ==> crate::rust_gen::spec_rs_cxx_bridge(*schema) == Ok::<(Seq<Seq<char>>, Seq<Seq<char>>, Seq<Seq<char>>, Seq<Seq<char>>), CodegenError>((
                crate::text::views(b.struct_defs@),
                crate::text::views(b.enum_defs@),
                crate::text::views(b.func_extern_sigs@),
                crate::text::views(b.func_impls@),
            )),
            r matches Err(e) ==> crate::rust_gen::spec_rs_cxx_bridge(*schema) == Err::<(Seq<Seq<char>>, Seq<Seq<char>>, Seq<Seq<char>>, Seq<Seq<char>>), CodegenError>(e),
    {
        schema.as_rs_cxx_bridge()
    }
}

} // verus!
