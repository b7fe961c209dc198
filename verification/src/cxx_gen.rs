//! C++ side of the bindings: the C++ types that schema types map to, JSI conversions,
//! TurboModule methods and the generated C++ sources.
use vstd::prelude::*;
use vstd::string::*;
use crate::schema::{TypeAnnotation, CodegenError, EnumMember, is_number_type, is_string_type};
use crate::rust_gen::{nullable_name, spec_nullable_name, cat2, cat3};
use crate::case::{flat_case, spec_flat_case};

verus! {

/// A C++ expression that converts a JS value into a native value.
pub struct CxxFromJs {
    pub expr: String,
}

/// A C++ expression that converts a native value into a JS value.
pub struct CxxToJs {
    pub expr: String,
}

/// The namespace prefix of a module's generated C++ types (eg. `craby::crabytest::`).
pub open spec fn spec_mod_ns(mod_name: Seq<char>) -> Seq<char> {
    "craby::"@ + spec_flat_case(mod_name) + "::"@
}

/// `craby::{flat module name}::{name}`.
pub fn mod_qualified(mod_name: &str, name: &str) -> (r: String)
    ensures
        r@ == spec_mod_ns(mod_name@) + name@,
{
    let mut r = String::from_str("craby::");
    let f = flat_case(mod_name);
    r.append(f.as_str());
    r.append("::");
    r.append(name);
    r
}

/// The C++ type of `t` in module `mod_name`.
pub open spec fn spec_cxx_type(t: TypeAnnotation, mod_name: Seq<char>) -> Result<Seq<char>, CodegenError>
    decreases t,
{
    match t {
        TypeAnnotation::BooleanTypeAnnotation => Ok("bool"@),
        TypeAnnotation::NumberTypeAnnotation
        | TypeAnnotation::FloatTypeAnnotation
        | TypeAnnotation::DoubleTypeAnnotation
        | TypeAnnotation::Int32TypeAnnotation
        | TypeAnnotation::NumberLiteralTypeAnnotation { .. } => Ok("double"@),
        TypeAnnotation::StringTypeAnnotation
        | TypeAnnotation::StringLiteralTypeAnnotation { .. }
        | TypeAnnotation::StringLiteralUnionTypeAnnotation { .. } => Ok("rust::String"@),
        TypeAnnotation::ArrayTypeAnnotation { element_type } => match spec_cxx_type(
            *element_type,
            mod_name,
        ) {
            Ok(e) => Ok("rust::Vec<"@ + e + ">"@),
            Err(err) => Err(err),
        },
        TypeAnnotation::EnumDeclaration { name, .. } => Ok(spec_mod_ns(mod_name) + name@),
        TypeAnnotation::TypeAliasTypeAnnotation { name } => Ok(spec_mod_ns(mod_name) + name@),
        TypeAnnotation::NullableTypeAnnotation { type_annotation } => match spec_nullable_name(
            *type_annotation,
        ) {
            Ok(n) => Ok(spec_mod_ns(mod_name) + n),
            Err(err) => Err(err),
        },
        TypeAnnotation::FunctionTypeAnnotation { .. } => Err(CodegenError::FunctionTypeNotSupported),
        TypeAnnotation::ObjectTypeAnnotation { .. } => Err(CodegenError::ObjectTypeNotSupported),
        _ => Err(CodegenError::UnsupportedType),
    }
}

/// Inputs on which `as_cxx_default_val` returns: not a nullable type whose C++ type exists
/// (for those the original recurses without end), and an enum has a first member.
pub open spec fn cxx_default_val_terminates(t: TypeAnnotation, mod_name: Seq<char>) -> bool {
    &&& (t is NullableTypeAnnotation ==> spec_cxx_type(t, mod_name) is Err)
    &&& (t matches TypeAnnotation::EnumDeclaration { members, .. } ==> spec_cxx_type(
        t,
        mod_name,
    ) is Ok ==> (members matches Some(ms) && ms.len() > 0))
}

/// The C++ expression for the default value of `t`.
pub open spec fn spec_cxx_default_val(t: TypeAnnotation, mod_name: Seq<char>) -> Result<Seq<char>, CodegenError> {
    match t {
        TypeAnnotation::BooleanTypeAnnotation => Ok("false"@),
        TypeAnnotation::NumberTypeAnnotation
        | TypeAnnotation::FloatTypeAnnotation
        | TypeAnnotation::DoubleTypeAnnotation
        | TypeAnnotation::Int32TypeAnnotation
        | TypeAnnotation::NumberLiteralTypeAnnotation { .. } => Ok("0.0"@),
        TypeAnnotation::StringTypeAnnotation
        | TypeAnnotation::StringLiteralTypeAnnotation { .. }
        | TypeAnnotation::StringLiteralUnionTypeAnnotation { .. } => Ok("rust::String()"@),
        TypeAnnotation::ArrayTypeAnnotation { element_type } => match spec_cxx_type(
            *element_type,
            mod_name,
        ) {
            Ok(e) => Ok("rust::Vec<"@ + e + ">()"@),
            Err(err) => Err(err),
        },
        TypeAnnotation::EnumDeclaration { members, .. } => match spec_cxx_type(t, mod_name) {
            Ok(e) => Ok(e + "::"@ + members->0@[0].name@),
            Err(err) => Err(err),
        },
        TypeAnnotation::TypeAliasTypeAnnotation { .. } => match spec_cxx_type(t, mod_name) {
            Ok(e) => Ok(e + "{}"@),
            Err(err) => Err(err),
        },
        TypeAnnotation::NullableTypeAnnotation { .. } => match spec_cxx_type(t, mod_name) {
            Ok(e) => Err(CodegenError::UnsupportedType),  // not reached: excluded by requires
            Err(err) => Err(err),
        },
        _ => Err(CodegenError::UnsupportedType),
    }
}

/// Types that `fromJs` converts directly.
pub open spec fn is_bridged_value_type(t: TypeAnnotation) -> bool {
    ||| t is BooleanTypeAnnotation
    ||| is_number_type(t)
    ||| is_string_type(t)
    ||| t is ArrayTypeAnnotation
    ||| t is EnumDeclaration
    ||| t is TypeAliasTypeAnnotation
    ||| t is NullableTypeAnnotation
}

/// `facebook::react::bridging::fromJs<T>(rt, ident, callInvoker)` for the C++ type `T` of `t`.
pub open spec fn spec_cxx_from_js(t: TypeAnnotation, mod_name: Seq<char>, ident: Seq<char>) -> Result<Seq<char>, CodegenError> {
    if is_bridged_value_type(t) {
        match spec_cxx_type(t, mod_name) {
            Ok(ty) => Ok("facebook::react::bridging::fromJs<"@ + ty + ">(rt, "@ + ident + ", callInvoker)"@),
            Err(err) => Err(err),
        }
    } else {
        Err(CodegenError::UnsupportedType)
    }
}

/// `react::bridging::toJs(rt, ident)`, for the types that can be returned to JS.
pub open spec fn spec_cxx_to_js(t: TypeAnnotation, ident: Seq<char>) -> Result<Seq<char>, CodegenError> {
    if is_bridged_value_type(t) || t is PromiseTypeAnnotation {
        Ok("react::bridging::toJs(rt, "@ + ident + ")"@)
    } else {
        Err(CodegenError::UnsupportedType)
    }
}

impl TypeAnnotation {
    /// Returns the C++ type of the type in module `mod_name`.
    pub fn as_cxx_type(&self, mod_name: &String) -> (r: Result<String, CodegenError>)
        ensures
            r matches Ok(s) ==> spec_cxx_type(*self, mod_name@) == Ok::<Seq<char>, CodegenError>(s@),
            r matches Err(e) ==> spec_cxx_type(*self, mod_name@) == Err::<Seq<char>, CodegenError>(e),
        decreases self,
    {
        let s = match self {
            TypeAnnotation::BooleanTypeAnnotation => String::from_str("bool"),
            TypeAnnotation::NumberTypeAnnotation
            | TypeAnnotation::FloatTypeAnnotation
            | TypeAnnotation::DoubleTypeAnnotation
            | TypeAnnotation::Int32TypeAnnotation
            | TypeAnnotation::NumberLiteralTypeAnnotation { .. } => String::from_str("double"),
            TypeAnnotation::StringTypeAnnotation
            | TypeAnnotation::StringLiteralTypeAnnotation { .. }
            | TypeAnnotation::StringLiteralUnionTypeAnnotation { .. } => String::from_str(
                "rust::String",
            ),
            TypeAnnotation::ArrayTypeAnnotation { element_type } => {
                let e = element_type.as_cxx_type(mod_name)?;
                cat3("rust::Vec<", e.as_str(), ">")
            },
            TypeAnnotation::EnumDeclaration { name, .. } => mod_qualified(
                mod_name.as_str(),
                name.as_str(),
            ),
            TypeAnnotation::TypeAliasTypeAnnotation { name } => mod_qualified(
                mod_name.as_str(),
                name.as_str(),
            ),
            TypeAnnotation::NullableTypeAnnotation { type_annotation } => {
                let n = nullable_name(&**type_annotation)?;
                mod_qualified(mod_name.as_str(), n.as_str())
            },
            TypeAnnotation::FunctionTypeAnnotation { .. } => {
                return Err(CodegenError::FunctionTypeNotSupported);
            },
            TypeAnnotation::ObjectTypeAnnotation { .. } => {
                return Err(CodegenError::ObjectTypeNotSupported);
            },
            _ => {
                return Err(CodegenError::UnsupportedType);
            },
        };
        Ok(s)
    }

    /// Returns the C++ expression for the default value of the type.
    pub fn as_cxx_default_val(&self, mod_name: &String) -> (r: Result<String, CodegenError>)
        requires
            cxx_default_val_terminates(*self, mod_name@),
        ensures
            r matches Ok(s) ==> spec_cxx_default_val(*self, mod_name@) == Ok::<Seq<char>, CodegenError>(s@),
            r matches Err(e) ==> spec_cxx_default_val(*self, mod_name@) == Err::<Seq<char>, CodegenError>(e),
    {
        match self {
            TypeAnnotation::BooleanTypeAnnotation => Ok(String::from_str("false")),
            TypeAnnotation::NumberTypeAnnotation
            | TypeAnnotation::FloatTypeAnnotation
            | TypeAnnotation::DoubleTypeAnnotation
            | TypeAnnotation::Int32TypeAnnotation
            | TypeAnnotation::NumberLiteralTypeAnnotation { .. } => Ok(String::from_str("0.0")),
            TypeAnnotation::StringTypeAnnotation
            | TypeAnnotation::StringLiteralTypeAnnotation { .. }
            | TypeAnnotation::StringLiteralUnionTypeAnnotation { .. } => Ok(
                String::from_str("rust::String()"),
            ),
            TypeAnnotation::ArrayTypeAnnotation { element_type } => {
                let e = element_type.as_cxx_type(mod_name)?;
                Ok(cat3("rust::Vec<", e.as_str(), ">()"))
            },
            TypeAnnotation::EnumDeclaration { members, .. } => {
                let enum_type = self.as_cxx_type(mod_name)?;
                let ms: &Vec<EnumMember> = members.as_ref().unwrap();
                Ok(cat3(enum_type.as_str(), "::", ms[0].name.as_str()))
            },
            TypeAnnotation::TypeAliasTypeAnnotation { .. } => {
                let cxx_type = self.as_cxx_type(mod_name)?;
                Ok(cat2(cxx_type.as_str(), "{}"))
            },
            TypeAnnotation::NullableTypeAnnotation { .. } => {
                let cxx_type = self.as_cxx_type(mod_name)?;
                Err(CodegenError::UnsupportedType)
            },
            _ => Err(CodegenError::UnsupportedType),
        }
    }

    /// Returns the C++ `fromJs` conversion of `ident` to this type.
    pub fn as_cxx_from_js(&self, mod_name: &String, ident: &String) -> (r: Result<CxxFromJs, CodegenError>)
        ensures
            r matches Ok(s) ==> spec_cxx_from_js(*self, mod_name@, ident@) == Ok::<Seq<char>, CodegenError>(s.expr@),
            r matches Err(e) ==> spec_cxx_from_js(*self, mod_name@, ident@) == Err::<Seq<char>, CodegenError>(e),
    {
        match self {
            TypeAnnotation::BooleanTypeAnnotation
            | TypeAnnotation::NumberTypeAnnotation
            | TypeAnnotation::FloatTypeAnnotation
            | TypeAnnotation::DoubleTypeAnnotation
            | TypeAnnotation::Int32TypeAnnotation
            | TypeAnnotation::NumberLiteralTypeAnnotation { .. }
            | TypeAnnotation::StringTypeAnnotation
            | TypeAnnotation::StringLiteralTypeAnnotation { .. }
            | TypeAnnotation::StringLiteralUnionTypeAnnotation { .. }
            | TypeAnnotation::ArrayTypeAnnotation { .. }
            | TypeAnnotation::EnumDeclaration { .. }
            | TypeAnnotation::TypeAliasTypeAnnotation { .. }
            | TypeAnnotation::NullableTypeAnnotation { .. } => {
                let ty = self.as_cxx_type(mod_name)?;
                let mut out = String::from_str("facebook::react::bridging::fromJs<");
                out.append(ty.as_str());
                out.append(">(rt, ");
                out.append(ident.as_str());
                out.append(", callInvoker)");
                Ok(CxxFromJs { expr: out })
            },
            _ => Err(CodegenError::UnsupportedType),
        }
    }

    /// Returns the C++ `toJs` conversion of `ident`.
    pub fn as_cxx_to_js(&self, ident: &String) -> (r: Result<CxxToJs, CodegenError>)
        ensures
            r matches Ok(s) ==> spec_cxx_to_js(*self, ident@) == Ok::<Seq<char>, CodegenError>(s.expr@),
            r matches Err(e) ==> spec_cxx_to_js(*self, ident@) == Err::<Seq<char>, CodegenError>(e),
    {
        match self {
            TypeAnnotation::BooleanTypeAnnotation
            | TypeAnnotation::NumberTypeAnnotation
            | TypeAnnotation::FloatTypeAnnotation
            | TypeAnnotation::DoubleTypeAnnotation
            | TypeAnnotation::Int32TypeAnnotation
            | TypeAnnotation::NumberLiteralTypeAnnotation { .. }
            | TypeAnnotation::StringTypeAnnotation
            | TypeAnnotation::StringLiteralTypeAnnotation { .. }
            | TypeAnnotation::StringLiteralUnionTypeAnnotation { .. }
            | TypeAnnotation::ArrayTypeAnnotation { .. }
            | TypeAnnotation::EnumDeclaration { .. }
            | TypeAnnotation::TypeAliasTypeAnnotation { .. }
            | TypeAnnotation::NullableTypeAnnotation { .. }
            | TypeAnnotation::PromiseTypeAnnotation { .. } => Ok(
                CxxToJs { expr: cat3("react::bridging::toJs(rt, ", ident.as_str(), ")") },
            ),
            _ => Err(CodegenError::UnsupportedType),
        }
    }
}

} // verus!

verus! {

/// A TurboModule method in C++: its name, its method-map entry and its implementation.
pub struct CxxMethod {
    /// Method name.
    pub name: String,
    /// TurboModule's method metadata (eg. `MethodMetadata{1, &CxxMyTestModule::myFunc}`).
    pub metadata: String,
    /// The C++ function that converts the arguments and calls into Rust.
    pub impl_func: String,
}

/// `args[{idx}]`.
pub open spec fn spec_cxx_arg_ref(idx: nat) -> Seq<char> {
    "args["@ + crate::text::spec_decimal(idx) + "]"@
}

/// `arg{idx}`.
pub open spec fn spec_cxx_arg_var(idx: nat) -> Seq<char> {
    "arg"@ + crate::text::spec_decimal(idx)
}

/// Returns `args[{idx}]`, the JS argument at `idx`.
pub fn cxx_arg_ref(idx: usize) -> (r: String)
    ensures
        r@ == spec_cxx_arg_ref(idx as nat),
{
    let d = crate::text::decimal(idx);
    cat3("args[", d.as_str(), "]")
}

/// Returns `arg{idx}`, the converted argument at `idx`.
pub fn cxx_arg_var(idx: usize) -> (r: String)
    ensures
        r@ == spec_cxx_arg_var(idx as nat),
{
    let d = crate::text::decimal(idx);
    cat2("arg", d.as_str())
}

/// `auto arg{i} = {e};`
pub open spec fn spec_arg_line(i: nat, e: Seq<char>) -> Seq<char> {
    "auto "@ + spec_cxx_arg_var(i) + " = "@ + e + ";"@
}

/// `auto arg{i} = {fromJs of args[i]};` for parameter `p` at `i`.
pub open spec fn spec_arg_decl(mod_name: Seq<char>, i: nat, p: crate::schema::Parameter) -> Result<Seq<char>, CodegenError> {
    match spec_cxx_from_js(*p.type_annotation, mod_name, spec_cxx_arg_ref(i)) {
        Ok(e) => Ok(spec_arg_line(i, e)),
        Err(err) => Err(err),
    }
}

/// The argument declarations of `ps` in order, or the first error.
pub open spec fn spec_arg_decls(mod_name: Seq<char>, ps: Seq<crate::schema::Parameter>) -> Result<Seq<Seq<char>>, CodegenError>
    decreases ps.len(),
{
    if ps.len() == 0 {
        Ok(Seq::empty())
    } else {
        match spec_arg_decls(mod_name, ps.drop_last()) {
            Err(e) => Err(e),
            Ok(prev) => match spec_arg_decl(mod_name, (ps.len() - 1) as nat, ps.last()) {
                Ok(s) => Ok(prev.push(s)),
                Err(e) => Err(e),
            },
        }
    }
}

/// `arg0`, .., `arg{n-1}`.
pub open spec fn spec_arg_vars(n: nat) -> Seq<Seq<char>> {
    Seq::new(n, |i: int| spec_cxx_arg_var(i as nat))
}

/// The statements that call into Rust and return the result: synchronously, or on a new
/// thread that settles a promise where the method returns a promise.
pub open spec fn spec_invoke_stmts(mod_name: Seq<char>, f: crate::schema::FunctionSpec) -> Result<Seq<char>, CodegenError> {
    let ret = crate::rust_gen::fn_ret(f);
    let vars = spec_arg_vars(crate::rust_gen::fn_params(f).len());
    let fn_args = crate::text::join(vars, ", "@);
    match ret {
        TypeAnnotation::PromiseTypeAnnotation { element_type } => match spec_cxx_type(*element_type, mod_name) {
            Err(e) => Err(e),
            Ok(ret_type) => {
                let bind_args = crate::text::join(seq!["promise"@] + vars, ", "@);
                Ok(
                    "react::AsyncPromise<"@ + ret_type + "> promise(rt, callInvoker);\n\nstd::thread(["@ + bind_args
                        + "]() mutable {\n  try {\n    auto ret = craby::"@ + spec_flat_case(mod_name) + "::"@ + f.name@
                        + "("@ + fn_args
                        + ");\n    promise.resolve(ret);\n  } catch (const jsi::JSError &err) {\n    promise.reject(err.getMessage());\n  } catch (const std::exception &err) {\n    promise.reject(errorMessage(err));\n  }\n}).detach();\n\nreturn "@
                        + ("react::bridging::toJs(rt, "@ + "promise"@ + ")"@) + ";"@,
                )
            },
        },
        _ => match spec_cxx_to_js(ret, "ret"@) {
            Err(e) => Err(e),
            Ok(r) => Ok(
                "auto ret = craby::"@ + spec_flat_case(mod_name) + "::"@ + f.name@ + "("@ + fn_args
                    + ");\n\nreturn "@ + r + ";"@,
            ),
        },
    }
}

/// `MethodMetadata{n, &CxxMod::name}`.
pub open spec fn spec_method_metadata(mod_name: Seq<char>, f: crate::schema::FunctionSpec) -> Seq<char> {
    "MethodMetadata{"@ + crate::text::spec_decimal(crate::rust_gen::fn_params(f).len()) + ", &"@
        + crate::naming::spec_cxx_mod_cls_name(mod_name) + "::"@ + f.name@ + "}"@
}

/// `if ({n} != count) {`, the test of the argument count.
pub open spec fn spec_count_check(n: nat) -> Seq<char> {
    "if ("@ + crate::text::spec_decimal(n) + " != count) {"@
}

/// `Expected {n} argument(s)`, the message when the count is wrong.
pub open spec fn spec_count_message(n: nat) -> Seq<char> {
    "Expected "@ + crate::text::spec_decimal(n) + " argument"@ + if n == 1 { ""@ } else { "s"@ }
}

/// The start of a method's C++ implementation, up to its `try {`.
pub open spec fn spec_method_head(cxx_mod: Seq<char>, name: Seq<char>) -> Seq<char> {
    "jsi::Value "@ + cxx_mod + "::"@ + name
        + "(jsi::Runtime &rt,\n                                react::TurboModule &turboModule,\n                                const jsi::Value args[],\n                                size_t count) {\n  auto &thisModule = static_cast<"@
        + cxx_mod + " &>(turboModule);\n  auto callInvoker = thisModule.callInvoker_;\n\n  try {\n    "@
}

/// The C++ implementation of a method, given its argument declarations and call statements.
pub open spec fn spec_method_impl(mod_name: Seq<char>, f: crate::schema::FunctionSpec, decls: Seq<char>, invoke: Seq<char>) -> Seq<char> {
    let n = crate::rust_gen::fn_params(f).len();
    spec_method_head(crate::naming::spec_cxx_mod_cls_name(mod_name), f.name@) + spec_count_check(n)
        + "\n      throw jsi::JSError(rt, \""@ + spec_count_message(n) + "\");\n    }\n\n"@
        + crate::text::spec_indent(decls, 4) + "\n"@ + crate::text::spec_indent(invoke, 4)
        + "\n  } catch (const jsi::JSError &err) {\n    throw err;\n  } catch (const std::exception &err) {\n    throw jsi::JSError(rt, errorMessage(err));\n  }\n}"@
}

/// The C++ method of `f`: (name, metadata, implementation).
pub open spec fn spec_cxx_method(mod_name: Seq<char>, f: crate::schema::FunctionSpec) -> Result<(Seq<char>, Seq<char>, Seq<char>), CodegenError> {
    match spec_arg_decls(mod_name, crate::rust_gen::fn_params(f)) {
        Err(e) => Err(e),
        Ok(decls) => match spec_invoke_stmts(mod_name, f) {
            Err(e) => Err(e),
            Ok(invoke) => Ok(
                (
                    f.name@,
                    spec_method_metadata(mod_name, f),
                    spec_method_impl(mod_name, f, crate::text::join(decls, "\n"@), invoke),
                ),
            ),
        },
    }
}

proof fn lemma_arg_decls_err_extends(m: Seq<char>, ps: Seq<crate::schema::Parameter>, k: int)
    requires
        0 <= k <= ps.len(),
    ensures
        spec_arg_decls(m, ps.take(k)) is Err ==> spec_arg_decls(m, ps) == spec_arg_decls(m, ps.take(k)),
    decreases ps.len() - k,
{
    if k < ps.len() {
        assert(ps.take(k + 1).drop_last() =~= ps.take(k));
        lemma_arg_decls_err_extends(m, ps, k + 1);
    } else {
        assert(ps.take(k) =~= ps);
    }
}

/// The argument declarations and the argument variables of the parameters.
fn arg_decls(mod_name: &String, ps: &Vec<crate::schema::Parameter>) -> (r: Result<(Vec<String>, Vec<String>), CodegenError>)
    ensures
        r matches Ok((d, v)) ==> spec_arg_decls(mod_name@, ps@) == Ok::<Seq<Seq<char>>, CodegenError>(crate::text::views(d@))
            && crate::text::views(v@) == spec_arg_vars(ps@.len()),
        r matches Err(e) ==> spec_arg_decls(mod_name@, ps@) == Err::<Seq<Seq<char>>, CodegenError>(e),
{
    let n = ps.len();
    let mut decls: Vec<String> = Vec::new();
    let mut vars: Vec<String> = Vec::new();
    let mut i: usize = 0;
    assert(crate::text::views(decls@) =~= Seq::<Seq<char>>::empty());
    assert(ps@.take(0).len() == 0);
    while i < n
        invariant
            n == ps@.len(),
            i <= n,
            spec_arg_decls(mod_name@, ps@.take(i as int)) == Ok::<Seq<Seq<char>>, CodegenError>(crate::text::views(decls@)),
            crate::text::views(vars@) == spec_arg_vars(i as nat),
        decreases n - i,
    {
        assert(ps@.take(i + 1).drop_last() =~= ps@.take(i as int));
        assert(ps@.take(i + 1).last() == ps@[i as int]);
        let arg_ref = cxx_arg_ref(i);
        let arg_var = cxx_arg_var(i);
        match ps[i].type_annotation.as_cxx_from_js(mod_name, &arg_ref) {
            Ok(from_js) => {
                let mut d = String::from_str("auto ");
                d.append(arg_var.as_str());
                d.append(" = ");
                d.append(from_js.expr.as_str());
                d.append(";");
                let ghost b1 = decls@;
                let ghost b2 = vars@;
                decls.push(d);
                vars.push(arg_var);
                assert(crate::text::views(decls@) =~= crate::text::views(b1).push(d@));
                assert(crate::text::views(vars@) =~= crate::text::views(b2).push(arg_var@));
                assert(crate::text::views(vars@) =~= spec_arg_vars((i + 1) as nat));
            },
            Err(e) => {
                proof {
                    lemma_arg_decls_err_extends(mod_name@, ps@, i + 1);
                }
                return Err(e);
            },
        }
        i = i + 1;
    }
    assert(ps@.take(n as int) =~= ps@);
    Ok((decls, vars))
}

impl crate::schema::FunctionSpec {
    /// Returns the C++ TurboModule method of this method spec in module `mod_name`.
    pub fn as_cxx_method(&self, mod_name: &String) -> (r: Result<CxxMethod, CodegenError>)
        requires
            *self.type_annotation is FunctionTypeAnnotation,
        ensures
            r matches Ok(m) ==> spec_cxx_method(mod_name@, *self) == Ok::<(Seq<char>, Seq<char>, Seq<char>), CodegenError>((m.name@, m.metadata@, m.impl_func@)),
            r matches Err(e) ==> spec_cxx_method(mod_name@, *self) == Err::<(Seq<char>, Seq<char>, Seq<char>), CodegenError>(e),
    {
        let (decls, invoke) = match &*self.type_annotation {
            TypeAnnotation::FunctionTypeAnnotation { return_type_annotation, params } => {
                let (decls, vars) = arg_decls(mod_name, params)?;
                let fn_args = crate::text::join_strings(&vars, ", ");
                let flat_name = flat_case(mod_name.as_str());
                let invoke = match &**return_type_annotation {
                    TypeAnnotation::PromiseTypeAnnotation { element_type } => {
                        let mut bind: Vec<String> = Vec::new();
                        bind.push(String::from_str("promise"));
                        let mut j: usize = 0;
                        while j < vars.len()
                            invariant
                                j <= vars@.len(),
                                crate::text::views(bind@) == seq!["promise"@] + crate::text::views(vars@).take(j as int),
                            decreases vars@.len() - j,
                        {
                            let ghost b = bind@;
                            bind.push(crate::text::copy_str(vars[j].as_str()));
                            assert(crate::text::views(bind@) =~= crate::text::views(b).push(vars@[j as int]@));
                            j = j + 1;
                            assert(crate::text::views(bind@) =~= seq!["promise"@] + crate::text::views(vars@).take(j as int));
                        }
                        assert(crate::text::views(vars@).take(vars@.len() as int) =~= crate::text::views(vars@));
                        let bind_args = crate::text::join_strings(&bind, ", ");
                        let ret_type = element_type.as_cxx_type(mod_name)?;
                        let ret = return_type_annotation.as_cxx_to_js(&String::from_str("promise"))?.expr;
                        let mut out = String::from_str("react::AsyncPromise<");
                        out.append(ret_type.as_str());
                        out.append("> promise(rt, callInvoker);\n\nstd::thread([");
                        out.append(bind_args.as_str());
                        out.append("]() mutable {\n  try {\n    auto ret = craby::");
                        out.append(flat_name.as_str());
                        out.append("::");
                        out.append(self.name.as_str());
                        out.append("(");
                        out.append(fn_args.as_str());
                        out.append(");\n    promise.resolve(ret);\n  } catch (const jsi::JSError &err) {\n    promise.reject(err.getMessage());\n  } catch (const std::exception &err) {\n    promise.reject(errorMessage(err));\n  }\n}).detach();\n\nreturn ");
                        out.append(ret.as_str());
                        out.append(";");
                        proof {
                            reveal_strlit("promise");
                            assert(crate::rust_gen::fn_params(*self) == params@);
                            assert(crate::rust_gen::fn_ret(*self) == **return_type_annotation);
                            assert(spec_invoke_stmts(mod_name@, *self) == Ok::<Seq<char>, CodegenError>(out@));
                        }
                        out
                    },
                    _ => {
                        let ret = return_type_annotation.as_cxx_to_js(&String::from_str("ret"))?.expr;
                        let mut out = String::from_str("auto ret = craby::");
                        out.append(flat_name.as_str());
                        out.append("::");
                        out.append(self.name.as_str());
                        out.append("(");
                        out.append(fn_args.as_str());
                        out.append(");\n\nreturn ");
                        out.append(ret.as_str());
                        out.append(";");
                        proof {
                            assert(crate::rust_gen::fn_params(*self) == params@);
                            assert(crate::rust_gen::fn_ret(*self) == **return_type_annotation);
                            assert(spec_invoke_stmts(mod_name@, *self) == Ok::<Seq<char>, CodegenError>(out@));
                        }
                        out
                    },
                };
                (crate::text::join_strings(&decls, "\n"), invoke)
            },
            _ => {
                return Err(CodegenError::NotAFunction);
            },
        };
        let cxx_mod = crate::naming::cxx_mod_cls_name(mod_name.as_str());
        let args_count = self.args_count()?;
        let count = crate::text::decimal(args_count);

        let mut metadata = String::from_str("MethodMetadata{");
        metadata.append(count.as_str());
        metadata.append(", &");
        metadata.append(cxx_mod.as_str());
        metadata.append("::");
        metadata.append(self.name.as_str());
        metadata.append("}");

        let plural = if args_count == 1 { String::new() } else { String::from_str("s") };
        let args_decls = crate::text::indent_str(decls, 4);
        let invoke_stmts = crate::text::indent_str(invoke, 4);
        let mut out = String::from_str("jsi::Value ");
        out.append(cxx_mod.as_str());
        out.append("::");
        out.append(self.name.as_str());
        out.append("(jsi::Runtime &rt,\n                                react::TurboModule &turboModule,\n                                const jsi::Value args[],\n                                size_t count) {\n  auto &thisModule = static_cast<");
        out.append(cxx_mod.as_str());
        out.append(" &>(turboModule);\n  auto callInvoker = thisModule.callInvoker_;\n\n  try {\n    ");
        let ghost head = out@;
        out.append("if (");
        out.append(count.as_str());
        out.append(" != count) {");
        let ghost check = out@;
        out.append("\n      throw jsi::JSError(rt, \"");
        out.append("Expected ");
        out.append(count.as_str());
        out.append(" argument");
        out.append(plural.as_str());
        let ghost message = out@;
        out.append("\");\n    }\n\n");
        out.append(args_decls.as_str());
        out.append("\n");
        out.append(invoke_stmts.as_str());
        out.append("\n  } catch (const jsi::JSError &err) {\n    throw err;\n  } catch (const std::exception &err) {\n    throw jsi::JSError(rt, errorMessage(err));\n  }\n}");
        proof {
            reveal_strlit("");
            let n = args_count as nat;
            assert(head =~= spec_method_head(cxx_mod@, self.name@));
            assert(check =~= head + spec_count_check(n));
            assert(message =~= check + "\n      throw jsi::JSError(rt, \""@ + spec_count_message(n));
            assert(out@ =~= spec_method_impl(mod_name@, *self, decls@, invoke@));
        }
        Ok(CxxMethod { name: crate::text::copy_str(self.name.as_str()), metadata, impl_func: out })
    }
}


proof fn lemma_arg_decls_shape(m: Seq<char>, ps: Seq<crate::schema::Parameter>)
    requires
        spec_arg_decls(m, ps) is Ok,
    ensures
        spec_arg_decls(m, ps)->Ok_0.len() == ps.len(),
        forall|i: int|
            0 <= i < ps.len() ==> spec_arg_decl(m, i as nat, ps[i]) == Ok::<Seq<char>, CodegenError>(
                #[trigger] spec_arg_decls(m, ps)->Ok_0[i],
            ),
    decreases ps.len(),
{
    if ps.len() > 0 {
        let p = ps.drop_last();
        lemma_arg_decls_shape(m, p);
        assert forall|i: int| 0 <= i < p.len() implies p[i] == ps[i] by {}
    }
}

proof fn lemma_decimal_digits(n: nat)
    ensures
        forall|k: int| 0 <= k < crate::text::spec_decimal(n).len() ==> '0' <= #[trigger] crate::text::spec_decimal(n)[k] <= '9',
    decreases n,
{
    let d = crate::text::spec_decimal(n);
    if n >= 10 {
        lemma_decimal_digits(n / 10);
        let m = (n % 10) as nat;
        let p = crate::text::spec_decimal(n / 10);
        assert(((48 + m) as u8) as int == 48 + m);
        assert('0' <= crate::text::digit_char(m) <= '9');
        assert(d == p.push(crate::text::digit_char(m)));
        assert forall|k: int| 0 <= k < d.len() implies '0' <= #[trigger] d[k] <= '9' by {
            if k < p.len() {
                assert(d[k] == p[k]);
            }
        }
    } else {
        assert(((48 + n) as u8) as int == 48 + n);
        assert('0' <= crate::text::digit_char(n) <= '9');
        assert(d =~= seq![crate::text::digit_char(n)]);
    }
}

/// The declaration line of an argument is a plain line when its conversion is one line.
proof fn lemma_arg_line_plain(i: nat, e: Seq<char>)
    requires
        crate::text::single_line(e),
    ensures
        crate::text::plain_line(spec_arg_line(i, e)),
{
    reveal_strlit("auto ");
    reveal_strlit("arg");
    reveal_strlit(" = ");
    reveal_strlit(";");
    lemma_decimal_digits(i);
    let l = spec_arg_line(i, e);
    let d = crate::text::spec_decimal(i);
    assert(l =~= "auto "@ + ("arg"@ + d) + " = "@ + e + ";"@);
    assert forall|k: int| 0 <= k < l.len() implies l[k] != '\n' by {
        if 8 <= k < 8 + d.len() {
            assert(l[k] == d[k - 8]);
        } else if 8 + d.len() + 3 <= k < 8 + d.len() + 3 + e.len() {
            assert(l[k] == e[k - 8 - d.len() - 3]);
        }
    }
    assert(!crate::text::is_ws(l[0]));
    assert(l.last() == ';');
}

/// Plain lines joined by `\n` and indented occur in order in the result.
proof fn lemma_decls_in_order(d: Seq<Seq<char>>)
    requires
        forall|i: int| 0 <= i < d.len() ==> crate::text::plain_line(#[trigger] d[i]),
    ensures
        crate::text::occurs_in_order(crate::text::spec_indent(crate::text::join(d, "\n"@), 4), d),
{
    reveal_strlit("\n");
    assert("\n"@ =~= seq!['\n']);
    crate::text::lemma_indent_join(d, 4);
    let indented = d.map_values(|l: Seq<char>| crate::text::spaces(4) + l);
    crate::text::lemma_join_in_order(indented, seq!['\n']);
    crate::text::lemma_in_order_unprefixed(crate::text::join(indented, seq!['\n']), crate::text::spaces(4), d);
}

/// Where the count check, the message and the indented declarations stand in a method.
proof fn lemma_method_impl_shape(
    mod_name: Seq<char>,
    f: crate::schema::FunctionSpec,
    x: Seq<char>,
    invoke: Seq<char>,
    parts: Seq<Seq<char>>,
)
    requires
        crate::text::occurs_in_order(crate::text::spec_indent(x, 4), parts),
    ensures
        crate::text::contains_sub(spec_method_impl(mod_name, f, x, invoke), spec_count_check(crate::rust_gen::fn_params(f).len())),
        crate::text::contains_sub(spec_method_impl(mod_name, f, x, invoke), spec_count_message(crate::rust_gen::fn_params(f).len())),
        crate::text::occurs_in_order(spec_method_impl(mod_name, f, x, invoke), parts),
{
    let n = crate::rust_gen::fn_params(f).len();
    let s = spec_method_impl(mod_name, f, x, invoke);
    let head = spec_method_head(crate::naming::spec_cxx_mod_cls_name(mod_name), f.name@);
    let check = spec_count_check(n);
    let msg = spec_count_message(n);
    let open_msg = "\n      throw jsi::JSError(rt, \""@;
    let close_msg = "\");\n    }\n\n"@;
    let decls = crate::text::spec_indent(x, 4);
    let tail = "\n"@ + crate::text::spec_indent(invoke, 4)
        + "\n  } catch (const jsi::JSError &err) {\n    throw err;\n  } catch (const std::exception &err) {\n    throw jsi::JSError(rt, errorMessage(err));\n  }\n}"@;
    assert(s =~= head + check + (open_msg + msg + close_msg + decls + tail));
    crate::text::lemma_occurs_between(head, check, open_msg + msg + close_msg + decls + tail);
    assert(s =~= (head + check + open_msg) + msg + (close_msg + decls + tail));
    crate::text::lemma_occurs_between(head + check + open_msg, msg, close_msg + decls + tail);
    assert(s =~= (head + check + open_msg + msg + close_msg) + decls + tail);
    crate::text::lemma_in_order_within(head + check + open_msg + msg + close_msg, decls, tail, parts);
}

/// The C++ implementation of every method first tests that it got as many arguments as
/// the method has parameters, and fails with `Expected {n} argument(s)` otherwise; it then
/// declares `auto arg{i} = {fromJs of args[i]};` for each parameter, in the order of the
/// parameters. Its metadata starts with `MethodMetadata{{n}, `. (Where a conversion held a
/// line break, indentation would split it, so the declarations are only stated as
/// written for one-line conversions.)
pub proof fn lemma_cxx_method_checks_and_declares(mod_name: Seq<char>, f: crate::schema::FunctionSpec)
    requires
        spec_cxx_method(mod_name, f) is Ok,
        forall|i: int|
            0 <= i < crate::rust_gen::fn_params(f).len() ==> (#[trigger] spec_cxx_from_js(
                *crate::rust_gen::fn_params(f)[i].type_annotation,
                mod_name,
                spec_cxx_arg_ref(i as nat),
            ) matches Ok(e) ==> crate::text::single_line(e)),
    ensures
        ({
            let ps = crate::rust_gen::fn_params(f);
            let n = ps.len();
            let r = spec_cxx_method(mod_name, f)->Ok_0;
            &&& crate::text::contains_sub(r.2, spec_count_check(n))
            &&& crate::text::contains_sub(r.2, spec_count_message(n))
            &&& crate::text::starts_with(r.1, "MethodMetadata{"@ + crate::text::spec_decimal(n) + ", "@)
            &&& forall|i: int|
                0 <= i < n ==> #[trigger] spec_cxx_from_js(*ps[i].type_annotation, mod_name, spec_cxx_arg_ref(i as nat)) is Ok
            &&& crate::text::occurs_in_order(
                r.2,
                Seq::new(
                    n,
                    |i: int|
                        spec_arg_line(
                            i as nat,
                            spec_cxx_from_js(*ps[i].type_annotation, mod_name, spec_cxx_arg_ref(i as nat))->Ok_0,
                        ),
                ),
            )
        }),
{
    let ps = crate::rust_gen::fn_params(f);
    let n = ps.len();
    let r = spec_cxx_method(mod_name, f)->Ok_0;
    lemma_arg_decls_shape(mod_name, ps);
    let d = spec_arg_decls(mod_name, ps)->Ok_0;
    let lines = Seq::new(
        n,
        |i: int| spec_arg_line(i as nat, spec_cxx_from_js(*ps[i].type_annotation, mod_name, spec_cxx_arg_ref(i as nat))->Ok_0),
    );
    assert forall|i: int| 0 <= i < n implies #[trigger] spec_cxx_from_js(*ps[i].type_annotation, mod_name, spec_cxx_arg_ref(i as nat)) is Ok && d[i] == lines[i] by {
        assert(spec_arg_decl(mod_name, i as nat, ps[i]) == Ok::<Seq<char>, CodegenError>(d[i]));
    }
    assert(d =~= lines);
    assert forall|i: int| 0 <= i < n implies crate::text::plain_line(#[trigger] d[i]) by {
        let e = spec_cxx_from_js(*ps[i].type_annotation, mod_name, spec_cxx_arg_ref(i as nat))->Ok_0;
        lemma_arg_line_plain(i as nat, e);
    }
    lemma_decls_in_order(d);
    let invoke = spec_invoke_stmts(mod_name, f)->Ok_0;
    lemma_method_impl_shape(mod_name, f, crate::text::join(d, "\n"@), invoke, d);
    let cxx_mod = crate::naming::spec_cxx_mod_cls_name(mod_name);
    reveal_strlit(", &");
    reveal_strlit(", ");
    reveal_strlit("&");
    let p = "MethodMetadata{"@ + crate::text::spec_decimal(n) + ", "@;
    assert(r.1 =~= p + ("&"@ + cxx_mod + "::"@ + f.name@ + "}"@));
    assert(r.1.take(p.len() as int) =~= p);
}

} // verus!

verus! {

/// The JSI `Bridging<T>` specialization with the given bodies (each indented by 4).
pub open spec fn spec_cxx_bridging_template(target_type: Seq<char>, from_js_impl: Seq<char>, to_js_impl: Seq<char>) -> Seq<char> {
    "template <>\nstruct Bridging<"@ + target_type + "> {\n  static "@ + target_type
        + " fromJs(jsi::Runtime &rt, const jsi::Value& value, std::shared_ptr<CallInvoker> callInvoker) {\n"@
        + crate::text::spec_indent(from_js_impl, 4) + "\n  }\n\n  static jsi::Value toJs(jsi::Runtime &rt, "@
        + target_type + " value) {\n"@ + crate::text::spec_indent(to_js_impl, 4) + "\n  }\n};"@
}

/// Where the `fromJs` body starts in a bridging template for target type `t`.
pub open spec fn template_body_start(t: Seq<char>) -> int {
    ("template <>\nstruct Bridging<"@.len() + t.len() + "> {\n  static "@.len() + t.len()
        + " fromJs(jsi::Runtime &rt, const jsi::Value& value, std::shared_ptr<CallInvoker> callInvoker) {\n"@.len()) as int
}

proof fn lemma_template_shape(t: Seq<char>, f: Seq<char>, g: Seq<char>)
    ensures
        spec_cxx_bridging_template(t, f, g).len() >= template_body_start(t) + crate::text::spec_indent(f, 4).len(),
        spec_cxx_bridging_template(t, f, g).subrange(
            "template <>\nstruct Bridging<"@.len() as int,
            ("template <>\nstruct Bridging<"@.len() + t.len()) as int,
        ) == t,
        spec_cxx_bridging_template(t, f, g)[("template <>\nstruct Bridging<"@.len() + t.len()) as int] == '>',
        spec_cxx_bridging_template(t, f, g).subrange(
            template_body_start(t),
            template_body_start(t) + crate::text::spec_indent(f, 4).len(),
        ) == crate::text::spec_indent(f, 4),
{
    let p = "template <>\nstruct Bridging<"@;
    let q = "> {\n  static "@;
    let fj = " fromJs(jsi::Runtime &rt, const jsi::Value& value, std::shared_ptr<CallInvoker> callInvoker) {\n"@;
    reveal_strlit("> {\n  static ");
    let i = crate::text::spec_indent(f, 4);
    let c = "\n  }\n\n  static jsi::Value toJs(jsi::Runtime &rt, "@ + t + " value) {\n"@ + crate::text::spec_indent(g, 4) + "\n  }\n};"@;
    let x = spec_cxx_bridging_template(t, f, g);
    assert(x =~= p + t + (q + t + fj + i + c));
    assert(x.subrange(p.len() as int, (p.len() + t.len()) as int) =~= t);
    assert(x =~= (p + t + q + t + fj) + i + c);
    assert(x.subrange(template_body_start(t), template_body_start(t) + i.len()) =~= i);
}

/// Two bridging templates differ where their target types differ, or where the first six
/// characters of the first lines of their `fromJs` bodies differ (target types without `>`,
/// bodies that go on after a first, plain line).
pub proof fn lemma_bridging_templates_differ(
    t1: Seq<char>,
    l1: Seq<char>,
    r1: Seq<char>,
    g1: Seq<char>,
    t2: Seq<char>,
    l2: Seq<char>,
    r2: Seq<char>,
    g2: Seq<char>,
)
    requires
        crate::text::plain_line(l1),
        crate::text::plain_line(l2),
        l1.len() >= 6,
        l2.len() >= 6,
        crate::text::lacks(t1, '>'),
        crate::text::lacks(t2, '>'),
        t1 != t2 || l1.take(6) != l2.take(6),
    ensures
        spec_cxx_bridging_template(t1, l1 + seq!['\n'] + r1, g1) != spec_cxx_bridging_template(t2, l2 + seq!['\n'] + r2, g2),
{
    let f1 = l1 + seq!['\n'] + r1;
    let f2 = l2 + seq!['\n'] + r2;
    let x1 = spec_cxx_bridging_template(t1, f1, g1);
    let x2 = spec_cxx_bridging_template(t2, f2, g2);
    let pl = "template <>\nstruct Bridging<"@.len() as int;
    lemma_template_shape(t1, f1, g1);
    lemma_template_shape(t2, f2, g2);
    if x1 == x2 {
        if t1 != t2 {
            if t1.len() == t2.len() {
            } else if t1.len() < t2.len() {
                assert(x2.subrange(pl, pl + t2.len())[t1.len() as int] == x2[pl + t1.len()]);
            } else {
                assert(x1.subrange(pl, pl + t1.len())[t2.len() as int] == x1[pl + t2.len()]);
            }
        } else {
            crate::text::lemma_indent_first_line(l1, r1, 4);
            crate::text::lemma_indent_first_line(l2, r2, 4);
            let i1 = crate::text::spec_indent(f1, 4);
            let i2 = crate::text::spec_indent(f2, 4);
            let h = template_body_start(t1);
            assert forall|k: int| 0 <= k < 6 implies l1[k] == l2[k] by {
                assert(i1.take((4 + l1.len()) as int)[4 + k] == l1[k]);
                assert(i2.take((4 + l2.len()) as int)[4 + k] == l2[k]);
                assert(x1.subrange(h, h + i1.len())[4 + k] == x1[h + 4 + k]);
                assert(x2.subrange(h, h + i2.len())[4 + k] == x2[h + 4 + k]);
            }
            assert(l1.take(6) =~= l2.take(6));
        }
    }
}

/// Returns the JSI bridging (`fromJs`, `toJs`) template for `target_type`.
pub fn cxx_bridging_template(target_type: &String, from_js_impl: String, to_js_impl: String) -> (r: String)
    ensures
        r@ == spec_cxx_bridging_template(target_type@, from_js_impl@, to_js_impl@),
{
    let from_ind = crate::text::indent_str(from_js_impl, 4);
    let to_ind = crate::text::indent_str(to_js_impl, 4);
    let mut out = String::from_str("template <>\nstruct Bridging<");
    out.append(target_type.as_str());
    out.append("> {\n  static ");
    out.append(target_type.as_str());
    out.append(" fromJs(jsi::Runtime &rt, const jsi::Value& value, std::shared_ptr<CallInvoker> callInvoker) {\n");
    out.append(from_ind.as_str());
    out.append("\n  }\n\n  static jsi::Value toJs(jsi::Runtime &rt, ");
    out.append(target_type.as_str());
    out.append(" value) {\n");
    out.append(to_ind.as_str());
    out.append("\n  }\n};");
    out
}

/// The declaration of a TurboModule method in the module's class.
pub open spec fn spec_cxx_method_def(name: Seq<char>) -> Seq<char> {
    "static facebook::jsi::Value\n"@ + name
        + "(facebook::jsi::Runtime &rt,\n    facebook::react::TurboModule &turboModule,\n    const facebook::jsi::Value args[], size_t count);"@
}

/// Returns the declaration of method `name` in the module's class.
pub fn cxx_method_def(name: &String) -> (r: String)
    ensures
        r@ == spec_cxx_method_def(name@),
{
    let mut out = String::from_str("static facebook::jsi::Value\n");
    out.append(name.as_str());
    out.append("(facebook::jsi::Runtime &rt,\n    facebook::react::TurboModule &turboModule,\n    const facebook::jsi::Value args[], size_t count);");
    out
}

/// The body of `fromJs` for a nullable struct: `null` gives the default value.
pub open spec fn spec_nullable_from_js(ns: Seq<char>, default_value: Seq<char>, origin: Seq<char>) -> Seq<char> {
    "if (value.isNull()) {\n  return "@ + ns + "{true, "@ + default_value
        + "};\n}\n\nauto val = react::bridging::fromJs<"@ + origin
        + ">(rt, value, callInvoker);\nauto ret = "@ + ns + "{false, val};\n\nreturn ret;"@
}

/// The body of `toJs` for a nullable struct.
pub open spec fn spec_nullable_to_js() -> Seq<char> {
    "if (value.null) {\n  return jsi::Value::null();\n}\n\nreturn react::bridging::toJs(rt, value.val);"@
}

/// The bridging template of the nullable struct `nullable_namespace` that wraps `t`.
pub open spec fn spec_cxx_nullable_bridging_template(mod_name: Seq<char>, nullable_namespace: Seq<char>, t: TypeAnnotation) -> Result<Seq<char>, CodegenError> {
    match spec_cxx_type(t, mod_name) {
        Err(e) => Err(e),
        Ok(origin) => match spec_cxx_default_val(t, mod_name) {
            Err(e) => Err(e),
            Ok(d) => Ok(
                spec_cxx_bridging_template(
                    nullable_namespace,
                    spec_nullable_from_js(nullable_namespace, d, origin),
                    spec_nullable_to_js(),
                ),
            ),
        },
    }
}

/// Returns the bridging template of a nullable struct.
pub fn cxx_nullable_bridging_template(mod_name: &String, nullable_namespace: &String, type_annotation: &TypeAnnotation) -> (r: Result<String, CodegenError>)
    requires
        cxx_default_val_terminates(*type_annotation, mod_name@),
    ensures
        r matches Ok(s) ==> spec_cxx_nullable_bridging_template(mod_name@, nullable_namespace@, *type_annotation) == Ok::<Seq<char>, CodegenError>(s@),
        r matches Err(e) ==> spec_cxx_nullable_bridging_template(mod_name@, nullable_namespace@, *type_annotation) == Err::<Seq<char>, CodegenError>(e),
{
    let origin = type_annotation.as_cxx_type(mod_name)?;
    let default_value = type_annotation.as_cxx_default_val(mod_name)?;
    let mut out = String::from_str("if (value.isNull()) {\n  return ");
    out.append(nullable_namespace.as_str());
    out.append("{true, ");
    out.append(default_value.as_str());
    out.append("};\n}\n\nauto val = react::bridging::fromJs<");
    out.append(origin.as_str());
    out.append(">(rt, value, callInvoker);\nauto ret = ");
    out.append(nullable_namespace.as_str());
    out.append("{false, val};\n\nreturn ret;");
    let to_js = String::from_str("if (value.null) {\n  return jsi::Value::null();\n}\n\nreturn react::bridging::toJs(rt, value.val);");
    Ok(cxx_bridging_template(nullable_namespace, out, to_js))
}

} // verus!

verus! {

/// What one property of an object alias adds to its bridging template:
/// (getter, setter, `fromJs` statement, converted identifier, `toJs` statement).
pub open spec fn spec_struct_prop(mod_name: Seq<char>, p: crate::schema::AliasProperty) -> Result<(Seq<char>, Seq<char>, Seq<char>, Seq<char>, Seq<char>), CodegenError> {
    let ident = "obj$"@ + p.name@;
    let converted = "_"@ + ident;
    match spec_cxx_from_js(*p.type_annotation, mod_name, ident) {
        Err(e) => Err(e),
        Ok(from_js) => match spec_cxx_to_js(*p.type_annotation, "value."@ + p.name@) {
            Err(e) => Err(e),
            Ok(to_js) => Ok(
                (
                    "auto "@ + ident + " = obj.getProperty(rt, \""@ + p.name@ + "\");"@,
                    "obj.setProperty(rt, \""@ + p.name@ + "\", "@ + converted + ");"@,
                    "auto "@ + converted + " = "@ + from_js + ";"@,
                    converted,
                    "auto "@ + converted + " = "@ + to_js + ";"@,
                ),
            ),
        },
    }
}

/// The parts of the properties in order, or the first error.
pub open spec fn spec_struct_props(mod_name: Seq<char>, ps: Seq<crate::schema::AliasProperty>) -> Result<Seq<(Seq<char>, Seq<char>, Seq<char>, Seq<char>, Seq<char>)>, CodegenError>
    decreases ps.len(),
{
    if ps.len() == 0 {
        Ok(Seq::empty())
    } else {
        match spec_struct_props(mod_name, ps.drop_last()) {
            Err(e) => Err(e),
            Ok(prev) => match spec_struct_prop(mod_name, ps.last()) {
                Ok(x) => Ok(prev.push(x)),
                Err(e) => Err(e),
            },
        }
    }
}

/// The bridging template of an object alias: `fromJs` reads each property, `toJs` builds
/// a JS object.
pub open spec fn spec_cxx_struct_bridging_template(mod_name: Seq<char>, name: Seq<char>, alias: crate::schema::Alias) -> Result<Seq<char>, CodegenError> {
    if alias.kind@ != "ObjectTypeAnnotation"@ {
        Err(CodegenError::AliasNotObject(alias.kind))
    } else {
        match spec_struct_props(mod_name, alias.properties@) {
            Err(e) => Err(e),
            Ok(parts) => {
                let ns = spec_mod_ns(mod_name) + name;
                let get_props = crate::text::join(parts.map_values(|x: (Seq<char>, Seq<char>, Seq<char>, Seq<char>, Seq<char>)| x.0), "\n"@);
                let set_props = crate::text::join(parts.map_values(|x: (Seq<char>, Seq<char>, Seq<char>, Seq<char>, Seq<char>)| x.1), "\n"@);
                let from_stmts = crate::text::join(parts.map_values(|x: (Seq<char>, Seq<char>, Seq<char>, Seq<char>, Seq<char>)| x.2), "\n"@);
                let idents = crate::text::join(parts.map_values(|x: (Seq<char>, Seq<char>, Seq<char>, Seq<char>, Seq<char>)| x.3), ",\n"@);
                let to_stmts = crate::text::join(parts.map_values(|x: (Seq<char>, Seq<char>, Seq<char>, Seq<char>, Seq<char>)| x.4), "\n"@);
                let from_js_impl = "auto obj = value.asObject(rt);\n"@ + get_props + "\n\n"@ + from_stmts + "\n\n"@
                    + ns + " ret = {\n"@ + crate::text::spec_indent(idents, 2) + "\n};\n\nreturn ret;"@;
                let to_js_impl = "jsi::Object obj = jsi::Object(rt);\n"@ + to_stmts + "\n\n"@ + set_props
                    + "\n\nreturn jsi::Value(rt, obj);"@;
                Ok(spec_cxx_bridging_template(ns, from_js_impl, to_js_impl))
            },
        }
    }
}

proof fn lemma_struct_props_err_extends(m: Seq<char>, ps: Seq<crate::schema::AliasProperty>, k: int)
    requires
        0 <= k <= ps.len(),
    ensures
        spec_struct_props(m, ps.take(k)) is Err ==> spec_struct_props(m, ps) == spec_struct_props(m, ps.take(k)),
    decreases ps.len() - k,
{
    if k < ps.len() {
        assert(ps.take(k + 1).drop_last() =~= ps.take(k));
        lemma_struct_props_err_extends(m, ps, k + 1);
    } else {
        assert(ps.take(k) =~= ps);
    }
}

/// Returns the JSI bridging template for an object alias.
pub fn cxx_struct_bridging_template(mod_name: &String, name: &String, alias: &crate::schema::Alias) -> (r: Result<String, CodegenError>)
    ensures
        r matches Ok(s) ==> spec_cxx_struct_bridging_template(mod_name@, name@, *alias) == Ok::<Seq<char>, CodegenError>(s@),
        r matches Err(e) ==> spec_cxx_struct_bridging_template(mod_name@, name@, *alias) == Err::<Seq<char>, CodegenError>(e),
{
    if !(alias.kind == String::from_str("ObjectTypeAnnotation")) {
        return Err(CodegenError::AliasNotObject(alias.kind.clone()));
    }
    let struct_namespace = mod_qualified(mod_name.as_str(), name.as_str());
    let ps = &alias.properties;
    let n = ps.len();
    let mut get_props: Vec<String> = Vec::new();
    let mut set_props: Vec<String> = Vec::new();
    let mut from_js_stmts: Vec<String> = Vec::new();
    let mut from_js_ident: Vec<String> = Vec::new();
    let mut to_js_stmts: Vec<String> = Vec::new();
    let ghost mut parts: Seq<(Seq<char>, Seq<char>, Seq<char>, Seq<char>, Seq<char>)> = Seq::empty();
    let mut i: usize = 0;
    assert(ps@.take(0).len() == 0);
    while i < n
        invariant
            n == ps@.len(),
            i <= n,
            ps@ == alias.properties@,
            alias.kind@ == "ObjectTypeAnnotation"@,
            spec_struct_props(mod_name@, ps@.take(i as int)) == Ok::<Seq<(Seq<char>, Seq<char>, Seq<char>, Seq<char>, Seq<char>)>, CodegenError>(parts),
            crate::text::views(get_props@) == parts.map_values(|x: (Seq<char>, Seq<char>, Seq<char>, Seq<char>, Seq<char>)| x.0),
            crate::text::views(set_props@) == parts.map_values(|x: (Seq<char>, Seq<char>, Seq<char>, Seq<char>, Seq<char>)| x.1),
            crate::text::views(from_js_stmts@) == parts.map_values(|x: (Seq<char>, Seq<char>, Seq<char>, Seq<char>, Seq<char>)| x.2),
            crate::text::views(from_js_ident@) == parts.map_values(|x: (Seq<char>, Seq<char>, Seq<char>, Seq<char>, Seq<char>)| x.3),
            crate::text::views(to_js_stmts@) == parts.map_values(|x: (Seq<char>, Seq<char>, Seq<char>, Seq<char>, Seq<char>)| x.4),
        decreases n - i,
    {
        assert(ps@.take(i + 1).drop_last() =~= ps@.take(i as int));
        assert(ps@.take(i + 1).last() == ps@[i as int]);
        let prop = &ps[i];
        let ident = cat2("obj$", prop.name.as_str());
        let converted_ident = cat2("_", ident.as_str());
        let from_js = match prop.type_annotation.as_cxx_from_js(mod_name, &ident) {
            Ok(x) => x,
            Err(e) => {
                proof {
                    lemma_struct_props_err_extends(mod_name@, ps@, i + 1);
                }
                return Err(e);
            },
        };
        let value_ident = cat2("value.", prop.name.as_str());
        let to_js = match prop.type_annotation.as_cxx_to_js(&value_ident) {
            Ok(x) => x,
            Err(e) => {
                proof {
                    lemma_struct_props_err_extends(mod_name@, ps@, i + 1);
                }
                return Err(e);
            },
        };
        let mut get_prop = String::from_str("auto ");
        get_prop.append(ident.as_str());
        get_prop.append(" = obj.getProperty(rt, \"");
        get_prop.append(prop.name.as_str());
        get_prop.append("\");");
        let mut set_prop = String::from_str("obj.setProperty(rt, \"");
        set_prop.append(prop.name.as_str());
        set_prop.append("\", ");
        set_prop.append(converted_ident.as_str());
        set_prop.append(");");
        let mut from_js_stmt = String::from_str("auto ");
        from_js_stmt.append(converted_ident.as_str());
        from_js_stmt.append(" = ");
        from_js_stmt.append(from_js.expr.as_str());
        from_js_stmt.append(";");
        let mut to_js_stmt = String::from_str("auto ");
        to_js_stmt.append(converted_ident.as_str());
        to_js_stmt.append(" = ");
        to_js_stmt.append(to_js.expr.as_str());
        to_js_stmt.append(";");
        let ghost x = (get_prop@, set_prop@, from_js_stmt@, converted_ident@, to_js_stmt@);
        assert(spec_struct_prop(mod_name@, ps@[i as int]) == Ok::<(Seq<char>, Seq<char>, Seq<char>, Seq<char>, Seq<char>), CodegenError>(x));
        let ghost b0 = get_props@;
        let ghost b1 = set_props@;
        let ghost b2 = from_js_stmts@;
        let ghost b3 = from_js_ident@;
        let ghost b4 = to_js_stmts@;
        get_props.push(get_prop);
        set_props.push(set_prop);
        from_js_stmts.push(from_js_stmt);
        from_js_ident.push(converted_ident);
        to_js_stmts.push(to_js_stmt);
        proof {
            let old_parts = parts;
            parts = parts.push(x);
            assert(crate::text::views(get_props@) =~= crate::text::views(b0).push(x.0));
            assert(crate::text::views(set_props@) =~= crate::text::views(b1).push(x.1));
            assert(crate::text::views(from_js_stmts@) =~= crate::text::views(b2).push(x.2));
            assert(crate::text::views(from_js_ident@) =~= crate::text::views(b3).push(x.3));
            assert(crate::text::views(to_js_stmts@) =~= crate::text::views(b4).push(x.4));
            assert(parts.map_values(|x: (Seq<char>, Seq<char>, Seq<char>, Seq<char>, Seq<char>)| x.0) =~= old_parts.map_values(|x: (Seq<char>, Seq<char>, Seq<char>, Seq<char>, Seq<char>)| x.0).push(x.0));
            assert(parts.map_values(|x: (Seq<char>, Seq<char>, Seq<char>, Seq<char>, Seq<char>)| x.1) =~= old_parts.map_values(|x: (Seq<char>, Seq<char>, Seq<char>, Seq<char>, Seq<char>)| x.1).push(x.1));
            assert(parts.map_values(|x: (Seq<char>, Seq<char>, Seq<char>, Seq<char>, Seq<char>)| x.2) =~= old_parts.map_values(|x: (Seq<char>, Seq<char>, Seq<char>, Seq<char>, Seq<char>)| x.2).push(x.2));
            assert(parts.map_values(|x: (Seq<char>, Seq<char>, Seq<char>, Seq<char>, Seq<char>)| x.3) =~= old_parts.map_values(|x: (Seq<char>, Seq<char>, Seq<char>, Seq<char>, Seq<char>)| x.3).push(x.3));
            assert(parts.map_values(|x: (Seq<char>, Seq<char>, Seq<char>, Seq<char>, Seq<char>)| x.4) =~= old_parts.map_values(|x: (Seq<char>, Seq<char>, Seq<char>, Seq<char>, Seq<char>)| x.4).push(x.4));
        }
        i = i + 1;
    }
    assert(ps@.take(n as int) =~= ps@);
    let a = crate::text::join_strings(&get_props, "\n");
    let b = crate::text::join_strings(&from_js_stmts, "\n");
    let d0 = crate::text::join_strings(&from_js_ident, ",\n");
    let d = crate::text::indent_str(d0, 2);
    let mut from_impl = String::from_str("auto obj = value.asObject(rt);\n");
    from_impl.append(a.as_str());
    from_impl.append("\n\n");
    from_impl.append(b.as_str());
    from_impl.append("\n\n");
    from_impl.append(struct_namespace.as_str());
    from_impl.append(" ret = {\n");
    from_impl.append(d.as_str());
    from_impl.append("\n};\n\nreturn ret;");
    let ta = crate::text::join_strings(&to_js_stmts, "\n");
    let tb = crate::text::join_strings(&set_props, "\n");
    let mut to_impl = String::from_str("jsi::Object obj = jsi::Object(rt);\n");
    to_impl.append(ta.as_str());
    to_impl.append("\n\n");
    to_impl.append(tb.as_str());
    to_impl.append("\n\nreturn jsi::Value(rt, obj);");
    Ok(cxx_bridging_template(&struct_namespace, from_impl, to_impl))
}

} // verus!

verus! {

/// How a member value is written in C++: quoted for string enums, as is for number enums.
pub open spec fn spec_raw_member(is_string: bool, v: Seq<char>) -> Seq<char> {
    if is_string {
        "\""@ + v + "\""@
    } else {
        v
    }
}

/// The `fromJs` branch of the member at `i`.
pub open spec fn spec_enum_from_cond(ns: Seq<char>, is_string: bool, i: int, m: EnumMember) -> Seq<char> {
    (if i == 0 { "if (raw == "@ } else { "else if (raw == "@ }) + spec_raw_member(is_string, m.value.value@)
        + ") {\n  return "@ + ns + "::"@ + m.name@ + ";\n}"@
}

/// The `toJs` case of a member.
pub open spec fn spec_enum_to_cond(ns: Seq<char>, is_string: bool, m: EnumMember) -> Seq<char> {
    "case "@ + ns + "::"@ + m.name@ + ":\n  return react::bridging::toJs(rt, "@ + spec_raw_member(
        is_string,
        m.value.value@,
    ) + ");"@
}

/// The bridging template of an enum: `fromJs` compares the raw value with each member's,
/// `toJs` switches over the members.
pub open spec fn spec_cxx_enum_bridging_template(mod_name: Seq<char>, name: Seq<char>, e: crate::schema::Enum) -> Result<Seq<char>, CodegenError> {
    if e.kind@ != "EnumDeclarationWithMembers"@ {
        Err(CodegenError::EnumNotDeclaredWithMembers)
    } else if !(e.member_type@ == "StringTypeAnnotation"@ || e.member_type@ == "NumberTypeAnnotation"@) {
        Err(CodegenError::EnumMemberTypeInvalid)
    } else if e.members is None {
        Err(CodegenError::EnumMembersRequired)
    } else {
        let ms = e.members->0@;
        let is_string = e.member_type@ == "StringTypeAnnotation"@;
        let ns = spec_mod_ns(mod_name) + name;
        let as_raw = if is_string { "value.asString(rt).utf8(rt)"@ } else { "value.asNumber()"@ };
        let invalid = "Invalid enum value ("@ + name + ")"@;
        let from_conds = Seq::new(ms.len(), |i: int| spec_enum_from_cond(ns, is_string, i, ms[i])).push(
            "else {\n  throw jsi::JSError(rt, \""@ + invalid + "\");\n}"@,
        );
        let to_conds = ms.map_values(|m: EnumMember| spec_enum_to_cond(ns, is_string, m)).push(
            "default:\n  throw jsi::JSError(rt, \""@ + invalid + "\");"@,
        );
        let from_js = "auto raw = "@ + as_raw + ";\n"@ + crate::text::join(from_conds, " "@);
        let to_js = "switch (value) {\n"@ + crate::text::spec_indent(crate::text::join(to_conds, "\n"@), 2)
            + "\n}"@;
        Ok(spec_cxx_bridging_template(ns, from_js, to_js))
    }
}

/// Returns the JSI bridging template for an enum.
pub fn cxx_enum_bridging_template(mod_name: &String, name: &String, enum_spec: &crate::schema::Enum) -> (r: Result<String, CodegenError>)
    ensures
        r matches Ok(s) ==> spec_cxx_enum_bridging_template(mod_name@, name@, *enum_spec) == Ok::<Seq<char>, CodegenError>(s@),
        r matches Err(e) ==> spec_cxx_enum_bridging_template(mod_name@, name@, *enum_spec) == Err::<Seq<char>, CodegenError>(e),
{
    if !(enum_spec.kind == String::from_str("EnumDeclarationWithMembers")) {
        return Err(CodegenError::EnumNotDeclaredWithMembers);
    }
    let is_string = enum_spec.member_type == String::from_str("StringTypeAnnotation");
    let is_number = enum_spec.member_type == String::from_str("NumberTypeAnnotation");
    if !(is_string || is_number) {
        return Err(CodegenError::EnumMemberTypeInvalid);
    }
    let ms = match &enum_spec.members {
        Some(ms) => ms,
        None => {
            return Err(CodegenError::EnumMembersRequired);
        },
    };
    let enum_namespace = mod_qualified(mod_name.as_str(), name.as_str());
    let as_raw = if is_string {
        String::from_str("value.asString(rt).utf8(rt)")
    } else {
        String::from_str("value.asNumber()")
    };
    let ghost ns = enum_namespace@;
    let n = ms.len();
    let mut from_conds: Vec<String> = Vec::new();
    let mut to_conds: Vec<String> = Vec::new();
    let mut i: usize = 0;
    while i < n
        invariant
            n == ms@.len(),
            i <= n,
            ns == enum_namespace@,
            crate::text::views(from_conds@) == Seq::new(i as nat, |j: int| spec_enum_from_cond(ns, is_string, j, ms@[j])),
            crate::text::views(to_conds@) == ms@.take(i as int).map_values(|m: EnumMember| spec_enum_to_cond(ns, is_string, m)),
        decreases n - i,
    {
        let m = &ms[i];
        let raw_member = if is_string {
            cat3("\"", m.value.value.as_str(), "\"")
        } else {
            crate::text::copy_str(m.value.value.as_str())
        };
        let mut from = if i == 0 {
            String::from_str("if (raw == ")
        } else {
            String::from_str("else if (raw == ")
        };
        from.append(raw_member.as_str());
        from.append(") {\n  return ");
        from.append(enum_namespace.as_str());
        from.append("::");
        from.append(m.name.as_str());
        from.append(";\n}");
        let mut to = String::from_str("case ");
        to.append(enum_namespace.as_str());
        to.append("::");
        to.append(m.name.as_str());
        to.append(":\n  return react::bridging::toJs(rt, ");
        to.append(raw_member.as_str());
        to.append(");");
        let ghost b1 = from_conds@;
        let ghost b2 = to_conds@;
        from_conds.push(from);
        to_conds.push(to);
        proof {
            assert(from@ == spec_enum_from_cond(ns, is_string, i as int, ms@[i as int]));
            assert(to@ == spec_enum_to_cond(ns, is_string, ms@[i as int]));
            assert(crate::text::views(from_conds@) =~= crate::text::views(b1).push(from@));
            assert(crate::text::views(to_conds@) =~= crate::text::views(b2).push(to@));
        }
        i = i + 1;
        proof {
            assert(crate::text::views(from_conds@) =~= Seq::new(i as nat, |j: int| spec_enum_from_cond(ns, is_string, j, ms@[j])));
            assert(ms@.take(i as int).map_values(|m: EnumMember| spec_enum_to_cond(ns, is_string, m)) =~= ms@.take(i - 1).map_values(
                |m: EnumMember| spec_enum_to_cond(ns, is_string, m),
            ).push(spec_enum_to_cond(ns, is_string, ms@[i - 1])));
        }
    }
    assert(ms@.take(n as int) =~= ms@);
    let mut els = String::from_str("else {\n  throw jsi::JSError(rt, \"Invalid enum value (");
    els.append(name.as_str());
    els.append(")\");\n}");
    let mut dflt = String::from_str("default:\n  throw jsi::JSError(rt, \"Invalid enum value (");
    dflt.append(name.as_str());
    dflt.append(")\");");
    let ghost b1 = from_conds@;
    let ghost b2 = to_conds@;
    from_conds.push(els);
    to_conds.push(dflt);
    proof {
        assert(crate::text::views(from_conds@) =~= crate::text::views(b1).push(els@));
        assert(crate::text::views(to_conds@) =~= crate::text::views(b2).push(dflt@));
        assert(els@ =~= "else {\n  throw jsi::JSError(rt, \""@ + ("Invalid enum value ("@ + name@ + ")"@) + "\");\n}"@) by {
            reveal_strlit("else {\n  throw jsi::JSError(rt, \"Invalid enum value (");
            reveal_strlit(")\");\n}");
            reveal_strlit("else {\n  throw jsi::JSError(rt, \"");
            reveal_strlit("Invalid enum value (");
            reveal_strlit(")");
            reveal_strlit("\");\n}");
        }
        assert(dflt@ =~= "default:\n  throw jsi::JSError(rt, \""@ + ("Invalid enum value ("@ + name@ + ")"@) + "\");"@) by {
            reveal_strlit("default:\n  throw jsi::JSError(rt, \"Invalid enum value (");
            reveal_strlit(")\");");
            reveal_strlit("default:\n  throw jsi::JSError(rt, \"");
            reveal_strlit("Invalid enum value (");
            reveal_strlit(")");
            reveal_strlit("\");");
        }
    }
    let conds = crate::text::join_strings(&from_conds, " ");
    let mut from_js = String::from_str("auto raw = ");
    from_js.append(as_raw.as_str());
    from_js.append(";\n");
    from_js.append(conds.as_str());
    let tconds = crate::text::join_strings(&to_conds, "\n");
    let tind = crate::text::indent_str(tconds, 2);
    let mut to_js = String::from_str("switch (value) {\n");
    to_js.append(tind.as_str());
    to_js.append("\n}");
    Ok(cxx_bridging_template(&enum_namespace, from_js, to_js))
}

} // verus!

verus! {

/// `methodMap_["name"] = metadata;`
pub open spec fn spec_method_map(m: CxxMethod) -> Seq<char> {
    "methodMap_[\""@ + m.name@ + "\"] = "@ + m.metadata@ + ";"@
}

/// The namespace of one module in the TurboModule source file: its constructor, which fills
/// the method map, and its method implementations.
pub open spec fn spec_mod_cxx_ns(r: crate::generator::CodegenResult) -> Seq<char> {
    let flat_name = spec_flat_case(r.module_name@);
    let cxx_mod = crate::naming::spec_cxx_mod_cls_name(r.module_name@);
    let method_maps = crate::text::join(r.cxx_methods@.map_values(|m: CxxMethod| spec_method_map(m)), "\n"@);
    let method_impls = crate::text::join(r.cxx_methods@.map_values(|m: CxxMethod| m.impl_func@), "\n\n"@);
    "namespace "@ + flat_name + " {\n\n"@ + cxx_mod + "::"@ + cxx_mod
        + "(\n    std::shared_ptr<react::CallInvoker> jsInvoker)\n    : TurboModule("@ + cxx_mod
        + "::kModuleName, jsInvoker) {\n  callInvoker_ = std::move(jsInvoker);\n\n"@ + crate::text::spec_indent(
        method_maps,
        2,
    ) + "\n}\n\n"@ + method_impls + "\n\n} // namespace "@ + flat_name
}

/// `#include "CxxMyModule.hpp"`
pub open spec fn spec_mod_header_include(r: crate::generator::CodegenResult) -> Seq<char> {
    "#include \""@ + crate::naming::spec_cxx_mod_cls_name(r.module_name@) + ".hpp\""@
}

/// The complete TurboModule implementation source file of the modules.
pub open spec fn spec_mod_cxx(rs: Seq<crate::generator::CodegenResult>) -> Seq<char> {
    let headers = crate::text::join(rs.map_values(|r: crate::generator::CodegenResult| spec_mod_header_include(r)), "\n"@);
    let nss = crate::text::join(rs.map_values(|r: crate::generator::CodegenResult| spec_mod_cxx_ns(r)), "\n"@);
    headers
        + "\n\n#include <thread>\n#include <react/bridging/Bridging.h>\n\n#include \"cxx.h\"\n#include \"ffi.rs.h\"\n#include \"bridging-generated.hpp\"\n#include \"utils.hpp\"\n\nusing namespace facebook;\n\nnamespace craby {\n"@
        + nss + "\n} // namespace craby"@
}

/// Renders one module's namespace of the source file.
fn mod_cxx_ns(r: &crate::generator::CodegenResult) -> (out: String)
    ensures
        out@ == spec_mod_cxx_ns(*r),
{
    let flat_name = flat_case(r.module_name.as_str());
    let cxx_mod = crate::naming::cxx_mod_cls_name(r.module_name.as_str());
    let ms = &r.cxx_methods;
    let n = ms.len();
    let mut maps: Vec<String> = Vec::new();
    let mut impls: Vec<String> = Vec::new();
    let mut i: usize = 0;
    while i < n
        invariant
            n == ms@.len(),
            i <= n,
            ms@ == r.cxx_methods@,
            crate::text::views(maps@) == ms@.take(i as int).map_values(|m: CxxMethod| spec_method_map(m)),
            crate::text::views(impls@) == ms@.take(i as int).map_values(|m: CxxMethod| m.impl_func@),
        decreases n - i,
    {
        let mut mm = String::from_str("methodMap_[\"");
        mm.append(ms[i].name.as_str());
        mm.append("\"] = ");
        mm.append(ms[i].metadata.as_str());
        mm.append(";");
        let ghost b1 = maps@;
        let ghost b2 = impls@;
        let im = crate::text::copy_str(ms[i].impl_func.as_str());
        maps.push(mm);
        impls.push(im);
        proof {
            assert(crate::text::views(maps@) =~= crate::text::views(b1).push(mm@));
            assert(crate::text::views(impls@) =~= crate::text::views(b2).push(im@));
            assert(ms@.take(i + 1).map_values(|m: CxxMethod| spec_method_map(m)) =~= ms@.take(i as int).map_values(
                |m: CxxMethod| spec_method_map(m),
            ).push(spec_method_map(ms@[i as int])));
            assert(ms@.take(i + 1).map_values(|m: CxxMethod| m.impl_func@) =~= ms@.take(i as int).map_values(
                |m: CxxMethod| m.impl_func@,
            ).push(ms@[i as int].impl_func@));
        }
        i = i + 1;
    }
    assert(ms@.take(n as int) =~= ms@);
    let method_maps = crate::text::join_strings(&maps, "\n");
    let method_maps = crate::text::indent_str(method_maps, 2);
    let method_impls = crate::text::join_strings(&impls, "\n\n");
    let mut out = String::from_str("namespace ");
    out.append(flat_name.as_str());
    out.append(" {\n\n");
    out.append(cxx_mod.as_str());
    out.append("::");
    out.append(cxx_mod.as_str());
    out.append("(\n    std::shared_ptr<react::CallInvoker> jsInvoker)\n    : TurboModule(");
    out.append(cxx_mod.as_str());
    out.append("::kModuleName, jsInvoker) {\n  callInvoker_ = std::move(jsInvoker);\n\n");
    out.append(method_maps.as_str());
    out.append("\n}\n\n");
    out.append(method_impls.as_str());
    out.append("\n\n} // namespace ");
    out.append(flat_name.as_str());
    out
}

/// Returns the complete C++ TurboModule implementation source file.
pub fn mod_cxx(codegen_res: &Vec<crate::generator::CodegenResult>) -> (out: String)
    ensures
        out@ == spec_mod_cxx(codegen_res@),
{
    let rs = codegen_res;
    let n = rs.len();
    let mut headers: Vec<String> = Vec::new();
    let mut nss: Vec<String> = Vec::new();
    let mut i: usize = 0;
    while i < n
        invariant
            n == rs@.len(),
            i <= n,
            crate::text::views(headers@) == rs@.take(i as int).map_values(|r: crate::generator::CodegenResult| spec_mod_header_include(r)),
            crate::text::views(nss@) == rs@.take(i as int).map_values(|r: crate::generator::CodegenResult| spec_mod_cxx_ns(r)),
        decreases n - i,
    {
        let cxx_mod = crate::naming::cxx_mod_cls_name(rs[i].module_name.as_str());
        let h = cat3("#include \"", cxx_mod.as_str(), ".hpp\"");
        let ns = mod_cxx_ns(&rs[i]);
        let ghost b1 = headers@;
        let ghost b2 = nss@;
        headers.push(h);
        nss.push(ns);
        proof {
            assert(crate::text::views(headers@) =~= crate::text::views(b1).push(h@));
            assert(crate::text::views(nss@) =~= crate::text::views(b2).push(ns@));
            assert(rs@.take(i + 1).map_values(|r: crate::generator::CodegenResult| spec_mod_header_include(r)) =~= rs@.take(i as int).map_values(
                |r: crate::generator::CodegenResult| spec_mod_header_include(r),
            ).push(spec_mod_header_include(rs@[i as int])));
            assert(rs@.take(i + 1).map_values(|r: crate::generator::CodegenResult| spec_mod_cxx_ns(r)) =~= rs@.take(i as int).map_values(
                |r: crate::generator::CodegenResult| spec_mod_cxx_ns(r),
            ).push(spec_mod_cxx_ns(rs@[i as int])));
        }
        i = i + 1;
    }
    assert(rs@.take(n as int) =~= rs@);
    let mut out = crate::text::join_strings(&headers, "\n");
    let mod_namespaces = crate::text::join_strings(&nss, "\n");
    out.append("\n\n#include <thread>\n#include <react/bridging/Bridging.h>\n\n#include \"cxx.h\"\n#include \"ffi.rs.h\"\n#include \"bridging-generated.hpp\"\n#include \"utils.hpp\"\n\nusing namespace facebook;\n\nnamespace craby {\n");
    out.append(mod_namespaces.as_str());
    out.append("\n} // namespace craby");
    out
}

/// The namespace of one module in the TurboModule header: its class declaration.
pub open spec fn spec_mod_cxx_h_ns(r: crate::generator::CodegenResult) -> Seq<char> {
    let flat_name = spec_flat_case(r.module_name@);
    let cxx_mod = crate::naming::spec_cxx_mod_cls_name(r.module_name@);
    let method_defs = crate::text::join(r.cxx_methods@.map_values(|m: CxxMethod| spec_cxx_method_def(m.name@)), "\n\n"@);
    "namespace "@ + flat_name + " {\n\nclass JSI_EXPORT "@ + cxx_mod
        + " : public facebook::react::TurboModule {\npublic:\n  static constexpr const char *kModuleName = \""@
        + r.module_name@ + "\";\n\n  "@ + cxx_mod
        + "(std::shared_ptr<facebook::react::CallInvoker> jsInvoker);\n\n"@ + crate::text::spec_indent(
        method_defs,
        2,
    ) + "\n\nprotected:\n  std::shared_ptr<facebook::react::CallInvoker> callInvoker_;\n};\n\n} // namespace "@
        + flat_name
}

/// The complete TurboModule header file of the modules.
pub open spec fn spec_mod_cxx_h(rs: Seq<crate::generator::CodegenResult>) -> Seq<char> {
    "#pragma once\n\n#include <memory>\n#include <ReactCommon/TurboModule.h>\n#include <jsi/jsi.h>\n\nnamespace craby {\n"@
        + crate::text::join(rs.map_values(|r: crate::generator::CodegenResult| spec_mod_cxx_h_ns(r)), "\n"@)
        + "\n} // namespace craby"@
}

fn mod_cxx_h_ns(r: &crate::generator::CodegenResult) -> (out: String)
    ensures
        out@ == spec_mod_cxx_h_ns(*r),
{
    let flat_name = flat_case(r.module_name.as_str());
    let cxx_mod = crate::naming::cxx_mod_cls_name(r.module_name.as_str());
    let ms = &r.cxx_methods;
    let n = ms.len();
    let mut defs: Vec<String> = Vec::new();
    let mut i: usize = 0;
    while i < n
        invariant
            n == ms@.len(),
            i <= n,
            ms@ == r.cxx_methods@,
            crate::text::views(defs@) == ms@.take(i as int).map_values(|m: CxxMethod| spec_cxx_method_def(m.name@)),
        decreases n - i,
    {
        let d = cxx_method_def(&ms[i].name);
        let ghost b1 = defs@;
        defs.push(d);
        proof {
            assert(crate::text::views(defs@) =~= crate::text::views(b1).push(d@));
            assert(ms@.take(i + 1).map_values(|m: CxxMethod| spec_cxx_method_def(m.name@)) =~= ms@.take(i as int).map_values(
                |m: CxxMethod| spec_cxx_method_def(m.name@),
            ).push(spec_cxx_method_def(ms@[i as int].name@)));
        }
        i = i + 1;
    }
    assert(ms@.take(n as int) =~= ms@);
    let method_defs = crate::text::join_strings(&defs, "\n\n");
    let method_defs = crate::text::indent_str(method_defs, 2);
    let mut out = String::from_str("namespace ");
    out.append(flat_name.as_str());
    out.append(" {\n\nclass JSI_EXPORT ");
    out.append(cxx_mod.as_str());
    out.append(" : public facebook::react::TurboModule {\npublic:\n  static constexpr const char *kModuleName = \"");
    out.append(r.module_name.as_str());
    out.append("\";\n\n  ");
    out.append(cxx_mod.as_str());
    out.append("(std::shared_ptr<facebook::react::CallInvoker> jsInvoker);\n\n");
    out.append(method_defs.as_str());
    out.append("\n\nprotected:\n  std::shared_ptr<facebook::react::CallInvoker> callInvoker_;\n};\n\n} // namespace ");
    out.append(flat_name.as_str());
    out
}

/// Returns the complete C++ TurboModule definition header file.
pub fn mod_cxx_h(codegen_res: &Vec<crate::generator::CodegenResult>) -> (out: String)
    ensures
        out@ == spec_mod_cxx_h(codegen_res@),
{
    let rs = codegen_res;
    let n = rs.len();
    let mut nss: Vec<String> = Vec::new();
    let mut i: usize = 0;
    while i < n
        invariant
            n == rs@.len(),
            i <= n,
            crate::text::views(nss@) == rs@.take(i as int).map_values(|r: crate::generator::CodegenResult| spec_mod_cxx_h_ns(r)),
        decreases n - i,
    {
        let ns = mod_cxx_h_ns(&rs[i]);
        let ghost b = nss@;
        nss.push(ns);
        proof {
            assert(crate::text::views(nss@) =~= crate::text::views(b).push(ns@));
            assert(rs@.take(i + 1).map_values(|r: crate::generator::CodegenResult| spec_mod_cxx_h_ns(r)) =~= rs@.take(i as int).map_values(
                |r: crate::generator::CodegenResult| spec_mod_cxx_h_ns(r),
            ).push(spec_mod_cxx_h_ns(rs@[i as int])));
        }
        i = i + 1;
    }
    assert(rs@.take(n as int) =~= rs@);
    let nss_joined = crate::text::join_strings(&nss, "\n");
    let mut out = String::from_str("#pragma once\n\n#include <memory>\n#include <ReactCommon/TurboModule.h>\n#include <jsi/jsi.h>\n\nnamespace craby {\n");
    out.append(nss_joined.as_str());
    out.append("\n} // namespace craby");
    out
}

/// The bridging templates of all modules, in order.
pub open spec fn all_bridging_templates(rs: Seq<crate::generator::CodegenResult>) -> Seq<Seq<char>>
    decreases rs.len(),
{
    if rs.len() == 0 {
        Seq::empty()
    } else {
        all_bridging_templates(rs.drop_last()) + crate::text::views(rs.last().cxx_bridging_templates@)
    }
}

/// The fixed part of the bridging header before the modules' templates.
pub open spec fn spec_bridging_h_prelude() -> Seq<char> {
    "#pragma once\n\n#include <react/bridging/Bridging.h>\n#include \"cxx.h\"\n#include \"ffi.rs.h\"\n\nusing namespace facebook;\n\nnamespace facebook {\nnamespace react {\n\ntemplate <>\nstruct Bridging<rust::String> {\n  static rust::String fromJs(jsi::Runtime& rt, const jsi::Value &value, std::shared_ptr<CallInvoker> callInvoker) {\n    auto str = value.asString(rt).utf8(rt);\n    return rust::String(str);\n  }\n\n  static jsi::Value toJs(jsi::Runtime& rt, const rust::String& value) {\n    return react::bridging::toJs(rt, std::string(value));\n  }\n};\n\ntemplate <typename T>\nstruct Bridging<rust::Vec<T>> {\n  static rust::Vec<T> fromJs(jsi::Runtime& rt, const jsi::Value &value, std::shared_ptr<CallInvoker> callInvoker) {\n    auto arr = value.asObject(rt).asArray(rt);\n    size_t len = arr.length(rt);\n    rust::Vec<T> vec;\n    vec.reserve(len);\n\n    for (size_t i = 0; i < len; i++) {\n      auto element = arr.getValueAtIndex(rt, i);\n      vec.push_back(react::bridging::fromJs<T>(rt, element, callInvoker));\n    }\n\n    return vec;\n  }\n\n  static jsi::Array toJs(jsi::Runtime& rt, const rust::Vec<T>& vec) {\n    auto arr = jsi::Array(rt, vec.size());\n\n    for (size_t i = 0; i < vec.size(); i++) {\n      auto jsElement = react::bridging::toJs(rt, vec[i]);\n      arr.setValueAtIndex(rt, i, jsElement);\n    }\n\n    return arr;\n  }\n};\n"@
}

/// The complete JSI bridging header: the `rust::String` and `rust::Vec` bridges, then the
/// modules' templates (set off by blank lines where there are any).
pub open spec fn spec_cxx_bridging_h(rs: Seq<crate::generator::CodegenResult>) -> Seq<char> {
    let ts = all_bridging_templates(rs);
    let templates = if ts.len() > 0 {
        "\n"@ + crate::text::join(ts, "\n\n"@) + "\n"@
    } else {
        Seq::empty()
    };
    spec_bridging_h_prelude() + templates + "\n} // namespace react\n} // namespace facebook"@
}

/// Returns the complete C++ JSI bridging header file.
pub fn cxx_bridging_h(codegen_res: &Vec<crate::generator::CodegenResult>) -> (out: String)
    ensures
        out@ == spec_cxx_bridging_h(codegen_res@),
{
    let rs = codegen_res;
    let n = rs.len();
    let mut all: Vec<String> = Vec::new();
    let mut has_template = false;
    let mut i: usize = 0;
    assert(crate::text::views(all@) =~= Seq::<Seq<char>>::empty());
    while i < n
        invariant
            n == rs@.len(),
            i <= n,
            crate::text::views(all@) == all_bridging_templates(rs@.take(i as int)),
            has_template == (all@.len() > 0),
        decreases n - i,
    {
        let ts = &rs[i].cxx_bridging_templates;
        has_template = has_template || ts.len() > 0;
        let ghost base = crate::text::views(all@);
        let mut j: usize = 0;
        while j < ts.len()
            invariant
                j <= ts@.len(),
                crate::text::views(all@) == base + crate::text::views(ts@).take(j as int),
                all@.len() == base.len() + j,
            decreases ts@.len() - j,
        {
            let t = crate::text::copy_str(ts[j].as_str());
            let ghost b = all@;
            all.push(t);
            proof {
                assert(crate::text::views(all@) =~= crate::text::views(b).push(t@));
                assert(crate::text::views(all@) =~= base + crate::text::views(ts@).take(j + 1));
            }
            j = j + 1;
        }
        proof {
            assert(crate::text::views(ts@).take(ts@.len() as int) =~= crate::text::views(ts@));
            assert(rs@.take(i + 1).drop_last() =~= rs@.take(i as int));
        }
        i = i + 1;
    }
    assert(rs@.take(n as int) =~= rs@);
    let mut out = String::from_str("#pragma once\n\n#include <react/bridging/Bridging.h>\n#include \"cxx.h\"\n#include \"ffi.rs.h\"\n\nusing namespace facebook;\n\nnamespace facebook {\nnamespace react {\n\ntemplate <>\nstruct Bridging<rust::String> {\n  static rust::String fromJs(jsi::Runtime& rt, const jsi::Value &value, std::shared_ptr<CallInvoker> callInvoker) {\n    auto str = value.asString(rt).utf8(rt);\n    return rust::String(str);\n  }\n\n  static jsi::Value toJs(jsi::Runtime& rt, const rust::String& value) {\n    return react::bridging::toJs(rt, std::string(value));\n  }\n};\n\ntemplate <typename T>\nstruct Bridging<rust::Vec<T>> {\n  static rust::Vec<T> fromJs(jsi::Runtime& rt, const jsi::Value &value, std::shared_ptr<CallInvoker> callInvoker) {\n    auto arr = value.asObject(rt).asArray(rt);\n    size_t len = arr.length(rt);\n    rust::Vec<T> vec;\n    vec.reserve(len);\n\n    for (size_t i = 0; i < len; i++) {\n      auto element = arr.getValueAtIndex(rt, i);\n      vec.push_back(react::bridging::fromJs<T>(rt, element, callInvoker));\n    }\n\n    return vec;\n  }\n\n  static jsi::Array toJs(jsi::Runtime& rt, const rust::Vec<T>& vec) {\n    auto arr = jsi::Array(rt, vec.size());\n\n    for (size_t i = 0; i < vec.size(); i++) {\n      auto jsElement = react::bridging::toJs(rt, vec[i]);\n      arr.setValueAtIndex(rt, i, jsElement);\n    }\n\n    return arr;\n  }\n};\n");
    if has_template {
        let joined = crate::text::join_strings(&all, "\n\n");
        let t = cat3("\n", joined.as_str(), "\n");
        out.append(t.as_str());
    } else {
        proof {
            reveal_strlit("");
        }
        out.append("");
    }
    out.append("\n} // namespace react\n} // namespace facebook");
    proof {
        if !has_template {
            assert(out@ =~= spec_cxx_bridging_h(codegen_res@)) by {
                reveal_strlit("");
            }
        }
    }
    out
}

} // verus!
