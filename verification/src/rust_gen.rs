//! Rust side of the bindings: the Rust types that schema types map to, the cxx bridge
//! declarations and the generated Rust source files.
use vstd::prelude::*;
use vstd::string::*;
use crate::schema::{TypeAnnotation, CodegenError, Parameter, FunctionSpec, is_number_type, is_string_type};
use crate::text::copy_str;

verus! {

/// A Rust type used in the generated bridge.
pub struct RsType(pub String);

/// A Rust type used in a cxx `extern "Rust"` declaration.
pub struct RsBridgeType(pub String);

/// A Rust type used in the user-facing implementation trait.
pub struct RsImplType(pub String);

/// Name of the nullable wrapper struct that stands for a nullable `t` (eg. `NullableNumber`).
pub open spec fn spec_nullable_name(t: TypeAnnotation) -> Result<Seq<char>, CodegenError> {
    if t is BooleanTypeAnnotation {
        Ok("NullableBoolean"@)
    } else if is_number_type(t) {
        Ok("NullableNumber"@)
    } else if is_string_type(t) {
        Ok("NullableString"@)
    } else if let TypeAnnotation::TypeAliasTypeAnnotation { name } = t {
        Ok("Nullable"@ + name@)
    } else if let TypeAnnotation::EnumDeclaration { name, .. } = t {
        Ok("Nullable"@ + name@)
    } else if let TypeAnnotation::ArrayTypeAnnotation { element_type } = t {
        let e = *element_type;
        if e is BooleanTypeAnnotation {
            Ok("NullableBooleanArray"@)
        } else if is_number_type(e) {
            Ok("NullableNumberArray"@)
        } else if is_string_type(e) {
            Ok("NullableStringArray"@)
        } else if let TypeAnnotation::TypeAliasTypeAnnotation { name } = e {
            Ok("Nullable"@ + name@ + "Array"@)
        } else if let TypeAnnotation::EnumDeclaration { name, .. } = e {
            Ok("Nullable"@ + name@ + "Array"@)
        } else {
            Err(CodegenError::UnsupportedNullableArrayType)
        }
    } else {
        Err(CodegenError::UnsupportedNullableType)
    }
}

/// The Rust type of `t`.
pub open spec fn spec_rs_type(t: TypeAnnotation) -> Result<Seq<char>, CodegenError>
    decreases t,
{
    match t {
        TypeAnnotation::BooleanTypeAnnotation => Ok("bool"@),
        TypeAnnotation::NumberTypeAnnotation
        | TypeAnnotation::FloatTypeAnnotation
        | TypeAnnotation::DoubleTypeAnnotation
        | TypeAnnotation::Int32TypeAnnotation
        | TypeAnnotation::NumberLiteralTypeAnnotation { .. } => Ok("f64"@),
        TypeAnnotation::StringTypeAnnotation
        | TypeAnnotation::StringLiteralTypeAnnotation { .. }
        | TypeAnnotation::StringLiteralUnionTypeAnnotation { .. } => Ok("String"@),
        TypeAnnotation::ArrayTypeAnnotation { element_type } => {
            if *element_type is ArrayTypeAnnotation {
                Err(CodegenError::NestedArray)
            } else {
                match spec_rs_type(*element_type) {
                    Ok(e) => Ok("Vec<"@ + e + ">"@),
                    Err(err) => Err(err),
                }
            }
        },
        TypeAnnotation::TypeAliasTypeAnnotation { name } => Ok(name@),
        TypeAnnotation::EnumDeclaration { name, .. } => Ok(name@),
        TypeAnnotation::PromiseTypeAnnotation { element_type } => match spec_rs_type(
            *element_type,
        ) {
            Ok(e) => Ok("Result<"@ + e + ", anyhow::Error>"@),
            Err(err) => Err(err),
        },
        TypeAnnotation::NullableTypeAnnotation { type_annotation } => spec_nullable_name(
            *type_annotation,
        ),
        TypeAnnotation::VoidTypeAnnotation => Ok("()"@),
        _ => Err(CodegenError::UnsupportedType),
    }
}

/// The Rust type of `t` in a cxx `extern "Rust"` declaration.
pub open spec fn spec_rs_bridge_type(t: TypeAnnotation) -> Result<Seq<char>, CodegenError> {
    match t {
        TypeAnnotation::PromiseTypeAnnotation { element_type } => match spec_rs_type(
            *element_type,
        ) {
            Ok(e) => Ok("Result<"@ + e + ">"@),
            Err(err) => Err(err),
        },
        _ => spec_rs_type(t),
    }
}

/// The Rust type of `t` in the implementation trait (the aliases of the generated
/// `types.rs`).
pub open spec fn spec_rs_impl_type(t: TypeAnnotation) -> Result<Seq<char>, CodegenError>
    decreases t,
{
    match t {
        TypeAnnotation::BooleanTypeAnnotation => Ok("Boolean"@),
        TypeAnnotation::NumberTypeAnnotation
        | TypeAnnotation::FloatTypeAnnotation
        | TypeAnnotation::DoubleTypeAnnotation
        | TypeAnnotation::Int32TypeAnnotation
        | TypeAnnotation::NumberLiteralTypeAnnotation { .. } => Ok("Number"@),
        TypeAnnotation::StringTypeAnnotation
        | TypeAnnotation::StringLiteralTypeAnnotation { .. }
        | TypeAnnotation::StringLiteralUnionTypeAnnotation { .. } => Ok("String"@),
        TypeAnnotation::ArrayTypeAnnotation { element_type } => {
            if *element_type is ArrayTypeAnnotation {
                Err(CodegenError::NestedArray)
            } else {
                match spec_rs_impl_type(*element_type) {
                    Ok(e) => Ok("Array<"@ + e + ">"@),
                    Err(err) => Err(err),
                }
            }
        },
        TypeAnnotation::TypeAliasTypeAnnotation { name } => Ok(name@),
        TypeAnnotation::EnumDeclaration { name, .. } => Ok(name@),
        TypeAnnotation::PromiseTypeAnnotation { element_type } => match spec_rs_impl_type(
            *element_type,
        ) {
            Ok(e) => Ok("Promise<"@ + e + ">"@),
            Err(err) => Err(err),
        },
        TypeAnnotation::NullableTypeAnnotation { type_annotation } => match spec_rs_impl_type(
            *type_annotation,
        ) {
            Ok(e) => Ok("Nullable<"@ + e + ">"@),
            Err(err) => Err(err),
        },
        TypeAnnotation::VoidTypeAnnotation => Ok("Void"@),
        _ => Err(CodegenError::UnsupportedType),
    }
}

/// The Rust expression for the default value of `t`.
pub open spec fn spec_rs_default_val(t: TypeAnnotation) -> Result<Seq<char>, CodegenError> {
    match t {
        TypeAnnotation::BooleanTypeAnnotation => Ok("false"@),
        TypeAnnotation::NumberTypeAnnotation
        | TypeAnnotation::FloatTypeAnnotation
        | TypeAnnotation::DoubleTypeAnnotation
        | TypeAnnotation::Int32TypeAnnotation
        | TypeAnnotation::NumberLiteralTypeAnnotation { .. } => Ok("0.0"@),
        TypeAnnotation::StringTypeAnnotation
        | TypeAnnotation::StringLiteralTypeAnnotation { .. }
        | TypeAnnotation::StringLiteralUnionTypeAnnotation { .. } => Ok("String::default()"@),
        TypeAnnotation::ArrayTypeAnnotation { .. } => Ok("Vec::default()"@),
        TypeAnnotation::EnumDeclaration { name, .. } => Ok(name@ + "::default()"@),
        TypeAnnotation::TypeAliasTypeAnnotation { name } => Ok(name@ + "::default()"@),
        _ => Err(CodegenError::UnsupportedType),
    }
}

/// `a + b` as a new string.
pub(crate) fn cat2(a: &str, b: &str) -> (r: String)
    ensures
        r@ == a@ + b@,
{
    let mut r = String::from_str(a);
    r.append(b);
    r
}

/// `a + b + c` as a new string.
pub(crate) fn cat3(a: &str, b: &str, c: &str) -> (r: String)
    ensures
        r@ == a@ + b@ + c@,
{
    let mut r = String::from_str(a);
    r.append(b);
    r.append(c);
    r
}

/// Returns the name of the nullable wrapper struct for a nullable `t`.
pub fn nullable_name(t: &TypeAnnotation) -> (r: Result<String, CodegenError>)
    ensures
        r matches Ok(s) ==> spec_nullable_name(*t) == Ok::<Seq<char>, CodegenError>(s@),
        r matches Err(e) ==> spec_nullable_name(*t) == Err::<Seq<char>, CodegenError>(e),
{
    if let TypeAnnotation::BooleanTypeAnnotation = t {
        Ok(String::from_str("NullableBoolean"))
    } else if t.is_number() {
        Ok(String::from_str("NullableNumber"))
    } else if t.is_string() {
        Ok(String::from_str("NullableString"))
    } else if let TypeAnnotation::TypeAliasTypeAnnotation { name } = t {
        Ok(cat2("Nullable", name.as_str()))
    } else if let TypeAnnotation::EnumDeclaration { name, .. } = t {
        Ok(cat2("Nullable", name.as_str()))
    } else if let TypeAnnotation::ArrayTypeAnnotation { element_type } = t {
        let e: &TypeAnnotation = &**element_type;
        if let TypeAnnotation::BooleanTypeAnnotation = e {
            Ok(String::from_str("NullableBooleanArray"))
        } else if e.is_number() {
            Ok(String::from_str("NullableNumberArray"))
        } else if e.is_string() {
            Ok(String::from_str("NullableStringArray"))
        } else if let TypeAnnotation::TypeAliasTypeAnnotation { name } = e {
            Ok(cat3("Nullable", name.as_str(), "Array"))
        } else if let TypeAnnotation::EnumDeclaration { name, .. } = e {
            Ok(cat3("Nullable", name.as_str(), "Array"))
        } else {
            Err(CodegenError::UnsupportedNullableArrayType)
        }
    } else {
        Err(CodegenError::UnsupportedNullableType)
    }
}

impl TypeAnnotation {
    /// Returns the Rust type for the given `TypeAnnotation`.
    pub fn as_rs_type(&self) -> (r: Result<RsType, CodegenError>)
        ensures
            r matches Ok(s) ==> spec_rs_type(*self) == Ok::<Seq<char>, CodegenError>(s.0@),
            r matches Err(e) ==> spec_rs_type(*self) == Err::<Seq<char>, CodegenError>(e),
        decreases self,
    {
        let s = match self {
            TypeAnnotation::BooleanTypeAnnotation => String::from_str("bool"),
            TypeAnnotation::NumberTypeAnnotation
            | TypeAnnotation::FloatTypeAnnotation
            | TypeAnnotation::DoubleTypeAnnotation
            | TypeAnnotation::Int32TypeAnnotation
            | TypeAnnotation::NumberLiteralTypeAnnotation { .. } => String::from_str("f64"),
            TypeAnnotation::StringTypeAnnotation
            | TypeAnnotation::StringLiteralTypeAnnotation { .. }
            | TypeAnnotation::StringLiteralUnionTypeAnnotation { .. } => String::from_str("String"),
            TypeAnnotation::ArrayTypeAnnotation { element_type } => {
                if let TypeAnnotation::ArrayTypeAnnotation { .. } = &**element_type {
                    return Err(CodegenError::NestedArray);
                }
                let e = element_type.as_rs_type()?;
                cat3("Vec<", e.0.as_str(), ">")
            },
            TypeAnnotation::TypeAliasTypeAnnotation { name } => copy_str(name.as_str()),
            TypeAnnotation::EnumDeclaration { name, .. } => copy_str(name.as_str()),
            TypeAnnotation::PromiseTypeAnnotation { element_type } => {
                let e = element_type.as_rs_type()?;
                cat3("Result<", e.0.as_str(), ", anyhow::Error>")
            },
            TypeAnnotation::NullableTypeAnnotation { type_annotation } => nullable_name(
                &**type_annotation,
            )?,
            TypeAnnotation::VoidTypeAnnotation => String::from_str("()"),
            _ => {
                return Err(CodegenError::UnsupportedType);
            },
        };
        Ok(RsType(s))
    }

    /// Returns the Rust type for the given `TypeAnnotation` that is used in the cxx extern
    /// function.
    pub fn as_rs_bridge_type(&self) -> (r: Result<RsBridgeType, CodegenError>)
        ensures
            r matches Ok(s) ==> spec_rs_bridge_type(*self) == Ok::<Seq<char>, CodegenError>(s.0@),
            r matches Err(e) ==> spec_rs_bridge_type(*self) == Err::<Seq<char>, CodegenError>(e),
    {
        let s = match self {
            TypeAnnotation::PromiseTypeAnnotation { element_type } => {
                let e = element_type.as_rs_type()?;
                cat3("Result<", e.0.as_str(), ">")
            },
            _ => self.as_rs_type()?.0,
        };
        Ok(RsBridgeType(s))
    }

    /// Returns the Rust type for the given `TypeAnnotation` that the implementation trait uses.
    pub fn as_rs_impl_type(&self) -> (r: Result<RsImplType, CodegenError>)
        ensures
            r matches Ok(s) ==> spec_rs_impl_type(*self) == Ok::<Seq<char>, CodegenError>(s.0@),
            r matches Err(e) ==> spec_rs_impl_type(*self) == Err::<Seq<char>, CodegenError>(e),
        decreases self,
    {
        let s = match self {
            TypeAnnotation::BooleanTypeAnnotation => String::from_str("Boolean"),
            TypeAnnotation::NumberTypeAnnotation
            | TypeAnnotation::FloatTypeAnnotation
            | TypeAnnotation::DoubleTypeAnnotation
            | TypeAnnotation::Int32TypeAnnotation
            | TypeAnnotation::NumberLiteralTypeAnnotation { .. } => String::from_str("Number"),
            TypeAnnotation::StringTypeAnnotation
            | TypeAnnotation::StringLiteralTypeAnnotation { .. }
            | TypeAnnotation::StringLiteralUnionTypeAnnotation { .. } => String::from_str("String"),
            TypeAnnotation::ArrayTypeAnnotation { element_type } => {
                if let TypeAnnotation::ArrayTypeAnnotation { .. } = &**element_type {
                    return Err(CodegenError::NestedArray);
                }
                let e = element_type.as_rs_impl_type()?;
                cat3("Array<", e.0.as_str(), ">")
            },
            TypeAnnotation::TypeAliasTypeAnnotation { name } => copy_str(name.as_str()),
            TypeAnnotation::EnumDeclaration { name, .. } => copy_str(name.as_str()),
            TypeAnnotation::PromiseTypeAnnotation { element_type } => {
                let e = element_type.as_rs_impl_type()?;
                cat3("Promise<", e.0.as_str(), ">")
            },
            TypeAnnotation::NullableTypeAnnotation { type_annotation } => {
                let e = type_annotation.as_rs_impl_type()?;
                cat3("Nullable<", e.0.as_str(), ">")
            },
            TypeAnnotation::VoidTypeAnnotation => String::from_str("Void"),
            _ => {
                return Err(CodegenError::UnsupportedType);
            },
        };
        Ok(RsImplType(s))
    }

    /// Returns the Rust expression for the default value of the type.
    pub fn as_rs_default_val(&self) -> (r: Result<String, CodegenError>)
        ensures
            r matches Ok(s) ==> spec_rs_default_val(*self) == Ok::<Seq<char>, CodegenError>(s@),
            r matches Err(e) ==> spec_rs_default_val(*self) == Err::<Seq<char>, CodegenError>(e),
    {
        match self {
            TypeAnnotation::BooleanTypeAnnotation => Ok(String::from_str("false")),
            TypeAnnotation::NumberTypeAnnotation
            | TypeAnnotation::FloatTypeAnnotation
            | TypeAnnotation::DoubleTypeAnnotation
            | TypeAnnotation::Int32TypeAnnotation
            | TypeAnnotation::NumberLiteralTypeAnnotation { .. } => Ok(String::from_str("0.0")),
            TypeAnnotation::StringTypeAnnotation
            | TypeAnnotation::StringLiteralTypeAnnotation { .. }
            | TypeAnnotation::StringLiteralUnionTypeAnnotation { .. } => Ok(
                String::from_str("String::default()"),
            ),
            TypeAnnotation::ArrayTypeAnnotation { .. } => Ok(String::from_str("Vec::default()")),
            TypeAnnotation::EnumDeclaration { name, .. } => Ok(cat2(name.as_str(), "::default()")),
            TypeAnnotation::TypeAliasTypeAnnotation { name } => Ok(
                cat2(name.as_str(), "::default()"),
            ),
            _ => Err(CodegenError::UnsupportedType),
        }
    }
}

} // verus!

verus! {

/// Whether `t` is an inline object or a function type: the original stops with a panic
/// when such a type is given to a parameter.
pub open spec fn is_unsupported_param_type(t: TypeAnnotation) -> bool {
    ||| t is ObjectTypeAnnotation
    ||| t is GenericObjectTypeAnnotation
    ||| t is FunctionTypeAnnotation
}

/// `name: T` with `T` the Rust type of the parameter.
pub open spec fn spec_param_cxx_sig(p: Parameter) -> Result<Seq<char>, CodegenError> {
    match spec_rs_type(*p.type_annotation) {
        Ok(t) => Ok(p.name@ + ": "@ + t),
        Err(e) => Err(e),
    }
}

/// `name: T` with `T` the implementation trait's type of the parameter.
pub open spec fn spec_param_impl_sig(p: Parameter) -> Result<Seq<char>, CodegenError> {
    match spec_rs_impl_type(*p.type_annotation) {
        Ok(t) => Ok(p.name@ + ": "@ + t),
        Err(e) => Err(e),
    }
}

/// The implementation signatures of `ps`, or the first error in order.
pub open spec fn spec_params_impl_sigs(ps: Seq<Parameter>) -> Result<Seq<Seq<char>>, CodegenError>
    decreases ps.len(),
{
    if ps.len() == 0 {
        Ok(Seq::empty())
    } else {
        match spec_params_impl_sigs(ps.drop_last()) {
            Err(e) => Err(e),
            Ok(prev) => match spec_param_impl_sig(ps.last()) {
                Ok(s) => Ok(prev.push(s)),
                Err(e) => Err(e),
            },
        }
    }
}

/// The bridge signatures of `ps`, or the first error in order.
pub open spec fn spec_params_cxx_sigs(ps: Seq<Parameter>) -> Result<Seq<Seq<char>>, CodegenError>
    decreases ps.len(),
{
    if ps.len() == 0 {
        Ok(Seq::empty())
    } else {
        match spec_params_cxx_sigs(ps.drop_last()) {
            Err(e) => Err(e),
            Ok(prev) => match spec_param_cxx_sig(ps.last()) {
                Ok(s) => Ok(prev.push(s)),
                Err(e) => Err(e),
            },
        }
    }
}

/// Processing `ps` in order with `sig` reaches no parameter of an unsupported type before
/// an error stops it.
pub open spec fn params_reach_no_panic(ps: Seq<Parameter>, impl_sig: bool) -> bool {
    forall|i: int|
        0 <= i < ps.len() && is_unsupported_param_type(*(#[trigger] ps[i]).type_annotation) ==> (
        if impl_sig {
            spec_params_impl_sigs(ps.take(i)) is Err
        } else {
            spec_params_cxx_sigs(ps.take(i)) is Err
        })
}

impl Parameter {
    /// Returns `name: T` for the cxx bridge declaration.
    pub fn as_cxx_sig(&self) -> (r: Result<String, CodegenError>)
        requires
            !is_unsupported_param_type(*self.type_annotation),
        ensures
            r matches Ok(s) ==> spec_param_cxx_sig(*self) == Ok::<Seq<char>, CodegenError>(s@),
            r matches Err(e) ==> spec_param_cxx_sig(*self) == Err::<Seq<char>, CodegenError>(e),
    {
        let t = self.type_annotation.as_rs_type()?;
        Ok(cat3(self.name.as_str(), ": ", t.0.as_str()))
    }

    /// Returns `name: T` for the implementation trait.
    pub fn as_impl_sig(&self) -> (r: Result<String, CodegenError>)
        requires
            !is_unsupported_param_type(*self.type_annotation),
        ensures
            r matches Ok(s) ==> spec_param_impl_sig(*self) == Ok::<Seq<char>, CodegenError>(s@),
            r matches Err(e) ==> spec_param_impl_sig(*self) == Err::<Seq<char>, CodegenError>(e),
    {
        let t = self.type_annotation.as_rs_impl_type()?;
        Ok(cat3(self.name.as_str(), ": ", t.0.as_str()))
    }
}

proof fn lemma_params_sigs_err_extends(ps: Seq<Parameter>, k: int, impl_sig: bool)
    requires
        0 <= k <= ps.len(),
    ensures
        impl_sig ==> (spec_params_impl_sigs(ps.take(k)) is Err ==> spec_params_impl_sigs(ps) == spec_params_impl_sigs(ps.take(k))),
        !impl_sig ==> (spec_params_cxx_sigs(ps.take(k)) is Err ==> spec_params_cxx_sigs(ps) == spec_params_cxx_sigs(ps.take(k))),
    decreases ps.len() - k,
{
    if k < ps.len() {
        let t = ps.take(k + 1);
        assert(t.drop_last() =~= ps.take(k));
        lemma_params_sigs_err_extends(ps, k + 1, impl_sig);
    } else {
        assert(ps.take(k) =~= ps);
    }
}

/// The signatures of `ps` (bridge ones, or with `impl_sig` the implementation trait's), each
/// computed in order until the first error.
pub fn params_sigs(ps: &Vec<Parameter>, impl_sig: bool) -> (r: Result<Vec<String>, CodegenError>)
    requires
        params_reach_no_panic(ps@, impl_sig),
    ensures
        impl_sig ==> (r matches Ok(v) ==> spec_params_impl_sigs(ps@) == Ok::<Seq<Seq<char>>, CodegenError>(crate::text::views(v@))),
        impl_sig ==> (r matches Err(e) ==> spec_params_impl_sigs(ps@) == Err::<Seq<Seq<char>>, CodegenError>(e)),
        !impl_sig ==> (r matches Ok(v) ==> spec_params_cxx_sigs(ps@) == Ok::<Seq<Seq<char>>, CodegenError>(crate::text::views(v@))),
        !impl_sig ==> (r matches Err(e) ==> spec_params_cxx_sigs(ps@) == Err::<Seq<Seq<char>>, CodegenError>(e)),
{
    let mut out: Vec<String> = Vec::new();
    let n = ps.len();
    let mut i: usize = 0;
    assert(crate::text::views(out@) =~= Seq::<Seq<char>>::empty());
    assert(ps@.take(0).len() == 0);
    while i < n
        invariant
            n == ps@.len(),
            i <= n,
            params_reach_no_panic(ps@, impl_sig),
            impl_sig ==> spec_params_impl_sigs(ps@.take(i as int)) == Ok::<Seq<Seq<char>>, CodegenError>(crate::text::views(out@)),
            !impl_sig ==> spec_params_cxx_sigs(ps@.take(i as int)) == Ok::<Seq<Seq<char>>, CodegenError>(crate::text::views(out@)),
        decreases n - i,
    {
        let ghost t = ps@.take(i + 1);
        assert(t.drop_last() =~= ps@.take(i as int));
        assert(t.last() == ps@[i as int]);
        let p = &ps[i];
        proof {
            if is_unsupported_param_type(*p.type_annotation) {
                assert(is_unsupported_param_type(*ps@[i as int].type_annotation));
            }
        }
        let s = if impl_sig { p.as_impl_sig() } else { p.as_cxx_sig() };
        match s {
            Ok(s) => {
                let ghost before = out@;
                out.push(s);
                assert(crate::text::views(out@) =~= crate::text::views(before).push(s@));
            },
            Err(e) => {
                proof {
                    lemma_params_sigs_err_extends(ps@, i + 1, impl_sig);
                    assert(ps@.take(n as int) =~= ps@);
                }
                return Err(e);
            },
        }
        i = i + 1;
    }
    assert(ps@.take(n as int) =~= ps@);
    Ok(out)
}

} // verus!

verus! {

/// ` -> T`, or nothing where `T` is `()`.
pub open spec fn spec_ret_annotation(t: Seq<char>) -> Seq<char> {
    if t == "()"@ {
        Seq::empty()
    } else {
        " -> "@ + t
    }
}

pub fn ret_annotation(t: &String) -> (r: String)
    ensures
        r@ == spec_ret_annotation(t@),
{
    if *t == String::from_str("()") {
        String::new()
    } else {
        cat2(" -> ", t.as_str())
    }
}

/// The parameters of a function type.
pub open spec fn fn_params(f: FunctionSpec) -> Seq<Parameter> {
    match *f.type_annotation {
        TypeAnnotation::FunctionTypeAnnotation { params, .. } => params@,
        _ => Seq::empty(),
    }
}

/// The return type of a function type.
pub open spec fn fn_ret(f: FunctionSpec) -> TypeAnnotation {
    match *f.type_annotation {
        TypeAnnotation::FunctionTypeAnnotation { return_type_annotation, .. } => *return_type_annotation,
        _ => TypeAnnotation::VoidTypeAnnotation,
    }
}

/// Inputs on which `FunctionSpec::as_impl_sig` returns: a function type whose parameters do
/// not reach an unsupported parameter type once the return type is known.
pub open spec fn impl_sig_defined(f: FunctionSpec) -> bool {
    &&& *f.type_annotation is FunctionTypeAnnotation
    &&& (spec_rs_impl_type(fn_ret(f)) is Ok ==> params_reach_no_panic(fn_params(f), true))
}

/// Inputs on which the signature with the Rust types is computed without a panic.
pub open spec fn rs_sig_defined(f: FunctionSpec) -> bool {
    &&& *f.type_annotation is FunctionTypeAnnotation
    &&& (spec_rs_type(fn_ret(f)) is Ok ==> params_reach_no_panic(fn_params(f), false))
}

/// `fn name(params) -> Ret` with the Rust types of the parameters and the return type
/// (`name` in snake case).
pub open spec fn spec_fn_rs_sig(f: FunctionSpec) -> Result<Seq<char>, CodegenError> {
    match spec_rs_type(fn_ret(f)) {
        Err(e) => Err(e),
        Ok(ret) => match spec_params_cxx_sigs(fn_params(f)) {
            Err(e) => Err(e),
            Ok(ps) => Ok(
                "fn "@ + crate::case::spec_snake_case(f.name@) + "("@ + crate::text::join(
                    ps,
                    ", "@,
                ) + ")"@ + spec_ret_annotation(ret),
            ),
        },
    }
}

/// `fn name(params) -> Ret` of the implementation trait (`name` in snake case).
pub open spec fn spec_fn_impl_sig(f: FunctionSpec) -> Result<Seq<char>, CodegenError> {
    match spec_rs_impl_type(fn_ret(f)) {
        Err(e) => Err(e),
        Ok(ret) => match spec_params_impl_sigs(fn_params(f)) {
            Err(e) => Err(e),
            Ok(ps) => Ok(
                "fn "@ + crate::case::spec_snake_case(f.name@) + "("@ + crate::text::join(
                    ps,
                    ", "@,
                ) + ")"@ + spec_ret_annotation(ret),
            ),
        },
    }
}

impl FunctionSpec {
    /// Number of parameters of the method.
    pub fn args_count(&self) -> (r: Result<usize, CodegenError>)
        ensures
            r matches Ok(n) ==> *self.type_annotation is FunctionTypeAnnotation && n == fn_params(
                *self,
            ).len(),
            r matches Err(e) ==> !(*self.type_annotation is FunctionTypeAnnotation) && e
                == CodegenError::NotAFunction,
    {
        if let TypeAnnotation::FunctionTypeAnnotation { params, .. } = &*self.type_annotation {
            Ok(params.len())
        } else {
            Err(CodegenError::NotAFunction)
        }
    }

    /// The method's signature with the Rust types (`fn multiply(a: f64, b: f64) -> f64`).
    pub(crate) fn rs_sig(&self) -> (r: Result<String, CodegenError>)
        requires
            rs_sig_defined(*self),
        ensures
            r matches Ok(s) ==> spec_fn_rs_sig(*self) == Ok::<Seq<char>, CodegenError>(s@),
            r matches Err(e) ==> spec_fn_rs_sig(*self) == Err::<Seq<char>, CodegenError>(e),
    {
        match &*self.type_annotation {
            TypeAnnotation::FunctionTypeAnnotation { return_type_annotation, params } => {
                let return_type = return_type_annotation.as_rs_type()?.0;
                let sigs = params_sigs(params, false)?;
                let params_sig = crate::text::join_strings(&sigs, ", ");
                let fn_name = crate::case::snake_case(self.name.as_str());
                let ret = ret_annotation(&return_type);
                let mut out = String::from_str("fn ");
                out.append(fn_name.as_str());
                out.append("(");
                out.append(params_sig.as_str());
                out.append(")");
                out.append(ret.as_str());
                Ok(out)
            },
            _ => Err(CodegenError::NotAFunction),
        }
    }

    /// The method's signature in the implementation trait.
    pub fn as_impl_sig(&self) -> (r: Result<String, CodegenError>)
        requires
            impl_sig_defined(*self),
        ensures
            r matches Ok(s) ==> spec_fn_impl_sig(*self) == Ok::<Seq<char>, CodegenError>(s@),
            r matches Err(e) ==> spec_fn_impl_sig(*self) == Err::<Seq<char>, CodegenError>(e),
    {
        match &*self.type_annotation {
            TypeAnnotation::FunctionTypeAnnotation { return_type_annotation, params } => {
                let return_type = return_type_annotation.as_rs_impl_type()?.0;
                let sigs = params_sigs(params, true)?;
                let params_sig = crate::text::join_strings(&sigs, ", ");
                let fn_name = crate::case::snake_case(self.name.as_str());
                let ret = ret_annotation(&return_type);
                let mut out = String::from_str("fn ");
                out.append(fn_name.as_str());
                out.append("(");
                out.append(params_sig.as_str());
                out.append(")");
                out.append(ret.as_str());
                Ok(out)
            },
            _ => Err(CodegenError::NotAFunction),
        }
    }
}

} // verus!

verus! {

/// The definitions that a schema adds to the cxx bridge module.
pub struct RsCxxBridge {
    /// `struct` definitions of the schema's object aliases.
    pub struct_defs: Vec<String>,
    /// `enum` definitions of the schema's enums.
    pub enum_defs: Vec<String>,
    /// `extern "Rust"` declarations of the methods.
    pub func_extern_sigs: Vec<String>,
    /// The functions that forward the declarations to the implementation.
    pub func_impls: Vec<String>,
}

/// Whether some parameter is optional.
pub open spec fn has_optional_param(ps: Seq<Parameter>) -> bool {
    exists|i: int| 0 <= i < ps.len() && (#[trigger] ps[i]).optional
}

/// The first optional parameter, if there is one.
pub open spec fn first_optional_param(ps: Seq<Parameter>) -> Option<Parameter>
    decreases ps.len(),
{
    if ps.len() == 0 {
        None
    } else if ps[0].optional {
        Some(ps[0])
    } else {
        first_optional_param(ps.drop_first())
    }
}

proof fn lemma_first_optional_param(ps: Seq<Parameter>, i: int)
    requires
        0 <= i < ps.len(),
        ps[i].optional,
        forall|j: int| 0 <= j < i ==> !(#[trigger] ps[j]).optional,
    ensures
        first_optional_param(ps) == Some(ps[i]),
    decreases i,
{
    if i > 0 {
        let t = ps.drop_first();
        assert(!ps[0].optional);
        assert forall|j: int| 0 <= j < i - 1 implies !(#[trigger] t[j]).optional by {
            assert(t[j] == ps[j + 1]);
        }
        assert(t[i - 1] == ps[i]);
        lemma_first_optional_param(t, i - 1);
    }
}

/// The names of the parameters joined by `, `.
pub open spec fn spec_param_names(ps: Seq<Parameter>) -> Seq<char> {
    crate::text::join(ps.map_values(|p: Parameter| p.name@), ", "@)
}

/// What a method adds to the bridge before its parameters are rendered: the checks that
/// come first and the two return types.
pub open spec fn method_bridge_pre(f: FunctionSpec) -> Result<(Seq<char>, Seq<char>), CodegenError> {
    if !(*f.type_annotation is FunctionTypeAnnotation) {
        Err(CodegenError::NotAFunction)
    } else if f.optional {
        Err(CodegenError::OptionalMethod(f.name))
    } else if has_optional_param(fn_params(f)) {
        Err(CodegenError::OptionalParameter(first_optional_param(fn_params(f))->Some_0.name))
    } else {
        match spec_rs_type(fn_ret(f)) {
            Err(e) => Err(e),
            Ok(ret) => match spec_rs_bridge_type(fn_ret(f)) {
                Err(e) => Err(e),
                Ok(ret_extern) => Ok((ret, ret_extern)),
            },
        }
    }
}

/// The extern declaration and the forwarding function of method `f` of module `m`:
///
/// ```text
/// #[cxx_name = "myFunc"]
/// fn my_module_my_func(arg: f64) -> f64;
///
/// fn my_module_my_func(arg: f64) -> f64 {
///     MyModule::my_func(arg)
/// }
/// ```
pub open spec fn spec_method_bridge(m: Seq<char>, f: FunctionSpec) -> Result<(Seq<char>, Seq<char>), CodegenError> {
    match method_bridge_pre(f) {
        Err(e) => Err(e),
        Ok((ret, ret_extern)) => match spec_params_cxx_sigs(fn_params(f)) {
            Err(e) => Err(e),
            Ok(sigs) => {
                let params_sig = crate::text::join(sigs, ", "@);
                let prefixed = crate::case::spec_snake_case(m) + "_"@ + crate::case::spec_snake_case(f.name@);
                let extern_func = "#[cxx_name = \""@ + f.name@ + "\"]\nfn "@ + prefixed + "("@ + params_sig + ")"@
                    + spec_ret_annotation(ret_extern) + ";"@;
                let impl_func = "fn "@ + prefixed + "("@ + params_sig + ")"@ + spec_ret_annotation(ret)
                    + " {\n    "@ + crate::case::spec_pascal_case(m) + "::"@ + crate::case::spec_snake_case(f.name@)
                    + "("@ + spec_param_names(fn_params(f)) + ")\n}"@;
                Ok((extern_func, impl_func))
            },
        },
    }
}

/// Inputs on which rendering method `f` does not reach an unsupported parameter type.
pub open spec fn method_bridge_no_panic(f: FunctionSpec) -> bool {
    method_bridge_pre(f) is Ok ==> params_reach_no_panic(fn_params(f), false)
}

/// The bridge parts of the methods `fs` in order, or the first error.
pub open spec fn spec_methods_bridge(m: Seq<char>, fs: Seq<FunctionSpec>) -> Result<(Seq<Seq<char>>, Seq<Seq<char>>), CodegenError>
    decreases fs.len(),
{
    if fs.len() == 0 {
        Ok((Seq::empty(), Seq::empty()))
    } else {
        match spec_methods_bridge(m, fs.drop_last()) {
            Err(e) => Err(e),
            Ok((ex, im)) => match spec_method_bridge(m, fs.last()) {
                Err(e) => Err(e),
                Ok((x, y)) => Ok((ex.push(x), im.push(y))),
            },
        }
    }
}

/// Inputs on which rendering the methods `fs` in order reaches no unsupported parameter type.
pub open spec fn methods_bridge_no_panic(m: Seq<char>, fs: Seq<FunctionSpec>) -> bool {
    forall|i: int|
        0 <= i < fs.len() && spec_methods_bridge(m, #[trigger] fs.take(i)) is Ok ==> method_bridge_no_panic(fs[i])
}

/// The names and parameter names joined, for the forwarding call.
fn param_names(ps: &Vec<Parameter>) -> (r: String)
    ensures
        r@ == spec_param_names(ps@),
{
    let mut names: Vec<String> = Vec::new();
    let n = ps.len();
    let mut i: usize = 0;
    while i < n
        invariant
            n == ps@.len(),
            i <= n,
            crate::text::views(names@) == ps@.take(i as int).map_values(|p: Parameter| p.name@),
        decreases n - i,
    {
        let ghost before = names@;
        names.push(crate::text::copy_str(ps[i].name.as_str()));
        assert(crate::text::views(names@) =~= crate::text::views(before).push(ps@[i as int].name@));
        i = i + 1;
        assert(ps@.take(i as int).map_values(|p: Parameter| p.name@) =~= ps@.take(i - 1).map_values(
            |p: Parameter| p.name@,
        ).push(ps@[i - 1].name@));
    }
    assert(ps@.take(n as int) =~= ps@);
    crate::text::join_strings(&names, ", ")
}

/// Renders the extern declaration and the forwarding function of one method.
pub fn method_bridge(m: &String, f: &FunctionSpec) -> (r: Result<(String, String), CodegenError>)
    requires
        method_bridge_no_panic(*f),
    ensures
        r matches Ok((x, y)) ==> spec_method_bridge(m@, *f) == Ok::<(Seq<char>, Seq<char>), CodegenError>((x@, y@)),
        r matches Err(e) ==> spec_method_bridge(m@, *f) == Err::<(Seq<char>, Seq<char>), CodegenError>(e),
{
    match &*f.type_annotation {
        TypeAnnotation::FunctionTypeAnnotation { return_type_annotation, params } => {
            if f.optional {
                return Err(CodegenError::OptionalMethod(f.name.clone()));
            }
            let n = params.len();
            let mut i: usize = 0;
            assert(fn_params(*f) == params@);
            while i < n
                invariant
                    n == params@.len(),
                    i <= n,
                    fn_params(*f) == params@,
                    !f.optional,
                    *f.type_annotation is FunctionTypeAnnotation,
                    forall|j: int| 0 <= j < i ==> !(#[trigger] params@[j]).optional,
                decreases n - i,
            {
                if params[i].optional {
                    assert(fn_params(*f) == params@);
                    assert(fn_params(*f)[i as int].optional);
                    proof {
                        lemma_first_optional_param(params@, i as int);
                    }
                    return Err(CodegenError::OptionalParameter(params[i].name.clone()));
                }
                i = i + 1;
            }
            assert(fn_params(*f) == params@);
            assert(!has_optional_param(fn_params(*f)));
            let ret_type = return_type_annotation.as_rs_type()?.0;
            let ret_extern_type = return_type_annotation.as_rs_bridge_type()?.0;
            let sigs = params_sigs(params, false)?;
            let params_sig = crate::text::join_strings(&sigs, ", ");
            let impl_name = crate::case::pascal_case(m.as_str());
            let mod_name = crate::case::snake_case(m.as_str());
            let fn_name = crate::case::snake_case(f.name.as_str());
            let fn_args = param_names(params);
            let mut prefixed = mod_name;
            prefixed.append("_");
            prefixed.append(fn_name.as_str());
            let ret_extern = ret_annotation(&ret_extern_type);
            let ret = ret_annotation(&ret_type);

            let mut ex = String::from_str("#[cxx_name = \"");
            ex.append(f.name.as_str());
            ex.append("\"]\nfn ");
            ex.append(prefixed.as_str());
            ex.append("(");
            ex.append(params_sig.as_str());
            ex.append(")");
            ex.append(ret_extern.as_str());
            ex.append(";");

            let mut im = String::from_str("fn ");
            im.append(prefixed.as_str());
            im.append("(");
            im.append(params_sig.as_str());
            im.append(")");
            im.append(ret.as_str());
            im.append(" {\n    ");
            im.append(impl_name.as_str());
            im.append("::");
            im.append(fn_name.as_str());
            im.append("(");
            im.append(fn_args.as_str());
            im.append(")\n}");
            Ok((ex, im))
        },
        _ => Err(CodegenError::NotAFunction),
    }
}

} // verus!

verus! {

/// `name: T,` for a property of an object alias, `T` its bridge type.
pub open spec fn spec_alias_prop(p: crate::schema::AliasProperty) -> Result<Seq<char>, CodegenError> {
    match spec_rs_bridge_type(*p.type_annotation) {
        Ok(t) => Ok(p.name@ + ": "@ + t + ","@),
        Err(e) => Err(e),
    }
}

/// The property lines of an alias in order, or the first error.
pub open spec fn spec_alias_props(ps: Seq<crate::schema::AliasProperty>) -> Result<Seq<Seq<char>>, CodegenError>
    decreases ps.len(),
{
    if ps.len() == 0 {
        Ok(Seq::empty())
    } else {
        match spec_alias_props(ps.drop_last()) {
            Err(e) => Err(e),
            Ok(prev) => match spec_alias_prop(ps.last()) {
                Ok(s) => Ok(prev.push(s)),
                Err(e) => Err(e),
            },
        }
    }
}

/// The cxx bridge `struct` of an object alias:
///
/// ```text
/// struct MyStruct {
///     foo: String,
///     bar: f64,
/// }
/// ```
pub open spec fn spec_alias_struct_def(name: Seq<char>, alias: crate::schema::Alias) -> Result<Seq<char>, CodegenError> {
    if alias.kind@ != "ObjectTypeAnnotation"@ {
        Err(CodegenError::AliasNotObject(alias.kind))
    } else {
        match spec_alias_props(alias.properties@) {
            Err(e) => Err(e),
            Ok(props) => Ok(
                "struct "@ + name + " {\n"@ + crate::text::spec_indent(
                    crate::text::join(props, "\n"@),
                    4,
                ) + "\n}"@,
            ),
        }
    }
}

pub open spec fn spec_enum_member_def(m: crate::schema::EnumMember) -> Seq<char> {
    m.name@ + ","@
}

/// The cxx bridge `enum` of an enum:
///
/// ```text
/// enum MyEnum {
///     Foo,
///     Bar,
/// }
/// ```
pub open spec fn spec_enum_def(e: crate::schema::Enum) -> Result<Seq<char>, CodegenError> {
    match e.members {
        None => Err(CodegenError::EnumMembersRequired),
        Some(ms) => Ok(
            "enum "@ + e.name@ + " {\n"@ + crate::text::spec_indent(
                crate::text::join(
                    ms@.map_values(|m: crate::schema::EnumMember| spec_enum_member_def(m)),
                    "\n"@,
                ),
                4,
            ) + "\n}"@,
        ),
    }
}

/// Renders the cxx bridge `struct` of an object alias.
pub fn alias_struct_def(name: &String, alias: &crate::schema::Alias) -> (r: Result<String, CodegenError>)
    ensures
        r matches Ok(s) ==> spec_alias_struct_def(name@, *alias) == Ok::<Seq<char>, CodegenError>(s@),
        r matches Err(e) ==> spec_alias_struct_def(name@, *alias) == Err::<Seq<char>, CodegenError>(e),
{
    if !(alias.kind == String::from_str("ObjectTypeAnnotation")) {
        return Err(CodegenError::AliasNotObject(alias.kind.clone()));
    }
    let ps = &alias.properties;
    let n = ps.len();
    let mut props: Vec<String> = Vec::new();
    let mut i: usize = 0;
    assert(crate::text::views(props@) =~= Seq::<Seq<char>>::empty());
    assert(ps@.take(0).len() == 0);
    while i < n
        invariant
            n == ps@.len(),
            i <= n,
            spec_alias_props(ps@.take(i as int)) == Ok::<Seq<Seq<char>>, CodegenError>(crate::text::views(props@)),
            alias.kind@ == "ObjectTypeAnnotation"@,
            ps@ == alias.properties@,
        decreases n - i,
    {
        let ghost t = ps@.take(i + 1);
        assert(t.drop_last() =~= ps@.take(i as int));
        assert(t.last() == ps@[i as int]);
        let p = &ps[i];
        match p.type_annotation.as_rs_bridge_type() {
            Ok(ty) => {
                let mut line = crate::text::copy_str(p.name.as_str());
                line.append(": ");
                line.append(ty.0.as_str());
                line.append(",");
                let ghost before = props@;
                props.push(line);
                assert(crate::text::views(props@) =~= crate::text::views(before).push(line@));
            },
            Err(e) => {
                proof {
                    lemma_alias_props_err_extends(ps@, i + 1);
                    assert(ps@.take(n as int) =~= ps@);
                }
                return Err(e);
            },
        }
        i = i + 1;
    }
    assert(ps@.take(n as int) =~= ps@);
    let joined = crate::text::join_strings(&props, "\n");
    let body = crate::text::indent_str(joined, 4);
    let mut out = String::from_str("struct ");
    out.append(name.as_str());
    out.append(" {\n");
    out.append(body.as_str());
    out.append("\n}");
    Ok(out)
}

proof fn lemma_alias_props_err_extends(ps: Seq<crate::schema::AliasProperty>, k: int)
    requires
        0 <= k <= ps.len(),
    ensures
        spec_alias_props(ps.take(k)) is Err ==> spec_alias_props(ps) == spec_alias_props(ps.take(k)),
    decreases ps.len() - k,
{
    if k < ps.len() {
        assert(ps.take(k + 1).drop_last() =~= ps.take(k));
        lemma_alias_props_err_extends(ps, k + 1);
    } else {
        assert(ps.take(k) =~= ps);
    }
}

/// The variant line of member `k`: `    Name,`.
pub open spec fn variant_line(ms: Seq<crate::schema::EnumMember>, k: int) -> Seq<char> {
    "    "@ + ms[k].name@ + ","@
}

/// Whether no member name holds a line break.
pub open spec fn member_names_single_line(ms: Seq<crate::schema::EnumMember>) -> bool {
    forall|k: int| 0 <= k < ms.len() ==> crate::text::single_line(#[trigger] ms[k].name@)
}

/// An enum with members becomes `enum Name {`, then one line `    Member,` per member in the
/// members' order, then `}`; an enum without members is refused. (Member names are single
/// lines.)
pub proof fn lemma_enum_def_lines(e: crate::schema::Enum)
    requires
        e.members matches Some(ms) ==> member_names_single_line(ms@),
    ensures
        e.members is None ==> spec_enum_def(e) == Err::<Seq<char>, CodegenError>(CodegenError::EnumMembersRequired),
        e.members matches Some(ms) ==> spec_enum_def(e) == Ok::<Seq<char>, CodegenError>(
            "enum "@ + e.name@ + " {\n"@ + crate::text::join(Seq::new(ms@.len(), |k: int| variant_line(ms@, k)), seq!['\n'])
                + "\n}"@,
        ),
{
    if let Some(ms) = e.members {
        let d = ms@.map_values(|m: crate::schema::EnumMember| spec_enum_member_def(m));
        reveal_strlit(",");
        reveal_strlit("    ");
        reveal_strlit("\n");
        assert("\n"@ =~= seq!['\n']);
        assert forall|k: int| 0 <= k < d.len() implies crate::text::plain_line(#[trigger] d[k]) by {
            let n = ms@[k].name@;
            assert(crate::text::single_line(n));
            assert(d[k] == n + ","@);
            assert forall|i: int| 0 <= i < d[k].len() implies d[k][i] != '\n' by {
                if i < n.len() {
                    assert(d[k][i] == n[i]);
                }
            }
            assert(d[k].last() == ',');
            assert(!crate::text::is_ws(d[k][d[k].len() - 1]));
        }
        crate::text::lemma_indent_join(d, 4);
        reveal_strlit("    ");
        assert(crate::text::spaces(4) =~= "    "@);
        assert forall|k: int| 0 <= k < d.len() implies crate::text::spaces(4) + d[k] == variant_line(ms@, k) by {
            assert(d[k] == ms@[k].name@ + ","@);
            assert(crate::text::spaces(4) + d[k] =~= variant_line(ms@, k));
        }
        assert(d.map_values(|l: Seq<char>| crate::text::spaces(4) + l) =~= Seq::new(ms@.len(), |k: int| variant_line(ms@, k)));
    }
}

/// Renders the cxx bridge `enum` of an enum.
pub fn enum_def(e: &crate::schema::Enum) -> (r: Result<String, CodegenError>)
    ensures
        r matches Ok(s) ==> spec_enum_def(*e) == Ok::<Seq<char>, CodegenError>(s@),
        r matches Err(err) ==> spec_enum_def(*e) == Err::<Seq<char>, CodegenError>(err),
        e.members is None ==> r matches Err(CodegenError::EnumMembersRequired),
        e.members matches Some(ms) ==> (member_names_single_line(ms@) ==> (r matches Ok(s) && s@ == "enum "@ + e.name@
            + " {\n"@ + crate::text::join(Seq::new(ms@.len(), |k: int| variant_line(ms@, k)), seq!['\n']) + "\n}"@)),
{
    proof {
        if let Some(ms) = &e.members {
            if member_names_single_line(ms@) {
                lemma_enum_def_lines(*e);
            }
        }
    }
    match &e.members {
        None => Err(CodegenError::EnumMembersRequired),
        Some(ms) => {
            let n = ms.len();
            let mut defs: Vec<String> = Vec::new();
            let mut i: usize = 0;
            while i < n
                invariant
                    n == ms@.len(),
                    i <= n,
                    crate::text::views(defs@) == ms@.take(i as int).map_values(
                        |m: crate::schema::EnumMember| spec_enum_member_def(m),
                    ),
                decreases n - i,
            {
                let d = cat2(ms[i].name.as_str(), ",");
                let ghost before = defs@;
                defs.push(d);
                assert(crate::text::views(defs@) =~= crate::text::views(before).push(d@));
                i = i + 1;
                assert(ms@.take(i as int).map_values(|m: crate::schema::EnumMember| spec_enum_member_def(m))
                    =~= ms@.take(i - 1).map_values(|m: crate::schema::EnumMember| spec_enum_member_def(m)).push(
                    spec_enum_member_def(ms@[i - 1]),
                ));
            }
            assert(ms@.take(n as int) =~= ms@);
            let joined = crate::text::join_strings(&defs, "\n");
            let body = crate::text::indent_str(joined, 4);
            let mut out = String::from_str("enum ");
            out.append(e.name.as_str());
            out.append(" {\n");
            out.append(body.as_str());
            out.append("\n}");
            Ok(out)
        },
    }
}

} // verus!

verus! {

/// The `struct` definitions of the alias entries in order, or the first error.
pub open spec fn spec_alias_defs(es: Seq<(String, crate::schema::Alias)>) -> Result<Seq<Seq<char>>, CodegenError>
    decreases es.len(),
{
    if es.len() == 0 {
        Ok(Seq::empty())
    } else {
        match spec_alias_defs(es.drop_last()) {
            Err(e) => Err(e),
            Ok(prev) => match spec_alias_struct_def(es.last().0@, es.last().1) {
                Ok(s) => Ok(prev.push(s)),
                Err(e) => Err(e),
            },
        }
    }
}

/// The `enum` definitions of the enum entries in order, or the first error.
pub open spec fn spec_enum_defs(es: Seq<(String, crate::schema::Enum)>) -> Result<Seq<Seq<char>>, CodegenError>
    decreases es.len(),
{
    if es.len() == 0 {
        Ok(Seq::empty())
    } else {
        match spec_enum_defs(es.drop_last()) {
            Err(e) => Err(e),
            Ok(prev) => match spec_enum_def(es.last().1) {
                Ok(s) => Ok(prev.push(s)),
                Err(e) => Err(e),
            },
        }
    }
}

/// The bridge of a schema: (struct definitions, enum definitions, extern declarations,
/// forwarding functions), the methods rendered first, then the aliases, then the enums.
pub open spec fn spec_rs_cxx_bridge(s: crate::schema::Schema) -> Result<(Seq<Seq<char>>, Seq<Seq<char>>, Seq<Seq<char>>, Seq<Seq<char>>), CodegenError> {
    match spec_methods_bridge(s.module_name@, s.spec.methods@) {
        Err(e) => Err(e),
        Ok((ex, im)) => match spec_alias_defs(s.alias_map@) {
            Err(e) => Err(e),
            Ok(structs) => match spec_enum_defs(s.enum_map@) {
                Err(e) => Err(e),
                Ok(enums) => Ok((structs, enums, ex, im)),
            },
        },
    }
}

proof fn lemma_methods_bridge_err_extends(m: Seq<char>, fs: Seq<FunctionSpec>, k: int)
    requires
        0 <= k <= fs.len(),
    ensures
        spec_methods_bridge(m, fs.take(k)) is Err ==> spec_methods_bridge(m, fs) == spec_methods_bridge(m, fs.take(k)),
    decreases fs.len() - k,
{
    if k < fs.len() {
        assert(fs.take(k + 1).drop_last() =~= fs.take(k));
        lemma_methods_bridge_err_extends(m, fs, k + 1);
    } else {
        assert(fs.take(k) =~= fs);
    }
}

proof fn lemma_alias_defs_err_extends(es: Seq<(String, crate::schema::Alias)>, k: int)
    requires
        0 <= k <= es.len(),
    ensures
        spec_alias_defs(es.take(k)) is Err ==> spec_alias_defs(es) == spec_alias_defs(es.take(k)),
    decreases es.len() - k,
{
    if k < es.len() {
        assert(es.take(k + 1).drop_last() =~= es.take(k));
        lemma_alias_defs_err_extends(es, k + 1);
    } else {
        assert(es.take(k) =~= es);
    }
}

proof fn lemma_enum_defs_err_extends(es: Seq<(String, crate::schema::Enum)>, k: int)
    requires
        0 <= k <= es.len(),
    ensures
        spec_enum_defs(es.take(k)) is Err ==> spec_enum_defs(es) == spec_enum_defs(es.take(k)),
    decreases es.len() - k,
{
    if k < es.len() {
        assert(es.take(k + 1).drop_last() =~= es.take(k));
        lemma_enum_defs_err_extends(es, k + 1);
    } else {
        assert(es.take(k) =~= es);
    }
}

/// Renders the `struct` definitions of the alias entries.
pub fn alias_defs(es: &Vec<(String, crate::schema::Alias)>) -> (r: Result<Vec<String>, CodegenError>)
    ensures
        r matches Ok(v) ==> spec_alias_defs(es@) == Ok::<Seq<Seq<char>>, CodegenError>(crate::text::views(v@)),
        r matches Err(e) ==> spec_alias_defs(es@) == Err::<Seq<Seq<char>>, CodegenError>(e),
{
    let n = es.len();
    let mut out: Vec<String> = Vec::new();
    let mut i: usize = 0;
    assert(crate::text::views(out@) =~= Seq::<Seq<char>>::empty());
    assert(es@.take(0).len() == 0);
    while i < n
        invariant
            n == es@.len(),
            i <= n,
            spec_alias_defs(es@.take(i as int)) == Ok::<Seq<Seq<char>>, CodegenError>(crate::text::views(out@)),
        decreases n - i,
    {
        assert(es@.take(i + 1).drop_last() =~= es@.take(i as int));
        assert(es@.take(i + 1).last() == es@[i as int]);
        match alias_struct_def(&es[i].0, &es[i].1) {
            Ok(d) => {
                let ghost before = out@;
                out.push(d);
                assert(crate::text::views(out@) =~= crate::text::views(before).push(d@));
            },
            Err(e) => {
                proof {
                    lemma_alias_defs_err_extends(es@, i + 1);
                }
                return Err(e);
            },
        }
        i = i + 1;
    }
    assert(es@.take(n as int) =~= es@);
    Ok(out)
}

/// Renders the `enum` definitions of the enum entries.
pub fn enum_defs(es: &Vec<(String, crate::schema::Enum)>) -> (r: Result<Vec<String>, CodegenError>)
    ensures
        r matches Ok(v) ==> spec_enum_defs(es@) == Ok::<Seq<Seq<char>>, CodegenError>(crate::text::views(v@)),
        r matches Err(e) ==> spec_enum_defs(es@) == Err::<Seq<Seq<char>>, CodegenError>(e),
{
    let n = es.len();
    let mut out: Vec<String> = Vec::new();
    let mut i: usize = 0;
    assert(crate::text::views(out@) =~= Seq::<Seq<char>>::empty());
    assert(es@.take(0).len() == 0);
    while i < n
        invariant
            n == es@.len(),
            i <= n,
            spec_enum_defs(es@.take(i as int)) == Ok::<Seq<Seq<char>>, CodegenError>(crate::text::views(out@)),
        decreases n - i,
    {
        assert(es@.take(i + 1).drop_last() =~= es@.take(i as int));
        assert(es@.take(i + 1).last() == es@[i as int]);
        match enum_def(&es[i].1) {
            Ok(d) => {
                let ghost before = out@;
                out.push(d);
                assert(crate::text::views(out@) =~= crate::text::views(before).push(d@));
            },
            Err(e) => {
                proof {
                    lemma_enum_defs_err_extends(es@, i + 1);
                }
                return Err(e);
            },
        }
        i = i + 1;
    }
    assert(es@.take(n as int) =~= es@);
    Ok(out)
}

/// Renders the extern declarations and forwarding functions of the methods.
pub fn methods_bridge(m: &String, fs: &Vec<FunctionSpec>) -> (r: Result<(Vec<String>, Vec<String>), CodegenError>)
    requires
        methods_bridge_no_panic(m@, fs@),
    ensures
        r matches Ok((x, y)) ==> spec_methods_bridge(m@, fs@) == Ok::<(Seq<Seq<char>>, Seq<Seq<char>>), CodegenError>((crate::text::views(x@), crate::text::views(y@))),
        r matches Err(e) ==> spec_methods_bridge(m@, fs@) == Err::<(Seq<Seq<char>>, Seq<Seq<char>>), CodegenError>(e),
{
    let n = fs.len();
    let mut ex: Vec<String> = Vec::new();
    let mut im: Vec<String> = Vec::new();
    let mut i: usize = 0;
    assert(crate::text::views(ex@) =~= Seq::<Seq<char>>::empty());
    assert(fs@.take(0).len() == 0);
    while i < n
        invariant
            n == fs@.len(),
            i <= n,
            methods_bridge_no_panic(m@, fs@),
            spec_methods_bridge(m@, fs@.take(i as int)) == Ok::<(Seq<Seq<char>>, Seq<Seq<char>>), CodegenError>((crate::text::views(ex@), crate::text::views(im@))),
        decreases n - i,
    {
        assert(fs@.take(i + 1).drop_last() =~= fs@.take(i as int));
        assert(fs@.take(i + 1).last() == fs@[i as int]);
        assert(method_bridge_no_panic(fs@[i as int]));
        match method_bridge(m, &fs[i]) {
            Ok((x, y)) => {
                let ghost b1 = ex@;
                let ghost b2 = im@;
                ex.push(x);
                im.push(y);
                assert(crate::text::views(ex@) =~= crate::text::views(b1).push(x@));
                assert(crate::text::views(im@) =~= crate::text::views(b2).push(y@));
            },
            Err(e) => {
                proof {
                    lemma_methods_bridge_err_extends(m@, fs@, i + 1);
                }
                return Err(e);
            },
        }
        i = i + 1;
    }
    assert(fs@.take(n as int) =~= fs@);
    Ok((ex, im))
}

impl crate::schema::Schema {
    /// Returns the cxx bridge definitions of the schema: the methods' extern declarations
    /// and forwarding functions, the aliases' structs and the enums.
    pub fn as_rs_cxx_bridge(&self) -> (r: Result<RsCxxBridge, CodegenError>)
        requires
            methods_bridge_no_panic(self.module_name@, self.spec.methods@),
        ensures
            r matches Ok(b) ==> spec_rs_cxx_bridge(*self) == Ok::<(Seq<Seq<char>>, Seq<Seq<char>>, Seq<Seq<char>>, Seq<Seq<char>>), CodegenError>((
                crate::text::views(b.struct_defs@),
                crate::text::views(b.enum_defs@),
                crate::text::views(b.func_extern_sigs@),
                crate::text::views(b.func_impls@),
            )),
            r matches Err(e) ==> spec_rs_cxx_bridge(*self) == Err::<(Seq<Seq<char>>, Seq<Seq<char>>, Seq<Seq<char>>, Seq<Seq<char>>), CodegenError>(e),
    {
        let (func_extern_sigs, func_impls) = methods_bridge(&self.module_name, &self.spec.methods)?;
        let struct_defs = alias_defs(&self.alias_map)?;
        let enum_defs = enum_defs(&self.enum_map)?;
        Ok(RsCxxBridge { struct_defs, enum_defs, func_extern_sigs, func_impls })
    }
}

} // verus!

verus! {

/// The cxx bridge module of one module's results.
pub open spec fn spec_bridging_extern(r: crate::generator::CodegenResult) -> Seq<char> {
    let b = r.rs_cxx_bridge;
    "#[cxx::bridge(namespace = \"craby::"@ + crate::case::spec_flat_case(r.module_name@)
        + "\")]\npub mod bridging {\n    // Type definitions\n"@ + crate::text::spec_indent(
        crate::text::join(crate::text::views(b.struct_defs@), "\n\n"@),
        4,
    ) + "\n\n"@ + crate::text::spec_indent(crate::text::join(crate::text::views(b.enum_defs@), "\n\n"@), 4)
        + "\n\n    extern \"Rust\" {\n"@ + crate::text::spec_indent(
        crate::text::join(crate::text::views(b.func_extern_sigs@), "\n\n"@),
        8,
    ) + "\n    }\n}"@
}

/// The forwarding functions of one module's results.
pub open spec fn spec_bridging_impl(r: crate::generator::CodegenResult) -> Seq<char> {
    crate::text::join(crate::text::views(r.rs_cxx_bridge.func_impls@), "\n\n"@)
}

fn bridging_extern_one(r: &crate::generator::CodegenResult) -> (out: String)
    ensures
        out@ == spec_bridging_extern(*r),
{
    let flat_name = crate::case::flat_case(r.module_name.as_str());
    let cxx_extern = crate::text::join_strings(&r.rs_cxx_bridge.func_extern_sigs, "\n\n");
    let struct_defs = crate::text::join_strings(&r.rs_cxx_bridge.struct_defs, "\n\n");
    let enum_defs = crate::text::join_strings(&r.rs_cxx_bridge.enum_defs, "\n\n");
    let struct_defs = crate::text::indent_str(struct_defs, 4);
    let enum_defs = crate::text::indent_str(enum_defs, 4);
    let cxx_extern = crate::text::indent_str(cxx_extern, 8);
    let mut out = String::from_str("#[cxx::bridge(namespace = \"craby::");
    out.append(flat_name.as_str());
    out.append("\")]\npub mod bridging {\n    // Type definitions\n");
    out.append(struct_defs.as_str());
    out.append("\n\n");
    out.append(enum_defs.as_str());
    out.append("\n\n    extern \"Rust\" {\n");
    out.append(cxx_extern.as_str());
    out.append("\n    }\n}");
    out
}

/// Returns the cxx bridge module of each module.
pub fn cxx_bridging_extern(codegen_res: &Vec<crate::generator::CodegenResult>) -> (out: Vec<String>)
    ensures
        crate::text::views(out@) == codegen_res@.map_values(|r: crate::generator::CodegenResult| spec_bridging_extern(r)),
{
    let n = codegen_res.len();
    let mut out: Vec<String> = Vec::new();
    let mut i: usize = 0;
    while i < n
        invariant
            n == codegen_res@.len(),
            i <= n,
            crate::text::views(out@) == codegen_res@.take(i as int).map_values(|r: crate::generator::CodegenResult| spec_bridging_extern(r)),
        decreases n - i,
    {
        let s = bridging_extern_one(&codegen_res[i]);
        let ghost b = out@;
        out.push(s);
        proof {
            assert(crate::text::views(out@) =~= crate::text::views(b).push(s@));
            assert(codegen_res@.take(i + 1).map_values(|r: crate::generator::CodegenResult| spec_bridging_extern(r)) =~= codegen_res@.take(i as int).map_values(
                |r: crate::generator::CodegenResult| spec_bridging_extern(r),
            ).push(spec_bridging_extern(codegen_res@[i as int])));
        }
        i = i + 1;
    }
    assert(codegen_res@.take(n as int) =~= codegen_res@);
    out
}

/// Returns the forwarding functions of each module, joined per module.
pub fn cxx_bridging_impl(codegen_res: &Vec<crate::generator::CodegenResult>) -> (out: Vec<String>)
    ensures
        crate::text::views(out@) == codegen_res@.map_values(|r: crate::generator::CodegenResult| spec_bridging_impl(r)),
{
    let n = codegen_res.len();
    let mut out: Vec<String> = Vec::new();
    let mut i: usize = 0;
    while i < n
        invariant
            n == codegen_res@.len(),
            i <= n,
            crate::text::views(out@) == codegen_res@.take(i as int).map_values(|r: crate::generator::CodegenResult| spec_bridging_impl(r)),
        decreases n - i,
    {
        let s = crate::text::join_strings(&codegen_res[i].rs_cxx_bridge.func_impls, "\n\n");
        let ghost b = out@;
        out.push(s);
        proof {
            assert(crate::text::views(out@) =~= crate::text::views(b).push(s@));
            assert(codegen_res@.take(i + 1).map_values(|r: crate::generator::CodegenResult| spec_bridging_impl(r)) =~= codegen_res@.take(i as int).map_values(
                |r: crate::generator::CodegenResult| spec_bridging_impl(r),
            ).push(spec_bridging_impl(codegen_res@[i as int])));
        }
        i = i + 1;
    }
    assert(codegen_res@.take(n as int) =~= codegen_res@);
    out
}

/// `pub(crate) mod my_module_impl;`
pub open spec fn spec_impl_mod_decl(r: crate::generator::CodegenResult) -> Seq<char> {
    "pub(crate) mod "@ + r.impl_mod@ + ";"@
}

/// The generated `lib.rs`.
pub open spec fn spec_lib_rs(rs: Seq<crate::generator::CodegenResult>) -> Seq<char> {
    "pub(crate) mod ffi;\npub(crate) mod generated;\npub(crate) mod types;\n\n"@ + crate::text::join(
        rs.map_values(|r: crate::generator::CodegenResult| spec_impl_mod_decl(r)),
        "\n"@,
    )
}

/// Generates the `lib.rs` file for the given code generation results.
pub fn lib_rs(codgen_res: &Vec<crate::generator::CodegenResult>) -> (out: String)
    ensures
        out@ == spec_lib_rs(codgen_res@),
{
    let rs = codgen_res;
    let n = rs.len();
    let mut mods: Vec<String> = Vec::new();
    let mut i: usize = 0;
    while i < n
        invariant
            n == rs@.len(),
            i <= n,
            crate::text::views(mods@) == rs@.take(i as int).map_values(|r: crate::generator::CodegenResult| spec_impl_mod_decl(r)),
        decreases n - i,
    {
        let s = cat3("pub(crate) mod ", rs[i].impl_mod.as_str(), ";");
        let ghost b = mods@;
        mods.push(s);
        proof {
            assert(crate::text::views(mods@) =~= crate::text::views(b).push(s@));
            assert(rs@.take(i + 1).map_values(|r: crate::generator::CodegenResult| spec_impl_mod_decl(r)) =~= rs@.take(i as int).map_values(
                |r: crate::generator::CodegenResult| spec_impl_mod_decl(r),
            ).push(spec_impl_mod_decl(rs@[i as int])));
        }
        i = i + 1;
    }
    assert(rs@.take(n as int) =~= rs@);
    let impl_mods = crate::text::join_strings(&mods, "\n");
    let mut out = String::from_str("pub(crate) mod ffi;\npub(crate) mod generated;\npub(crate) mod types;\n\n");
    out.append(impl_mods.as_str());
    out
}

/// `use crate::my_module_impl::*;`
pub open spec fn spec_impl_mod_use(r: crate::generator::CodegenResult) -> Seq<char> {
    "use crate::"@ + crate::naming::spec_impl_mod_name(r.module_name@) + "::*;"@
}

/// The generated `ffi.rs`: the implementation modules' imports, the bridge modules and the
/// forwarding functions.
pub open spec fn spec_ffi_rs(rs: Seq<crate::generator::CodegenResult>) -> Seq<char> {
    crate::text::join(rs.map_values(|r: crate::generator::CodegenResult| spec_impl_mod_use(r)), "\n"@)
        + "\nuse crate::generated::*;\n\nuse bridging::*;\n\n"@ + crate::text::join(
        rs.map_values(|r: crate::generator::CodegenResult| spec_bridging_extern(r)),
        "\n\n"@,
    ) + "\n\n"@ + crate::text::join(rs.map_values(|r: crate::generator::CodegenResult| spec_bridging_impl(r)), "\n\n"@)
}

/// The forwarding functions of all results, module after module.
pub open spec fn forwarding_fns(rs: Seq<crate::generator::CodegenResult>) -> Seq<Seq<char>>
    decreases rs.len(),
{
    if rs.len() == 0 {
        Seq::empty()
    } else {
        forwarding_fns(rs.drop_last()) + crate::text::views(rs.last().rs_cxx_bridge.func_impls@)
    }
}

proof fn lemma_forwarding_in_order(rs: Seq<crate::generator::CodegenResult>)
    ensures
        crate::text::occurs_in_order(
            crate::text::join(rs.map_values(|r: crate::generator::CodegenResult| spec_bridging_impl(r)), "\n\n"@),
            forwarding_fns(rs),
        ),
    decreases rs.len(),
{
    let m = rs.map_values(|r: crate::generator::CodegenResult| spec_bridging_impl(r));
    if rs.len() == 0 {
        crate::text::lemma_in_order_empty(crate::text::join(m, "\n\n"@));
    } else {
        let parts = crate::text::views(rs.last().rs_cxx_bridge.func_impls@);
        crate::text::lemma_join_in_order(parts, "\n\n"@);
        assert(m.last() == crate::text::join(parts, "\n\n"@));
        let p = rs.drop_last();
        lemma_forwarding_in_order(p);
        assert(m.drop_last() =~= p.map_values(|r: crate::generator::CodegenResult| spec_bridging_impl(r)));
        if rs.len() == 1 {
            assert(forwarding_fns(p) =~= Seq::<Seq<char>>::empty());
            assert(forwarding_fns(rs) =~= parts);
        } else {
            crate::text::lemma_in_order_concat(
                crate::text::join(m.drop_last(), "\n\n"@),
                "\n\n"@,
                m.last(),
                forwarding_fns(p),
                parts,
            );
        }
    }
}

/// `ffi.rs` holds the cxx bridge module of every result in order, then the forwarding
/// functions of every result's methods, module after module, each function whole, none
/// overlapping another.
pub proof fn lemma_ffi_rs_holds_bridges_then_forwarding(rs: Seq<crate::generator::CodegenResult>)
    ensures
        crate::text::occurs_in_order(
            spec_ffi_rs(rs),
            rs.map_values(|r: crate::generator::CodegenResult| spec_bridging_extern(r)) + forwarding_fns(rs),
        ),
{
    let u = crate::text::join(rs.map_values(|r: crate::generator::CodegenResult| spec_impl_mod_use(r)), "\n"@)
        + "\nuse crate::generated::*;\n\nuse bridging::*;\n\n"@;
    let externs = rs.map_values(|r: crate::generator::CodegenResult| spec_bridging_extern(r));
    let j1 = crate::text::join(externs, "\n\n"@);
    let j2 = crate::text::join(rs.map_values(|r: crate::generator::CodegenResult| spec_bridging_impl(r)), "\n\n"@);
    crate::text::lemma_join_in_order(externs, "\n\n"@);
    crate::text::lemma_in_order_within(u, j1, Seq::empty(), externs);
    assert(u + j1 + Seq::<char>::empty() =~= u + j1);
    lemma_forwarding_in_order(rs);
    crate::text::lemma_in_order_concat(u + j1, "\n\n"@, j2, externs, forwarding_fns(rs));
    assert(spec_ffi_rs(rs) =~= (u + j1) + "\n\n"@ + j2);
}

/// Generates the `ffi.rs` file for the given code generation results.
pub fn ffi_rs(codgen_res: &Vec<crate::generator::CodegenResult>) -> (out: String)
    ensures
        out@ == spec_ffi_rs(codgen_res@),
        crate::text::occurs_in_order(
            out@,
            codgen_res@.map_values(|r: crate::generator::CodegenResult| spec_bridging_extern(r)) + forwarding_fns(codgen_res@),
        ),
{
    proof {
        lemma_ffi_rs_holds_bridges_then_forwarding(codgen_res@);
    }
    let rs = codgen_res;
    let n = rs.len();
    let mut uses: Vec<String> = Vec::new();
    let mut i: usize = 0;
    while i < n
        invariant
            n == rs@.len(),
            i <= n,
            crate::text::views(uses@) == rs@.take(i as int).map_values(|r: crate::generator::CodegenResult| spec_impl_mod_use(r)),
        decreases n - i,
    {
        let m = crate::naming::impl_mod_name(rs[i].module_name.as_str());
        let s = cat3("use crate::", m.as_str(), "::*;");
        let ghost b = uses@;
        uses.push(s);
        proof {
            assert(crate::text::views(uses@) =~= crate::text::views(b).push(s@));
            assert(rs@.take(i + 1).map_values(|r: crate::generator::CodegenResult| spec_impl_mod_use(r)) =~= rs@.take(i as int).map_values(
                |r: crate::generator::CodegenResult| spec_impl_mod_use(r),
            ).push(spec_impl_mod_use(rs@[i as int])));
        }
        i = i + 1;
    }
    assert(rs@.take(n as int) =~= rs@);
    let externs = cxx_bridging_extern(rs);
    let impls = cxx_bridging_impl(rs);
    let mut out = crate::text::join_strings(&uses, "\n");
    out.append("\nuse crate::generated::*;\n\nuse bridging::*;\n\n");
    let e = crate::text::join_strings(&externs, "\n\n");
    out.append(e.as_str());
    out.append("\n\n");
    let im = crate::text::join_strings(&impls, "\n\n");
    out.append(im.as_str());
    out
}

/// The generated `types.rs`: the type aliases the implementation trait uses.
pub open spec fn spec_types_rs() -> Seq<char> {
    "pub type Boolean = bool;\npub type Number = f64;\npub type String = std::string::String;\npub type Array<T> = Vec<T>;\npub type Promise<T> = Result<T, anyhow::Error>;\npub type Void = ();\n\npub mod promise {\n    use super::Promise;\n\n    pub fn resolve<T>(val: T) -> Promise<T> {\n        Ok(val)\n    }\n\n    pub fn rejected<T>(err: impl AsRef<str>) -> Promise<T> {\n        Err(anyhow::anyhow!(err.as_ref().to_string()))\n    }\n}\n\npub struct Nullable<T> {\n    val: Option<T>,\n}\n\nimpl<T> Nullable<T> {\n    pub fn new(val: Option<T>) -> Self {\n        Nullable { val }\n    }\n\n    pub fn some(val: T) -> Self {\n        Nullable { val: Some(val) }\n    }\n\n    pub fn none() -> Self {\n        Nullable { val: None }\n    }\n\n    pub fn value(mut self, val: T) -> Self {\n        self.val = Some(val);\n        self\n    }\n\n    pub fn value_of(&self) -> Option<&T> {\n        self.val.as_ref()\n    }\n\n    pub fn into_value(self) -> Option<T> {\n        self.val\n    }\n}\n"@
}

/// Generates the `types.rs` file.
pub fn types_rs() -> (out: String)
    ensures
        out@ == spec_types_rs(),
{
    String::from_str("pub type Boolean = bool;\npub type Number = f64;\npub type String = std::string::String;\npub type Array<T> = Vec<T>;\npub type Promise<T> = Result<T, anyhow::Error>;\npub type Void = ();\n\npub mod promise {\n    use super::Promise;\n\n    pub fn resolve<T>(val: T) -> Promise<T> {\n        Ok(val)\n    }\n\n    pub fn rejected<T>(err: impl AsRef<str>) -> Promise<T> {\n        Err(anyhow::anyhow!(err.as_ref().to_string()))\n    }\n}\n\npub struct Nullable<T> {\n    val: Option<T>,\n}\n\nimpl<T> Nullable<T> {\n    pub fn new(val: Option<T>) -> Self {\n        Nullable { val }\n    }\n\n    pub fn some(val: T) -> Self {\n        Nullable { val: Some(val) }\n    }\n\n    pub fn none() -> Self {\n        Nullable { val: None }\n    }\n\n    pub fn value(mut self, val: T) -> Self {\n        self.val = Some(val);\n        self\n    }\n\n    pub fn value_of(&self) -> Option<&T> {\n        self.val.as_ref()\n    }\n\n    pub fn into_value(self) -> Option<T> {\n        self.val\n    }\n}\n")
}

/// The generated `generated.rs`: the modules' spec traits.
pub open spec fn spec_generated_rs(rs: Seq<crate::generator::CodegenResult>) -> Seq<char> {
    "use crate::ffi::bridging::*;\nuse crate::types::*;\n\n"@ + crate::text::join(
        rs.map_values(|r: crate::generator::CodegenResult| r.spec_code@),
        "\n\n"@,
    )
}

/// Generates the `generated.rs` file for the given code generation results.
pub fn generated_rs(codegen_res: &Vec<crate::generator::CodegenResult>) -> (out: String)
    ensures
        out@ == spec_generated_rs(codegen_res@),
{
    let rs = codegen_res;
    let n = rs.len();
    let mut codes: Vec<String> = Vec::new();
    let mut i: usize = 0;
    while i < n
        invariant
            n == rs@.len(),
            i <= n,
            crate::text::views(codes@) == rs@.take(i as int).map_values(|r: crate::generator::CodegenResult| r.spec_code@),
        decreases n - i,
    {
        let s = crate::text::copy_str(rs[i].spec_code.as_str());
        let ghost b = codes@;
        codes.push(s);
        proof {
            assert(crate::text::views(codes@) =~= crate::text::views(b).push(s@));
            assert(rs@.take(i + 1).map_values(|r: crate::generator::CodegenResult| r.spec_code@) =~= rs@.take(i as int).map_values(
                |r: crate::generator::CodegenResult| r.spec_code@,
            ).push(rs@[i as int].spec_code@));
        }
        i = i + 1;
    }
    assert(rs@.take(n as int) =~= rs@);
    let spec_codes = crate::text::join_strings(&codes, "\n\n");
    let mut out = String::from_str("use crate::ffi::bridging::*;\nuse crate::types::*;\n\n");
    out.append(spec_codes.as_str());
    out
}

} // verus!
