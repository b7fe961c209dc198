//! Reads TurboModule specifications out of a TypeScript module: the interfaces that extend
//! `TurboModule`, the modules registered with `TurboModuleRegistry.get(Enforcing)<Spec>(name)`,
//! and the object, alias and enum types the methods use.
use vstd::prelude::*;
use vstd::string::*;
use crate::parser::{
    Diagnostic, EnumMember, EnumMemberValue, EnumTypeAnnotation, EnumV, MemberV, Method, MethodV,
    ModuleSchema, ModuleV, ObjV, ObjectTypeAnnotation, Param, ParseError, Prop,
    RefTypeAnnotation, Spec, Span, TypeAnnotation, TypeV, diag_view, diags_view, enum_view,
    method_view, methods_view, module_view, obj_view, params_view, props_view, tview,
};
use crate::ts::{
    Scoping, TsArgument, TsCall, TsCallee, TsEnum, TsEnumInit, TsEnumMember, TsHeritage, TsImport,
    TsImportSpecifier, TsInterface, TsItem, TsMethodSig, TsParam, TsPropertySig, TsSignature,
    TsType, TsTypeAlias, spec_symbol_of,
};
use crate::text::{str_eq, copy_str};

verus! {

pub open spec fn msg_invalid_spec() -> Seq<char> {
    "Invalid specification"@
}

pub open spec fn msg_invalid_type_reference() -> Seq<char> {
    "Invalid type reference"@
}

pub open spec fn msg_invalid_computed_sig() -> Seq<char> {
    "Computed signature is not supported"@
}

pub open spec fn msg_invalid_optional_sig() -> Seq<char> {
    "Optional signature is not supported"@
}

pub open spec fn msg_invalid_func_param() -> Seq<char> {
    "Function parameter is not supported"@
}

pub open spec fn msg_invalid_type_literal() -> Seq<char> {
    "Type literal is not supported. Use defined type reference instead"@
}

pub open spec fn msg_invalid_union_type() -> Seq<char> {
    "Union types only allow nullable type (eg. `T | null`)"@
}

pub open spec fn msg_nullable_promise() -> Seq<char> {
    "Promise type cannot be nullable"@
}

/// The specification type of a TypeScript type, or why it has none.
pub open spec fn spec_as_type(t: TsType) -> Result<TypeV, Seq<char>>
    decreases t,
{
    match t {
        TsType::Void => Ok(TypeV::Void),
        TsType::Boolean => Ok(TypeV::Boolean),
        TsType::Number => Ok(TypeV::Number),
        TsType::String => Ok(TypeV::String),
        TsType::Array(e) => match spec_as_type(*e) {
            Ok(x) => Ok(TypeV::Array(Box::new(x))),
            Err(m) => Err(m),
        },
        TsType::Reference { ref_id, name } => Ok(TypeV::Ref(ref_id, name@)),
        TsType::QualifiedReference => Err(msg_invalid_type_reference()),
        TsType::Union(types) => {
            proof {
                assert(decreases_to!(t => types@)) by {
                    broadcast use vstd::std_specs::vec::axiom_vec_decreases_to_view;
                }
            }
            if types@.len() != 2 {
                Err(msg_invalid_union_type())
            } else if !(types@[0] is Null) && !(types@[1] is Null) {
                Err(msg_invalid_union_type())
            } else {
                let base = if types@[0] is Null {
                    types@[1]
                } else {
                    types@[0]
                };
                match spec_as_type(base) {
                    Err(m) => Err(m),
                    Ok(TypeV::Promise(_)) => Err(msg_nullable_promise()),
                    Ok(b) => Ok(TypeV::Nullable(Box::new(b))),
                }
            }
        },
        TsType::Literal { .. } => Err(msg_invalid_type_literal()),
        TsType::Function => Err(msg_invalid_func_param()),
        _ => Err(msg_invalid_spec()),
    }
}

/// The TypeScript keywords `void`, `boolean`, `number` and `string` become the void, boolean,
/// number and string types, each its own; an array of a convertible type becomes an array of
/// its conversion.
pub proof fn lemma_keyword_types(t: TsType)
    ensures
        spec_as_type(TsType::Void) == Ok::<TypeV, Seq<char>>(TypeV::Void),
        spec_as_type(TsType::Boolean) == Ok::<TypeV, Seq<char>>(TypeV::Boolean),
        spec_as_type(TsType::Number) == Ok::<TypeV, Seq<char>>(TypeV::Number),
        spec_as_type(TsType::String) == Ok::<TypeV, Seq<char>>(TypeV::String),
        spec_as_type(t) is Ok ==> spec_as_type(TsType::Array(Box::new(t))) == Ok::<TypeV, Seq<char>>(
            TypeV::Array(Box::new(spec_as_type(t)->Ok_0)),
        ),
{
}

/// Converts a TypeScript type.
pub fn as_type_annotation(t: &TsType) -> (r: Result<TypeAnnotation, String>)
    ensures
        r matches Ok(x) ==> spec_as_type(*t) == Ok::<TypeV, Seq<char>>(tview(x)),
        r matches Err(m) ==> spec_as_type(*t) == Err::<TypeV, Seq<char>>(m@),
        *t is Void ==> r matches Ok(TypeAnnotation::Void),
        *t is Boolean ==> r matches Ok(TypeAnnotation::Boolean),
        *t is Number ==> r matches Ok(TypeAnnotation::Number),
        *t is String ==> r matches Ok(TypeAnnotation::String),
    decreases t,
{
    match t {
        TsType::Void => Ok(TypeAnnotation::Void),
        TsType::Boolean => Ok(TypeAnnotation::Boolean),
        TsType::Number => Ok(TypeAnnotation::Number),
        TsType::String => Ok(TypeAnnotation::String),
        TsType::Array(e) => {
            let x = as_type_annotation(e)?;
            Ok(TypeAnnotation::Array(Box::new(x)))
        },
        TsType::Reference { ref_id, name } => Ok(TypeAnnotation::Ref(RefTypeAnnotation { ref_id: *ref_id, name: name.clone() })),
        TsType::QualifiedReference => Err(String::from_str("Invalid type reference")),
        TsType::Union(types) => as_nullable(types),
        TsType::Literal { .. } => Err(String::from_str("Type literal is not supported. Use defined type reference instead")),
        TsType::Function => Err(String::from_str("Function parameter is not supported")),
        _ => Err(String::from_str("Invalid specification")),
    }
}

/// Converts a union type, which must be a type and `null`.
fn as_nullable(types: &Vec<TsType>) -> (r: Result<TypeAnnotation, String>)
    ensures
        r matches Ok(x) ==> spec_as_type(TsType::Union(*types)) == Ok::<TypeV, Seq<char>>(tview(x)),
        r matches Err(m) ==> spec_as_type(TsType::Union(*types)) == Err::<TypeV, Seq<char>>(m@),
    decreases types,
{
    if types.len() != 2 {
        return Err(String::from_str("Union types only allow nullable type (eg. `T | null`)"));
    }
    let base = match (&types[0], &types[1]) {
        (TsType::Null, base) => base,
        (base, TsType::Null) => base,
        _ => {
            return Err(String::from_str("Union types only allow nullable type (eg. `T | null`)"));
        },
    };
    proof {
        assert(decreases_to!(types => types@)) by {
            broadcast use vstd::std_specs::vec::axiom_vec_decreases_to_view;
        }
    }
    let b = as_type_annotation(base)?;
    match b {
        TypeAnnotation::Promise(_) => Err(String::from_str("Promise type cannot be nullable")),
        _ => Ok(TypeAnnotation::Nullable(Box::new(b))),
    }
}

/// A property of an object type: its name and type, or an error at the property.
pub open spec fn spec_as_prop(sig: TsPropertySig) -> Result<(Seq<char>, TypeV), (Seq<char>, Span)> {
    match sig.type_annotation {
        Some(ta) => match sig.key {
            Some(name) => match spec_as_type(ta) {
                Ok(t) => Ok((name@, t)),
                Err(m) => Err((m, sig.span)),
            },
            None => Err((msg_invalid_spec(), sig.span)),
        },
        None => Err((msg_invalid_spec(), sig.span)),
    }
}

/// An error at a range of the source.
fn diag(message: &str, span: Span) -> (r: Diagnostic)
    ensures
        diag_view(r) == (message@, span),
{
    Diagnostic { message: copy_str(message), span }
}

/// Converts a property of an object type.
pub fn as_prop(sig: &TsPropertySig) -> (r: Result<Prop, Diagnostic>)
    ensures
        r matches Ok(p) ==> spec_as_prop(*sig) == Ok::<(Seq<char>, TypeV), (Seq<char>, Span)>((p.name@, tview(p.type_annotation))),
        r matches Err(d) ==> spec_as_prop(*sig) == Err::<(Seq<char>, TypeV), (Seq<char>, Span)>(diag_view(d)),
{
    match &sig.type_annotation {
        Some(ta) => {
            let name = match &sig.key {
                Some(name) => name.clone(),
                None => {
                    return Err(diag("Invalid specification", sig.span));
                },
            };
            match as_type_annotation(ta) {
                Ok(t) => Ok(Prop { name, type_annotation: t }),
                Err(m) => Err(Diagnostic { message: m, span: sig.span }),
            }
        },
        None => Err(diag("Invalid specification", sig.span)),
    }
}

/// The parameters of a method signature, or the first error.
pub open spec fn spec_params(ps: Seq<TsParam>) -> Result<Seq<(Seq<char>, TypeV)>, (Seq<char>, Span)>
    decreases ps.len(),
{
    if ps.len() == 0 {
        Ok(Seq::empty())
    } else {
        match spec_params(ps.drop_last()) {
            Err(e) => Err(e),
            Ok(prev) => {
                let p = ps.last();
                if p.decorated {
                    Err((msg_invalid_spec(), p.span))
                } else {
                    match p.name {
                        None => Err((msg_invalid_spec(), p.span)),
                        Some(name) => match p.type_annotation {
                            None => Err((msg_invalid_spec(), p.span)),
                            Some(ta) => match spec_as_type(ta) {
                                Err(m) => Err((m, p.span)),
                                Ok(t) => Ok(prev.push((name@, t))),
                            },
                        },
                    }
                }
            },
        }
    }
}

/// A method of a specification, from a method signature.
pub open spec fn spec_as_method(sig: TsMethodSig) -> Result<MethodV, (Seq<char>, Span)> {
    if sig.computed {
        Err((msg_invalid_computed_sig(), sig.span))
    } else if sig.optional {
        Err((msg_invalid_optional_sig(), sig.span))
    } else {
        match sig.key {
            None => Err((msg_invalid_spec(), sig.span)),
            Some(name) => match spec_params(sig.params@) {
                Err(e) => Err(e),
                Ok(params) => match sig.return_type {
                    None => Err((msg_invalid_spec(), sig.span)),
                    Some(rt) => match spec_as_type(rt) {
                        Err(m) => Err((m, sig.span)),
                        Ok(t) => Ok(MethodV { name: name@, params, ret: t }),
                    },
                },
            },
        }
    }
}

proof fn lemma_params_err_extends(ps: Seq<TsParam>, k: int)
    requires
        0 <= k <= ps.len(),
    ensures
        spec_params(ps.take(k)) is Err ==> spec_params(ps) == spec_params(ps.take(k)),
    decreases ps.len() - k,
{
    if k < ps.len() {
        assert(ps.take(k + 1).drop_last() =~= ps.take(k));
        lemma_params_err_extends(ps, k + 1);
    } else {
        assert(ps.take(k) =~= ps);
    }
}

/// Converts the parameters of a method signature.
fn as_params(ps: &Vec<TsParam>) -> (r: Result<Vec<Param>, Diagnostic>)
    ensures
        r matches Ok(v) ==> spec_params(ps@) == Ok::<Seq<(Seq<char>, TypeV)>, (Seq<char>, Span)>(params_view(v@)),
        r matches Err(d) ==> spec_params(ps@) == Err::<Seq<(Seq<char>, TypeV)>, (Seq<char>, Span)>(diag_view(d)),
{
    let n = ps.len();
    let mut out: Vec<Param> = Vec::new();
    let mut i: usize = 0;
    assert(params_view(out@) =~= Seq::<(Seq<char>, TypeV)>::empty());
    while i < n
        invariant
            n == ps@.len(),
            i <= n,
            out@.len() == i,
            spec_params(ps@.take(i as int)) == Ok::<Seq<(Seq<char>, TypeV)>, (Seq<char>, Span)>(params_view(out@)),
        decreases n - i,
    {
        assert(ps@.take(i + 1).drop_last() =~= ps@.take(i as int));
        assert(ps@.take(i + 1).last() == ps@[i as int]);
        let p = &ps[i];
        if p.decorated {
            proof {
                lemma_params_err_extends(ps@, i + 1);
            }
            return Err(diag("Invalid specification", p.span));
        }
        let name = match &p.name {
            Some(name) => name.clone(),
            None => {
                proof {
                    lemma_params_err_extends(ps@, i + 1);
                }
                return Err(diag("Invalid specification", p.span));
            },
        };
        let ta = match &p.type_annotation {
            Some(ta) => ta,
            None => {
                proof {
                    lemma_params_err_extends(ps@, i + 1);
                }
                return Err(diag("Invalid specification", p.span));
            },
        };
        match as_type_annotation(ta) {
            Ok(t) => {
                let ghost b = out@;
                let ghost entry = (name@, tview(t));
                out.push(Param { name, type_annotation: t });
                assert(params_view(out@) =~= params_view(b).push(entry));
            },
            Err(m) => {
                proof {
                    lemma_params_err_extends(ps@, i + 1);
                }
                return Err(Diagnostic { message: m, span: p.span });
            },
        }
        i = i + 1;
    }
    assert(ps@.take(n as int) =~= ps@);
    Ok(out)
}

/// Converts a method signature.
pub fn as_method(sig: &TsMethodSig) -> (r: Result<Method, Diagnostic>)
    ensures
        r matches Ok(m) ==> spec_as_method(*sig) == Ok::<MethodV, (Seq<char>, Span)>(method_view(m)),
        r matches Err(d) ==> spec_as_method(*sig) == Err::<MethodV, (Seq<char>, Span)>(diag_view(d)),
{
    if sig.computed {
        return Err(diag("Computed signature is not supported", sig.span));
    }
    if sig.optional {
        return Err(diag("Optional signature is not supported", sig.span));
    }
    let name = match &sig.key {
        Some(name) => name.clone(),
        None => {
            return Err(diag("Invalid specification", sig.span));
        },
    };
    let params = as_params(&sig.params)?;
    let rt = match &sig.return_type {
        Some(rt) => rt,
        None => {
            return Err(diag("Invalid specification", sig.span));
        },
    };
    match as_type_annotation(rt) {
        Ok(t) => Ok(Method { name, params, ret_type: t }),
        Err(m) => Err(Diagnostic { message: m, span: sig.span }),
    }
}

/// A method of a specification, from a property signature (`name: T`, without parameters).
pub open spec fn spec_as_method_from_prop(sig: TsPropertySig) -> Result<MethodV, (Seq<char>, Span)> {
    if sig.computed {
        Err((msg_invalid_computed_sig(), sig.span))
    } else if sig.optional {
        Err((msg_invalid_optional_sig(), sig.span))
    } else {
        match sig.key {
            None => Err((msg_invalid_spec(), sig.span)),
            Some(name) => match sig.type_annotation {
                None => Err((msg_invalid_spec(), sig.span)),
                Some(ta) => match spec_as_type(ta) {
                    Err(m) => Err((m, sig.span)),
                    Ok(t) => Ok(MethodV { name: name@, params: Seq::empty(), ret: t }),
                },
            },
        }
    }
}

/// Converts a property signature of a specification into a method.
pub fn as_method_from_prop(sig: &TsPropertySig) -> (r: Result<Method, Diagnostic>)
    ensures
        r matches Ok(m) ==> spec_as_method_from_prop(*sig) == Ok::<MethodV, (Seq<char>, Span)>(method_view(m)),
        r matches Err(d) ==> spec_as_method_from_prop(*sig) == Err::<MethodV, (Seq<char>, Span)>(diag_view(d)),
{
    if sig.computed {
        return Err(diag("Computed signature is not supported", sig.span));
    }
    if sig.optional {
        return Err(diag("Optional signature is not supported", sig.span));
    }
    let name = match &sig.key {
        Some(name) => name.clone(),
        None => {
            return Err(diag("Invalid specification", sig.span));
        },
    };
    let ta = match &sig.type_annotation {
        Some(ta) => ta,
        None => {
            return Err(diag("Invalid specification", sig.span));
        },
    };
    match as_type_annotation(ta) {
        Ok(t) => {
            let m = Method { name, params: Vec::new(), ret_type: t };
            assert(params_view(m.params@) =~= Seq::<(Seq<char>, TypeV)>::empty());
            Ok(m)
        },
        Err(m) => Err(Diagnostic { message: m, span: sig.span }),
    }
}

} // verus!

verus! {

/// What the analysis has collected so far.
pub ghost struct AnalyzerV {
    pub diagnostics: Seq<(Seq<char>, Span)>,
    /// The symbol of the imported `TurboModule` interface.
    pub type_sym: Option<u32>,
    /// The symbol of the imported `TurboModuleRegistry`.
    pub reg_sym: Option<u32>,
    /// The symbol of the `react-native` namespace import.
    pub ns_sym: Option<u32>,
    /// Module names by the symbol of their specification interface.
    pub mods: Seq<(u32, Seq<char>)>,
    /// Declared types by symbol.
    pub decls: Seq<(u32, TypeV)>,
    /// Specification methods by the symbol of their interface.
    pub specs: Seq<(u32, Seq<MethodV>)>,
}

pub open spec fn spec_initial() -> AnalyzerV {
    AnalyzerV {
        diagnostics: Seq::empty(),
        type_sym: None,
        reg_sym: None,
        ns_sym: None,
        mods: Seq::empty(),
        decls: Seq::empty(),
        specs: Seq::empty(),
    }
}

pub open spec fn string_view_fn() -> spec_fn(String) -> Seq<char> {
    |s: String| s@
}

pub open spec fn type_view_fn() -> spec_fn(TypeAnnotation) -> TypeV {
    |t: TypeAnnotation| tview(t)
}

pub open spec fn spec_view_fn() -> spec_fn(Spec) -> Seq<MethodV> {
    |s: Spec| methods_view(s.methods@)
}

/// The state with one more diagnostic.
pub open spec fn with_diag(st: AnalyzerV, d: (Seq<char>, Span)) -> AnalyzerV {
    AnalyzerV { diagnostics: st.diagnostics.push(d), ..st }
}

/// What an import specifier of `react-native` records.
pub open spec fn spec_import_specifier(st: AnalyzerV, sp: TsImportSpecifier) -> AnalyzerV {
    match sp {
        TsImportSpecifier::Named { imported, local_symbol } => match local_symbol {
            Some(sym) => if imported@ == "TurboModule"@ {
                AnalyzerV { type_sym: Some(sym), ..st }
            } else if imported@ == "TurboModuleRegistry"@ {
                AnalyzerV { reg_sym: Some(sym), ..st }
            } else {
                st
            },
            None => st,
        },
        TsImportSpecifier::Namespace { local_symbol } => AnalyzerV { ns_sym: Some(local_symbol), ..st },
        TsImportSpecifier::Default => st,
    }
}

pub open spec fn spec_import_specifiers(st: AnalyzerV, sps: Seq<TsImportSpecifier>) -> AnalyzerV
    decreases sps.len(),
{
    if sps.len() == 0 {
        st
    } else {
        spec_import_specifier(spec_import_specifiers(st, sps.drop_last()), sps.last())
    }
}

/// What an import declaration records: the `TurboModule`, `TurboModuleRegistry` and
/// namespace imports of `react-native`.
pub open spec fn spec_visit_import(st: AnalyzerV, it: TsImport) -> AnalyzerV {
    if it.source@ != "react-native"@ {
        st
    } else {
        match it.specifiers {
            None => st,
            Some(sps) => spec_import_specifiers(st, sps@),
        }
    }
}

/// Whether an `extends` clause names `TurboModule` of `react-native` (by the imported name,
/// or as a member of the namespace import).
pub open spec fn heritage_is_turbo_module(st: AnalyzerV, sc: Scoping, h: TsHeritage) -> bool {
    match h {
        TsHeritage::Identifier { ref_id } => spec_symbol_of(sc, ref_id) == st.type_sym,
        TsHeritage::Member { object_ref, property } => spec_symbol_of(sc, object_ref) == st.ns_sym && (
        property matches Some(p) && p@ == "TurboModule"@),
        TsHeritage::Other => false,
    }
}

} // verus!

verus! {

/// Whether an interface is a specification: it extends `TurboModule`.
pub open spec fn spec_is_spec(st: AnalyzerV, sc: Scoping, it: TsInterface) -> bool {
    exists|i: int| 0 <= i < it.extends@.len() && heritage_is_turbo_module(st, sc, #[trigger] it.extends@[i])
}

/// The methods of a specification interface, or the first error (an unsupported member is an
/// error at the interface).
pub open spec fn spec_spec_methods(body: Seq<TsSignature>, span: Span) -> Result<Seq<MethodV>, (Seq<char>, Span)>
    decreases body.len(),
{
    if body.len() == 0 {
        Ok(Seq::empty())
    } else {
        match spec_spec_methods(body.drop_last(), span) {
            Err(e) => Err(e),
            Ok(prev) => match body.last() {
                TsSignature::Method(m) => match spec_as_method(m) {
                    Ok(x) => Ok(prev.push(x)),
                    Err(e) => Err(e),
                },
                TsSignature::Property(p) => match spec_as_method_from_prop(p) {
                    Ok(x) => Ok(prev.push(x)),
                    Err(e) => Err(e),
                },
                TsSignature::Other => Err((msg_invalid_spec(), span)),
            },
        }
    }
}

/// The properties of an object type, or the first error (a member other than a property is
/// an error at `span`).
pub open spec fn spec_object_props(body: Seq<TsSignature>, span: Span) -> Result<Seq<(Seq<char>, TypeV)>, (Seq<char>, Span)>
    decreases body.len(),
{
    if body.len() == 0 {
        Ok(Seq::empty())
    } else {
        match spec_object_props(body.drop_last(), span) {
            Err(e) => Err(e),
            Ok(prev) => match body.last() {
                TsSignature::Property(p) => match spec_as_prop(p) {
                    Ok(x) => Ok(prev.push(x)),
                    Err(e) => Err(e),
                },
                _ => Err((msg_invalid_spec(), span)),
            },
        }
    }
}

/// What a specification interface records: its methods under its symbol, or its error.
pub open spec fn spec_collect_spec(st: AnalyzerV, it: TsInterface) -> AnalyzerV {
    match spec_spec_methods(it.body@, it.span) {
        Err(d) => with_diag(st, d),
        Ok(ms) => AnalyzerV { specs: crate::idmap::id_insert(st.specs, it.symbol, ms), ..st },
    }
}

/// What another interface records: an object type under its symbol, or its error (an
/// interface that extends another is refused).
pub open spec fn spec_collect_interface_type(st: AnalyzerV, it: TsInterface) -> AnalyzerV {
    if it.extends@.len() > 0 {
        with_diag(st, (msg_invalid_spec(), it.span))
    } else {
        match spec_object_props(it.body@, it.span) {
            Err(d) => with_diag(st, d),
            Ok(props) => AnalyzerV {
                decls: crate::idmap::id_insert(st.decls, it.symbol, TypeV::Object(ObjV { name: it.name@, props })),
                ..st
            },
        }
    }
}

pub open spec fn spec_visit_interface(st: AnalyzerV, sc: Scoping, it: TsInterface) -> AnalyzerV {
    if it.declare {
        st
    } else if spec_is_spec(st, sc, it) {
        spec_collect_spec(st, it)
    } else {
        spec_collect_interface_type(st, it)
    }
}

/// What a type alias records: an object type for a type literal, a nullable type for a union
/// with `null`; any other alias is an error.
pub open spec fn spec_visit_type_alias(st: AnalyzerV, it: TsTypeAlias) -> AnalyzerV {
    if it.declare {
        st
    } else {
        match it.type_annotation {
            TsType::Literal { members, span } => match spec_object_props(members@, span) {
                Err(d) => with_diag(st, d),
                Ok(props) => AnalyzerV {
                    decls: crate::idmap::id_insert(st.decls, it.symbol, TypeV::Object(ObjV { name: it.name@, props })),
                    ..st
                },
            },
            TsType::Union(types) => match spec_as_type(TsType::Union(types)) {
                Ok(t) => AnalyzerV { decls: crate::idmap::id_insert(st.decls, it.symbol, t), ..st },
                Err(m) => with_diag(st, (m, it.span)),
            },
            _ => with_diag(st, (msg_invalid_spec(), it.span)),
        }
    }
}

pub open spec fn msg_mixed_enum_member() -> Seq<char> {
    "Enum member type must be single type (eg. only `number` or `string`)"@
}

/// `a + b`, wrapping around at `usize::MAX` as release builds do.
pub open spec fn wrap_add(a: usize, b: usize) -> usize {
    if a + b <= usize::MAX {
        (a + b) as usize
    } else {
        (a + b - usize::MAX - 1) as usize
    }
}

/// Reading the members of an enum: the members so far, the last explicit number, whether the
/// members are numbers (`Some(true)`) or strings, the errors so far, and whether a member of
/// the other kind stopped the reading.
pub ghost struct EnumAcc {
    pub members: Seq<(Seq<char>, MemberV)>,
    pub prev: usize,
    pub kind: Option<bool>,
    pub diags: Seq<(Seq<char>, Span)>,
    pub stopped: bool,
}

pub open spec fn enum_step(acc: EnumAcc, m: TsEnumMember, idx: int, span: Span) -> EnumAcc {
    if acc.stopped {
        acc
    } else {
        match m.initializer {
            Some(TsEnumInit::Number(v)) => if acc.kind == Some(false) {
                EnumAcc { diags: acc.diags.push((msg_mixed_enum_member(), span)), stopped: true, ..acc }
            } else {
                EnumAcc {
                    members: acc.members.push((m.name@, MemberV::Num(v))),
                    prev: v,
                    kind: Some(true),
                    ..acc
                }
            },
            Some(TsEnumInit::String(s)) => if acc.kind == Some(true) {
                EnumAcc { diags: acc.diags.push((msg_mixed_enum_member(), span)), stopped: true, ..acc }
            } else {
                EnumAcc { members: acc.members.push((m.name@, MemberV::Str(s@))), kind: Some(false), ..acc }
            },
            Some(TsEnumInit::Other) => EnumAcc { diags: acc.diags.push((msg_invalid_spec(), span)), ..acc },
            None => if acc.kind == Some(false) {
                EnumAcc { diags: acc.diags.push((msg_mixed_enum_member(), span)), stopped: true, ..acc }
            } else {
                EnumAcc {
                    members: acc.members.push((m.name@, MemberV::Num(wrap_add(acc.prev, idx as usize)))),
                    kind: Some(true),
                    ..acc
                }
            },
        }
    }
}

pub open spec fn enum_fold(ms: Seq<TsEnumMember>, n: int, span: Span) -> EnumAcc
    decreases n,
{
    if n <= 0 {
        EnumAcc { members: Seq::empty(), prev: 0, kind: None, diags: Seq::empty(), stopped: false }
    } else {
        enum_step(enum_fold(ms, n - 1, span), ms[n - 1], n - 1, span)
    }
}

/// What an enum records: its errors, and unless its members mix numbers and strings, the enum
/// type under its symbol. A member without initializer is numbered by the last explicit
/// number plus its position.
pub open spec fn spec_visit_enum(st: AnalyzerV, it: TsEnum) -> AnalyzerV {
    if it.declare {
        st
    } else {
        let acc = enum_fold(it.members@, it.members@.len() as int, it.span);
        let st1 = AnalyzerV { diagnostics: st.diagnostics + acc.diags, ..st };
        if acc.stopped {
            st1
        } else {
            AnalyzerV {
                decls: crate::idmap::id_insert(
                    st1.decls,
                    it.symbol,
                    TypeV::Enum(EnumV { name: it.name@, members: acc.members }),
                ),
                ..st1
            }
        }
    }
}

pub open spec fn msg_invalid_registry_method() -> Seq<char> {
    "Invalid TurboModuleRegistry method"@
}

pub open spec fn is_get_method(name: Seq<char>) -> bool {
    name == "get"@ || name == "getEnforcing"@
}

/// Whether a call is `TurboModuleRegistry.get(..)`/`getEnforcing(..)` (the registry imported by
/// name, or reached through the namespace import), and the error a call of another method on
/// an identifier gives.
pub open spec fn spec_is_reg_call(st: AnalyzerV, sc: Scoping, call: TsCall) -> (bool, Option<(Seq<char>, Span)>) {
    match call.callee {
        TsCallee::Member { object_ref, property, property_span, .. } => if is_get_method(property@) {
            (spec_symbol_of(sc, object_ref) == st.reg_sym, None)
        } else {
            (false, Some((msg_invalid_registry_method(), property_span)))
        },
        TsCallee::NestedMember { outer_ref, middle, property, property_span } => {
            let is_ns = match outer_ref {
                Some(r) => spec_symbol_of(sc, r) == st.ns_sym,
                None => false,
            };
            if !is_ns {
                (false, None)
            } else if is_get_method(property@) {
                (middle@ == "TurboModuleRegistry"@, None)
            } else {
                (false, Some((msg_invalid_registry_method(), property_span)))
            }
        },
        TsCallee::Other => (false, None),
    }
}

pub open spec fn msg_no_spec_generic() -> Seq<char> {
    "NativeModule specification generic argument is required"@
}

/// The symbol of the specification a registry call names by its type argument, or the error
/// it gives. (`Ok(None)`: the argument refers to nothing declared.)
pub open spec fn spec_as_spec_id(sc: Scoping, call: TsCall) -> Result<Option<u32>, (Seq<char>, Span)> {
    match call.type_arguments {
        None => Err((msg_no_spec_generic(), call.span)),
        Some(args) => if args@.len() == 0 {
            Err((msg_no_spec_generic(), call.span))
        } else if args@.len() != 1 {
            Err(("TurboModule specification generic argument must be exactly one"@, call.span))
        } else {
            match args@[0] {
                TsType::Reference { ref_id, .. } => Ok(spec_symbol_of(sc, ref_id)),
                TsType::QualifiedReference => Err(("Invalid specification type reference"@, call.span)),
                _ => Err(("Specification generic argument must be a type reference"@, call.span)),
            }
        },
    }
}

/// Whether some module has the name `name`.
pub open spec fn has_mod_name(mods: Seq<(u32, Seq<char>)>, name: Seq<char>) -> bool {
    exists|i: int| 0 <= i < mods.len() && (#[trigger] mods[i]).1 == name
}

/// The module name a registry call gives, or its error.
pub open spec fn spec_as_mod_name(st: AnalyzerV, call: TsCall) -> Result<Seq<char>, (Seq<char>, Span)> {
    if call.arguments@.len() == 0 {
        Err(("TurboModule name is required"@, call.span))
    } else {
        match call.arguments@[0] {
            TsArgument::StringLiteral { value, span } => if has_mod_name(st.mods, value@) {
                Err(("Duplicate module name"@, span))
            } else {
                Ok(value@)
            },
            TsArgument::Other => Err(("TurboModule name must be a string literal"@, call.span)),
        }
    }
}

/// What a call records: for a registry call, the module name under the symbol of its
/// specification; the errors it gives otherwise.
pub open spec fn spec_visit_call(st: AnalyzerV, sc: Scoping, call: TsCall) -> AnalyzerV {
    let (is_reg, err) = spec_is_reg_call(st, sc, call);
    let st1 = match err {
        Some(d) => with_diag(st, d),
        None => st,
    };
    if !is_reg {
        st1
    } else {
        match spec_as_spec_id(sc, call) {
            Err(d) => with_diag(st1, d),
            Ok(None) => st1,
            Ok(Some(id)) => match spec_as_mod_name(st1, call) {
                Err(d) => with_diag(st1, d),
                Ok(name) => AnalyzerV { mods: crate::idmap::id_insert(st1.mods, id, name), ..st1 },
            },
        }
    }
}

pub open spec fn spec_visit_item(st: AnalyzerV, sc: Scoping, item: TsItem) -> AnalyzerV {
    match item {
        TsItem::Import(it) => spec_visit_import(st, it),
        TsItem::Interface(it) => spec_visit_interface(st, sc, it),
        TsItem::TypeAlias(it) => spec_visit_type_alias(st, it),
        TsItem::Enum(it) => spec_visit_enum(st, it),
        TsItem::Call(c) => spec_visit_call(st, sc, c),
    }
}

/// What visiting the items in order collects.
pub open spec fn spec_visit_items(sc: Scoping, items: Seq<TsItem>) -> AnalyzerV
    decreases items.len(),
{
    if items.len() == 0 {
        spec_initial()
    } else {
        spec_visit_item(spec_visit_items(sc, items.drop_last()), sc, items.last())
    }
}

} // verus!

verus! {

proof fn lemma_props_view_push(v: Seq<Prop>, p: Prop)
    ensures
        props_view(v.push(p), v.len() + 1int) == props_view(v, v.len() as int).push((p.name@, tview(p.type_annotation))),
{
    crate::parser::lemma_props_view(v);
    crate::parser::lemma_props_view(v.push(p));
    assert(props_view(v.push(p), v.len() + 1int) =~= props_view(v, v.len() as int).push((p.name@, tview(p.type_annotation))));
}

proof fn lemma_spec_methods_err_extends(body: Seq<TsSignature>, span: Span, k: int)
    requires
        0 <= k <= body.len(),
    ensures
        spec_spec_methods(body.take(k), span) is Err ==> spec_spec_methods(body, span) == spec_spec_methods(body.take(k), span),
    decreases body.len() - k,
{
    if k < body.len() {
        assert(body.take(k + 1).drop_last() =~= body.take(k));
        lemma_spec_methods_err_extends(body, span, k + 1);
    } else {
        assert(body.take(k) =~= body);
    }
}

proof fn lemma_object_props_err_extends(body: Seq<TsSignature>, span: Span, k: int)
    requires
        0 <= k <= body.len(),
    ensures
        spec_object_props(body.take(k), span) is Err ==> spec_object_props(body, span) == spec_object_props(body.take(k), span),
    decreases body.len() - k,
{
    if k < body.len() {
        assert(body.take(k + 1).drop_last() =~= body.take(k));
        lemma_object_props_err_extends(body, span, k + 1);
    } else {
        assert(body.take(k) =~= body);
    }
}

/// The methods of a specification interface.
fn spec_methods(body: &Vec<TsSignature>, span: Span) -> (r: Result<Vec<Method>, Diagnostic>)
    ensures
        r matches Ok(v) ==> spec_spec_methods(body@, span) == Ok::<Seq<MethodV>, (Seq<char>, Span)>(methods_view(v@)),
        r matches Err(d) ==> spec_spec_methods(body@, span) == Err::<Seq<MethodV>, (Seq<char>, Span)>(diag_view(d)),
{
    let n = body.len();
    let mut out: Vec<Method> = Vec::new();
    let mut i: usize = 0;
    assert(methods_view(out@) =~= Seq::<MethodV>::empty());
    while i < n
        invariant
            n == body@.len(),
            i <= n,
            spec_spec_methods(body@.take(i as int), span) == Ok::<Seq<MethodV>, (Seq<char>, Span)>(methods_view(out@)),
        decreases n - i,
    {
        assert(body@.take(i + 1).drop_last() =~= body@.take(i as int));
        assert(body@.take(i + 1).last() == body@[i as int]);
        let res = match &body[i] {
            TsSignature::Method(m) => as_method(m),
            TsSignature::Property(p) => as_method_from_prop(p),
            TsSignature::Other => Err(diag("Invalid specification", span)),
        };
        match res {
            Ok(m) => {
                let ghost b = out@;
                let ghost mv = method_view(m);
                out.push(m);
                assert(methods_view(out@) =~= methods_view(b).push(mv));
            },
            Err(d) => {
                proof {
                    lemma_spec_methods_err_extends(body@, span, i + 1);
                }
                return Err(d);
            },
        }
        i = i + 1;
    }
    assert(body@.take(n as int) =~= body@);
    Ok(out)
}

/// The properties of an object type.
fn object_props(body: &Vec<TsSignature>, span: Span) -> (r: Result<Vec<Prop>, Diagnostic>)
    ensures
        r matches Ok(v) ==> spec_object_props(body@, span) == Ok::<Seq<(Seq<char>, TypeV)>, (Seq<char>, Span)>(props_view(v@, v@.len() as int)),
        r matches Err(d) ==> spec_object_props(body@, span) == Err::<Seq<(Seq<char>, TypeV)>, (Seq<char>, Span)>(diag_view(d)),
{
    let n = body.len();
    let mut out: Vec<Prop> = Vec::new();
    let mut i: usize = 0;
    assert(props_view(out@, 0) =~= Seq::<(Seq<char>, TypeV)>::empty());
    while i < n
        invariant
            n == body@.len(),
            i <= n,
            spec_object_props(body@.take(i as int), span) == Ok::<Seq<(Seq<char>, TypeV)>, (Seq<char>, Span)>(props_view(out@, out@.len() as int)),
        decreases n - i,
    {
        assert(body@.take(i + 1).drop_last() =~= body@.take(i as int));
        assert(body@.take(i + 1).last() == body@[i as int]);
        let res = match &body[i] {
            TsSignature::Property(p) => as_prop(p),
            _ => Err(diag("Invalid specification", span)),
        };
        match res {
            Ok(p) => {
                let ghost b = out@;
                proof {
                    lemma_props_view_push(b, p);
                }
                out.push(p);
            },
            Err(d) => {
                proof {
                    lemma_object_props_err_extends(body@, span, i + 1);
                }
                return Err(d);
            },
        }
        i = i + 1;
    }
    assert(body@.take(n as int) =~= body@);
    Ok(out)
}

proof fn lemma_enum_fold_stopped(ms: Seq<TsEnumMember>, span: Span, k: int)
    requires
        0 <= k <= ms.len(),
        enum_fold(ms, k, span).stopped,
    ensures
        enum_fold(ms, ms.len() as int, span) == enum_fold(ms, k, span),
    decreases ms.len() - k,
{
    if k < ms.len() {
        lemma_enum_fold_stopped(ms, span, k + 1);
    }
}

fn wrapping_add_usize(a: usize, b: usize) -> (r: usize)
    ensures
        r == wrap_add(a, b),
{
    if a <= usize::MAX - b {
        a + b
    } else {
        a - (usize::MAX - b) - 1
    }
}

/// Reads the specification interfaces, declared types and registered modules of a module.
pub struct TurboModuleAnalyzer<'a> {
    pub diagnostics: Vec<Diagnostic>,
    scoping: &'a Scoping,
    /// Symbol of the imported `TurboModule` interface
    mod_type_sym_id: Option<u32>,
    /// Symbol of the imported `TurboModuleRegistry`
    mod_reg_sym_id: Option<u32>,
    /// Symbol of the `react-native` namespace import
    mod_ns_sym_id: Option<u32>,
    /// Module names by the symbol of their specification
    mods: crate::idmap::IdMap<String>,
    /// Declared types by symbol
    decls: crate::idmap::IdMap<TypeAnnotation>,
    /// Specifications by symbol
    specs: crate::idmap::IdMap<Spec>,
}

impl<'a> TurboModuleAnalyzer<'a> {
    pub closed spec fn state(&self) -> AnalyzerV {
        AnalyzerV {
            diagnostics: diags_view(self.diagnostics@),
            type_sym: self.mod_type_sym_id,
            reg_sym: self.mod_reg_sym_id,
            ns_sym: self.mod_ns_sym_id,
            mods: crate::idmap::map_vals(self.mods@, string_view_fn()),
            decls: crate::idmap::map_vals(self.decls@, type_view_fn()),
            specs: crate::idmap::map_vals(self.specs@, spec_view_fn()),
        }
    }

    pub closed spec fn scoping_of(&self) -> Scoping {
        *self.scoping
    }

    pub fn new(scoping: &'a Scoping) -> (r: Self)
        ensures
            r.state() == spec_initial(),
            r.scoping_of() == *scoping,
    {
        let r = TurboModuleAnalyzer {
            diagnostics: Vec::new(),
            scoping,
            mod_type_sym_id: None,
            mod_reg_sym_id: None,
            mod_ns_sym_id: None,
            mods: crate::idmap::IdMap::new(),
            decls: crate::idmap::IdMap::new(),
            specs: crate::idmap::IdMap::new(),
        };
        assert(r.state().diagnostics =~= Seq::<(Seq<char>, Span)>::empty());
        assert(r.state().mods =~= Seq::<(u32, Seq<char>)>::empty());
        assert(r.state().decls =~= Seq::<(u32, TypeV)>::empty());
        assert(r.state().specs =~= Seq::<(u32, Seq<MethodV>)>::empty());
        r
    }

    /// Records an error.
    fn push_diag(&mut self, d: Diagnostic)
        ensures
            final(self).state() == with_diag(old(self).state(), diag_view(d)),
            final(self).scoping_of() == old(self).scoping_of(),
    {
        let ghost dv = diag_view(d);
        self.diagnostics.push(d);
        assert(self.state().diagnostics =~= old(self).state().diagnostics.push(dv));
    }

    /// Records an error at a range.
    fn collect_error(&mut self, message: &str, span: Span)
        ensures
            final(self).state() == with_diag(old(self).state(), (message@, span)),
            final(self).scoping_of() == old(self).scoping_of(),
    {
        self.push_diag(diag(message, span));
    }

    /// Records a declared type.
    fn insert_decl(&mut self, id: u32, t: TypeAnnotation)
        ensures
            final(self).state() == (AnalyzerV {
                decls: crate::idmap::id_insert(old(self).state().decls, id, tview(t)),
                ..old(self).state()
            }),
            final(self).scoping_of() == old(self).scoping_of(),
    {
        proof {
            crate::idmap::lemma_map_insert(self.decls@, id, t, type_view_fn());
        }
        self.decls.insert(id, t);
    }

    fn visit_import_declaration_specifier(&mut self, it: &TsImportSpecifier)
        ensures
            final(self).state() == spec_import_specifier(old(self).state(), *it),
            final(self).scoping_of() == old(self).scoping_of(),
    {
        match it {
            TsImportSpecifier::Named { imported, local_symbol } => {
                if let Some(symbol_id) = local_symbol {
                    if str_eq(imported.as_str(), "TurboModule") {
                        self.mod_type_sym_id = Some(*symbol_id);
                    } else if str_eq(imported.as_str(), "TurboModuleRegistry") {
                        self.mod_reg_sym_id = Some(*symbol_id);
                    }
                }
            },
            TsImportSpecifier::Namespace { local_symbol } => {
                self.mod_ns_sym_id = Some(*local_symbol);
            },
            TsImportSpecifier::Default => {},
        }
    }

    pub fn visit_import_declaration(&mut self, it: &TsImport)
        ensures
            final(self).state() == spec_visit_import(old(self).state(), *it),
            final(self).scoping_of() == old(self).scoping_of(),
    {
        if !str_eq(it.source.as_str(), "react-native") {
            return;
        }
        if let Some(specifiers) = &it.specifiers {
            let n = specifiers.len();
            let mut i: usize = 0;
            while i < n
                invariant
                    n == specifiers@.len(),
                    i <= n,
                    self.scoping_of() == old(self).scoping_of(),
                    self.state() == spec_import_specifiers(old(self).state(), specifiers@.take(i as int)),
                decreases n - i,
            {
                assert(specifiers@.take(i + 1).drop_last() =~= specifiers@.take(i as int));
                self.visit_import_declaration_specifier(&specifiers[i]);
                i = i + 1;
            }
            assert(specifiers@.take(n as int) =~= specifiers@);
        }
    }

    /// Checks whether an interface extends `TurboModule` of `react-native`.
    fn is_spec(&self, it: &TsInterface) -> (r: bool)
        ensures
            r == spec_is_spec(self.state(), self.scoping_of(), *it),
    {
        let n = it.extends.len();
        let mut i: usize = 0;
        while i < n
            invariant
                n == it.extends@.len(),
                i <= n,
                forall|j: int| 0 <= j < i ==> !heritage_is_turbo_module(self.state(), self.scoping_of(), #[trigger] it.extends@[j]),
            decreases n - i,
        {
            let found = match &it.extends[i] {
                TsHeritage::Identifier { ref_id } => self.scoping.symbol_of(*ref_id) == self.mod_type_sym_id,
                TsHeritage::Member { object_ref, property } => {
                    self.scoping.symbol_of(*object_ref) == self.mod_ns_sym_id && match property {
                        Some(p) => str_eq(p.as_str(), "TurboModule"),
                        None => false,
                    }
                },
                TsHeritage::Other => false,
            };
            if found {
                assert(heritage_is_turbo_module(self.state(), self.scoping_of(), it.extends@[i as int]));
                return true;
            }
            i = i + 1;
        }
        false
    }

    fn collect_spec(&mut self, it: &TsInterface)
        ensures
            final(self).state() == spec_collect_spec(old(self).state(), *it),
            final(self).scoping_of() == old(self).scoping_of(),
    {
        match spec_methods(&it.body, it.span) {
            Err(d) => self.push_diag(d),
            Ok(methods) => {
                let sp = Spec { methods, signals: Vec::new() };
                proof {
                    crate::idmap::lemma_map_insert(self.specs@, it.symbol, sp, spec_view_fn());
                }
                self.specs.insert(it.symbol, sp);
            },
        }
    }

    fn collect_interface_type(&mut self, it: &TsInterface)
        ensures
            final(self).state() == spec_collect_interface_type(old(self).state(), *it),
            final(self).scoping_of() == old(self).scoping_of(),
    {
        if it.extends.len() > 0 {
            return self.collect_error("Invalid specification", it.span);
        }
        match object_props(&it.body, it.span) {
            Err(d) => self.push_diag(d),
            Ok(props) => {
                let t = TypeAnnotation::Object(ObjectTypeAnnotation { name: it.name.clone(), props });
                self.insert_decl(it.symbol, t);
            },
        }
    }

    pub fn visit_ts_interface_declaration(&mut self, it: &TsInterface)
        ensures
            final(self).state() == spec_visit_interface(old(self).state(), old(self).scoping_of(), *it),
            final(self).scoping_of() == old(self).scoping_of(),
    {
        if it.declare {
            return;
        }
        if self.is_spec(it) {
            self.collect_spec(it);
        } else {
            self.collect_interface_type(it);
        }
    }

    fn collect_alias_type(&mut self, it: &TsTypeAlias)
        requires
            !it.declare,
        ensures
            final(self).state() == spec_visit_type_alias(old(self).state(), *it),
            final(self).scoping_of() == old(self).scoping_of(),
    {
        match &it.type_annotation {
            TsType::Literal { members, span } => match object_props(members, *span) {
                Ok(props) => {
                    let t = TypeAnnotation::Object(ObjectTypeAnnotation { name: it.name.clone(), props });
                    self.insert_decl(it.symbol, t);
                },
                Err(d) => self.push_diag(d),
            },
            TsType::Union(types) => match as_nullable(types) {
                Ok(t) => self.insert_decl(it.symbol, t),
                Err(m) => self.push_diag(Diagnostic { message: m, span: it.span }),
            },
            _ => self.collect_error("Invalid specification", it.span),
        }
    }

    pub fn visit_ts_type_alias_declaration(&mut self, it: &TsTypeAlias)
        ensures
            final(self).state() == spec_visit_type_alias(old(self).state(), *it),
            final(self).scoping_of() == old(self).scoping_of(),
    {
        if it.declare {
            return;
        }
        self.collect_alias_type(it);
    }

    fn collect_enum_type(&mut self, it: &TsEnum)
        requires
            !it.declare,
        ensures
            final(self).state() == spec_visit_enum(old(self).state(), *it),
            final(self).scoping_of() == old(self).scoping_of(),
    {
        let ghost st0 = self.state();
        let ms = &it.members;
        let n = ms.len();
        let mut members: Vec<EnumMember> = Vec::new();
        let mut prev_num_raw_val: usize = 0;
        let mut member_type: Option<bool> = None;
        let mut idx: usize = 0;
        while idx < n
            invariant
                n == ms@.len(),
                ms@ == it.members@,
                idx <= n,
                !it.declare,
                st0 == old(self).state(),
                self.scoping_of() == old(self).scoping_of(),
                ({
                    let acc = enum_fold(ms@, idx as int, it.span);
                    &&& !acc.stopped
                    &&& acc.members == members@.map_values(|m: EnumMember| (m.name@, crate::parser::member_view(m.value)))
                    &&& acc.prev == prev_num_raw_val
                    &&& acc.kind == member_type
                    &&& self.state() == AnalyzerV { diagnostics: st0.diagnostics + acc.diags, ..st0 }
                }),
            decreases n - idx,
        {
            let member = &ms[idx];
            let ghost acc = enum_fold(ms@, idx as int, it.span);
            let ghost before = members@;
            match &member.initializer {
                Some(TsEnumInit::Number(v)) => {
                    if member_type == Some(false) {
                        self.collect_error("Enum member type must be single type (eg. only `number` or `string`)", it.span);
                        proof {
                            lemma_enum_fold_stopped(ms@, it.span, idx + 1);
                            assert(self.state().diagnostics =~= st0.diagnostics + enum_fold(ms@, idx + 1, it.span).diags);
                        }
                        return;
                    }
                    member_type = Some(true);
                    prev_num_raw_val = *v;
                    members.push(EnumMember { name: member.name.clone(), value: EnumMemberValue::Number(*v) });
                },
                Some(TsEnumInit::String(s)) => {
                    if member_type == Some(true) {
                        self.collect_error("Enum member type must be single type (eg. only `number` or `string`)", it.span);
                        proof {
                            lemma_enum_fold_stopped(ms@, it.span, idx + 1);
                            assert(self.state().diagnostics =~= st0.diagnostics + enum_fold(ms@, idx + 1, it.span).diags);
                        }
                        return;
                    }
                    member_type = Some(false);
                    members.push(EnumMember { name: member.name.clone(), value: EnumMemberValue::String(s.clone()) });
                },
                Some(TsEnumInit::Other) => {
                    self.collect_error("Invalid specification", it.span);
                    assert(self.state().diagnostics =~= st0.diagnostics + enum_fold(ms@, idx + 1, it.span).diags);
                },
                None => {
                    if member_type == Some(false) {
                        self.collect_error("Enum member type must be single type (eg. only `number` or `string`)", it.span);
                        proof {
                            lemma_enum_fold_stopped(ms@, it.span, idx + 1);
                            assert(self.state().diagnostics =~= st0.diagnostics + enum_fold(ms@, idx + 1, it.span).diags);
                        }
                        return;
                    }
                    member_type = Some(true);
                    let value = wrapping_add_usize(prev_num_raw_val, idx);
                    members.push(EnumMember { name: member.name.clone(), value: EnumMemberValue::Number(value) });
                },
            }
            assert(members@.map_values(|m: EnumMember| (m.name@, crate::parser::member_view(m.value))) =~= enum_fold(ms@, idx + 1, it.span).members);
            idx = idx + 1;
        }
        let e = EnumTypeAnnotation { name: it.name.clone(), members };
        assert(enum_view(e).members =~= enum_fold(ms@, n as int, it.span).members);
        self.insert_decl(it.symbol, TypeAnnotation::Enum(e));
    }

    pub fn visit_ts_enum_declaration(&mut self, it: &TsEnum)
        ensures
            final(self).state() == spec_visit_enum(old(self).state(), *it),
            final(self).scoping_of() == old(self).scoping_of(),
    {
        if it.declare {
            return;
        }
        self.collect_enum_type(it);
    }
}

} // verus!

verus! {

impl<'a> TurboModuleAnalyzer<'a> {
    /// Whether a call is a registry `get`/`getEnforcing` call; records the error of another
    /// method called on an identifier.
    fn is_reg_call(&mut self, it: &TsCall) -> (r: bool)
        ensures
            r == spec_is_reg_call(old(self).state(), old(self).scoping_of(), *it).0,
            final(self).state() == match spec_is_reg_call(old(self).state(), old(self).scoping_of(), *it).1 {
                Some(d) => with_diag(old(self).state(), d),
                None => old(self).state(),
            },
            final(self).scoping_of() == old(self).scoping_of(),
    {
        match &it.callee {
            TsCallee::Member { object_ref, property, property_span, .. } => {
                let is_reg = self.scoping.symbol_of(*object_ref) == self.mod_reg_sym_id;
                let is_get = str_eq(property.as_str(), "get") || str_eq(property.as_str(), "getEnforcing");
                if is_get {
                    is_reg
                } else {
                    self.collect_error("Invalid TurboModuleRegistry method", *property_span);
                    false
                }
            },
            TsCallee::NestedMember { outer_ref, middle, property, property_span } => {
                let is_ns = match outer_ref {
                    Some(r) => self.scoping.symbol_of(*r) == self.mod_ns_sym_id,
                    None => false,
                };
                if !is_ns {
                    return false;
                }
                let is_reg = str_eq(middle.as_str(), "TurboModuleRegistry");
                let is_get = str_eq(property.as_str(), "get") || str_eq(property.as_str(), "getEnforcing");
                if is_get {
                    is_reg
                } else {
                    self.collect_error("Invalid TurboModuleRegistry method", *property_span);
                    false
                }
            },
            TsCallee::Other => false,
        }
    }

    /// The symbol of the specification that a registry call names; records why it names none.
    fn as_spec_id(&mut self, it: &TsCall) -> (r: Option<u32>)
        ensures
            r == match spec_as_spec_id(old(self).scoping_of(), *it) {
                Ok(x) => x,
                Err(_) => None,
            },
            final(self).state() == match spec_as_spec_id(old(self).scoping_of(), *it) {
                Err(d) => with_diag(old(self).state(), d),
                Ok(_) => old(self).state(),
            },
            final(self).scoping_of() == old(self).scoping_of(),
    {
        let args = match &it.type_arguments {
            Some(args) => args,
            None => {
                self.collect_error("NativeModule specification generic argument is required", it.span);
                return None;
            },
        };
        if args.len() == 0 {
            self.collect_error("NativeModule specification generic argument is required", it.span);
            return None;
        }
        if args.len() != 1 {
            self.collect_error("TurboModule specification generic argument must be exactly one", it.span);
            return None;
        }
        match &args[0] {
            TsType::Reference { ref_id, .. } => self.scoping.symbol_of(*ref_id),
            TsType::QualifiedReference => {
                self.collect_error("Invalid specification type reference", it.span);
                None
            },
            _ => {
                self.collect_error("Specification generic argument must be a type reference", it.span);
                None
            },
        }
    }

    /// Whether some module already has the name `name`.
    fn has_mod_name(&self, name: &str) -> (r: bool)
        ensures
            r == has_mod_name(self.state().mods, name@),
    {
        let entries = self.mods.entries();
        let n = entries.len();
        let mut i: usize = 0;
        while i < n
            invariant
                n == entries@.len(),
                entries@ == self.mods@,
                i <= n,
                forall|j: int| 0 <= j < i ==> (#[trigger] self.state().mods[j]).1 != name@,
            decreases n - i,
        {
            assert(self.state().mods[i as int] == (entries@[i as int].0, entries@[i as int].1@));
            if str_eq(entries[i].1.as_str(), name) {
                return true;
            }
            i = i + 1;
        }
        false
    }

    /// The module name that a registry call gives; records why it gives none.
    fn as_mod_name(&mut self, it: &TsCall) -> (r: Option<String>)
        ensures
            match r {
                Some(s) => spec_as_mod_name(old(self).state(), *it) == Ok::<Seq<char>, (Seq<char>, Span)>(s@),
                None => spec_as_mod_name(old(self).state(), *it) is Err,
            },
            final(self).state() == match spec_as_mod_name(old(self).state(), *it) {
                Err(d) => with_diag(old(self).state(), d),
                Ok(_) => old(self).state(),
            },
            final(self).scoping_of() == old(self).scoping_of(),
    {
        if it.arguments.len() == 0 {
            self.collect_error("TurboModule name is required", it.span);
            return None;
        }
        match &it.arguments[0] {
            TsArgument::StringLiteral { value, span } => {
                if self.has_mod_name(value.as_str()) {
                    self.push_diag(diag("Duplicate module name", *span));
                    return None;
                }
                Some(value.clone())
            },
            TsArgument::Other => {
                self.collect_error("TurboModule name must be a string literal", it.span);
                None
            },
        }
    }

    /// Records the module a registry call registers.
    fn collect_mod(&mut self, it: &TsCall)
        ensures
            final(self).state() == spec_visit_call(old(self).state(), old(self).scoping_of(), *it),
            final(self).scoping_of() == old(self).scoping_of(),
    {
        if !self.is_reg_call(it) {
            return;
        }
        let spec_id = match self.as_spec_id(it) {
            Some(spec_id) => spec_id,
            None => {
                return;
            },
        };
        match self.as_mod_name(it) {
            Some(mod_name) => {
                proof {
                    crate::idmap::lemma_map_insert(self.mods@, spec_id, mod_name, string_view_fn());
                }
                self.mods.insert(spec_id, mod_name);
            },
            None => {},
        }
    }

    pub fn visit_call_expression(&mut self, it: &TsCall)
        ensures
            final(self).state() == spec_visit_call(old(self).state(), old(self).scoping_of(), *it),
            final(self).scoping_of() == old(self).scoping_of(),
    {
        self.collect_mod(it);
    }

    pub fn visit_item(&mut self, item: &TsItem)
        ensures
            final(self).state() == spec_visit_item(old(self).state(), old(self).scoping_of(), *item),
            final(self).scoping_of() == old(self).scoping_of(),
    {
        match item {
            TsItem::Import(it) => self.visit_import_declaration(it),
            TsItem::Interface(it) => self.visit_ts_interface_declaration(it),
            TsItem::TypeAlias(it) => self.visit_ts_type_alias_declaration(it),
            TsItem::Enum(it) => self.visit_ts_enum_declaration(it),
            TsItem::Call(c) => self.visit_call_expression(c),
        }
    }

    /// Visits the items of a module in order.
    pub fn visit_program(&mut self, items: &Vec<TsItem>)
        requires
            old(self).state() == spec_initial(),
        ensures
            final(self).state() == spec_visit_items(old(self).scoping_of(), items@),
            final(self).scoping_of() == old(self).scoping_of(),
    {
        let n = items.len();
        let mut i: usize = 0;
        while i < n
            invariant
                n == items@.len(),
                i <= n,
                self.scoping_of() == old(self).scoping_of(),
                self.state() == spec_visit_items(old(self).scoping_of(), items@.take(i as int)),
            decreases n - i,
        {
            assert(items@.take(i + 1).drop_last() =~= items@.take(i as int));
            self.visit_item(&items[i]);
            i = i + 1;
        }
        assert(items@.take(n as int) =~= items@);
    }
}

} // verus!

verus! {

/// A type with its references replaced by the types they refer to (recursively, through
/// object properties and nullable types), taking at most `fuel` nested steps; `None` where
/// that is not enough (the declarations refer to each other in a cycle, or nest deeper).
pub open spec fn resolve_v(t: TypeV, sc: Scoping, decls: Seq<(u32, TypeV)>, fuel: nat) -> Option<TypeV>
    decreases fuel, 0int,
{
    match t {
        TypeV::Ref(ref_id, _) => match spec_symbol_of(sc, ref_id) {
            Some(sym) => match crate::idmap::id_get(decls, sym) {
                Some(d) => if fuel == 0 {
                    None
                } else {
                    resolve_v(d, sc, decls, (fuel - 1) as nat)
                },
                None => Some(t),
            },
            None => Some(t),
        },
        TypeV::Object(o) => if fuel == 0 {
            None
        } else {
            match resolve_props_v(o.props, o.props.len() as int, sc, decls, (fuel - 1) as nat) {
                Some(ps) => Some(TypeV::Object(ObjV { name: o.name, props: ps })),
                None => None,
            }
        },
        TypeV::Nullable(b) => if fuel == 0 {
            None
        } else {
            match resolve_v(*b, sc, decls, (fuel - 1) as nat) {
                Some(x) => Some(TypeV::Nullable(Box::new(x))),
                None => None,
            }
        },
        _ => Some(t),
    }
}

/// The first `n` properties resolved.
pub open spec fn resolve_props_v(
    ps: Seq<(Seq<char>, TypeV)>,
    n: int,
    sc: Scoping,
    decls: Seq<(u32, TypeV)>,
    fuel: nat,
) -> Option<Seq<(Seq<char>, TypeV)>>
    decreases fuel, n,
{
    if n <= 0 || n > ps.len() {
        Some(Seq::empty())
    } else {
        match resolve_props_v(ps, n - 1, sc, decls, fuel) {
            None => None,
            Some(prev) => match resolve_v(ps[n - 1].1, sc, decls, fuel) {
                Some(x) => Some(prev.push((ps[n - 1].0, x))),
                None => None,
            },
        }
    }
}

/// The object and enum types a type uses: an object, then what its properties use, in order;
/// an enum. (Arrays and nullable types are not looked into.)
pub open spec fn collect_v(t: TypeV) -> (Seq<ObjV>, Seq<EnumV>)
    decreases t, 0int,
{
    match t {
        TypeV::Object(o) => {
            let (os, es) = collect_props_v(o.props, o.props.len() as int);
            (seq![o] + os, es)
        },
        TypeV::Enum(e) => (Seq::empty(), seq![e]),
        _ => (Seq::empty(), Seq::empty()),
    }
}

pub open spec fn collect_props_v(ps: Seq<(Seq<char>, TypeV)>, n: int) -> (Seq<ObjV>, Seq<EnumV>)
    decreases ps, n,
{
    if n <= 0 || n > ps.len() {
        (Seq::empty(), Seq::empty())
    } else {
        let (a, b) = collect_props_v(ps, n - 1);
        let (c, d) = collect_v(ps[n - 1].1);
        (a + c, b + d)
    }
}

/// The types of a list (parameters) resolved, with what they use collected; `None` where a
/// resolution does not finish.
pub open spec fn resolve_params_v(ps: Seq<(Seq<char>, TypeV)>, sc: Scoping, decls: Seq<(u32, TypeV)>, fuel: nat) -> Option<(Seq<(Seq<char>, TypeV)>, Seq<ObjV>, Seq<EnumV>)>
    decreases ps.len(),
{
    if ps.len() == 0 {
        Some((Seq::empty(), Seq::empty(), Seq::empty()))
    } else {
        match resolve_params_v(ps.drop_last(), sc, decls, fuel) {
            None => None,
            Some((done, os, es)) => match resolve_v(ps.last().1, sc, decls, fuel) {
                None => None,
                Some(r) => Some((done.push((ps.last().0, r)), os + collect_v(r).0, es + collect_v(r).1)),
            },
        }
    }
}

/// A method with its parameter and return types resolved, and the types they use.
pub open spec fn resolve_method_v(m: MethodV, sc: Scoping, decls: Seq<(u32, TypeV)>, fuel: nat) -> Option<(MethodV, Seq<ObjV>, Seq<EnumV>)> {
    match resolve_params_v(m.params, sc, decls, fuel) {
        None => None,
        Some((ps, os, es)) => match resolve_v(m.ret, sc, decls, fuel) {
            None => None,
            Some(r) => Some((MethodV { name: m.name, params: ps, ret: r }, os + collect_v(r).0, es + collect_v(r).1)),
        },
    }
}

pub open spec fn resolve_methods_v(ms: Seq<MethodV>, sc: Scoping, decls: Seq<(u32, TypeV)>, fuel: nat) -> Option<(Seq<MethodV>, Seq<ObjV>, Seq<EnumV>)>
    decreases ms.len(),
{
    if ms.len() == 0 {
        Some((Seq::empty(), Seq::empty(), Seq::empty()))
    } else {
        match resolve_methods_v(ms.drop_last(), sc, decls, fuel) {
            None => None,
            Some((done, os, es)) => match resolve_method_v(ms.last(), sc, decls, fuel) {
                None => None,
                Some((m, o2, e2)) => Some((done.push(m), os + o2, es + e2)),
            },
        }
    }
}

pub open spec fn msg_module_name_not_found() -> Seq<char> {
    "Module name not found"@
}

/// The module schemas of the specifications, in order of their symbols: `Err` where a
/// specification has no registered module name; `None` where a resolution does not finish.
pub open spec fn spec_into_schema(st: AnalyzerV, specs: Seq<(u32, Seq<MethodV>)>, sc: Scoping, fuel: nat) -> Option<Result<Seq<ModuleV>, Seq<char>>>
    decreases specs.len(),
{
    if specs.len() == 0 {
        Some(Ok(Seq::empty()))
    } else {
        match spec_into_schema(st, specs.drop_last(), sc, fuel) {
            None => None,
            Some(Err(m)) => Some(Err(m)),
            Some(Ok(done)) => match crate::idmap::id_get(st.mods, specs.last().0) {
                None => Some(Err(msg_module_name_not_found())),
                Some(name) => match resolve_methods_v(specs.last().1, sc, st.decls, fuel) {
                    None => None,
                    Some((ms, os, es)) => Some(Ok(done.push(ModuleV { module_name: name, alias_map: os, enum_map: es, methods: ms }))),
                },
            },
        }
    }
}

pub ghost enum ParseErrV {
    General(Seq<char>),
    Oxc(Seq<(Seq<char>, Span)>),
}

pub open spec fn parse_err_view(e: ParseError) -> ParseErrV {
    match e {
        ParseError::General(m) => ParseErrV::General(m@),
        ParseError::Oxc { diagnostics } => ParseErrV::Oxc(diags_view(diagnostics@)),
    }
}

/// What reading a module gives: the errors the visit found, or the module schemas (`None`:
/// a resolution does not finish within `fuel` steps).
pub open spec fn spec_parse_schema(items: Seq<TsItem>, sc: Scoping, fuel: nat) -> Option<Result<Seq<ModuleV>, ParseErrV>> {
    let st = spec_visit_items(sc, items);
    if st.diagnostics.len() > 0 {
        Some(Err(ParseErrV::Oxc(st.diagnostics)))
    } else {
        match spec_into_schema(st, st.specs, sc, fuel) {
            None => None,
            Some(Err(m)) => Some(Err(ParseErrV::General(m))),
            Some(Ok(v)) => Some(Ok(v)),
        }
    }
}

pub open spec fn schemas_view(v: Seq<ModuleSchema>) -> Seq<ModuleV> {
    v.map_values(|s: ModuleSchema| module_view(s))
}

pub open spec fn objs_view(v: Seq<ObjectTypeAnnotation>) -> Seq<ObjV> {
    v.map_values(|o: ObjectTypeAnnotation| obj_view(o))
}

pub open spec fn enums_view(v: Seq<EnumTypeAnnotation>) -> Seq<EnumV> {
    v.map_values(|e: EnumTypeAnnotation| enum_view(e))
}

} // verus!

verus! {

proof fn lemma_resolve_props_step(ps: Seq<(Seq<char>, TypeV)>, i: int, sc: Scoping, decls: Seq<(u32, TypeV)>, fuel: nat)
    requires
        0 <= i < ps.len(),
    ensures
        resolve_props_v(ps, i + 1, sc, decls, fuel) == match resolve_props_v(ps, i, sc, decls, fuel) {
            None => None,
            Some(prev) => match resolve_v(ps[i].1, sc, decls, fuel) {
                Some(x) => Some(prev.push((ps[i].0, x))),
                None => None,
            },
        },
{
}

/// Resolves the type references of a type, taking at most `fuel` nested steps.
pub fn resolve_refs(
    t: TypeAnnotation,
    scoping: &Scoping,
    decls: &crate::idmap::IdMap<TypeAnnotation>,
    fuel: u64,
) -> (r: Option<TypeAnnotation>)
    ensures
        match r {
            Some(x) => resolve_v(tview(t), *scoping, crate::idmap::map_vals(decls@, type_view_fn()), fuel as nat) == Some(tview(x)),
            None => resolve_v(tview(t), *scoping, crate::idmap::map_vals(decls@, type_view_fn()), fuel as nat) is None,
        },
    decreases fuel,
{
    let ghost dv = crate::idmap::map_vals(decls@, type_view_fn());
    match t {
        TypeAnnotation::Ref(x) => match scoping.symbol_of(x.ref_id) {
            Some(sym) => {
                proof {
                    crate::idmap::lemma_map_get(decls@, sym, type_view_fn());
                }
                match decls.get(sym) {
                    Some(d) => {
                        if fuel == 0 {
                            None
                        } else {
                            let c = clone_type_of(d);
                            resolve_refs(c, scoping, decls, fuel - 1)
                        }
                    },
                    None => Some(TypeAnnotation::Ref(x)),
                }
            },
            None => Some(TypeAnnotation::Ref(x)),
        },
        TypeAnnotation::Object(o) => {
            if fuel == 0 {
                return None;
            }
            let ghost pv = props_view(o.props@, o.props@.len() as int);
            proof {
                crate::parser::lemma_props_view(o.props@);
            }
            let ObjectTypeAnnotation { name, props } = o;
            let n = props.len();
            let mut out: Vec<Prop> = Vec::new();
            let mut i: usize = 0;
            assert(props_view(out@, 0) =~= Seq::<(Seq<char>, TypeV)>::empty());
            assert(resolve_v(tview(t), *scoping, dv, fuel as nat) == match resolve_props_v(pv, n as int, *scoping, dv, (fuel - 1) as nat) {
                Some(ps) => Some(TypeV::Object(ObjV { name: name@, props: ps })),
                None => None,
            });
            while i < n
                invariant
                    resolve_v(tview(t), *scoping, dv, fuel as nat) == match resolve_props_v(pv, n as int, *scoping, dv, (fuel - 1) as nat) {
                        Some(ps) => Some(TypeV::Object(ObjV { name: name@, props: ps })),
                        None => None,
                    },
                    n == props@.len(),
                    pv.len() == n,
                    forall|j: int| 0 <= j < n ==> #[trigger] pv[j] == (props@[j].name@, tview(props@[j].type_annotation)),
                    i <= n,
                    fuel > 0,
                    dv == crate::idmap::map_vals(decls@, type_view_fn()),
                    resolve_props_v(pv, i as int, *scoping, dv, (fuel - 1) as nat) == Some(props_view(out@, out@.len() as int)),
                decreases n - i,
            {
                proof {
                    lemma_resolve_props_step(pv, i as int, *scoping, dv, (fuel - 1) as nat);
                }
                let c = clone_type_of(&props[i].type_annotation);
                match resolve_refs(c, scoping, decls, fuel - 1) {
                    Some(x) => {
                        let p = Prop { name: props[i].name.clone(), type_annotation: x };
                        proof {
                            lemma_props_view_push(out@, p);
                        }
                        out.push(p);
                    },
                    None => {
                        proof {
                            lemma_resolve_props_none(pv, i + 1, *scoping, dv, (fuel - 1) as nat);
                        }
                        return None;
                    },
                }
                i = i + 1;
            }
            let r = TypeAnnotation::Object(ObjectTypeAnnotation { name, props: out });
            Some(r)
        },
        TypeAnnotation::Nullable(b) => {
            if fuel == 0 {
                return None;
            }
            match resolve_refs(*b, scoping, decls, fuel - 1) {
                Some(x) => Some(TypeAnnotation::Nullable(Box::new(x))),
                None => None,
            }
        },
        other => Some(other),
    }
}

/// A copy of a type.
fn clone_type_of(t: &TypeAnnotation) -> (r: TypeAnnotation)
    ensures
        tview(r) == tview(*t),
{
    crate::parser::clone_type(t)
}

proof fn lemma_resolve_props_none(ps: Seq<(Seq<char>, TypeV)>, k: int, sc: Scoping, decls: Seq<(u32, TypeV)>, fuel: nat)
    requires
        0 <= k <= ps.len(),
        resolve_props_v(ps, k, sc, decls, fuel) is None,
    ensures
        resolve_props_v(ps, ps.len() as int, sc, decls, fuel) is None,
    decreases ps.len() - k,
{
    if k < ps.len() {
        lemma_resolve_props_step(ps, k, sc, decls, fuel);
        lemma_resolve_props_none(ps, k + 1, sc, decls, fuel);
    }
}

/// Collects the object and enum types a type uses.
pub fn collect_types(t: &TypeAnnotation, types: &mut Vec<ObjectTypeAnnotation>, enums: &mut Vec<EnumTypeAnnotation>)
    ensures
        objs_view(final(types)@) == objs_view(old(types)@) + collect_v(tview(*t)).0,
        enums_view(final(enums)@) == enums_view(old(enums)@) + collect_v(tview(*t)).1,
    decreases t,
{
    match t {
        TypeAnnotation::Object(obj) => collect_object(obj, types, enums),
        TypeAnnotation::Enum(e) => {
            let ghost e0 = enums_view(enums@);
            let c = crate::parser::clone_enum(e);
            enums.push(c);
            assert(enums_view(enums@) =~= e0 + seq![enum_view(*e)]);
            assert(objs_view(types@) =~= objs_view(types@) + Seq::<ObjV>::empty());
        },
        _ => {
            assert(objs_view(types@) =~= objs_view(types@) + Seq::<ObjV>::empty());
            assert(enums_view(enums@) =~= enums_view(enums@) + Seq::<EnumV>::empty());
        },
    }
}

/// Collects an object type and the types its properties use.
fn collect_object(obj: &ObjectTypeAnnotation, types: &mut Vec<ObjectTypeAnnotation>, enums: &mut Vec<EnumTypeAnnotation>)
    ensures
        objs_view(final(types)@) == objs_view(old(types)@) + collect_v(TypeV::Object(obj_view(*obj))).0,
        enums_view(final(enums)@) == enums_view(old(enums)@) + collect_v(TypeV::Object(obj_view(*obj))).1,
    decreases obj,
{
    let ghost pv = props_view(obj.props@, obj.props@.len() as int);
    proof {
        crate::parser::lemma_props_view(obj.props@);
    }
    let ghost o0 = objs_view(types@);
    let ghost e0 = enums_view(enums@);
    let c = crate::parser::clone_object(obj);
    types.push(c);
    assert(objs_view(types@) =~= o0.push(obj_view(*obj)));
    let n = obj.props.len();
    let mut i: usize = 0;
    assert(collect_props_v(pv, 0) == (Seq::<ObjV>::empty(), Seq::<EnumV>::empty()));
    assert(o0.push(obj_view(*obj)) + Seq::<ObjV>::empty() =~= o0.push(obj_view(*obj)));
    assert(e0 + Seq::<EnumV>::empty() =~= e0);
    while i < n
        invariant
            n == obj.props@.len(),
            pv.len() == n,
            pv == obj_view(*obj).props,
            forall|j: int| 0 <= j < n ==> #[trigger] pv[j] == (obj.props@[j].name@, tview(obj.props@[j].type_annotation)),
            i <= n,
            objs_view(types@) == o0.push(obj_view(*obj)) + collect_props_v(pv, i as int).0,
            enums_view(enums@) == e0 + collect_props_v(pv, i as int).1,
        decreases n - i,
    {
        proof {
            assert(decreases_to!(obj => obj.props@[i as int].type_annotation)) by {
                broadcast use vstd::std_specs::vec::axiom_vec_decreases_to_view;
            }
        }
        let ghost ob = collect_props_v(pv, i as int);
        collect_types(&obj.props[i].type_annotation, types, enums);
        assert(collect_props_v(pv, i + 1) == (ob.0 + collect_v(pv[i as int].1).0, ob.1 + collect_v(pv[i as int].1).1));
        assert(objs_view(types@) =~= o0.push(obj_view(*obj)) + collect_props_v(pv, i + 1).0);
        assert(enums_view(enums@) =~= e0 + collect_props_v(pv, i + 1).1);
        i = i + 1;
    }
    assert(o0.push(obj_view(*obj)) + collect_props_v(pv, n as int).0 =~= o0 + (seq![obj_view(*obj)] + collect_props_v(pv, n as int).0));
}

} // verus!

verus! {

/// A type resolved, with what it uses appended to `types` and `enums`.
fn resolve_and_collect(
    t: &TypeAnnotation,
    scoping: &Scoping,
    decls: &crate::idmap::IdMap<TypeAnnotation>,
    fuel: u64,
    types: &mut Vec<ObjectTypeAnnotation>,
    enums: &mut Vec<EnumTypeAnnotation>,
) -> (r: Option<TypeAnnotation>)
    ensures
        match r {
            Some(x) => {
                &&& resolve_v(tview(*t), *scoping, crate::idmap::map_vals(decls@, type_view_fn()), fuel as nat) == Some(tview(x))
                &&& objs_view(final(types)@) == objs_view(old(types)@) + collect_v(tview(x)).0
                &&& enums_view(final(enums)@) == enums_view(old(enums)@) + collect_v(tview(x)).1
            },
            None => resolve_v(tview(*t), *scoping, crate::idmap::map_vals(decls@, type_view_fn()), fuel as nat) is None,
        },
{
    let c = clone_type_of(t);
    match resolve_refs(c, scoping, decls, fuel) {
        Some(x) => {
            collect_types(&x, types, enums);
            Some(x)
        },
        None => None,
    }
}

/// A method with its types resolved, and the object and enum types it uses.
fn resolve_method(
    m: &Method,
    scoping: &Scoping,
    decls: &crate::idmap::IdMap<TypeAnnotation>,
    fuel: u64,
) -> (r: Option<(Method, Vec<ObjectTypeAnnotation>, Vec<EnumTypeAnnotation>)>)
    ensures
        match r {
            Some((x, os, es)) => resolve_method_v(method_view(*m), *scoping, crate::idmap::map_vals(decls@, type_view_fn()), fuel as nat)
                == Some((method_view(x), objs_view(os@), enums_view(es@))),
            None => resolve_method_v(method_view(*m), *scoping, crate::idmap::map_vals(decls@, type_view_fn()), fuel as nat) is None,
        },
{
    let ghost dv = crate::idmap::map_vals(decls@, type_view_fn());
    let ghost pv = params_view(m.params@);
    let mut types: Vec<ObjectTypeAnnotation> = Vec::new();
    let mut enums: Vec<EnumTypeAnnotation> = Vec::new();
    let mut params: Vec<Param> = Vec::new();
    let n = m.params.len();
    let mut i: usize = 0;
    assert(pv.take(0) =~= Seq::<(Seq<char>, TypeV)>::empty());
    assert(params_view(params@) =~= Seq::<(Seq<char>, TypeV)>::empty());
    assert(objs_view(types@) =~= Seq::<ObjV>::empty());
    assert(enums_view(enums@) =~= Seq::<EnumV>::empty());
    while i < n
        invariant
            n == m.params@.len(),
            pv == params_view(m.params@),
            dv == crate::idmap::map_vals(decls@, type_view_fn()),
            i <= n,
            resolve_params_v(pv.take(i as int), *scoping, dv, fuel as nat) == Some((params_view(params@), objs_view(types@), enums_view(enums@))),
        decreases n - i,
    {
        assert(pv.take(i + 1).drop_last() =~= pv.take(i as int));
        assert(pv.take(i + 1).last() == pv[i as int]);
        let p = &m.params[i];
        match resolve_and_collect(&p.type_annotation, scoping, decls, fuel, &mut types, &mut enums) {
            Some(x) => {
                let ghost b = params_view(params@);
                let ghost entry = (p.name@, tview(x));
                params.push(Param { name: p.name.clone(), type_annotation: x });
                assert(params_view(params@) =~= b.push(entry));
            },
            None => {
                proof {
                    lemma_resolve_params_none(pv, i + 1, *scoping, dv, fuel as nat);
                }
                return None;
            },
        }
        i = i + 1;
    }
    assert(pv.take(n as int) =~= pv);
    match resolve_and_collect(&m.ret_type, scoping, decls, fuel, &mut types, &mut enums) {
        Some(x) => Some((Method { name: m.name.clone(), params, ret_type: x }, types, enums)),
        None => None,
    }
}

proof fn lemma_resolve_params_none(ps: Seq<(Seq<char>, TypeV)>, k: int, sc: Scoping, decls: Seq<(u32, TypeV)>, fuel: nat)
    requires
        0 <= k <= ps.len(),
        resolve_params_v(ps.take(k), sc, decls, fuel) is None,
    ensures
        resolve_params_v(ps, sc, decls, fuel) is None,
    decreases ps.len() - k,
{
    if k < ps.len() {
        assert(ps.take(k + 1).drop_last() =~= ps.take(k));
        lemma_resolve_params_none(ps, k + 1, sc, decls, fuel);
    } else {
        assert(ps.take(k) =~= ps);
    }
}

proof fn lemma_resolve_methods_none(ms: Seq<MethodV>, k: int, sc: Scoping, decls: Seq<(u32, TypeV)>, fuel: nat)
    requires
        0 <= k <= ms.len(),
        resolve_methods_v(ms.take(k), sc, decls, fuel) is None,
    ensures
        resolve_methods_v(ms, sc, decls, fuel) is None,
    decreases ms.len() - k,
{
    if k < ms.len() {
        assert(ms.take(k + 1).drop_last() =~= ms.take(k));
        lemma_resolve_methods_none(ms, k + 1, sc, decls, fuel);
    } else {
        assert(ms.take(k) =~= ms);
    }
}

/// The methods of a specification resolved, and the types they use.
fn resolve_methods(
    ms: &Vec<Method>,
    scoping: &Scoping,
    decls: &crate::idmap::IdMap<TypeAnnotation>,
    fuel: u64,
) -> (r: Option<(Vec<Method>, Vec<ObjectTypeAnnotation>, Vec<EnumTypeAnnotation>)>)
    ensures
        match r {
            Some((x, os, es)) => resolve_methods_v(methods_view(ms@), *scoping, crate::idmap::map_vals(decls@, type_view_fn()), fuel as nat)
                == Some((methods_view(x@), objs_view(os@), enums_view(es@))),
            None => resolve_methods_v(methods_view(ms@), *scoping, crate::idmap::map_vals(decls@, type_view_fn()), fuel as nat) is None,
        },
{
    let ghost dv = crate::idmap::map_vals(decls@, type_view_fn());
    let ghost mv = methods_view(ms@);
    let mut types: Vec<ObjectTypeAnnotation> = Vec::new();
    let mut enums: Vec<EnumTypeAnnotation> = Vec::new();
    let mut out: Vec<Method> = Vec::new();
    let n = ms.len();
    let mut i: usize = 0;
    assert(mv.take(0) =~= Seq::<MethodV>::empty());
    assert(methods_view(out@) =~= Seq::<MethodV>::empty());
    assert(objs_view(types@) =~= Seq::<ObjV>::empty());
    assert(enums_view(enums@) =~= Seq::<EnumV>::empty());
    while i < n
        invariant
            n == ms@.len(),
            mv == methods_view(ms@),
            dv == crate::idmap::map_vals(decls@, type_view_fn()),
            i <= n,
            resolve_methods_v(mv.take(i as int), *scoping, dv, fuel as nat) == Some((methods_view(out@), objs_view(types@), enums_view(enums@))),
        decreases n - i,
    {
        assert(mv.take(i + 1).drop_last() =~= mv.take(i as int));
        assert(mv.take(i + 1).last() == mv[i as int]);
        match resolve_method(&ms[i], scoping, decls, fuel) {
            Some((x, mut os, mut es)) => {
                let ghost b = methods_view(out@);
                let ghost o0 = objs_view(types@);
                let ghost e0 = enums_view(enums@);
                let ghost o1 = objs_view(os@);
                let ghost e1 = enums_view(es@);
                let ghost xv = method_view(x);
                out.push(x);
                types.append(&mut os);
                enums.append(&mut es);
                assert(methods_view(out@) =~= b.push(xv));
                assert(objs_view(types@) =~= o0 + o1);
                assert(enums_view(enums@) =~= e0 + e1);
            },
            None => {
                proof {
                    lemma_resolve_methods_none(mv, i + 1, *scoping, dv, fuel as nat);
                }
                return None;
            },
        }
        i = i + 1;
    }
    assert(mv.take(n as int) =~= mv);
    Some((out, types, enums))
}

impl<'a> TurboModuleAnalyzer<'a> {
    /// The module schemas of the collected specifications, in order of their symbols, with
    /// every type reference resolved (at most `fuel` nested steps each); `None` where that is
    /// not enough.
    pub fn into_schema(self, fuel: u64) -> (r: Option<Result<Vec<ModuleSchema>, ParseError>>)
        ensures
            match r {
                None => spec_into_schema(self.state(), self.state().specs, self.scoping_of(), fuel as nat) is None,
                Some(Ok(v)) => spec_into_schema(self.state(), self.state().specs, self.scoping_of(), fuel as nat)
                    == Some(Ok::<Seq<ModuleV>, Seq<char>>(schemas_view(v@))),
                Some(Err(e)) => spec_into_schema(self.state(), self.state().specs, self.scoping_of(), fuel as nat)
                    == Some(Err::<Seq<ModuleV>, Seq<char>>(match e {
                        ParseError::General(m) => m@,
                        ParseError::Oxc { .. } => Seq::empty(),
                    })) && e is General,
        },
    {
        let ghost st = self.state();
        let entries = self.specs.entries();
        let ghost sv = st.specs;
        let n = entries.len();
        let mut out: Vec<ModuleSchema> = Vec::new();
        let mut i: usize = 0;
        assert(sv.take(0) =~= Seq::<(u32, Seq<MethodV>)>::empty());
        assert(schemas_view(out@) =~= Seq::<ModuleV>::empty());
        while i < n
            invariant
                n == entries@.len(),
                entries@ == self.specs@,
                st == self.state(),
                sv == st.specs,
                sv == crate::idmap::map_vals(self.specs@, spec_view_fn()),
                i <= n,
                spec_into_schema(st, sv.take(i as int), self.scoping_of(), fuel as nat) == Some(Ok::<Seq<ModuleV>, Seq<char>>(schemas_view(out@))),
            decreases n - i,
        {
            assert(sv.take(i + 1).drop_last() =~= sv.take(i as int));
            assert(sv.take(i + 1).last() == sv[i as int]);
            let (id, spec) = (&entries[i].0, &entries[i].1);
            assert(sv[i as int] == (*id, methods_view(spec.methods@)));
            proof {
                crate::idmap::lemma_map_get(self.mods@, *id, string_view_fn());
            }
            let module_name = match self.mods.get(*id) {
                Some(name) => name.clone(),
                None => {
                    proof {
                        lemma_into_schema_err_extends(st, sv, i + 1, self.scoping_of(), fuel as nat);
                    }
                    return Some(Err(ParseError::General(String::from_str("Module name not found"))));
                },
            };
            match resolve_methods(&spec.methods, self.scoping, &self.decls, fuel) {
                Some((methods, types, enums)) => {
                    let ghost b = schemas_view(out@);
                    let s = ModuleSchema { module_name, alias_map: types, enum_map: enums, methods };
                    let ghost sview = module_view(s);
                    out.push(s);
                    assert(schemas_view(out@) =~= b.push(sview));
                },
                None => {
                    proof {
                        lemma_into_schema_none_extends(st, sv, i + 1, self.scoping_of(), fuel as nat);
                    }
                    return None;
                },
            }
            i = i + 1;
        }
        assert(sv.take(n as int) =~= sv);
        Some(Ok(out))
    }
}

proof fn lemma_into_schema_err_extends(st: AnalyzerV, specs: Seq<(u32, Seq<MethodV>)>, k: int, sc: Scoping, fuel: nat)
    requires
        0 <= k <= specs.len(),
        spec_into_schema(st, specs.take(k), sc, fuel) matches Some(Err(_)),
    ensures
        spec_into_schema(st, specs, sc, fuel) == spec_into_schema(st, specs.take(k), sc, fuel),
    decreases specs.len() - k,
{
    if k < specs.len() {
        assert(specs.take(k + 1).drop_last() =~= specs.take(k));
        lemma_into_schema_err_extends(st, specs, k + 1, sc, fuel);
    } else {
        assert(specs.take(k) =~= specs);
    }
}

proof fn lemma_into_schema_none_extends(st: AnalyzerV, specs: Seq<(u32, Seq<MethodV>)>, k: int, sc: Scoping, fuel: nat)
    requires
        0 <= k <= specs.len(),
        spec_into_schema(st, specs.take(k), sc, fuel) is None,
    ensures
        spec_into_schema(st, specs, sc, fuel) is None,
    decreases specs.len() - k,
{
    if k < specs.len() {
        assert(specs.take(k + 1).drop_last() =~= specs.take(k));
        lemma_into_schema_none_extends(st, specs, k + 1, sc, fuel);
    } else {
        assert(specs.take(k) =~= specs);
    }
}

/// Reads the module schemas of a TypeScript module, resolving each type reference in at
/// most `fuel` nested steps: the analysis's diagnostics where it found errors; `None` where
/// the resolution does not finish within `fuel` steps.
pub fn parse_schema_within(items: &Vec<TsItem>, scoping: &Scoping, fuel: u64) -> (r: Option<Result<Vec<ModuleSchema>, ParseError>>)
    ensures
        match r {
            None => spec_parse_schema(items@, *scoping, fuel as nat) is None,
            Some(Ok(v)) => spec_parse_schema(items@, *scoping, fuel as nat) == Some(Ok::<Seq<ModuleV>, ParseErrV>(schemas_view(v@))),
            Some(Err(e)) => spec_parse_schema(items@, *scoping, fuel as nat) == Some(Err::<Seq<ModuleV>, ParseErrV>(parse_err_view(e))),
        },
{
    let mut analyzer = TurboModuleAnalyzer::new(scoping);
    analyzer.visit_program(items);
    if analyzer.diagnostics.len() > 0 {
        let TurboModuleAnalyzer { diagnostics, .. } = analyzer;
        return Some(Err(ParseError::Oxc { diagnostics }));
    }
    analyzer.into_schema(fuel)
}

/// Reads the module schemas of a TypeScript module (whose type references resolve within
/// `u64::MAX` nested steps; a cycle among the declarations would not end).
pub fn parse_schema(items: &Vec<TsItem>, scoping: &Scoping) -> (r: Result<Vec<ModuleSchema>, ParseError>)
    requires
        spec_parse_schema(items@, *scoping, u64::MAX as nat) is Some,
    ensures
        match r {
            Ok(v) => spec_parse_schema(items@, *scoping, u64::MAX as nat) == Some(Ok::<Seq<ModuleV>, ParseErrV>(schemas_view(v@))),
            Err(e) => spec_parse_schema(items@, *scoping, u64::MAX as nat) == Some(Err::<Seq<ModuleV>, ParseErrV>(parse_err_view(e))),
        },
{
    match parse_schema_within(items, scoping, u64::MAX) {
        Some(r) => r,
        None => {
            assert(false);
            Err(ParseError::General(String::new()))
        },
    }
}

} // verus!

verus! {

/// Once the resolution of a type finishes within some number of steps, allowing more steps
/// gives the same type: the result does not depend on the bound.
pub proof fn lemma_resolve_fuel_monotone(t: TypeV, sc: Scoping, decls: Seq<(u32, TypeV)>, f1: nat, f2: nat)
    requires
        f1 <= f2,
        resolve_v(t, sc, decls, f1) is Some,
    ensures
        resolve_v(t, sc, decls, f2) == resolve_v(t, sc, decls, f1),
    decreases f1, 0int,
{
    match t {
        TypeV::Ref(ref_id, _) => {
            if let Some(sym) = spec_symbol_of(sc, ref_id) {
                if let Some(d) = crate::idmap::id_get(decls, sym) {
                    lemma_resolve_fuel_monotone(d, sc, decls, (f1 - 1) as nat, (f2 - 1) as nat);
                }
            }
        },
        TypeV::Object(o) => {
            lemma_resolve_props_fuel_monotone(o.props, o.props.len() as int, sc, decls, (f1 - 1) as nat, (f2 - 1) as nat);
        },
        TypeV::Nullable(b) => {
            lemma_resolve_fuel_monotone(*b, sc, decls, (f1 - 1) as nat, (f2 - 1) as nat);
        },
        _ => {},
    }
}

proof fn lemma_resolve_props_fuel_monotone(
    ps: Seq<(Seq<char>, TypeV)>,
    n: int,
    sc: Scoping,
    decls: Seq<(u32, TypeV)>,
    f1: nat,
    f2: nat,
)
    requires
        f1 <= f2,
        resolve_props_v(ps, n, sc, decls, f1) is Some,
    ensures
        resolve_props_v(ps, n, sc, decls, f2) == resolve_props_v(ps, n, sc, decls, f1),
    decreases f1, n,
{
    if 0 < n <= ps.len() {
        lemma_resolve_props_fuel_monotone(ps, n - 1, sc, decls, f1, f2);
        lemma_resolve_fuel_monotone(ps[n - 1].1, sc, decls, f1, f2);
    }
}

} // verus!
