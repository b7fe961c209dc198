//! The JSI bridging templates of a module, in the order the bridging header declares them:
//! enums first, then each alias struct (and the nullable struct named after it) in dependency
//! order, then the remaining structs and nullable structs by name.
use vstd::prelude::*;
use vstd::string::*;
use crate::schema::{Alias, AliasProperty, CodegenError, FunctionSpec, Parameter, Schema, TypeAnnotation};
use crate::cxx_gen::{
    cxx_default_val_terminates, cxx_enum_bridging_template, cxx_nullable_bridging_template,
    cxx_struct_bridging_template, mod_qualified, spec_cxx_enum_bridging_template,
    spec_cxx_nullable_bridging_template, spec_cxx_struct_bridging_template, spec_cxx_type,
    spec_mod_ns,
};
use crate::keyed::{
    KeyedTexts, has_key, key_remove, key_seq, key_values, keys_ascend, lemma_ascending_len, lemma_has_key_seq,
    lemma_key_remove_len, lemma_sorted_insert_ascends, lemma_sorted_insert_entries, sorted_insert,
};
use crate::deps::{alias_keys, calc_deps_order, keys_distinct, spec_deps_order};
use crate::text::views;

verus! {

/// Where a bridging template comes from: a nullable parameter or return type of a method, an
/// alias, or a nullable property of an alias.
#[derive(Clone, Copy, PartialEq, Eq, Structural)]
pub enum BridgeSource {
    Param(usize, usize),
    Return(usize),
    Alias(usize),
    AliasProp(usize, usize),
}

/// The nullable parameters of method `i`, among its first `n` parameters.
pub open spec fn param_sources(ps: Seq<Parameter>, i: usize, n: int) -> Seq<BridgeSource>
    decreases n,
{
    if n <= 0 {
        Seq::empty()
    } else {
        param_sources(ps, i, n - 1) + if *ps[n - 1].type_annotation is NullableTypeAnnotation {
            seq![BridgeSource::Param(i, (n - 1) as usize)]
        } else {
            Seq::empty()
        }
    }
}

/// The sources of method number `i`: its nullable parameters, then a nullable return type.
pub open spec fn method_sources(f: FunctionSpec, i: usize) -> Seq<BridgeSource> {
    match *f.type_annotation {
        TypeAnnotation::FunctionTypeAnnotation { return_type_annotation, params } => param_sources(
            params@,
            i,
            params@.len() as int,
        ) + if *return_type_annotation is NullableTypeAnnotation {
            seq![BridgeSource::Return(i)]
        } else {
            Seq::empty()
        },
        _ => Seq::empty(),
    }
}

/// The sources of the first `n` methods.
pub open spec fn methods_sources(fs: Seq<FunctionSpec>, n: int) -> Seq<BridgeSource>
    decreases n,
{
    if n <= 0 {
        Seq::empty()
    } else {
        methods_sources(fs, n - 1) + method_sources(fs[n - 1], (n - 1) as usize)
    }
}

/// The nullable properties of alias `i`, among its first `n` properties.
pub open spec fn prop_sources(ps: Seq<AliasProperty>, i: usize, n: int) -> Seq<BridgeSource>
    decreases n,
{
    if n <= 0 {
        Seq::empty()
    } else {
        prop_sources(ps, i, n - 1) + if *ps[n - 1].type_annotation is NullableTypeAnnotation {
            seq![BridgeSource::AliasProp(i, (n - 1) as usize)]
        } else {
            Seq::empty()
        }
    }
}

/// The sources of the first `n` aliases: each alias, then its nullable properties.
pub open spec fn aliases_sources(al: Seq<(String, Alias)>, n: int) -> Seq<BridgeSource>
    decreases n,
{
    if n <= 0 {
        Seq::empty()
    } else {
        aliases_sources(al, n - 1) + seq![BridgeSource::Alias((n - 1) as usize)] + prop_sources(
            al[n - 1].1.properties@,
            (n - 1) as usize,
            al[n - 1].1.properties@.len() as int,
        )
    }
}

/// Every source of the schema, in the order they are visited.
pub open spec fn all_sources(s: Schema) -> Seq<BridgeSource> {
    methods_sources(s.spec.methods@, s.spec.methods@.len() as int) + aliases_sources(
        s.alias_map@,
        s.alias_map@.len() as int,
    )
}

/// The nullable type a source names.
pub open spec fn source_type(s: Schema, src: BridgeSource) -> TypeAnnotation {
    match src {
        BridgeSource::Param(i, j) => match *s.spec.methods@[i as int].type_annotation {
            TypeAnnotation::FunctionTypeAnnotation { params, .. } => *params@[j as int].type_annotation,
            _ => TypeAnnotation::VoidTypeAnnotation,
        },
        BridgeSource::Return(i) => match *s.spec.methods@[i as int].type_annotation {
            TypeAnnotation::FunctionTypeAnnotation { return_type_annotation, .. } => *return_type_annotation,
            _ => TypeAnnotation::VoidTypeAnnotation,
        },
        BridgeSource::AliasProp(i, j) => *s.alias_map@[i as int].1.properties@[j as int].type_annotation,
        BridgeSource::Alias(_) => TypeAnnotation::VoidTypeAnnotation,
    }
}

/// The type inside a nullable type.
pub open spec fn nullable_inner(t: TypeAnnotation) -> TypeAnnotation {
    match t {
        TypeAnnotation::NullableTypeAnnotation { type_annotation } => *type_annotation,
        _ => t,
    }
}

/// Whether a source points at what it names.
pub open spec fn source_ok(s: Schema, src: BridgeSource) -> bool {
    match src {
        BridgeSource::Param(i, j) => i < s.spec.methods@.len() && match *s.spec.methods@[i as int].type_annotation {
            TypeAnnotation::FunctionTypeAnnotation { params, .. } => j < params@.len()
                && *params@[j as int].type_annotation is NullableTypeAnnotation,
            _ => false,
        },
        BridgeSource::Return(i) => i < s.spec.methods@.len() && match *s.spec.methods@[i as int].type_annotation {
            TypeAnnotation::FunctionTypeAnnotation { return_type_annotation, .. } => *return_type_annotation is NullableTypeAnnotation,
            _ => false,
        },
        BridgeSource::Alias(i) => i < s.alias_map@.len(),
        BridgeSource::AliasProp(i, j) => i < s.alias_map@.len() && j < s.alias_map@[i as int].1.properties@.len()
            && *s.alias_map@[i as int].1.properties@[j as int].type_annotation is NullableTypeAnnotation,
    }
}

/// The templates collected so far: nullable structs by C++ type, alias structs by name.
pub type Collected = (Seq<(Seq<char>, Seq<char>)>, Seq<(Seq<char>, Seq<char>)>);

/// What one source adds: the struct template of an alias under its name; the template of a
/// nullable struct under its C++ type, unless one is there already.
pub open spec fn bridge_step(s: Schema, st: Collected, src: BridgeSource) -> Result<Collected, CodegenError> {
    let m = s.module_name@;
    match src {
        BridgeSource::Alias(i) => match spec_cxx_struct_bridging_template(
            m,
            s.alias_map@[i as int].0@,
            s.alias_map@[i as int].1,
        ) {
            Err(e) => Err(e),
            Ok(t) => Ok((st.0, sorted_insert(st.1, s.alias_map@[i as int].0@, t))),
        },
        _ => {
            let ty = source_type(s, src);
            match spec_cxx_type(ty, m) {
                Err(e) => Err(e),
                Ok(key) => if has_key(st.0, key) {
                    Ok(st)
                } else {
                    match spec_cxx_nullable_bridging_template(m, key, nullable_inner(ty)) {
                        Err(e) => Err(e),
                        Ok(t) => Ok((sorted_insert(st.0, key, t), st.1)),
                    }
                },
            }
        },
    }
}

/// The templates that a list of sources collects, or the first error.
pub open spec fn bridge_fold(s: Schema, srcs: Seq<BridgeSource>) -> Result<Collected, CodegenError>
    decreases srcs.len(),
{
    if srcs.len() == 0 {
        Ok((Seq::empty(), Seq::empty()))
    } else {
        match bridge_fold(s, srcs.drop_last()) {
            Err(e) => Err(e),
            Ok(st) => bridge_step(s, st, srcs.last()),
        }
    }
}

/// Inputs on which a step does not panic: a nullable struct that is generated wraps a type
/// whose default value exists.
pub open spec fn step_defined(s: Schema, st: Collected, src: BridgeSource) -> bool {
    match src {
        BridgeSource::Alias(_) => true,
        _ => match spec_cxx_type(source_type(s, src), s.module_name@) {
            Ok(key) => !has_key(st.0, key) ==> cxx_default_val_terminates(
                nullable_inner(source_type(s, src)),
                s.module_name@,
            ),
            Err(_) => true,
        },
    }
}

/// Inputs on which collecting the templates does not panic.
pub open spec fn bridging_defined(s: Schema) -> bool {
    forall|k: int|
        0 <= k < all_sources(s).len() ==> ((#[trigger] bridge_fold(s, all_sources(s).take(k))) matches Ok(st)
            ==> step_defined(s, st, all_sources(s)[k]))
}

/// The enum templates of the first `n` enums, by enum name.
pub open spec fn enum_fold(s: Schema, n: int) -> Result<Seq<(Seq<char>, Seq<char>)>, CodegenError>
    decreases n,
{
    if n <= 0 {
        Ok(Seq::empty())
    } else {
        match enum_fold(s, n - 1) {
            Err(e) => Err(e),
            Ok(m) => match spec_cxx_enum_bridging_template(
                s.module_name@,
                s.enum_map@[n - 1].0@,
                s.enum_map@[n - 1].1,
            ) {
                Err(e) => Err(e),
                Ok(t) => Ok(sorted_insert(m, s.enum_map@[n - 1].1.name@, t)),
            },
        }
    }
}

/// Taking out, for each name of `ord` in turn, the struct template of that alias and the
/// nullable struct named `craby::<module>::<name>`: (what was taken, structs left, nullable
/// structs left).
pub open spec fn assemble(
    ns: Seq<char>,
    ord: Seq<Seq<char>>,
    structs: Seq<(Seq<char>, Seq<char>)>,
    nullables: Seq<(Seq<char>, Seq<char>)>,
) -> (Seq<Seq<char>>, Seq<(Seq<char>, Seq<char>)>, Seq<(Seq<char>, Seq<char>)>)
    decreases ord.len(),
{
    if ord.len() == 0 {
        (Seq::empty(), structs, nullables)
    } else {
        let prev = assemble(ns, ord.drop_last(), structs, nullables);
        let name = ord.last();
        let a = key_remove(prev.1, name);
        let out1 = match a.0 {
            Some(t) => prev.0.push(t),
            None => prev.0,
        };
        let b = key_remove(prev.2, ns + name);
        let out2 = match b.0 {
            Some(t) => out1.push(t),
            None => out1,
        };
        (out2, a.1, b.1)
    }
}

/// The bridging templates of a schema in declaration order, or the first error.
pub open spec fn spec_bridging_templates(s: Schema) -> Result<Seq<Seq<char>>, CodegenError> {
    match bridge_fold(s, all_sources(s)) {
        Err(e) => Err(e),
        Ok(st) => match enum_fold(s, s.enum_map@.len() as int) {
            Err(e) => Err(e),
            Ok(enums) => match spec_deps_order(s) {
                Err(e) => Err(e),
                Ok(ord) => {
                    let a = assemble(spec_mod_ns(s.module_name@), ord, st.1, st.0);
                    Ok(key_values(enums) + a.0 + key_values(a.1) + key_values(a.2))
                },
            },
        },
    }
}

/// Lists the sources of a schema.
fn collect_sources(schema: &Schema) -> (r: Vec<BridgeSource>)
    ensures
        r@ == all_sources(*schema),
        forall|k: int| 0 <= k < r@.len() ==> source_ok(*schema, #[trigger] r@[k]),
{
    let fs = &schema.spec.methods;
    let n = fs.len();
    let mut out: Vec<BridgeSource> = Vec::new();
    let mut i: usize = 0;
    while i < n
        invariant
            n == fs@.len(),
            fs@ == schema.spec.methods@,
            i <= n,
            out@ == methods_sources(fs@, i as int),
            forall|k: int| 0 <= k < out@.len() ==> source_ok(*schema, #[trigger] out@[k]),
        decreases n - i,
    {
        let ghost before = out@;
        match &*fs[i].type_annotation {
            TypeAnnotation::FunctionTypeAnnotation { return_type_annotation, params } => {
                let m = params.len();
                let mut j: usize = 0;
                while j < m
                    invariant
                        n == fs@.len(),
                        fs@ == schema.spec.methods@,
                        i < n,
                        m == params@.len(),
                        *fs@[i as int].type_annotation == (TypeAnnotation::FunctionTypeAnnotation {
                            return_type_annotation: *return_type_annotation,
                            params: *params,
                        }),
                        j <= m,
                        out@ == before + param_sources(params@, i, j as int),
                        forall|k: int| 0 <= k < out@.len() ==> source_ok(*schema, #[trigger] out@[k]),
                    decreases m - j,
                {
                    if let TypeAnnotation::NullableTypeAnnotation { .. } = &*params[j].type_annotation {
                        out.push(BridgeSource::Param(i, j));
                    }
                    j = j + 1;
                }
                if let TypeAnnotation::NullableTypeAnnotation { .. } = &**return_type_annotation {
                    out.push(BridgeSource::Return(i));
                }
            },
            _ => {},
        }
        assert(out@ =~= methods_sources(fs@, i + 1));
        i = i + 1;
    }
    let al = &schema.alias_map;
    let na = al.len();
    let ghost msrc = out@;
    let mut i: usize = 0;
    while i < na
        invariant
            na == al@.len(),
            al@ == schema.alias_map@,
            i <= na,
            msrc == methods_sources(schema.spec.methods@, schema.spec.methods@.len() as int),
            out@ == msrc + aliases_sources(al@, i as int),
            forall|k: int| 0 <= k < out@.len() ==> source_ok(*schema, #[trigger] out@[k]),
        decreases na - i,
    {
        out.push(BridgeSource::Alias(i));
        let ghost before = out@;
        let ps = &al[i].1.properties;
        let m = ps.len();
        let mut j: usize = 0;
        while j < m
            invariant
                na == al@.len(),
                al@ == schema.alias_map@,
                i < na,
                ps@ == al@[i as int].1.properties@,
                m == ps@.len(),
                j <= m,
                out@ == before + prop_sources(ps@, i, j as int),
                forall|k: int| 0 <= k < out@.len() ==> source_ok(*schema, #[trigger] out@[k]),
            decreases m - j,
        {
            if let TypeAnnotation::NullableTypeAnnotation { .. } = &*ps[j].type_annotation {
                out.push(BridgeSource::AliasProp(i, j));
            }
            j = j + 1;
        }
        assert(out@ =~= msrc + aliases_sources(al@, i + 1));
        i = i + 1;
    }
    out
}

/// The nullable type that a (non-alias) source names.
fn source_nullable(schema: &Schema, src: BridgeSource) -> (r: &TypeAnnotation)
    requires
        source_ok(*schema, src),
        !(src is Alias),
    ensures
        *r == source_type(*schema, src),
        r is NullableTypeAnnotation,
{
    match src {
        BridgeSource::Param(i, j) => match &*schema.spec.methods[i].type_annotation {
            TypeAnnotation::FunctionTypeAnnotation { params, .. } => &params[j].type_annotation,
            _ => {
                assert(false);
                &schema.spec.methods[i].type_annotation
            },
        },
        BridgeSource::Return(i) => match &*schema.spec.methods[i].type_annotation {
            TypeAnnotation::FunctionTypeAnnotation { return_type_annotation, .. } => return_type_annotation,
            _ => {
                assert(false);
                &schema.spec.methods[i].type_annotation
            },
        },
        BridgeSource::AliasProp(i, j) => &schema.alias_map[i].1.properties[j].type_annotation,
        BridgeSource::Alias(i) => {
            assert(false);
            &schema.spec.methods[0].type_annotation
        },
    }
}

/// Applies one source to the templates collected so far.
fn apply_source(schema: &Schema, nullables: &mut KeyedTexts, structs: &mut KeyedTexts, src: BridgeSource) -> (r: Result<(), CodegenError>)
    requires
        source_ok(*schema, src),
        step_defined(*schema, (old(nullables)@, old(structs)@), src),
    ensures
        r is Ok ==> bridge_step(*schema, (old(nullables)@, old(structs)@), src) == Ok::<Collected, CodegenError>((final(nullables)@, final(structs)@)),
        r matches Err(e) ==> bridge_step(*schema, (old(nullables)@, old(structs)@), src) == Err::<Collected, CodegenError>(e),
{
    let mod_name = &schema.module_name;
    match src {
        BridgeSource::Alias(i) => {
            let t = cxx_struct_bridging_template(mod_name, &schema.alias_map[i].0, &schema.alias_map[i].1)?;
            structs.insert(schema.alias_map[i].0.clone(), t);
            Ok(())
        },
        _ => {
            let ty = source_nullable(schema, src);
            let key = ty.as_cxx_type(mod_name)?;
            if !nullables.contains_key(key.as_str()) {
                let inner = match ty {
                    TypeAnnotation::NullableTypeAnnotation { type_annotation } => &**type_annotation,
                    _ => ty,
                };
                let t = cxx_nullable_bridging_template(mod_name, &key, inner)?;
                nullables.insert(key, t);
            }
            Ok(())
        },
    }
}

/// Collects the nullable and the alias struct templates.
fn collect_templates(schema: &Schema, srcs: &Vec<BridgeSource>) -> (r: Result<(KeyedTexts, KeyedTexts), CodegenError>)
    requires
        srcs@ == all_sources(*schema),
        forall|k: int| 0 <= k < srcs@.len() ==> source_ok(*schema, #[trigger] srcs@[k]),
        bridging_defined(*schema),
    ensures
        r matches Ok(p) ==> bridge_fold(*schema, all_sources(*schema)) == Ok::<Collected, CodegenError>((p.0@, p.1@)),
        r matches Err(e) ==> bridge_fold(*schema, all_sources(*schema)) == Err::<Collected, CodegenError>(e),
{
    let n = srcs.len();
    let mut nullables = KeyedTexts::new();
    let mut structs = KeyedTexts::new();
    let mut k: usize = 0;
    assert(srcs@.take(0) =~= Seq::<BridgeSource>::empty());
    while k < n
        invariant
            n == srcs@.len(),
            srcs@ == all_sources(*schema),
            forall|q: int| 0 <= q < srcs@.len() ==> source_ok(*schema, #[trigger] srcs@[q]),
            bridging_defined(*schema),
            k <= n,
            bridge_fold(*schema, srcs@.take(k as int)) == Ok::<Collected, CodegenError>((nullables@, structs@)),
        decreases n - k,
    {
        assert(srcs@.take(k + 1).drop_last() =~= srcs@.take(k as int));
        assert(srcs@.take(k + 1).last() == srcs@[k as int]);
        let src = srcs[k];
        assert(step_defined(*schema, (nullables@, structs@), src));
        match apply_source(schema, &mut nullables, &mut structs, src) {
            Ok(()) => {},
            Err(e) => {
                proof {
                    lemma_fold_err_extends(*schema, srcs@, k + 1);
                }
                return Err(e);
            },
        }
        k = k + 1;
    }
    assert(srcs@.take(n as int) =~= srcs@);
    Ok((nullables, structs))
}

proof fn lemma_fold_err_extends(s: Schema, srcs: Seq<BridgeSource>, k: int)
    requires
        0 <= k <= srcs.len(),
    ensures
        bridge_fold(s, srcs.take(k)) is Err ==> bridge_fold(s, srcs) == bridge_fold(s, srcs.take(k)),
    decreases srcs.len() - k,
{
    if k < srcs.len() {
        assert(srcs.take(k + 1).drop_last() =~= srcs.take(k));
        lemma_fold_err_extends(s, srcs, k + 1);
    } else {
        assert(srcs.take(k) =~= srcs);
    }
}

proof fn lemma_enum_fold_err_extends(s: Schema, k: int)
    requires
        0 <= k <= s.enum_map@.len(),
    ensures
        enum_fold(s, k) is Err ==> enum_fold(s, s.enum_map@.len() as int) == enum_fold(s, k),
    decreases s.enum_map@.len() - k,
{
    if k < s.enum_map@.len() {
        lemma_enum_fold_err_extends(s, k + 1);
    }
}

/// The bridging templates of a schema: the enum templates by enum name; then, for each alias
/// in declaration order, its struct template and the nullable struct named after it; then
/// the remaining struct templates and nullable struct templates, each by name.
pub fn bridging_templates(schema: &Schema) -> (r: Result<Vec<String>, CodegenError>)
    requires
        bridging_defined(*schema),
    ensures
        r matches Ok(v) ==> spec_bridging_templates(*schema) == Ok::<Seq<Seq<char>>, CodegenError>(views(v@)),
        r matches Err(e) ==> spec_bridging_templates(*schema) == Err::<Seq<Seq<char>>, CodegenError>(e),
{
    let mod_name = &schema.module_name;
    let srcs = collect_sources(schema);
    let (mut nullables, mut structs) = collect_templates(schema, &srcs)?;
    let ghost st: Collected = (nullables@, structs@);
    let mut enums = KeyedTexts::new();
    let ne = schema.enum_map.len();
    let mut i: usize = 0;
    while i < ne
        invariant
            ne == schema.enum_map@.len(),
            i <= ne,
            mod_name@ == schema.module_name@,
            bridge_fold(*schema, all_sources(*schema)) == Ok::<Collected, CodegenError>(st),
            enum_fold(*schema, i as int) == Ok::<Seq<(Seq<char>, Seq<char>)>, CodegenError>(enums@),
        decreases ne - i,
    {
        match cxx_enum_bridging_template(mod_name, &schema.enum_map[i].0, &schema.enum_map[i].1) {
            Ok(t) => {
                enums.insert(schema.enum_map[i].1.name.clone(), t);
            },
            Err(e) => {
                proof {
                    lemma_enum_fold_err_extends(*schema, i + 1);
                }
                return Err(e);
            },
        }
        i = i + 1;
    }
    let ord = calc_deps_order(schema)?;
    let ghost ns = spec_mod_ns(mod_name@);
    let mut taken: Vec<String> = Vec::new();
    let no = ord.len();
    let mut j: usize = 0;
    assert(views(ord@).take(0) =~= Seq::<Seq<char>>::empty());
    while j < no
        invariant
            no == ord@.len(),
            j <= no,
            ns == spec_mod_ns(mod_name@),
            mod_name@ == schema.module_name@,
            bridge_fold(*schema, all_sources(*schema)) == Ok::<Collected, CodegenError>(st),
            enum_fold(*schema, schema.enum_map@.len() as int) == Ok::<Seq<(Seq<char>, Seq<char>)>, CodegenError>(enums@),
            spec_deps_order(*schema) == Ok::<Seq<Seq<char>>, CodegenError>(views(ord@)),
            assemble(ns, views(ord@).take(j as int), st.1, st.0) == (views(taken@), structs@, nullables@),
        decreases no - j,
    {
        assert(views(ord@).take(j + 1).drop_last() =~= views(ord@).take(j as int));
        assert(views(ord@).take(j + 1).last() == ord@[j as int]@);
        let ghost t0 = views(taken@);
        let ghost s0 = structs@;
        let ghost n0 = nullables@;
        let ghost name = ord@[j as int]@;
        match structs.remove(ord[j].as_str()) {
            Some(t) => {
                taken.push(t);
            },
            None => {},
        }
        let ghost t1 = match key_remove(s0, name).0 {
            Some(x) => t0.push(x),
            None => t0,
        };
        assert(views(taken@) =~= t1);
        let key = mod_qualified(mod_name.as_str(), ord[j].as_str());
        match nullables.remove(key.as_str()) {
            Some(t) => {
                taken.push(t);
            },
            None => {},
        }
        assert(views(taken@) =~= match key_remove(n0, ns + name).0 {
            Some(x) => t1.push(x),
            None => t1,
        });
        j = j + 1;
    }
    assert(views(ord@).take(no as int) =~= views(ord@));
    let ghost tk = views(taken@);
    let mut out = enums.into_values();
    let mut sv = structs.into_values();
    let mut nv = nullables.into_values();
    let ghost e = views(out@);
    let ghost a = views(sv@);
    let ghost b = views(nv@);
    out.append(&mut taken);
    out.append(&mut sv);
    out.append(&mut nv);
    assert(views(out@) =~= e + tk + a + b);
    Ok(out)
}

} // verus!

verus! {

/// The C++ types of the nullable types that the sources name, in order, repeats kept.
pub open spec fn nullable_keys_of(s: Schema, srcs: Seq<BridgeSource>) -> Seq<Seq<char>>
    decreases srcs.len(),
{
    if srcs.len() == 0 {
        Seq::empty()
    } else {
        let p = nullable_keys_of(s, srcs.drop_last());
        if srcs.last() is Alias {
            p
        } else {
            p.push(spec_cxx_type(source_type(s, srcs.last()), s.module_name@)->Ok_0)
        }
    }
}

/// The C++ types of the nullable types that the methods' parameters and return types and
/// the aliases' properties use, repeats kept.
pub open spec fn nullable_keys(s: Schema) -> Seq<Seq<char>> {
    nullable_keys_of(s, all_sources(s))
}

/// The names of the aliases among the sources, in order.
pub open spec fn alias_names_of(s: Schema, srcs: Seq<BridgeSource>) -> Seq<Seq<char>>
    decreases srcs.len(),
{
    if srcs.len() == 0 {
        Seq::empty()
    } else {
        let p = alias_names_of(s, srcs.drop_last());
        match srcs.last() {
            BridgeSource::Alias(i) => p.push(s.alias_map@[i as int].0@),
            _ => p,
        }
    }
}

/// The names of the schema's enums (`Enum::name`), in the map's order.
pub open spec fn enum_names(s: Schema) -> Seq<Seq<char>> {
    s.enum_map@.map_values(|e: (String, crate::schema::Enum)| e.1.name@)
}

/// The template of enum number `j`.
pub open spec fn enum_template(s: Schema, j: int) -> Result<Seq<char>, CodegenError> {
    spec_cxx_enum_bridging_template(s.module_name@, s.enum_map@[j].0@, s.enum_map@[j].1)
}

/// Whether `t` is the template of enum number `j`.
pub open spec fn is_enum_template(s: Schema, j: int, t: Seq<char>) -> bool {
    enum_template(s, j) == Ok::<Seq<char>, CodegenError>(t)
}

/// The templates of the schema's enums.
pub open spec fn enum_templates(s: Schema) -> Set<Seq<char>> {
    Set::new(|t: Seq<char>| exists|j: int| 0 <= j < s.enum_map@.len() && #[trigger] is_enum_template(s, j, t))
}

/// Whether no source is an alias.
pub open spec fn no_alias(srcs: Seq<BridgeSource>) -> bool {
    forall|i: int| 0 <= i < srcs.len() ==> !(#[trigger] srcs[i] is Alias)
}

proof fn lemma_no_alias_concat(a: Seq<BridgeSource>, b: Seq<BridgeSource>)
    requires
        no_alias(a),
        no_alias(b),
    ensures
        no_alias(a + b),
{
    assert forall|i: int| 0 <= i < (a + b).len() implies !(#[trigger] (a + b)[i] is Alias) by {
        if i < a.len() {
            assert((a + b)[i] == a[i]);
        } else {
            assert((a + b)[i] == b[i - a.len()]);
        }
    }
}

proof fn lemma_param_sources_no_alias(ps: Seq<Parameter>, i: usize, n: int)
    ensures
        no_alias(param_sources(ps, i, n)),
    decreases n,
{
    if n > 0 {
        lemma_param_sources_no_alias(ps, i, n - 1);
        let t = if *ps[n - 1].type_annotation is NullableTypeAnnotation {
            seq![BridgeSource::Param(i, (n - 1) as usize)]
        } else {
            Seq::empty()
        };
        lemma_no_alias_concat(param_sources(ps, i, n - 1), t);
    }
}

proof fn lemma_prop_sources_no_alias(ps: Seq<AliasProperty>, i: usize, n: int)
    ensures
        no_alias(prop_sources(ps, i, n)),
    decreases n,
{
    if n > 0 {
        lemma_prop_sources_no_alias(ps, i, n - 1);
        let t = if *ps[n - 1].type_annotation is NullableTypeAnnotation {
            seq![BridgeSource::AliasProp(i, (n - 1) as usize)]
        } else {
            Seq::empty()
        };
        lemma_no_alias_concat(prop_sources(ps, i, n - 1), t);
    }
}

proof fn lemma_methods_sources_no_alias(fs: Seq<FunctionSpec>, n: int)
    ensures
        no_alias(methods_sources(fs, n)),
    decreases n,
{
    if n > 0 {
        lemma_methods_sources_no_alias(fs, n - 1);
        let f = fs[n - 1];
        match *f.type_annotation {
            TypeAnnotation::FunctionTypeAnnotation { return_type_annotation, params } => {
                lemma_param_sources_no_alias(params@, (n - 1) as usize, params@.len() as int);
                let t = if *return_type_annotation is NullableTypeAnnotation {
                    seq![BridgeSource::Return((n - 1) as usize)]
                } else {
                    Seq::empty()
                };
                lemma_no_alias_concat(param_sources(params@, (n - 1) as usize, params@.len() as int), t);
            },
            _ => {},
        }
        lemma_no_alias_concat(methods_sources(fs, n - 1), method_sources(f, (n - 1) as usize));
    }
}

proof fn lemma_alias_names_concat(s: Schema, a: Seq<BridgeSource>, b: Seq<BridgeSource>)
    ensures
        alias_names_of(s, a + b) == alias_names_of(s, a) + alias_names_of(s, b),
    decreases b.len(),
{
    if b.len() == 0 {
        assert(a + b =~= a);
    } else {
        assert((a + b).drop_last() =~= a + b.drop_last());
        assert((a + b).last() == b.last());
        lemma_alias_names_concat(s, a, b.drop_last());
        match b.last() {
            BridgeSource::Alias(i) => {
                assert(alias_names_of(s, a) + alias_names_of(s, b.drop_last()).push(s.alias_map@[i as int].0@)
                    =~= (alias_names_of(s, a) + alias_names_of(s, b.drop_last())).push(s.alias_map@[i as int].0@));
            },
            _ => {},
        }
    }
}

proof fn lemma_no_alias_names(s: Schema, b: Seq<BridgeSource>)
    requires
        no_alias(b),
    ensures
        alias_names_of(s, b) == Seq::<Seq<char>>::empty(),
    decreases b.len(),
{
    if b.len() > 0 {
        assert(!(b[b.len() - 1] is Alias));
        assert(no_alias(b.drop_last())) by {
            assert forall|i: int| 0 <= i < b.drop_last().len() implies !(#[trigger] b.drop_last()[i] is Alias) by {
                assert(b.drop_last()[i] == b[i]);
            }
        }
        lemma_no_alias_names(s, b.drop_last());
    }
}

proof fn lemma_aliases_names(s: Schema, n: int)
    requires
        0 <= n <= s.alias_map@.len(),
    ensures
        alias_names_of(s, aliases_sources(s.alias_map@, n)) == alias_keys(s).take(n),
    decreases n,
{
    let al = s.alias_map@;
    assert(s.alias_map.len() == al.len());
    if n == 0 {
        assert(alias_keys(s).take(0) =~= Seq::<Seq<char>>::empty());
    } else {
        lemma_aliases_names(s, n - 1);
        let x = aliases_sources(al, n - 1);
        let y = x + seq![BridgeSource::Alias((n - 1) as usize)];
        let props = prop_sources(al[n - 1].1.properties@, (n - 1) as usize, al[n - 1].1.properties@.len() as int);
        lemma_prop_sources_no_alias(al[n - 1].1.properties@, (n - 1) as usize, al[n - 1].1.properties@.len() as int);
        lemma_no_alias_names(s, props);
        lemma_alias_names_concat(s, y, props);
        assert(y.drop_last() =~= x);
        assert(alias_names_of(s, y) == alias_names_of(s, x).push(al[n - 1].0@));
        assert(alias_keys(s).take(n) =~= alias_keys(s).take(n - 1).push(alias_keys(s)[n - 1]));
        assert(alias_names_of(s, y) + Seq::<Seq<char>>::empty() =~= alias_names_of(s, y));
    }
}

/// Every alias is a source exactly once, in the map's order.
proof fn lemma_all_alias_names(s: Schema)
    ensures
        alias_names_of(s, all_sources(s)) == alias_keys(s),
{
    let ms = methods_sources(s.spec.methods@, s.spec.methods@.len() as int);
    lemma_methods_sources_no_alias(s.spec.methods@, s.spec.methods@.len() as int);
    lemma_no_alias_names(s, ms);
    lemma_aliases_names(s, s.alias_map@.len() as int);
    lemma_alias_names_concat(s, ms, aliases_sources(s.alias_map@, s.alias_map@.len() as int));
    assert(alias_keys(s).take(s.alias_map@.len() as int) =~= alias_keys(s));
    assert(Seq::<Seq<char>>::empty() + alias_keys(s) =~= alias_keys(s));
}

/// Storing under `k` adds exactly the key `k`, and keeps the keys ascending.
proof fn lemma_insert_keys(l: Seq<(Seq<char>, Seq<char>)>, k: Seq<char>, v: Seq<char>)
    requires
        keys_ascend(l),
    ensures
        keys_ascend(sorted_insert(l, k, v)),
        forall|x: Seq<char>| has_key(sorted_insert(l, k, v), x) <==> (x == k || has_key(l, x)),
{
    lemma_sorted_insert_ascends(l, k, v);
    lemma_sorted_insert_entries(l, k, v);
    let r = sorted_insert(l, k, v);
    assert forall|x: Seq<char>| has_key(r, x) implies (x == k || has_key(l, x)) by {
        let w = choose|w: int| 0 <= w < r.len() && (#[trigger] r[w]).0 == x;
        assert(r[w].0 == k || has_key(l, r[w].0));
    }
}

/// What the collected templates are keyed by: the nullable structs by the C++ types of the
/// nullable sources, the alias structs by the names of the alias sources.
proof fn lemma_fold_keys(s: Schema, srcs: Seq<BridgeSource>)
    requires
        bridge_fold(s, srcs) is Ok,
    ensures
        keys_ascend(bridge_fold(s, srcs)->Ok_0.0),
        keys_ascend(bridge_fold(s, srcs)->Ok_0.1),
        forall|x: Seq<char>| has_key(bridge_fold(s, srcs)->Ok_0.0, x) <==> nullable_keys_of(s, srcs).contains(x),
        forall|x: Seq<char>| has_key(bridge_fold(s, srcs)->Ok_0.1, x) <==> alias_names_of(s, srcs).contains(x),
    decreases srcs.len(),
{
    if srcs.len() > 0 {
        let p = srcs.drop_last();
        lemma_fold_keys(s, p);
        let st = bridge_fold(s, p)->Ok_0;
        let nst = bridge_fold(s, srcs)->Ok_0;
        let src = srcs.last();
        let m = s.module_name@;
        match src {
            BridgeSource::Alias(i) => {
                let key = s.alias_map@[i as int].0@;
                let t = spec_cxx_struct_bridging_template(m, key, s.alias_map@[i as int].1)->Ok_0;
                assert(nst == (st.0, sorted_insert(st.1, key, t)));
                lemma_insert_keys(st.1, key, t);
                assert(alias_names_of(s, srcs) == alias_names_of(s, p).push(key));
                assert(nullable_keys_of(s, srcs) == nullable_keys_of(s, p));
                assert forall|x: Seq<char>| has_key(nst.1, x) <==> alias_names_of(s, srcs).contains(x) by {
                    if x == key {
                        assert(alias_names_of(s, srcs)[alias_names_of(s, p).len() as int] == key);
                    }
                    if alias_names_of(s, srcs).contains(x) && x != key {
                        let w = choose|w: int| 0 <= w < alias_names_of(s, srcs).len() && alias_names_of(s, srcs)[w] == x;
                        assert(alias_names_of(s, p)[w] == x);
                    }
                    if alias_names_of(s, p).contains(x) {
                        let w = choose|w: int| 0 <= w < alias_names_of(s, p).len() && alias_names_of(s, p)[w] == x;
                        assert(alias_names_of(s, srcs)[w] == x);
                    }
                }
            },
            _ => {
                let ty = source_type(s, src);
                let key = spec_cxx_type(ty, m)->Ok_0;
                assert(spec_cxx_type(ty, m) is Ok);
                assert(nullable_keys_of(s, srcs) == nullable_keys_of(s, p).push(key));
                assert(alias_names_of(s, srcs) == alias_names_of(s, p));
                let ks = nullable_keys_of(s, srcs);
                let kp = nullable_keys_of(s, p);
                assert forall|x: Seq<char>| ks.contains(x) <==> (x == key || kp.contains(x)) by {
                    if x == key {
                        assert(ks[kp.len() as int] == key);
                    }
                    if ks.contains(x) && x != key {
                        let w = choose|w: int| 0 <= w < ks.len() && ks[w] == x;
                        assert(kp[w] == x);
                    }
                    if kp.contains(x) {
                        let w = choose|w: int| 0 <= w < kp.len() && kp[w] == x;
                        assert(ks[w] == x);
                    }
                }
                if has_key(st.0, key) {
                    assert(nst == st);
                } else {
                    let t = spec_cxx_nullable_bridging_template(m, key, nullable_inner(ty))->Ok_0;
                    assert(nst == (sorted_insert(st.0, key, t), st.1));
                    lemma_insert_keys(st.0, key, t);
                }
            },
        }
    }
}

/// What the enum templates are keyed by: the enums' names, each with its enum's template.
proof fn lemma_enum_fold_keys(s: Schema, n: int)
    requires
        0 <= n <= s.enum_map@.len(),
        enum_fold(s, n) is Ok,
    ensures
        keys_ascend(enum_fold(s, n)->Ok_0),
        forall|x: Seq<char>| has_key(enum_fold(s, n)->Ok_0, x) <==> enum_names(s).take(n).contains(x),
        forall|w: int|
            0 <= w < enum_fold(s, n)->Ok_0.len() ==> exists|j: int|
                0 <= j < n && enum_template(s, j) is Ok && #[trigger] enum_fold(s, n)->Ok_0[w] == (
                    enum_names(s)[j],
                    #[trigger] enum_template(s, j)->Ok_0,
                ),
    decreases n,
{
    if n > 0 {
        lemma_enum_fold_keys(s, n - 1);
        let m = enum_fold(s, n - 1)->Ok_0;
        let key = s.enum_map@[n - 1].1.name@;
        let t = enum_template(s, n - 1)->Ok_0;
        let r = enum_fold(s, n)->Ok_0;
        assert(r == sorted_insert(m, key, t));
        lemma_insert_keys(m, key, t);
        lemma_sorted_insert_entries(m, key, t);
        let names = enum_names(s);
        assert(names.take(n) =~= names.take(n - 1).push(key));
        assert forall|x: Seq<char>| has_key(r, x) <==> names.take(n).contains(x) by {
            assert(has_key(r, x) <==> (x == key || has_key(m, x)));
            assert(has_key(m, x) <==> names.take(n - 1).contains(x));
            if x == key {
                assert(names.take(n)[n - 1] == key);
            }
            if names.take(n).contains(x) && x != key {
                let w = choose|w: int| 0 <= w < names.take(n).len() && names.take(n)[w] == x;
                assert(names.take(n - 1)[w] == x);
            }
            let pre = names.take(n - 1);
            if pre.contains(x) {
                let w = choose|w: int| 0 <= w < pre.len() && pre[w] == x;
                assert(names.take(n)[w] == x);
            }
        }
        assert forall|w: int| 0 <= w < r.len() implies exists|j: int|
            0 <= j < n && enum_template(s, j) is Ok && #[trigger] r[w] == (names[j], #[trigger] enum_template(s, j)->Ok_0) by {
            if r[w] == (key, t) {
                assert(enum_template(s, n - 1) is Ok && r[w] == (names[n - 1], enum_template(s, n - 1)->Ok_0));
            } else {
                let u = choose|u: int| 0 <= u < m.len() && m[u] == r[w];
                let j = choose|j: int| 0 <= j < n - 1 && enum_template(s, j) is Ok && #[trigger] m[u] == (names[j], #[trigger] enum_template(s, j)->Ok_0);
                assert(enum_template(s, j) is Ok && r[w] == (names[j], enum_template(s, j)->Ok_0));
            }
        }
    }
}

proof fn lemma_assemble_len(
    ns: Seq<char>,
    ord: Seq<Seq<char>>,
    structs: Seq<(Seq<char>, Seq<char>)>,
    nullables: Seq<(Seq<char>, Seq<char>)>,
)
    ensures
        assemble(ns, ord, structs, nullables).0.len() + assemble(ns, ord, structs, nullables).1.len()
            + assemble(ns, ord, structs, nullables).2.len() == structs.len() + nullables.len(),
    decreases ord.len(),
{
    if ord.len() > 0 {
        lemma_assemble_len(ns, ord.drop_last(), structs, nullables);
        let prev = assemble(ns, ord.drop_last(), structs, nullables);
        lemma_key_remove_len(prev.1, ord.last());
        lemma_key_remove_len(prev.2, ns + ord.last());
    }
}

/// Entries with ascending keys, keyed by exactly the elements of `ks`, are as many as the
/// distinct elements of `ks`.
proof fn lemma_len_by_keys(l: Seq<(Seq<char>, Seq<char>)>, ks: Seq<Seq<char>>)
    requires
        keys_ascend(l),
        forall|x: Seq<char>| has_key(l, x) <==> ks.contains(x),
    ensures
        l.len() == ks.to_set().len(),
{
    lemma_ascending_len(l);
    assert forall|x: Seq<char>| key_seq(l).to_set().contains(x) <==> ks.to_set().contains(x) by {
        lemma_has_key_seq(l, x);
    }
    assert(key_seq(l).to_set() =~= ks.to_set());
}

/// How many templates there are.
proof fn lemma_template_total(s: Schema)
    requires
        spec_bridging_templates(s) is Ok,
        enum_names(s).no_duplicates(),
        keys_distinct(s),
    ensures
        spec_bridging_templates(s)->Ok_0.len() == s.enum_map@.len() + s.alias_map@.len() + nullable_keys(s).to_set().len(),
{
    let v = spec_bridging_templates(s)->Ok_0;
    let e = s.enum_map@.len() as int;
    let st = bridge_fold(s, all_sources(s))->Ok_0;
    let enums = enum_fold(s, e)->Ok_0;
    let ord = spec_deps_order(s)->Ok_0;
    let a = assemble(spec_mod_ns(s.module_name@), ord, st.1, st.0);
    assert(v == key_values(enums) + a.0 + key_values(a.1) + key_values(a.2));
    lemma_assemble_len(spec_mod_ns(s.module_name@), ord, st.1, st.0);
    lemma_fold_keys(s, all_sources(s));
    lemma_all_alias_names(s);
    lemma_len_by_keys(st.0, nullable_keys(s));
    lemma_len_by_keys(st.1, alias_keys(s));
    assert(alias_keys(s).no_duplicates()) by {
        assert forall|i: int, j: int| 0 <= i < alias_keys(s).len() && 0 <= j < alias_keys(s).len() && i != j implies alias_keys(s)[i] != alias_keys(s)[j] by {
            if i < j {
                assert(s.alias_map@[i].0@ != s.alias_map@[j].0@);
            } else {
                assert(s.alias_map@[j].0@ != s.alias_map@[i].0@);
            }
        }
    }
    alias_keys(s).unique_seq_to_set();
    lemma_enum_fold_keys(s, e);
    let names = enum_names(s);
    assert(names.take(e) =~= names);
    lemma_len_by_keys(enums, names);
    names.unique_seq_to_set();
}

/// With distinct names, there is one enum template per enum.
proof fn lemma_enum_count(s: Schema)
    requires
        enum_fold(s, s.enum_map@.len() as int) is Ok,
        enum_names(s).no_duplicates(),
    ensures
        enum_fold(s, s.enum_map@.len() as int)->Ok_0.len() == s.enum_map@.len(),
{
    let e = s.enum_map@.len() as int;
    lemma_enum_fold_keys(s, e);
    let names = enum_names(s);
    assert(names.take(e) =~= names);
    lemma_len_by_keys(enum_fold(s, e)->Ok_0, names);
    names.unique_seq_to_set();
}

/// The first templates are those of the enums.
proof fn lemma_enum_templates_first(s: Schema)
    requires
        spec_bridging_templates(s) is Ok,
        enum_names(s).no_duplicates(),
    ensures
        spec_bridging_templates(s)->Ok_0.take(s.enum_map@.len() as int).to_set() == enum_templates(s),
{
    let v = spec_bridging_templates(s)->Ok_0;
    let e = s.enum_map@.len() as int;
    let enums = enum_fold(s, e)->Ok_0;
    lemma_enum_count(s);
    lemma_enum_fold_keys(s, e);
    let pre = v.take(e);
    assert(pre =~= key_values(enums)) by {
        let st = bridge_fold(s, all_sources(s))->Ok_0;
        let ord = spec_deps_order(s)->Ok_0;
        let a = assemble(spec_mod_ns(s.module_name@), ord, st.1, st.0);
        assert(v == key_values(enums) + a.0 + key_values(a.1) + key_values(a.2));
    }
    let names = enum_names(s);
    assert forall|t: Seq<char>| pre.to_set().contains(t) <==> enum_templates(s).contains(t) by {
        if pre.contains(t) {
            let i = choose|i: int| 0 <= i < pre.len() && pre[i] == t;
            assert(pre[i] == enums[i].1);
            let j = choose|j: int| 0 <= j < e && enum_template(s, j) is Ok && #[trigger] enums[i] == (names[j], #[trigger] enum_template(s, j)->Ok_0);
            assert(is_enum_template(s, j, t));
        }
        if enum_templates(s).contains(t) {
            let j = choose|j: int| 0 <= j < s.enum_map@.len() && #[trigger] is_enum_template(s, j, t);
            assert(names[j] == names.take(e)[j]);
            assert(names.take(e).contains(names[j]));
            assert(has_key(enums, names[j]));
            let i = choose|i: int| 0 <= i < enums.len() && (#[trigger] enums[i]).0 == names[j];
            let j2 = choose|j2: int| 0 <= j2 < e && enum_template(s, j2) is Ok && #[trigger] enums[i] == (names[j2], #[trigger] enum_template(s, j2)->Ok_0);
            assert(names[j2] == names[j]);
            assert(j2 == j);
            assert(pre[i] == enums[i].1);
            assert(pre[i] == t);
        }
    }
    assert(pre.to_set() =~= enum_templates(s));
}

/// In a well-formed schema whose enum names are distinct, the bridging
/// templates are as many as the enums, the aliases and the distinct C++ types of the
/// nullable parameters, return types and alias properties together, and the first ones,
/// as many as there are enums, are exactly the templates of the enums.
pub proof fn lemma_bridging_template_count(s: Schema)
    requires
        spec_bridging_templates(s) is Ok,
        enum_names(s).no_duplicates(),
        s.wf(),
    ensures
        spec_bridging_templates(s)->Ok_0.len() == s.enum_map@.len() + s.alias_map@.len() + nullable_keys(s).to_set().len(),
        spec_bridging_templates(s)->Ok_0.take(s.enum_map@.len() as int).to_set() == enum_templates(s),
{
    crate::deps::lemma_wf_keys_distinct(s);
    lemma_template_total(s);
    lemma_enum_templates_first(s);
}

} // verus!

verus! {

/// The first line of an alias struct's `fromJs` body.
pub open spec fn struct_line() -> Seq<char> {
    "auto obj = value.asObject(rt);"@
}

/// The first line of a nullable struct's `fromJs` body.
pub open spec fn nullable_line() -> Seq<char> {
    "if (value.isNull()) {"@
}

/// The first line of an enum's `fromJs` body.
pub open spec fn enum_line(e: crate::schema::Enum) -> Seq<char> {
    "auto raw = "@ + (if e.member_type@ == "StringTypeAnnotation"@ {
        "value.asString(rt).utf8(rt)"@
    } else {
        "value.asNumber()"@
    }) + ";"@
}

proof fn lemma_lines_plain(e: crate::schema::Enum)
    ensures
        crate::text::plain_line(struct_line()),
        crate::text::plain_line(nullable_line()),
        crate::text::plain_line(enum_line(e)),
        struct_line().len() >= 6,
        nullable_line().len() >= 6,
        enum_line(e).len() >= 6,
        struct_line().take(6) != nullable_line().take(6),
        struct_line().take(6) != enum_line(e).take(6),
        nullable_line().take(6) != enum_line(e).take(6),
{
    reveal_strlit("auto obj = value.asObject(rt);");
    reveal_strlit("if (value.isNull()) {");
    reveal_strlit("auto raw = ");
    reveal_strlit("value.asString(rt).utf8(rt)");
    reveal_strlit("value.asNumber()");
    reveal_strlit(";");
    let sl = struct_line();
    let nl = nullable_line();
    let el = enum_line(e);
    assert(!crate::text::is_ws(sl[0]));
    assert(!crate::text::is_ws(nl[0]));
    assert(!crate::text::is_ws(el[0]));
    assert(sl.take(6)[5] != nl.take(6)[5]);
    assert(sl.take(6)[5] != el.take(6)[5]);
    assert(nl.take(6)[0] != el.take(6)[0]);
}

proof fn lemma_struct_form(m: Seq<char>, name: Seq<char>, alias: Alias)
    requires
        spec_cxx_struct_bridging_template(m, name, alias) is Ok,
    ensures
        exists|r: Seq<char>, g: Seq<char>|
            #[trigger] crate::cxx_gen::spec_cxx_bridging_template(spec_mod_ns(m) + name, struct_line() + seq!['\n'] + r, g)
                == spec_cxx_struct_bridging_template(m, name, alias)->Ok_0,
{
    reveal_strlit("auto obj = value.asObject(rt);\n");
    reveal_strlit("auto obj = value.asObject(rt);");
    let parts = crate::cxx_gen::spec_struct_props(m, alias.properties@)->Ok_0;
    let ns = spec_mod_ns(m) + name;
    let get_props = crate::text::join(parts.map_values(|x: (Seq<char>, Seq<char>, Seq<char>, Seq<char>, Seq<char>)| x.0), "\n"@);
    let set_props = crate::text::join(parts.map_values(|x: (Seq<char>, Seq<char>, Seq<char>, Seq<char>, Seq<char>)| x.1), "\n"@);
    let from_stmts = crate::text::join(parts.map_values(|x: (Seq<char>, Seq<char>, Seq<char>, Seq<char>, Seq<char>)| x.2), "\n"@);
    let idents = crate::text::join(parts.map_values(|x: (Seq<char>, Seq<char>, Seq<char>, Seq<char>, Seq<char>)| x.3), ",\n"@);
    let to_stmts = crate::text::join(parts.map_values(|x: (Seq<char>, Seq<char>, Seq<char>, Seq<char>, Seq<char>)| x.4), "\n"@);
    let r = get_props + "\n\n"@ + from_stmts + "\n\n"@ + ns + " ret = {\n"@ + crate::text::spec_indent(idents, 2) + "\n};\n\nreturn ret;"@;
    let from_js_impl = "auto obj = value.asObject(rt);\n"@ + get_props + "\n\n"@ + from_stmts + "\n\n"@
        + ns + " ret = {\n"@ + crate::text::spec_indent(idents, 2) + "\n};\n\nreturn ret;"@;
    let g = "jsi::Object obj = jsi::Object(rt);\n"@ + to_stmts + "\n\n"@ + set_props + "\n\nreturn jsi::Value(rt, obj);"@;
    assert(from_js_impl =~= struct_line() + seq!['\n'] + r);
    assert(crate::cxx_gen::spec_cxx_bridging_template(ns, struct_line() + seq!['\n'] + r, g)
        == spec_cxx_struct_bridging_template(m, name, alias)->Ok_0);
}

proof fn lemma_nullable_form(m: Seq<char>, key: Seq<char>, t: TypeAnnotation)
    requires
        spec_cxx_nullable_bridging_template(m, key, t) is Ok,
    ensures
        exists|r: Seq<char>, g: Seq<char>|
            #[trigger] crate::cxx_gen::spec_cxx_bridging_template(key, nullable_line() + seq!['\n'] + r, g)
                == spec_cxx_nullable_bridging_template(m, key, t)->Ok_0,
{
    reveal_strlit("if (value.isNull()) {\n  return ");
    reveal_strlit("if (value.isNull()) {");
    let origin = spec_cxx_type(t, m)->Ok_0;
    let d = crate::cxx_gen::spec_cxx_default_val(t, m)->Ok_0;
    let r = "  return "@ + key + "{true, "@ + d + "};\n}\n\nauto val = react::bridging::fromJs<"@ + origin
        + ">(rt, value, callInvoker);\nauto ret = "@ + key + "{false, val};\n\nreturn ret;"@;
    reveal_strlit("  return ");
    assert("if (value.isNull()) {\n  return "@ =~= nullable_line() + seq!['\n'] + "  return "@);
    assert(crate::cxx_gen::spec_nullable_from_js(key, d, origin) =~= nullable_line() + seq!['\n'] + r);
    let g = crate::cxx_gen::spec_nullable_to_js();
    assert(crate::cxx_gen::spec_cxx_bridging_template(key, nullable_line() + seq!['\n'] + r, g)
        == spec_cxx_nullable_bridging_template(m, key, t)->Ok_0);
}

proof fn lemma_enum_form(m: Seq<char>, name: Seq<char>, e: crate::schema::Enum)
    requires
        spec_cxx_enum_bridging_template(m, name, e) is Ok,
    ensures
        exists|r: Seq<char>, g: Seq<char>|
            #[trigger] crate::cxx_gen::spec_cxx_bridging_template(spec_mod_ns(m) + name, enum_line(e) + seq!['\n'] + r, g)
                == spec_cxx_enum_bridging_template(m, name, e)->Ok_0,
{
    reveal_strlit(";\n");
    reveal_strlit(";");
    let ms = e.members->0@;
    let is_string = e.member_type@ == "StringTypeAnnotation"@;
    let ns = spec_mod_ns(m) + name;
    let as_raw = if is_string { "value.asString(rt).utf8(rt)"@ } else { "value.asNumber()"@ };
    let invalid = "Invalid enum value ("@ + name + ")"@;
    let from_conds = Seq::new(ms.len(), |i: int| crate::cxx_gen::spec_enum_from_cond(ns, is_string, i, ms[i])).push(
        "else {\n  throw jsi::JSError(rt, \""@ + invalid + "\");\n}"@,
    );
    let to_conds = ms.map_values(|mm: crate::schema::EnumMember| crate::cxx_gen::spec_enum_to_cond(ns, is_string, mm)).push(
        "default:\n  throw jsi::JSError(rt, \""@ + invalid + "\");"@,
    );
    let r = crate::text::join(from_conds, " "@);
    let from_js = "auto raw = "@ + as_raw + ";\n"@ + r;
    let to_js = "switch (value) {\n"@ + crate::text::spec_indent(crate::text::join(to_conds, "\n"@), 2) + "\n}"@;
    assert(from_js =~= enum_line(e) + seq!['\n'] + r);
    assert(crate::cxx_gen::spec_cxx_bridging_template(ns, enum_line(e) + seq!['\n'] + r, to_js)
        == spec_cxx_enum_bridging_template(m, name, e)->Ok_0);
}


/// Whether `e` is the struct template of an alias named by its key.
pub open spec fn struct_entry(m: Seq<char>, e: (Seq<char>, Seq<char>)) -> bool {
    exists|a: Alias| #[trigger] spec_cxx_struct_bridging_template(m, e.0, a) == Ok::<Seq<char>, CodegenError>(e.1)
}

/// Whether `e` is the nullable struct template of its key.
pub open spec fn nullable_entry(m: Seq<char>, e: (Seq<char>, Seq<char>)) -> bool {
    exists|t: TypeAnnotation| #[trigger] spec_cxx_nullable_bridging_template(m, e.0, t) == Ok::<Seq<char>, CodegenError>(e.1)
}

/// Each entry is the struct template of an alias named by its key.
pub open spec fn struct_entries(m: Seq<char>, l: Seq<(Seq<char>, Seq<char>)>) -> bool {
    forall|w: int| 0 <= w < l.len() ==> #[trigger] struct_entry(m, l[w])
}

/// Each entry is the nullable struct template of its key.
pub open spec fn nullable_entries(m: Seq<char>, l: Seq<(Seq<char>, Seq<char>)>) -> bool {
    forall|w: int| 0 <= w < l.len() ==> #[trigger] nullable_entry(m, l[w])
}

/// Storing an entry that has a property keeps every entry with it.
proof fn lemma_insert_keeps(l: Seq<(Seq<char>, Seq<char>)>, k: Seq<char>, v: Seq<char>, p: spec_fn((Seq<char>, Seq<char>)) -> bool)
    requires
        forall|w: int| 0 <= w < l.len() ==> #[trigger] p(l[w]),
        p((k, v)),
    ensures
        forall|w: int| 0 <= w < sorted_insert(l, k, v).len() ==> #[trigger] p(sorted_insert(l, k, v)[w]),
{
    lemma_sorted_insert_entries(l, k, v);
    let n = sorted_insert(l, k, v);
    assert forall|w: int| 0 <= w < n.len() implies #[trigger] p(n[w]) by {
        if n[w] != (k, v) {
            let u = choose|u: int| 0 <= u < l.len() && l[u] == n[w];
            assert(p(l[u]));
        }
    }
}

proof fn lemma_struct_entries_insert(m: Seq<char>, l: Seq<(Seq<char>, Seq<char>)>, key: Seq<char>, al: Alias)
    requires
        struct_entries(m, l),
        spec_cxx_struct_bridging_template(m, key, al) is Ok,
    ensures
        struct_entries(m, sorted_insert(l, key, spec_cxx_struct_bridging_template(m, key, al)->Ok_0)),
{
    let t = spec_cxx_struct_bridging_template(m, key, al)->Ok_0;
    let p = |e: (Seq<char>, Seq<char>)| struct_entry(m, e);
    assert(p((key, t)));
    assert forall|w: int| 0 <= w < l.len() implies #[trigger] p(l[w]) by {
        assert(struct_entry(m, l[w]));
    }
    lemma_insert_keeps(l, key, t, p);
    let n = sorted_insert(l, key, t);
    assert forall|w: int| 0 <= w < n.len() implies #[trigger] struct_entry(m, n[w]) by {
        assert(p(n[w]));
    }
}

proof fn lemma_nullable_entries_insert(m: Seq<char>, l: Seq<(Seq<char>, Seq<char>)>, key: Seq<char>, ty: TypeAnnotation)
    requires
        nullable_entries(m, l),
        spec_cxx_nullable_bridging_template(m, key, ty) is Ok,
    ensures
        nullable_entries(m, sorted_insert(l, key, spec_cxx_nullable_bridging_template(m, key, ty)->Ok_0)),
{
    let t = spec_cxx_nullable_bridging_template(m, key, ty)->Ok_0;
    let p = |e: (Seq<char>, Seq<char>)| nullable_entry(m, e);
    assert(p((key, t)));
    assert forall|w: int| 0 <= w < l.len() implies #[trigger] p(l[w]) by {
        assert(nullable_entry(m, l[w]));
    }
    lemma_insert_keeps(l, key, t, p);
    let n = sorted_insert(l, key, t);
    assert forall|w: int| 0 <= w < n.len() implies #[trigger] nullable_entry(m, n[w]) by {
        assert(p(n[w]));
    }
}

/// Each collected alias struct is the struct template of an alias named by its key; each
/// collected nullable struct is the nullable template of its key.
proof fn lemma_fold_entries(s: Schema, srcs: Seq<BridgeSource>)
    requires
        bridge_fold(s, srcs) is Ok,
    ensures
        struct_entries(s.module_name@, bridge_fold(s, srcs)->Ok_0.1),
        nullable_entries(s.module_name@, bridge_fold(s, srcs)->Ok_0.0),
    decreases srcs.len(),
{
    if srcs.len() > 0 {
        let p = srcs.drop_last();
        lemma_fold_entries(s, p);
        let st = bridge_fold(s, p)->Ok_0;
        let m = s.module_name@;
        match srcs.last() {
            BridgeSource::Alias(i) => {
                lemma_struct_entries_insert(m, st.1, s.alias_map@[i as int].0@, s.alias_map@[i as int].1);
            },
            _ => {
                let ty = source_type(s, srcs.last());
                let key = spec_cxx_type(ty, m)->Ok_0;
                if !has_key(st.0, key) {
                    lemma_nullable_entries_insert(m, st.0, key, nullable_inner(ty));
                }
            },
        }
    }
}

proof fn lemma_key_remove_multiset(l: Seq<(Seq<char>, Seq<char>)>, k: Seq<char>)
    ensures
        key_remove(l, k).0 is None ==> key_remove(l, k).1 == l,
        key_remove(l, k).0 is Some ==> key_values(l).to_multiset() == key_values(key_remove(l, k).1).to_multiset().insert(
            key_remove(l, k).0->Some_0,
        ),
    decreases l.len(),
{
    broadcast use vstd::seq_lib::to_multiset_insert;

    if l.len() > 0 {
        let d = l.drop_first();
        assert(key_values(l) =~= key_values(d).insert(0, l[0].1));
        if l[0].0 != k {
            lemma_key_remove_multiset(d, k);
            let r = key_remove(d, k);
            assert(key_values(seq![l[0]] + r.1) =~= key_values(r.1).insert(0, l[0].1));
            if r.0 is None {
                assert(seq![l[0]] + d =~= l);
            } else {
                assert(key_values(l).to_multiset() =~= key_values(seq![l[0]] + r.1).to_multiset().insert(r.0->Some_0));
            }
        }
    }
}

/// Taking the templates out in declaration order moves them without losing or adding any.
proof fn lemma_assemble_multiset(
    ns: Seq<char>,
    ord: Seq<Seq<char>>,
    structs: Seq<(Seq<char>, Seq<char>)>,
    nullables: Seq<(Seq<char>, Seq<char>)>,
)
    ensures
        ({
            let a = assemble(ns, ord, structs, nullables);
            (a.0 + key_values(a.1) + key_values(a.2)).to_multiset() == (key_values(structs) + key_values(nullables)).to_multiset()
        }),
    decreases ord.len(),
{
    broadcast use vstd::seq_lib::lemma_multiset_commutative, vstd::seq_lib::to_multiset_build;

    if ord.len() == 0 {
        let a = assemble(ns, ord, structs, nullables);
        assert(a.0 + key_values(a.1) + key_values(a.2) =~= key_values(structs) + key_values(nullables));
    } else {
        lemma_assemble_multiset(ns, ord.drop_last(), structs, nullables);
        let prev = assemble(ns, ord.drop_last(), structs, nullables);
        let name = ord.last();
        let ra = key_remove(prev.1, name);
        let out1 = match ra.0 {
            Some(t) => prev.0.push(t),
            None => prev.0,
        };
        let rb = key_remove(prev.2, ns + name);
        let out2 = match rb.0 {
            Some(t) => out1.push(t),
            None => out1,
        };
        lemma_key_remove_multiset(prev.1, name);
        lemma_key_remove_multiset(prev.2, ns + name);
        let before = (prev.0 + key_values(prev.1) + key_values(prev.2)).to_multiset();
        assert((out1 + key_values(ra.1) + key_values(prev.2)).to_multiset() =~= before);
        assert((out2 + key_values(ra.1) + key_values(rb.1)).to_multiset() =~= before);
    }
}


/// Whether `x` is a bridging template for target type `t` whose `fromJs` body begins with
/// the line `l`.
pub open spec fn tagged(x: Seq<char>, t: Seq<char>, l: Seq<char>) -> bool {
    exists|r: Seq<char>, g: Seq<char>| #[trigger] crate::cxx_gen::spec_cxx_bridging_template(t, l + seq!['\n'] + r, g) == x
}

/// The C++ type names that the templates target hold no `>`: the module's namespace, the
/// alias and enum names, and the nullable types' names.
pub open spec fn names_lack_gt(s: Schema) -> bool {
    &&& crate::text::lacks(spec_mod_ns(s.module_name@), '>')
    &&& forall|i: int| 0 <= i < s.alias_map@.len() ==> crate::text::lacks(#[trigger] alias_keys(s)[i], '>')
    &&& forall|j: int| 0 <= j < s.enum_map@.len() ==> crate::text::lacks(#[trigger] s.enum_map@[j].0@, '>')
    &&& forall|k: Seq<char>| nullable_keys(s).contains(k) ==> crate::text::lacks(k, '>')
}

proof fn lemma_lacks_concat(a: Seq<char>, b: Seq<char>, c: char)
    requires
        crate::text::lacks(a, c),
        crate::text::lacks(b, c),
    ensures
        crate::text::lacks(a + b, c),
{
    assert forall|k: int| 0 <= k < (a + b).len() implies (a + b)[k] != c by {
        if k >= a.len() {
            assert((a + b)[k] == b[k - a.len()]);
        }
    }
}

proof fn lemma_prefix_cancel(a: Seq<char>, b: Seq<char>, c: Seq<char>)
    requires
        a + b == a + c,
    ensures
        b == c,
{
    assert(b =~= (a + b).subrange(a.len() as int, (a + b).len() as int));
    assert(c =~= (a + c).subrange(a.len() as int, (a + c).len() as int));
}

proof fn lemma_tagged_differ(x1: Seq<char>, t1: Seq<char>, l1: Seq<char>, x2: Seq<char>, t2: Seq<char>, l2: Seq<char>)
    requires
        tagged(x1, t1, l1),
        tagged(x2, t2, l2),
        crate::text::plain_line(l1),
        crate::text::plain_line(l2),
        l1.len() >= 6,
        l2.len() >= 6,
        crate::text::lacks(t1, '>'),
        crate::text::lacks(t2, '>'),
        t1 != t2 || l1.take(6) != l2.take(6),
    ensures
        x1 != x2,
{
    let (r1, g1) = choose|r: Seq<char>, g: Seq<char>| #[trigger] crate::cxx_gen::spec_cxx_bridging_template(t1, l1 + seq!['\n'] + r, g) == x1;
    let (r2, g2) = choose|r: Seq<char>, g: Seq<char>| #[trigger] crate::cxx_gen::spec_cxx_bridging_template(t2, l2 + seq!['\n'] + r, g) == x2;
    crate::cxx_gen::lemma_bridging_templates_differ(t1, l1, r1, g1, t2, l2, r2, g2);
}

/// Whether entry `w` of the enum templates is that of enum number `j`, which it targets.
pub open spec fn enum_entry_of(s: Schema, w: int, j: int) -> bool {
    &&& 0 <= j < s.enum_map@.len()
    &&& enum_fold(s, s.enum_map@.len() as int)->Ok_0[w].0 == enum_names(s)[j]
    &&& tagged(
        enum_fold(s, s.enum_map@.len() as int)->Ok_0[w].1,
        spec_mod_ns(s.module_name@) + s.enum_map@[j].0@,
        enum_line(s.enum_map@[j].1),
    )
}

/// The enum that entry `w` of the enum templates belongs to.
pub open spec fn enum_entry_index(s: Schema, w: int) -> int {
    choose|j: int| enum_entry_of(s, w, j)
}

/// The enum templates and what they target.
proof fn lemma_enum_tags(s: Schema)
    requires
        enum_fold(s, s.enum_map@.len() as int) is Ok,
    ensures
        forall|w: int|
            0 <= w < enum_fold(s, s.enum_map@.len() as int)->Ok_0.len() ==> enum_entry_of(s, w, #[trigger] enum_entry_index(s, w)),
{
    let e = s.enum_map@.len() as int;
    let enums = enum_fold(s, e)->Ok_0;
    lemma_enum_fold_keys(s, e);
    assert forall|w: int| 0 <= w < enums.len() implies enum_entry_of(s, w, #[trigger] enum_entry_index(s, w)) by {
        let j = choose|j: int| 0 <= j < e && enum_template(s, j) is Ok && #[trigger] enums[w] == (enum_names(s)[j], #[trigger] enum_template(s, j)->Ok_0);
        lemma_enum_form(s.module_name@, s.enum_map@[j].0@, s.enum_map@[j].1);
        let (r, g) = choose|r: Seq<char>, g: Seq<char>|
            #[trigger] crate::cxx_gen::spec_cxx_bridging_template(spec_mod_ns(s.module_name@) + s.enum_map@[j].0@, enum_line(s.enum_map@[j].1) + seq!['\n'] + r, g)
                == spec_cxx_enum_bridging_template(s.module_name@, s.enum_map@[j].0@, s.enum_map@[j].1)->Ok_0;
        assert(enum_entry_of(s, w, j));
    }
}


proof fn lemma_struct_tag(m: Seq<char>, e: (Seq<char>, Seq<char>))
    requires
        struct_entry(m, e),
    ensures
        tagged(e.1, spec_mod_ns(m) + e.0, struct_line()),
{
    let a = choose|a: Alias| #[trigger] spec_cxx_struct_bridging_template(m, e.0, a) == Ok::<Seq<char>, CodegenError>(e.1);
    lemma_struct_form(m, e.0, a);
    let (r, g) = choose|r: Seq<char>, g: Seq<char>|
        #[trigger] crate::cxx_gen::spec_cxx_bridging_template(spec_mod_ns(m) + e.0, struct_line() + seq!['\n'] + r, g)
            == spec_cxx_struct_bridging_template(m, e.0, a)->Ok_0;
}

proof fn lemma_nullable_tag(m: Seq<char>, e: (Seq<char>, Seq<char>))
    requires
        nullable_entry(m, e),
    ensures
        tagged(e.1, e.0, nullable_line()),
{
    let t = choose|t: TypeAnnotation| #[trigger] spec_cxx_nullable_bridging_template(m, e.0, t) == Ok::<Seq<char>, CodegenError>(e.1);
    lemma_nullable_form(m, e.0, t);
    let (r, g) = choose|r: Seq<char>, g: Seq<char>|
        #[trigger] crate::cxx_gen::spec_cxx_bridging_template(e.0, nullable_line() + seq!['\n'] + r, g)
            == spec_cxx_nullable_bridging_template(m, e.0, t)->Ok_0;
}

/// The enum templates, the alias structs and the nullable structs, as collected.
pub open spec fn collected_templates(s: Schema) -> Seq<Seq<char>> {
    key_values(enum_fold(s, s.enum_map@.len() as int)->Ok_0) + key_values(bridge_fold(s, all_sources(s))->Ok_0.1)
        + key_values(bridge_fold(s, all_sources(s))->Ok_0.0)
}

/// What template `i` of the collected ones targets, and the first line of its `fromJs` body.
pub open spec fn collected_tag(s: Schema, i: int) -> (Seq<char>, Seq<char>) {
    let ne = enum_fold(s, s.enum_map@.len() as int)->Ok_0.len();
    let st = bridge_fold(s, all_sources(s))->Ok_0;
    let ns = spec_mod_ns(s.module_name@);
    if i < ne {
        let j = enum_entry_index(s, i);
        (ns + s.enum_map@[j].0@, enum_line(s.enum_map@[j].1))
    } else if i < ne + st.1.len() {
        (ns + st.1[i - ne].0, struct_line())
    } else {
        (st.0[i - ne - st.1.len()].0, nullable_line())
    }
}

/// Each collected template is tagged by its target and first line.
proof fn lemma_collected_tags(s: Schema)
    requires
        bridge_fold(s, all_sources(s)) is Ok,
        enum_fold(s, s.enum_map@.len() as int) is Ok,
        names_lack_gt(s),
    ensures
        forall|i: int|
            0 <= i < collected_templates(s).len() ==> {
                &&& tagged(collected_templates(s)[i], #[trigger] collected_tag(s, i).0, collected_tag(s, i).1)
                &&& crate::text::lacks(collected_tag(s, i).0, '>')
                &&& crate::text::plain_line(collected_tag(s, i).1)
                &&& collected_tag(s, i).1.len() >= 6
            },
{
    let ne = enum_fold(s, s.enum_map@.len() as int)->Ok_0.len();
    let enums = enum_fold(s, s.enum_map@.len() as int)->Ok_0;
    let st = bridge_fold(s, all_sources(s))->Ok_0;
    let ns = spec_mod_ns(s.module_name@);
    let m = s.module_name@;
    let b = collected_templates(s);
    lemma_enum_tags(s);
    lemma_fold_entries(s, all_sources(s));
    lemma_fold_keys(s, all_sources(s));
    lemma_all_alias_names(s);
    assert forall|i: int| 0 <= i < b.len() implies {
        &&& tagged(b[i], #[trigger] collected_tag(s, i).0, collected_tag(s, i).1)
        &&& crate::text::lacks(collected_tag(s, i).0, '>')
        &&& crate::text::plain_line(collected_tag(s, i).1)
        &&& collected_tag(s, i).1.len() >= 6
    } by {
        if i < ne {
            let j = enum_entry_index(s, i);
            assert(enum_entry_of(s, i, j));
            assert(b[i] == enums[i].1);
            lemma_lines_plain(s.enum_map@[j].1);
            lemma_lacks_concat(ns, s.enum_map@[j].0@, '>');
        } else if i < ne + st.1.len() {
            let w = i - ne;
            assert(b[i] == st.1[w].1);
            assert(struct_entry(m, st.1[w]));
            lemma_struct_tag(m, st.1[w]);
            lemma_lines_plain(s.enum_map@[0].1);
            assert(has_key(st.1, st.1[w].0));
            assert(alias_names_of(s, all_sources(s)).contains(st.1[w].0));
            assert(alias_keys(s).contains(st.1[w].0));
            let k = choose|k: int| 0 <= k < alias_keys(s).len() && alias_keys(s)[k] == st.1[w].0;
            assert(crate::text::lacks(alias_keys(s)[k], '>'));
            lemma_lacks_concat(ns, st.1[w].0, '>');
        } else {
            let w = i - ne - st.1.len();
            assert(b[i] == st.0[w].1);
            assert(nullable_entry(m, st.0[w]));
            lemma_nullable_tag(m, st.0[w]);
            lemma_lines_plain(s.enum_map@[0].1);
            assert(has_key(st.0, st.0[w].0));
            assert(nullable_keys(s).contains(st.0[w].0));
        }
    }
}


/// No two collected templates share both target and first line (up to six characters).
proof fn lemma_collected_tags_distinct(s: Schema)
    requires
        bridge_fold(s, all_sources(s)) is Ok,
        enum_fold(s, s.enum_map@.len() as int) is Ok,
        s.wf(),
    ensures
        forall|i: int, k: int|
            0 <= i < k < collected_templates(s).len() ==> (#[trigger] collected_tag(s, i)).0 != (#[trigger] collected_tag(s, k)).0
                || collected_tag(s, i).1.take(6) != collected_tag(s, k).1.take(6),
{
    let enums = enum_fold(s, s.enum_map@.len() as int)->Ok_0;
    let ne = enums.len();
    let st = bridge_fold(s, all_sources(s))->Ok_0;
    let ns = spec_mod_ns(s.module_name@);
    lemma_enum_tags(s);
    lemma_enum_fold_keys(s, s.enum_map@.len() as int);
    lemma_fold_keys(s, all_sources(s));
    assert forall|i: int, k: int| 0 <= i < k < collected_templates(s).len() implies (#[trigger] collected_tag(s, i)).0
        != (#[trigger] collected_tag(s, k)).0 || collected_tag(s, i).1.take(6) != collected_tag(s, k).1.take(6) by {
        let ti = collected_tag(s, i);
        let tk = collected_tag(s, k);
        if i < ne && k < ne {
            let ji = enum_entry_index(s, i);
            let jk = enum_entry_index(s, k);
            assert(enum_entry_of(s, i, ji));
            assert(enum_entry_of(s, k, jk));
            assert(crate::keyed::str_lt(enums[i].0, enums[k].0));
            crate::keyed::lemma_str_lt_irreflexive(enums[i].0);
            assert(ji != jk);
            if ji < jk {
                assert(crate::keyed::str_lt(s.enum_map@[ji].0@, s.enum_map@[jk].0@));
            } else {
                assert(crate::keyed::str_lt(s.enum_map@[jk].0@, s.enum_map@[ji].0@));
            }
            crate::keyed::lemma_str_lt_irreflexive(s.enum_map@[ji].0@);
            if ti.0 == tk.0 {
                lemma_prefix_cancel(ns, s.enum_map@[ji].0@, s.enum_map@[jk].0@);
            }
        } else if ne <= i && k < ne + st.1.len() {
            assert(crate::keyed::str_lt(st.1[i - ne].0, st.1[k - ne].0));
            crate::keyed::lemma_str_lt_irreflexive(st.1[i - ne].0);
            if ti.0 == tk.0 {
                lemma_prefix_cancel(ns, st.1[i - ne].0, st.1[k - ne].0);
            }
        } else if ne + st.1.len() <= i {
            let a = i - ne - st.1.len();
            let b = k - ne - st.1.len();
            assert(crate::keyed::str_lt(st.0[a].0, st.0[b].0));
            crate::keyed::lemma_str_lt_irreflexive(st.0[a].0);
        } else if i < ne {
            let ji = enum_entry_index(s, i);
            lemma_lines_plain(s.enum_map@[ji].1);
        } else {
            lemma_lines_plain(s.enum_map@[0].1);
        }
    }
}

/// In a well-formed schema whose C++ type names hold no `>` (the character that closes the
/// type in `Bridging<...>`), no bridging template appears twice.
pub proof fn lemma_bridging_templates_distinct(s: Schema)
    requires
        spec_bridging_templates(s) is Ok,
        s.wf(),
        names_lack_gt(s),
    ensures
        spec_bridging_templates(s)->Ok_0.no_duplicates(),
{
    broadcast use vstd::seq_lib::lemma_multiset_commutative;

    let b = collected_templates(s);
    lemma_collected_tags(s);
    lemma_collected_tags_distinct(s);
    assert forall|i: int, k: int| 0 <= i < b.len() && 0 <= k < b.len() && i != k implies b[i] != b[k] by {
        let ti = collected_tag(s, i);
        let tk = collected_tag(s, k);
        if i < k {
            lemma_tagged_differ(b[i], ti.0, ti.1, b[k], tk.0, tk.1);
        } else {
            lemma_tagged_differ(b[k], tk.0, tk.1, b[i], ti.0, ti.1);
        }
    }
    let v = spec_bridging_templates(s)->Ok_0;
    let st = bridge_fold(s, all_sources(s))->Ok_0;
    let enums = enum_fold(s, s.enum_map@.len() as int)->Ok_0;
    let ord = spec_deps_order(s)->Ok_0;
    let a = assemble(spec_mod_ns(s.module_name@), ord, st.1, st.0);
    let rest = a.0 + key_values(a.1) + key_values(a.2);
    lemma_assemble_multiset(spec_mod_ns(s.module_name@), ord, st.1, st.0);
    assert(v =~= key_values(enums) + rest);
    assert(b =~= key_values(enums) + (key_values(st.1) + key_values(st.0)));
    assert(v.to_multiset() =~= b.to_multiset());
    b.lemma_multiset_has_no_duplicates();
    v.lemma_multiset_has_no_duplicates_conv();
}

} // verus!
