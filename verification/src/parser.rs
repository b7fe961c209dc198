//! The types a TurboModule specification is read into, their mathematical views, and the
//! part of a TypeScript syntax tree (after name resolution) that the analysis reads.
use vstd::prelude::*;
use vstd::string::*;

verus! {

// ---------------------------------------------------------------------------------------
// What the analysis produces.
// ---------------------------------------------------------------------------------------

/// A type of a specification.
pub enum TypeAnnotation {
    Void,
    Boolean,
    Number,
    String,
    Array(Box<TypeAnnotation>),
    Object(ObjectTypeAnnotation),
    Enum(EnumTypeAnnotation),
    Promise(Box<TypeAnnotation>),
    Nullable(Box<TypeAnnotation>),
    /// A reference to a declared type (an object, an enum or an alias), not yet resolved.
    Ref(RefTypeAnnotation),
}

/// An object type: an interface or a type alias of a type literal.
pub struct ObjectTypeAnnotation {
    pub name: String,
    pub props: Vec<Prop>,
}

pub struct Prop {
    pub name: String,
    pub type_annotation: TypeAnnotation,
}

pub struct EnumTypeAnnotation {
    pub name: String,
    pub members: Vec<EnumMember>,
}

pub struct EnumMember {
    pub name: String,
    pub value: EnumMemberValue,
}

pub enum EnumMemberValue {
    String(String),
    Number(usize),
}

/// A type reference: the id the semantic analysis gave the reference, and the name used.
pub struct RefTypeAnnotation {
    pub ref_id: u32,
    pub name: String,
}

pub struct Signal {
    pub name: String,
}

pub struct Param {
    pub name: String,
    pub type_annotation: TypeAnnotation,
}

pub struct Method {
    pub name: String,
    pub params: Vec<Param>,
    pub ret_type: TypeAnnotation,
}

/// The methods of a specification interface.
pub struct Spec {
    /// Module methods
    pub methods: Vec<Method>,
    /// Module signals
    pub signals: Vec<Signal>,
}

/// A module read from a specification file: its name, the object and enum types its methods
/// use, and its methods with every type reference resolved.
pub struct ModuleSchema {
    pub module_name: String,
    pub alias_map: Vec<ObjectTypeAnnotation>,
    pub enum_map: Vec<EnumTypeAnnotation>,
    pub methods: Vec<Method>,
}

/// A range of the source text.
#[derive(Debug, Clone, Copy, PartialEq, Eq, Structural)]
pub struct Span {
    pub start: u32,
    pub end: u32,
}

/// An error found in a specification, with the source range it is about.
pub struct Diagnostic {
    pub message: String,
    pub span: Span,
}

/// Why a specification file could not be read.
pub enum ParseError {
    General(String),
    Oxc { diagnostics: Vec<Diagnostic> },
}

// ---------------------------------------------------------------------------------------
// Views.
// ---------------------------------------------------------------------------------------

pub ghost enum TypeV {
    Void,
    Boolean,
    Number,
    String,
    Array(Box<TypeV>),
    Object(ObjV),
    Enum(EnumV),
    Promise(Box<TypeV>),
    Nullable(Box<TypeV>),
    Ref(u32, Seq<char>),
}

pub ghost struct ObjV {
    pub name: Seq<char>,
    pub props: Seq<(Seq<char>, TypeV)>,
}

pub ghost enum MemberV {
    Str(Seq<char>),
    Num(usize),
}

pub ghost struct EnumV {
    pub name: Seq<char>,
    pub members: Seq<(Seq<char>, MemberV)>,
}

pub ghost struct MethodV {
    pub name: Seq<char>,
    pub params: Seq<(Seq<char>, TypeV)>,
    pub ret: TypeV,
}

pub ghost struct ModuleV {
    pub module_name: Seq<char>,
    pub alias_map: Seq<ObjV>,
    pub enum_map: Seq<EnumV>,
    pub methods: Seq<MethodV>,
}

pub open spec fn member_view(v: EnumMemberValue) -> MemberV {
    match v {
        EnumMemberValue::String(s) => MemberV::Str(s@),
        EnumMemberValue::Number(n) => MemberV::Num(n),
    }
}

pub open spec fn enum_view(e: EnumTypeAnnotation) -> EnumV {
    EnumV { name: e.name@, members: e.members@.map_values(|m: EnumMember| (m.name@, member_view(m.value))) }
}

pub open spec fn tview(t: TypeAnnotation) -> TypeV
    decreases t, 0int,
{
    match t {
        TypeAnnotation::Void => TypeV::Void,
        TypeAnnotation::Boolean => TypeV::Boolean,
        TypeAnnotation::Number => TypeV::Number,
        TypeAnnotation::String => TypeV::String,
        TypeAnnotation::Array(e) => TypeV::Array(Box::new(tview(*e))),
        TypeAnnotation::Object(o) => {
            proof {
                assert(decreases_to!(t => o.props@)) by {
                    broadcast use vstd::std_specs::vec::axiom_vec_decreases_to_view;
                }
            }
            TypeV::Object(ObjV { name: o.name@, props: props_view(o.props@, o.props@.len() as int) })
        },
        TypeAnnotation::Enum(e) => TypeV::Enum(enum_view(e)),
        TypeAnnotation::Promise(e) => TypeV::Promise(Box::new(tview(*e))),
        TypeAnnotation::Nullable(e) => TypeV::Nullable(Box::new(tview(*e))),
        TypeAnnotation::Ref(r) => TypeV::Ref(r.ref_id, r.name@),
    }
}

/// The views of the first `n` properties.
pub open spec fn props_view(ps: Seq<Prop>, n: int) -> Seq<(Seq<char>, TypeV)>
    decreases ps, n,
{
    if n <= 0 || n > ps.len() {
        Seq::empty()
    } else {
        props_view(ps, n - 1).push((ps[n - 1].name@, tview(ps[n - 1].type_annotation)))
    }
}

pub open spec fn obj_view(o: ObjectTypeAnnotation) -> ObjV {
    ObjV { name: o.name@, props: props_view(o.props@, o.props@.len() as int) }
}

pub open spec fn params_view(ps: Seq<Param>) -> Seq<(Seq<char>, TypeV)> {
    ps.map_values(|p: Param| (p.name@, tview(p.type_annotation)))
}

pub open spec fn method_view(m: Method) -> MethodV {
    MethodV { name: m.name@, params: params_view(m.params@), ret: tview(m.ret_type) }
}

pub open spec fn methods_view(ms: Seq<Method>) -> Seq<MethodV> {
    ms.map_values(|m: Method| method_view(m))
}

pub open spec fn module_view(s: ModuleSchema) -> ModuleV {
    ModuleV {
        module_name: s.module_name@,
        alias_map: s.alias_map@.map_values(|o: ObjectTypeAnnotation| obj_view(o)),
        enum_map: s.enum_map@.map_values(|e: EnumTypeAnnotation| enum_view(e)),
        methods: methods_view(s.methods@),
    }
}

pub open spec fn diag_view(d: Diagnostic) -> (Seq<char>, Span) {
    (d.message@, d.span)
}

pub open spec fn diags_view(ds: Seq<Diagnostic>) -> Seq<(Seq<char>, Span)> {
    ds.map_values(|d: Diagnostic| diag_view(d))
}

proof fn lemma_props_view_prefix(ps: Seq<Prop>, n: int, k: int)
    requires
        0 <= k <= n <= ps.len(),
    ensures
        props_view(ps, n).len() == n,
        props_view(ps, n)[k - 1] == (if k >= 1 {
            (ps[k - 1].name@, tview(ps[k - 1].type_annotation))
        } else {
            props_view(ps, n)[k - 1]
        }),
    decreases n,
{
    if n > 0 {
        if k < n {
            lemma_props_view_prefix(ps, n - 1, k);
        } else {
            lemma_props_view_prefix(ps, n - 1, n - 1);
        }
    }
}

/// The view of a property list, element by element.
pub proof fn lemma_props_view(ps: Seq<Prop>)
    ensures
        props_view(ps, ps.len() as int).len() == ps.len(),
        forall|i: int|
            0 <= i < ps.len() ==> #[trigger] props_view(ps, ps.len() as int)[i] == (ps[i].name@, tview(ps[i].type_annotation)),
{
    lemma_props_view_prefix(ps, ps.len() as int, 0);
    assert forall|i: int| 0 <= i < ps.len() implies #[trigger] props_view(ps, ps.len() as int)[i] == (
        ps[i].name@,
        tview(ps[i].type_annotation),
    ) by {
        lemma_props_view_prefix(ps, ps.len() as int, i + 1);
    }
}

// ---------------------------------------------------------------------------------------
// Copies.
// ---------------------------------------------------------------------------------------

/// A copy of an enum type.
pub fn clone_enum(e: &EnumTypeAnnotation) -> (r: EnumTypeAnnotation)
    ensures
        enum_view(r) == enum_view(*e),
{
    let mut members: Vec<EnumMember> = Vec::new();
    let mut i: usize = 0;
    while i < e.members.len()
        invariant
            i <= e.members@.len(),
            members@.len() == i,
            forall|j: int| 0 <= j < i ==> (#[trigger] members@[j]).name@ == e.members@[j].name@ && member_view(members@[j].value) == member_view(e.members@[j].value),
        decreases e.members@.len() - i,
    {
        let m = &e.members[i];
        let value = match &m.value {
            EnumMemberValue::String(s) => EnumMemberValue::String(s.clone()),
            EnumMemberValue::Number(n) => EnumMemberValue::Number(*n),
        };
        members.push(EnumMember { name: m.name.clone(), value });
        i = i + 1;
    }
    let r = EnumTypeAnnotation { name: e.name.clone(), members };
    assert(enum_view(r).members =~= enum_view(*e).members);
    r
}

/// A copy of a type.
pub fn clone_type(t: &TypeAnnotation) -> (r: TypeAnnotation)
    ensures
        tview(r) == tview(*t),
    decreases t,
{
    match t {
        TypeAnnotation::Void => TypeAnnotation::Void,
        TypeAnnotation::Boolean => TypeAnnotation::Boolean,
        TypeAnnotation::Number => TypeAnnotation::Number,
        TypeAnnotation::String => TypeAnnotation::String,
        TypeAnnotation::Array(e) => TypeAnnotation::Array(Box::new(clone_type(e))),
        TypeAnnotation::Object(o) => TypeAnnotation::Object(clone_object(o)),
        TypeAnnotation::Enum(e) => TypeAnnotation::Enum(clone_enum(e)),
        TypeAnnotation::Promise(e) => TypeAnnotation::Promise(Box::new(clone_type(e))),
        TypeAnnotation::Nullable(e) => TypeAnnotation::Nullable(Box::new(clone_type(e))),
        TypeAnnotation::Ref(x) => TypeAnnotation::Ref(RefTypeAnnotation { ref_id: x.ref_id, name: x.name.clone() }),
    }
}

/// A copy of an object type.
pub fn clone_object(o: &ObjectTypeAnnotation) -> (r: ObjectTypeAnnotation)
    ensures
        obj_view(r) == obj_view(*o),
    decreases o,
{
    let mut props: Vec<Prop> = Vec::new();
    let mut i: usize = 0;
    proof {
        lemma_props_view(o.props@);
    }
    while i < o.props.len()
        invariant
            i <= o.props@.len(),
            props@.len() == i,
            forall|j: int|
                0 <= j < i ==> (#[trigger] props@[j]).name@ == o.props@[j].name@ && tview(props@[j].type_annotation)
                    == tview(o.props@[j].type_annotation),
        decreases o.props@.len() - i,
    {
        let p = &o.props[i];
        proof {
            assert(decreases_to!(o => o.props@[i as int].type_annotation)) by {
                broadcast use vstd::std_specs::vec::axiom_vec_decreases_to_view;
            }
        }
        let ty = clone_type(&p.type_annotation);
        props.push(Prop { name: p.name.clone(), type_annotation: ty });
        i = i + 1;
    }
    let r = ObjectTypeAnnotation { name: o.name.clone(), props };
    proof {
        lemma_props_view(r.props@);
        assert(obj_view(r).props =~= obj_view(*o).props);
    }
    r
}

} // verus!

verus! {

impl TypeAnnotation {
    /// The object type, where this is one.
    pub fn as_object(&self) -> (r: Option<&ObjectTypeAnnotation>)
        ensures
            match *self {
                TypeAnnotation::Object(o) => r == Some(&o),
                _ => r is None,
            },
    {
        match self {
            TypeAnnotation::Object(object) => Some(object),
            _ => None,
        }
    }

    /// The enum type, where this is one.
    pub fn as_enum(&self) -> (r: Option<&EnumTypeAnnotation>)
        ensures
            match *self {
                TypeAnnotation::Enum(e) => r == Some(&e),
                _ => r is None,
            },
    {
        match self {
            TypeAnnotation::Enum(enum_type) => Some(enum_type),
            _ => None,
        }
    }
}

} // verus!
