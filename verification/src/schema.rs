//! The TurboModule schema that code generation reads (React Native codegen's schema:
//! module name, type aliases, enums and the spec's methods).
use vstd::prelude::*;

verus! {

/// A type as the schema writes it.
pub enum TypeAnnotation {
    ReservedTypeAnnotation { name: String },
    BooleanTypeAnnotation,
    NumberTypeAnnotation,
    FloatTypeAnnotation,
    DoubleTypeAnnotation,
    Int32TypeAnnotation,
    /// A number literal type; `value` is the literal as written in the schema.
    NumberLiteralTypeAnnotation { value: String },
    StringTypeAnnotation,
    StringLiteralTypeAnnotation { value: String },
    StringLiteralUnionTypeAnnotation { types: Vec<Box<TypeAnnotation>> },
    ArrayTypeAnnotation { element_type: Box<TypeAnnotation> },
    EnumDeclaration { name: String, member_type: String, members: Option<Vec<EnumMember>> },
    GenericObjectTypeAnnotation,
    ObjectTypeAnnotation { properties: Option<Vec<ObjectProperty>> },
    FunctionTypeAnnotation {
        return_type_annotation: Box<TypeAnnotation>,
        params: Vec<Parameter>,
    },
    UnionTypeAnnotation { member_type: String },
    PromiseTypeAnnotation { element_type: Box<TypeAnnotation> },
    MixedTypeAnnotation,
    VoidTypeAnnotation,
    NullableTypeAnnotation { type_annotation: Box<TypeAnnotation> },
    TypeAliasTypeAnnotation { name: String },
}

pub struct ObjectProperty {
    pub name: String,
    pub optional: bool,
    pub type_annotation: Box<TypeAnnotation>,
}

pub struct Parameter {
    pub name: String,
    pub optional: bool,
    pub type_annotation: Box<TypeAnnotation>,
}

pub struct FunctionSpec {
    pub name: String,
    pub optional: bool,
    pub type_annotation: Box<TypeAnnotation>,
}

pub struct Alias {
    pub kind: String,
    pub properties: Vec<AliasProperty>,
}

pub struct AliasProperty {
    pub name: String,
    pub optional: bool,
    pub type_annotation: Box<TypeAnnotation>,
}

pub struct Enum {
    pub name: String,
    pub kind: String,
    pub member_type: String,
    pub members: Option<Vec<EnumMember>>,
}

pub struct EnumMember {
    pub name: String,
    pub value: EnumMemberValue,
}

pub struct EnumMemberValue {
    pub kind: String,
    pub value: String,
}

pub struct Spec {
    pub event_emitters: Vec<String>,
    pub methods: Vec<FunctionSpec>,
}

/// A module's schema. `alias_map` and `enum_map` hold the entries of the schema's maps in
/// ascending order of their keys, as a `BTreeMap` yields them.
pub struct Schema {
    pub module_name: String,
    pub kind: String,
    pub alias_map: Vec<(String, Alias)>,
    pub enum_map: Vec<(String, Enum)>,
    pub spec: Spec,
}

impl Schema {
    /// Well-formed: the keys of `alias_map` and of `enum_map` strictly ascend, as the entries
    /// of a `BTreeMap` do.
    pub open spec fn wf(&self) -> bool {
        &&& forall|i: int, j: int|
            0 <= i < j < self.alias_map@.len() ==> crate::keyed::str_lt(
                #[trigger] self.alias_map@[i].0@,
                #[trigger] self.alias_map@[j].0@,
            )
        &&& forall|i: int, j: int|
            0 <= i < j < self.enum_map@.len() ==> crate::keyed::str_lt(
                #[trigger] self.enum_map@[i].0@,
                #[trigger] self.enum_map@[j].0@,
            )
    }
}

/// Why code could not be generated for a schema.
#[derive(PartialEq, Eq, Debug, Clone)]
pub enum CodegenError {
    /// An array of arrays.
    NestedArray,
    /// A type that has no counterpart in the target language.
    UnsupportedType,
    /// A nullable type whose inner type cannot be nullable.
    UnsupportedNullableType,
    /// A nullable array whose element type cannot be nullable.
    UnsupportedNullableArrayType,
    /// A function type where a value type is expected.
    FunctionTypeNotSupported,
    /// An inline object type where a type alias is expected.
    ObjectTypeNotSupported,
    /// A method whose type is not a function type.
    NotAFunction,
    /// An optional method; it holds the method's name.
    OptionalMethod(String),
    /// An optional parameter; it holds the parameter's name.
    OptionalParameter(String),
    /// An alias that is not an object type; it holds the alias's type.
    AliasNotObject(String),
    /// An enum that is not declared with members.
    EnumNotDeclaredWithMembers,
    /// An enum whose members are neither all strings nor all numbers.
    EnumMemberTypeInvalid,
    /// An enum without members.
    EnumMembersRequired,
    /// Type aliases that use each other in a cycle, so that no order declares each after
    /// the ones it uses.
    CyclicDependency,
}

impl CodegenError {
    /// The error's message (without the debug form of the offending type, where the
    /// message of code generation showed one).
    pub open spec fn spec_message(self) -> Seq<char> {
        match self {
            CodegenError::NestedArray => "Nested array type is not supported"@,
            CodegenError::UnsupportedType => "Unsupported type annotation"@,
            CodegenError::UnsupportedNullableType => "Unsupported type annotation for nullable type"@,
            CodegenError::UnsupportedNullableArrayType => "Unsupported type annotation for nullable array type"@,
            CodegenError::FunctionTypeNotSupported => "Function type annotation is not supported"@,
            CodegenError::ObjectTypeNotSupported => "Use strict type alias instead of object type"@,
            CodegenError::NotAFunction => "Function type annotation should be a function"@,
            CodegenError::EnumNotDeclaredWithMembers => "Enum type should be EnumDeclarationWithMembers"@,
            CodegenError::EnumMemberTypeInvalid => "Enum member type should be StringTypeAnnotation or NumberTypeAnnotation"@,
            CodegenError::EnumMembersRequired => "Enum members are required"@,
            CodegenError::CyclicDependency => "Type aliases use each other in a cycle"@,
            CodegenError::OptionalMethod(x) => "Optional method is not supported: "@ + x@,
            CodegenError::OptionalParameter(x) => "Optional parameter is not supported: "@ + x@,
            CodegenError::AliasNotObject(x) => "Alias type should be ObjectTypeAnnotation, but got "@ + x@,
        }
    }

    /// The error's message.
    pub fn message(&self) -> (r: String)
        ensures
            r@ == self.spec_message(),
    {
        match self {
            CodegenError::NestedArray => String::from_str("Nested array type is not supported"),
            CodegenError::UnsupportedType => String::from_str("Unsupported type annotation"),
            CodegenError::UnsupportedNullableType => String::from_str("Unsupported type annotation for nullable type"),
            CodegenError::UnsupportedNullableArrayType => String::from_str("Unsupported type annotation for nullable array type"),
            CodegenError::FunctionTypeNotSupported => String::from_str("Function type annotation is not supported"),
            CodegenError::ObjectTypeNotSupported => String::from_str("Use strict type alias instead of object type"),
            CodegenError::NotAFunction => String::from_str("Function type annotation should be a function"),
            CodegenError::EnumNotDeclaredWithMembers => String::from_str("Enum type should be EnumDeclarationWithMembers"),
            CodegenError::EnumMemberTypeInvalid => String::from_str("Enum member type should be StringTypeAnnotation or NumberTypeAnnotation"),
            CodegenError::EnumMembersRequired => String::from_str("Enum members are required"),
            CodegenError::CyclicDependency => String::from_str("Type aliases use each other in a cycle"),
            CodegenError::OptionalMethod(x) => {
                let mut out = String::from_str("Optional method is not supported: ");
                out.append(x.as_str());
                out
            },
            CodegenError::OptionalParameter(x) => {
                let mut out = String::from_str("Optional parameter is not supported: ");
                out.append(x.as_str());
                out
            },
            CodegenError::AliasNotObject(x) => {
                let mut out = String::from_str("Alias type should be ObjectTypeAnnotation, but got ");
                out.append(x.as_str());
                out
            },
        }
    }
}

pub open spec fn is_number_type(t: TypeAnnotation) -> bool {
    ||| t is NumberTypeAnnotation
    ||| t is FloatTypeAnnotation
    ||| t is DoubleTypeAnnotation
    ||| t is Int32TypeAnnotation
    ||| t is NumberLiteralTypeAnnotation
}

pub open spec fn is_string_type(t: TypeAnnotation) -> bool {
    ||| t is StringTypeAnnotation
    ||| t is StringLiteralTypeAnnotation
    ||| t is StringLiteralUnionTypeAnnotation
}

impl TypeAnnotation {
    pub fn is_number(&self) -> (r: bool)
        ensures
            r == is_number_type(*self),
    {
        match self {
            TypeAnnotation::NumberTypeAnnotation
            | TypeAnnotation::FloatTypeAnnotation
            | TypeAnnotation::DoubleTypeAnnotation
            | TypeAnnotation::Int32TypeAnnotation
            | TypeAnnotation::NumberLiteralTypeAnnotation { .. } => true,
            _ => false,
        }
    }

    pub fn is_string(&self) -> (r: bool)
        ensures
            r == is_string_type(*self),
    {
        match self {
            TypeAnnotation::StringTypeAnnotation
            | TypeAnnotation::StringLiteralTypeAnnotation { .. }
            | TypeAnnotation::StringLiteralUnionTypeAnnotation { .. } => true,
            _ => false,
        }
    }
}

} // verus!
