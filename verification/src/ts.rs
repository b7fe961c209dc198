//! The part of a TypeScript module that the specification analysis reads, as the parser and
//! the semantic analysis leave it: declarations, imports and calls in the order they are
//! visited, with each identifier reference numbered and each declaration's symbol known.
use vstd::prelude::*;
use crate::parser::Span;

verus! {

/// A TypeScript type.
pub enum TsType {
    Void,
    Boolean,
    Number,
    String,
    Null,
    Array(Box<TsType>),
    /// A reference by a plain identifier: the reference's id and the name.
    Reference { ref_id: u32, name: String },
    /// A reference by a qualified name (`A.B`).
    QualifiedReference,
    Union(Vec<TsType>),
    /// A type literal (`{ .. }`).
    Literal { members: Vec<TsSignature>, span: Span },
    Function,
    /// Any other type.
    Other,
}

/// A property signature (`name: T`).
pub struct TsPropertySig {
    /// The key's name where it is a plain identifier.
    pub key: Option<String>,
    pub computed: bool,
    pub optional: bool,
    pub type_annotation: Option<TsType>,
    /// The range of the type annotation (`: T`); the property's range where it has none.
    pub type_span: Span,
    pub span: Span,
}

/// A parameter of a method signature.
pub struct TsParam {
    pub decorated: bool,
    /// The name where the parameter binds a plain identifier.
    pub name: Option<String>,
    pub type_annotation: Option<TsType>,
    pub span: Span,
}

/// A method signature (`name(params): T`).
pub struct TsMethodSig {
    /// The key's name where it is a plain identifier.
    pub key: Option<String>,
    pub computed: bool,
    pub optional: bool,
    pub params: Vec<TsParam>,
    pub return_type: Option<TsType>,
    pub span: Span,
}

/// A member of an interface body or a type literal.
pub enum TsSignature {
    Method(TsMethodSig),
    Property(TsPropertySig),
    /// Call, construct and index signatures.
    Other,
}

/// An `extends` clause of an interface.
pub enum TsHeritage {
    /// `extends Name`.
    Identifier { ref_id: u32 },
    /// `extends object.property` where `object` is an identifier; `property` where it is
    /// a static name.
    Member { object_ref: u32, property: Option<String> },
    Other,
}

pub struct TsInterface {
    pub declare: bool,
    pub symbol: u32,
    pub name: String,
    pub extends: Vec<TsHeritage>,
    pub body: Vec<TsSignature>,
    pub span: Span,
}

pub struct TsTypeAlias {
    pub declare: bool,
    pub symbol: u32,
    pub name: String,
    pub type_annotation: TsType,
    pub span: Span,
}

/// The initializer of an enum member.
pub enum TsEnumInit {
    /// A numeric literal, converted to `usize` as `as` converts it.
    Number(usize),
    String(String),
    Other,
}

pub struct TsEnumMember {
    pub name: String,
    pub initializer: Option<TsEnumInit>,
}

pub struct TsEnum {
    pub declare: bool,
    pub symbol: u32,
    pub name: String,
    pub members: Vec<TsEnumMember>,
    pub span: Span,
}

pub enum TsImportSpecifier {
    /// `{ imported as local }`; the local binding's symbol where it has one.
    Named { imported: String, local_symbol: Option<u32> },
    /// `* as local`.
    Namespace { local_symbol: u32 },
    /// A default import.
    Default,
}

pub struct TsImport {
    pub source: String,
    pub specifiers: Option<Vec<TsImportSpecifier>>,
}

/// What a call calls.
pub enum TsCallee {
    /// `object.property(..)` where `object` is an identifier.
    Member { object_ref: u32, object_span: Span, property: String, property_span: Span },
    /// `outer.middle.property(..)`; `outer_ref` where `outer` is an identifier.
    NestedMember { outer_ref: Option<u32>, middle: String, property: String, property_span: Span },
    Other,
}

pub enum TsArgument {
    StringLiteral { value: String, span: Span },
    Other,
}

pub struct TsCall {
    pub callee: TsCallee,
    pub type_arguments: Option<Vec<TsType>>,
    pub arguments: Vec<TsArgument>,
    pub span: Span,
}

/// A node the analysis visits.
pub enum TsItem {
    Import(TsImport),
    Interface(TsInterface),
    TypeAlias(TsTypeAlias),
    Enum(TsEnum),
    Call(TsCall),
}

/// What the semantic analysis resolved: for each reference id, the symbol it refers to.
pub struct Scoping {
    pub reference_symbols: Vec<Option<u32>>,
}

/// The symbol a reference refers to (`None` where it refers to nothing declared).
pub open spec fn spec_symbol_of(sc: Scoping, ref_id: u32) -> Option<u32> {
    if ref_id < sc.reference_symbols@.len() {
        sc.reference_symbols@[ref_id as int]
    } else {
        None
    }
}

impl Scoping {
    /// The symbol a reference refers to.
    pub fn symbol_of(&self, ref_id: u32) -> (r: Option<u32>)
        ensures
            r == spec_symbol_of(*self, ref_id),
    {
        if (ref_id as usize) < self.reference_symbols.len() {
            self.reference_symbols[ref_id as usize]
        } else {
            None
        }
    }
}

} // verus!
