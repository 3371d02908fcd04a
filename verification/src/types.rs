//! The type value model: a closed set of primitive type tags with equality
//! and a reverse mapping back to a syntactic IR marker.

use vstd::prelude::*;

use crate::ast::AstType;

verus! {

/// The closed set of primitive type tags the checker can infer.
#[derive(Clone, Copy, Debug, PartialEq, Eq, Structural)]
pub enum RustScriptType {
    Number,
    String,
    UnKnown,
}

/// A type value carried through type checking; equality is structural tag
/// equality.
#[derive(Clone, Copy, Debug, PartialEq, Eq, Structural)]
pub struct Types {
    pub name: RustScriptType,
}

impl Types {
    /// Wraps a primitive tag as a type value.
    pub fn new(types: RustScriptType) -> (r: Types)
        ensures
            r.name == types,
    {
        Types { name: types }
    }

    /// Returns the value itself, for chaining.
    pub fn self_nb(self) -> (r: Types)
        ensures
            r == self,
    {
        self
    }

    /// The primitive tag of this type value.
    pub fn get_name(&self) -> (r: RustScriptType)
        ensures
            r == self.name,
    {
        self.name
    }

    /// The tag's name, spelled as in source text.
    pub open spec fn spec_text(self) -> Seq<char> {
        match self.name {
            RustScriptType::Number => "Number"@,
            RustScriptType::String => "String"@,
            RustScriptType::UnKnown => "UnKnown"@,
        }
    }

    /// Renders the tag's name for reporting.
    pub fn to_string(&self) -> (r: String)
        ensures
            r@ == self.spec_text(),
    {
        match self.name {
            RustScriptType::Number => String::from_str("Number"),
            RustScriptType::String => String::from_str("String"),
            RustScriptType::UnKnown => String::from_str("UnKnown"),
        }
    }

    /// Structural tag equality between two type values.
    pub fn equals(&self, other: Types) -> (r: bool)
        ensures
            r == (self.name == other.name),
    {
        self.name == other.name
    }

    /// Wraps a primitive tag as a type value; the identity on each tag.
    pub fn from_string(type_str: RustScriptType) -> (r: Types)
        ensures
            r.name == type_str,
    {
        match type_str {
            RustScriptType::Number => Types { name: RustScriptType::Number },
            RustScriptType::String => Types { name: RustScriptType::String },
            RustScriptType::UnKnown => Types { name: RustScriptType::UnKnown },
        }
    }

    /// The IR marker a type value maps back to, so an inferred type can be
    /// re-injected into a flattened expression for left-to-right propagation.
    pub open spec fn spec_to_token(self) -> AstType {
        match self.name {
            RustScriptType::Number => AstType::Number,
            RustScriptType::String => AstType::String,
            RustScriptType::UnKnown => AstType::UnKnown,
        }
    }

    /// Converts the type value back to its syntactic IR marker.
    pub fn type_to_token(&self) -> (r: AstType)
        ensures
            r == self.spec_to_token(),
    {
        match self {
            Types { name: RustScriptType::Number } => AstType::Number,
            Types { name: RustScriptType::String } => AstType::String,
            Types { name: RustScriptType::UnKnown } => AstType::UnKnown,
        }
    }
}

} // verus!
