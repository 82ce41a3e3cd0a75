use vstd::prelude::*;

use crate::text::{lower_of, lowercase, str_eq};

verus! {

/// The kind of value a record attribute holds.
#[derive(Debug, Clone, Copy, PartialEq, Eq, Structural)]
pub enum FieldType {
    String,
    Number,
    Boolean,
    Date,
    Object,
    Array,
}

/// Canonical lower-case token of a field type.
pub open spec fn token_of(t: FieldType) -> Seq<char> {
    match t {
        FieldType::String => "string"@,
        FieldType::Number => "number"@,
        FieldType::Boolean => "boolean"@,
        FieldType::Date => "date"@,
        FieldType::Object => "object"@,
        FieldType::Array => "array"@,
    }
}

/// The field type named by an already lower-cased token, if any.
pub open spec fn type_of_token(s: Seq<char>) -> Option<FieldType> {
    if s == "string"@ {
        Some(FieldType::String)
    } else if s == "number"@ {
        Some(FieldType::Number)
    } else if s == "boolean"@ {
        Some(FieldType::Boolean)
    } else if s == "date"@ {
        Some(FieldType::Date)
    } else if s == "object"@ {
        Some(FieldType::Object)
    } else if s == "array"@ {
        Some(FieldType::Array)
    } else {
        None
    }
}

impl FieldType {
    /// Parses a type token, ignoring case. `None` for a token that names no type.
    pub fn of(value: String) -> (r: Option<FieldType>)
        ensures
            r == type_of_token(lower_of(value@)),
    {
        let lower = lowercase(value.as_str());
        FieldType::from_token(lower.as_str())
    }

    /// Parses a token that is already in lower case.
    pub fn from_token(s: &str) -> (r: Option<FieldType>)
        ensures
            r == type_of_token(s@),
    {
        if str_eq(s, "string") {
            Some(FieldType::String)
        } else if str_eq(s, "number") {
            Some(FieldType::Number)
        } else if str_eq(s, "boolean") {
            Some(FieldType::Boolean)
        } else if str_eq(s, "date") {
            Some(FieldType::Date)
        } else if str_eq(s, "object") {
            Some(FieldType::Object)
        } else if str_eq(s, "array") {
            Some(FieldType::Array)
        } else {
            None
        }
    }

    /// The canonical token of this type.
    pub fn string(&self) -> (r: &'static str)
        ensures
            r@ == token_of(*self),
    {
        match self {
            FieldType::String => "string",
            FieldType::Number => "number",
            FieldType::Boolean => "boolean",
            FieldType::Date => "date",
            FieldType::Object => "object",
            FieldType::Array => "array",
        }
    }
}

/// One attribute of a record: its name and the type of its values.
#[derive(Debug, Clone)]
pub struct Field {
    pub name: String,
    pub field_type: FieldType,
}

/// Rendering the type that a token parses to gives back the token in its
/// canonical (lower-case) form; and every type's canonical token parses back
/// to that type.
pub proof fn lemma_token_round_trip(s: Seq<char>, t: FieldType)
    ensures
        type_of_token(lower_of(s)) matches Some(u) ==> token_of(u) == lower_of(s),
        type_of_token(token_of(t)) == Some(t),
{
    reveal_strlit("string");
    reveal_strlit("number");
    reveal_strlit("boolean");
    reveal_strlit("date");
    reveal_strlit("object");
    reveal_strlit("array");
    assert("string"@[0] == 's');
    assert("number"@[0] == 'n');
    assert("boolean"@[0] == 'b');
    assert("date"@[0] == 'd');
    assert("object"@[0] == 'o');
    assert("array"@[0] == 'a');
}

} // verus!
