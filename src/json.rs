//! The JSON document that models are inferred from.

use vstd::prelude::*;

verus! {

/// A parsed JSON value. Objects keep their members in document order; a number
/// keeps its literal text, since inference only needs to know that it is one.
pub enum JsonValue {
    Null,
    Bool(bool),
    Number(String),
    String(String),
    Array(Vec<JsonValue>),
    Object(Vec<(String, JsonValue)>),
}

} // verus!
