//! The tagged column values a store row carries, and the single shared
//! coercion of any such value to text.

use crate::numbers::format_i64;
use crate::numbers::int_text;
use vstd::prelude::*;

verus! {

/// A column value as the store reports it: a closed sum over the runtime
/// type tags. A real-number column arrives as `Real` carrying its decimal
/// rendering: the rendering itself happens at the I/O boundary, so that
/// the library holds only plain values.
#[derive(Clone, Debug, PartialEq)]
pub enum ColValue {
    /// An integer column value.
    Integer(i64),
    /// A real-number column value, as its decimal text.
    Real(String),
    /// A text column value.
    Text(String),
    /// A null or otherwise untyped column value.
    Null,
}

/// The shared textual coercion: integers render as canonical decimal
/// text, reals and text pass their text through, anything else becomes
/// the empty string.
pub open spec fn spec_value_text(v: ColValue) -> Seq<char> {
    match v {
        ColValue::Integer(n) => int_text(n as int),
        ColValue::Real(t) => t@,
        ColValue::Text(t) => t@,
        ColValue::Null => Seq::empty(),
    }
}

/// Coerces a borrowed column value to its textual representation.
pub fn value_text(v: &ColValue) -> (s: String)
    ensures
        s@ == spec_value_text(*v),
{
    match v {
        ColValue::Integer(n) => format_i64(*n),
        ColValue::Real(t) => t.clone(),
        ColValue::Text(t) => t.clone(),
        ColValue::Null => String::new(),
    }
}

/// Coerces a column value to its textual representation.
pub fn value_into_string(v: ColValue) -> (s: String)
    ensures
        s@ == spec_value_text(v),
{
    value_text(&v)
}

} // verus!
