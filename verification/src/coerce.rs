//! Value coercion: turning an untyped database value into its JSON form.
//!
//! The declared column type is not reliably available at the row level, so
//! a raw value is probed under a fixed, ordered list of candidate
//! representations — string, 32-bit integer, 64-bit integer, boolean,
//! timestamp (as its canonical text) — and the first successful probe
//! decides the JSON form. When every probe fails the value becomes JSON
//! null. The coercer never fails itself.

use vstd::prelude::*;

verus! {

/// A JSON value as this crate produces it: null, string, integer
/// number, or boolean. Nothing else can come out of the coercer.
#[derive(Debug, Clone, PartialEq)]
pub enum JsonValue {
    Null,
    Str(String),
    Num(i64),
    Bool(bool),
}

/// Mathematical form of a `JsonValue`.
pub enum JsonSpec {
    Null,
    Str(Seq<char>),
    Num(int),
    Bool(bool),
}

impl View for JsonValue {
    type V = JsonSpec;

    open spec fn view(&self) -> JsonSpec {
        match self {
            JsonValue::Null => JsonSpec::Null,
            JsonValue::Str(s) => JsonSpec::Str(s@),
            JsonValue::Num(n) => JsonSpec::Num(*n as int),
            JsonValue::Bool(b) => JsonSpec::Bool(*b),
        }
    }
}

/// The outcome of probing one raw value under each candidate
/// representation, in the fixed order the coercer tries them.
/// A `None` field means that probe failed.
pub struct RawValue {
    pub text: Option<String>,
    pub int4: Option<i32>,
    pub int8: Option<i64>,
    pub boolean: Option<bool>,
    pub timestamp: Option<String>,
}

/// Mathematical form of a `RawValue`.
pub struct RawValueSpec {
    pub text: Option<Seq<char>>,
    pub int4: Option<int>,
    pub int8: Option<int>,
    pub boolean: Option<bool>,
    pub timestamp: Option<Seq<char>>,
}

impl View for RawValue {
    type V = RawValueSpec;

    open spec fn view(&self) -> RawValueSpec {
        RawValueSpec {
            text: match &self.text {
                Some(s) => Some(s@),
                None => None,
            },
            int4: match &self.int4 {
                Some(n) => Some(*n as int),
                None => None,
            },
            int8: match &self.int8 {
                Some(n) => Some(*n as int),
                None => None,
            },
            boolean: self.boolean,
            timestamp: match &self.timestamp {
                Some(s) => Some(s@),
                None => None,
            },
        }
    }
}

/// The JSON form of a probed raw value: the earliest successful probe
/// wins, in the order string, 32-bit integer, 64-bit integer, boolean,
/// timestamp; JSON null when every probe failed.
pub open spec fn spec_coerce(v: RawValueSpec) -> JsonSpec {
    match v.text {
        Some(s) => JsonSpec::Str(s),
        None => match v.int4 {
            Some(n) => JsonSpec::Num(n),
            None => match v.int8 {
                Some(n) => JsonSpec::Num(n),
                None => match v.boolean {
                    Some(b) => JsonSpec::Bool(b),
                    None => match v.timestamp {
                        Some(s) => JsonSpec::Str(s),
                        None => JsonSpec::Null,
                    },
                },
            },
        },
    }
}

/// Coerces one probed raw value to JSON. Total: every probe outcome,
/// including all probes failing, has a JSON form.
pub fn coerce(v: RawValue) -> (r: JsonValue)
    ensures
        r@ == spec_coerce(v@),
{
    match v.text {
        Some(s) => JsonValue::Str(s),
        None => match v.int4 {
            Some(n) => JsonValue::Num(n as i64),
            None => match v.int8 {
                Some(n) => JsonValue::Num(n),
                None => match v.boolean {
                    Some(b) => JsonValue::Bool(b),
                    None => match v.timestamp {
                        Some(s) => JsonValue::Str(s),
                        None => JsonValue::Null,
                    },
                },
            },
        },
    }
}

/// The coercer is deterministic: the same raw value always has the same
/// JSON form.
pub proof fn lemma_coerce_deterministic(a: RawValueSpec, b: RawValueSpec)
    requires
        a == b,
    ensures
        spec_coerce(a) == spec_coerce(b),
{
}

/// A value extractable as a string always resolves to its string form,
/// whatever the other probes returned: the string probe is tried first.
pub proof fn lemma_string_wins(v: RawValueSpec, s: Seq<char>)
    requires
        v.text == Some(s),
    ensures
        spec_coerce(v) == JsonSpec::Str(s),
{
}

} // verus!
