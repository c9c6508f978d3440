//! Lookups of single values in a JSON text, by JSON Pointer, through `serde_json`.
use vstd::prelude::*;

verus! {

/// What a JSON Pointer finds in a document, as far as the parsers read it.
pub enum JsonScalar {
    /// The text is not JSON, or nothing is at the pointer.
    Absent,
    /// A string.
    Str(String),
    /// A number that `as_i64` reads: an integer from `i64::MIN` to `i64::MAX`.
    Int(i64),
    /// Anything else: `null`, a boolean, another number, an array or an object.
    Other,
}

/// The mathematical counterpart of [`JsonScalar`].
pub enum JsonScalarView {
    Absent,
    Str(Seq<char>),
    Int(i64),
    Other,
}

impl View for JsonScalar {
    type V = JsonScalarView;

    open spec fn view(&self) -> JsonScalarView {
        match self {
            JsonScalar::Absent => JsonScalarView::Absent,
            JsonScalar::Str(s) => JsonScalarView::Str(s@),
            JsonScalar::Int(i) => JsonScalarView::Int(*i),
            JsonScalar::Other => JsonScalarView::Other,
        }
    }
}

impl JsonScalarView {
    /// Something is at the pointer (`get` / `pointer` gave `Some`).
    pub open spec fn present(self) -> bool {
        !(self is Absent)
    }

    /// The string there, as `as_str` gives it.
    pub open spec fn as_str(self) -> Option<Seq<char>> {
        match self {
            JsonScalarView::Str(s) => Some(s),
            _ => None,
        }
    }

    /// The integer there, as `as_i64` gives it.
    pub open spec fn as_i64(self) -> Option<i64> {
        match self {
            JsonScalarView::Int(i) => Some(i),
            _ => None,
        }
    }

    /// The integer there, or 0.
    pub open spec fn int_or_zero(self) -> i64 {
        match self {
            JsonScalarView::Int(i) => i,
            _ => 0,
        }
    }

    /// The string there, or the empty string.
    pub open spec fn str_or_empty(self) -> Seq<char> {
        match self {
            JsonScalarView::Str(s) => s,
            _ => Seq::empty(),
        }
    }
}

/// What `serde_json` finds at JSON Pointer `pointer` of the text `text`, after
/// `serde_json::from_str::<Value>(text)` and `Value::pointer(pointer)`.
pub uninterp spec fn json_scalar_at(text: Seq<char>, pointer: Seq<char>) -> JsonScalarView;

/// Parses `text` with `serde_json::from_str` into a `serde_json::Value` and looks up
/// `pointer` with `Value::pointer`: a string comes back as `Str` (`as_str`), an
/// integer that `as_i64` reads as `Int`, any other value as `Other`, and a parse
/// error or a missing value as `Absent`. The contract only names the result.
#[verifier::external_body]
pub(crate) fn json_lookup(text: &str, pointer: &str) -> (res: JsonScalar)
    ensures
        res@ == json_scalar_at(text@, pointer@),
{
    let value: serde_json::Value = match serde_json::from_str(text) {
        Ok(v) => v,
        Err(_) => return JsonScalar::Absent,
    };
    match value.pointer(pointer) {
        None => JsonScalar::Absent,
        Some(found) => match (found.as_str(), found.as_i64()) {
            (Some(s), _) => JsonScalar::Str(s.to_string()),
            (None, Some(i)) => JsonScalar::Int(i),
            (None, None) => JsonScalar::Other,
        },
    }
}

impl JsonScalar {
    /// The string value, if this is a string.
    pub fn as_str_value(&self) -> (res: Option<String>)
        ensures
            match res {
                Some(s) => self@.as_str() == Some(s@),
                None => self@.as_str() is None,
            },
    {
        match self {
            JsonScalar::Str(s) => Some(s.clone()),
            _ => None,
        }
    }

    /// The integer value, if this is an integer that fits `i64`.
    pub fn as_i64_value(&self) -> (res: Option<i64>)
        ensures
            res == self@.as_i64(),
    {
        match self {
            JsonScalar::Int(i) => Some(*i),
            _ => None,
        }
    }

    /// The integer value, or 0 when this is no integer that fits `i64`.
    pub fn int_or_zero(&self) -> (res: i64)
        ensures
            res == self@.int_or_zero(),
    {
        match self {
            JsonScalar::Int(i) => *i,
            _ => 0,
        }
    }

    /// The string value, or the empty string when this is no string.
    pub fn str_or_empty(&self) -> (res: String)
        ensures
            res@ == self@.str_or_empty(),
    {
        match self {
            JsonScalar::Str(s) => s.clone(),
            _ => String::new(),
        }
    }

    /// Whether this is the string `t`.
    pub fn is_str(&self, t: &str) -> (res: bool)
        ensures
            res == (self@.as_str() == Some(t@)),
    {
        match self {
            JsonScalar::Str(s) => crate::strings::str_equals(s.as_str(), t),
            _ => false,
        }
    }

    /// Whether the pointer found a value.
    pub fn is_present(&self) -> (res: bool)
        ensures
            res == self@.present(),
    {
        match self {
            JsonScalar::Absent => false,
            _ => true,
        }
    }
}

} // verus!
