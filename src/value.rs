use vstd::prelude::*;

use crate::text::{decimal_digits, decimal_string};

verus! {

/// The primitive kinds a column may hold.
#[derive(Debug, Clone, Copy, PartialEq, Eq, Structural)]
pub enum WDBType {
    Integer,
    Text,
}

/// A single typed datum stored in one field of a row.
#[derive(Debug, Clone, PartialEq)]
pub enum WDBValue {
    Integer(u64),
    Text(String),
}

/// The mathematical model of a `WDBValue`: a text is seen as its characters.
pub enum ValueModel {
    Integer(u64),
    Text(Seq<char>),
}

impl View for WDBValue {
    type V = ValueModel;

    open spec fn view(&self) -> ValueModel {
        match self {
            WDBValue::Integer(n) => ValueModel::Integer(*n),
            WDBValue::Text(s) => ValueModel::Text(s@),
        }
    }
}

/// Whether `v` is of the kind that `t` names.
pub open spec fn has_type(v: ValueModel, t: WDBType) -> bool {
    match v {
        ValueModel::Integer(_) => t == WDBType::Integer,
        ValueModel::Text(_) => t == WDBType::Text,
    }
}

/// The text a value is displayed as: an integer as its decimal digits, a text verbatim.
pub open spec fn display_text(v: ValueModel) -> Seq<char> {
    match v {
        ValueModel::Integer(n) => decimal_digits(n as nat),
        ValueModel::Text(s) => s,
    }
}

impl WDBValue {
    pub fn integer(n: u64) -> (r: WDBValue)
        ensures
            r@ == ValueModel::Integer(n),
    {
        WDBValue::Integer(n)
    }

    pub fn text(s: &str) -> (r: WDBValue)
        ensures
            r@ == ValueModel::Text(s@),
    {
        WDBValue::Text(s.to_owned())
    }

    /// The kind of this value.
    pub fn value_type(&self) -> (r: WDBType)
        ensures
            has_type(self@, r),
    {
        match self {
            WDBValue::Integer(_) => WDBType::Integer,
            WDBValue::Text(_) => WDBType::Text,
        }
    }

    /// The value as text: decimal digits for an integer, the text itself otherwise.
    pub fn to_display_string(&self) -> (r: String)
        ensures
            r@ == display_text(self@),
    {
        match self {
            WDBValue::Integer(n) => decimal_string(*n),
            WDBValue::Text(s) => s.clone(),
        }
    }
}

impl From<u64> for WDBValue {
    fn from(val: u64) -> (r: WDBValue)
        ensures
            r@ == ValueModel::Integer(val),
    {
        WDBValue::integer(val)
    }
}

impl vstd::std_specs::convert::FromSpecImpl<u64> for WDBValue {
    open spec fn obeys_from_spec() -> bool {
        true
    }

    open spec fn from_spec(v: u64) -> WDBValue {
        WDBValue::Integer(v)
    }
}

impl<'a> From<&'a str> for WDBValue {
    fn from(val: &'a str) -> (r: WDBValue)
        ensures
            r@ == ValueModel::Text(val@),
    {
        WDBValue::text(val)
    }
}

// Spec code cannot build a `String` from its characters, so `from_spec` is left
// unused; the impl's own `ensures` states the result over its view.
impl<'a> vstd::std_specs::convert::FromSpecImpl<&'a str> for WDBValue {
    open spec fn obeys_from_spec() -> bool {
        false
    }

    open spec fn from_spec(v: &'a str) -> WDBValue {
        arbitrary()
    }
}

} // verus!
