use vstd::prelude::*;

use crate::value::{ValueModel, WDBValue};

verus! {

/// The models of a sequence of values, in the same order.
pub open spec fn values_view(s: Seq<WDBValue>) -> Seq<ValueModel> {
    s.map_values(|v: WDBValue| v@)
}

/// An ordered sequence of values, one per column.
#[derive(Debug, Clone, PartialEq)]
pub struct WDBRow {
    fields: Vec<WDBValue>,
}

impl View for WDBRow {
    type V = Seq<ValueModel>;

    closed spec fn view(&self) -> Seq<ValueModel> {
        values_view(self.fields@)
    }
}

impl WDBRow {
    /// A row holding `fields` in the order given; the arity is checked by a schema later.
    pub fn new(fields: Vec<WDBValue>) -> (r: WDBRow)
        ensures
            r@ == values_view(fields@),
    {
        WDBRow { fields }
    }

    /// The fields in column order.
    pub fn fields(&self) -> (r: &[WDBValue])
        ensures
            values_view(r@) == self@,
    {
        self.fields.as_slice()
    }

    /// This row with `value` appended as its last field.
    pub fn with_field(self, value: WDBValue) -> (r: WDBRow)
        ensures
            r@ == self@.push(value@),
    {
        let mut fields = self.fields;
        fields.push(value);
        proof {
            assert(values_view(fields@) =~= values_view(self.fields@).push(value@));
        }
        WDBRow { fields }
    }
}

/// Each element converted into a value, left to right.
impl<A: Into<WDBValue>> From<(A,)> for WDBRow {
    fn from(tuple: (A,)) -> (r: WDBRow)
        ensures
            exists|a: WDBValue|
                call_ensures(<A as Into<WDBValue>>::into, (tuple.0,), a) && r@ == seq![a@],
    {
        let a: WDBValue = tuple.0.into();
        let r = WDBRow::new(Vec::new()).with_field(a);
        proof {
            assert(r@ =~= seq![a@]);
        }
        r
    }
}

/// Each element converted into a value, left to right.
impl<A: Into<WDBValue>, B: Into<WDBValue>> From<(A, B)> for WDBRow {
    fn from(tuple: (A, B)) -> (r: WDBRow)
        ensures
            exists|a: WDBValue, b: WDBValue|
                call_ensures(<A as Into<WDBValue>>::into, (tuple.0,), a) && call_ensures(<B as Into<WDBValue>>::into, (tuple.1,), b) && r@ == seq![a@, b@],
    {
        let a: WDBValue = tuple.0.into();
        let b: WDBValue = tuple.1.into();
        let r = WDBRow::new(Vec::new()).with_field(a).with_field(b);
        proof {
            assert(r@ =~= seq![a@, b@]);
        }
        r
    }
}

/// Each element converted into a value, left to right.
impl<A: Into<WDBValue>, B: Into<WDBValue>, C: Into<WDBValue>> From<(A, B, C)> for WDBRow {
    fn from(tuple: (A, B, C)) -> (r: WDBRow)
        ensures
            exists|a: WDBValue, b: WDBValue, c: WDBValue|
                call_ensures(<A as Into<WDBValue>>::into, (tuple.0,), a) && call_ensures(<B as Into<WDBValue>>::into, (tuple.1,), b) && call_ensures(<C as Into<WDBValue>>::into, (tuple.2,), c) && r@ == seq![a@, b@, c@],
    {
        let a: WDBValue = tuple.0.into();
        let b: WDBValue = tuple.1.into();
        let c: WDBValue = tuple.2.into();
        let r = WDBRow::new(Vec::new()).with_field(a).with_field(b).with_field(c);
        proof {
            assert(r@ =~= seq![a@, b@, c@]);
        }
        r
    }
}

/// Each element converted into a value, left to right.
impl<A: Into<WDBValue>, B: Into<WDBValue>, C: Into<WDBValue>, D: Into<WDBValue>> From<(A, B, C, D)> for WDBRow {
    fn from(tuple: (A, B, C, D)) -> (r: WDBRow)
        ensures
            exists|a: WDBValue, b: WDBValue, c: WDBValue, d: WDBValue|
                call_ensures(<A as Into<WDBValue>>::into, (tuple.0,), a) && call_ensures(<B as Into<WDBValue>>::into, (tuple.1,), b) && call_ensures(<C as Into<WDBValue>>::into, (tuple.2,), c) && call_ensures(<D as Into<WDBValue>>::into, (tuple.3,), d) && r@ == seq![a@, b@, c@, d@],
    {
        let a: WDBValue = tuple.0.into();
        let b: WDBValue = tuple.1.into();
        let c: WDBValue = tuple.2.into();
        let d: WDBValue = tuple.3.into();
        let r = WDBRow::new(Vec::new()).with_field(a).with_field(b).with_field(c).with_field(d);
        proof {
            assert(r@ =~= seq![a@, b@, c@, d@]);
        }
        r
    }
}

// Spec code cannot name a generic element's conversion, so `from_spec` is left
// unused; each impl's own `ensures` states the result through `call_ensures`.
impl<A: Into<WDBValue>> vstd::std_specs::convert::FromSpecImpl<(A,)> for WDBRow {
    open spec fn obeys_from_spec() -> bool {
        false
    }

    open spec fn from_spec(v: (A,)) -> WDBRow {
        arbitrary()
    }
}

impl<A: Into<WDBValue>, B: Into<WDBValue>> vstd::std_specs::convert::FromSpecImpl<(A, B)> for WDBRow {
    open spec fn obeys_from_spec() -> bool {
        false
    }

    open spec fn from_spec(v: (A, B)) -> WDBRow {
        arbitrary()
    }
}

impl<A: Into<WDBValue>, B: Into<WDBValue>, C: Into<WDBValue>> vstd::std_specs::convert::FromSpecImpl<(A, B, C)> for WDBRow {
    open spec fn obeys_from_spec() -> bool {
        false
    }

    open spec fn from_spec(v: (A, B, C)) -> WDBRow {
        arbitrary()
    }
}

impl<A: Into<WDBValue>, B: Into<WDBValue>, C: Into<WDBValue>, D: Into<WDBValue>> vstd::std_specs::convert::FromSpecImpl<(A, B, C, D)> for WDBRow {
    open spec fn obeys_from_spec() -> bool {
        false
    }

    open spec fn from_spec(v: (A, B, C, D)) -> WDBRow {
        arbitrary()
    }
}

} // verus!
