use vstd::prelude::*;

use crate::json_value::JsonVal;
use crate::json_value::JsonValue;

verus! {

/// The default extension payload: no extension fields at all. As a JSON
/// value it is the empty object, so it adds nothing to an encoded record.
#[derive(Debug, Clone, PartialEq, Eq)]
pub struct Extensions;

impl Extensions {
    /// An empty extension payload.
    pub fn new() -> (r: Extensions)
        ensures
            r == (Extensions {  }),
    {
        Extensions {  }
    }

    /// The payload as a structured value: the empty object.
    pub fn to_json_value(&self) -> (r: JsonValue)
        ensures
            r@ == JsonVal::Obj(Seq::<(Seq<char>, JsonVal)>::empty()),
    {
        JsonValue::empty_object()
    }
}

impl Default for Extensions {
    /// The default payload is the empty one.
    fn default() -> (r: Extensions)
        ensures
            r == (Extensions {  }),
    {
        Extensions {  }
    }
}

} // verus!
