use vstd::prelude::*;

verus! {

/// The mathematical shape of a structured extension value: the JSON data
/// model restricted to integer numbers.
#[verifier::ext_equal]
pub enum JsonVal {
    Null,
    Bool(bool),
    Int(int),
    Str(Seq<char>),
    Arr(Seq<JsonVal>),
    Obj(Seq<(Seq<char>, JsonVal)>),
}

/// A structured value that a caller can attach to a problem details record:
/// the JSON data model restricted to integer numbers. An object keeps its
/// entries in insertion order.
#[derive(Debug, PartialEq, Eq)]
pub enum JsonValue {
    Null,
    Bool(bool),
    Int(i64),
    Str(String),
    Arr(Vec<JsonValue>),
    Obj(Vec<(String, JsonValue)>),
}

/// The shape of a structured value: the `JsonVal` that mirrors it.
pub open spec fn json_view(v: JsonValue) -> JsonVal
    decreases v,
    via json_view_decreases
{
    match v {
        JsonValue::Null => JsonVal::Null,
        JsonValue::Bool(b) => JsonVal::Bool(b),
        JsonValue::Int(i) => JsonVal::Int(i as int),
        JsonValue::Str(s) => JsonVal::Str(s@),
        JsonValue::Arr(items) => JsonVal::Arr(
            Seq::new(
                items@.len(),
                |i: int|
                    if 0 <= i < items@.len() {
                        json_view(items@[i])
                    } else {
                        JsonVal::Null
                    },
            ),
        ),
        JsonValue::Obj(entries) => JsonVal::Obj(
            Seq::new(
                entries@.len(),
                |i: int|
                    if 0 <= i < entries@.len() {
                        (entries@[i].0@, json_view(entries@[i].1))
                    } else {
                        (Seq::empty(), JsonVal::Null)
                    },
            ),
        ),
    }
}

#[via_fn]
proof fn json_view_decreases(v: JsonValue) {
    match v {
        JsonValue::Arr(items) => {
            assert forall|i: int| 0 <= i < items@.len() implies decreases_to!(v
                => items@[i]) by {
                assert(decreases_to!(v => v->Arr_0));
                assert(decreases_to!(v->Arr_0 => v->Arr_0@));
                assert(decreases_to!(v->Arr_0@ => v->Arr_0@[i]));
            }
        },
        JsonValue::Obj(entries) => {
            assert forall|i: int| 0 <= i < entries@.len() implies decreases_to!(v
                => entries@[i].1) by {
                assert(decreases_to!(v => v->Obj_0));
                assert(decreases_to!(v->Obj_0 => v->Obj_0@));
                assert(decreases_to!(v->Obj_0@ => v->Obj_0@[i]));
                assert(decreases_to!(v->Obj_0@[i] => v->Obj_0@[i].1));
            }
        },
        _ => {},
    }
}

impl View for JsonValue {
    type V = JsonVal;

    open spec fn view(&self) -> JsonVal {
        json_view(*self)
    }
}

/// The shape of a sequence of object entries.
pub open spec fn entries_view(s: Seq<(String, JsonValue)>) -> Seq<(Seq<char>, JsonVal)> {
    Seq::new(
        s.len(),
        |i: int|
            if 0 <= i < s.len() {
                (s[i].0@, json_view(s[i].1))
            } else {
                (Seq::empty(), JsonVal::Null)
            },
    )
}

/// An object's shape is the shape of its entries.
pub proof fn lemma_obj_view(v: Vec<(String, JsonValue)>)
    ensures
        json_view(JsonValue::Obj(v)) == JsonVal::Obj(entries_view(v@)),
{
    assert(json_view(JsonValue::Obj(v))->Obj_0 =~= entries_view(v@));
    assert(json_view(JsonValue::Obj(v)) =~= JsonVal::Obj(entries_view(v@)));
}

impl JsonValue {
    /// A structurally equal copy of this value.
    #[verifier::loop_isolation(false)]
    pub fn deep_clone(&self) -> (r: JsonValue)
        ensures
            r@ == self@,
        decreases self@,
    {
        match self {
            JsonValue::Null => JsonValue::Null,
            JsonValue::Bool(b) => JsonValue::Bool(*b),
            JsonValue::Int(i) => JsonValue::Int(*i),
            JsonValue::Str(s) => JsonValue::Str(s.clone()),
            JsonValue::Arr(items) => {
                let mut out: Vec<JsonValue> = Vec::new();
                let mut idx: usize = 0;
                while idx < items.len()
                    invariant
                        idx <= items.len(),
                        out@.len() == idx,
                        forall|j: int| 0 <= j < idx ==> out@[j]@ == items@[j]@,
                    decreases items.len() - idx,
                {
                    proof {
                        assert(decreases_to!(self@ => self@->Arr_0));
                        assert(self@->Arr_0[idx as int] == items@[idx as int]@);
                        assert(decreases_to!(self@->Arr_0 => self@->Arr_0[idx as int]));
                    }
                    out.push(items[idx].deep_clone());
                    idx += 1;
                }
                let r = JsonValue::Arr(out);
                proof {
                    assert forall|j: int| 0 <= j < out@.len() implies r@->Arr_0[j]
                        == (*self)@->Arr_0[j] by {
                        assert(out@[j]@ == items@[j]@);
                    }
                    assert(r@->Arr_0 =~= (*self)@->Arr_0);
                    assert(r@ =~= self@);
                }
                r
            },
            JsonValue::Obj(entries) => {
                let mut out: Vec<(String, JsonValue)> = Vec::new();
                let mut idx: usize = 0;
                while idx < entries.len()
                    invariant
                        idx <= entries.len(),
                        out@.len() == idx,
                        forall|j: int| 0 <= j < idx ==> out@[j].0@ == entries@[j].0@
                            && out@[j].1@ == entries@[j].1@,
                    decreases entries.len() - idx,
                {
                    proof {
                        assert(decreases_to!(self@ => self@->Obj_0));
                        assert(self@->Obj_0[idx as int].1 == entries@[idx as int].1@);
                        assert(decreases_to!(self@->Obj_0 => self@->Obj_0[idx as int]));
                        assert(decreases_to!(self@->Obj_0[idx as int] => self@->Obj_0[idx as int].1));
                    }
                    let key = entries[idx].0.clone();
                    let val = entries[idx].1.deep_clone();
                    out.push((key, val));
                    idx += 1;
                }
                let r = JsonValue::Obj(out);
                proof {
                    assert forall|j: int| 0 <= j < out@.len() implies r@->Obj_0[j]
                        == (*self)@->Obj_0[j] by {
                        assert(out@[j].0@ == entries@[j].0@);
                        assert(out@[j].1@ == entries@[j].1@);
                    }
                    assert(r@->Obj_0 =~= (*self)@->Obj_0);
                    assert(r@ =~= self@);
                }
                r
            },
        }
    }

    /// An empty object, the default extension payload.
    pub fn empty_object() -> (r: JsonValue)
        ensures
            r@ == JsonVal::Obj(Seq::<(Seq<char>, JsonVal)>::empty()),
    {
        let r = JsonValue::Obj(Vec::new());
        proof {
            assert(r@ matches JsonVal::Obj(s) && s =~= Seq::<(Seq<char>, JsonVal)>::empty());
        }
        r
    }
}

impl Clone for JsonValue {
    fn clone(&self) -> (r: JsonValue)
        ensures
            r@ == self@,
    {
        self.deep_clone()
    }
}

} // verus!
