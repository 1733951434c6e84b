use vstd::prelude::*;

use crate::codec::DecodeError;
use crate::codec::DecodeErrorView;
use crate::codec::decode_status_value;
use crate::codec::decode_text_value;
use crate::codec::decode_uri_value;
use crate::codec::spec_decode_status;
use crate::codec::spec_decode_text;
use crate::codec::spec_decode_uri;
use crate::json_value::JsonVal;
use crate::json_value::JsonValue;
use crate::json_value::entries_view;
use crate::json_value::lemma_obj_view;
use crate::problem_details::ProblemDetails;
use crate::problem_details::ProblemDetailsView;
use crate::problem_type::ProblemType;
use crate::problem_type::uri_wf;
use crate::status::valid_status;
use crate::strutil::str_eq;

verus! {

/// The error type of the backing JSON writer, `serde_json::Error`.
#[verifier::external_type_specification]
#[verifier::external_body]
pub struct ExSerdeJsonError(serde_json::Error);

/// The value type of the backing JSON writer, `serde_json::Value`.
#[verifier::external_type_specification]
#[verifier::external_body]
pub struct ExSerdeJsonValue(serde_json::Value);

/// The JSON text that the backing writer produces for a value of the given
/// shape: a function of the shape alone (the writer is deterministic, and
/// object keys are written in its map's fixed order).
pub uninterp spec fn json_text_of(v: JsonVal) -> Seq<char>;

/// The shape read back from a JSON text, or `None` when the text is not
/// well-formed JSON or holds a number outside the signed 64-bit integers:
/// a function of the text alone.
pub uninterp spec fn json_of_text(s: Seq<char>) -> Option<JsonVal>;

/// Relies on `serde_json::Value`'s constructors: rebuilds the same tree,
/// one arm for each variant.
#[verifier::external_body]
fn to_serde_value(v: &JsonValue) -> serde_json::Value {
    match v {
        JsonValue::Null => serde_json::Value::Null,
        JsonValue::Bool(b) => serde_json::Value::Bool(*b),
        JsonValue::Int(i) => serde_json::Value::Number(serde_json::Number::from(*i)),
        JsonValue::Str(s) => serde_json::Value::String(s.clone()),
        JsonValue::Arr(items) => serde_json::Value::Array(
            items.iter().map(to_serde_value).collect(),
        ),
        JsonValue::Obj(entries) => serde_json::Value::Object(
            entries.iter().map(|e| (e.0.clone(), to_serde_value(&e.1))).collect(),
        ),
    }
}

/// Relies on `serde_json::Value`'s accessors: rebuilds the same tree, one
/// arm for each variant; a number that is not a signed 64-bit integer has no
/// counterpart here and yields `None`.
#[verifier::external_body]
fn from_serde_value(v: &serde_json::Value) -> Option<JsonValue> {
    match v {
        serde_json::Value::Null => Some(JsonValue::Null),
        serde_json::Value::Bool(b) => Some(JsonValue::Bool(*b)),
        serde_json::Value::Number(n) => n.as_i64().map(JsonValue::Int),
        serde_json::Value::String(s) => Some(JsonValue::Str(s.clone())),
        serde_json::Value::Array(items) => items.iter().map(from_serde_value).collect::<Option<
            Vec<JsonValue>,
        >>().map(JsonValue::Arr),
        serde_json::Value::Object(entries) => entries.iter().map(
            |e| from_serde_value(e.1).map(|v| (e.0.clone(), v)),
        ).collect::<Option<Vec<(String, JsonValue)>>>().map(JsonValue::Obj),
    }
}

/// Relies on `serde_json::to_string`: the writer is a deterministic function
/// of the value it is given, so the text it returns is `json_text_of` the
/// value's shape. It succeeds on every value that `to_serde_value` builds:
/// such a value has only string map keys and integer numbers, for which the
/// serializer has no error path, and the in-memory byte writer behind
/// `to_string` never fails.
#[verifier::external_body]
fn write_json_text(v: &JsonValue) -> (r: Result<String, serde_json::Error>)
    ensures
        r is Ok,
        r matches Ok(s) ==> s@ == json_text_of(v@),
{
    serde_json::to_string(&to_serde_value(v))
}

/// Relies on `serde_json::from_str`: the reader is a deterministic function
/// of the text it is given, so what it returns is `json_of_text` the text.
#[verifier::external_body]
fn read_json_text(s: &str) -> (r: Option<JsonValue>)
    ensures
        match r {
            Some(v) => json_of_text(s@) == Some(v@),
            None => json_of_text(s@) is None,
        },
{
    match serde_json::from_str::<serde_json::Value>(s) {
        Ok(v) => from_serde_value(&v),
        Err(_) => None,
    }
}

/// A reserved field name: one of the five keys that the envelope itself
/// uses.
pub open spec fn is_reserved_key(k: Seq<char>) -> bool {
    ||| k == "type"@
    ||| k == "status"@
    ||| k == "title"@
    ||| k == "detail"@
    ||| k == "instance"@
}

/// The entries of the encoded object that come from the reserved fields:
/// each present field under its literal name, in the fixed order `type`,
/// `status`, `title`, `detail`, `instance`; each absent field contributes
/// nothing at all.
pub open spec fn reserved_entries(v: ProblemDetailsView) -> Seq<(Seq<char>, JsonVal)> {
    (match v.problem_type {
        Some(t) => seq![("type"@, JsonVal::Str(t))],
        None => Seq::<(Seq<char>, JsonVal)>::empty(),
    }) + (match v.status {
        Some(n) => seq![("status"@, JsonVal::Int(n))],
        None => Seq::<(Seq<char>, JsonVal)>::empty(),
    }) + (match v.title {
        Some(t) => seq![("title"@, JsonVal::Str(t))],
        None => Seq::<(Seq<char>, JsonVal)>::empty(),
    }) + (match v.detail {
        Some(d) => seq![("detail"@, JsonVal::Str(d))],
        None => Seq::<(Seq<char>, JsonVal)>::empty(),
    }) + (match v.instance {
        Some(u) => seq![("instance"@, JsonVal::Str(u))],
        None => Seq::<(Seq<char>, JsonVal)>::empty(),
    })
}

/// A record can be written as one JSON object exactly when its extension
/// payload is itself an object.
pub open spec fn json_encodable(v: ProblemDetailsView) -> bool {
    v.extensions is Obj
}

/// The entries of the encoded object: the present reserved fields, then the
/// extension object's own entries flattened beside them.
pub open spec fn spec_json_entries(v: ProblemDetailsView) -> Seq<(Seq<char>, JsonVal)> {
    reserved_entries(v) + v.extensions->Obj_0
}

/// Why a record could not be written as JSON. The backing writer itself
/// cannot fail on the values this library builds (see `write_json_text`),
/// so the one failure is the caller's payload shape.
#[derive(Debug, PartialEq, Eq, Clone)]
pub enum JsonError {
    /// The extension payload is not an object, so its fields cannot be
    /// flattened into the envelope.
    ExtensionsNotAnObject,
}

impl JsonError {
    /// A human-readable description of the failure.
    pub fn message(&self) -> (r: String)
        ensures
            r@ == "Could not write body: extensions are not an object"@,
    {
        String::from_str("Could not write body: extensions are not an object")
    }
}

impl ProblemDetails {
    /// The record as one flat JSON object value: each present reserved field
    /// under its literal name, each absent one omitted, and the extension
    /// object's fields as siblings. Fails exactly when the extension payload
    /// is not an object.
    #[verifier::loop_isolation(false)]
    #[verifier::rlimit(60)]
    pub fn to_json_value(&self) -> (r: Result<JsonValue, JsonError>)
        ensures
            match r {
                Ok(v) => json_encodable(self@) && v@ == JsonVal::Obj(spec_json_entries(self@)),
                Err(e) => !json_encodable(self@) && e is ExtensionsNotAnObject,
            },
    {
        let ext: &Vec<(String, JsonValue)> = match &self.extensions {
            JsonValue::Obj(ext) => ext,
            _ => {
                return Err(JsonError::ExtensionsNotAnObject);
            },
        };
        let mut out: Vec<(String, JsonValue)> = Vec::new();
        match &self.problem_type {
            Some(t) => out.push((String::from_str("type"), JsonValue::Str(t.as_str().to_owned()))),
            None => {},
        }
        match &self.status {
            Some(s) => out.push((String::from_str("status"), JsonValue::Int(s.as_u16() as i64))),
            None => {},
        }
        match &self.title {
            Some(t) => out.push((String::from_str("title"), JsonValue::Str(t.clone()))),
            None => {},
        }
        match &self.detail {
            Some(d) => out.push((String::from_str("detail"), JsonValue::Str(d.clone()))),
            None => {},
        }
        match &self.instance {
            Some(u) => out.push((String::from_str("instance"), JsonValue::Str(
                u.as_str().to_owned(),
            ))),
            None => {},
        }
        proof {
            assert(entries_view(out@) =~= reserved_entries(self@));
        }
        let ghost reserved_len: int = out@.len() as int;
        let mut idx: usize = 0;
        while idx < ext.len()
            invariant
                idx <= ext.len(),
                out@.len() == reserved_len + idx,
                entries_view(out@).subrange(0, reserved_len as int) =~= reserved_entries(self@),
                forall|j: int| 0 <= j < idx ==> entries_view(out@)[reserved_len + j]
                    == entries_view(ext@)[j],
            decreases ext.len() - idx,
        {
            let key = ext[idx].0.clone();
            let val = ext[idx].1.deep_clone();
            out.push((key, val));
            idx += 1;
        }
        let ghost out_snap = out@;
        let r = JsonValue::Obj(out);
        proof {
            assert(self.extensions == JsonValue::Obj(*ext));
            lemma_obj_view(*ext);
            assert(self@.extensions->Obj_0 == entries_view(ext@));
            assert forall|i: int| 0 <= i < reserved_len implies entries_view(out_snap)[i]
                == reserved_entries(self@)[i] by {
                assert(entries_view(out_snap).subrange(0, reserved_len)[i] == entries_view(
                    out_snap,
                )[i]);
            }
            assert(entries_view(out_snap) =~= spec_json_entries(self@));
            lemma_obj_view(r->Obj_0);
            assert(r == JsonValue::Obj(r->Obj_0));
            assert(r->Obj_0@ == out_snap);
            assert(r@ == JsonVal::Obj(spec_json_entries(self@)));
        }
        Ok(r)
    }
}

/// One step of decoding an object entry into a partial record: a reserved
/// key routes its value through that field's codec and replaces the field;
/// any other key is appended to the extension object unchanged.
pub open spec fn spec_decode_step(
    acc: ProblemDetailsView,
    k: Seq<char>,
    val: JsonVal,
) -> Result<ProblemDetailsView, DecodeErrorView> {
    if k == "type"@ {
        match spec_decode_uri(val) {
            Ok(t) => Ok(ProblemDetailsView { problem_type: Some(t), ..acc }),
            Err(e) => Err(e),
        }
    } else if k == "status"@ {
        match spec_decode_status(val) {
            Ok(n) => Ok(ProblemDetailsView { status: Some(n), ..acc }),
            Err(e) => Err(e),
        }
    } else if k == "title"@ {
        match spec_decode_text(val) {
            Ok(t) => Ok(ProblemDetailsView { title: Some(t), ..acc }),
            Err(e) => Err(e),
        }
    } else if k == "detail"@ {
        match spec_decode_text(val) {
            Ok(d) => Ok(ProblemDetailsView { detail: Some(d), ..acc }),
            Err(e) => Err(e),
        }
    } else if k == "instance"@ {
        match spec_decode_uri(val) {
            Ok(u) => Ok(ProblemDetailsView { instance: Some(u), ..acc }),
            Err(e) => Err(e),
        }
    } else {
        Ok(
            ProblemDetailsView {
                extensions: JsonVal::Obj(acc.extensions->Obj_0.push((k, val))),
                ..acc
            },
        )
    }
}

/// Decoding a sequence of object entries left to right, starting from a
/// partial record; the first failing entry fails the whole decode.
pub open spec fn spec_decode_entries_from(
    acc: ProblemDetailsView,
    entries: Seq<(Seq<char>, JsonVal)>,
) -> Result<ProblemDetailsView, DecodeErrorView>
    decreases entries.len(),
{
    if entries.len() == 0 {
        Ok(acc)
    } else {
        match spec_decode_step(acc, entries[0].0, entries[0].1) {
            Ok(acc2) => spec_decode_entries_from(acc2, entries.drop_first()),
            Err(e) => Err(e),
        }
    }
}

/// Decoding an object's entries into a record, starting from the empty one.
pub open spec fn spec_decode_entries(entries: Seq<(Seq<char>, JsonVal)>) -> Result<
    ProblemDetailsView,
    DecodeErrorView,
> {
    spec_decode_entries_from(ProblemDetailsView::empty(), entries)
}

/// Decoding a JSON value: only an object is accepted.
pub open spec fn spec_decode_json(v: JsonVal) -> Result<ProblemDetailsView, DecodeErrorView> {
    match v {
        JsonVal::Obj(entries) => spec_decode_entries(entries),
        _ => Err(DecodeErrorView::NotAnObject),
    }
}

/// Decoding a JSON text: the text must be well-formed JSON, and its value an
/// object.
pub open spec fn spec_decode_json_text(s: Seq<char>) -> Result<
    ProblemDetailsView,
    DecodeErrorView,
> {
    match json_of_text(s) {
        Some(v) => spec_decode_json(v),
        None => Err(DecodeErrorView::InvalidJson),
    }
}

/// The partial record built so far: the decoded reserved fields beside the
/// extension entries collected so far.
spec fn decode_acc_view(pd: ProblemDetailsView, ext: Seq<(String, JsonValue)>) -> ProblemDetailsView {
    ProblemDetailsView { extensions: JsonVal::Obj(entries_view(ext)), ..pd }
}

impl ProblemDetails {
    /// Decodes one flat JSON object into a record: each reserved key goes
    /// through its field codec, and every other key lands in the extension
    /// object, in order. Fails exactly as the field codecs do, or with
    /// `NotAnObject` when the value is not an object.
    #[verifier::loop_isolation(false)]
    #[verifier::rlimit(60)]
    pub fn from_json_value(v: &JsonValue) -> (r: Result<ProblemDetails, DecodeError>)
        ensures
            match r {
                Ok(pd) => spec_decode_json(v@) == Ok::<ProblemDetailsView, DecodeErrorView>(pd@),
                Err(e) => spec_decode_json(v@) == Err::<ProblemDetailsView, DecodeErrorView>(e@),
            },
    {
        let entries: &Vec<(String, JsonValue)> = match v {
            JsonValue::Obj(entries) => entries,
            _ => {
                return Err(DecodeError::NotAnObject);
            },
        };
        proof {
            assert(*v == JsonValue::Obj(*entries));
            lemma_obj_view(*entries);
        }
        let ghost all = entries_view(entries@);
        let mut acc = ProblemDetails::new();
        let mut ext: Vec<(String, JsonValue)> = Vec::new();
        proof {
            assert(entries_view(ext@) =~= Seq::<(Seq<char>, JsonVal)>::empty());
            assert(decode_acc_view(acc@, ext@) =~~= ProblemDetailsView::empty());
            assert(all.skip(0) =~= all);
        }
        let mut idx: usize = 0;
        while idx < entries.len()
            invariant
                idx <= entries.len(),
                spec_decode_entries_from(decode_acc_view(acc@, ext@), all.skip(idx as int))
                    == spec_decode_entries(all),
            decreases entries.len() - idx,
        {
            let ghost acc_pre = decode_acc_view(acc@, ext@);
            let ghost rest_pre = all.skip(idx as int);
            proof {
                assert(rest_pre[0] == (entries@[idx as int].0@, entries@[idx as int].1@));
                assert(rest_pre.drop_first() =~= all.skip(idx + 1));
            }
            let k = &entries[idx].0;
            let val = &entries[idx].1;
            if str_eq(k.as_str(), "type") {
                match decode_uri_value(val) {
                    Ok(u) => {
                        acc.problem_type = Some(ProblemType::from_uri(u));
                        proof {
                            let stepped = spec_decode_step(acc_pre, rest_pre[0].0, rest_pre[0].1);
                            assert(stepped is Ok);
                            assert(decode_acc_view(acc@, ext@) =~~= stepped->Ok_0);
                        }
                    },
                    Err(e) => {
                        return Err(e);
                    },
                }
            } else if str_eq(k.as_str(), "status") {
                match decode_status_value(val) {
                    Ok(s) => {
                        acc.status = Some(s);
                        proof {
                            let stepped = spec_decode_step(acc_pre, rest_pre[0].0, rest_pre[0].1);
                            assert(stepped is Ok);
                            assert(decode_acc_view(acc@, ext@) =~~= stepped->Ok_0);
                        }
                    },
                    Err(e) => {
                        return Err(e);
                    },
                }
            } else if str_eq(k.as_str(), "title") {
                match decode_text_value(val) {
                    Ok(t) => {
                        acc.title = Some(t);
                        proof {
                            let stepped = spec_decode_step(acc_pre, rest_pre[0].0, rest_pre[0].1);
                            assert(stepped is Ok);
                            assert(decode_acc_view(acc@, ext@) =~~= stepped->Ok_0);
                        }
                    },
                    Err(e) => {
                        return Err(e);
                    },
                }
            } else if str_eq(k.as_str(), "detail") {
                match decode_text_value(val) {
                    Ok(d) => {
                        acc.detail = Some(d);
                        proof {
                            let stepped = spec_decode_step(acc_pre, rest_pre[0].0, rest_pre[0].1);
                            assert(stepped is Ok);
                            assert(decode_acc_view(acc@, ext@) =~~= stepped->Ok_0);
                        }
                    },
                    Err(e) => {
                        return Err(e);
                    },
                }
            } else if str_eq(k.as_str(), "instance") {
                match decode_uri_value(val) {
                    Ok(u) => {
                        acc.instance = Some(u);
                        proof {
                            let stepped = spec_decode_step(acc_pre, rest_pre[0].0, rest_pre[0].1);
                            assert(stepped is Ok);
                            assert(decode_acc_view(acc@, ext@) =~~= stepped->Ok_0);
                        }
                    },
                    Err(e) => {
                        return Err(e);
                    },
                }
            } else {
                let ghost ext_pre = ext@;
                ext.push((k.clone(), val.deep_clone()));
                proof {
                    assert(ext@.drop_last() =~= ext_pre);
                    assert(entries_view(ext@) =~= entries_view(ext_pre).push(
                        (rest_pre[0].0, rest_pre[0].1),
                    ));
                }
            }
            idx += 1;
            proof {
                let stepped = spec_decode_step(acc_pre, rest_pre[0].0, rest_pre[0].1);
                assert(stepped is Ok);
                assert(decode_acc_view(acc@, ext@) =~~= stepped->Ok_0);
            }
        }
        proof {
            assert(all.skip(idx as int) =~= Seq::<(Seq<char>, JsonVal)>::empty());
        }
        let ghost ext_snap = ext@;
        let pd = ProblemDetails { extensions: JsonValue::Obj(ext), ..acc };
        proof {
            lemma_obj_view(pd.extensions->Obj_0);
            assert(pd.extensions == JsonValue::Obj(pd.extensions->Obj_0));
            assert(pd@ =~~= decode_acc_view(acc@, ext_snap));
        }
        Ok(pd)
    }

    /// Decodes a JSON text into a record. Fails with `InvalidJson` when the
    /// text is not well-formed JSON or holds a number outside the signed
    /// 64-bit integers, and otherwise as `from_json_value` does.
    pub fn from_json_str(s: &str) -> (r: Result<ProblemDetails, DecodeError>)
        ensures
            match r {
                Ok(pd) => spec_decode_json_text(s@) == Ok::<
                    ProblemDetailsView,
                    DecodeErrorView,
                >(pd@),
                Err(e) => spec_decode_json_text(s@) == Err::<
                    ProblemDetailsView,
                    DecodeErrorView,
                >(e@),
            },
    {
        match read_json_text(s) {
            Some(v) => ProblemDetails::from_json_value(&v),
            None => Err(DecodeError::InvalidJson),
        }
    }
}

/// A record paired with the JSON encoding: what response builders use when
/// the body is to be `application/problem+json`.
#[derive(Debug)]
pub struct JsonProblemDetails(pub ProblemDetails);

impl JsonProblemDetails {
    /// The content type of a JSON problem details body.
    pub const CONTENT_TYPE: &'static str = "application/problem+json";

    /// Wraps a record for JSON encoding.
    pub fn new(details: ProblemDetails) -> (r: JsonProblemDetails)
        ensures
            r.0@ == details@,
    {
        JsonProblemDetails(details)
    }

    /// The wrapped record.
    pub fn into_details(self) -> (r: ProblemDetails)
        ensures
            r@ == self.0@,
    {
        self.0
    }

    /// Writes the record as a JSON text suitable for a response body: the
    /// text of the one flat object that `to_json_value` builds. Succeeds,
    /// with that text, exactly when the extension payload is an object, and
    /// fails with `ExtensionsNotAnObject` exactly when it is not.
    pub fn to_body_string(&self) -> (r: Result<String, JsonError>)
        ensures
            match r {
                Ok(s) => json_encodable(self.0@) && s@ == json_text_of(
                    JsonVal::Obj(spec_json_entries(self.0@)),
                ),
                Err(e) => !json_encodable(self.0@) && e == JsonError::ExtensionsNotAnObject,
            },
    {
        let v = match self.0.to_json_value() {
            Ok(v) => v,
            Err(_) => {
                return Err(JsonError::ExtensionsNotAnObject);
            },
        };
        match write_json_text(&v) {
            Ok(s) => Ok(s),
            Err(_) => {
                proof {
                    assert(false);
                }
                Err(JsonError::ExtensionsNotAnObject)
            },
        }
    }
}

impl Clone for JsonProblemDetails {
    fn clone(&self) -> (r: JsonProblemDetails)
        ensures
            r.0@ == self.0@,
    {
        JsonProblemDetails(self.0.clone())
    }
}

/// Decoding a concatenation runs the left part first, then feeds what it
/// built into the right part; an error in the left part is the whole
/// result.
pub proof fn lemma_decode_append(
    acc: ProblemDetailsView,
    xs: Seq<(Seq<char>, JsonVal)>,
    ys: Seq<(Seq<char>, JsonVal)>,
)
    ensures
        spec_decode_entries_from(acc, xs + ys) == (match spec_decode_entries_from(acc, xs) {
            Ok(a2) => spec_decode_entries_from(a2, ys),
            Err(e) => Err(e),
        }),
    decreases xs.len(),
{
    if xs.len() == 0 {
        assert(xs + ys =~= ys);
    } else {
        assert((xs + ys)[0] == xs[0]);
        assert((xs + ys).drop_first() =~= xs.drop_first() + ys);
        match spec_decode_step(acc, xs[0].0, xs[0].1) {
            Ok(a2) => {
                lemma_decode_append(a2, xs.drop_first(), ys);
            },
            Err(_) => {},
        }
    }
}

/// Entries without a reserved key decode into the extension object, in
/// order, and touch nothing else.
pub proof fn lemma_decode_ext_entries(acc: ProblemDetailsView, ext: Seq<(Seq<char>, JsonVal)>)
    requires
        acc.extensions is Obj,
        forall|i: int| 0 <= i < ext.len() ==> !is_reserved_key(#[trigger] ext[i].0),
    ensures
        spec_decode_entries_from(acc, ext) == Ok::<ProblemDetailsView, DecodeErrorView>(
            ProblemDetailsView {
                extensions: JsonVal::Obj(acc.extensions->Obj_0 + ext),
                ..acc
            },
        ),
    decreases ext.len(),
{
    if ext.len() == 0 {
        assert(acc.extensions->Obj_0 + ext =~= acc.extensions->Obj_0);
        assert(acc.extensions == JsonVal::Obj(acc.extensions->Obj_0));
        assert(ProblemDetailsView {
            extensions: JsonVal::Obj(acc.extensions->Obj_0 + ext),
            ..acc
        } =~~= acc);
    } else {
        let k = ext[0].0;
        let val = ext[0].1;
        assert(!is_reserved_key(ext[0].0));
        let acc2 = ProblemDetailsView {
            extensions: JsonVal::Obj(acc.extensions->Obj_0.push((k, val))),
            ..acc
        };
        assert(spec_decode_step(acc, k, val) == Ok::<ProblemDetailsView, DecodeErrorView>(acc2));
        assert forall|i: int| 0 <= i < ext.drop_first().len() implies !is_reserved_key(
            #[trigger] ext.drop_first()[i].0,
        ) by {
            assert(ext.drop_first()[i] == ext[i + 1]);
        }
        lemma_decode_ext_entries(acc2, ext.drop_first());
        assert(acc.extensions->Obj_0.push((k, val)) + ext.drop_first() =~= acc.extensions->Obj_0
            + ext);
    }
}

/// Round trip: a well-formed record whose extension payload is an object
/// with no reserved key decodes, from the object its JSON encoding builds,
/// back to itself.
pub proof fn lemma_json_round_trip(v: ProblemDetailsView)
    requires
        v.wf(),
        json_encodable(v),
        forall|i: int| 0 <= i < v.extensions->Obj_0.len() ==> !is_reserved_key(
            #[trigger] v.extensions->Obj_0[i].0,
        ),
    ensures
        spec_decode_entries(spec_json_entries(v)) == Ok::<ProblemDetailsView, DecodeErrorView>(v),
{
    reveal_with_fuel(spec_decode_entries_from, 3);
    reveal_strlit("type");
    reveal_strlit("status");
    reveal_strlit("title");
    reveal_strlit("detail");
    reveal_strlit("instance");
    assert("status"@.len() != "type"@.len());
    assert("title"@.len() != "type"@.len());
    assert("title"@.len() != "status"@.len());
    assert("detail"@.len() != "type"@.len());
    assert("detail"@[0] != "status"@[0]);
    assert("detail"@.len() != "title"@.len());
    assert("instance"@.len() != "type"@.len());
    assert("instance"@.len() != "status"@.len());
    assert("instance"@.len() != "title"@.len());
    assert("instance"@.len() != "detail"@.len());
    let s1 = match v.problem_type {
        Some(t) => seq![("type"@, JsonVal::Str(t))],
        None => Seq::<(Seq<char>, JsonVal)>::empty(),
    };
    let s2 = match v.status {
        Some(n) => seq![("status"@, JsonVal::Int(n))],
        None => Seq::<(Seq<char>, JsonVal)>::empty(),
    };
    let s3 = match v.title {
        Some(t) => seq![("title"@, JsonVal::Str(t))],
        None => Seq::<(Seq<char>, JsonVal)>::empty(),
    };
    let s4 = match v.detail {
        Some(d) => seq![("detail"@, JsonVal::Str(d))],
        None => Seq::<(Seq<char>, JsonVal)>::empty(),
    };
    let s5 = match v.instance {
        Some(u) => seq![("instance"@, JsonVal::Str(u))],
        None => Seq::<(Seq<char>, JsonVal)>::empty(),
    };
    let ext = v.extensions->Obj_0;
    let a0 = ProblemDetailsView::empty();
    let a1 = ProblemDetailsView { problem_type: v.problem_type, ..a0 };
    let a2 = ProblemDetailsView { status: v.status, ..a1 };
    let a3 = ProblemDetailsView { title: v.title, ..a2 };
    let a4 = ProblemDetailsView { detail: v.detail, ..a3 };
    let a5 = ProblemDetailsView { instance: v.instance, ..a4 };
    assert(spec_json_entries(v) =~= s1 + (s2 + (s3 + (s4 + (s5 + ext)))));
    assert(spec_decode_entries_from(a0, s1) == Ok::<ProblemDetailsView, DecodeErrorView>(a1)) by {
        match v.problem_type {
            Some(t) => {
                assert(uri_wf(t));
                assert(s1.drop_first() =~= Seq::<(Seq<char>, JsonVal)>::empty());
                assert(a1 =~~= ProblemDetailsView { problem_type: Some(t), ..a0 });
            },
            None => {
                assert(a1 =~~= a0);
            },
        }
    }
    assert(spec_decode_entries_from(a1, s2) == Ok::<ProblemDetailsView, DecodeErrorView>(a2)) by {
        match v.status {
            Some(n) => {
                assert(valid_status(n));
                assert(s2.drop_first() =~= Seq::<(Seq<char>, JsonVal)>::empty());
                assert(a2 =~~= ProblemDetailsView { status: Some(n), ..a1 });
            },
            None => {
                assert(a2 =~~= a1);
            },
        }
    }
    assert(spec_decode_entries_from(a2, s3) == Ok::<ProblemDetailsView, DecodeErrorView>(a3)) by {
        match v.title {
            Some(t) => {
                assert(s3.drop_first() =~= Seq::<(Seq<char>, JsonVal)>::empty());
                assert(a3 =~~= ProblemDetailsView { title: Some(t), ..a2 });
            },
            None => {
                assert(a3 =~~= a2);
            },
        }
    }
    assert(spec_decode_entries_from(a3, s4) == Ok::<ProblemDetailsView, DecodeErrorView>(a4)) by {
        match v.detail {
            Some(d) => {
                assert(s4.drop_first() =~= Seq::<(Seq<char>, JsonVal)>::empty());
                assert(a4 =~~= ProblemDetailsView { detail: Some(d), ..a3 });
            },
            None => {
                assert(a4 =~~= a3);
            },
        }
    }
    assert(spec_decode_entries_from(a4, s5) == Ok::<ProblemDetailsView, DecodeErrorView>(a5)) by {
        match v.instance {
            Some(u) => {
                assert(uri_wf(u));
                assert(s5.drop_first() =~= Seq::<(Seq<char>, JsonVal)>::empty());
                assert(a5 =~~= ProblemDetailsView { instance: Some(u), ..a4 });
            },
            None => {
                assert(a5 =~~= a4);
            },
        }
    }
    lemma_decode_append(a0, s1, s2 + (s3 + (s4 + (s5 + ext))));
    lemma_decode_append(a1, s2, s3 + (s4 + (s5 + ext)));
    lemma_decode_append(a2, s3, s4 + (s5 + ext));
    lemma_decode_append(a3, s4, s5 + ext);
    lemma_decode_append(a4, s5, ext);
    lemma_decode_ext_entries(a5, ext);
    assert(a5.extensions->Obj_0 + ext =~= ext);
    assert(v.extensions == JsonVal::Obj(ext));
    assert(ProblemDetailsView { extensions: JsonVal::Obj(a5.extensions->Obj_0 + ext), ..a5 }
        =~~= v);
}

} // verus!
