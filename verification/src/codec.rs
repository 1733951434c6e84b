use vstd::prelude::*;

use crate::json_value::JsonVal;
use crate::json_value::JsonValue;
use crate::problem_type::UriRef;
use crate::problem_type::uri_canon;
use crate::status::HttpStatus;
use crate::status::valid_status;

verus! {

/// The shape of a decode failure, naming the offending value.
#[verifier::ext_equal]
pub enum DecodeErrorView {
    InvalidJson,
    NotAnObject,
    InvalidStatus(JsonVal),
    InvalidUri(JsonVal),
    InvalidString(JsonVal),
}

/// Why a wire value could not be decoded into a problem details record.
/// Each field failure carries the offending value.
#[derive(Debug, PartialEq, Eq, Clone)]
pub enum DecodeError {
    /// The input is not a well-formed JSON text, or holds a number outside
    /// the signed 64-bit integers that structured values can carry.
    InvalidJson,
    /// The top-level JSON value is not an object.
    NotAnObject,
    /// The `status` value is not an unsigned integer in `[100, 599]`.
    InvalidStatus(JsonValue),
    /// The `type` or `instance` value is not a parsable URI reference.
    InvalidUri(JsonValue),
    /// The `title` or `detail` value is not a string.
    InvalidString(JsonValue),
}

impl View for DecodeError {
    type V = DecodeErrorView;

    open spec fn view(&self) -> DecodeErrorView {
        match self {
            DecodeError::InvalidJson => DecodeErrorView::InvalidJson,
            DecodeError::NotAnObject => DecodeErrorView::NotAnObject,
            DecodeError::InvalidStatus(v) => DecodeErrorView::InvalidStatus(v@),
            DecodeError::InvalidUri(v) => DecodeErrorView::InvalidUri(v@),
            DecodeError::InvalidString(v) => DecodeErrorView::InvalidString(v@),
        }
    }
}

/// Decoding a `status` value: only an integer in `[100, 599]` is accepted;
/// everything else fails with `InvalidStatus` naming the value.
pub open spec fn spec_decode_status(v: JsonVal) -> Result<int, DecodeErrorView> {
    match v {
        JsonVal::Int(n) => if valid_status(n) {
            Ok(n)
        } else {
            Err(DecodeErrorView::InvalidStatus(v))
        },
        _ => Err(DecodeErrorView::InvalidStatus(v)),
    }
}

/// Decoding a `type` or `instance` value: only a string with a canonical URI
/// form is accepted, and decodes to that form; everything else fails with
/// `InvalidUri` naming the value.
pub open spec fn spec_decode_uri(v: JsonVal) -> Result<Seq<char>, DecodeErrorView> {
    match v {
        JsonVal::Str(s) => match uri_canon(s) {
            Some(t) => Ok(t),
            None => Err(DecodeErrorView::InvalidUri(v)),
        },
        _ => Err(DecodeErrorView::InvalidUri(v)),
    }
}

/// Decoding a `title` or `detail` value: only a string is accepted.
pub open spec fn spec_decode_text(v: JsonVal) -> Result<Seq<char>, DecodeErrorView> {
    match v {
        JsonVal::Str(s) => Ok(s),
        _ => Err(DecodeErrorView::InvalidString(v)),
    }
}

/// Decodes a `status` field value.
pub fn decode_status_value(v: &JsonValue) -> (r: Result<HttpStatus, DecodeError>)
    ensures
        match r {
            Ok(s) => spec_decode_status(v@) == Ok::<int, DecodeErrorView>(s@),
            Err(e) => spec_decode_status(v@) == Err::<int, DecodeErrorView>(e@),
        },
{
    match v {
        JsonValue::Int(n) => {
            if 100 <= *n && *n <= 599 {
                match HttpStatus::from_u16(*n as u16) {
                    Some(s) => Ok(s),
                    None => {
                        proof {
                            assert(false);
                        }
                        Err(DecodeError::InvalidStatus(v.deep_clone()))
                    },
                }
            } else {
                Err(DecodeError::InvalidStatus(v.deep_clone()))
            }
        },
        _ => Err(DecodeError::InvalidStatus(v.deep_clone())),
    }
}

/// Decodes a `type` or `instance` field value.
pub fn decode_uri_value(v: &JsonValue) -> (r: Result<UriRef, DecodeError>)
    ensures
        match r {
            Ok(u) => spec_decode_uri(v@) == Ok::<Seq<char>, DecodeErrorView>(u@),
            Err(e) => spec_decode_uri(v@) == Err::<Seq<char>, DecodeErrorView>(e@),
        },
{
    match v {
        JsonValue::Str(s) => match UriRef::parse(s.as_str()) {
            Some(u) => Ok(u),
            None => Err(DecodeError::InvalidUri(v.deep_clone())),
        },
        _ => Err(DecodeError::InvalidUri(v.deep_clone())),
    }
}

/// Decodes a `title` or `detail` field value.
pub fn decode_text_value(v: &JsonValue) -> (r: Result<String, DecodeError>)
    ensures
        match r {
            Ok(t) => spec_decode_text(v@) == Ok::<Seq<char>, DecodeErrorView>(t@),
            Err(e) => spec_decode_text(v@) == Err::<Seq<char>, DecodeErrorView>(e@),
        },
{
    match v {
        JsonValue::Str(s) => Ok(s.clone()),
        _ => Err(DecodeError::InvalidString(v.deep_clone())),
    }
}

} // verus!
