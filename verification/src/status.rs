use vstd::prelude::*;

verus! {

/// A status code is advisory and must be a three-digit code in `[100, 599]`.
pub open spec fn valid_status(n: int) -> bool {
    100 <= n <= 599
}

/// The canonical reason phrase that the `http` crate associates with a status
/// code (`404` has `"Not Found"`), or `None` for a code without a registered
/// phrase. The phrase is a fixed table lookup, a function of the code alone.
pub uninterp spec fn reason_of(code: int) -> Option<Seq<char>>;

/// Relies on `http::StatusCode::canonical_reason` (reached through
/// `http::StatusCode::from_u16`, which accepts every code in `[100, 599]`):
/// the reason phrase is a constant table lookup on the numeric code.
#[verifier::external_body]
pub(crate) fn status_reason(code: u16) -> (r: Option<String>)
    requires
        valid_status(code as int),
    ensures
        match r {
            Some(t) => reason_of(code as int) == Some(t@),
            None => reason_of(code as int) is None,
        },
{
    match http::StatusCode::from_u16(code) {
        Ok(s) => s.canonical_reason().map(|p| p.to_string()),
        Err(_) => None,
    }
}

/// An HTTP status code, kept within `[100, 599]`.
#[derive(Clone, Copy, Debug, PartialEq, Eq, Hash)]
pub struct HttpStatus {
    code: u16,
}

impl View for HttpStatus {
    type V = int;

    closed spec fn view(&self) -> int {
        self.code as int
    }
}

impl HttpStatus {
    /// Builds a status from its numeric code; codes outside `[100, 599]` are
    /// rejected.
    pub fn from_u16(code: u16) -> (r: Option<HttpStatus>)
        ensures
            match r {
                Some(s) => valid_status(code as int) && s@ == code as int,
                None => !valid_status(code as int),
            },
    {
        if 100 <= code && code <= 599 {
            Some(HttpStatus { code })
        } else {
            None
        }
    }

    /// The numeric code.
    pub fn as_u16(&self) -> (r: u16)
        ensures
            r as int == self@,
    {
        self.code
    }

    /// The `500 Internal Server Error` status, the fallback that response
    /// builders use when a record carries no status of its own.
    pub fn internal_server_error() -> (r: HttpStatus)
        ensures
            r@ == 500,
    {
        HttpStatus { code: 500 }
    }

    /// The canonical reason phrase of this status, if it has one.
    pub fn canonical_reason(&self) -> (r: Option<String>)
        ensures
            match r {
                Some(t) => reason_of(self@) == Some(t@),
                None => reason_of(self@) is None,
            },
    {
        proof {
            use_type_invariant(self);
        }
        status_reason(self.code)
    }
}

impl HttpStatus {
    /// Every value of this type carries a code in `[100, 599]`.
    #[verifier::type_invariant]
    spec fn inv(self) -> bool {
        valid_status(self@)
    }
}

} // verus!
