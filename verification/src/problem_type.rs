use vstd::prelude::*;

verus! {

/// The canonical form of a URI reference, as the `http` crate computes it:
/// `parse_uri_canonical` parses the string as an `http::Uri`, writes the
/// parsed value back out, and checks that the written form reads back
/// unchanged. `uri_canon(s)` names the outcome: `None` when `s` is not a
/// parsable URI reference, `Some(t)` with `t` the written form otherwise.
/// By construction `uri_canon(t) == Some(t)` holds of every such `t`.
pub uninterp spec fn uri_canon(s: Seq<char>) -> Option<Seq<char>>;

/// A string is in canonical URI form when parsing and re-writing it gives
/// the string itself back.
pub open spec fn uri_wf(s: Seq<char>) -> bool {
    uri_canon(s) == Some(s)
}

/// Relies on `http::Uri`'s `FromStr` and `Display`: parsing keeps the URI's
/// components (scheme, authority, path, query) as substrings of the input,
/// and `Display` writes exactly those components back, so writing a parsed
/// value and re-parsing it is stable. The body checks that stability
/// directly, which makes the two `uri_canon` clauses below hold of every
/// outcome of the procedure that `uri_canon` names.
#[verifier::external_body]
pub(crate) fn parse_uri_canonical(s: &str) -> (r: Option<String>)
    ensures
        match r {
            Some(t) => uri_canon(s@) == Some(t@) && uri_wf(t@),
            None => uri_canon(s@) is None,
        },
{
    let parsed: http::Uri = match s.parse() {
        Ok(u) => u,
        Err(_) => return None,
    };
    let canon = parsed.to_string();
    let reparsed: http::Uri = match canon.parse() {
        Ok(u) => u,
        Err(_) => return None,
    };
    if reparsed.to_string() == canon {
        Some(canon)
    } else {
        None
    }
}

/// Relies on `http::Uri::from_static` and `Display`: `"about:blank"` parses
/// (as an authority-only URI reference) and writes back as itself.
#[verifier::external_body]
pub(crate) fn about_blank_string() -> (r: String)
    ensures
        r@ == "about:blank"@,
        uri_wf(r@),
{
    http::Uri::from_static("about:blank").to_string()
}

/// A syntactically valid URI reference, held in canonical string form.
#[derive(Debug, PartialEq, Eq, Hash)]
pub struct UriRef {
    uri: String,
}

impl Clone for UriRef {
    fn clone(&self) -> (r: UriRef)
        ensures
            r@ == self@,
    {
        proof {
            use_type_invariant(self);
        }
        UriRef { uri: self.uri.clone() }
    }
}

impl View for UriRef {
    type V = Seq<char>;

    closed spec fn view(&self) -> Seq<char> {
        self.uri@
    }
}

impl UriRef {
    /// Every value of this type holds a string in canonical URI form.
    #[verifier::type_invariant]
    spec fn inv(self) -> bool {
        uri_wf(self@)
    }

    /// Parses a URI reference; returns `None` exactly when the string has no
    /// canonical URI form.
    pub fn parse(s: &str) -> (r: Option<UriRef>)
        ensures
            match r {
                Some(u) => uri_canon(s@) == Some(u@) && uri_wf(u@),
                None => uri_canon(s@) is None,
            },
    {
        match parse_uri_canonical(s) {
            Some(t) => Some(UriRef { uri: t }),
            None => None,
        }
    }

    /// The canonical string form.
    pub fn as_str(&self) -> (r: &str)
        ensures
            r@ == self@,
            uri_wf(self@),
    {
        proof {
            use_type_invariant(self);
        }
        self.uri.as_str()
    }

    /// The default URI reference, `about:blank`.
    pub fn about_blank() -> (r: UriRef)
        ensures
            r@ == "about:blank"@,
            uri_wf(r@),
    {
        UriRef { uri: about_blank_string() }
    }
}

/// A problem type: a URI reference naming the problem category. The default
/// value `about:blank` stands for an unspecified problem type.
#[derive(Debug, PartialEq, Eq, Hash)]
pub struct ProblemType {
    uri: UriRef,
}

impl Clone for ProblemType {
    fn clone(&self) -> (r: ProblemType)
        ensures
            r@ == self@,
    {
        ProblemType { uri: self.uri.clone() }
    }
}

impl View for ProblemType {
    type V = Seq<char>;

    closed spec fn view(&self) -> Seq<char> {
        self.uri@
    }
}

impl ProblemType {
    /// Wraps a URI reference as a problem type.
    pub fn from_uri(uri: UriRef) -> (r: ProblemType)
        ensures
            r@ == uri@,
    {
        ProblemType { uri }
    }

    /// The underlying URI reference.
    pub fn as_uri(&self) -> (r: &UriRef)
        ensures
            r@ == self@,
            uri_wf(self@),
    {
        proof {
            use_type_invariant(&self.uri);
        }
        &self.uri
    }

    /// The canonical string form of the underlying URI reference.
    pub fn as_str(&self) -> (r: &str)
        ensures
            r@ == self@,
            uri_wf(self@),
    {
        self.uri.as_str()
    }
}

impl Default for ProblemType {
    /// The default problem type is `about:blank`.
    fn default() -> (r: ProblemType)
        ensures
            r@ == "about:blank"@,
    {
        ProblemType { uri: UriRef::about_blank() }
    }
}

} // verus!
