use vstd::prelude::*;

use crate::json_value::JsonVal;
use crate::json_value::JsonValue;
use crate::problem_type::ProblemType;
use crate::problem_type::UriRef;
use crate::problem_type::uri_wf;
use crate::status::HttpStatus;
use crate::status::reason_of;
use crate::status::valid_status;
use crate::strutil::dec_str;
use crate::strutil::push_char;
use crate::strutil::u64_to_string;

verus! {

/// The mathematical content of a problem details record: the string form of
/// each present reserved field, and the shape of the extension payload.
#[verifier::ext_equal]
pub struct ProblemDetailsView {
    pub problem_type: Option<Seq<char>>,
    pub status: Option<int>,
    pub title: Option<Seq<char>>,
    pub detail: Option<Seq<char>>,
    pub instance: Option<Seq<char>>,
    pub extensions: JsonVal,
}

impl ProblemDetailsView {
    /// The invariants of a record: present URIs are in canonical form and a
    /// present status is a three-digit code.
    pub open spec fn wf(self) -> bool {
        &&& (self.problem_type matches Some(t) ==> uri_wf(t))
        &&& (self.instance matches Some(u) ==> uri_wf(u))
        &&& (self.status matches Some(n) ==> valid_status(n))
    }

    /// The record with every reserved field absent and an empty extension
    /// object.
    pub open spec fn empty() -> ProblemDetailsView {
        ProblemDetailsView {
            problem_type: None,
            status: None,
            title: None,
            detail: None,
            instance: None,
            extensions: JsonVal::Obj(Seq::empty()),
        }
    }
}

/// A problem details record: five optional reserved fields and a structured
/// extension payload whose fields are flattened beside them at encode time.
#[derive(Debug, PartialEq, Eq)]
pub struct ProblemDetails {
    /// An optional URI reference describing the problem type; absent means
    /// `about:blank`.
    pub problem_type: Option<ProblemType>,
    /// An optional advisory copy of the response status code.
    pub status: Option<HttpStatus>,
    /// An optional short human-readable summary, normally stable per type.
    pub title: Option<String>,
    /// An optional human-readable explanation of this occurrence.
    pub detail: Option<String>,
    /// An optional URI reference identifying this occurrence.
    pub instance: Option<UriRef>,
    /// Structured extension data; an object's fields are encoded as siblings
    /// of the reserved fields.
    pub extensions: JsonValue,
}

impl View for ProblemDetails {
    type V = ProblemDetailsView;

    open spec fn view(&self) -> ProblemDetailsView {
        ProblemDetailsView {
            problem_type: match self.problem_type {
                Some(t) => Some(t@),
                None => None,
            },
            status: match self.status {
                Some(s) => Some(s@),
                None => None,
            },
            title: match self.title {
                Some(t) => Some(t@),
                None => None,
            },
            detail: match self.detail {
                Some(d) => Some(d@),
                None => None,
            },
            instance: match self.instance {
                Some(u) => Some(u@),
                None => None,
            },
            extensions: self.extensions@,
        }
    }
}

impl ProblemDetails {
    /// A record with every reserved field absent and an empty extension
    /// object.
    pub fn new() -> (r: ProblemDetails)
        ensures
            r@ == ProblemDetailsView::empty(),
    {
        let r = ProblemDetails {
            problem_type: None,
            status: None,
            title: None,
            detail: None,
            instance: None,
            extensions: JsonValue::empty_object(),
        };
        proof {
            assert(r@ =~= ProblemDetailsView::empty());
        }
        r
    }

    /// A record seeded from a status code: `status` is set, `title` is the
    /// code's canonical reason phrase when it has one, and the other fields
    /// are absent.
    pub fn from_status_code(status: HttpStatus) -> (r: ProblemDetails)
        ensures
            r@ == (ProblemDetailsView {
                status: Some(status@),
                title: reason_of(status@),
                ..ProblemDetailsView::empty()
            }),
    {
        let title = status.canonical_reason();
        let r = ProblemDetails {
            problem_type: None,
            status: Some(status),
            title,
            detail: None,
            instance: None,
            extensions: JsonValue::empty_object(),
        };
        proof {
            assert(r@ =~= (ProblemDetailsView {
                status: Some(status@),
                title: reason_of(status@),
                ..ProblemDetailsView::empty()
            }));
        }
        r
    }

    /// The same record with `type` set to the given problem type.
    pub fn with_type(self, problem_type: ProblemType) -> (r: ProblemDetails)
        ensures
            r@ == (ProblemDetailsView { problem_type: Some(problem_type@), ..self@ }),
    {
        let r = ProblemDetails { problem_type: Some(problem_type), ..self };
        proof {
            assert(r@ =~= (ProblemDetailsView { problem_type: Some(problem_type@), ..self@ }));
        }
        r
    }

    /// The same record with `status` set to the given status code.
    pub fn with_status(self, status: HttpStatus) -> (r: ProblemDetails)
        ensures
            r@ == (ProblemDetailsView { status: Some(status@), ..self@ }),
    {
        let r = ProblemDetails { status: Some(status), ..self };
        proof {
            assert(r@ =~= (ProblemDetailsView { status: Some(status@), ..self@ }));
        }
        r
    }

    /// The same record with `title` set to the given text.
    pub fn with_title(self, title: &str) -> (r: ProblemDetails)
        ensures
            r@ == (ProblemDetailsView { title: Some(title@), ..self@ }),
    {
        let r = ProblemDetails { title: Some(title.to_owned()), ..self };
        proof {
            assert(r@ =~= (ProblemDetailsView { title: Some(title@), ..self@ }));
        }
        r
    }

    /// The same record with `detail` set to the given text.
    pub fn with_detail(self, detail: &str) -> (r: ProblemDetails)
        ensures
            r@ == (ProblemDetailsView { detail: Some(detail@), ..self@ }),
    {
        let r = ProblemDetails { detail: Some(detail.to_owned()), ..self };
        proof {
            assert(r@ =~= (ProblemDetailsView { detail: Some(detail@), ..self@ }));
        }
        r
    }

    /// The same record with `instance` set to the given URI reference.
    pub fn with_instance(self, instance: UriRef) -> (r: ProblemDetails)
        ensures
            r@ == (ProblemDetailsView { instance: Some(instance@), ..self@ }),
    {
        let r = ProblemDetails { instance: Some(instance), ..self };
        proof {
            assert(r@ =~= (ProblemDetailsView { instance: Some(instance@), ..self@ }));
        }
        r
    }

    /// The same record with the extension payload replaced.
    pub fn with_extensions(self, extensions: JsonValue) -> (r: ProblemDetails)
        ensures
            r@ == (ProblemDetailsView { extensions: extensions@, ..self@ }),
    {
        let ghost ext = extensions@;
        let r = ProblemDetails { extensions, ..self };
        proof {
            assert(r@ =~= (ProblemDetailsView { extensions: ext, ..self@ }));
        }
        r
    }

    /// The status to put on the response line: the record's own status, or
    /// `500 Internal Server Error` when it has none.
    pub fn status_code(&self) -> (r: HttpStatus)
        ensures
            match self@.status {
                Some(n) => r@ == n,
                None => r@ == 500,
            },
    {
        match &self.status {
            Some(s) => *s,
            None => HttpStatus::internal_server_error(),
        }
    }
}

impl Default for ProblemDetails {
    /// The default record is the empty one.
    fn default() -> (r: ProblemDetails)
        ensures
            r@ == ProblemDetailsView::empty(),
    {
        ProblemDetails::new()
    }
}

impl Clone for ProblemDetails {
    fn clone(&self) -> (r: ProblemDetails)
        ensures
            r@ == self@,
    {
        let r = ProblemDetails {
            problem_type: match &self.problem_type {
                Some(t) => Some(t.clone()),
                None => None,
            },
            status: self.status,
            title: match &self.title {
                Some(t) => Some(t.clone()),
                None => None,
            },
            detail: match &self.detail {
                Some(d) => Some(d.clone()),
                None => None,
            },
            instance: match &self.instance {
                Some(u) => Some(u.clone()),
                None => None,
            },
            extensions: self.extensions.deep_clone(),
        };
        proof {
            assert(r@ =~= self@);
        }
        r
    }
}

/// The string form of the `type` field: the field itself when present, else
/// the default `about:blank`.
pub open spec fn display_type_str(v: ProblemDetailsView) -> Seq<char> {
    match v.problem_type {
        Some(t) => t,
        None => "about:blank"@,
    }
}

/// The title that the summary shows: the `title` field when present, else
/// the canonical reason phrase of a present `status`, else nothing.
pub open spec fn display_title(v: ProblemDetailsView) -> Option<Seq<char>> {
    match v.title {
        Some(t) => Some(t),
        None => match v.status {
            Some(n) => reason_of(n),
            None => None,
        },
    }
}

/// The one-line human-readable summary of a record: `[type status]` with the
/// status and its space omitted when absent, then a space and the resolved
/// title when there is one, then the detail, preceded by `:` when a title
/// was shown and by a space always.
pub open spec fn display_of(v: ProblemDetailsView) -> Seq<char> {
    let head = seq!['['] + display_type_str(v) + (match v.status {
        Some(n) => seq![' '] + dec_str(n as nat),
        None => Seq::<char>::empty(),
    }) + seq![']'];
    let titled = match display_title(v) {
        Some(t) => head + seq![' '] + t,
        None => head,
    };
    match v.detail {
        Some(d) => if display_title(v) is Some {
            titled + seq![':', ' '] + d
        } else {
            titled + seq![' '] + d
        },
        None => titled,
    }
}

impl ProblemDetails {
    /// Writes the one-line human-readable summary of this record.
    pub fn to_display_string(&self) -> (r: String)
        ensures
            r@ == display_of(self@),
    {
        let mut out = String::new();
        push_char(&mut out, '[');
        match &self.problem_type {
            Some(t) => out.append(t.as_str()),
            None => out.append("about:blank"),
        }
        match &self.status {
            Some(s) => {
                push_char(&mut out, ' ');
                out.append(u64_to_string(s.as_u16() as u64).as_str());
            },
            None => {},
        }
        push_char(&mut out, ']');
        proof {
            assert(out@ =~= seq!['['] + display_type_str(self@) + (match self@.status {
                Some(n) => seq![' '] + dec_str(n as nat),
                None => Seq::<char>::empty(),
            }) + seq![']']);
        }
        let title: Option<String> = match &self.title {
            Some(t) => Some(t.clone()),
            None => match &self.status {
                Some(s) => s.canonical_reason(),
                None => None,
            },
        };
        proof {
            assert(match title {
                Some(t) => display_title(self@) == Some(t@),
                None => display_title(self@) is None,
            });
        }
        match &title {
            Some(t) => {
                push_char(&mut out, ' ');
                out.append(t.as_str());
            },
            None => {},
        }
        match &self.detail {
            Some(d) => {
                if title.is_some() {
                    push_char(&mut out, ':');
                }
                push_char(&mut out, ' ');
                out.append(d.as_str());
            },
            None => {},
        }
        proof {
            assert(out@ =~= display_of(self@));
        }
        out
    }
}

} // verus!
