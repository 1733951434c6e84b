//! Problem details for HTTP APIs: a small record of five optional reserved
//! fields (`type`, `status`, `title`, `detail`, `instance`) plus a structured
//! extension payload, with JSON and XML wire encodings and a one-line
//! human-readable summary.

mod codec;
mod extensions;
mod json;
mod json_value;
mod problem_details;
mod problem_type;
mod status;
mod strutil;
mod xml;

pub use codec::DecodeError;
pub use codec::DecodeErrorView;
pub use codec::decode_status_value;
pub use codec::decode_text_value;
pub use codec::decode_uri_value;
pub use codec::spec_decode_status;
pub use codec::spec_decode_text;
pub use codec::spec_decode_uri;
pub use extensions::Extensions;
pub use json::JsonError;
pub use json::JsonProblemDetails;
pub use json::is_reserved_key;
pub use json::json_encodable;
pub use json::json_of_text;
pub use json::json_text_of;
pub use json::lemma_decode_append;
pub use json::lemma_decode_ext_entries;
pub use json::lemma_json_round_trip;
pub use json::reserved_entries;
pub use json::spec_decode_entries;
pub use json::spec_decode_entries_from;
pub use json::spec_decode_json;
pub use json::spec_decode_json_text;
pub use json::spec_decode_step;
pub use json::spec_json_entries;
pub use json_value::JsonVal;
pub use json_value::JsonValue;
pub use json_value::entries_view;
pub use json_value::json_view;
pub use json_value::lemma_obj_view;
pub use problem_details::ProblemDetails;
pub use problem_details::ProblemDetailsView;
pub use problem_details::display_of;
pub use problem_details::display_title;
pub use problem_details::display_type_str;
pub use problem_type::ProblemType;
pub use problem_type::UriRef;
pub use problem_type::uri_canon;
pub use problem_type::uri_wf;
pub use status::HttpStatus;
pub use status::reason_of;
pub use status::valid_status;
pub use strutil::dec_str;
pub use strutil::dec_str_signed;
pub use strutil::digit_char;
pub use strutil::i64_to_string;
pub use strutil::u64_to_string;
pub use xml::XmlError;
pub use xml::XmlErrorView;
pub use xml::XmlProblemDetails;
pub use xml::append_escaped;
pub use xml::is_xml_name;
pub use xml::is_xml_name_char;
pub use xml::is_xml_name_start_char;
pub use xml::reserved_xml_children;
pub use xml::spec_xml_body;
pub use xml::spec_xml_document;
pub use xml::xml_declaration;
pub use xml::xml_elem;
pub use xml::xml_escape_char;
pub use xml::xml_escaped;
pub use xml::xml_name_char;
pub use xml::xml_name_ok;
pub use xml::xml_name_start_char;
pub use xml::xml_of_entries;
pub use xml::xml_of_entry;
pub use xml::xml_of_items;
