use problem_details::Extensions;
use problem_details::HttpStatus;
use problem_details::JsonValue;
use problem_details::ProblemDetails;
use problem_details::ProblemType;
use problem_details::UriRef;

fn status(code: u16) -> HttpStatus {
    HttpStatus::from_u16(code).unwrap()
}

fn uri(s: &str) -> UriRef {
    UriRef::parse(s).unwrap()
}

#[test]
fn from_status() {
    let details = ProblemDetails::from_status_code(status(404));

    assert_eq!(
        details.problem_type.clone().unwrap_or_default(),
        ProblemType::from_uri(uri("about:blank"))
    );
    assert_eq!(details.status, Some(status(404)));
    assert_eq!(details.title, Some("Not Found".to_string()));
    assert_eq!(details.detail, None);
    assert_eq!(details.instance, None);
    assert_eq!(details.extensions, JsonValue::Obj(Vec::new()));
}

#[test]
fn fully_configured() {
    let details = ProblemDetails::new()
        .with_type(ProblemType::from_uri(uri("test:type")))
        .with_status(status(500))
        .with_title("Test Title")
        .with_detail("Test Detail")
        .with_instance(uri("test:instance"))
        .with_extensions(JsonValue::Obj(vec![
            ("foo".to_string(), JsonValue::Str("Foo".to_string())),
            ("bar".to_string(), JsonValue::Int(42)),
        ]));

    assert_eq!(
        details.problem_type,
        Some(ProblemType::from_uri(uri("test:type")))
    );
    assert_eq!(details.status, Some(status(500)));
    assert_eq!(details.title, Some("Test Title".to_string()));
    assert_eq!(details.detail, Some("Test Detail".to_string()));
    assert_eq!(details.instance, Some(uri("test:instance")));
    assert_eq!(
        details.extensions,
        JsonValue::Obj(vec![
            ("foo".to_string(), JsonValue::Str("Foo".to_string())),
            ("bar".to_string(), JsonValue::Int(42)),
        ])
    );
}

#[test]
fn to_string() {
    let empty = ProblemDetails::new();

    let type_only = ProblemDetails::new().with_type(ProblemType::from_uri(uri("test:type")));
    let status_only = ProblemDetails::new().with_status(status(404));
    let title_only = ProblemDetails::new().with_title("Test Title");
    let detail_only = ProblemDetails::new().with_detail("Test Detail");

    let type_status = ProblemDetails::new()
        .with_type(ProblemType::from_uri(uri("test:type")))
        .with_status(status(404));
    let type_title = ProblemDetails::new()
        .with_type(ProblemType::from_uri(uri("test:type")))
        .with_title("Test Title");
    let type_detail = ProblemDetails::new()
        .with_type(ProblemType::from_uri(uri("test:type")))
        .with_detail("Test Detail");
    let status_title = ProblemDetails::new()
        .with_status(status(404))
        .with_title("Test Title");
    let status_detail = ProblemDetails::new()
        .with_status(status(404))
        .with_detail("Test Detail");
    let title_detail = ProblemDetails::new()
        .with_title("Test Title")
        .with_detail("Test Detail");

    let type_status_title = ProblemDetails::new()
        .with_type(ProblemType::from_uri(uri("test:type")))
        .with_status(status(404))
        .with_title("Test Title");
    let type_status_detail = ProblemDetails::new()
        .with_type(ProblemType::from_uri(uri("test:type")))
        .with_status(status(404))
        .with_detail("Test Detail");
    let type_title_detail = ProblemDetails::new()
        .with_type(ProblemType::from_uri(uri("test:type")))
        .with_title("Test Title")
        .with_detail("Test Detail");
    let status_title_detail = ProblemDetails::new()
        .with_status(status(404))
        .with_title("Test Title")
        .with_detail("Test Detail");

    let full = ProblemDetails::new()
        .with_type(ProblemType::from_uri(uri("test:type")))
        .with_status(status(404))
        .with_title("Test Title")
        .with_detail("Test Detail");

    assert_eq!("[about:blank]", empty.to_display_string());

    assert_eq!("[test:type]", type_only.to_display_string());
    assert_eq!("[about:blank 404] Not Found", status_only.to_display_string());
    assert_eq!("[about:blank] Test Title", title_only.to_display_string());
    assert_eq!("[about:blank] Test Detail", detail_only.to_display_string());

    assert_eq!("[test:type 404] Not Found", type_status.to_display_string());
    assert_eq!("[test:type] Test Title", type_title.to_display_string());
    assert_eq!("[test:type] Test Detail", type_detail.to_display_string());
    assert_eq!("[about:blank 404] Test Title", status_title.to_display_string());
    assert_eq!(
        "[about:blank 404] Not Found: Test Detail",
        status_detail.to_display_string()
    );
    assert_eq!(
        "[about:blank] Test Title: Test Detail",
        title_detail.to_display_string()
    );

    assert_eq!("[test:type 404] Test Title", type_status_title.to_display_string());
    assert_eq!(
        "[test:type 404] Not Found: Test Detail",
        type_status_detail.to_display_string()
    );
    assert_eq!(
        "[test:type] Test Title: Test Detail",
        type_title_detail.to_display_string()
    );
    assert_eq!(
        "[about:blank 404] Test Title: Test Detail",
        status_title_detail.to_display_string()
    );

    assert_eq!("[test:type 404] Test Title: Test Detail", full.to_display_string());
}

#[test]
fn default_type_is_about_blank() {
    assert_eq!(ProblemType::default().as_str(), "about:blank");
    assert_eq!(UriRef::about_blank().as_str(), "about:blank");
}

#[test]
fn status_code_accessor_falls_back_to_500() {
    let with = ProblemDetails::new().with_status(status(404));
    let without = ProblemDetails::new();
    assert_eq!(with.status_code().as_u16(), 404);
    assert_eq!(without.status_code().as_u16(), 500);
}

#[test]
fn status_range_is_checked() {
    assert!(HttpStatus::from_u16(99).is_none());
    assert!(HttpStatus::from_u16(100).is_some());
    assert!(HttpStatus::from_u16(599).is_some());
    assert!(HttpStatus::from_u16(600).is_none());
    assert!(HttpStatus::from_u16(700).is_none());
}

#[test]
fn empty_extensions_payload() {
    let details = ProblemDetails::new().with_extensions(Extensions::new().to_json_value());
    assert_eq!(details.extensions, JsonValue::Obj(Vec::new()));
    assert_eq!(Extensions::new(), Extensions::default());
}
