use problem_details::DecodeError;
use problem_details::HttpStatus;
use problem_details::JsonError;
use problem_details::JsonProblemDetails;
use problem_details::JsonValue;
use problem_details::ProblemDetails;
use problem_details::ProblemType;
use problem_details::UriRef;
use problem_details::XmlError;
use problem_details::XmlProblemDetails;

fn status(code: u16) -> HttpStatus {
    HttpStatus::from_u16(code).unwrap()
}

fn uri(s: &str) -> UriRef {
    UriRef::parse(s).unwrap()
}

fn filled() -> ProblemDetails {
    ProblemDetails::new()
        .with_type(ProblemType::from_uri(uri("test:type")))
        .with_status(status(500))
        .with_title("Test Title")
        .with_detail("Test Detail")
        .with_instance(uri("test:instance"))
        .with_extensions(JsonValue::Obj(vec![
            ("foo".to_string(), JsonValue::Str("Foo".to_string())),
            ("bar".to_string(), JsonValue::Int(42)),
        ]))
}

fn expected_filled_value() -> serde_json::Value {
    let mut map = serde_json::Map::new();
    map.insert(
        "type".to_string(),
        serde_json::Value::String("test:type".to_string()),
    );
    map.insert(
        "status".to_string(),
        serde_json::Value::Number(serde_json::Number::from(500i64)),
    );
    map.insert(
        "title".to_string(),
        serde_json::Value::String("Test Title".to_string()),
    );
    map.insert(
        "detail".to_string(),
        serde_json::Value::String("Test Detail".to_string()),
    );
    map.insert(
        "instance".to_string(),
        serde_json::Value::String("test:instance".to_string()),
    );
    map.insert(
        "foo".to_string(),
        serde_json::Value::String("Foo".to_string()),
    );
    map.insert(
        "bar".to_string(),
        serde_json::Value::Number(serde_json::Number::from(42i64)),
    );
    serde_json::Value::Object(map)
}

#[test]
fn serialize_empty() {
    let body = JsonProblemDetails::new(ProblemDetails::new())
        .to_body_string()
        .unwrap();

    let serialized: serde_json::Value = serde_json::from_str(&body).unwrap();

    let expected = serde_json::Value::Object(serde_json::Map::new());

    assert_eq!(expected, serialized);
}

#[test]
fn serialize_empty_exact_text() {
    let body = JsonProblemDetails::new(ProblemDetails::new())
        .to_body_string()
        .unwrap();
    assert_eq!(body, "{}");
}

#[test]
fn serialize_filled() {
    let body = JsonProblemDetails::new(filled()).to_body_string().unwrap();

    let serialized: serde_json::Value = serde_json::from_str(&body).unwrap();

    assert_eq!(expected_filled_value(), serialized);
}

#[test]
fn deserialize_empty() {
    let deserialized = ProblemDetails::from_json_str("{}").unwrap();

    let expected = ProblemDetails::new();

    assert_eq!(expected, deserialized);
}

#[test]
fn deserialize_filled() {
    let filled_text = "{\"type\":\"test:type\",\"status\":500,\"title\":\"Test Title\",\"detail\":\"Test Detail\",\"instance\":\"test:instance\",\"foo\":\"Foo\",\"bar\":42}";

    let deserialized = ProblemDetails::from_json_str(filled_text).unwrap();

    // The backing JSON reader hands object entries over in sorted key
    // order, so the decoded extension object lists `bar` before `foo`.
    let expected = ProblemDetails::new()
        .with_type(ProblemType::from_uri(uri("test:type")))
        .with_status(status(500))
        .with_title("Test Title")
        .with_detail("Test Detail")
        .with_instance(uri("test:instance"))
        .with_extensions(JsonValue::Obj(vec![
            ("bar".to_string(), JsonValue::Int(42)),
            ("foo".to_string(), JsonValue::Str("Foo".to_string())),
        ]));

    assert_eq!(expected, deserialized);
}

#[test]
fn json_value_round_trip() {
    let details = filled();
    let encoded = details.to_json_value().unwrap();
    let decoded = ProblemDetails::from_json_value(&encoded).unwrap();
    assert_eq!(details, decoded);
}

#[test]
fn json_text_round_trip_sorted_extensions() {
    let details = ProblemDetails::new()
        .with_status(status(404))
        .with_title("Not Found")
        .with_extensions(JsonValue::Obj(vec![
            ("bar".to_string(), JsonValue::Int(42)),
            ("foo".to_string(), JsonValue::Str("Foo".to_string())),
        ]));
    let body = JsonProblemDetails::new(details.clone())
        .to_body_string()
        .unwrap();
    let decoded = ProblemDetails::from_json_str(&body).unwrap();
    assert_eq!(details, decoded);
}

#[test]
fn decode_rejects_status_700() {
    let decoded = ProblemDetails::from_json_str("{\"status\":700}");
    assert_eq!(
        decoded,
        Err(DecodeError::InvalidStatus(JsonValue::Int(700)))
    );
}

#[test]
fn decode_rejects_non_integer_status() {
    let decoded = ProblemDetails::from_json_str("{\"status\":\"500\"}");
    assert_eq!(
        decoded,
        Err(DecodeError::InvalidStatus(JsonValue::Str(
            "500".to_string()
        )))
    );
}

#[test]
fn decode_rejects_malformed_uri() {
    let decoded = ProblemDetails::from_json_str("{\"type\":\"not a uri\"}");
    assert_eq!(
        decoded,
        Err(DecodeError::InvalidUri(JsonValue::Str(
            "not a uri".to_string()
        )))
    );

    let decoded = ProblemDetails::from_json_str("{\"instance\":\"not a uri\"}");
    assert_eq!(
        decoded,
        Err(DecodeError::InvalidUri(JsonValue::Str(
            "not a uri".to_string()
        )))
    );
}

#[test]
fn decode_rejects_non_object() {
    let decoded = ProblemDetails::from_json_str("[1,2]");
    assert_eq!(decoded, Err(DecodeError::NotAnObject));
}

#[test]
fn decode_rejects_invalid_json() {
    let decoded = ProblemDetails::from_json_str("{not json");
    assert_eq!(decoded, Err(DecodeError::InvalidJson));
}

#[test]
fn decode_rejects_non_string_title() {
    let decoded = ProblemDetails::from_json_str("{\"title\":7}");
    assert_eq!(
        decoded,
        Err(DecodeError::InvalidString(JsonValue::Int(7)))
    );
}

#[test]
fn unknown_keys_go_to_extensions() {
    let decoded = ProblemDetails::from_json_str("{\"zzz\":null}").unwrap();
    assert_eq!(
        decoded.extensions,
        JsonValue::Obj(vec![("zzz".to_string(), JsonValue::Null)])
    );
}

#[test]
fn encode_rejects_scalar_extensions() {
    let details = ProblemDetails::new().with_extensions(JsonValue::Int(3));
    let result = JsonProblemDetails::new(details).to_body_string();
    assert!(matches!(result, Err(JsonError::ExtensionsNotAnObject)));
}

#[test]
fn json_error_message() {
    assert_eq!(
        JsonError::ExtensionsNotAnObject.message(),
        "Could not write body: extensions are not an object"
    );
}

#[test]
fn xml_empty() {
    let body = XmlProblemDetails::new(ProblemDetails::new())
        .to_body_string()
        .unwrap();
    assert_eq!(
        body,
        "<?xml version=\"1.0\" encoding=\"UTF-8\"?><problem></problem>"
    );
}

#[test]
fn xml_filled() {
    let body = XmlProblemDetails::new(filled()).to_body_string().unwrap();
    assert_eq!(
        body,
        "<?xml version=\"1.0\" encoding=\"UTF-8\"?><problem><type>test:type</type><status>500</status><title>Test Title</title><detail>Test Detail</detail><instance>test:instance</instance><foo>Foo</foo><bar>42</bar></problem>"
    );
}

#[test]
fn xml_escapes_markup() {
    let details = ProblemDetails::new().with_title("a<b&c>\"d'");
    let body = XmlProblemDetails::new(details).to_body_string().unwrap();
    assert_eq!(
        body,
        "<?xml version=\"1.0\" encoding=\"UTF-8\"?><problem><title>a&lt;b&amp;c&gt;&quot;d&apos;</title></problem>"
    );
}

#[test]
fn xml_extension_shapes() {
    let details = ProblemDetails::new().with_extensions(JsonValue::Obj(vec![
        ("flag".to_string(), JsonValue::Bool(true)),
        ("n".to_string(), JsonValue::Int(-5)),
        ("nothing".to_string(), JsonValue::Null),
        (
            "list".to_string(),
            JsonValue::Arr(vec![JsonValue::Int(1), JsonValue::Int(2)]),
        ),
        (
            "nested".to_string(),
            JsonValue::Obj(vec![("x".to_string(), JsonValue::Int(9))]),
        ),
    ]));
    let body = XmlProblemDetails::new(details).to_body_string().unwrap();
    assert_eq!(
        body,
        "<?xml version=\"1.0\" encoding=\"UTF-8\"?><problem><flag>true</flag><n>-5</n><nothing></nothing><list>1</list><list>2</list><nested><x>9</x></nested></problem>"
    );
}

#[test]
fn xml_rejects_invalid_element_name() {
    let details = ProblemDetails::new().with_extensions(JsonValue::Obj(vec![(
        "bad name".to_string(),
        JsonValue::Int(1),
    )]));
    let result = XmlProblemDetails::new(details).to_body_string();
    assert_eq!(
        result,
        Err(XmlError::InvalidElementName("bad name".to_string()))
    );
}

#[test]
fn xml_rejects_scalar_extensions() {
    let details = ProblemDetails::new().with_extensions(JsonValue::Str("x".to_string()));
    let result = XmlProblemDetails::new(details).to_body_string();
    assert_eq!(result, Err(XmlError::ExtensionsNotAnObject));
}

#[test]
fn xml_error_message() {
    assert_eq!(
        XmlError::ExtensionsNotAnObject.message(),
        "Could not write body: extensions are not an object"
    );
    assert_eq!(
        XmlError::InvalidElementName("x y".to_string()).message(),
        "Could not write body: invalid element name: x y"
    );
}

#[test]
fn content_types() {
    assert_eq!(JsonProblemDetails::CONTENT_TYPE, "application/problem+json");
    assert_eq!(XmlProblemDetails::CONTENT_TYPE, "application/problem+xml");
}

#[test]
fn json_flattening() {
    let details = ProblemDetails::new()
        .with_title("Test Title")
        .with_status(status(500))
        .with_extensions(JsonValue::Obj(vec![
            ("foo".to_string(), JsonValue::Str("Foo".to_string())),
            ("bar".to_string(), JsonValue::Int(42)),
        ]));
    let body = JsonProblemDetails::new(details).to_body_string().unwrap();
    let serialized: serde_json::Value = serde_json::from_str(&body).unwrap();

    let mut map = serde_json::Map::new();
    map.insert(
        "status".to_string(),
        serde_json::Value::Number(serde_json::Number::from(500i64)),
    );
    map.insert(
        "title".to_string(),
        serde_json::Value::String("Test Title".to_string()),
    );
    map.insert(
        "foo".to_string(),
        serde_json::Value::String("Foo".to_string()),
    );
    map.insert(
        "bar".to_string(),
        serde_json::Value::Number(serde_json::Number::from(42i64)),
    );
    assert_eq!(serde_json::Value::Object(map), serialized);
}

#[test]
fn uri_parse_canonicalizes() {
    let parsed = UriRef::parse("HTTP://example.com/problem").unwrap();
    assert_eq!(parsed.as_str(), "http://example.com/problem");
}

#[test]
fn uri_parse_rejects_malformed() {
    assert!(UriRef::parse("not a uri").is_none());
    assert!(UriRef::parse("").is_none());
    assert!(UriRef::parse("test:type").is_some());
    assert!(UriRef::parse("https://example.com/problem").is_some());
}
