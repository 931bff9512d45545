use response_transformer::media::{is_json_mime_type, MediaType};

#[test]
fn test_json_mime_type_detection() {
    assert!(is_json_mime_type("application/json"));
    assert!(is_json_mime_type("APPLICATION/json"));
    assert!(is_json_mime_type("APPLICATION/JSON"));
    assert!(is_json_mime_type("application/JSON"));
    assert!(is_json_mime_type("application/json; charset=utf-8"));
    assert!(is_json_mime_type("application/problem+json"));
    assert!(is_json_mime_type("application/problem+JSON"));
    assert!(is_json_mime_type("application/problem+json; charset=utf-8"));

    assert!(!is_json_mime_type("text/plain"));
    assert!(!is_json_mime_type("application/not-json"));
    assert!(!is_json_mime_type("nope/json"));
}

#[test]
fn malformed_content_type_is_not_json() {
    assert!(!is_json_mime_type(""));
    assert!(!is_json_mime_type("json"));
}

#[test]
fn media_type_parts_decide_json() {
    let m = MediaType {
        type_: "Application".to_string(),
        subtype: "vnd.api".to_string(),
        suffix: Some("Json".to_string()),
    };
    assert!(m.is_json());
    let m = MediaType {
        type_: "text".to_string(),
        subtype: "json".to_string(),
        suffix: None,
    };
    assert!(!m.is_json());
}
