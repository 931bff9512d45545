use response_transformer::headers::HeaderSet;
use response_transformer::json::JsonValue;
use response_transformer::object::JsonMap;
use response_transformer::response::{on_response_body, on_response_headers, transform_body, BodyAction};
use response_transformer::rules::{Config, Headers, Json, KeyValue};

fn obj(fields: Vec<(&str, JsonValue)>) -> JsonMap {
    let mut m = JsonMap::new();
    for (k, v) in fields {
        m.insert(k.to_string(), v);
    }
    m
}

fn sorted(m: &JsonMap) -> Vec<(String, &JsonValue)> {
    let mut out: Vec<(String, &JsonValue)> =
        m.entries().iter().map(|(k, v)| (k.clone(), v)).collect();
    out.sort_by(|a, b| a.0.cmp(&b.0));
    out
}

fn text(s: &str) -> JsonValue {
    JsonValue::String(s.to_string())
}

fn no_headers() -> Headers {
    Headers {
        remove: vec![],
        rename: vec![],
        replace: vec![],
        add: vec![],
        append: vec![],
    }
}

fn header_set(entries: &[(&str, &str)]) -> HeaderSet {
    HeaderSet::from_entries(
        entries
            .iter()
            .map(|(k, v)| (k.to_string(), v.to_string()))
            .collect(),
    )
}

fn header_entries(h: HeaderSet) -> Vec<(String, String)> {
    h.into_entries()
}

#[test]
fn test_json_transform_remove() {
    let tx = Json {
        remove: vec!["remove_me".to_string()],
        ..Default::default()
    };

    let mut body = obj(vec![("remove_me", text("goodbye")), ("unchanged", JsonValue::Bool(true))]);

    assert!(tx.transform_body(&mut body));

    assert_eq!(sorted(&body), sorted(&obj(vec![("unchanged", JsonValue::Bool(true))])));

    // no more changes
    assert!(!tx.transform_body(&mut body));
}

#[test]
fn test_json_transform_rename() {
    let tx = Json {
        rename: vec![KeyValue::from(("rename_me", "renamed"))],
        ..Default::default()
    };

    let mut body = obj(vec![("rename_me", text("test")), ("unchanged", JsonValue::Bool(true))]);

    assert!(tx.transform_body(&mut body));

    assert_eq!(
        sorted(&body),
        sorted(&obj(vec![("renamed", text("test")), ("unchanged", JsonValue::Bool(true))]))
    );

    // no more changes
    assert!(!tx.transform_body(&mut body));
}

#[test]
fn test_json_transform_replace() {
    let tx = Json {
        replace: vec![("replace_me".to_string(), text("replacement"))],
        ..Default::default()
    };

    let mut body = obj(vec![("replace_me", text("test")), ("unchanged", JsonValue::Bool(true))]);

    assert!(tx.transform_body(&mut body));

    assert_eq!(
        sorted(&body),
        sorted(&obj(vec![("replace_me", text("replacement")), ("unchanged", JsonValue::Bool(true))]))
    );

    // no more changes
    assert!(!tx.transform_body(&mut body));
}

#[test]
fn test_json_transform_add() {
    let tx = Json {
        add: vec![("add_me".to_string(), text("added"))],
        ..Default::default()
    };

    let mut body = obj(vec![("unchanged", JsonValue::Bool(true))]);

    assert!(tx.transform_body(&mut body));

    assert_eq!(
        sorted(&body),
        sorted(&obj(vec![("add_me", text("added")), ("unchanged", JsonValue::Bool(true))]))
    );

    // no more changes
    assert!(!tx.transform_body(&mut body));
}

#[test]
fn test_json_transform_append_absent() {
    let tx = Json {
        append: vec![("append_me".to_string(), text("appended"))],
        ..Default::default()
    };

    let mut body = obj(vec![("unchanged", JsonValue::Bool(true))]);

    assert!(tx.transform_body(&mut body));

    assert_eq!(
        sorted(&body),
        sorted(&obj(vec![
            ("append_me", JsonValue::Array(vec![text("appended")])),
            ("unchanged", JsonValue::Bool(true)),
        ]))
    );
}

#[test]
fn test_json_transform_append_array() {
    let tx = Json {
        append: vec![("append_me".to_string(), text("appended"))],
        ..Default::default()
    };

    let mut body = obj(vec![
        ("append_me", JsonValue::Array(vec![text("current value")])),
        ("unchanged", JsonValue::Bool(true)),
    ]);

    assert!(tx.transform_body(&mut body));

    assert_eq!(
        sorted(&body),
        sorted(&obj(vec![
            ("append_me", JsonValue::Array(vec![text("current value"), text("appended")])),
            ("unchanged", JsonValue::Bool(true)),
        ]))
    );
}

#[test]
fn test_json_transform_append_string() {
    let tx = Json {
        append: vec![("append_me".to_string(), text("appended"))],
        ..Default::default()
    };

    let mut body = obj(vec![("append_me", text("current value")), ("unchanged", JsonValue::Bool(true))]);

    assert!(tx.transform_body(&mut body));

    assert_eq!(
        sorted(&body),
        sorted(&obj(vec![
            ("append_me", JsonValue::Array(vec![text("current value"), text("appended")])),
            ("unchanged", JsonValue::Bool(true)),
        ]))
    );
}

#[test]
fn append_leaves_other_values_alone() {
    let tx = Json {
        append: vec![("n".to_string(), text("appended"))],
        ..Default::default()
    };
    for v in [
        JsonValue::Number("1".to_string()),
        JsonValue::Bool(false),
        JsonValue::Null,
        JsonValue::Object(vec![("a".to_string(), JsonValue::Null)]),
    ] {
        let mut body = obj(vec![("n", v)]);
        assert!(!tx.transform_body(&mut body));
        assert_eq!(body.len(), 1);
    }
    let mut body = obj(vec![("n", JsonValue::Number("1".to_string()))]);
    tx.transform_body(&mut body);
    assert_eq!(body.get("n"), Some(&JsonValue::Number("1".to_string())));
}

#[test]
fn replace_with_same_value_is_no_change() {
    let tx = Json {
        replace: vec![("k".to_string(), text("v"))],
        ..Default::default()
    };
    let mut body = obj(vec![("k", text("v"))]);
    assert!(!tx.transform_body(&mut body));
    let mut absent = obj(vec![("other", text("v"))]);
    assert!(!tx.transform_body(&mut absent));
    assert_eq!(absent.get("k"), None);
}

#[test]
fn rename_overwrites_target() {
    let tx = Json {
        rename: vec![KeyValue::from(("a", "b"))],
        ..Default::default()
    };
    let mut body = obj(vec![("a", text("1")), ("b", text("2"))]);
    assert!(tx.transform_body(&mut body));
    assert_eq!(body.len(), 1);
    assert_eq!(body.get("b"), Some(&text("1")));
}

#[test]
fn json_stages_run_in_order() {
    // remove runs before add, so the field comes back with the added value;
    // add runs before append, so the append extends the added value.
    let tx = Json {
        remove: vec!["f".to_string()],
        add: vec![("f".to_string(), text("added"))],
        append: vec![("f".to_string(), text("more"))],
        ..Default::default()
    };
    let mut body = obj(vec![("f", text("old"))]);
    assert!(tx.transform_body(&mut body));
    assert_eq!(
        body.get("f"),
        Some(&JsonValue::Array(vec![text("added"), text("more")]))
    );
}

#[test]
fn unchanged_body_is_forwarded_as_is() {
    let tx = Json {
        remove: vec!["missing".to_string()],
        ..Default::default()
    };
    let parsed = JsonValue::Object(vec![("a".to_string(), text("1"))]);
    assert!(transform_body(&tx, Some(parsed)).is_none());
    assert!(transform_body(&tx, Some(JsonValue::Array(vec![]))).is_none());
    assert!(transform_body(&tx, None).is_none());
}

#[test]
fn changed_body_is_rewritten() {
    let tx = Json {
        remove: vec!["a".to_string()],
        ..Default::default()
    };
    let parsed = JsonValue::Object(vec![
        ("a".to_string(), text("1")),
        ("b".to_string(), text("2")),
    ]);
    let out = transform_body(&tx, Some(parsed)).expect("rewritten");
    assert_eq!(sorted(&out), sorted(&obj(vec![("b", text("2"))])));
}

#[test]
fn header_pipeline_order() {
    let tx = Headers {
        remove: vec!["x-a".to_string()],
        rename: vec![KeyValue::from(("x-b", "x-a"))],
        replace: vec![KeyValue::from(("x-a", "replaced"))],
        add: vec![KeyValue::from(("x-a", "added")), KeyValue::from(("x-c", "added"))],
        append: vec![KeyValue::from(("x-c", "appended"))],
    };
    let mut headers = header_set(&[("x-a", "1"), ("x-b", "2")]);
    tx.transform_headers(&mut headers);
    assert_eq!(
        header_entries(headers),
        vec![
            ("x-a".to_string(), "replaced".to_string()),
            ("x-c".to_string(), "added".to_string()),
            ("x-c".to_string(), "appended".to_string()),
        ]
    );
}

#[test]
fn header_rules_skip_absent_names() {
    let tx = Headers {
        remove: vec!["gone".to_string()],
        rename: vec![KeyValue::from(("gone", "other"))],
        replace: vec![KeyValue::from(("gone", "v"))],
        ..no_headers()
    };
    let mut headers = header_set(&[("keep", "1")]);
    tx.transform_headers(&mut headers);
    assert_eq!(header_entries(headers), vec![("keep".to_string(), "1".to_string())]);
}

#[test]
fn header_names_match_in_any_case() {
    let tx = Headers {
        remove: vec!["X-Drop".to_string()],
        add: vec![KeyValue::from(("Content-Type", "text/plain"))],
        ..no_headers()
    };
    let mut headers = header_set(&[("x-drop", "1"), ("content-type", "application/json")]);
    tx.transform_headers(&mut headers);
    assert_eq!(
        header_entries(headers),
        vec![("content-type".to_string(), "application/json".to_string())]
    );
}

#[test]
fn json_response_loses_content_length() {
    let config = Config {
        headers: None,
        json: Some(Json {
            remove: vec!["a".to_string()],
            ..Default::default()
        }),
    };
    let mut headers = header_set(&[("content-type", "application/json"), ("content-length", "10")]);
    on_response_headers(&config, &mut headers);
    assert_eq!(
        header_entries(headers),
        vec![("content-type".to_string(), "application/json".to_string())]
    );

    let mut plain = header_set(&[("content-type", "text/plain"), ("content-length", "10")]);
    on_response_headers(&config, &mut plain);
    assert_eq!(header_entries(plain).len(), 2);
}

#[test]
fn body_event_decisions() {
    let with_json = Config {
        headers: None,
        json: Some(Json::default()),
    };
    let without_json = Config {
        headers: Some(no_headers()),
        json: None,
    };
    assert_eq!(on_response_body(&without_json, true, true), BodyAction::Continue);
    assert_eq!(on_response_body(&with_json, false, true), BodyAction::Continue);
    assert_eq!(on_response_body(&with_json, true, false), BodyAction::Pause);
    assert_eq!(on_response_body(&with_json, true, true), BodyAction::Transform);
}
