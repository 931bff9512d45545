use response_transformer::json::JsonValue;
use response_transformer::rules::{Cast, Config, ConfigInput, InvalidKeyValue, KeyValue};

#[test]
fn test_header_try_from_valid() {
    assert_eq!(Ok(KeyValue::from(("a", "b"))), KeyValue::try_from("a:b"));
}

#[test]
fn test_header_try_from_invalid() {
    assert_eq!(
        Err(InvalidKeyValue("a".to_string())),
        KeyValue::try_from("a")
    );
    assert_eq!(
        Err(InvalidKeyValue("a:".to_string())),
        KeyValue::try_from("a:")
    );
    assert_eq!(
        Err(InvalidKeyValue(":b".to_string())),
        KeyValue::try_from(":b")
    );
}

#[test]
fn parse_splits_at_first_colon() {
    assert_eq!(
        Ok(KeyValue::from(("a", "b:c"))),
        KeyValue::try_from("a:b:c")
    );
    assert_eq!(Ok(KeyValue::from(("a", ":"))), KeyValue::try_from("a::"));
    assert_eq!(
        Err(InvalidKeyValue("::b".to_string())),
        KeyValue::try_from("::b")
    );
    assert_eq!(
        Err(InvalidKeyValue("".to_string())),
        KeyValue::try_from("")
    );
    assert_eq!(
        Ok(KeyValue::from(("é", "ü"))),
        KeyValue::try_from("é:ü")
    );
}

#[test]
fn cast_string_keeps_text() {
    assert_eq!(
        Cast::String.convert("12".to_string()),
        JsonValue::String("12".to_string())
    );
}

#[test]
fn cast_number_reads_numbers() {
    assert_eq!(
        Cast::Number.convert("12".to_string()),
        JsonValue::Number("12".to_string())
    );
    assert_eq!(
        Cast::Number.convert("-3".to_string()),
        JsonValue::Number("-3".to_string())
    );
    assert_eq!(
        Cast::Number.convert("1.5".to_string()),
        JsonValue::Number("1.5".to_string())
    );
    assert_eq!(
        Cast::Number.convert("1.50".to_string()),
        JsonValue::Number("1.5".to_string())
    );
    assert_eq!(
        Cast::Number.convert("12abc".to_string()),
        JsonValue::String("12abc".to_string())
    );
    assert_eq!(
        Cast::Number.convert("twelve".to_string()),
        JsonValue::String("twelve".to_string())
    );
}

#[test]
fn cast_boolean_reads_true_and_false() {
    assert_eq!(Cast::Boolean.convert("true".to_string()), JsonValue::Bool(true));
    assert_eq!(Cast::Boolean.convert("false".to_string()), JsonValue::Bool(false));
    assert_eq!(
        Cast::Boolean.convert("TRUE".to_string()),
        JsonValue::String("TRUE".to_string())
    );
}

#[test]
fn resolve_empty_config_has_no_rule_sets() {
    let config = Config::from(ConfigInput::default());
    assert!(config.headers.is_none());
    assert!(config.json.is_none());
}

#[test]
fn resolve_header_only_config() {
    let mut input = ConfigInput::default();
    input.remove.headers.push("x-drop".to_string());
    let config = Config::from(input);
    let headers = config.headers.expect("header rules");
    assert_eq!(headers.remove, vec!["x-drop".to_string()]);
    assert!(config.json.is_none());
}

#[test]
fn resolve_casts_json_values_by_position() {
    let mut input = ConfigInput::default();
    input.add.json.push(KeyValue::from(("n", "7")));
    input.add.json.push(KeyValue::from(("b", "true")));
    input.add.json.push(KeyValue::from(("s", "7")));
    input.add.json_types.push(Cast::Number);
    input.add.json_types.push(Cast::Boolean);
    let config = Config::from(input);
    assert!(config.headers.is_none());
    let json = config.json.expect("json rules");
    assert_eq!(
        json.add,
        vec![
            ("n".to_string(), JsonValue::Number("7".to_string())),
            ("b".to_string(), JsonValue::Bool(true)),
            ("s".to_string(), JsonValue::String("7".to_string())),
        ]
    );
}
