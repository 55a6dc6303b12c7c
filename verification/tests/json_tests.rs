use bevy_remote::error_codes::INVALID_PARAMS;
use bevy_remote::json::{
    deserialize_reflect_result, deserialize_result, invalid_json_error, not_formed_error, Json,
};
use bevy_remote::json_value::{JsonObject, JsonValue};
use bevy_remote::params::nullable;
use bevy_remote::text::{clean_docs, decimal_string, is_whitespace, starts_with, str_eq, trim_str};

fn s(text: &str) -> String {
    text.to_string()
}

fn string(value: &JsonValue) -> &str {
    match value {
        JsonValue::String(text) => text.as_str(),
        other => panic!("not a string: {:?}", other),
    }
}

#[test]
fn clean_docs_trims_each_line_and_the_whole() {
    assert_eq!(clean_docs("  first line  \n   second\r\n\n"), "first line\nsecond");
    assert_eq!(clean_docs(" Very good user-facing description"), "Very good user-facing description");
    assert_eq!(clean_docs("\n\n  x \n\n"), "x");
    assert_eq!(clean_docs("a\n\n b"), "a\n\nb");
    assert_eq!(clean_docs(""), "");
    assert_eq!(clean_docs(" \t\n \u{3000}"), "");
    assert_eq!(clean_docs("one\r\ntwo\rthree"), "one\ntwo\rthree");
    assert_eq!(clean_docs("last\r"), "last");
}

#[test]
fn clean_docs_is_stable() {
    for docs in ["  a \n b  \n", "x", "\n y\n\n z\n", ""] {
        let once = clean_docs(docs);
        assert_eq!(clean_docs(&once), once);
    }
}

#[test]
fn text_helpers() {
    assert_eq!(trim_str("  a b \u{a0}"), "a b");
    assert!(is_whitespace('\u{2029}'));
    assert!(!is_whitespace('x'));
    assert!(starts_with("core::option::Option<u8>", "core::option::Option<"));
    assert!(!starts_with("core", "core::option"));
    assert!(str_eq("abc", "abc"));
    assert!(!str_eq("abc", "abd"));
}

#[test]
fn decimal_text_of_numbers() {
    assert_eq!(decimal_string(0), "0");
    assert_eq!(decimal_string(7), "7");
    assert_eq!(decimal_string(1234), "1234");
    assert_eq!(decimal_string(u64::MAX), u64::MAX.to_string());
}

#[test]
fn objects_insert_replace_and_remove() {
    let mut object = JsonObject::new();
    object.insert(s("a"), JsonValue::Bool(true));
    object.insert(s("b"), JsonValue::Null);
    object.insert(s("a"), JsonValue::Bool(false));
    assert_eq!(object.entries().len(), 2);
    assert!(matches!(object.get("a"), Some(JsonValue::Bool(false))));
    assert!(object.get("c").is_none());
    assert!(matches!(object.remove("b"), Some(JsonValue::Null)));
    assert!(object.remove("b").is_none());
    assert_eq!(object.entries().len(), 1);

    let mut other = JsonObject::new();
    other.insert(s("a"), JsonValue::String(s("over")));
    other.insert(s("c"), JsonValue::Number(s("1.5")));
    object.extend(other);
    assert_eq!(object.entries().len(), 2);
    assert_eq!(string(object.get("a").unwrap()), "over");
    assert!(matches!(object.get("c"), Some(JsonValue::Number(n)) if n == "1.5"));
}

#[test]
fn nullable_adds_null() {
    let mut typed = JsonObject::new();
    typed.insert(s("type"), JsonValue::String(s("integer")));
    match nullable(JsonValue::Object(typed)) {
        JsonValue::Object(o) => match o.get("type") {
            Some(JsonValue::Array(items)) => {
                assert_eq!(items.len(), 2);
                assert_eq!(string(&items[0]), "integer");
                assert_eq!(string(&items[1]), "null");
            }
            other => panic!("unexpected {:?}", other),
        },
        other => panic!("unexpected {:?}", other),
    }

    let mut one_of = JsonObject::new();
    one_of.insert(s("oneOf"), JsonValue::Array(vec![JsonValue::Null]));
    match nullable(JsonValue::Object(one_of)) {
        JsonValue::Object(o) => match o.get("oneOf") {
            Some(JsonValue::Array(items)) => assert_eq!(items.len(), 2),
            other => panic!("unexpected {:?}", other),
        },
        other => panic!("unexpected {:?}", other),
    }

    let mut plain = JsonObject::new();
    plain.insert(s("typePath"), JsonValue::String(s("my::Any")));
    match nullable(JsonValue::Object(plain)) {
        JsonValue::Object(o) => assert_eq!(o.entries().len(), 1),
        other => panic!("unexpected {:?}", other),
    }
    assert!(matches!(nullable(JsonValue::Bool(true)), JsonValue::Bool(true)));
}

#[test]
fn json_converts_both_ways() {
    let json = Json::from(JsonValue::String(s("x")));
    let value: JsonValue = json.into();
    assert_eq!(string(&value), "x");
}

#[test]
fn deserialize_errors_are_invalid_params() {
    let err = invalid_json_error("my::Point", "invalid type: string \"one\"");
    assert_eq!(err.code, INVALID_PARAMS);
    assert_eq!(err.code, -32602);
    assert_eq!(err.message, "my::Point is invalid: invalid type: string \"one\"");
    assert!(err.data.is_none());

    let err = not_formed_error("my::Point");
    assert_eq!(err.code, INVALID_PARAMS);
    assert_eq!(err.message, "JSON does not form a `my::Point`");

    assert_eq!(deserialize_reflect_result(Ok::<u8, String>(3), "u8").unwrap(), 3);
    let err = deserialize_reflect_result(Err::<u8, String>(s("bad")), "u8").unwrap_err();
    assert_eq!(err.message, "u8 is invalid: bad");
    assert_eq!(deserialize_result(Ok(Some(5u8)), "u8").unwrap(), 5);
    let err = deserialize_result(Ok(None::<u8>), "u8").unwrap_err();
    assert_eq!(err.code, INVALID_PARAMS);
    assert_eq!(err.message, "JSON does not form a `u8`");
    // An error of the deserialization itself is passed on unchanged.
    let first = deserialize_reflect_result(Err::<Option<u8>, String>(s("bad")), "u8").unwrap_err();
    let err = deserialize_result(Err::<Option<u8>, _>(first), "my::Point").unwrap_err();
    assert_eq!(err.message, "u8 is invalid: bad");
}

fn object_of(pairs: Vec<(&str, JsonValue)>) -> JsonValue {
    let mut object = JsonObject::new();
    for (key, value) in pairs {
        object.insert(s(key), value);
    }
    JsonValue::Object(object)
}

#[test]
fn equality_compares_objects_as_maps() {
    let a = object_of(vec![
        ("x", JsonValue::Number(s("1"))),
        ("y", JsonValue::Array(vec![JsonValue::Null, JsonValue::Bool(true)])),
    ]);
    let b = object_of(vec![
        ("y", JsonValue::Array(vec![JsonValue::Null, JsonValue::Bool(true)])),
        ("x", JsonValue::Number(s("1"))),
    ]);
    assert_eq!(a, b);
    let c = object_of(vec![("x", JsonValue::Number(s("1")))]);
    assert_ne!(a, c);
    let d = object_of(vec![
        ("x", JsonValue::Number(s("2"))),
        ("y", JsonValue::Array(vec![JsonValue::Null, JsonValue::Bool(true)])),
    ]);
    assert_ne!(a, d);
    assert_ne!(
        JsonValue::Array(vec![JsonValue::Null]),
        JsonValue::Array(vec![JsonValue::Null, JsonValue::Null])
    );
    assert_ne!(JsonValue::String(s("1")), JsonValue::Number(s("1")));
}

#[test]
fn numbers_compare_by_value() {
    assert_eq!(Json(JsonValue::Number(s("-0.0"))), Json(JsonValue::Number(s("0.0"))));
    assert_eq!(JsonValue::Number(s("1e0")), JsonValue::Number(s("1.0")));
    assert_eq!(JsonValue::Number(s("10")), JsonValue::Number(s("10")));
    assert_ne!(JsonValue::Number(s("1")), JsonValue::Number(s("1.0")));
    assert_ne!(JsonValue::Number(s("1")), JsonValue::Number(s("2")));
    assert_ne!(JsonValue::Number(s("one")), JsonValue::Number(s("one")));
}

#[test]
fn clone_and_default() {
    let a = object_of(vec![
        ("k", JsonValue::String(s("v"))),
        ("n", object_of(vec![("inner", JsonValue::Bool(false))])),
    ]);
    assert_eq!(a.clone(), a);
    let json = Json(a.clone());
    assert_eq!(json.clone(), json);
    assert_eq!(Json::default(), Json(JsonValue::Null));
}
