//! JSON values and the order of settings.

use henka::json::Json;
use henka::json::Number;
use henka::json::Object;

#[test]
fn objects_hold_each_key_once() {
    let object = Object::new().with("a", Json::number(1)).with("b", Json::Null).with("a", Json::text("x"));
    assert_eq!(object.keys().len(), 2);
    assert_eq!(object.get("a").and_then(Json::as_str), Some("x"));
    assert!(object.contains_key("b"));
    let object = object.without("b").without("c");
    assert_eq!(object.keys(), vec!["a".to_string()]);
    assert!(object.get("b").is_none());
}

#[test]
fn values_are_read_by_their_kind() {
    let inner = Object::new().with("n", Json::number(7)).with("t", Json::Bool(true)).with("s", Json::text("x"));
    let value = Json::Object(inner.with("l", Json::List(vec![Json::Null])));
    assert_eq!(value.u64_at("n"), Some(7));
    assert_eq!(value.bool_at("t"), Some(true));
    assert_eq!(value.str_at("s"), Some("x"));
    assert_eq!(value.array_at("l").map(Vec::len), Some(1));
    assert_eq!(value.str_at("n"), None);
    assert!(value.is_object() && !value.is_null());
    assert_eq!(Json::Number(Number::Negative(-1)).as_u64(), None);
    assert_eq!(Json::Number(Number::Decimal("1.5".to_string())).as_u64(), None);
    assert_eq!(Json::text_or_null(&None).as_str(), None);
    assert_eq!(value.clone().u64_at("n"), Some(7));
}
