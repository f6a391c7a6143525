use orcus_api::json::object;
use orcus_api::json::set_key;
use orcus_api::json::Json;
use orcus_api::json::JsonNumber;

fn pair(key: &str, n: u64) -> (String, Json) {
    (key.to_string(), Json::Number(JsonNumber::Unsigned(n)))
}

#[test]
fn numbers_are_read_by_their_kind() {
    assert_eq!(Json::parse("5"), Some(Json::Number(JsonNumber::Unsigned(5))));
    assert_eq!(Json::parse("-5"), Some(Json::Number(JsonNumber::Negative(-5))));
    assert!(matches!(Json::parse("1.5"), Some(Json::Number(JsonNumber::Float(_)))));
    assert!(matches!(
        Json::parse("18446744073709551616"),
        Some(Json::Number(JsonNumber::Float(_)))
    ));
    assert_eq!(Json::parse("5").unwrap().as_i64(), Some(5));
    assert_eq!(Json::parse("18446744073709551615").unwrap().as_i64(), None);
    assert_eq!(Json::parse("-5").unwrap().as_u64(), None);
    assert_eq!(Json::parse("1.5").unwrap().as_u64(), None);
}

#[test]
fn text_that_is_not_json_is_refused() {
    assert_eq!(Json::parse("hello"), None);
    assert_eq!(Json::parse(""), None);
    assert_eq!(Json::parse("{\"a\":}"), None);
}

#[test]
fn the_last_pair_with_a_key_counts() {
    let o = object(vec![pair("b", 1), pair("a", 2), pair("b", 3)]);
    assert_eq!(o, Json::Object(vec![pair("a", 2), pair("b", 3)]));
    assert_eq!(o.to_text(), "{\"a\":2,\"b\":3}");
    assert_eq!(o.get("b").unwrap().as_u64(), Some(3));
    assert_eq!(o.get("c"), None);
    assert_eq!(Json::Null.get("b"), None);
}

#[test]
fn keys_are_set_in_order() {
    let mut pairs = vec![pair("a", 1), pair("c", 3)];
    set_key(&mut pairs, "b".to_string(), Json::Null);
    set_key(&mut pairs, "d".to_string(), Json::Bool(true));
    set_key(&mut pairs, "a".to_string(), Json::Bool(false));
    assert_eq!(
        Json::Object(pairs).to_text(),
        "{\"a\":false,\"b\":null,\"c\":3,\"d\":true}"
    );
}

#[test]
fn values_pass_through_serde_json() {
    let text = "{\"a\":[1,-2,2.5,\"x\",null,true],\"b\":{\"c\":{}}}";
    let j = Json::parse(text).unwrap();
    assert_eq!(j.to_text(), text);
    assert_eq!(j.copy(), j);
    assert_eq!(Json::from_value(j.to_value()), j);
    assert_eq!(j.to_value(), serde_json::from_str::<serde_json::Value>(text).unwrap());
}

#[test]
fn what_is_out_of_form_is_put_into_form() {
    let odd = Json::Object(vec![
        ("z".to_string(), Json::Number(JsonNumber::Negative(4))),
        ("a".to_string(), Json::Null),
        ("z".to_string(), Json::Number(JsonNumber::Negative(5))),
    ]);
    assert_eq!(Json::from_value(odd.to_value()), Json::parse("{\"a\":null,\"z\":5}").unwrap());
    assert_eq!(odd.to_text(), "{\"a\":null,\"z\":5}");
}

#[test]
fn debug_notation_is_that_of_serde_json() {
    let j = Json::parse("{\"a\":[1,\"x\"]}").unwrap();
    assert_eq!(j.to_debug(), format!("{:?}", j.to_value()));
    assert_eq!(Json::Bool(true).to_debug(), "Bool(true)");
}
