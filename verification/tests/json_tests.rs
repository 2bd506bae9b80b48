use mcp_client::json::{insert_member, JsonValue};

fn s(t: &str) -> JsonValue {
    JsonValue::String(t.to_string())
}

fn obj(members: Vec<(&str, JsonValue)>) -> JsonValue {
    JsonValue::Object(members.into_iter().map(|(k, v)| (k.to_string(), v)).collect())
}

#[test]
fn parse_reads_every_kind_of_value() {
    let v = JsonValue::parse(
        "{\"n\": null, \"t\": true, \"u\": 18446744073709551615, \"i\": -5, \"f\": 1.5, \"s\": \"x\", \"a\": [1, \"y\", []], \"o\": {}}",
    )
    .unwrap();
    assert_eq!(
        v,
        obj(vec![
            (
                "a",
                JsonValue::Array(vec![JsonValue::Unsigned(1), s("y"), JsonValue::Array(vec![])])
            ),
            ("f", JsonValue::Decimal("1.5".to_string())),
            ("i", JsonValue::Decimal("-5".to_string())),
            ("n", JsonValue::Null),
            ("o", obj(vec![])),
            ("s", s("x")),
            ("t", JsonValue::Bool(true)),
            ("u", JsonValue::Unsigned(u64::MAX)),
        ])
    );
}

#[test]
fn parse_refuses_what_is_not_json() {
    assert_eq!(JsonValue::parse(""), None);
    assert_eq!(JsonValue::parse("{"), None);
    assert_eq!(JsonValue::parse("{} trailing"), None);
    assert_eq!(JsonValue::parse("{'a': 1}"), None);
}

#[test]
fn parse_keeps_the_last_of_repeated_keys() {
    assert_eq!(
        JsonValue::parse("{\"a\": 1, \"a\": 2}"),
        Some(obj(vec![("a", JsonValue::Unsigned(2))]))
    );
}

#[test]
fn to_text_writes_compact_json() {
    let v = obj(vec![
        ("b", JsonValue::Array(vec![JsonValue::Unsigned(1), JsonValue::Null])),
        ("a", s("x\"y\n")),
        ("c", JsonValue::Decimal("-32601".to_string())),
        ("d", JsonValue::Decimal("2.5".to_string())),
        ("e", JsonValue::Bool(false)),
    ]);
    assert_eq!(v.to_text(), "{\"a\":\"x\\\"y\\n\",\"b\":[1,null],\"c\":-32601,\"d\":2.5,\"e\":false}");
}

#[test]
fn to_text_is_not_the_debug_form() {
    assert_eq!(s("a").to_text(), "\"a\"");
    assert_eq!(JsonValue::Null.to_text(), "null");
    assert_eq!(JsonValue::Unsigned(7).to_text(), "7");
    assert_eq!(obj(vec![]).to_text(), "{}");
}

#[test]
fn text_and_value_round_trip() {
    let text = "{\"a\":[1,2,{\"b\":\"c\"}],\"d\":-1.25e-7,\"e\":\"é\"}";
    let v = JsonValue::parse(text).unwrap();
    assert_eq!(JsonValue::parse(&v.to_text()), Some(v));
}

#[test]
fn a_decimal_that_is_no_number_is_written_as_null() {
    assert_eq!(JsonValue::Decimal("junk".to_string()).to_text(), "null");
}

#[test]
fn get_finds_the_first_member() {
    let v = obj(vec![("a", JsonValue::Unsigned(1)), ("b", s("x")), ("a", JsonValue::Unsigned(2))]);
    assert_eq!(v.get("a"), Some(&JsonValue::Unsigned(1)));
    assert_eq!(v.get("b"), Some(&s("x")));
    assert_eq!(v.get("c"), None);
    assert_eq!(s("x").get("a"), None);
    assert_eq!(JsonValue::Array(vec![]).get("a"), None);
}

#[test]
fn accessors_give_only_their_own_kind() {
    assert_eq!(s("x").as_str(), Some("x"));
    assert_eq!(JsonValue::Unsigned(1).as_str(), None);
    assert_eq!(JsonValue::Unsigned(9).as_u64(), Some(9));
    assert_eq!(JsonValue::Decimal("-1".to_string()).as_u64(), None);
    assert_eq!(s("9").as_u64(), None);
    assert_eq!(JsonValue::Bool(true).as_bool(), Some(true));
    assert_eq!(JsonValue::Null.as_bool(), None);
    assert_eq!(JsonValue::Array(vec![s("a")]).as_array(), Some(&vec![s("a")]));
    assert_eq!(obj(vec![]).as_array(), None);
    assert_eq!(obj(vec![("k", s("v"))]).as_object(), Some(&vec![("k".to_string(), s("v"))]));
    assert_eq!(JsonValue::Array(vec![]).as_object(), None);
}

#[test]
fn get_str_reads_string_members() {
    let v = obj(vec![("a", s("x")), ("b", JsonValue::Unsigned(1))]);
    assert_eq!(v.get_str("a"), Some("x"));
    assert_eq!(v.get_str("b"), None);
    assert_eq!(v.get_str("c"), None);
}

#[test]
fn insert_member_replaces_or_appends() {
    let mut members = vec![("a".to_string(), JsonValue::Unsigned(1))];
    insert_member(&mut members, "b".to_string(), JsonValue::Unsigned(2));
    insert_member(&mut members, "a".to_string(), JsonValue::Unsigned(3));
    assert_eq!(
        members,
        vec![("a".to_string(), JsonValue::Unsigned(3)), ("b".to_string(), JsonValue::Unsigned(2))]
    );
}

#[test]
fn duplicate_copies_the_whole_value() {
    let v = JsonValue::parse("{\"a\":[1,{\"b\":[true,null,\"x\",-2.5]}],\"c\":{}}").unwrap();
    assert_eq!(v.duplicate(), v);
}

#[test]
fn builders_make_the_value_they_name() {
    assert_eq!(JsonValue::string("x"), s("x"));
    assert_eq!(JsonValue::array(vec![s("x")]), JsonValue::Array(vec![s("x")]));
    assert_eq!(JsonValue::object(vec![("k".to_string(), s("v"))]), obj(vec![("k", s("v"))]));
}
