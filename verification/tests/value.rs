use rocketmq_remoting::util::number::{parse_i64, parse_json_i64};
use rocketmq_remoting::util::strict::{parse_json, print_json, try_print_json};
use rocketmq_remoting::util::text::text_of_utf8;
use rocketmq_remoting::util::value::JsonValue;

#[test]
fn parse_json_reads_every_kind() {
    assert!(matches!(parse_json(b"null"), Some(JsonValue::Null)));
    assert!(matches!(parse_json(b"true"), Some(JsonValue::Bool(true))));
    assert!(matches!(parse_json(b"false"), Some(JsonValue::Bool(false))));
    assert!(matches!(parse_json(b"-17"), Some(JsonValue::Int(-17))));
    assert!(matches!(
        parse_json(b"9223372036854775807"),
        Some(JsonValue::Int(i64::MAX))
    ));
    assert!(matches!(parse_json(b"9223372036854775808"), Some(JsonValue::OtherNumber)));
    assert!(matches!(parse_json(b"2.5"), Some(JsonValue::OtherNumber)));
    assert!(matches!(parse_json(b"\"a\\\"b\""), Some(JsonValue::Text(s)) if s == "a\"b"));
    let array = parse_json(b"[1,\"x\",[null]]").unwrap();
    let items = array.as_array().unwrap();
    assert_eq!(items.len(), 3);
    assert_eq!(items[0].as_i64(), Some(1));
    assert_eq!(items[1].as_text(), Some(&"x".to_string()));
    assert!(matches!(items[2].as_array().unwrap()[0], JsonValue::Null));
    let object = parse_json(b" {\"b\":1,\"a\":{\"c\":\"d\"},\"b\":2} ").unwrap();
    let members = object.as_object().unwrap();
    // a name that comes twice keeps its first place and its last value
    assert_eq!(members.len(), 2);
    assert_eq!(members[0].0, "b");
    assert_eq!(members[1].0, "a");
    assert_eq!(object.get_i64("b"), Some(2));
    assert_eq!(object.get_i32("b"), Some(2));
    assert_eq!(object.get("a").unwrap().get_text("c"), Some(&"d".to_string()));
    assert!(object.get("c").is_none());
    assert_eq!(object.get_text("b"), None);
    assert!(parse_json(b"{\"a\":}").is_none());
    assert!(parse_json(b"").is_none());
    assert!(parse_json(b"{\"a\":1} x").is_none());
    assert!(parse_json(&[0xff]).is_none());
}

#[test]
fn print_json_writes_every_kind() {
    assert_eq!(print_json(&JsonValue::Null), "null");
    assert_eq!(print_json(&JsonValue::Bool(true)), "true");
    assert_eq!(print_json(&JsonValue::Int(-5)), "-5");
    assert_eq!(print_json(&JsonValue::Int(i64::MIN)), "-9223372036854775808");
    assert_eq!(print_json(&JsonValue::Text("a\"b\n".to_string())), r#""a\"b\n""#);
    let document = JsonValue::Object(vec![
        ("z".to_string(), JsonValue::Array(vec![JsonValue::Int(1), JsonValue::Null])),
        ("a".to_string(), JsonValue::Object(vec![])),
        ("m".to_string(), JsonValue::Text("t".to_string())),
    ]);
    let text = print_json(&document);
    assert_eq!(text, r#"{"z":[1,null],"a":{},"m":"t"}"#);
    let again = parse_json(text.as_bytes()).unwrap();
    assert_eq!(print_json(&again), text);
}

#[test]
fn integers_of_as_i32() {
    assert_eq!(JsonValue::Int(2147483647).as_i32(), Some(2147483647));
    assert_eq!(JsonValue::Int(-2147483648).as_i32(), Some(-2147483648));
    assert_eq!(JsonValue::Int(2147483648).as_i32(), None);
    assert_eq!(JsonValue::Int(-2147483649).as_i32(), None);
    assert_eq!(JsonValue::Text("1".to_string()).as_i32(), None);
    assert_eq!(JsonValue::OtherNumber.as_i64(), None);
}

#[test]
fn decimal_text() {
    assert_eq!(parse_i64("0"), Some(0));
    assert_eq!(parse_i64("+12"), Some(12));
    assert_eq!(parse_i64("-12"), Some(-12));
    assert_eq!(parse_i64("007"), Some(7));
    assert_eq!(parse_i64("9223372036854775807"), Some(i64::MAX));
    assert_eq!(parse_i64("-9223372036854775808"), Some(i64::MIN));
    assert_eq!(parse_i64("9223372036854775808"), None);
    assert_eq!(parse_i64("-9223372036854775809"), None);
    assert_eq!(parse_i64("99999999999999999999999"), None);
    assert_eq!(parse_i64(""), None);
    assert_eq!(parse_i64("-"), None);
    assert_eq!(parse_i64("+"), None);
    assert_eq!(parse_i64("1a"), None);
    assert_eq!(parse_i64(" 1"), None);
    assert_eq!(parse_i64("١"), None);
    assert_eq!(parse_json_i64("0"), Some(0));
    assert_eq!(parse_json_i64("-1"), Some(-1));
    assert_eq!(parse_json_i64("10"), Some(10));
    assert_eq!(parse_json_i64("+1"), None);
    assert_eq!(parse_json_i64("01"), None);
    assert_eq!(parse_json_i64("-0"), None);
    assert_eq!(parse_json_i64("-01"), None);
    assert_eq!(parse_json_i64(""), None);
}

#[test]
fn utf8_text() {
    assert_eq!(text_of_utf8("héllo".as_bytes().to_vec()), Some("héllo".to_string()));
    assert_eq!(text_of_utf8(Vec::new()), Some(String::new()));
    assert_eq!(text_of_utf8(vec![0xc3]), None);
    assert_eq!(text_of_utf8(vec![0xed, 0xa0, 0x80]), None);
}

#[test]
fn only_printable_documents_are_written() {
    let float = parse_json(b"{\"a\":[1.5]}").unwrap();
    assert!(!float.is_printable());
    assert_eq!(try_print_json(&float), None);
    let twice = JsonValue::Object(vec![
        ("a".to_string(), JsonValue::Int(1)),
        ("b".to_string(), JsonValue::Null),
        ("a".to_string(), JsonValue::Int(2)),
    ]);
    assert!(!twice.is_printable());
    assert_eq!(try_print_json(&twice), None);
    let nested = JsonValue::Array(vec![JsonValue::Object(vec![(
        "x".to_string(),
        JsonValue::OtherNumber,
    )])]);
    assert!(!nested.is_printable());
    let fine = parse_json(b"{\"a\":[1,{\"a\":true}],\"b\":\"c\"}").unwrap();
    assert!(fine.is_printable());
    assert_eq!(try_print_json(&fine), Some(r#"{"a":[1,{"a":true}],"b":"c"}"#.to_string()));
}
