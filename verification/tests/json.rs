use mcp_server::json::{Json, NegativeInteger};

fn round_trip(text: &str) -> String {
    Json::parse(text).expect("json").to_text()
}

#[test]
fn text_reads_back() {
    for text in [
        "null", "true", "false", "0", "18446744073709551615", "-1", "1.5", "\"a\\nb\"", "[]", "{}",
        "[1,[2,{\"a\":null}],\"x\"]", "{\"a\":1,\"b\":{\"c\":[true,-7,2.25]}}",
    ] {
        assert_eq!(round_trip(text), text);
    }
    assert_eq!(round_trip(" { \"b\" : 1 , \"a\" : 2 } "), "{\"a\":2,\"b\":1}");
    assert_eq!(round_trip("{\"a\":1,\"a\":2}"), "{\"a\":2}");
}

#[test]
fn text_that_is_no_json_is_refused() {
    for text in ["", "{", "nul", "[1,]", "1 2", "hello", "1e999"] {
        assert!(Json::parse(text).is_none(), "{}", text);
    }
}

#[test]
fn depth_is_bounded() {
    let deep = |n: usize| format!("{}{}", "[".repeat(n), "]".repeat(n));
    assert!(Json::parse(&deep(127)).is_some());
    assert!(Json::parse(&deep(128)).is_none());
    assert_eq!(round_trip(&deep(127)), deep(127));
}

#[test]
fn written_text_is_one_line() {
    let json = Json::parse("{\"a\\nb\": \"c\\r\\nd\\u2028\"}").unwrap();
    assert!(!json.to_text().contains('\n'));
}

#[test]
fn numbers_are_told_apart() {
    assert_eq!(Json::parse("7").unwrap().as_u64(), Some(7));
    assert_eq!(Json::parse("-7").unwrap().as_u64(), None);
    assert_eq!(Json::parse("7.0").unwrap().as_u64(), None);
    assert_eq!(Json::parse("\"7\"").unwrap().as_u64(), None);
    assert_eq!(Json::parse("18446744073709551616").unwrap().as_u64(), None);
}

#[test]
fn members_are_read_and_set() {
    let mut json = Json::parse("{\"method\":\"initialize\",\"id\":null}").unwrap();
    assert!(json.get("method").unwrap().is_str("initialize"));
    assert!(!json.get("method").unwrap().is_str("init"));
    assert!(json.get("id").unwrap().is_null());
    assert!(json.get("nope").is_none());
    assert!(Json::parse("[1]").unwrap().get("id").is_none());
    json.set("id", Json::Unsigned(3));
    assert_eq!(json.to_text(), "{\"id\":3,\"method\":\"initialize\"}");
    assert_eq!(json.clone().to_text(), json.to_text());
}

#[test]
fn values_convert_both_ways() {
    let value: serde_json::Value =
        serde_json::from_str("{\"a\":[1,-2,2.5,null,true,\"s\"],\"b\":{}}").unwrap();
    let json = Json::from_value(value.clone());
    assert_eq!(json.to_value(), value);
    assert_eq!(json.clone().to_value(), value);
    assert_eq!(json.get("a").unwrap().to_text(), "[1,-2,2.5,null,true,\"s\"]");
}

#[test]
fn the_name_for_raw_text_is_read_otherwise() {
    let name = "$serde_json::private::RawValue";
    let mut alone = Json::object();
    alone.set(name, Json::Str("1".to_string()));
    let text = alone.to_text();
    assert_eq!(text, "{\"$serde_json::private::RawValue\":\"1\"}");
    assert_eq!(Json::parse(&text).unwrap().as_u64(), Some(1));

    let request = Json::parse(
        "{\"jsonrpc\":\"2.0\",\"$serde_json::private::RawValue\":\"1\",\"id\":3,\"method\":\"m\"}",
    )
    .unwrap();
    assert_eq!(request.get("id").unwrap().as_u64(), Some(3));
    assert!(Json::parse(&request.to_text()).is_none());

    let mut behind = Json::object();
    behind.set("!", Json::Unsigned(2));
    behind.set(name, Json::Str("1".to_string()));
    let again = Json::parse(&behind.to_text()).unwrap();
    assert_eq!(again.get("!").unwrap().as_u64(), Some(2));
    assert!(again.get(name).unwrap().is_str("1"));
}

#[test]
fn negative_integers_are_kept() {
    for text in ["-1", "-32601", "-9223372036854775808", "{\"error\":{\"code\":-32601}}"] {
        assert_eq!(round_trip(text), text);
    }
    match Json::parse("-9223372036854775808").unwrap() {
        Json::Negative(n) => assert_eq!(n.get(), i64::MIN),
        other => panic!("unexpected {:?}", other),
    }
    for text in ["-9223372036854775809", "-0", "-0.5", "18446744073709551616"] {
        assert!(matches!(Json::parse(text).unwrap(), Json::Number(_)), "{}", text);
    }
    assert!(NegativeInteger::new(0).is_none());
    let json = Json::Negative(NegativeInteger::new(-7).unwrap());
    assert_eq!(json.to_text(), "-7");
    assert_eq!(json.to_value(), serde_json::Value::from(-7));
    assert_eq!(json.clone().as_u64(), None);
}
