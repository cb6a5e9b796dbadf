use codex_mic::json::Json;

#[test]
fn documents_read_and_write() {
    for text in [
        "null",
        "true",
        "0",
        "18446744073709551615",
        "-9223372036854775808",
        "1.5",
        r#""a\nb\"한""#,
        "[]",
        "[1,[2,{}],null]",
        r#"{"a":1,"b":{"c":[false]}}"#,
    ] {
        assert_eq!(Json::read(text).unwrap().write(), text);
        let read = Json::read_bytes(text.as_bytes()).unwrap();
        assert_eq!(read.write(), text);
        assert_eq!(read.copy(), read);
        assert_eq!(read.clone(), read);
    }
    assert_eq!(Json::read(" { \"b\" : 1 , \"a\" : 2 } ").unwrap().write(), r#"{"a":2,"b":1}"#);
    assert!(Json::read("").is_err());
    assert_eq!(Json::read("[1").unwrap_err(), "EOF while parsing a list at line 1 column 2");
    assert!(Json::read_bytes(&[0xff]).is_none());
    assert_eq!(Json::read(r#"{"a":1}"#).unwrap().write_pretty(), "{\n  \"a\": 1\n}");
}

#[test]
fn numbers_keep_their_kind() {
    let n = |text: &str| Json::read(text).unwrap();
    assert_eq!(n("5").as_u64(), Some(5));
    assert_eq!(n("5").as_i64(), Some(5));
    assert_eq!(n("-5").as_u64(), None);
    assert_eq!(n("-5").as_i64(), Some(-5));
    assert_eq!(n("9223372036854775808").as_i64(), None);
    assert_eq!(n("9223372036854775808").as_u64(), Some(1 << 63));
    assert_eq!(n("5.0").as_u64(), None);
    assert_eq!(n("5.0").as_i64(), None);
    assert_eq!(n("1e3").as_i64(), None);
    assert_eq!(Json::Unsigned(u64::MAX).as_i64(), None);
    assert_eq!(Json::Signed(-1).as_u64(), None);
    assert_eq!(Json::Signed(-1).write(), "-1");
    assert_eq!(Json::Bool(true).as_u64(), None);
}

#[test]
fn members_and_items() {
    let j = Json::read(r#"{"a":{"b":"x"},"l":["first"],"0":"zero"}"#).unwrap();
    assert_eq!(j.get_str_in("a", "b"), Some("x"));
    assert_eq!(j.get_str("a"), None);
    assert_eq!(j.get("missing"), None);
    assert_eq!(j.get("l").unwrap().nth(0).unwrap().as_str(), Some("first"));
    assert_eq!(j.get("l").unwrap().nth(1), None);
    assert_eq!(j.nth(0), None);
    assert_eq!(j.zeroth().unwrap().as_str(), Some("zero"));
    assert_eq!(j.get("l").unwrap().zeroth().unwrap().as_str(), Some("first"));
    assert_eq!(Json::Null.zeroth(), None);
    assert_eq!(Json::Null.get("a"), None);
}

#[test]
fn a_later_member_takes_the_place_of_an_earlier() {
    let j = Json::object().with("a", Json::Unsigned(1)).with("a", Json::Unsigned(2));
    assert_eq!(j.write(), r#"{"a":2}"#);
    let twice = Json::Object(vec![
        ("a".to_string(), Json::Unsigned(1)),
        ("a".to_string(), Json::Unsigned(3)),
    ]);
    assert_eq!(twice.get("a"), Some(&Json::Unsigned(3)));
    assert_eq!(twice.write(), r#"{"a":3}"#);
    assert_eq!(Json::read(r#"{"a":1,"a":4}"#).unwrap().write(), r#"{"a":4}"#);
    assert_eq!(Json::Null.with("a", Json::Null), Json::Null);
    assert_eq!(Json::one(Json::Null).write(), "[null]");
}

#[test]
fn documents_read_back_as_deep_as_they_are_read() {
    let mut j = Json::List(vec![]);
    for _ in 1..127 {
        j = Json::one(j);
    }
    assert_eq!(Json::read(&j.write()).unwrap(), j);
    assert_eq!(Json::read(&j.write_pretty()).unwrap(), j);
    assert!(Json::read(&Json::one(j).write()).is_err());
}

#[test]
fn repeated_names_are_written_once_at_any_depth() {
    let pair = |k: &str, n: u64| (k.to_string(), Json::Unsigned(n));
    let inner = Json::Object(vec![pair("x", 1), pair("y", 2), pair("x", 3), pair("y", 4)]);
    let outer = Json::Object(vec![
        ("b".to_string(), Json::Null),
        ("a".to_string(), inner),
        ("b".to_string(), Json::Bool(true)),
    ]);
    assert_eq!(outer.write(), r#"{"a":{"x":3,"y":4},"b":true}"#);
}
