use tuun::json::Json;
use tuun::metadata::Metadata;

#[test]
fn every_kind_of_value_is_read() {
    let json = Json::parse(r#"{"n": null, "b": true, "i": 7, "f": -1.5, "t": "x", "l": [1, "y"], "o": {"k": "v"}}"#)
        .unwrap();
    assert!(matches!(json.get("n"), Some(Json::Null)));
    assert_eq!(json.get_bool("b"), Some(true));
    assert_eq!(json.get_number("i"), Some("7"));
    assert_eq!(json.get_number("f"), Some("-1.5"));
    assert_eq!(json.get_text("t"), Some("x"));
    assert_eq!(json.get("o").unwrap().get_text("k"), Some("v"));
    match json.get("l") {
        Some(Json::List(items)) => {
            assert_eq!(items.len(), 2);
            assert!(matches!(&items[0], Json::Number(n) if n.unsigned == Some(1) && n.text == "1"));
            assert_eq!(items[1].as_text(), Some("y"));
        },
        other => panic!("{other:?}"),
    }
}

#[test]
fn other_text_is_no_json() {
    for text in ["", "{", "{} x", "'a'", "{\"a\":}"] {
        assert!(Json::parse(text).is_none(), "{text}");
    }
}

#[test]
fn surrounding_space_and_line_breaks_do_not_matter() {
    assert!(Json::parse(" [] \n").is_some());
}

#[test]
fn the_last_of_two_equal_keys_counts() {
    let json = Json::parse(r#"{"a": 1, "a": 2}"#).unwrap();
    assert_eq!(json.get_number("a"), Some("2"));
}

#[test]
fn only_tables_have_fields() {
    assert!(Json::parse("[1]").unwrap().get("0").is_none());
    assert!(!Json::parse("[1]").unwrap().is_table());
    assert!(Json::parse("{}").unwrap().is_table());
    assert_eq!(Json::parse("\"x\"").unwrap().as_text(), Some("x"));
}

#[test]
fn numbers_keep_their_value() {
    for (text, unsigned) in [("0", Some(0)), ("-0", None), ("1e3", None), ("18446744073709551615", Some(u64::MAX))] {
        let json = Json::parse(&format!("{{\"x\": {text}}}")).unwrap();
        let written = json.get_number("x").unwrap();
        assert_eq!(written.parse::<f64>().unwrap(), text.parse::<f64>().unwrap());
        match json.get("x") {
            Some(Json::Number(n)) => assert_eq!(n.unsigned, unsigned),
            other => panic!("{other:?}"),
        }
    }
}

#[test]
fn metadata_keys_are_in_lower_case() {
    let message = Json::parse(r#"{"data": {"TITLE": "a", "Ärtist": "b", "n": 3}}"#).unwrap();
    let metadata = Metadata::read(&message).unwrap();
    assert_eq!(metadata.get("title"), Some("a".to_string()));
    assert_eq!(metadata.get("TITLE"), None);
    assert_eq!(metadata.get("ärtist"), Some("b".to_string()));
    assert_eq!(metadata.get("n"), None);
    assert_eq!(metadata.get_or("n", "none"), "none");
}

#[test]
fn the_later_of_two_metadata_keys_counts() {
    let message = Json::parse(r#"{"data": {"Title": "a", "title": "b"}}"#).unwrap();
    assert_eq!(Metadata::read(&message).unwrap().get("title"), Some("b".to_string()));
    let number = Json::parse(r#"{"data": {"Title": "a", "title": 1}}"#).unwrap();
    assert_eq!(Metadata::read(&number).unwrap().get("title"), None);
}

#[test]
fn metadata_may_be_missing() {
    for text in ["{}", "[]", r#"{"data": null}"#, r#"{"data": []}"#] {
        assert!(Metadata::read(&Json::parse(text).unwrap()).is_none(), "{text}");
    }
}
