use lsp_liquidity::json::Json;

#[test]
fn json_text_is_read_into_a_tree() {
    let json = Json::from_text(r#"{"b":[1,-2,3.5,"x",true,null],"a":{"c":18446744073709551615}}"#)
        .unwrap();
    assert_eq!(
        json,
        Json::Object(vec![
            (
                "a".to_string(),
                Json::Object(vec![(
                    "c".to_string(),
                    Json::Number("18446744073709551615".to_string())
                )])
            ),
            (
                "b".to_string(),
                Json::Array(vec![
                    Json::Number("1".to_string()),
                    Json::Number("-2".to_string()),
                    Json::Number("3.5".to_string()),
                    Json::String("x".to_string()),
                    Json::Bool(true),
                    Json::Null,
                ])
            ),
        ])
    );
}

#[test]
fn json_text_that_is_no_json_is_rejected() {
    for text in ["", "{", "{\"a\":}", "[1,]", "01", "'a'", "{\"a\":1}x", "nul"] {
        assert_eq!(Json::from_text(text), None, "{:?}", text);
    }
}

#[test]
fn json_tree_is_written_as_text() {
    let json = Json::Object(vec![
        ("z".to_string(), Json::from_u64(7)),
        ("a".to_string(), Json::from_str("quote \" backslash \\ newline \n")),
        ("m".to_string(), Json::Array(vec![Json::Null, Json::Bool(false)])),
    ]);
    assert_eq!(
        json.to_text().unwrap(),
        r#"{"a":"quote \" backslash \\ newline \n","m":[null,false],"z":7}"#
    );
    assert_eq!(Json::Null.to_text().unwrap(), "null");
    assert_eq!(Json::from_u64(u64::MAX).to_text().unwrap(), "18446744073709551615");
    assert_eq!(Json::Number("-12".to_string()).to_text().unwrap(), "-12");
}

#[test]
fn json_tree_with_a_number_that_is_none_is_not_written() {
    assert_eq!(Json::Number("twelve".to_string()).to_text(), None);
    assert_eq!(Json::Number("".to_string()).to_text(), None);
    assert_eq!(Json::Array(vec![Json::Number("\"a\"".to_string())]).to_text(), None);
    assert_eq!(
        Json::Object(vec![("a".to_string(), Json::Number("1 2".to_string()))]).to_text(),
        None
    );
}

#[test]
fn json_text_round_trips_through_the_tree() {
    for text in [
        "null",
        "true",
        "0",
        "-1",
        "\"\"",
        "[]",
        "{}",
        r#"{"a":[{"b":null},"c",1],"d":"e"}"#,
    ] {
        assert_eq!(Json::from_text(text).unwrap().to_text().unwrap(), text);
    }
}

#[test]
fn json_get_gives_the_first_field_of_that_name() {
    let json = Json::Object(vec![
        ("a".to_string(), Json::from_u64(1)),
        ("b".to_string(), Json::from_u64(2)),
        ("a".to_string(), Json::from_u64(3)),
    ]);
    assert_eq!(json.get("a"), Some(&Json::from_u64(1)));
    assert_eq!(json.get("b"), Some(&Json::from_u64(2)));
    assert_eq!(json.get("c"), None);
    assert_eq!(json.get(""), None);
    assert_eq!(Json::Array(vec![]).get("a"), None);
    assert_eq!(Json::Null.get("a"), None);
}

#[test]
fn json_number_is_read_as_u64_up_to_a_maximum() {
    assert_eq!(Json::from_u64(5).as_u64(5), Some(5));
    assert_eq!(Json::from_u64(6).as_u64(5), None);
    assert_eq!(Json::Number("1.0".to_string()).as_u64(5), None);
    assert_eq!(Json::Number("-1".to_string()).as_u64(5), None);
    assert_eq!(Json::Number("1e0".to_string()).as_u64(5), None);
    assert_eq!(Json::from_str("1").as_u64(5), None);
    assert_eq!(Json::Null.as_u64(5), None);
    assert_eq!(Json::from_u64(u64::MAX).as_u64(u64::MAX), Some(u64::MAX));
}
