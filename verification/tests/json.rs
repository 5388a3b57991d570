use bili_hardcore::json::Json;

#[test]
fn text_and_bytes_are_read_alike() {
    let text = r#"{"a": [1, -2, 2.5, true, null, "x"], "b": {"c": "d"}}"#;
    let value = Json::parse(text).unwrap();
    assert_eq!(value, Json::parse_bytes(text.as_bytes()).unwrap());
    let items = value.array_at("a").unwrap();
    assert_eq!(items[0].as_u64(), Some(1));
    assert_eq!(items[1].as_u64(), None);
    assert_eq!(items[3].as_bool(), Some(true));
    assert_eq!(items[4], Json::Null);
    assert_eq!(items[5].as_str(), Some("x"));
    assert_eq!(value.str_at2("b", "c"), Some("d"));
    assert_eq!(value.str_at2("a", "c"), None);
    assert!(value.str_is("b", "d") == false && value.get("z").is_none());
    match &items[2] {
        Json::Number(number) => {
            assert_eq!(number.decimal, "2.5");
            assert_eq!(number.places, "2.50");
        }
        other => panic!("{other:?}"),
    }
}

#[test]
fn what_is_no_json_is_refused() {
    assert!(Json::parse("{").unwrap_err().contains("EOF"));
    assert!(Json::parse_bytes(b"\xff").is_err());
}

#[test]
fn values_are_built_as_they_are_read() {
    let built = Json::object_of("a", Json::list_of(Json::number(7)));
    assert_eq!(built, Json::parse(r#"{"a": [7]}"#).unwrap());
    assert_eq!(Json::text("x"), Json::parse("\"x\"").unwrap());
}
