use omnikit::json::{
    child, nth, parse, render, set_field, text, unsigned, Json, Member, Numeral, Step,
};

#[test]
fn parse_reads_every_kind_of_value() {
    let doc = parse(r#"{"b": [1, -2, 1.5, "x", null, true], "a": {"k": "v"}}"#).unwrap();
    let expected = Json::Object(vec![
        Member {
            key: "a".to_string(),
            value: Json::Object(vec![Member {
                key: "k".to_string(),
                value: Json::Text("v".to_string()),
            }]),
        },
        Member {
            key: "b".to_string(),
            value: Json::Array(vec![
                Json::Number(Numeral::Unsigned(1)),
                Json::Number(Numeral::Negative(-2)),
                Json::Number(Numeral::Decimal("1.5".to_string())),
                Json::Text("x".to_string()),
                Json::Null,
                Json::Bool(true),
            ]),
        },
    ]);
    assert_eq!(doc, expected);
}

#[test]
fn parse_refuses_what_is_no_document() {
    assert!(parse("{").is_err());
    assert!(parse("").is_err());
    assert!(parse("{} x").is_err());
    assert!(!parse("{").unwrap_err().message.is_empty());
}

#[test]
fn render_writes_compact_text() {
    let doc = parse(r#"{ "a" : [ 1, -2, 1.5, "x", null, false ] }"#).unwrap();
    assert_eq!(render(&doc), r#"{"a":[1,-2,1.5,"x",null,false]}"#);
    assert_eq!(render(&Json::Text("a\"b".to_string())), r#""a\"b""#);
    assert_eq!(render(&Json::Number(Numeral::Unsigned(u64::MAX))), "18446744073709551615");
}

#[test]
fn render_then_parse_gives_the_document_back() {
    let doc = parse(r#"{"m":{"x":[{"y":"z"},3,-4,2.25]},"n":null}"#).unwrap();
    assert_eq!(parse(&render(&doc)).unwrap(), doc);
}

#[test]
fn get_answers_with_the_first_member_under_a_key() {
    let doc = Json::Object(vec![
        Member { key: "k".to_string(), value: Json::Number(Numeral::Unsigned(1)) },
        Member { key: "k".to_string(), value: Json::Number(Numeral::Unsigned(2)) },
    ]);
    assert_eq!(doc.get("k"), Some(&Json::Number(Numeral::Unsigned(1))));
    assert_eq!(doc.get("j"), None);
    assert_eq!(Json::Null.get("k"), None);
    assert_eq!(Json::Array(vec![]).get("0"), None);
}

#[test]
fn at_walks_keys_and_positions() {
    let doc = parse(r#"{"audio":[{"baseUrl":"u0"},{"baseUrl":"u1"}]}"#).unwrap();
    let path = vec![Step::Key("audio".to_string()), Step::Index(1), Step::Key("baseUrl".to_string())];
    assert_eq!(doc.at(&path).and_then(|v| v.as_str()), Some("u1"));
    let missing = vec![Step::Key("audio".to_string()), Step::Index(2)];
    assert_eq!(doc.at(&missing), None);
    assert_eq!(doc.at(&Vec::new()), Some(&doc));
    assert_eq!(text(child(nth(child(Some(&doc), "audio"), 0), "baseUrl")), Some("u0"));
    assert_eq!(text(child(nth(child(Some(&doc), "video"), 0), "baseUrl")), None);
}

#[test]
fn numbers_are_unsigned_only_where_whole_and_not_negative() {
    let doc = parse(r#"{"a":5,"b":-5,"c":5.0,"d":"5"}"#).unwrap();
    assert_eq!(unsigned(doc.get("a")), Some(5));
    assert_eq!(unsigned(doc.get("b")), None);
    assert_eq!(unsigned(doc.get("c")), None);
    assert_eq!(unsigned(doc.get("d")), None);
    assert_eq!(doc.get("a").unwrap().as_u64(), Some(5));
}

#[test]
fn set_field_replaces_or_appends() {
    let doc = parse(r#"{"model":"public","n":1}"#).unwrap();
    let named = set_field(doc, "model", Json::Text("upstream".to_string()));
    assert_eq!(render(&named), r#"{"model":"upstream","n":1}"#);
    let more = set_field(named, "z", Json::Bool(true));
    assert_eq!(render(&more), r#"{"model":"upstream","n":1,"z":true}"#);
    assert_eq!(set_field(Json::Null, "k", Json::Bool(true)), Json::Null);
}

#[test]
fn duplicate_is_equal_to_the_original() {
    let doc = parse(r#"{"m":{"x":[{"y":"z"},3,-4,2.25]},"n":null}"#).unwrap();
    assert_eq!(doc.duplicate(), doc);
}

#[test]
fn a_number_steps_into_arrays_and_into_objects() {
    let doc = parse(r#"{"list":["a","b"],"map":{"0":"zero","1":"one","01":"padded"},"text":"x"}"#).unwrap();
    assert_eq!(text(nth(doc.get("list"), 1)), Some("b"));
    assert_eq!(text(nth(doc.get("list"), 2)), None);
    assert_eq!(text(nth(doc.get("map"), 0)), Some("zero"));
    assert_eq!(text(nth(doc.get("map"), 1)), Some("one"));
    assert_eq!(text(nth(doc.get("map"), 2)), None);
    assert_eq!(nth(doc.get("text"), 0), None);
    assert_eq!(nth(None, 0), None);
    assert_eq!(doc.get("map").unwrap().item(0), None);
}

#[test]
fn the_reader_says_why_it_refuses() {
    let fault = parse("{\"a\": }").unwrap_err();
    assert_eq!(fault.message, "expected value at line 1 column 7");
    assert_eq!(parse("").unwrap_err().message, "EOF while parsing a value at line 1 column 0");
}

#[test]
fn a_decimal_is_written_as_the_number_it_reads_as() {
    let n = |text: &str| render(&Json::Number(Numeral::Decimal(text.to_string())));
    assert_eq!(n("1.5"), "1.5");
    assert_eq!(n("2.50"), "2.5");
    assert_eq!(n("1e2"), "100.0");
    assert_eq!(n("7"), "7");
    assert_eq!(n("[1]"), "null");
    assert_eq!(n("\"x\""), "null");
    assert_eq!(n("true"), "null");
    assert_eq!(n(""), "null");
    assert_eq!(n("abc"), "null");
}
