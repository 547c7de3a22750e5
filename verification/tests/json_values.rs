use modular_quiz_app::text::copy_texts;
use modular_quiz_app::decode::indices_field;
use modular_quiz_app::decode::optional_text_field;
use modular_quiz_app::decode::text_field;
use modular_quiz_app::decode::texts_field;
use modular_quiz_app::json::Json;

fn text(s: &str) -> Json {
    Json::Text(s.to_string())
}

#[test]
fn each_kind_of_value_is_read() {
    assert_eq!(Json::parse("null").unwrap(), Json::Null);
    assert_eq!(Json::parse("true").unwrap(), Json::Bool(true));
    assert_eq!(Json::parse("false").unwrap(), Json::Bool(false));
    assert_eq!(Json::parse("\"a\\nb\"").unwrap(), text("a\nb"));
    assert_eq!(Json::parse("[]").unwrap(), Json::Array(vec![]));
    assert_eq!(Json::parse("{}").unwrap(), Json::Object(vec![]));
    assert_eq!(
        Json::parse(" [1, [\"x\"], {\"k\": null}] ").unwrap(),
        Json::Array(vec![
            Json::Number(Some(1)),
            Json::Array(vec![text("x")]),
            Json::Object(vec![("k".to_string(), Json::Null)]),
        ])
    );
}

#[test]
fn numbers_are_kept_where_they_are_whole_and_not_negative() {
    assert_eq!(Json::parse("0").unwrap(), Json::Number(Some(0)));
    assert_eq!(Json::parse("42").unwrap(), Json::Number(Some(42)));
    assert_eq!(
        Json::parse("18446744073709551615").unwrap(),
        Json::Number(Some(u64::MAX))
    );
    assert_eq!(Json::parse("18446744073709551616").unwrap(), Json::Number(None));
    assert_eq!(Json::parse("-1").unwrap(), Json::Number(None));
    assert_eq!(Json::parse("1.0").unwrap(), Json::Number(None));
    assert_eq!(Json::parse("2e3").unwrap(), Json::Number(None));
}

#[test]
fn text_that_is_no_document_gives_the_readers_message() {
    assert_eq!(Json::parse("").unwrap_err(), "EOF while parsing a value at line 1 column 0");
    assert_eq!(Json::parse("[1,").unwrap_err(), "EOF while parsing a value at line 1 column 3");
    assert_eq!(Json::parse("[] x").unwrap_err(), "trailing characters at line 1 column 4");
    assert!(Json::parse("{\"a\" 1}").is_err());
    assert!(Json::parse("nul").is_err());
}

#[test]
fn every_member_of_an_object_is_kept() {
    let parsed = Json::parse(r#"{"b": 1, "a": "x", "c": [true]}"#).unwrap();
    assert_eq!(parsed.member(&"a".to_string()), Some(&text("x")));
    assert_eq!(parsed.member(&"b".to_string()), Some(&Json::Number(Some(1))));
    assert_eq!(parsed.member(&"c".to_string()), Some(&Json::Array(vec![Json::Bool(true)])));
    assert_eq!(parsed.member(&"d".to_string()), None);
    match parsed {
        Json::Object(members) => assert_eq!(members.len(), 3),
        other => panic!("not an object: {:?}", other),
    }
}

#[test]
fn member_finds_the_first_member_of_that_key() {
    let obj = Json::Object(vec![
        ("a".to_string(), Json::Number(Some(1))),
        ("b".to_string(), Json::Number(Some(2))),
        ("a".to_string(), Json::Number(Some(3))),
    ]);
    assert_eq!(obj.member(&"a".to_string()), Some(&Json::Number(Some(1))));
    assert_eq!(obj.member(&"b".to_string()), Some(&Json::Number(Some(2))));
    assert_eq!(obj.member(&"".to_string()), None);
    assert_eq!(Json::Array(vec![]).member(&"a".to_string()), None);
    assert_eq!(text("a").member(&"a".to_string()), None);
}

#[test]
fn a_value_is_taken_as_what_it_is_and_nothing_else() {
    assert_eq!(text("x").as_text(), Some(&"x".to_string()));
    assert_eq!(Json::Null.as_text(), None);
    assert_eq!(Json::Number(Some(1)).as_text(), None);
    assert_eq!(Json::Array(vec![Json::Null]).as_items(), Some(&vec![Json::Null]));
    assert_eq!(Json::Object(vec![]).as_items(), None);
    assert_eq!(Json::Number(Some(7)).as_index(), Some(7));
    assert_eq!(Json::Number(Some(0)).as_index(), Some(0));
    assert_eq!(Json::Number(None).as_index(), None);
    assert_eq!(text("7").as_index(), None);
    assert_eq!(Json::Bool(true).as_index(), None);
    if usize::BITS == 64 {
        assert_eq!(Json::Number(Some(u64::MAX)).as_index(), Some(usize::MAX));
    } else {
        assert_eq!(Json::Number(Some(u64::MAX)).as_index(), None);
    }
}

#[test]
fn a_text_member_is_read_or_the_reason_given() {
    let obj = Json::Object(vec![
        ("name".to_string(), text("math.json")),
        ("size".to_string(), Json::Number(Some(3))),
    ]);
    assert_eq!(text_field(&obj, "name").unwrap(), "math.json");
    assert_eq!(text_field(&obj, "path").unwrap_err(), "missing field `path`");
    assert_eq!(
        text_field(&obj, "size").unwrap_err(),
        "invalid type for field `size`, expected a string"
    );
    assert_eq!(text_field(&Json::Null, "name").unwrap_err(), "missing field `name`");
}

#[test]
fn an_optional_text_member_may_be_absent_or_null() {
    let obj = Json::Object(vec![
        ("content".to_string(), text("aGk=")),
        ("encoding".to_string(), Json::Null),
        ("size".to_string(), Json::Number(Some(3))),
    ]);
    assert_eq!(optional_text_field(&obj, "content").unwrap(), Some("aGk=".to_string()));
    assert_eq!(optional_text_field(&obj, "encoding").unwrap(), None);
    assert_eq!(optional_text_field(&obj, "other").unwrap(), None);
    assert_eq!(
        optional_text_field(&obj, "size").unwrap_err(),
        "invalid type for field `size`, expected a string or null"
    );
}

#[test]
fn a_list_of_texts_is_read_or_the_reason_given() {
    let obj = Json::Object(vec![
        ("answers".to_string(), Json::Array(vec![text("a"), text("b")])),
        ("none".to_string(), Json::Array(vec![])),
        ("mixed".to_string(), Json::Array(vec![text("a"), Json::Null])),
        ("text".to_string(), text("a")),
    ]);
    assert_eq!(texts_field(&obj, "answers").unwrap(), vec!["a".to_string(), "b".to_string()]);
    assert_eq!(texts_field(&obj, "none").unwrap(), Vec::<String>::new());
    assert_eq!(
        texts_field(&obj, "mixed").unwrap_err(),
        "invalid type for field `mixed`, expected a list of strings"
    );
    assert_eq!(
        texts_field(&obj, "text").unwrap_err(),
        "invalid type for field `text`, expected a list of strings"
    );
    assert_eq!(texts_field(&obj, "other").unwrap_err(), "missing field `other`");
}

#[test]
fn a_list_of_indices_is_read_or_the_reason_given() {
    let obj = Json::Object(vec![
        (
            "correct".to_string(),
            Json::Array(vec![Json::Number(Some(2)), Json::Number(Some(0))]),
        ),
        ("negative".to_string(), Json::Array(vec![Json::Number(None)])),
        ("number".to_string(), Json::Number(Some(1))),
    ]);
    assert_eq!(indices_field(&obj, "correct").unwrap(), vec![2usize, 0]);
    assert_eq!(
        indices_field(&obj, "negative").unwrap_err(),
        "invalid type for field `negative`, expected a list of indices"
    );
    assert_eq!(
        indices_field(&obj, "number").unwrap_err(),
        "invalid type for field `number`, expected a list of indices"
    );
    assert_eq!(indices_field(&obj, "other").unwrap_err(), "missing field `other`");
}

#[test]
fn a_copy_of_a_list_of_texts_holds_the_same_texts() {
    let list = vec!["a".to_string(), String::new(), "ü".to_string()];
    assert_eq!(copy_texts(&list), list);
    assert_eq!(copy_texts(&vec![]), Vec::<String>::new());
}
