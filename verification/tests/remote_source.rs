use modular_quiz_app::error::ErrorKind;
use modular_quiz_app::error::QuizError;
use modular_quiz_app::github::contents_url;
use modular_quiz_app::github::file_content;
use modular_quiz_app::github::listing_from_json;
use modular_quiz_app::github::listing_url;
use modular_quiz_app::github::parse_listing;
use modular_quiz_app::github::raw_file_url;
use modular_quiz_app::github::repo_listing;
use modular_quiz_app::github::Content;
use modular_quiz_app::github::RepoItem;
use modular_quiz_app::github::Reply;
use modular_quiz_app::json::Json;

fn item(name: &str, path: &str, item_type: &str) -> RepoItem {
    RepoItem { name: name.to_string(), path: path.to_string(), item_type: item_type.to_string() }
}

fn answer(success: bool, body: &str) -> Reply {
    Reply::Answer { success, body: body.to_string() }
}

#[test]
fn the_addresses_are_made_of_owner_and_repository() {
    assert_eq!(
        contents_url("rust-lang", "rust", "README.md"),
        "https://api.github.com/repos/rust-lang/rust/contents/README.md"
    );
    assert_eq!(
        contents_url("o", "r", ""),
        "https://api.github.com/repos/o/r/contents/"
    );
    assert_eq!(
        listing_url("RPDevJesco", "Modular_Quiz_App"),
        "https://api.github.com/repos/RPDevJesco/Modular_Quiz_App/contents/Quiz/Quizzes"
    );
    assert_eq!(
        raw_file_url("RPDevJesco", "Modular_Quiz_App", "math.json"),
        "https://raw.githubusercontent.com/RPDevJesco/Modular_Quiz_App/main/Quiz/Quizzes/math.json"
    );
    assert_eq!(
        raw_file_url("", "", ""),
        "https://raw.githubusercontent.com///main/Quiz/Quizzes/"
    );
}

#[test]
fn a_listing_is_read_entry_by_entry() {
    let text = r#"[
      {"name": "math.json", "path": "Quiz/Quizzes/math.json", "sha": "abc", "size": 120, "type": "file"},
      {"name": "old", "path": "Quiz/Quizzes/old", "type": "dir", "_links": {"self": "x"}}
    ]"#;
    assert_eq!(
        parse_listing(text).unwrap(),
        vec![
            item("math.json", "Quiz/Quizzes/math.json", "file"),
            item("old", "Quiz/Quizzes/old", "dir"),
        ]
    );
    assert_eq!(parse_listing("[]").unwrap(), Vec::<RepoItem>::new());
}

#[test]
fn an_answer_of_another_shape_is_a_protocol_failure() {
    let e = parse_listing(r#"{"message": "Not Found"}"#).unwrap_err();
    assert_eq!(e.kind(), ErrorKind::RemoteProtocol);
    assert_eq!(
        e.message(),
        "Unexpected answer from the remote source: a listing must be a list of entries"
    );
    let e = parse_listing(r#"["math.json"]"#).unwrap_err();
    assert_eq!(e.kind(), ErrorKind::RemoteProtocol);
    assert_eq!(
        e.message(),
        "Unexpected answer from the remote source: an entry must be an object"
    );
    let e = parse_listing(r#"[{"name": "math.json", "type": "file"}]"#).unwrap_err();
    assert_eq!(
        e.message(),
        "Unexpected answer from the remote source: missing field `path`"
    );
    let e = parse_listing(r#"[{"name": "a", "path": "a", "type": "file"}, {"name": 1, "path": "b", "type": "file"}]"#)
        .unwrap_err();
    assert_eq!(
        e.message(),
        "Unexpected answer from the remote source: invalid type for field `name`, expected a string"
    );
    let e = parse_listing("<html>").unwrap_err();
    assert_eq!(e.kind(), ErrorKind::RemoteProtocol);
    assert!(e.message().starts_with("Unexpected answer from the remote source: "));
}

#[test]
fn a_listing_is_read_from_a_value_built_by_hand() {
    let doc = Json::Array(vec![Json::Object(vec![
        ("type".to_string(), Json::Text("file".to_string())),
        ("path".to_string(), Json::Text("p/a.json".to_string())),
        ("name".to_string(), Json::Text("a.json".to_string())),
    ])]);
    assert_eq!(listing_from_json(&doc).unwrap(), vec![item("a.json", "p/a.json", "file")]);
    assert_eq!(
        listing_from_json(&Json::Null).unwrap_err().kind(),
        ErrorKind::RemoteProtocol
    );
    assert_eq!(
        RepoItem::from_json(&Json::Object(vec![])).unwrap_err(),
        "missing field `name`"
    );
    assert_eq!(RepoItem::from_json(&Json::Null).unwrap_err(), "an entry must be an object");
}

#[test]
fn a_file_description_is_read_with_or_without_its_content() {
    let full = Json::parse(
        r#"{"name": "a.json", "path": "p/a.json", "content": "W10=", "encoding": "base64", "size": 2}"#,
    )
    .unwrap();
    assert_eq!(
        Content::from_json(&full).unwrap(),
        Content {
            name: "a.json".to_string(),
            path: "p/a.json".to_string(),
            content: Some("W10=".to_string()),
            encoding: Some("base64".to_string()),
        }
    );
    let bare = Json::parse(r#"{"name": "a.json", "path": "p/a.json", "content": null}"#).unwrap();
    assert_eq!(
        Content::from_json(&bare).unwrap(),
        Content {
            name: "a.json".to_string(),
            path: "p/a.json".to_string(),
            content: None,
            encoding: None,
        }
    );
    let bad = Json::parse(r#"{"name": "a.json", "path": "p/a.json", "content": 5}"#).unwrap();
    assert_eq!(
        Content::from_json(&bad).unwrap_err(),
        "invalid type for field `content`, expected a string or null"
    );
    let bad = Json::parse(r#"{"name": "a.json"}"#).unwrap();
    assert_eq!(Content::from_json(&bad).unwrap_err(), "missing field `path`");
    assert_eq!(
        Content::from_json(&Json::Array(vec![])).unwrap_err(),
        "a file description must be an object"
    );
}

#[test]
fn the_text_of_a_file_is_the_body_of_a_successful_answer() {
    assert_eq!(file_content(answer(true, "[1, 2]")).unwrap(), "[1, 2]");
    assert_eq!(file_content(answer(true, "")).unwrap(), "");
}

#[test]
fn an_answer_without_success_is_a_file_not_found() {
    let e = file_content(answer(false, "404: Not Found")).unwrap_err();
    assert_eq!(e.kind(), ErrorKind::NotFound);
    assert_eq!(e.message(), "Failed to fetch file");
}

#[test]
fn a_request_that_did_not_get_through_is_a_network_failure() {
    let e = file_content(Reply::Failed("connection refused".to_string())).unwrap_err();
    assert_eq!(e.kind(), ErrorKind::Network);
    assert_eq!(e.message(), "connection refused");
    let e = repo_listing(Reply::Failed("dns error".to_string())).unwrap_err();
    assert_eq!(e.kind(), ErrorKind::Network);
    assert_eq!(e.message(), "dns error");
}

#[test]
fn a_listing_is_taken_from_the_body_of_the_answer() {
    let body = r#"[{"name": "math.json", "path": "Quiz/Quizzes/math.json", "type": "file"}]"#;
    assert_eq!(
        repo_listing(answer(true, body)).unwrap(),
        vec![item("math.json", "Quiz/Quizzes/math.json", "file")]
    );
    let e = repo_listing(answer(false, r#"{"message": "Not Found"}"#)).unwrap_err();
    assert_eq!(e.kind(), ErrorKind::RemoteProtocol);
}

#[test]
fn a_failure_holds_its_kind_and_message() {
    let e = QuizError::new(ErrorKind::Io, "disk full".to_string());
    assert_eq!(e.kind(), ErrorKind::Io);
    assert_eq!(e.message(), "disk full");
    assert_eq!(e.clone(), e);
    assert_ne!(e, QuizError::new(ErrorKind::Network, "disk full".to_string()));
    assert_ne!(e, QuizError::new(ErrorKind::Io, "disk".to_string()));
}
