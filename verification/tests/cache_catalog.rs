use modular_quiz_app::cache::has_quiz_extension;
use modular_quiz_app::cache::list_quizzes;
use modular_quiz_app::cache::quiz_file_name;
use modular_quiz_app::cache::quiz_name;
use modular_quiz_app::cache::CacheDir;
use modular_quiz_app::cache::DirEntry;
use modular_quiz_app::text::has_suffix;
use modular_quiz_app::text::join2;
use modular_quiz_app::text::join3;
use modular_quiz_app::text::strip_suffix;

fn file(name: &str) -> DirEntry {
    DirEntry { name: name.to_string(), is_file: true }
}

fn dir(name: &str) -> DirEntry {
    DirEntry { name: name.to_string(), is_file: false }
}

#[test]
fn a_quiz_is_named_after_its_file() {
    assert_eq!(quiz_name("general.json"), "general");
    assert_eq!(quiz_name("math.json"), "math");
    assert_eq!(quiz_name("a.b.json"), "a.b");
    assert_eq!(quiz_name(".json"), "");
    assert_eq!(quiz_name("x.json.json"), "x.json");
}

#[test]
fn a_name_without_the_extension_stays_whole() {
    assert_eq!(quiz_name("general"), "general");
    assert_eq!(quiz_name("general.JSON"), "general.JSON");
    assert_eq!(quiz_name("general.json.bak"), "general.json.bak");
    assert_eq!(quiz_name("json"), "json");
    assert_eq!(quiz_name(""), "");
}

#[test]
fn only_the_extension_at_the_end_is_taken_off() {
    assert_eq!(quiz_name("my.json.notes.json"), "my.json.notes");
}

#[test]
fn names_beyond_ascii_are_cut_by_characters() {
    assert_eq!(quiz_name("größe.json"), "größe");
    assert_eq!(quiz_name("日本語.json"), "日本語");
    assert_eq!(quiz_name("日本語"), "日本語");
    assert!(has_quiz_extension("é.json"));
    assert!(!has_quiz_extension("json.é"));
}

#[test]
fn the_file_of_a_quiz_bears_the_extension() {
    assert_eq!(quiz_file_name("general"), "general.json");
    assert_eq!(quiz_file_name(""), ".json");
    assert_eq!(quiz_file_name("a.json"), "a.json.json");
    for name in ["general", "", "a.json", "größe"] {
        assert!(has_quiz_extension(&quiz_file_name(name)));
        assert_eq!(quiz_name(&quiz_file_name(name)), name);
    }
}

#[test]
fn quiz_files_are_known_by_their_extension() {
    assert!(has_quiz_extension("math.json"));
    assert!(has_quiz_extension(".json"));
    assert!(!has_quiz_extension("math.txt"));
    assert!(!has_quiz_extension("json"));
    assert!(!has_quiz_extension("math.json "));
    assert!(!has_quiz_extension(""));
}

#[test]
fn a_cache_with_general_json_lists_general_once() {
    let listing = CacheDir::Present(vec![file("general.json")]);
    assert_eq!(list_quizzes(&listing), vec!["general".to_string()]);
    let listing = CacheDir::Present(vec![
        file("math.json"),
        dir("general"),
        file("general.json"),
        file("history.json"),
    ]);
    let names = list_quizzes(&listing);
    assert_eq!(names.iter().filter(|n| n.as_str() == "general").count(), 1);
}

#[test]
fn a_missing_cache_directory_lists_nothing() {
    assert_eq!(list_quizzes(&CacheDir::Missing), Vec::<String>::new());
    assert_eq!(list_quizzes(&CacheDir::Present(vec![])), Vec::<String>::new());
}

#[test]
fn entries_that_are_no_files_are_passed_over() {
    let listing = CacheDir::Present(vec![dir("archive"), file("math.json"), dir("old.json")]);
    assert_eq!(list_quizzes(&listing), vec!["math".to_string()]);
    let listing = CacheDir::Present(vec![dir("a"), dir("b.json")]);
    assert_eq!(list_quizzes(&listing), Vec::<String>::new());
}

#[test]
fn the_listing_keeps_the_order_of_the_entries() {
    let listing = CacheDir::Present(vec![file("b.json"), file("a.json"), file("notes.txt")]);
    assert_eq!(
        list_quizzes(&listing),
        vec!["b".to_string(), "a".to_string(), "notes.txt".to_string()]
    );
}

#[test]
fn a_file_with_the_bare_name_is_listed_beside_the_quiz_file() {
    let listing = CacheDir::Present(vec![file("general.json"), file("general")]);
    assert_eq!(list_quizzes(&listing), vec!["general".to_string(), "general".to_string()]);
}

#[test]
fn suffixes_are_told_and_taken_off() {
    assert!(has_suffix("abc", "bc"));
    assert!(has_suffix("abc", "abc"));
    assert!(has_suffix("abc", ""));
    assert!(has_suffix("", ""));
    assert!(!has_suffix("abc", "ab"));
    assert!(!has_suffix("bc", "abc"));
    assert!(!has_suffix("", "a"));
    assert_eq!(strip_suffix("abc", "bc"), Some("a".to_string()));
    assert_eq!(strip_suffix("abc", "abc"), Some(String::new()));
    assert_eq!(strip_suffix("abc", ""), Some("abc".to_string()));
    assert_eq!(strip_suffix("abc", "ab"), None);
    assert_eq!(strip_suffix("bc", "abc"), None);
    assert_eq!(strip_suffix("naïve.json", ".json"), Some("naïve".to_string()));
}

#[test]
fn texts_are_joined_in_their_order() {
    assert_eq!(join2("ab", "cd"), "abcd");
    assert_eq!(join2("", "cd"), "cd");
    assert_eq!(join2("ab", ""), "ab");
    assert_eq!(join3("a", "b", "c"), "abc");
    assert_eq!(join3("", "", ""), "");
    assert_eq!(join3("x/", "", "/y"), "x//y");
}
