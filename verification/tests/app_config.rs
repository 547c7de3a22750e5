use modular_quiz_app::appconfig::quiz_path;
use modular_quiz_app::appconfig::quizzes_dir;
use modular_quiz_app::appconfig::AppConfig;
use std::path::PathBuf;

#[test]
fn the_configuration_hands_out_its_directory() {
    let config = AppConfig::new(PathBuf::from("/home/user/.local/share/quiz"));
    assert_eq!(config.app_dir(), &PathBuf::from("/home/user/.local/share/quiz"));
    let copy = config.clone();
    assert_eq!(copy.app_dir(), config.app_dir());
}

#[test]
fn the_cache_lies_two_directories_below() {
    assert_eq!(quizzes_dir(), vec!["Quiz".to_string(), "Quizzes".to_string()]);
}

#[test]
fn a_quiz_lies_in_the_cache_under_its_file_name() {
    assert_eq!(
        quiz_path("general"),
        vec!["Quiz".to_string(), "Quizzes".to_string(), "general.json".to_string()]
    );
    let config = AppConfig::new(PathBuf::from("/data"));
    let mut path = config.app_dir().clone();
    for part in quiz_path("math") {
        path.push(part);
    }
    assert_eq!(path, PathBuf::from("/data/Quiz/Quizzes/math.json"));
}
