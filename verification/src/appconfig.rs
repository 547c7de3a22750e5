//! Where the application keeps its data, and where the quiz cache lies
//! below that place.

use vstd::prelude::*;
use std::path::PathBuf;
use crate::cache::quiz_file_name;
use crate::cache::quiz_file_of;
use crate::text::texts;

verus! {

/// `std::path::PathBuf`, of which nothing is known here but that it can be
/// handed on.
#[verifier::external_type_specification]
#[verifier::external_body]
pub struct ExPathBuf(PathBuf);

/// `PathBuf::clone`: the copy is the path that was copied.
pub assume_specification[ <PathBuf as Clone>::clone ](path: &PathBuf) -> (copy: PathBuf)
    ensures
        copy == *path,
;

/// The configuration of the application: the directory that it may write to.
#[derive(Clone)]
pub struct AppConfig {
    app_dir: PathBuf,
}

impl AppConfig {
    /// The directory that the configuration holds.
    pub closed spec fn dir(&self) -> PathBuf {
        self.app_dir
    }

    /// The configuration for the directory `app_dir`.
    pub fn new(app_dir: PathBuf) -> (config: AppConfig)
        ensures
            config.dir() == app_dir,
    {
        AppConfig { app_dir }
    }

    /// The directory that the application may write to.
    pub fn app_dir(&self) -> (dir: &PathBuf)
        ensures
            *dir == self.dir(),
    {
        &self.app_dir
    }
}

/// The way from the application's directory down to the quiz cache, one
/// directory name after the other.
pub open spec fn cache_dir_parts() -> Seq<Seq<char>> {
    seq!["Quiz"@, "Quizzes"@]
}

/// The way from the application's directory down to the file of a quiz: the
/// cache directory, then the quiz's file.
pub open spec fn quiz_path_parts(quiz_name: Seq<char>) -> Seq<Seq<char>> {
    cache_dir_parts().push(quiz_file_of(quiz_name))
}

/// The way from the application's directory down to the quiz cache.
pub fn quizzes_dir() -> (parts: Vec<String>)
    ensures
        texts(parts@) == cache_dir_parts(),
{
    let mut parts: Vec<String> = Vec::new();
    parts.push("Quiz".to_owned());
    parts.push("Quizzes".to_owned());
    assert(texts(parts@) =~= cache_dir_parts());
    parts
}

/// The way from the application's directory down to the file of the quiz
/// `quiz_name`.
pub fn quiz_path(quiz_name: &str) -> (parts: Vec<String>)
    ensures
        texts(parts@) == quiz_path_parts(quiz_name@),
{
    let mut parts = quizzes_dir();
    let ghost dir = texts(parts@);
    parts.push(quiz_file_name(quiz_name));
    assert(texts(parts@) =~= dir.push(quiz_file_of(quiz_name@)));
    parts
}

} // verus!
