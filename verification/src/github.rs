//! The remote source of quizzes: where its listing and its files are asked
//! for, and what is made of its answers.

use vstd::prelude::*;
use crate::decode::optional_text_field;
use crate::decode::spec_optional_text_field;
use crate::decode::spec_text_field;
use crate::decode::text_field;
use crate::error::ErrorKind;
use crate::error::ErrorView;
use crate::error::failure;
use crate::error::QuizError;
use crate::json::Json;
use crate::json::json_document;
use crate::json::JsonValue;
use crate::seqs::lemma_try_map_step;
use crate::seqs::lemma_try_map_stops;
use crate::seqs::try_map;
use crate::text::join2;
use crate::text::join3;

verus! {

/// One entry of a remote directory listing.
#[derive(Clone, Debug, PartialEq, Eq)]
pub struct RepoItem {
    pub name: String,
    pub path: String,
    /// What the entry is: `file`, `dir` and so on. The listing has it under
    /// `type`.
    pub item_type: String,
}

/// An entry of a listing by its values.
pub struct RepoItemView {
    pub name: Seq<char>,
    pub path: Seq<char>,
    pub item_type: Seq<char>,
}

impl View for RepoItem {
    type V = RepoItemView;

    open spec fn view(&self) -> RepoItemView {
        RepoItemView { name: self.name@, path: self.path@, item_type: self.item_type@ }
    }
}

/// A remote file as the contents interface describes it.
#[derive(Clone, Debug, PartialEq, Eq)]
pub struct Content {
    pub name: String,
    pub path: String,
    pub content: Option<String>,
    pub encoding: Option<String>,
}

/// A remote file by its values.
pub struct ContentView {
    pub name: Seq<char>,
    pub path: Seq<char>,
    pub content: Option<Seq<char>>,
    pub encoding: Option<Seq<char>>,
}

/// The view of a text that may be absent.
pub open spec fn optional_text(s: Option<String>) -> Option<Seq<char>> {
    match s {
        Some(s) => Some(s@),
        None => None,
    }
}

impl View for Content {
    type V = ContentView;

    open spec fn view(&self) -> ContentView {
        ContentView {
            name: self.name@,
            path: self.path@,
            content: optional_text(self.content),
            encoding: optional_text(self.encoding),
        }
    }
}

/// The views of a list of entries.
pub open spec fn item_views(items: Seq<RepoItem>) -> Seq<RepoItemView> {
    items.map_values(|item: RepoItem| item@)
}

/// The address at which the contents interface describes `path` of the
/// repository `repo` of `owner`.
pub open spec fn spec_contents_url(owner: Seq<char>, repo: Seq<char>, path: Seq<char>) -> Seq<
    char,
> {
    "https://api.github.com/repos/"@ + owner + "/"@ + repo + "/contents/"@ + path
}

/// The address of the listing of the quiz directory.
pub open spec fn spec_listing_url(owner: Seq<char>, repo: Seq<char>) -> Seq<char> {
    spec_contents_url(owner, repo, "Quiz/Quizzes"@)
}

/// The address of the raw text of the quiz file `file_name`.
pub open spec fn spec_raw_file_url(owner: Seq<char>, repo: Seq<char>, file_name: Seq<char>) -> Seq<
    char,
> {
    "https://raw.githubusercontent.com/"@ + owner + "/"@ + repo + "/main/Quiz/Quizzes/"@
        + file_name
}

/// The address at which the contents interface describes `path`.
pub fn contents_url(owner: &str, repo: &str, path: &str) -> (url: String)
    ensures
        url@ == spec_contents_url(owner@, repo@, path@),
{
    let head = join3("https://api.github.com/repos/", owner, "/");
    let middle = join3(head.as_str(), repo, "/contents/");
    join2(middle.as_str(), path)
}

/// The address of the listing of the quiz directory.
pub fn listing_url(owner: &str, repo: &str) -> (url: String)
    ensures
        url@ == spec_listing_url(owner@, repo@),
{
    contents_url(owner, repo, "Quiz/Quizzes")
}

/// The address of the raw text of the quiz file `file_name`.
pub fn raw_file_url(owner: &str, repo: &str, file_name: &str) -> (url: String)
    ensures
        url@ == spec_raw_file_url(owner@, repo@, file_name@),
{
    let head = join3("https://raw.githubusercontent.com/", owner, "/");
    let middle = join3(head.as_str(), repo, "/main/Quiz/Quizzes/");
    join2(middle.as_str(), file_name)
}

/// The entry that a JSON value holds: an object with strings under `name`,
/// `path` and `type`. Else the reason why it holds none.
pub open spec fn repo_item_of(v: JsonValue) -> Result<RepoItemView, Seq<char>> {
    if !(v is Object) {
        Err("an entry must be an object"@)
    } else {
        match spec_text_field(v, "name"@) {
            Err(reason) => Err(reason),
            Ok(name) => match spec_text_field(v, "path"@) {
                Err(reason) => Err(reason),
                Ok(path) => match spec_text_field(v, "type"@) {
                    Err(reason) => Err(reason),
                    Ok(item_type) => Ok(RepoItemView { name, path, item_type }),
                },
            },
        }
    }
}

/// [`repo_item_of`] as a value.
pub open spec fn repo_item_step() -> spec_fn(JsonValue) -> Result<RepoItemView, Seq<char>> {
    |v: JsonValue| repo_item_of(v)
}

/// The file description that a JSON value holds: an object with strings
/// under `name` and `path`, and under `content` and `encoding` a string, or
/// `null`, or nothing.
pub open spec fn content_of(v: JsonValue) -> Result<ContentView, Seq<char>> {
    if !(v is Object) {
        Err("a file description must be an object"@)
    } else {
        match spec_text_field(v, "name"@) {
            Err(reason) => Err(reason),
            Ok(name) => match spec_text_field(v, "path"@) {
                Err(reason) => Err(reason),
                Ok(path) => match spec_optional_text_field(v, "content"@) {
                    Err(reason) => Err(reason),
                    Ok(content) => match spec_optional_text_field(v, "encoding"@) {
                        Err(reason) => Err(reason),
                        Ok(encoding) => Ok(ContentView { name, path, content, encoding }),
                    },
                },
            },
        }
    }
}

/// The failure reported for an answer that is no listing, for the given
/// reason.
pub open spec fn protocol_error(reason: Seq<char>) -> ErrorView {
    ErrorView {
        kind: ErrorKind::RemoteProtocol,
        message: "Unexpected answer from the remote source: "@ + reason,
    }
}

/// The listing that a document gives, from what the JSON reader made of its
/// text: an array of entries.
pub open spec fn listing_of(document: Result<JsonValue, Seq<char>>) -> Result<
    Seq<RepoItemView>,
    ErrorView,
> {
    match document {
        Err(reason) => Err(protocol_error(reason)),
        Ok(JsonValue::Array(items)) => match try_map(items, repo_item_step()) {
            Err(reason) => Err(protocol_error(reason)),
            Ok(entries) => Ok(entries),
        },
        Ok(_) => Err(protocol_error("a listing must be a list of entries"@)),
    }
}

fn protocol_failure(reason: &str) -> (e: QuizError)
    ensures
        e@ == protocol_error(reason@),
{
    QuizError::new(
        ErrorKind::RemoteProtocol,
        join2("Unexpected answer from the remote source: ", reason),
    )
}

impl RepoItem {
    /// The entry that `json` holds.
    pub fn from_json(json: &Json) -> (r: Result<RepoItem, String>)
        ensures
            match r {
                Ok(item) => repo_item_of(json@) == Ok::<RepoItemView, Seq<char>>(item@),
                Err(reason) => repo_item_of(json@) == Err::<RepoItemView, Seq<char>>(reason@),
            },
    {
        match json {
            Json::Object(_) => {},
            _ => {
                return Err("an entry must be an object".to_owned());
            },
        }
        let name = match text_field(json, "name") {
            Ok(name) => name,
            Err(reason) => {
                return Err(reason);
            },
        };
        let path = match text_field(json, "path") {
            Ok(path) => path,
            Err(reason) => {
                return Err(reason);
            },
        };
        let item_type = match text_field(json, "type") {
            Ok(item_type) => item_type,
            Err(reason) => {
                return Err(reason);
            },
        };
        Ok(RepoItem { name, path, item_type })
    }
}

impl Content {
    /// The file description that `json` holds.
    pub fn from_json(json: &Json) -> (r: Result<Content, String>)
        ensures
            match r {
                Ok(content) => content_of(json@) == Ok::<ContentView, Seq<char>>(content@),
                Err(reason) => content_of(json@) == Err::<ContentView, Seq<char>>(reason@),
            },
    {
        match json {
            Json::Object(_) => {},
            _ => {
                return Err("a file description must be an object".to_owned());
            },
        }
        let name = match text_field(json, "name") {
            Ok(name) => name,
            Err(reason) => {
                return Err(reason);
            },
        };
        let path = match text_field(json, "path") {
            Ok(path) => path,
            Err(reason) => {
                return Err(reason);
            },
        };
        let content = match optional_text_field(json, "content") {
            Ok(content) => content,
            Err(reason) => {
                return Err(reason);
            },
        };
        let encoding = match optional_text_field(json, "encoding") {
            Ok(encoding) => encoding,
            Err(reason) => {
                return Err(reason);
            },
        };
        Ok(Content { name, path, content, encoding })
    }
}

/// The listing that `json` holds.
pub fn listing_from_json(json: &Json) -> (r: Result<Vec<RepoItem>, QuizError>)
    ensures
        match r {
            Ok(items) => listing_of(Ok(json@)) == Ok::<Seq<RepoItemView>, ErrorView>(
                item_views(items@),
            ),
            Err(e) => listing_of(Ok(json@)) == Err::<Seq<RepoItemView>, ErrorView>(e@),
        },
{
    match json.as_items() {
        None => Err(protocol_failure("a listing must be a list of entries")),
        Some(elements) => {
            let ghost values = json@->Array_0;
            let mut items: Vec<RepoItem> = Vec::new();
            let mut i: usize = 0;
            assert(values.take(0) =~= Seq::empty());
            assert(item_views(items@) =~= Seq::empty());
            while i < elements.len()
                invariant
                    i <= elements.len(),
                    json@ == JsonValue::Array(values),
                    values == elements@.map_values(|j: Json| j@),
                    try_map(values.take(i as int), repo_item_step()) == Ok::<
                        Seq<RepoItemView>,
                        Seq<char>,
                    >(item_views(items@)),
                decreases elements.len() - i,
            {
                proof {
                    lemma_try_map_step(values, repo_item_step(), i as int);
                }
                match RepoItem::from_json(&elements[i]) {
                    Err(reason) => {
                        proof {
                            lemma_try_map_stops(values, repo_item_step(), i as int + 1);
                        }
                        return Err(protocol_failure(reason.as_str()));
                    },
                    Ok(item) => {
                        let ghost before = item_views(items@);
                        items.push(item);
                        assert(item_views(items@) =~= before.push(item@));
                    },
                }
                i += 1;
            }
            assert(values.take(i as int) =~= values);
            Ok(items)
        },
    }
}

/// The listing that the text of an answer holds; else a protocol failure
/// with the reason.
pub fn parse_listing(text: &str) -> (r: Result<Vec<RepoItem>, QuizError>)
    ensures
        match r {
            Ok(items) => listing_of(json_document(text@)) == Ok::<Seq<RepoItemView>, ErrorView>(
                item_views(items@),
            ),
            Err(e) => listing_of(json_document(text@)) == Err::<Seq<RepoItemView>, ErrorView>(e@),
        },
{
    match Json::parse(text) {
        Err(reason) => Err(protocol_failure(reason.as_str())),
        Ok(json) => listing_from_json(&json),
    }
}

/// What came of a request to the remote source.
#[derive(Clone, Debug, PartialEq, Eq)]
pub enum Reply {
    /// The request did not get through; the transport's message.
    Failed(String),
    /// The source answered: whether its status stands for success, and the
    /// text it sent.
    Answer { success: bool, body: String },
}

/// The text of a file, from the answer to the request for it: a network
/// failure where the request did not get through, a file not found where the
/// status is not one of success.
pub open spec fn file_content_of(reply: Reply) -> Result<Seq<char>, ErrorView> {
    match reply {
        Reply::Failed(message) => Err(failure(ErrorKind::Network, message@)),
        Reply::Answer { success, body } => if success {
            Ok(body@)
        } else {
            Err(failure(ErrorKind::NotFound, "Failed to fetch file"@))
        },
    }
}

/// The listing, from the answer to the request for it: a network failure
/// where the request did not get through, else what the text of the answer
/// holds.
pub open spec fn repo_listing_of(reply: Reply) -> Result<Seq<RepoItemView>, ErrorView> {
    match reply {
        Reply::Failed(message) => Err(failure(ErrorKind::Network, message@)),
        Reply::Answer { success, body } => listing_of(json_document(body@)),
    }
}

/// The text of a file, from the answer to the request for it.
pub fn file_content(reply: Reply) -> (r: Result<String, QuizError>)
    ensures
        match r {
            Ok(body) => file_content_of(reply) == Ok::<Seq<char>, ErrorView>(body@),
            Err(e) => file_content_of(reply) == Err::<Seq<char>, ErrorView>(e@),
        },
{
    match reply {
        Reply::Failed(message) => Err(QuizError::new(ErrorKind::Network, message)),
        Reply::Answer { success, body } => {
            if success {
                Ok(body)
            } else {
                Err(QuizError::new(ErrorKind::NotFound, "Failed to fetch file".to_owned()))
            }
        },
    }
}

/// The listing, from the answer to the request for it.
pub fn repo_listing(reply: Reply) -> (r: Result<Vec<RepoItem>, QuizError>)
    ensures
        match r {
            Ok(items) => repo_listing_of(reply) == Ok::<Seq<RepoItemView>, ErrorView>(
                item_views(items@),
            ),
            Err(e) => repo_listing_of(reply) == Err::<Seq<RepoItemView>, ErrorView>(e@),
        },
{
    match reply {
        Reply::Failed(message) => Err(QuizError::new(ErrorKind::Network, message)),
        Reply::Answer { success, body } => parse_listing(body.as_str()),
    }
}

} // verus!
