//! The quiz cache: how a quiz is named after its file, and which quizzes a
//! cache directory holds.

use vstd::prelude::*;
use crate::text::ends_with;
use crate::text::has_suffix;
use crate::text::join2;
use crate::text::lemma_append_ends_with;
use crate::text::lemma_ends_with_splits;
use crate::text::strip_suffix;
use crate::text::texts;
use crate::text::without_last;

verus! {

/// The extension of a quiz file.
pub open spec fn quiz_extension() -> Seq<char> {
    ".json"@
}

/// Whether a file of this name is a quiz file: its name ends with the
/// extension.
pub open spec fn is_quiz_file(file_name: Seq<char>) -> bool {
    ends_with(file_name, quiz_extension())
}

/// The quiz name of a file: its name without the extension, or the whole
/// name where it does not end with the extension.
pub open spec fn quiz_name_of(file_name: Seq<char>) -> Seq<char> {
    if is_quiz_file(file_name) {
        without_last(file_name, quiz_extension().len())
    } else {
        file_name
    }
}

/// The name of the file that holds the quiz `quiz_name`.
pub open spec fn quiz_file_of(quiz_name: Seq<char>) -> Seq<char> {
    quiz_name + quiz_extension()
}

/// The file of a quiz is a quiz file, and is named after that quiz.
pub proof fn lemma_quiz_file_round_trip(quiz_name: Seq<char>)
    ensures
        is_quiz_file(quiz_file_of(quiz_name)),
        quiz_name_of(quiz_file_of(quiz_name)) == quiz_name,
{
    lemma_append_ends_with(quiz_name, quiz_extension());
}

/// Two quizzes have one file only where they are one quiz.
pub proof fn lemma_quiz_file_is_one_to_one(a: Seq<char>, b: Seq<char>)
    requires
        quiz_file_of(a) == quiz_file_of(b),
    ensures
        a == b,
{
    lemma_quiz_file_round_trip(a);
    lemma_quiz_file_round_trip(b);
}

/// A file is named after the quiz `quiz_name` exactly when it is that quiz's
/// file, or bears the bare quiz name and is no quiz file.
pub proof fn lemma_named_after(file_name: Seq<char>, quiz_name: Seq<char>)
    ensures
        quiz_name_of(file_name) == quiz_name <==> (file_name == quiz_file_of(quiz_name) || (
        file_name == quiz_name && !is_quiz_file(file_name))),
{
    lemma_quiz_file_round_trip(quiz_name);
    if is_quiz_file(file_name) {
        lemma_ends_with_splits(file_name, quiz_extension());
    }
}

/// Whether a file of this name is a quiz file.
pub fn has_quiz_extension(file_name: &str) -> (b: bool)
    ensures
        b == is_quiz_file(file_name@),
{
    has_suffix(file_name, ".json")
}

/// The quiz name of a file.
pub fn quiz_name(file_name: &str) -> (name: String)
    ensures
        name@ == quiz_name_of(file_name@),
{
    match strip_suffix(file_name, ".json") {
        Some(stem) => stem,
        None => file_name.to_owned(),
    }
}

/// The name of the file that holds the quiz `quiz_name`.
pub fn quiz_file_name(quiz_name: &str) -> (file_name: String)
    ensures
        file_name@ == quiz_file_of(quiz_name@),
{
    join2(quiz_name, ".json")
}

/// One entry of the cache directory.
#[derive(Clone, Debug, PartialEq, Eq)]
pub struct DirEntry {
    /// The name of the entry, without the directory.
    pub name: String,
    /// Whether the entry is a regular file.
    pub is_file: bool,
}

/// An entry by its values.
pub struct EntryView {
    pub name: Seq<char>,
    pub is_file: bool,
}

impl View for DirEntry {
    type V = EntryView;

    open spec fn view(&self) -> EntryView {
        EntryView { name: self.name@, is_file: self.is_file }
    }
}

/// What a look at the cache directory gave.
#[derive(Clone, Debug, PartialEq, Eq)]
pub enum CacheDir {
    /// There is no such directory.
    Missing,
    /// The entries of the directory, in the order in which the file system
    /// names them.
    Present(Vec<DirEntry>),
}

/// The views of a list of entries.
pub open spec fn entry_views(entries: Seq<DirEntry>) -> Seq<EntryView> {
    entries.map_values(|e: DirEntry| e@)
}

/// The quiz names of the regular files among `entries`, in their order.
pub open spec fn names_of(entries: Seq<EntryView>) -> Seq<Seq<char>>
    decreases entries.len(),
{
    if entries.len() == 0 {
        Seq::empty()
    } else if entries.last().is_file {
        names_of(entries.drop_last()).push(quiz_name_of(entries.last().name))
    } else {
        names_of(entries.drop_last())
    }
}

/// The quizzes of a cache directory: none where the directory is missing,
/// else the quiz names of its regular files.
pub open spec fn catalog_of(dir: CacheDir) -> Seq<Seq<char>> {
    match dir {
        CacheDir::Missing => Seq::empty(),
        CacheDir::Present(entries) => names_of(entry_views(entries@)),
    }
}

/// The number of regular files among `entries` that are named after the quiz
/// `quiz_name`.
pub open spec fn files_named_after(entries: Seq<EntryView>, quiz_name: Seq<char>) -> nat
    decreases entries.len(),
{
    if entries.len() == 0 {
        0
    } else {
        let before = files_named_after(entries.drop_last(), quiz_name);
        if entries.last().is_file && quiz_name_of(entries.last().name) == quiz_name {
            before + 1
        } else {
            before
        }
    }
}

/// A quiz is listed as often as there are regular files named after it.
pub proof fn lemma_listed_per_file(entries: Seq<EntryView>, quiz_name: Seq<char>)
    ensures
        names_of(entries).to_multiset().count(quiz_name) == files_named_after(entries, quiz_name),
    decreases entries.len(),
{
    broadcast use vstd::seq_lib::group_to_multiset_ensures;

    if entries.len() > 0 {
        lemma_listed_per_file(entries.drop_last(), quiz_name);
    }
}

/// No other regular file but the one at `at` is named after the quiz
/// `quiz_name`: then `at` is the only one counted.
proof fn lemma_single_file(entries: Seq<EntryView>, quiz_name: Seq<char>, at: int)
    requires
        forall|j: int|
            0 <= j < entries.len() && j != at ==> !((#[trigger] entries[j]).is_file && quiz_name_of(
                entries[j].name,
            ) == quiz_name),
    ensures
        files_named_after(entries, quiz_name) == (if 0 <= at < entries.len() && entries[at].is_file
            && quiz_name_of(entries[at].name) == quiz_name {
            1nat
        } else {
            0nat
        }),
    decreases entries.len(),
{
    if entries.len() > 0 {
        let front = entries.drop_last();
        assert forall|j: int| 0 <= j < front.len() && j != at implies !((
        #[trigger] front[j]).is_file && quiz_name_of(front[j].name) == quiz_name) by {
            assert(front[j] == entries[j]);
        }
        lemma_single_file(front, quiz_name, at);
        if 0 <= at < front.len() {
            assert(front[at] == entries[at]);
        }
    }
}

/// A directory that holds the file of a quiz as a regular file, and no other
/// regular file that is named after that quiz, lists the quiz exactly once.
/// By [`lemma_named_after`], another such file would be a second entry of
/// the same name, or a file that bears the bare quiz name without the
/// extension.
pub proof fn lemma_quiz_listed_once(entries: Seq<EntryView>, quiz_name: Seq<char>, at: int)
    requires
        0 <= at < entries.len(),
        entries[at].is_file,
        entries[at].name == quiz_file_of(quiz_name),
        forall|j: int|
            0 <= j < entries.len() && j != at ==> !((#[trigger] entries[j]).is_file && quiz_name_of(
                entries[j].name,
            ) == quiz_name),
    ensures
        names_of(entries).to_multiset().count(quiz_name) == 1,
{
    lemma_quiz_file_round_trip(quiz_name);
    lemma_single_file(entries, quiz_name, at);
    lemma_listed_per_file(entries, quiz_name);
}

/// The quizzes of a cache directory.
///
/// A directory that is missing holds none. Of one that is there, each
/// regular file gives its quiz name; other entries are passed over. The
/// names come in the order of the entries.
pub fn list_quizzes(dir: &CacheDir) -> (quizzes: Vec<String>)
    ensures
        texts(quizzes@) == catalog_of(*dir),
{
    let mut quizzes: Vec<String> = Vec::new();
    match dir {
        CacheDir::Missing => {
            assert(texts(quizzes@) =~= Seq::empty());
        },
        CacheDir::Present(entries) => {
            let ghost all = entry_views(entries@);
            let mut i: usize = 0;
            assert(all.take(0) =~= Seq::empty());
            assert(texts(quizzes@) =~= Seq::empty());
            while i < entries.len()
                invariant
                    i <= entries.len(),
                    all == entry_views(entries@),
                    texts(quizzes@) == names_of(all.take(i as int)),
                decreases entries.len() - i,
            {
                let ghost before = texts(quizzes@);
                assert(all.take(i + 1).drop_last() =~= all.take(i as int));
                assert(all.take(i + 1).last() == entries@[i as int]@);
                if entries[i].is_file {
                    quizzes.push(quiz_name(entries[i].name.as_str()));
                    assert(texts(quizzes@) =~= before.push(
                        quiz_name_of(entries@[i as int].name@),
                    ));
                }
                i += 1;
            }
            assert(all.take(i as int) =~= all);
        },
    }
    quizzes
}

} // verus!
