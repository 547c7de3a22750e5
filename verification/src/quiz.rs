//! Quiz documents: what a valid question is, how a document is read from
//! JSON, and how a quiz is counted and handed out.

use vstd::prelude::*;
use crate::decode::indices_field;
use crate::decode::spec_indices_field;
use crate::decode::spec_text_field;
use crate::decode::spec_texts_field;
use crate::decode::text_field;
use crate::decode::texts_field;
use crate::error::ErrorKind;
use crate::error::ErrorView;
use crate::error::failure;
use crate::error::QuizError;
use crate::json::Json;
use crate::json::json_document;
use crate::json::JsonValue;
use crate::seqs::lemma_try_map;
use crate::seqs::lemma_try_map_step;
use crate::seqs::lemma_try_map_stops;
use crate::seqs::try_map;
use crate::shuffle::arranged;
use crate::shuffle::is_arrangement;
use crate::shuffle::is_rearrangement;
use crate::shuffle::shuffled;
use crate::text::join2;
use crate::text::texts;

verus! {

/// One question of a quiz: its text, the answers offered, and the positions
/// of the answers that are correct.
#[derive(Clone, Debug, PartialEq, Eq)]
pub struct QuizQuestion {
    question_text: String,
    answers: Vec<String>,
    correct_answer_index: Vec<usize>,
}

/// A question by its values.
pub struct QuestionView {
    pub text: Seq<char>,
    pub answers: Seq<Seq<char>>,
    pub correct: Seq<usize>,
}

impl QuestionView {
    /// The first rule that the question breaks, as the reason given for
    /// turning it down; `None` for a question that breaks none.
    pub open spec fn fault(self) -> Option<Seq<char>> {
        if self.text.len() == 0 {
            Some("the question text is empty"@)
        } else if self.answers.len() < 2 {
            Some("a question needs at least two answers"@)
        } else if self.correct.len() == 0 {
            Some("no answer is marked as correct"@)
        } else if exists|i: int|
            0 <= i < self.correct.len() && self.correct[i] >= self.answers.len() {
            Some("a correct answer index is out of range"@)
        } else {
            None
        }
    }

    /// The question has a text, at least two answers and at least one correct
    /// answer, and every correct answer is one of its answers.
    pub open spec fn valid(self) -> bool {
        &&& self.text.len() > 0
        &&& self.answers.len() >= 2
        &&& self.correct.len() > 0
        &&& (forall|i: int|
            0 <= i < self.correct.len() ==> (#[trigger] self.correct[i]) < self.answers.len())
    }
}

/// A question is turned down exactly when it is not valid.
pub proof fn lemma_fault_iff_invalid(q: QuestionView)
    ensures
        q.fault() is None <==> q.valid(),
{
}

impl View for QuizQuestion {
    type V = QuestionView;

    closed spec fn view(&self) -> QuestionView {
        QuestionView {
            text: self.question_text@,
            answers: texts(self.answers@),
            correct: self.correct_answer_index@,
        }
    }
}

/// The views of a list of questions.
pub open spec fn question_views(questions: Seq<QuizQuestion>) -> Seq<QuestionView> {
    questions.map_values(|q: QuizQuestion| q@)
}

/// The question that a JSON value holds: an object with the text under
/// `questionText`, the answers under `answers` and the correct positions
/// under `correctAnswerIndex`, which together make a valid question. Else the
/// reason why it holds none.
pub open spec fn question_of(v: JsonValue) -> Result<QuestionView, Seq<char>> {
    if !(v is Object) {
        Err("a question must be an object"@)
    } else {
        match spec_text_field(v, "questionText"@) {
            Err(reason) => Err(reason),
            Ok(text) => match spec_texts_field(v, "answers"@) {
                Err(reason) => Err(reason),
                Ok(answers) => match spec_indices_field(v, "correctAnswerIndex"@) {
                    Err(reason) => Err(reason),
                    Ok(correct) => {
                        let q = QuestionView { text, answers, correct };
                        match q.fault() {
                            Some(reason) => Err(reason),
                            None => Ok(q),
                        }
                    },
                },
            },
        }
    }
}

/// [`question_of`] as a value.
pub open spec fn question_step() -> spec_fn(JsonValue) -> Result<QuestionView, Seq<char>> {
    |v: JsonValue| question_of(v)
}

/// The questions that a JSON value holds: an array, each element a question.
/// Else the reason why it holds none: that of the first element that is no
/// question.
pub open spec fn questions_of(v: JsonValue) -> Result<Seq<QuestionView>, Seq<char>> {
    match v {
        JsonValue::Array(items) => try_map(items, question_step()),
        _ => Err("a quiz must be a list of questions"@),
    }
}

/// The failure reported for a document that is no quiz, for the given reason.
pub open spec fn parse_error(reason: Seq<char>) -> ErrorView {
    ErrorView { kind: ErrorKind::Parse, message: "Failed to parse quiz content: "@ + reason }
}

/// What a document gives, from what the JSON reader made of its text.
pub open spec fn quiz_of(document: Result<JsonValue, Seq<char>>) -> Result<
    Seq<QuestionView>,
    ErrorView,
> {
    match document {
        Err(reason) => Err(parse_error(reason)),
        Ok(v) => match questions_of(v) {
            Err(reason) => Err(parse_error(reason)),
            Ok(questions) => Ok(questions),
        },
    }
}

/// Whatever is read as a quiz holds valid questions only.
pub proof fn lemma_quiz_is_valid(
    document: Result<JsonValue, Seq<char>>,
    questions: Seq<QuestionView>,
)
    requires
        quiz_of(document) == Ok::<Seq<QuestionView>, ErrorView>(questions),
    ensures
        forall|i: int| 0 <= i < questions.len() ==> (#[trigger] questions[i]).valid(),
{
    if let Ok(JsonValue::Array(items)) = document {
        lemma_try_map(items, question_step());
        assert forall|i: int| 0 <= i < questions.len() implies (#[trigger] questions[i]).valid() by {
            assert(question_step()(items[i]) == Ok::<QuestionView, Seq<char>>(questions[i]));
            lemma_fault_iff_invalid(questions[i]);
        }
    }
}

fn parse_failure(reason: &str) -> (e: QuizError)
    ensures
        e@ == parse_error(reason@),
{
    QuizError::new(ErrorKind::Parse, join2("Failed to parse quiz content: ", reason))
}

impl QuizQuestion {
    /// A question of the given parts, where they make a valid one; else the
    /// reason why they do not.
    pub fn new(question_text: String, answers: Vec<String>, correct_answer_index: Vec<usize>) -> (r:
        Result<QuizQuestion, String>)
        ensures
            ({
                let q = QuestionView {
                    text: question_text@,
                    answers: texts(answers@),
                    correct: correct_answer_index@,
                };
                match r {
                    Ok(question) => q.fault() is None && question@ == q,
                    Err(reason) => q.fault() == Some(reason@),
                }
            }),
    {
        if question_text.as_str().unicode_len() == 0 {
            return Err("the question text is empty".to_owned());
        }
        if answers.len() < 2 {
            return Err("a question needs at least two answers".to_owned());
        }
        if correct_answer_index.len() == 0 {
            return Err("no answer is marked as correct".to_owned());
        }
        let mut i: usize = 0;
        while i < correct_answer_index.len()
            invariant
                i <= correct_answer_index.len(),
                question_text@.len() > 0,
                answers@.len() >= 2,
                correct_answer_index@.len() > 0,
                forall|k: int| 0 <= k < i ==> (#[trigger] correct_answer_index@[k]) < answers@.len(),
            decreases correct_answer_index.len() - i,
        {
            if correct_answer_index[i] >= answers.len() {
                return Err("a correct answer index is out of range".to_owned());
            }
            i += 1;
        }
        Ok(QuizQuestion { question_text, answers, correct_answer_index })
    }

    /// The question that `json` holds.
    pub fn from_json(json: &Json) -> (r: Result<QuizQuestion, String>)
        ensures
            match r {
                Ok(question) => question_of(json@) == Ok::<QuestionView, Seq<char>>(question@),
                Err(reason) => question_of(json@) == Err::<QuestionView, Seq<char>>(reason@),
            },
    {
        match json {
            Json::Object(_) => {},
            _ => {
                return Err("a question must be an object".to_owned());
            },
        }
        let question_text = match text_field(json, "questionText") {
            Ok(text) => text,
            Err(reason) => {
                return Err(reason);
            },
        };
        let answers = match texts_field(json, "answers") {
            Ok(answers) => answers,
            Err(reason) => {
                return Err(reason);
            },
        };
        let correct_answer_index = match indices_field(json, "correctAnswerIndex") {
            Ok(correct) => correct,
            Err(reason) => {
                return Err(reason);
            },
        };
        QuizQuestion::new(question_text, answers, correct_answer_index)
    }

    /// The text of the question.
    pub fn question_text(&self) -> (text: &String)
        ensures
            text@ == self@.text,
    {
        &self.question_text
    }

    /// The answers offered, in their order.
    pub fn answers(&self) -> (answers: &Vec<String>)
        ensures
            texts(answers@) == self@.answers,
    {
        &self.answers
    }

    /// The positions, among the answers, of those that are correct.
    pub fn correct_answer_index(&self) -> (correct: &Vec<usize>)
        ensures
            correct@ == self@.correct,
    {
        &self.correct_answer_index
    }
}

/// A quiz document: its questions in the order of the document.
#[derive(Clone, Debug, PartialEq, Eq)]
pub struct Quiz {
    questions: Vec<QuizQuestion>,
}

impl View for Quiz {
    type V = Seq<QuestionView>;

    closed spec fn view(&self) -> Seq<QuestionView> {
        question_views(self.questions@)
    }
}

impl Quiz {
    /// The quiz that `json` holds; else a parse failure with the reason.
    pub fn from_json(json: &Json) -> (r: Result<Quiz, QuizError>)
        ensures
            match r {
                Ok(quiz) => quiz_of(Ok(json@)) == Ok::<Seq<QuestionView>, ErrorView>(quiz@),
                Err(e) => quiz_of(Ok(json@)) == Err::<Seq<QuestionView>, ErrorView>(e@),
            },
    {
        match json.as_items() {
            None => Err(parse_failure("a quiz must be a list of questions")),
            Some(items) => {
                let ghost values = json@->Array_0;
                let mut questions: Vec<QuizQuestion> = Vec::new();
                let mut i: usize = 0;
                assert(values.take(0) =~= Seq::empty());
                assert(question_views(questions@) =~= Seq::empty());
                while i < items.len()
                    invariant
                        i <= items.len(),
                        json@ == JsonValue::Array(values),
                        values == items@.map_values(|j: Json| j@),
                        try_map(values.take(i as int), question_step()) == Ok::<
                            Seq<QuestionView>,
                            Seq<char>,
                        >(question_views(questions@)),
                    decreases items.len() - i,
                {
                    proof {
                        lemma_try_map_step(values, question_step(), i as int);
                    }
                    match QuizQuestion::from_json(&items[i]) {
                        Err(reason) => {
                            proof {
                                lemma_try_map_stops(values, question_step(), i as int + 1);
                            }
                            return Err(parse_failure(reason.as_str()));
                        },
                        Ok(question) => {
                            let ghost before = question_views(questions@);
                            questions.push(question);
                            assert(question_views(questions@) =~= before.push(question@));
                        },
                    }
                    i += 1;
                }
                assert(values.take(i as int) =~= values);
                Ok(Quiz { questions })
            },
        }
    }

    /// The quiz that the text of a document holds; else a parse failure with
    /// the reason.
    pub fn parse(text: &str) -> (r: Result<Quiz, QuizError>)
        ensures
            match r {
                Ok(quiz) => quiz_of(json_document(text@)) == Ok::<Seq<QuestionView>, ErrorView>(
                    quiz@,
                ),
                Err(e) => quiz_of(json_document(text@)) == Err::<Seq<QuestionView>, ErrorView>(
                    e@,
                ),
            },
    {
        match Json::parse(text) {
            Err(reason) => Err(parse_failure(reason.as_str())),
            Ok(json) => Quiz::from_json(&json),
        }
    }

    /// The number of questions.
    pub fn question_count(&self) -> (count: usize)
        ensures
            count == self@.len(),
    {
        self.questions.len()
    }

    /// The questions, in the order of the document.
    pub fn questions(&self) -> (questions: &Vec<QuizQuestion>)
        ensures
            question_views(questions@) == self@,
    {
        &self.questions
    }

    /// The questions, in the order of the document.
    pub fn into_questions(self) -> (questions: Vec<QuizQuestion>)
        ensures
            question_views(questions@) == self@,
    {
        self.questions
    }
}

/// What reading a quiz file from the cache gave.
#[derive(Clone, Debug, PartialEq, Eq)]
pub enum FileRead {
    /// There is no such file.
    Missing,
    /// The file is there and could not be opened.
    OpenFailed,
    /// The file was opened and could not be read as text.
    ReadFailed,
    /// The text of the file.
    Contents(String),
}

/// The quiz that a file gives: its questions in the order of the document,
/// or the failure that stands for what went wrong.
pub open spec fn document_of(read: FileRead) -> Result<Seq<QuestionView>, ErrorView> {
    match read {
        FileRead::Missing => Err(failure(ErrorKind::NotFound, "Quiz file does not exist"@)),
        FileRead::OpenFailed => Err(failure(ErrorKind::Io, "Failed to open quiz file"@)),
        FileRead::ReadFailed => Err(failure(ErrorKind::Io, "Failed to read quiz file"@)),
        FileRead::Contents(text) => quiz_of(json_document(text@)),
    }
}

/// The number of questions that a file gives, or the failure.
pub open spec fn count_of(read: FileRead) -> Result<nat, ErrorView> {
    match document_of(read) {
        Ok(questions) => Ok(questions.len()),
        Err(e) => Err(e),
    }
}

/// The quiz that a file gives.
pub fn read_quiz(read: &FileRead) -> (r: Result<Quiz, QuizError>)
    ensures
        match r {
            Ok(quiz) => document_of(*read) == Ok::<Seq<QuestionView>, ErrorView>(quiz@),
            Err(e) => document_of(*read) == Err::<Seq<QuestionView>, ErrorView>(e@),
        },
{
    match read {
        FileRead::Missing => Err(
            QuizError::new(ErrorKind::NotFound, "Quiz file does not exist".to_owned()),
        ),
        FileRead::OpenFailed => Err(
            QuizError::new(ErrorKind::Io, "Failed to open quiz file".to_owned()),
        ),
        FileRead::ReadFailed => Err(
            QuizError::new(ErrorKind::Io, "Failed to read quiz file".to_owned()),
        ),
        FileRead::Contents(text) => Quiz::parse(text.as_str()),
    }
}

/// The number of questions in a quiz file.
///
/// Fails with `NotFound` for a file that is missing, with `Io` for one that
/// cannot be opened or read, and with `Parse` for one that holds no valid
/// quiz.
pub fn get_question_count(read: &FileRead) -> (r: Result<usize, QuizError>)
    ensures
        match r {
            Ok(count) => count_of(*read) == Ok::<nat, ErrorView>(count as nat),
            Err(e) => count_of(*read) == Err::<nat, ErrorView>(e@),
        },
{
    match read_quiz(read) {
        Ok(quiz) => Ok(quiz.question_count()),
        Err(e) => Err(e),
    }
}

/// The questions of a quiz file in a random order.
///
/// Fails as [`get_question_count`] does. Where it succeeds, it hands out the
/// questions of the document, each once and as the document has it; only
/// their order is new.
pub fn load_quiz_data(read: &FileRead) -> (r: Result<Vec<QuizQuestion>, QuizError>)
    ensures
        match r {
            Ok(questions) => {
                &&& document_of(*read) matches Ok(document)
                &&& is_rearrangement(question_views(questions@), document)
                &&& questions@.len() == document.len()
                &&& forall|i: int|
                    0 <= i < questions@.len() ==> (#[trigger] questions@[i])@.valid()
            },
            Err(e) => document_of(*read) == Err::<Seq<QuestionView>, ErrorView>(e@),
        },
{
    match read_quiz(read) {
        Ok(quiz) => {
            let ghost document = quiz@;
            let mut questions = quiz.into_questions();
            let ghost in_order = questions@;
            shuffle_questions(&mut questions);
            proof {
                assert(*read is Contents);
                let text = read->Contents_0;
                assert(quiz_of(json_document(text@)) == Ok::<Seq<QuestionView>, ErrorView>(
                    document,
                ));
                lemma_quiz_is_valid(json_document(text@), document);
                let views = question_views(questions@);
                let order = choose|order: Seq<usize>|
                    is_arrangement(order, document.len()) && views == arranged(document, order);
                assert forall|i: int| 0 <= i < questions@.len() implies (
                #[trigger] questions@[i])@.valid() by {
                    assert(views[i] == questions@[i]@);
                    assert(order[i] < document.len());
                    assert(views[i] == document[order[i] as int]);
                    assert(document[order[i] as int].valid());
                }
            }
            Ok(questions)
        },
        Err(e) => Err(e),
    }
}

/// Puts the questions into a random order. Each question stays as it is, and
/// none is lost or added.
pub fn shuffle_questions(questions: &mut Vec<QuizQuestion>)
    ensures
        is_rearrangement(final(questions)@, old(questions)@),
        is_rearrangement(question_views(final(questions)@), question_views(old(questions)@)),
        final(questions)@.len() == old(questions)@.len(),
{
    let mut taken: Vec<QuizQuestion> = Vec::new();
    std::mem::swap(questions, &mut taken);
    let ghost src = taken@;
    let out = shuffled(taken);
    proof {
        lemma_rearrangement_of_views(out@, src);
    }
    *questions = out;
}

/// Where a list of questions is a rearrangement of another, so are their
/// views.
pub proof fn lemma_rearrangement_of_views(out: Seq<QuizQuestion>, src: Seq<QuizQuestion>)
    requires
        is_rearrangement(out, src),
    ensures
        is_rearrangement(question_views(out), question_views(src)),
{
    let order = choose|order: Seq<usize>|
        is_arrangement(order, src.len()) && out == arranged(src, order);
    assert(question_views(out) =~= arranged(question_views(src), order));
}

/// Loading a quiz leaves its count as it is: whatever a load of a file hands
/// out, a count of the same file gives the number of the questions handed
/// out.
pub proof fn lemma_count_is_what_load_returns(read: FileRead, loaded: Seq<QuestionView>)
    requires
        document_of(read) matches Ok(document) && is_rearrangement(loaded, document),
    ensures
        count_of(read) == Ok::<nat, ErrorView>(loaded.len()),
{
}

} // verus!
