//! Filling the quiz cache from the remote source.
//!
//! A [`SyncSession`] decides; it does no input or output itself. It names the
//! next thing to do as a [`SyncAction`], and is told what came of it as a
//! [`SyncEvent`]. The session takes one pass: it looks at the cache
//! directory, and only where that is missing or empty does it ask the remote
//! source for its listing and fetch what the cache lacks.

use vstd::prelude::*;
use crate::cache::has_quiz_extension;
use crate::cache::is_quiz_file;
use crate::cache::quiz_name;
use crate::cache::quiz_name_of;
use crate::error::ErrorKind;
use crate::error::ErrorView;
use crate::error::failure;
use crate::error::QuizError;
use crate::github::file_content;
use crate::github::file_content_of;
use crate::github::item_views;
use crate::github::listing_url;
use crate::github::raw_file_url;
use crate::github::Reply;
use crate::github::repo_listing;
use crate::github::repo_listing_of;
use crate::github::RepoItem;
use crate::github::RepoItemView;
use crate::github::spec_listing_url;
use crate::github::spec_raw_file_url;
use crate::text::copy_texts;
use crate::text::texts;

verus! {

/// What a look at the cache directory found.
#[derive(Clone, Copy, Debug, PartialEq, Eq, Structural)]
pub enum CacheProbe {
    /// There is no such directory.
    Missing,
    /// The directory is there and has no entry.
    Empty,
    /// The directory has at least one entry.
    Populated,
}

/// How far a session has come: what it waits for.
#[derive(Clone, Copy, Debug, PartialEq, Eq, Structural)]
pub enum Phase {
    /// For the look at the cache directory.
    Probing,
    /// For the cache directory to be created.
    Creating,
    /// For the remote listing.
    Listing,
    /// For word on whether the file in work is in the cache.
    Checking,
    /// For the text of the file in work.
    Fetching,
    /// For the file in work to be written.
    Writing,
    /// For nothing: the session has given its result.
    Finished,
}

/// What came of the action that a session asked for.
#[derive(Clone, Debug, PartialEq, Eq)]
pub enum SyncEvent {
    /// The cache directory was looked at.
    Probed(CacheProbe),
    /// The cache directory was created, with the directories above it.
    Created,
    /// The remote source was asked, for the listing or for a file.
    Replied(Reply),
    /// Whether the file in work is in the cache.
    Checked(bool),
    /// The file in work was written, whole.
    Written,
    /// The local file system refused; its message.
    IoFailed(String),
}

/// What a session asks for next.
#[derive(Debug, PartialEq, Eq)]
pub enum SyncAction {
    /// Look at the cache directory.
    ProbeCacheDir,
    /// Create the cache directory, with the directories above it.
    CreateCacheDir,
    /// Ask the remote source for its listing, at `url`.
    FetchListing { url: String },
    /// Say whether the cache holds a file named `file_name`.
    CheckFile { file_name: String },
    /// Ask the remote source for the text of a file, at `url`.
    FetchFile { url: String },
    /// Write `body` to the file `file_name` of the cache, whole or not at all.
    WriteFile { file_name: String, body: String },
    /// Stop: the names of the quizzes that were in the cache already, or the
    /// failure that ended the pass.
    Done(Result<Vec<String>, QuizError>),
}

/// An action by its values.
pub enum ActionView {
    ProbeCacheDir,
    CreateCacheDir,
    FetchListing { url: Seq<char> },
    CheckFile { file_name: Seq<char> },
    FetchFile { url: Seq<char> },
    WriteFile { file_name: Seq<char>, body: Seq<char> },
    Done(Result<Seq<Seq<char>>, ErrorView>),
}

impl View for SyncAction {
    type V = ActionView;

    open spec fn view(&self) -> ActionView {
        match self {
            SyncAction::ProbeCacheDir => ActionView::ProbeCacheDir,
            SyncAction::CreateCacheDir => ActionView::CreateCacheDir,
            SyncAction::FetchListing { url } => ActionView::FetchListing { url: url@ },
            SyncAction::CheckFile { file_name } => ActionView::CheckFile { file_name: file_name@ },
            SyncAction::FetchFile { url } => ActionView::FetchFile { url: url@ },
            SyncAction::WriteFile { file_name, body } => ActionView::WriteFile {
                file_name: file_name@,
                body: body@,
            },
            SyncAction::Done(Ok(present)) => ActionView::Done(Ok(texts(present@))),
            SyncAction::Done(Err(e)) => ActionView::Done(Err(e@)),
        }
    }
}

impl ActionView {
    /// The action calls the remote source.
    pub open spec fn is_remote(self) -> bool {
        self is FetchListing || self is FetchFile
    }
}

/// One pass over the cache and, where needed, the remote source.
pub struct SyncSession {
    owner: String,
    repo: String,
    phase: Phase,
    /// The quiz files of the listing, in its order.
    files: Vec<String>,
    /// The place in `files` of the file in work.
    next: usize,
    /// The quizzes found in the cache already.
    present: Vec<String>,
}

/// A session by its values.
pub struct SessionView {
    pub owner: Seq<char>,
    pub repo: Seq<char>,
    pub phase: Phase,
    pub files: Seq<Seq<char>>,
    pub next: nat,
    pub present: Seq<Seq<char>>,
}

impl View for SyncSession {
    type V = SessionView;

    closed spec fn view(&self) -> SessionView {
        SessionView {
            owner: self.owner@,
            repo: self.repo@,
            phase: self.phase,
            files: texts(self.files@),
            next: self.next as nat,
            present: texts(self.present@),
        }
    }
}

impl SessionView {
    /// The session has a file in work: it waits for word on it.
    pub open spec fn in_work(self) -> bool {
        self.phase == Phase::Checking || self.phase == Phase::Fetching || self.phase
            == Phase::Writing
    }

    /// The place of the file in work lies within the files, and on one of
    /// them while a file is in work.
    pub open spec fn wf(self) -> bool {
        &&& self.next <= self.files.len()
        &&& self.in_work() ==> self.next < self.files.len()
    }

    /// The session, come to `phase`.
    pub open spec fn at(self, phase: Phase) -> SessionView {
        SessionView { phase, ..self }
    }
}

/// The names of the quiz files among the entries of a listing, in its order.
pub open spec fn quiz_files(items: Seq<RepoItemView>) -> Seq<Seq<char>>
    decreases items.len(),
{
    if items.len() == 0 {
        Seq::empty()
    } else if is_quiz_file(items.last().name) {
        quiz_files(items.drop_last()).push(items.last().name)
    } else {
        quiz_files(items.drop_last())
    }
}

/// The session at its start, for the repository `repo` of `owner`.
pub open spec fn initial(owner: Seq<char>, repo: Seq<char>) -> SessionView {
    SessionView {
        owner,
        repo,
        phase: Phase::Probing,
        files: Seq::empty(),
        next: 0,
        present: Seq::empty(),
    }
}

/// The pass ends with the failure `e`.
pub open spec fn fail(s: SessionView, e: ErrorView) -> (SessionView, ActionView) {
    (s.at(Phase::Finished), ActionView::Done(Err(e)))
}

/// The session was told of something that it did not wait for: the pass ends
/// with a failure.
pub open spec fn out_of_turn(s: SessionView) -> (SessionView, ActionView) {
    fail(s, failure(ErrorKind::Io, "the cache synchronizer was told of a step it had not asked for"@))
}

/// The session asks for the remote listing.
pub open spec fn ask_listing(s: SessionView) -> (SessionView, ActionView) {
    (s.at(Phase::Listing), ActionView::FetchListing { url: spec_listing_url(s.owner, s.repo) })
}

/// The session turns to the file at `next`: it asks whether the cache holds
/// it, or ends the pass where no file is left.
pub open spec fn advance(s: SessionView) -> (SessionView, ActionView) {
    if s.next < s.files.len() {
        (s.at(Phase::Checking), ActionView::CheckFile { file_name: s.files[s.next as int] })
    } else {
        (s.at(Phase::Finished), ActionView::Done(Ok(s.present)))
    }
}

/// What a session does when it is told `event`: the session afterwards, and
/// the action that it asks for.
pub open spec fn spec_step(s: SessionView, event: SyncEvent) -> (SessionView, ActionView) {
    match s.phase {
        Phase::Probing => match event {
            SyncEvent::Probed(CacheProbe::Missing) => (
                s.at(Phase::Creating),
                ActionView::CreateCacheDir,
            ),
            SyncEvent::Probed(CacheProbe::Empty) => ask_listing(s),
            SyncEvent::Probed(CacheProbe::Populated) => (
                s.at(Phase::Finished),
                ActionView::Done(Ok(Seq::empty())),
            ),
            SyncEvent::IoFailed(message) => fail(s, failure(ErrorKind::Io, message@)),
            _ => out_of_turn(s),
        },
        Phase::Creating => match event {
            SyncEvent::Created => ask_listing(s),
            SyncEvent::IoFailed(message) => fail(s, failure(ErrorKind::Io, message@)),
            _ => out_of_turn(s),
        },
        Phase::Listing => match event {
            SyncEvent::Replied(reply) => match repo_listing_of(reply) {
                Err(e) => fail(s, e),
                Ok(items) => advance(
                    SessionView { files: quiz_files(items), next: 0, present: Seq::empty(), ..s },
                ),
            },
            _ => out_of_turn(s),
        },
        Phase::Checking => match event {
            SyncEvent::Checked(true) => advance(
                SessionView {
                    next: s.next + 1,
                    present: s.present.push(quiz_name_of(s.files[s.next as int])),
                    ..s
                },
            ),
            SyncEvent::Checked(false) => (
                s.at(Phase::Fetching),
                ActionView::FetchFile {
                    url: spec_raw_file_url(s.owner, s.repo, s.files[s.next as int]),
                },
            ),
            SyncEvent::IoFailed(message) => fail(s, failure(ErrorKind::Io, message@)),
            _ => out_of_turn(s),
        },
        Phase::Fetching => match event {
            SyncEvent::Replied(reply) => match file_content_of(reply) {
                Err(e) => fail(s, e),
                Ok(body) => (
                    s.at(Phase::Writing),
                    ActionView::WriteFile { file_name: s.files[s.next as int], body },
                ),
            },
            _ => out_of_turn(s),
        },
        Phase::Writing => match event {
            SyncEvent::Written => advance(SessionView { next: s.next + 1, ..s }),
            SyncEvent::IoFailed(message) => fail(s, failure(ErrorKind::Io, message@)),
            _ => out_of_turn(s),
        },
        Phase::Finished => out_of_turn(s),
    }
}

/// The session that `s` has become once it was told `events`, one after the
/// other.
pub open spec fn state_after(s: SessionView, events: Seq<SyncEvent>) -> SessionView
    decreases events.len(),
{
    if events.len() == 0 {
        s
    } else {
        spec_step(state_after(s, events.drop_last()), events.last()).0
    }
}

/// The action that `s` asks for once it was told `events`: its answer to the
/// last of them.
pub open spec fn action_after(s: SessionView, events: Seq<SyncEvent>) -> ActionView
    recommends
        events.len() > 0,
{
    spec_step(state_after(s, events.drop_last()), events.last()).1
}

/// A session that has given its result gives no other: whatever it is told,
/// it stays finished and asks for nothing.
pub proof fn lemma_finished_stays(s: SessionView, events: Seq<SyncEvent>)
    requires
        s.phase == Phase::Finished,
    ensures
        state_after(s, events) == s,
        events.len() > 0 ==> action_after(s, events) == out_of_turn(s).1,
    decreases events.len(),
{
    if events.len() > 0 {
        lemma_finished_stays(s, events.drop_last());
    }
}

/// The events up to `n`, and then those from `n` on, lead where all of them
/// lead.
pub proof fn lemma_state_after_split(s: SessionView, events: Seq<SyncEvent>, n: int)
    requires
        0 <= n <= events.len(),
    ensures
        state_after(s, events) == state_after(state_after(s, events.take(n)), events.skip(n)),
    decreases events.len(),
{
    if n == events.len() {
        assert(events.take(n) =~= events);
        assert(events.skip(n) =~= Seq::empty());
    } else {
        let front = events.drop_last();
        lemma_state_after_split(s, front, n);
        assert(front.take(n) =~= events.take(n));
        assert(events.skip(n).drop_last() =~= front.skip(n));
        assert(events.skip(n).last() == events.last());
    }
}

/// A cache that holds something is left alone. A session that is told that
/// the cache directory has an entry ends at once with an empty result, and
/// neither before nor after that, whatever else it is told, does it ask for
/// a call to the remote source. This holds of every session, so of a second
/// pass as of the first.
pub proof fn lemma_populated_cache_is_left_alone(
    owner: Seq<char>,
    repo: Seq<char>,
    events: Seq<SyncEvent>,
)
    requires
        events.len() > 0,
        events[0] == SyncEvent::Probed(CacheProbe::Populated),
    ensures
        !ActionView::ProbeCacheDir.is_remote(),
        action_after(initial(owner, repo), events.take(1)) == ActionView::Done(
            Ok(Seq::<Seq<char>>::empty()),
        ),
        forall|n: int|
            1 <= n <= events.len() ==> !(#[trigger] action_after(
                initial(owner, repo),
                events.take(n),
            )).is_remote(),
{
    let start = initial(owner, repo);
    let first = events.take(1);
    assert(first.drop_last() =~= Seq::empty());
    assert(first.last() == events[0]);
    let done = state_after(start, first);
    assert(done == start.at(Phase::Finished));
    assert forall|n: int| 1 <= n <= events.len() implies !(#[trigger] action_after(
        start,
        events.take(n),
    )).is_remote() by {
        if n > 1 {
            let upto = events.take(n);
            let before = upto.drop_last();
            lemma_state_after_split(start, before, 1);
            assert(before.take(1) =~= first);
            lemma_finished_stays(done, before.skip(1));
        }
    }
}

/// A file is written only where the cache was found not to hold it. Where a
/// session that started afresh asks for a file to be written, it was told
/// just before that the cache does not hold that file, in answer to its own
/// question about that very file, and what it asks to be written is the text
/// that the remote source sent.
pub proof fn lemma_written_only_when_absent(
    owner: Seq<char>,
    repo: Seq<char>,
    events: Seq<SyncEvent>,
)
    requires
        events.len() > 0,
        action_after(initial(owner, repo), events) is WriteFile,
    ensures
        events.len() >= 3,
        events[events.len() - 2] == SyncEvent::Checked(false),
        action_after(initial(owner, repo), events.take(events.len() - 2)) == (
        ActionView::CheckFile {
            file_name: action_after(initial(owner, repo), events)->WriteFile_file_name,
        }),
        events.last() matches SyncEvent::Replied(reply) && file_content_of(reply) == Ok::<
            Seq<char>,
            ErrorView,
        >(action_after(initial(owner, repo), events)->body),
{
    let start = initial(owner, repo);
    let n = events.len() as int;
    let upto_fetch = events.drop_last();
    let fetching = state_after(start, upto_fetch);
    assert(fetching.phase == Phase::Fetching);
    assert(upto_fetch.len() > 0);
    let upto_check = upto_fetch.drop_last();
    let checking = state_after(start, upto_check);
    assert(upto_fetch.last() == events[n - 2]);
    assert(checking.phase == Phase::Checking);
    assert(upto_check.len() > 0);
    assert(upto_check =~= events.take(n - 2));
    let earlier = state_after(start, upto_check.drop_last());
    assert(spec_step(earlier, upto_check.last()).0 == checking);
}

impl SyncSession {
    #[verifier::type_invariant]
    spec fn inv(self) -> bool {
        self@.wf()
    }

    /// A session for the repository `repo` of `owner`, and its first action:
    /// a look at the cache directory.
    pub fn start(owner: String, repo: String) -> (r: (SyncSession, SyncAction))
        ensures
            r.0@ == initial(owner@, repo@),
            r.1@ == ActionView::ProbeCacheDir,
    {
        let session = SyncSession {
            owner,
            repo,
            phase: Phase::Probing,
            files: Vec::new(),
            next: 0,
            present: Vec::new(),
        };
        assert(texts(session.files@) =~= Seq::empty());
        assert(texts(session.present@) =~= Seq::empty());
        (session, SyncAction::ProbeCacheDir)
    }

    /// What the session waits for.
    pub fn phase(&self) -> (phase: Phase)
        ensures
            phase == self@.phase,
    {
        self.phase
    }

    /// Whether the session has given its result.
    pub fn is_finished(&self) -> (finished: bool)
        ensures
            finished == (self@.phase == Phase::Finished),
    {
        self.phase == Phase::Finished
    }

    fn fail(self, e: QuizError) -> (r: (SyncSession, SyncAction))
        ensures
            (r.0@, r.1@) == fail(self@, e@),
    {
        proof {
            use_type_invariant(&self);
        }
        (SyncSession { phase: Phase::Finished, ..self }, SyncAction::Done(Err(e)))
    }

    fn out_of_turn(self) -> (r: (SyncSession, SyncAction))
        ensures
            (r.0@, r.1@) == out_of_turn(self@),
    {
        self.fail(
            QuizError::new(
                ErrorKind::Io,
                "the cache synchronizer was told of a step it had not asked for".to_owned(),
            ),
        )
    }

    fn ask_listing(self) -> (r: (SyncSession, SyncAction))
        ensures
            (r.0@, r.1@) == ask_listing(self@),
    {
        proof {
            use_type_invariant(&self);
        }
        let url = listing_url(self.owner.as_str(), self.repo.as_str());
        (SyncSession { phase: Phase::Listing, ..self }, SyncAction::FetchListing { url })
    }

    /// Turns to the file at `next` of the given files.
    fn advance(
        owner: String,
        repo: String,
        files: Vec<String>,
        next: usize,
        present: Vec<String>,
    ) -> (r: (SyncSession, SyncAction))
        requires
            next <= files@.len(),
        ensures
            (r.0@, r.1@) == advance(
                SessionView {
                    owner: owner@,
                    repo: repo@,
                    phase: Phase::Finished,
                    files: texts(files@),
                    next: next as nat,
                    present: texts(present@),
                },
            ),
    {
        if next < files.len() {
            let file_name = files[next].clone();
            (
                SyncSession { owner, repo, phase: Phase::Checking, files, next, present },
                SyncAction::CheckFile { file_name },
            )
        } else {
            let listed = copy_texts(&present);
            (
                SyncSession { owner, repo, phase: Phase::Finished, files, next, present },
                SyncAction::Done(Ok(listed)),
            )
        }
    }

    /// Tells the session what came of the action it asked for; it answers
    /// with the session afterwards and the next action.
    pub fn step(self, event: SyncEvent) -> (r: (SyncSession, SyncAction))
        ensures
            (r.0@, r.1@) == spec_step(self@, event),
    {
        proof {
            use_type_invariant(&self);
            assert(texts(self.files@).len() == self.files@.len());
        }
        match self.phase {
            Phase::Probing => match event {
                SyncEvent::Probed(CacheProbe::Missing) => (
                    SyncSession { phase: Phase::Creating, ..self },
                    SyncAction::CreateCacheDir,
                ),
                SyncEvent::Probed(CacheProbe::Empty) => self.ask_listing(),
                SyncEvent::Probed(CacheProbe::Populated) => {
                    let none: Vec<String> = Vec::new();
                    assert(texts(none@) =~= Seq::empty());
                    (SyncSession { phase: Phase::Finished, ..self }, SyncAction::Done(Ok(none)))
                },
                SyncEvent::IoFailed(message) => self.fail(QuizError::new(ErrorKind::Io, message)),
                _ => self.out_of_turn(),
            },
            Phase::Creating => match event {
                SyncEvent::Created => self.ask_listing(),
                SyncEvent::IoFailed(message) => self.fail(QuizError::new(ErrorKind::Io, message)),
                _ => self.out_of_turn(),
            },
            Phase::Listing => match event {
                SyncEvent::Replied(reply) => match repo_listing(reply) {
                    Err(e) => self.fail(e),
                    Ok(items) => {
                        let files = quiz_file_names(&items);
                        let present: Vec<String> = Vec::new();
                        assert(texts(present@) =~= Seq::empty());
                        let SyncSession { owner, repo, .. } = self;
                        SyncSession::advance(owner, repo, files, 0, present)
                    },
                },
                _ => self.out_of_turn(),
            },
            Phase::Checking => match event {
                SyncEvent::Checked(true) => {
                    let SyncSession { owner, repo, files, next, present, .. } = self;
                    let mut present = present;
                    let ghost before = texts(present@);
                    present.push(quiz_name(files[next].as_str()));
                    assert(texts(present@) =~= before.push(quiz_name_of(files@[next as int]@)));
                    assert(next < files.len());
                    SyncSession::advance(owner, repo, files, next + 1, present)
                },
                SyncEvent::Checked(false) => {
                    let url = raw_file_url(
                        self.owner.as_str(),
                        self.repo.as_str(),
                        self.files[self.next].as_str(),
                    );
                    (SyncSession { phase: Phase::Fetching, ..self }, SyncAction::FetchFile { url })
                },
                SyncEvent::IoFailed(message) => self.fail(QuizError::new(ErrorKind::Io, message)),
                _ => self.out_of_turn(),
            },
            Phase::Fetching => match event {
                SyncEvent::Replied(reply) => match file_content(reply) {
                    Err(e) => self.fail(e),
                    Ok(body) => {
                        let file_name = self.files[self.next].clone();
                        (
                            SyncSession { phase: Phase::Writing, ..self },
                            SyncAction::WriteFile { file_name, body },
                        )
                    },
                },
                _ => self.out_of_turn(),
            },
            Phase::Writing => match event {
                SyncEvent::Written => {
                    let SyncSession { owner, repo, files, next, present, .. } = self;
                    assert(next < files.len());
                    SyncSession::advance(owner, repo, files, next + 1, present)
                },
                SyncEvent::IoFailed(message) => self.fail(QuizError::new(ErrorKind::Io, message)),
                _ => self.out_of_turn(),
            },
            Phase::Finished => self.out_of_turn(),
        }
    }
}

/// The names of the quiz files among the entries of a listing, in its order.
pub fn quiz_file_names(items: &Vec<RepoItem>) -> (files: Vec<String>)
    ensures
        texts(files@) == quiz_files(item_views(items@)),
{
    let mut files: Vec<String> = Vec::new();
    let ghost all = item_views(items@);
    let mut i: usize = 0;
    assert(all.take(0) =~= Seq::empty());
    assert(texts(files@) =~= Seq::empty());
    while i < items.len()
        invariant
            i <= items.len(),
            all == item_views(items@),
            texts(files@) == quiz_files(all.take(i as int)),
        decreases items.len() - i,
    {
        let ghost before = texts(files@);
        assert(all.take(i + 1).drop_last() =~= all.take(i as int));
        assert(all.take(i + 1).last() == items@[i as int]@);
        if has_quiz_extension(items[i].name.as_str()) {
            files.push(items[i].name.clone());
            assert(texts(files@) =~= before.push(items@[i as int].name@));
        }
        i += 1;
    }
    assert(all.take(i as int) =~= all);
    files
}

} // verus!
