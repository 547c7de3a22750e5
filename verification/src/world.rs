//! A whole pass of the cache synchronizer, against a cache directory and a
//! remote source that do what they are asked.
//!
//! [`outcome`] says directly what a pass is meant to achieve. [`pass`] runs
//! a session step by step against the [`World`]. The two agree, and from
//! that follows what a pass leaves behind: it never touches a file that the
//! cache holds, and where it succeeds the cache holds every quiz file of the
//! listing.

use vstd::prelude::*;
use crate::cache::quiz_name_of;
use crate::error::ErrorView;
use crate::github::file_content_of;
use crate::github::Reply;
use crate::github::repo_listing_of;
use crate::github::RepoItemView;
use crate::github::spec_listing_url;
use crate::github::spec_raw_file_url;
use crate::sync::ActionView;
use crate::sync::advance;
use crate::sync::CacheProbe;
use crate::sync::initial;
use crate::sync::Phase;
use crate::sync::quiz_files;
use crate::sync::SessionView;
use crate::sync::spec_step;
use crate::sync::SyncEvent;

verus! {

/// The files of a cache directory: their texts by their names.
pub type Files = Map<Seq<char>, Seq<char>>;

/// What a pass ends with: the quizzes that were in the cache already, or a
/// failure.
pub type PassResult = Result<Seq<Seq<char>>, ErrorView>;

/// The cache directory and the remote source.
pub struct World {
    /// The files of the cache directory; `None` where there is no such
    /// directory.
    pub cache: Option<Files>,
    /// What the remote source answers at each address.
    pub remote: spec_fn(Seq<char>) -> Reply,
}

impl World {
    /// What a look at the cache directory finds.
    pub open spec fn probe(self) -> CacheProbe {
        match self.cache {
            None => CacheProbe::Missing,
            Some(files) => if files.dom() == Set::<Seq<char>>::empty() {
                CacheProbe::Empty
            } else {
                CacheProbe::Populated
            },
        }
    }

    /// The files of the cache directory, none where it is missing.
    pub open spec fn files(self) -> Files {
        match self.cache {
            None => Map::empty(),
            Some(files) => files,
        }
    }

    /// The world with `files` in its cache directory.
    pub open spec fn with_files(self, files: Files) -> World {
        World { cache: Some(files), ..self }
    }

    /// The world does what `action` asks for: the world afterwards, and the
    /// event that tells of it.
    pub open spec fn respond(self, action: ActionView) -> (World, SyncEvent)
        recommends
            !(action is Done),
    {
        match action {
            ActionView::ProbeCacheDir => (self, SyncEvent::Probed(self.probe())),
            ActionView::CreateCacheDir => (self.with_files(self.files()), SyncEvent::Created),
            ActionView::FetchListing { url } => (self, SyncEvent::Replied((self.remote)(url))),
            ActionView::CheckFile { file_name } => (
                self,
                SyncEvent::Checked(self.files().dom().contains(file_name)),
            ),
            ActionView::FetchFile { url } => (self, SyncEvent::Replied((self.remote)(url))),
            ActionView::WriteFile { file_name, body } => (
                self.with_files(self.files().insert(file_name, body)),
                SyncEvent::Written,
            ),
            ActionView::Done(_) => (self, SyncEvent::Written),
        }
    }
}

/// A session run against the world: each action is done and the session
/// told of it, until it is done or `fuel` steps were taken. Gives the result
/// of the pass, `None` where the steps did not suffice, and the world
/// afterwards.
pub open spec fn pass(s: SessionView, action: ActionView, w: World, fuel: nat) -> (
    Option<PassResult>,
    World,
)
    decreases fuel,
{
    match action {
        ActionView::Done(result) => (Some(result), w),
        _ => if fuel == 0 {
            (None, w)
        } else {
            let (w2, event) = w.respond(action);
            let (s2, action2) = spec_step(s, event);
            pass(s2, action2, w2, (fuel - 1) as nat)
        },
    }
}

/// What is to become of the files of a listing from `next` on: a file that
/// the cache holds is left as it is and its quiz named as present; one that
/// it lacks is fetched and put into the cache; the first fetch that fails
/// ends it all. Gives the result and the files of the cache afterwards.
pub open spec fn fill(
    owner: Seq<char>,
    repo: Seq<char>,
    remote: spec_fn(Seq<char>) -> Reply,
    files: Seq<Seq<char>>,
    next: nat,
    present: Seq<Seq<char>>,
    cache: Files,
) -> (PassResult, Files)
    decreases files.len() - next,
{
    if next >= files.len() {
        (Ok(present), cache)
    } else {
        let file_name = files[next as int];
        if cache.dom().contains(file_name) {
            fill(
                owner,
                repo,
                remote,
                files,
                next + 1,
                present.push(quiz_name_of(file_name)),
                cache,
            )
        } else {
            match file_content_of(remote(spec_raw_file_url(owner, repo, file_name))) {
                Err(e) => (Err(e), cache),
                Ok(body) => fill(
                    owner,
                    repo,
                    remote,
                    files,
                    next + 1,
                    present,
                    cache.insert(file_name, body),
                ),
            }
        }
    }
}

/// What a pass is to achieve. A cache directory with an entry is left as it
/// is, with an empty result. One that is missing is created. Then the quiz
/// files of the remote listing are seen to, one after the other, as
/// [`fill`] says.
pub open spec fn outcome(owner: Seq<char>, repo: Seq<char>, w: World) -> (PassResult, World) {
    if w.probe() == CacheProbe::Populated {
        (Ok(Seq::empty()), w)
    } else {
        match repo_listing_of((w.remote)(spec_listing_url(owner, repo))) {
            Err(e) => (Err(e), w.with_files(w.files())),
            Ok(items) => {
                let (result, files) = fill(
                    owner,
                    repo,
                    w.remote,
                    quiz_files(items),
                    0,
                    Seq::empty(),
                    w.files(),
                );
                (result, w.with_files(files))
            },
        }
    }
}

/// The number of steps that surely suffice for a pass over a listing of
/// `files` quiz files.
pub open spec fn steps_for(files: nat) -> nat {
    3 * files + 3
}

/// From the moment a session turns to the file at `next`, a run against the
/// world does what [`fill`] says.
proof fn lemma_pass_fills(s: SessionView, w: World, fuel: nat)
    requires
        s.next <= s.files.len(),
        w.cache is Some,
        fuel >= 3 * (s.files.len() - s.next),
    ensures
        ({
            let (s1, action) = advance(s);
            let (result, files) = fill(
                s.owner,
                s.repo,
                w.remote,
                s.files,
                s.next,
                s.present,
                w.files(),
            );
            pass(s1, action, w, fuel) == (Some(result), w.with_files(files))
        }),
    decreases s.files.len() - s.next,
{
    let (s1, action) = advance(s);
    if s.next >= s.files.len() {
        assert(w.with_files(w.files()) == w);
    } else {
        let file_name = s.files[s.next as int];
        let (w1, checked) = w.respond(action);
        let (s2, action2) = spec_step(s1, checked);
        assert(pass(s1, action, w, fuel) == pass(s2, action2, w1, (fuel - 1) as nat));
        if w.files().dom().contains(file_name) {
            let turned = SessionView {
                next: s.next + 1,
                present: s.present.push(quiz_name_of(file_name)),
                ..s1
            };
            assert((s2, action2) == advance(turned));
            lemma_pass_fills(turned, w, (fuel - 1) as nat);
        } else {
            let (w2, replied) = w1.respond(action2);
            let (s3, action3) = spec_step(s2, replied);
            assert(pass(s2, action2, w1, (fuel - 1) as nat) == pass(
                s3,
                action3,
                w2,
                (fuel - 2) as nat,
            ));
            match file_content_of((w.remote)(spec_raw_file_url(s.owner, s.repo, file_name))) {
                Err(e) => {
                    assert(w.with_files(w.files()) == w);
                },
                Ok(body) => {
                    let (w3, written) = w2.respond(action3);
                    let (s4, action4) = spec_step(s3, written);
                    assert(pass(s3, action3, w2, (fuel - 2) as nat) == pass(
                        s4,
                        action4,
                        w3,
                        (fuel - 3) as nat,
                    ));
                    let turned = SessionView { next: s.next + 1, ..s3 };
                    assert((s4, action4) == advance(turned));
                    lemma_pass_fills(turned, w3, (fuel - 3) as nat);
                    assert(w3.files() == w.files().insert(file_name, body));
                    assert(forall|files: Files| w3.with_files(files) == w.with_files(files));
                },
            }
        }
    }
}

/// A session run against the world achieves what a pass is to achieve: with
/// steps enough, it ends with the result and leaves the world that
/// [`outcome`] names.
pub proof fn lemma_pass_achieves_outcome(owner: Seq<char>, repo: Seq<char>, w: World, fuel: nat)
    requires
        match repo_listing_of((w.remote)(spec_listing_url(owner, repo))) {
            Ok(items) => fuel >= steps_for(quiz_files(items).len()),
            Err(_) => fuel >= steps_for(0),
        },
    ensures
        pass(initial(owner, repo), ActionView::ProbeCacheDir, w, fuel) == (
            Some(outcome(owner, repo, w).0),
            outcome(owner, repo, w).1,
        ),
{
    let s0 = initial(owner, repo);
    let (w1, probed) = w.respond(ActionView::ProbeCacheDir);
    let (s1, action1) = spec_step(s0, probed);
    assert(pass(s0, ActionView::ProbeCacheDir, w, fuel) == pass(
        s1,
        action1,
        w1,
        (fuel - 1) as nat,
    ));
    if w.probe() == CacheProbe::Populated {
    } else {
        // The directory is there once the listing is asked for.
        let (s2, w2, left) = if w.probe() == CacheProbe::Missing {
            let (w2, created) = w1.respond(action1);
            let (s2, action2) = spec_step(s1, created);
            assert(pass(s1, action1, w1, (fuel - 1) as nat) == pass(
                s2,
                action2,
                w2,
                (fuel - 2) as nat,
            ));
            (s2, w2, (fuel - 2) as nat)
        } else {
            assert(w.with_files(w.files()) == w);
            (s1, w1, (fuel - 1) as nat)
        };
        assert(w2 == w.with_files(w.files()));
        let ask = ActionView::FetchListing { url: spec_listing_url(owner, repo) };
        let (w3, replied) = w2.respond(ask);
        let (s3, action3) = spec_step(s2, replied);
        assert(pass(s2, ask, w2, left) == pass(s3, action3, w3, (left - 1) as nat));
        match repo_listing_of((w.remote)(spec_listing_url(owner, repo))) {
            Err(e) => {},
            Ok(items) => {
                let listed = SessionView {
                    files: quiz_files(items),
                    next: 0,
                    present: Seq::empty(),
                    ..s2
                };
                assert((s3, action3) == advance(listed));
                lemma_pass_fills(listed, w3, (left - 1) as nat);
                assert(forall|files: Files| w3.with_files(files) == w.with_files(files));
            },
        }
    }
}

/// What [`fill`] leaves behind. No file that the cache held is touched. A
/// file that it did not hold and holds afterwards has the text that the
/// remote source sent for it, and is a file of the listing. And where it
/// succeeds, the cache holds every file of the listing from `next` on.
pub proof fn lemma_fill_keeps_and_adds(
    owner: Seq<char>,
    repo: Seq<char>,
    remote: spec_fn(Seq<char>) -> Reply,
    files: Seq<Seq<char>>,
    next: nat,
    present: Seq<Seq<char>>,
    cache: Files,
    result: PassResult,
    after: Files,
)
    requires
        fill(owner, repo, remote, files, next, present, cache) == (result, after),
    ensures
        forall|name: Seq<char>| #[trigger]
            cache.dom().contains(name) ==> after.dom().contains(name) && after[name] == cache[name],
        forall|name: Seq<char>| #[trigger]
            after.dom().contains(name) && !cache.dom().contains(name) ==> files.contains(name)
                && file_content_of(remote(spec_raw_file_url(owner, repo, name))) == Ok::<
                Seq<char>,
                ErrorView,
            >(after[name]),
        result is Ok ==> forall|i: int|
            next <= i < files.len() ==> after.dom().contains(#[trigger] files[i]),
    decreases files.len() - next,
{
    if next < files.len() {
        let file_name = files[next as int];
        assert(files.contains(file_name));
        if cache.dom().contains(file_name) {
            lemma_fill_keeps_and_adds(
                owner,
                repo,
                remote,
                files,
                next + 1,
                present.push(quiz_name_of(file_name)),
                cache,
                result,
                after,
            );
            if result is Ok {
                assert forall|i: int| next <= i < files.len() implies after.dom().contains(
                    #[trigger] files[i],
                ) by {
                    if i > next {
                        assert(next + 1 <= i);
                    }
                }
            }
        } else {
            match file_content_of(remote(spec_raw_file_url(owner, repo, file_name))) {
                Err(e) => {},
                Ok(body) => {
                    let grown = cache.insert(file_name, body);
                    lemma_fill_keeps_and_adds(
                        owner,
                        repo,
                        remote,
                        files,
                        next + 1,
                        present,
                        grown,
                        result,
                        after,
                    );
                    assert(grown.dom().contains(file_name) && grown[file_name] == body);
                    assert forall|name: Seq<char>| #[trigger]
                        cache.dom().contains(name) implies after.dom().contains(name)
                        && after[name] == cache[name] by {
                        assert(grown.dom().contains(name) && grown[name] == cache[name]);
                    }
                    assert forall|name: Seq<char>| #[trigger]
                        after.dom().contains(name) && !cache.dom().contains(
                            name,
                        ) implies files.contains(name) && file_content_of(
                        remote(spec_raw_file_url(owner, repo, name)),
                    ) == Ok::<Seq<char>, ErrorView>(after[name]) by {
                        if name == file_name {
                        } else {
                            assert(!grown.dom().contains(name));
                        }
                    }
                    if result is Ok {
                        assert forall|i: int|
                            next <= i < files.len() implies after.dom().contains(
                            #[trigger] files[i],
                        ) by {
                            if i > next {
                                assert(next + 1 <= i);
                            }
                        }
                    }
                },
            }
        }
    }
}

/// A pass into a cache that is missing or empty, where it succeeds, leaves
/// a cache that holds every quiz file of the listing, each with the text
/// that the remote source sent for it.
pub proof fn lemma_pass_fills_empty_cache(
    owner: Seq<char>,
    repo: Seq<char>,
    w: World,
    items: Seq<RepoItemView>,
)
    requires
        w.probe() != CacheProbe::Populated,
        repo_listing_of((w.remote)(spec_listing_url(owner, repo))) == Ok::<
            Seq<RepoItemView>,
            ErrorView,
        >(items),
        outcome(owner, repo, w).0 is Ok,
    ensures
        forall|i: int|
            0 <= i < quiz_files(items).len() ==> outcome(owner, repo, w).1.files().dom().contains(
                #[trigger] quiz_files(items)[i],
            ) && file_content_of(
                (w.remote)(spec_raw_file_url(owner, repo, quiz_files(items)[i])),
            ) == Ok::<Seq<char>, ErrorView>(outcome(owner, repo, w).1.files()[quiz_files(items)[i]]),
{
    let files = quiz_files(items);
    let (result, after) = fill(owner, repo, w.remote, files, 0, Seq::empty(), w.files());
    lemma_fill_keeps_and_adds(
        owner,
        repo,
        w.remote,
        files,
        0,
        Seq::empty(),
        w.files(),
        result,
        after,
    );
    assert(w.files().dom() =~= Set::<Seq<char>>::empty());
    assert(after == outcome(owner, repo, w).1.files());
    assert forall|i: int| 0 <= i < files.len() implies after.dom().contains(#[trigger] files[i])
        && file_content_of((w.remote)(spec_raw_file_url(owner, repo, files[i]))) == Ok::<
        Seq<char>,
        ErrorView,
    >(after[files[i]]) by {
        assert(!w.files().dom().contains(files[i]));
    }
}

/// A pass changes no file that the cache held before it, whether it
/// succeeds or fails.
pub proof fn lemma_pass_keeps_cached_files(owner: Seq<char>, repo: Seq<char>, w: World)
    ensures
        forall|name: Seq<char>| #[trigger]
            w.files().dom().contains(name) ==> outcome(owner, repo, w).1.files().dom().contains(
                name,
            ) && outcome(owner, repo, w).1.files()[name] == w.files()[name],
{
    if w.probe() != CacheProbe::Populated {
        if let Ok(items) = repo_listing_of((w.remote)(spec_listing_url(owner, repo))) {
            let files = quiz_files(items);
            let (result, after) = fill(owner, repo, w.remote, files, 0, Seq::empty(), w.files());
            lemma_fill_keeps_and_adds(
                owner,
                repo,
                w.remote,
                files,
                0,
                Seq::empty(),
                w.files(),
                result,
                after,
            );
            assert(after == outcome(owner, repo, w).1.files());
        }
    }
}

/// A pass over a cache that holds something changes nothing and names
/// nothing.
pub proof fn lemma_pass_leaves_populated_cache(owner: Seq<char>, repo: Seq<char>, w: World)
    requires
        w.probe() == CacheProbe::Populated,
    ensures
        outcome(owner, repo, w) == (Ok::<Seq<Seq<char>>, ErrorView>(Seq::empty()), w),
{
}

} // verus!
