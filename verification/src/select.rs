//! Choosing the snapshot to report among the candidate players.
//!
//! Candidates are looked at in their given order. The first accepted
//! candidate that is playing is reported at once; otherwise the last accepted
//! candidate is. Fetching the properties of a candidate is the caller's
//! part: the caller offers one outcome at a time and stops as soon as a
//! report is made.

use vstd::prelude::*;
use vstd::string::*;
use crate::filter::{check, verdict, RejectReason};
use crate::metadata::{extract, snapshot_of, PlayerProperties};
use crate::snapshot::{Config, ConfigView, PlaybackStatus, Snapshot, SnapshotView};
use crate::text::{is_prefix, starts_with, texts};

verus! {

/// The properties of a service could not be fetched.
#[derive(Clone, Debug)]
pub struct PropertyFetchError {
    pub message: String,
}

/// Why a candidate is passed over.
#[derive(Clone, Copy, Debug, PartialEq, Eq, Structural)]
pub enum SkipReason {
    FetchFailed,
    Rejected(RejectReason),
}

/// The one failure of a selection: no candidate was accepted.
#[derive(Clone, Copy, Debug, PartialEq, Eq, Structural)]
pub enum SelectError {
    NoMediaAvailable,
}

/// What becomes of one candidate: its snapshot where the fetch succeeded and
/// the filter accepts it, else the reason for passing it over.
pub open spec fn assessed(
    service_id: Seq<char>,
    fetched: Result<PlayerProperties, PropertyFetchError>,
    config: ConfigView,
) -> Result<SnapshotView, SkipReason> {
    match fetched {
        Err(_) => Err(SkipReason::FetchFailed),
        Ok(props) => match verdict(snapshot_of(service_id, props), config) {
            Ok(_) => Ok(snapshot_of(service_id, props)),
            Err(reason) => Err(SkipReason::Rejected(reason)),
        },
    }
}

/// An assessment with its snapshot as mathematical data.
pub open spec fn seen(outcome: Result<Snapshot, SkipReason>) -> Result<SnapshotView, SkipReason> {
    match outcome {
        Ok(s) => Ok(s@),
        Err(e) => Err(e),
    }
}

/// The selection that results from looking at `outcomes` from position `i`
/// on, with `fallback` as the last accepted candidate so far.
pub open spec fn resume(
    outcomes: Seq<Result<SnapshotView, SkipReason>>,
    i: int,
    fallback: Option<SnapshotView>,
) -> Option<SnapshotView>
    decreases outcomes.len() - i,
{
    if i < 0 || i >= outcomes.len() {
        fallback
    } else {
        match outcomes[i] {
            Ok(s) => if s.status == PlaybackStatus::Playing {
                Some(s)
            } else {
                resume(outcomes, i + 1, Some(s))
            },
            Err(_) => resume(outcomes, i + 1, fallback),
        }
    }
}

/// The snapshot selected among `outcomes`, if any candidate was accepted.
pub open spec fn selected(outcomes: Seq<Result<SnapshotView, SkipReason>>) -> Option<SnapshotView> {
    resume(outcomes, 0, None)
}

/// Whether `outcomes[i]` is an accepted candidate that is playing.
pub open spec fn plays(outcomes: Seq<Result<SnapshotView, SkipReason>>, i: int) -> bool {
    outcomes[i] is Ok && outcomes[i]->Ok_0.status == PlaybackStatus::Playing
}

/// The first accepted candidate that is playing is selected, whatever comes
/// before or after it.
pub proof fn lemma_first_playing_wins(outcomes: Seq<Result<SnapshotView, SkipReason>>, i: int)
    requires
        0 <= i < outcomes.len(),
        plays(outcomes, i),
        forall|j: int| 0 <= j < i ==> !plays(outcomes, j),
    ensures
        selected(outcomes) == Some(outcomes[i]->Ok_0),
{
    lemma_resume_to_playing(outcomes, 0, i, None);
}

proof fn lemma_resume_to_playing(
    outcomes: Seq<Result<SnapshotView, SkipReason>>,
    from: int,
    i: int,
    fallback: Option<SnapshotView>,
)
    requires
        0 <= from <= i < outcomes.len(),
        plays(outcomes, i),
        forall|j: int| from <= j < i ==> !plays(outcomes, j),
    ensures
        resume(outcomes, from, fallback) == Some(outcomes[i]->Ok_0),
    decreases i - from,
{
    if from < i {
        assert(!plays(outcomes, from));
        match outcomes[from] {
            Ok(s) => lemma_resume_to_playing(outcomes, from + 1, i, Some(s)),
            Err(_) => lemma_resume_to_playing(outcomes, from + 1, i, fallback),
        }
    }
}

/// Where no accepted candidate is playing, the last accepted one is
/// selected.
pub proof fn lemma_last_accepted_wins(outcomes: Seq<Result<SnapshotView, SkipReason>>, i: int)
    requires
        0 <= i < outcomes.len(),
        outcomes[i] is Ok,
        forall|j: int| 0 <= j < outcomes.len() ==> !plays(outcomes, j),
        forall|j: int| i < j < outcomes.len() ==> outcomes[j] is Err,
    ensures
        selected(outcomes) == Some(outcomes[i]->Ok_0),
{
    lemma_resume_to_last(outcomes, 0, i, None);
}

proof fn lemma_resume_to_last(
    outcomes: Seq<Result<SnapshotView, SkipReason>>,
    from: int,
    i: int,
    fallback: Option<SnapshotView>,
)
    requires
        0 <= from <= outcomes.len(),
        0 <= i < outcomes.len(),
        outcomes[i] is Ok,
        from > i ==> fallback == Some(outcomes[i]->Ok_0),
        forall|j: int| from <= j < outcomes.len() ==> !plays(outcomes, j),
        forall|j: int| i < j < outcomes.len() ==> outcomes[j] is Err,
    ensures
        resume(outcomes, from, fallback) == Some(outcomes[i]->Ok_0),
    decreases outcomes.len() - from,
{
    if from < outcomes.len() {
        assert(!plays(outcomes, from));
        match outcomes[from] {
            Ok(s) => lemma_resume_to_last(outcomes, from + 1, i, Some(s)),
            Err(_) => lemma_resume_to_last(outcomes, from + 1, i, fallback),
        }
    }
}

/// Where every candidate is passed over, nothing is selected.
pub proof fn lemma_none_accepted(outcomes: Seq<Result<SnapshotView, SkipReason>>)
    requires
        forall|j: int| 0 <= j < outcomes.len() ==> outcomes[j] is Err,
    ensures
        selected(outcomes) is None,
{
    lemma_resume_skips(outcomes, 0, None);
}

proof fn lemma_resume_skips(
    outcomes: Seq<Result<SnapshotView, SkipReason>>,
    from: int,
    fallback: Option<SnapshotView>,
)
    requires
        0 <= from <= outcomes.len(),
        forall|j: int| from <= j < outcomes.len() ==> outcomes[j] is Err,
    ensures
        resume(outcomes, from, fallback) == fallback,
    decreases outcomes.len() - from,
{
    if from < outcomes.len() {
        assert(outcomes[from] is Err);
        lemma_resume_skips(outcomes, from + 1, fallback);
    }
}

/// The prefix by which the bus name of a media player is known.
pub open spec fn player_prefix() -> Seq<char> {
    "org.mpris.MediaPlayer2."@
}

/// The names among `names` that belong to media players, in their order.
pub open spec fn players_among(names: Seq<Seq<char>>) -> Seq<Seq<char>> {
    names.filter(|name: Seq<char>| is_prefix(player_prefix(), name))
}

/// Picks the candidate services out of the registered bus names.
pub fn player_services(names: &Vec<String>) -> (services: Vec<String>)
    ensures
        texts(services@) == players_among(texts(names@)),
{
    let ghost all = texts(names@);
    let ghost wanted = |name: Seq<char>| is_prefix(player_prefix(), name);
    let mut services: Vec<String> = Vec::new();
    let mut i: usize = 0;
    assert(all.take(0) == Seq::<Seq<char>>::empty());
    assert(texts(services@) == Seq::<Seq<char>>::empty());
    while i < names.len()
        invariant
            i <= names.len(),
            all == texts(names@),
            wanted == |name: Seq<char>| is_prefix(player_prefix(), name),
            texts(services@) == all.take(i as int).filter(wanted),
        decreases names.len() - i,
    {
        let ghost before = services@;
        proof {
            assert(all.take(i + 1).drop_last() == all.take(i as int));
            reveal(Seq::filter);
        }
        if starts_with(names[i].as_str(), "org.mpris.MediaPlayer2.") {
            services.push(names[i].clone());
            assert(texts(services@) == texts(before).push(all[i as int]));
        }
        i += 1;
    }
    assert(all.take(i as int) == all);
    services
}

/// Extracts the snapshot of one candidate and applies the filter to it.
pub fn assess(
    service_id: String,
    fetched: &Result<PlayerProperties, PropertyFetchError>,
    config: &Config,
) -> (outcome: Result<Snapshot, SkipReason>)
    ensures
        seen(outcome) == assessed(service_id@, *fetched, config@),
{
    match fetched {
        Err(_) => Err(SkipReason::FetchFailed),
        Ok(props) => {
            let snapshot = extract(service_id, props);
            match check(&snapshot, config) {
                Ok(_) => Ok(snapshot),
                Err(reason) => Err(SkipReason::Rejected(reason)),
            }
        },
    }
}

/// The state of a selection in progress: the last accepted candidate so far.
pub struct Selector {
    fallback: Option<Snapshot>,
}

/// What the caller does after offering a candidate.
pub enum Step {
    /// A playing candidate was accepted: report it and look no further.
    Report(Snapshot),
    /// Go on with the next candidate, or finish if there is none.
    Continue(Selector),
}

impl Selector {
    /// The last accepted candidate so far.
    pub closed spec fn fallback(&self) -> Option<SnapshotView> {
        match self.fallback {
            Some(s) => Some(s@),
            None => None,
        }
    }

    /// A selection before any candidate was offered.
    pub fn new() -> (selector: Selector)
        ensures
            selector.fallback() is None,
    {
        Selector { fallback: None }
    }

    /// Takes the outcome of the next candidate into account.
    pub fn offer(self, outcome: Result<Snapshot, SkipReason>) -> (step: Step)
        ensures
            match outcome {
                Ok(s) => if s.status == PlaybackStatus::Playing {
                    step matches Step::Report(r) && r@ == s@
                } else {
                    step matches Step::Continue(next) && next.fallback() == Some(s@)
                },
                Err(_) => step matches Step::Continue(next) && next.fallback() == self.fallback(),
            },
    {
        match outcome {
            Ok(snapshot) => {
                match snapshot.status {
                    PlaybackStatus::Playing => Step::Report(snapshot),
                    _ => Step::Continue(Selector { fallback: Some(snapshot) }),
                }
            },
            Err(_) => Step::Continue(self),
        }
    }

    /// Ends the selection once every candidate was offered.
    pub fn finish(self) -> (r: Result<Snapshot, SelectError>)
        ensures
            match r {
                Ok(s) => self.fallback() == Some(s@),
                Err(e) => self.fallback() is None && e == SelectError::NoMediaAvailable,
            },
    {
        match self.fallback {
            Some(snapshot) => Ok(snapshot),
            None => Err(SelectError::NoMediaAvailable),
        }
    }
}

/// What a finished selection returned, as mathematical data.
pub open spec fn chosen(r: Result<Snapshot, SelectError>) -> Option<SnapshotView> {
    match r {
        Ok(s) => Some(s@),
        Err(_) => None,
    }
}

/// The assessments of a list of candidates, each with its service name and
/// what the fetch of its properties gave.
pub open spec fn assessments(
    candidates: Seq<(String, Result<PlayerProperties, PropertyFetchError>)>,
    config: ConfigView,
) -> Seq<Result<SnapshotView, SkipReason>> {
    Seq::new(candidates.len(), |i: int| assessed(candidates[i].0@, candidates[i].1, config))
}

/// Selects among candidates whose properties were fetched beforehand.
pub fn select_from(
    candidates: &Vec<(String, Result<PlayerProperties, PropertyFetchError>)>,
    config: &Config,
) -> (r: Result<Snapshot, SelectError>)
    ensures
        chosen(r) == selected(assessments(candidates@, config@)),
        r is Err ==> r == Err::<Snapshot, SelectError>(SelectError::NoMediaAvailable),
{
    let ghost outcomes = assessments(candidates@, config@);
    let mut selector = Selector::new();
    let mut i: usize = 0;
    while i < candidates.len()
        invariant
            i <= candidates.len(),
            outcomes == assessments(candidates@, config@),
            selected(outcomes) == resume(outcomes, i as int, selector.fallback()),
        decreases candidates.len() - i,
    {
        let outcome = assess(candidates[i].0.clone(), &candidates[i].1, config);
        assert(seen(outcome) == outcomes[i as int]);
        match selector.offer(outcome) {
            Step::Report(snapshot) => {
                return Ok(snapshot);
            },
            Step::Continue(next) => {
                selector = next;
            },
        }
        i += 1;
    }
    selector.finish()
}

} // verus!
