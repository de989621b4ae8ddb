//! Git status of the project cards: what a background fetch reports, and the
//! per-repository generation counter that keeps a slow, stale fetch from
//! overwriting the result of a newer one.

use vstd::prelude::*;
use crate::keyed::KeyedMap;

verus! {

/// Status badge of a project card.
#[derive(Clone, Debug, PartialEq)]
pub enum GitFetchStatus {
    NotStarted,
    Fetching,
    UpToDate,
    UpdatesAvailable(usize),
    Error(String),
}

/// Tracking state of a repository after a fetch.
#[derive(Clone, Debug, PartialEq)]
pub struct TrackingSnapshot {
    pub branch: String,
    /// Commit of the upstream branch; `None` when the branch tracks nothing.
    pub upstream_oid: Option<String>,
    /// Number of upstream commits not yet in the local branch.
    pub behind: usize,
}

/// Outcome of an automatic fetch.
#[derive(Clone, Debug, PartialEq)]
pub enum AutoFetchOutcome {
    /// Another operation holds the repository; nothing was fetched.
    Busy,
    Fetched(TrackingSnapshot),
}

#[verifier::external_type_specification]
#[verifier::external_body]
pub struct ExGitError(git2::Error);

/// `Display` of a `git2::Error`: its message, followed by its class and code
/// unless those are the generic ones. The text itself is left unsaid here.
#[verifier::external_body]
fn git_error_text(error: &git2::Error) -> (r: String) {
    error.to_string()
}

/// The card status for a fetch outcome whose error, if any, is already given
/// as its message: `None` (leave the card as it is) when the repository was
/// busy.
pub open spec fn spec_fetch_status(result: Result<AutoFetchOutcome, String>) -> Option<
    GitFetchStatus,
> {
    match result {
        Ok(AutoFetchOutcome::Busy) => None,
        Ok(AutoFetchOutcome::Fetched(snapshot)) => if snapshot.upstream_oid is None {
            Some(GitFetchStatus::NotStarted)
        } else if snapshot.behind == 0 {
            Some(GitFetchStatus::UpToDate)
        } else {
            Some(GitFetchStatus::UpdatesAvailable(snapshot.behind))
        },
        Err(message) => Some(GitFetchStatus::Error(message)),
    }
}

/// Card status for a fetch outcome, with the error given as its message.
pub fn fetch_status_of(result: Result<AutoFetchOutcome, String>) -> (r: Option<GitFetchStatus>)
    ensures
        r == spec_fetch_status(result),
{
    match result {
        Ok(AutoFetchOutcome::Busy) => None,
        Ok(AutoFetchOutcome::Fetched(snapshot)) => {
            if snapshot.upstream_oid.is_none() {
                Some(GitFetchStatus::NotStarted)
            } else if snapshot.behind == 0 {
                Some(GitFetchStatus::UpToDate)
            } else {
                Some(GitFetchStatus::UpdatesAvailable(snapshot.behind))
            }
        },
        Err(message) => Some(GitFetchStatus::Error(message)),
    }
}

/// Card status for the result of a background fetch. A git error becomes an
/// `Error` status carrying the error's text.
pub fn git_fetch_status(result: Result<AutoFetchOutcome, git2::Error>) -> (r: Option<
    GitFetchStatus,
>)
    ensures
        (match result {
            Ok(outcome) => r == spec_fetch_status(Ok::<AutoFetchOutcome, String>(outcome)),
            Err(_) => r matches Some(GitFetchStatus::Error(_)),
        }),
{
    match result {
        Ok(outcome) => fetch_status_of(Ok(outcome)),
        Err(error) => fetch_status_of(Err(git_error_text(&error))),
    }
}

/// Generation of the latest operation started on a repository; 0 before any.
pub open spec fn spec_generation(generations: Map<Seq<char>, u64>, repository_key: Seq<char>) -> u64 {
    if generations.dom().contains(repository_key) {
        generations[repository_key]
    } else {
        0
    }
}

/// Generation of the next operation on a repository (wrapping).
pub open spec fn spec_next_generation(
    generations: Map<Seq<char>, u64>,
    repository_key: Seq<char>,
) -> u64 {
    if spec_generation(generations, repository_key) == u64::MAX {
        0
    } else {
        (spec_generation(generations, repository_key) + 1) as u64
    }
}

pub fn current_git_status_generation(generations: &KeyedMap<u64>, repository_key: &str) -> (r: u64)
    ensures
        r == spec_generation(generations@, repository_key@),
{
    match generations.get(repository_key) {
        Some(g) => *g,
        None => 0,
    }
}

/// Starts a new operation on a repository: bumps and returns its generation.
pub fn next_git_status_generation(generations: &mut KeyedMap<u64>, repository_key: &str) -> (r: u64)
    ensures
        r == spec_next_generation(old(generations)@, repository_key@),
        final(generations)@ == old(generations)@.insert(repository_key@, r),
{
    let generation = current_git_status_generation(generations, repository_key).wrapping_add(1);
    generations.insert(repository_key.to_string(), generation);
    generation
}

/// Whether a result of the operation with generation `expected_generation`
/// is applied: it carries a status and no newer operation has started.
pub open spec fn spec_applies(
    generations: Map<Seq<char>, u64>,
    repository_key: Seq<char>,
    expected_generation: u64,
    status: Option<GitFetchStatus>,
) -> bool {
    status is Some && spec_generation(generations, repository_key) == expected_generation
}

/// Records `status` under `status_key` when it belongs to the latest
/// operation on the repository; returns whether it was recorded.
pub fn apply_git_status_if_current(
    statuses: &mut KeyedMap<GitFetchStatus>,
    generations: &KeyedMap<u64>,
    status_key: String,
    repository_key: &str,
    expected_generation: u64,
    status: Option<GitFetchStatus>,
) -> (applied: bool)
    ensures
        applied == spec_applies(generations@, repository_key@, expected_generation, status),
        applied ==> final(statuses)@ == old(statuses)@.insert(status_key@, status->0),
        !applied ==> final(statuses)@ == old(statuses)@,
{
    let status = match status {
        Some(status) => status,
        None => return false,
    };
    if current_git_status_generation(generations, repository_key) != expected_generation {
        return false;
    }
    statuses.insert(status_key, status);
    true
}

/// The card statuses after the repository of `status_key` could not be
/// resolved: no repository there clears the card's status; any other
/// failure shows the error.
pub open spec fn spec_discovery_failure(
    statuses: Map<Seq<char>, GitFetchStatus>,
    status_key: Seq<char>,
    not_found: bool,
    message: String,
) -> Map<Seq<char>, GitFetchStatus> {
    if not_found {
        statuses.remove(status_key)
    } else {
        statuses.insert(status_key, GitFetchStatus::Error(message))
    }
}

/// Records that the repository of a card could not be resolved; returns
/// whether the card's status changed hands (cleared or set).
pub fn record_discovery_failure(
    statuses: &mut KeyedMap<GitFetchStatus>,
    status_key: String,
    not_found: bool,
    message: String,
) -> (changed: bool)
    ensures
        final(statuses)@ == spec_discovery_failure(old(statuses)@, status_key@, not_found, message),
        changed == (!not_found || old(statuses)@.dom().contains(status_key@)),
{
    if not_found {
        statuses.remove(status_key.as_str())
    } else {
        statuses.insert(status_key, GitFetchStatus::Error(message));
        true
    }
}

/// Starts pulling a project: a new operation on its repository, shown as
/// fetching; returns the operation's generation.
pub fn begin_pull(
    statuses: &mut KeyedMap<GitFetchStatus>,
    generations: &mut KeyedMap<u64>,
    status_key: String,
    repository_key: &str,
) -> (generation: u64)
    ensures
        generation == spec_next_generation(old(generations)@, repository_key@),
        final(generations)@ == old(generations)@.insert(repository_key@, generation),
        final(statuses)@ == old(statuses)@.insert(status_key@, GitFetchStatus::Fetching),
{
    let generation = next_git_status_generation(generations, repository_key);
    statuses.insert(status_key, GitFetchStatus::Fetching);
    generation
}

/// The projects to fetch, each as its status key and its path.
pub fn git_fetch_paths(project_paths: &Vec<String>) -> (r: Vec<(String, String)>)
    ensures
        r@.len() == project_paths@.len(),
        forall|i: int|
            0 <= i < r@.len() ==> #[trigger] r@[i].0@ == project_paths@[i]@ && r@[i].1@
                == project_paths@[i]@,
{
    let mut r: Vec<(String, String)> = Vec::new();
    let mut i: usize = 0;
    while i < project_paths.len()
        invariant
            i <= project_paths@.len(),
            r@.len() == i,
            forall|j: int|
                0 <= j < i ==> #[trigger] r@[j].0@ == project_paths@[j]@ && r@[j].1@
                    == project_paths@[j]@,
        decreases project_paths@.len() - i,
    {
        let p = project_paths[i].clone();
        let q = project_paths[i].clone();
        r.push((p, q));
        i = i + 1;
    }
    r
}

/// A result of an operation that a newer one on the same repository has
/// superseded is never recorded: once two operations have started, the
/// first one's generation no longer applies.
pub proof fn law_stale_result_rejected(
    generations: Map<Seq<char>, u64>,
    repository_key: Seq<char>,
    status: Option<GitFetchStatus>,
)
    ensures
        ({
            let first = spec_next_generation(generations, repository_key);
            let after_first = generations.insert(repository_key, first);
            let second = spec_next_generation(after_first, repository_key);
            let after_second = after_first.insert(repository_key, second);
            &&& !spec_applies(after_second, repository_key, first, status)
            &&& (status is Some ==> spec_applies(after_second, repository_key, second, status))
        }),
{
}

/// A fetch that found the repository busy carries no status and never
/// changes what a card shows.
pub proof fn law_busy_fetch_changes_nothing(
    generations: Map<Seq<char>, u64>,
    repository_key: Seq<char>,
    expected_generation: u64,
)
    ensures
        spec_fetch_status(Ok::<AutoFetchOutcome, String>(AutoFetchOutcome::Busy)) is None,
        !spec_applies(
            generations,
            repository_key,
            expected_generation,
            spec_fetch_status(Ok::<AutoFetchOutcome, String>(AutoFetchOutcome::Busy)),
        ),
{
}

} // verus!
