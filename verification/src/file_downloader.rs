//! Download planning and batch aggregation. A job is one (link, destination
//! directory) pair: planning derives the destination file from the link's
//! last path segment, and the batch outcome is all-or-nothing over the
//! per-job results, wrapping the first observed failure.
use vstd::prelude::*;
use vstd::string::StringExecFns;

use crate::BatchError;
use crate::FetchError;

verus! {

/// Per-job completion flag. Its only legal transition is
/// `InProgress` to `Completed`, taken exactly once, when the job's file write
/// has fully completed. There is no failed state here: failure travels
/// through the job's own result, not through its status.
#[derive(Clone, Copy, Debug, PartialEq, Eq, Structural)]
pub enum DownloadStatus {
    InProgress,
    Completed,
}

/// Mutable state attached to one job: written once by the job's fetch task,
/// read many times by the progress monitor.
pub struct JobStatus {
    pub download_status: DownloadStatus,
}

impl Default for JobStatus {
    /// A job starts in progress.
    fn default() -> (r: Self)
        ensures
            r.download_status is InProgress,
    {
        JobStatus { download_status: DownloadStatus::InProgress }
    }
}

impl JobStatus {
    /// The one legal transition: the job's download has fully completed.
    /// Monotonic; a completed job never reverts.
    pub fn complete(&mut self)
        ensures
            final(self).download_status is Completed,
    {
        self.download_status = DownloadStatus::Completed;
    }

    pub fn is_completed(&self) -> (r: bool)
        ensures
            r == (self.download_status is Completed),
    {
        match self.download_status {
            DownloadStatus::Completed => true,
            DownloadStatus::InProgress => false,
        }
    }
}

/// What one link asks of the fetcher, derived before any network work.
#[derive(Debug, PartialEq, Eq)]
pub enum FetchPlan {
    /// The link does not parse as an absolute URL: the job fails without a
    /// network read.
    Invalid,
    /// The link parses but offers no path segments: nothing is downloaded and
    /// the job nevertheless reports success.
    NoDownload,
    /// Stream the link's body to this destination path.
    SaveTo(String),
}

/// What the URL library reads out of a link string: `None` when the string
/// does not parse as an absolute URL; `Some(None)` when the URL has no path
/// segments; `Some(Some(name))` with the last slash-separated path segment
/// otherwise.
pub uninterp spec fn url_file_name_of(link: Seq<char>) -> Option<Option<Seq<char>>>;

/// Relies on url::Url::parse and url::Url::path_segments: both are functions
/// of the link string alone, so the outcome deserves a name,
/// `url_file_name_of`. `path_segments` returns `None` exactly for
/// cannot-be-a-base URLs, and otherwise yields at least one (possibly empty)
/// segment.
#[verifier::external_body]
fn url_file_name(link: &str) -> (r: Option<Option<String>>)
    ensures
        r.deep_view() == url_file_name_of(link@),
{
    match url::Url::parse(link) {
        Ok(u) => Some(match u.path_segments() {
            Some(segments) => segments.last().map(|s| s.to_string()),
            None => None,
        }),
        Err(_) => None,
    }
}

/// The destination path of a named download: `<dir>/<name>`.
pub open spec fn planned_path(dir: Seq<char>, name: Seq<char>) -> Seq<char> {
    dir + "/"@ + name
}

/// How a plan relates to what the URL library read out of the link.
pub open spec fn plan_matches(p: FetchPlan, link: Seq<char>, dir: Seq<char>) -> bool {
    match p {
        FetchPlan::Invalid => url_file_name_of(link) is None,
        FetchPlan::NoDownload => url_file_name_of(link) == Some(None::<Seq<char>>),
        FetchPlan::SaveTo(path) => match url_file_name_of(link) {
            Some(Some(name)) => path@ == planned_path(dir, name),
            _ => false,
        },
    }
}

/// Plan one job: derive the destination file name from the link's last path
/// segment. A link that does not parse yields `Invalid`; one without path
/// segments yields `NoDownload` — such a job performs no network or file
/// work and nevertheless reports success.
pub fn plan_fetch(link: &str, download_path: &str) -> (p: FetchPlan)
    ensures
        plan_matches(p, link@, download_path@),
{
    match url_file_name(link) {
        None => FetchPlan::Invalid,
        Some(None) => FetchPlan::NoDownload,
        Some(Some(name)) => {
            let mut path = download_path.to_owned();
            path.append("/");
            path.append(name.as_str());
            proof {
                assert(path@ =~= planned_path(download_path@, name@));
            }
            FetchPlan::SaveTo(path)
        },
    }
}

/// Plan a whole batch: one job per link, in submission order.
pub fn plan_batch(links: &Vec<String>, download_path: &str) -> (plans: Vec<FetchPlan>)
    ensures
        plans@.len() == links@.len(),
        forall|i: int|
            0 <= i < links@.len() ==> plan_matches(
                #[trigger] plans@[i],
                links.deep_view()[i],
                download_path@,
            ),
{
    let mut plans: Vec<FetchPlan> = Vec::new();
    let mut i: usize = 0;
    while i < links.len()
        invariant
            i <= links@.len(),
            plans@.len() == i,
            forall|j: int|
                0 <= j < i ==> plan_matches(#[trigger] plans@[j], links.deep_view()[j], download_path@),
        decreases links@.len() - i,
    {
        let plan = plan_fetch(links[i].as_str(), download_path);
        plans.push(plan);
        i += 1;
    }
    plans
}

/// The terminal state of one fetch job.
#[derive(Clone, Copy, Debug, PartialEq, Eq, Structural)]
pub enum FetchOutcome {
    Success,
    Failure(FetchError),
}

/// The outcome a plan fixes before any network work: an unparseable link is
/// a parse failure, a link with nothing to download succeeds outright, and a
/// planned download is decided only by the fetch itself (`None`).
pub open spec fn planned_outcome_spec(plan: FetchPlan) -> Option<FetchOutcome> {
    match plan {
        FetchPlan::Invalid => Some(FetchOutcome::Failure(FetchError::UrlParse)),
        FetchPlan::NoDownload => Some(FetchOutcome::Success),
        FetchPlan::SaveTo(_) => None,
    }
}

/// Decide a job's outcome from its plan alone, where the plan decides it.
pub fn planned_outcome(plan: &FetchPlan) -> (r: Option<FetchOutcome>)
    ensures
        r == planned_outcome_spec(*plan),
{
    match plan {
        FetchPlan::Invalid => Some(FetchOutcome::Failure(FetchError::UrlParse)),
        FetchPlan::NoDownload => Some(FetchOutcome::Success),
        FetchPlan::SaveTo(_) => None,
    }
}

/// Turn the result of a performed download into the job's outcome.
pub fn fetch_result_outcome(result: &Result<(), FetchError>) -> (r: FetchOutcome)
    ensures
        result is Ok ==> r is Success,
        (result matches Err(e) ==> r == FetchOutcome::Failure(*e)),
{
    match result {
        Ok(()) => FetchOutcome::Success,
        Err(e) => FetchOutcome::Failure(*e),
    }
}

/// The first failure among the job outcomes, in the order they are handed
/// over; `None` when every job succeeded.
pub open spec fn first_failure(results: Seq<FetchOutcome>) -> Option<FetchError>
    decreases results.len(),
{
    if results.len() == 0 {
        None
    } else {
        match results[0] {
            FetchOutcome::Failure(e) => Some(e),
            FetchOutcome::Success => first_failure(results.drop_first()),
        }
    }
}

/// Skipping outcomes known to be successes does not change the first failure.
proof fn lemma_first_failure_skip(results: Seq<FetchOutcome>, i: int)
    requires
        0 <= i <= results.len(),
        forall|j: int| 0 <= j < i ==> results[j] is Success,
    ensures
        first_failure(results) == first_failure(results.skip(i)),
    decreases i,
{
    if i > 0 {
        assert(results[0] is Success);
        lemma_first_failure_skip(results.drop_first(), i - 1);
        assert(results.drop_first().skip(i - 1) =~= results.skip(i));
        assert(results.skip(0) =~= results);
    } else {
        assert(results.skip(0) =~= results);
    }
}

/// A batch in which every job succeeded has no failure to report.
pub proof fn lemma_all_success_batch_ok(results: Seq<FetchOutcome>)
    requires
        forall|i: int| 0 <= i < results.len() ==> results[i] is Success,
    ensures
        first_failure(results) is None,
    decreases results.len(),
{
    if results.len() > 0 {
        lemma_all_success_batch_ok(results.drop_first());
    }
}

/// A batch with any failed job fails as a whole.
pub proof fn lemma_any_failure_batch_err(results: Seq<FetchOutcome>, k: int)
    requires
        0 <= k < results.len(),
        results[k] is Failure,
    ensures
        first_failure(results) is Some,
    decreases k,
{
    if !(results[0] is Failure) {
        lemma_any_failure_batch_err(results.drop_first(), k - 1);
    }
}

/// The batch is all-or-nothing: it succeeds exactly when every job did.
pub proof fn lemma_batch_ok_iff_all_success(results: Seq<FetchOutcome>)
    ensures
        first_failure(results) is None <==> (forall|i: int|
            0 <= i < results.len() ==> results[i] is Success),
{
    if forall|i: int| 0 <= i < results.len() ==> results[i] is Success {
        lemma_all_success_batch_ok(results);
    }
    if first_failure(results) is None {
        assert forall|i: int| 0 <= i < results.len() implies results[i] is Success by {
            if results[i] is Failure {
                lemma_any_failure_batch_err(results, i);
            }
        }
    }
}

/// A link that fails to parse can never contribute a success: its plan is
/// `Invalid`, each plan's fixed outcome is among the recorded results, and a
/// batch with a recorded failure is refused as a whole, so no success is
/// reported for such a list.
pub proof fn lemma_unparseable_link_fails_batch(
    links: Seq<Seq<char>>,
    plans: Seq<FetchPlan>,
    results: Seq<FetchOutcome>,
    dir: Seq<char>,
    k: int,
)
    requires
        plans.len() == links.len(),
        results.len() == links.len(),
        forall|i: int| 0 <= i < links.len() ==> plan_matches(#[trigger] plans[i], links[i], dir),
        forall|i: int|
            0 <= i < links.len() && planned_outcome_spec(#[trigger] plans[i]) is Some
                ==> Some(results[i]) == planned_outcome_spec(plans[i]),
        0 <= k < links.len(),
        url_file_name_of(links[k]) is None,
    ensures
        first_failure(results) is Some,
{
    assert(plan_matches(plans[k], links[k], dir));
    assert(plans[k] is Invalid);
    assert(results[k] is Failure);
    lemma_any_failure_batch_err(results, k);
}

/// What the orchestrator owes the progress monitor once the batch's result
/// is known.
#[derive(Clone, Copy, Debug, PartialEq, Eq, Structural)]
pub enum MonitorDirective {
    /// The monitor must not outlive a failed batch: stop it at once and do
    /// not wait for it further.
    Cancel,
    /// On a successful batch the monitor may lag the fetches slightly; wait
    /// for it to observe 100% and finish before returning.
    Join,
}

/// The deliberate asymmetry of the orchestrator: cancel the monitor exactly
/// on a failed batch, join it exactly on a successful one.
pub fn monitor_directive(batch: &Result<(), BatchError>) -> (d: MonitorDirective)
    ensures
        d is Cancel <==> batch is Err,
        d is Join <==> batch is Ok,
{
    match batch {
        Ok(()) => MonitorDirective::Join,
        Err(_) => MonitorDirective::Cancel,
    }
}

/// Aggregate the job outcomes into the batch's terminal result: success only
/// when every job succeeded, otherwise the first observed failure, wrapped.
pub fn download_batch_outcome(results: &Vec<FetchOutcome>) -> (r: Result<(), BatchError>)
    ensures
        r is Ok <==> first_failure(results@) is None,
        (r matches Err(e) ==> Some(e.first) == first_failure(results@)),
{
    let mut i: usize = 0;
    while i < results.len()
        invariant
            i <= results@.len(),
            forall|j: int| 0 <= j < i ==> results@[j] is Success,
        decreases results@.len() - i,
    {
        match results[i] {
            FetchOutcome::Failure(e) => {
                proof {
                    lemma_first_failure_skip(results@, i as int);
                    assert(results@.skip(i as int)[0] == results@[i as int]);
                }
                return Err(BatchError { first: e });
            },
            FetchOutcome::Success => {},
        }
        i += 1;
    }
    proof {
        lemma_first_failure_skip(results@, results@.len() as int);
        assert(results@.skip(results@.len() as int) =~= Seq::<FetchOutcome>::empty());
    }
    Ok(())
}

} // verus!
