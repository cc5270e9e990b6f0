//! The progress monitor: a long-lived observer of the per-job status cells.
//! Each turn it is handed one observation per job — read without blocking the
//! fetch tasks, so a cell being written reads as inconclusive — and it
//! aggregates them into a completion percentage, emitted only when it
//! changes, until a full pass observes every job completed.
use vstd::arithmetic::div_mod::lemma_div_is_ordered;
use vstd::arithmetic::div_mod::lemma_div_multiples_vanish;
use vstd::arithmetic::mul::lemma_mul_inequality;
use vstd::prelude::*;

use crate::file_downloader::DownloadStatus;

verus! {

/// One non-blocking read of a job's status cell.
#[derive(Clone, Copy, Debug, PartialEq, Eq, Structural)]
pub enum JobObservation {
    /// The cell was being written this turn; the pass is inconclusive for
    /// this job and the monitor must take another turn.
    Inconclusive,
    /// The cell read cleanly.
    Observed(DownloadStatus),
}

/// How many observations report a completed job.
pub open spec fn count_completed(obs: Seq<JobObservation>) -> nat
    decreases obs.len(),
{
    if obs.len() == 0 {
        0
    } else {
        count_completed(obs.drop_last()) + (if obs.last() == JobObservation::Observed(
            DownloadStatus::Completed,
        ) {
            1nat
        } else {
            0nat
        })
    }
}

/// Whether any read of this pass was inconclusive.
pub open spec fn has_inconclusive(obs: Seq<JobObservation>) -> bool {
    exists|i: int| 0 <= i < obs.len() && obs[i] is Inconclusive
}

/// Whether every job was observed completed.
pub open spec fn all_completed(obs: Seq<JobObservation>) -> bool {
    forall|i: int|
        0 <= i < obs.len() ==> obs[i] == JobObservation::Observed(DownloadStatus::Completed)
}

/// The completion percentage of `completed` jobs out of `total`, rounded
/// down. A batch of zero jobs is defined as immediately 100% complete: the
/// monitor then has nothing left to observe and finishes at once.
pub open spec fn percent_of(completed: int, total: int) -> int {
    if total <= 0 {
        100
    } else {
        completed * 100 / total
    }
}

/// The monitor finishes only when a full pass had no inconclusive read and
/// observed 100% completion.
pub open spec fn monitor_done(obs: Seq<JobObservation>) -> bool {
    !has_inconclusive(obs) && percent_of(count_completed(obs) as int, obs.len() as int) == 100
}

/// No pass counts more completed jobs than it has observations.
pub proof fn lemma_count_completed_le_len(obs: Seq<JobObservation>)
    ensures
        count_completed(obs) <= obs.len(),
    decreases obs.len(),
{
    if obs.len() > 0 {
        lemma_count_completed_le_len(obs.drop_last());
    }
}

/// A pass counts every observation exactly when every job was observed
/// completed.
pub proof fn lemma_count_full_iff_all_completed(obs: Seq<JobObservation>)
    ensures
        count_completed(obs) == obs.len() <==> all_completed(obs),
    decreases obs.len(),
{
    lemma_count_completed_le_len(obs);
    if obs.len() > 0 {
        lemma_count_full_iff_all_completed(obs.drop_last());
        lemma_count_completed_le_len(obs.drop_last());
        if all_completed(obs) {
            assert(all_completed(obs.drop_last())) by {
                assert(forall|i: int|
                    0 <= i < obs.len() - 1 ==> obs.drop_last()[i] == obs[i]);
            }
        }
        if count_completed(obs) == obs.len() {
            assert(forall|i: int|
                0 <= i < obs.len() - 1 ==> obs[i] == obs.drop_last()[i]);
            assert(obs.last() == obs[obs.len() - 1]);
        }
    }
}

/// The percentage reads exactly 100 when and only when every job was
/// observed completed; with that, a pass with no inconclusive read finishes
/// the monitor exactly on a fully completed batch.
pub proof fn lemma_full_percent_iff_all_completed(obs: Seq<JobObservation>)
    ensures
        percent_of(count_completed(obs) as int, obs.len() as int) == 100 <==> all_completed(obs),
{
    lemma_count_completed_le_len(obs);
    lemma_count_full_iff_all_completed(obs);
    let c = count_completed(obs) as int;
    let n = obs.len() as int;
    if n > 0 {
        if c == n {
            assert(n * 100 == 100 * n) by (nonlinear_arith);
            lemma_div_multiples_vanish(100, n);
            assert(c * 100 / n == 100);
        }
        if c < n {
            assert(c * 100 / n < 100) by {
                assert(c * 100 <= (n - 1) * 100) by {
                    lemma_mul_inequality(c, n - 1, 100);
                }
                lemma_div_is_ordered(c * 100, (n - 1) * 100, n);
                assert((n - 1) * 100 == n * 100 - 100) by (nonlinear_arith);
                assert(n * 100 == 100 * n) by (nonlinear_arith);
                assert((100 * n - 100) / n == 100 + (-100) / n) by {
                    vstd::arithmetic::div_mod::lemma_hoist_over_denominator(-100, 100, n as nat);
                }
                assert((-100) / n <= -1) by {
                    vstd::arithmetic::div_mod::lemma_div_is_ordered(-100, -1, n);
                    assert((-1) / n <= -1) by (nonlinear_arith)
                        requires n > 0;
                }
            }
        }
    }
}

/// The monitor never reports completion while any job's status remains in
/// progress or could not be read: it is done only when every job was
/// observed completed, and conversely.
pub proof fn lemma_done_iff_all_completed(obs: Seq<JobObservation>)
    ensures
        monitor_done(obs) <==> all_completed(obs),
{
    lemma_full_percent_iff_all_completed(obs);
}

/// Between two passes over one batch a completed job stays completed; the
/// statuses only advance.
pub open spec fn advances(o1: Seq<JobObservation>, o2: Seq<JobObservation>) -> bool {
    &&& o1.len() == o2.len()
    &&& forall|i: int|
        0 <= i < o1.len() && o1[i] == JobObservation::Observed(DownloadStatus::Completed)
            ==> o2[i] == JobObservation::Observed(DownloadStatus::Completed)
}

/// Over the lifetime of one batch the completed count, and with it the
/// reported percentage, is monotonically non-decreasing.
pub proof fn lemma_progress_monotone(o1: Seq<JobObservation>, o2: Seq<JobObservation>)
    requires
        advances(o1, o2),
    ensures
        count_completed(o1) <= count_completed(o2),
        percent_of(count_completed(o1) as int, o1.len() as int) <= percent_of(
            count_completed(o2) as int,
            o2.len() as int,
        ),
    decreases o1.len(),
{
    if o1.len() > 0 {
        assert(advances(o1.drop_last(), o2.drop_last())) by {
            assert(forall|i: int| 0 <= i < o1.len() - 1 ==> o1.drop_last()[i] == o1[i]);
            assert(forall|i: int| 0 <= i < o2.len() - 1 ==> o2.drop_last()[i] == o2[i]);
        }
        lemma_progress_monotone(o1.drop_last(), o2.drop_last());
        assert(o1.last() == o1[o1.len() - 1]);
        assert(o2.last() == o2[o2.len() - 1]);
    }
    let n = o1.len() as int;
    if n > 0 {
        lemma_mul_inequality(count_completed(o1) as int, count_completed(o2) as int, 100);
        lemma_div_is_ordered(count_completed(o1) as int * 100, count_completed(o2) as int * 100, n);
    }
}

/// What one monitor turn decided: the percentage to report, if it changed,
/// and whether the monitor is finished.
pub struct TickOutcome {
    pub emit: Option<u64>,
    pub done: bool,
}

/// The progress monitor's own state: the batch size, fixed at submission
/// time, and the last percentage it reported, for edge-triggered output.
pub struct ProgressMonitor {
    pub total: usize,
    pub last_emitted: Option<u64>,
}

impl ProgressMonitor {
    /// A monitor for a batch of `total` jobs that has reported nothing yet.
    pub fn new(total: usize) -> (r: Self)
        ensures
            r.total == total,
            r.last_emitted is None,
    {
        ProgressMonitor { total, last_emitted: None }
    }

    /// One monitor turn over a full pass of observations. The percentage is
    /// reported only when it differs from the previous report; the turn
    /// finishes the monitor exactly when the pass had no inconclusive read
    /// and observed 100% completion — on anything less the caller must
    /// schedule another turn.
    pub fn tick(&mut self, observations: &Vec<JobObservation>) -> (r: TickOutcome)
        requires
            observations@.len() == old(self).total,
        ensures
            final(self).total == old(self).total,
            ({
                let p = percent_of(
                    count_completed(observations@) as int,
                    old(self).total as int,
                );
                &&& final(self).last_emitted == Some(p as u64)
                &&& r.emit == (if old(self).last_emitted == Some(p as u64) {
                    None::<u64>
                } else {
                    Some(p as u64)
                })
                &&& r.done == monitor_done(observations@)
            }),
    {
        let ghost obs = observations@;
        let total = self.total;
        let mut completed: usize = 0;
        let mut inconclusive = false;
        let mut i: usize = 0;
        while i < observations.len()
            invariant
                i <= obs.len(),
                obs == observations@,
                completed == count_completed(obs.take(i as int)),
                inconclusive == has_inconclusive(obs.take(i as int)),
                completed <= i,
            decreases obs.len() - i,
        {
            proof {
                assert(obs.take(i + 1).drop_last() =~= obs.take(i as int));
                assert(obs.take(i + 1).last() == obs[i as int]);
                if !(obs[i as int] is Inconclusive) {
                    assert(has_inconclusive(obs.take(i + 1)) == has_inconclusive(
                        obs.take(i as int),
                    )) by {
                        assert(forall|j: int|
                            0 <= j < i ==> obs.take(i + 1)[j] == obs.take(i as int)[j]);
                        if has_inconclusive(obs.take(i + 1)) {
                            let w = choose|j: int|
                                0 <= j < i + 1 && #[trigger] obs.take(i + 1)[j] is Inconclusive;
                            assert(w < i && obs.take(i as int)[w] is Inconclusive);
                        }
                    }
                } else {
                    assert(obs.take(i + 1)[i as int] is Inconclusive);
                }
            }
            match observations[i] {
                JobObservation::Inconclusive => {
                    inconclusive = true;
                },
                JobObservation::Observed(DownloadStatus::Completed) => {
                    completed = completed + 1;
                },
                JobObservation::Observed(DownloadStatus::InProgress) => {},
            }
            i += 1;
        }
        proof {
            assert(obs.take(obs.len() as int) =~= obs);
            lemma_count_completed_le_len(obs);
        }
        let percent: u64 = if total == 0 {
            100
        } else {
            proof {
                lemma_mul_inequality(completed as int, total as int, 100);
                lemma_div_is_ordered(completed as int * 100, total as int * 100, total as int);
                lemma_div_multiples_vanish(100, total as int);
                assert(total as int * 100 == 100 * (total as int)) by (nonlinear_arith);
                assert(completed as int * 100 / (total as int) <= 100);
                assert(completed as int * 100 >= 0) by (nonlinear_arith)
                    requires completed as int >= 0;
            }
            ((completed as u128 * 100) / (total as u128)) as u64
        };
        assert(percent == percent_of(count_completed(obs) as int, total as int));
        let done = !inconclusive && percent == 100;
        proof {
            if total == 0 {
                assert(!has_inconclusive(obs));
            }
        }
        let emit = match self.last_emitted {
            Some(last) if last == percent => None,
            _ => Some(percent),
        };
        self.last_emitted = Some(percent);
        TickOutcome { emit, done }
    }
}

} // verus!
