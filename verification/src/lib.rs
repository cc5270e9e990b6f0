//! Discovers downloadable resources referenced by an HTML page and plans
//! their retrieval to local storage, with live progress aggregation and
//! all-or-nothing failure propagation over a batch of download jobs.
//!
//! The library holds the logic: resolving hyperlinks against a base page,
//! collecting the links that match an extension filter, planning one download
//! job per link, aggregating per-job statuses into a progress percentage, and
//! deciding the batch outcome. The surrounding program performs the network
//! reads and file writes and feeds their results back in as plain values.
use vstd::prelude::*;

pub mod args;
pub mod file_downloader;
pub mod file_link_scrapper;
pub mod progress;

verus! {

/// How a single fetch job can fail: the link does not parse as an absolute
/// URL, the request or transfer fails, or the file cannot be created or
/// written. Individual failures are not retried.
#[derive(Clone, Copy, Debug, PartialEq, Eq, Structural)]
pub enum FetchError {
    UrlParse,
    Network,
    Io,
}

/// The terminal error of one batch: it wraps the first individual fetch
/// failure observed, discarding the rest.
#[derive(Clone, Copy, Debug, PartialEq, Eq, Structural)]
pub struct BatchError {
    pub first: FetchError,
}

impl BatchError {
    /// The human-readable line a failed batch shows, whichever job failed.
    pub fn message(&self) -> (r: String)
        ensures
            r@ == "Error with download files."@,
    {
        "Error with download files.".to_owned()
    }
}

} // verus!
