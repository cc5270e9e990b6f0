use r_web_file_downloader::file_downloader::download_batch_outcome;
use r_web_file_downloader::file_downloader::fetch_result_outcome;
use r_web_file_downloader::file_downloader::monitor_directive;
use r_web_file_downloader::file_downloader::plan_batch;
use r_web_file_downloader::file_downloader::plan_fetch;
use r_web_file_downloader::file_downloader::planned_outcome;
use r_web_file_downloader::file_downloader::DownloadStatus;
use r_web_file_downloader::file_downloader::FetchOutcome;
use r_web_file_downloader::file_downloader::FetchPlan;
use r_web_file_downloader::file_downloader::JobStatus;
use r_web_file_downloader::file_downloader::MonitorDirective;
use r_web_file_downloader::FetchError;

#[test]
fn planned_file_names_are_the_last_path_segment() {
    let shallow = plan_fetch("https://x.test/a.pdf", "./test_files");
    let deep = plan_fetch("https://x.test/sub/b.pdf", "./test_files/very/deep/destination");

    assert_eq!(shallow, FetchPlan::SaveTo("./test_files/a.pdf".to_string()));
    assert_eq!(
        deep,
        FetchPlan::SaveTo("./test_files/very/deep/destination/b.pdf".to_string())
    );
}

#[test]
fn plan_batch_plans_one_job_per_link_in_order() {
    let links = vec![
        "https://example.com/file1.txt".to_string(),
        "https://example.com/file2.txt".to_string(),
        "https://example.com/file3.txt".to_string(),
    ];

    let plans = plan_batch(&links, "./test_files");

    assert_eq!(
        plans,
        vec![
            FetchPlan::SaveTo("./test_files/file1.txt".to_string()),
            FetchPlan::SaveTo("./test_files/file2.txt".to_string()),
            FetchPlan::SaveTo("./test_files/file3.txt".to_string()),
        ]
    );
}

#[test]
fn invalid_url_plan_fails_batch() {
    let invalid_links = vec![
        "invalid_url".to_string(),
        "invalid_url".to_string(),
        "invalid_url".to_string(),
    ];

    let plans = plan_batch(&invalid_links, "./test_files");
    let mut results = Vec::new();
    for plan in plans.iter() {
        assert_eq!(*plan, FetchPlan::Invalid);
        results.push(planned_outcome(plan).unwrap());
    }

    let outcome = download_batch_outcome(&results);
    assert!(outcome.is_err());
    assert_eq!(outcome.unwrap_err().first, FetchError::UrlParse);
}

#[test]
fn url_without_path_segments_plans_a_silent_no_op_success() {
    let plan = plan_fetch("mailto:someone@x.test", "./test_files");

    assert_eq!(plan, FetchPlan::NoDownload);
    assert_eq!(planned_outcome(&plan), Some(FetchOutcome::Success));
}

#[test]
fn url_with_empty_last_segment_plans_an_empty_file_name() {
    let plan = plan_fetch("https://x.test", "./test_files");

    assert_eq!(plan, FetchPlan::SaveTo("./test_files/".to_string()));
}

#[test]
fn a_planned_download_is_decided_by_the_fetch_alone() {
    let plan = plan_fetch("https://x.test/a.pdf", "./test_files");

    assert_eq!(planned_outcome(&plan), None);
    assert_eq!(fetch_result_outcome(&Ok(())), FetchOutcome::Success);
    assert_eq!(
        fetch_result_outcome(&Err(FetchError::Network)),
        FetchOutcome::Failure(FetchError::Network)
    );
    assert_eq!(
        fetch_result_outcome(&Err(FetchError::Io)),
        FetchOutcome::Failure(FetchError::Io)
    );
}

#[test]
fn batch_succeeds_only_when_every_job_succeeded() {
    let all_ok = vec![FetchOutcome::Success, FetchOutcome::Success];
    assert!(download_batch_outcome(&all_ok).is_ok());

    let empty: Vec<FetchOutcome> = Vec::new();
    assert!(download_batch_outcome(&empty).is_ok());

    let one_failed = vec![
        FetchOutcome::Success,
        FetchOutcome::Failure(FetchError::Network),
        FetchOutcome::Success,
    ];
    assert!(download_batch_outcome(&one_failed).is_err());
}

#[test]
fn batch_error_wraps_the_first_observed_failure() {
    let results = vec![
        FetchOutcome::Success,
        FetchOutcome::Failure(FetchError::Io),
        FetchOutcome::Failure(FetchError::Network),
    ];

    let outcome = download_batch_outcome(&results);

    assert_eq!(outcome.unwrap_err().first, FetchError::Io);
}

#[test]
fn monitor_is_cancelled_on_failure_and_joined_on_success() {
    let failed = download_batch_outcome(&vec![FetchOutcome::Failure(FetchError::Network)]);
    let succeeded = download_batch_outcome(&vec![FetchOutcome::Success]);

    assert_eq!(monitor_directive(&failed), MonitorDirective::Cancel);
    assert_eq!(monitor_directive(&succeeded), MonitorDirective::Join);
}

#[test]
fn batch_error_message_is_the_fixed_failure_line() {
    let results = vec![FetchOutcome::Failure(FetchError::UrlParse)];
    let error = download_batch_outcome(&results).unwrap_err();

    assert_eq!(error.message(), "Error with download files.");
}

#[test]
fn job_status_starts_in_progress_and_completes_once() {
    let mut status = JobStatus::default();
    assert_eq!(status.download_status, DownloadStatus::InProgress);
    assert!(!status.is_completed());

    status.complete();
    assert_eq!(status.download_status, DownloadStatus::Completed);
    assert!(status.is_completed());
}
