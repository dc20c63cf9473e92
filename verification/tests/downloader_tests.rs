use rustle::downloader::{
    assemble_parts, collect_part_results, DownloadStatus, RustleDownloader,
};
use rustle::errors::{FetchError, OrchestratorError};
use rustle::headers::{extract_header_info, SupportPartialRequest};
use rustle::planner::RangePlan;

fn probed_job() -> RustleDownloader {
    let mut job = RustleDownloader::new(4).unwrap();
    job.set_url("https://example.com/files/data.bin").unwrap();
    job.set_out_dir("/tmp/out").unwrap();
    let info = extract_header_info(Some("1000000"), Some("bytes"), None, None, Some("data.bin"))
        .unwrap();
    job.record_probe(info);
    job
}

#[test]
fn new_requires_positive_parallelism() {
    assert!(RustleDownloader::new(0).is_err());
    assert!(RustleDownloader::new(1).is_ok());
}

#[test]
fn fresh_job_is_idle_and_empty() {
    let job = RustleDownloader::new(4).unwrap();
    assert_eq!(job.get_status(), DownloadStatus::Idle);
    assert!(job.get_file_info().is_none());
    assert!(job.get_progress_vec().is_empty());
}

#[test]
fn set_url_rejects_invalid_input() {
    let mut job = RustleDownloader::new(4).unwrap();
    assert!(job.set_url("not a url").is_err());
    assert!(job.set_url("https://example.com/x").is_ok());
}

#[test]
fn set_out_dir_rejects_empty_path() {
    let mut job = RustleDownloader::new(4).unwrap();
    assert!(job.set_out_dir("").is_err());
    assert!(job.set_out_dir("downloads").is_ok());
}

#[test]
fn start_before_probe_is_a_precondition_failure() {
    let mut job = RustleDownloader::new(4).unwrap();
    job.set_url("https://example.com/x").unwrap();
    job.set_out_dir("/tmp/out").unwrap();
    let r = job.start();
    assert!(matches!(r, Err(OrchestratorError::PreconditionNotMet)));
    assert_eq!(job.get_status(), DownloadStatus::Idle);
    assert!(job.get_progress_vec().is_empty());
}

#[test]
fn start_plans_and_activates_probed_job() {
    let mut job = probed_job();
    let plan = job.start().unwrap();
    match plan {
        RangePlan::Ranges(v) => assert_eq!(v.len(), 4),
        RangePlan::Whole => panic!("expected a ranged plan"),
    }
    assert_eq!(job.get_status(), DownloadStatus::Downloading);
    let pv = job.get_progress_vec();
    assert_eq!(pv.len(), 4);
    for p in pv {
        assert_eq!(p.downloaded_bytes, 0);
        assert_eq!(p.download_speed, 0);
    }
}

#[test]
fn start_without_range_support_plans_one_part() {
    let mut job = RustleDownloader::new(4).unwrap();
    job.set_url("https://example.com/x").unwrap();
    job.set_out_dir("/tmp/out").unwrap();
    let info = extract_header_info(None, None, None, None, None).unwrap();
    job.record_probe(info);
    let plan = job.start().unwrap();
    assert!(matches!(plan, RangePlan::Whole));
    assert_eq!(job.get_progress_vec().len(), 1);
}

#[test]
fn probe_record_is_readable_back() {
    let job = probed_job();
    let info = job.get_file_info().unwrap();
    assert_eq!(info.support_partial, SupportPartialRequest::Yes);
    assert_eq!(info.content_length, Some(1000000));
    assert_eq!(info.file_name.as_deref(), Some("data.bin"));
}

#[test]
fn pause_and_resume_are_idempotent_transitions() {
    let mut job = probed_job();
    job.start().unwrap();
    assert_eq!(job.get_status(), DownloadStatus::Downloading);
    job.pause();
    assert_eq!(job.get_status(), DownloadStatus::Paused);
    job.pause();
    assert_eq!(job.get_status(), DownloadStatus::Paused);
    job.resume();
    assert_eq!(job.get_status(), DownloadStatus::Downloading);
    job.resume();
    assert_eq!(job.get_status(), DownloadStatus::Downloading);
}

#[test]
fn pause_does_not_touch_inactive_jobs() {
    let mut job = RustleDownloader::new(2).unwrap();
    job.pause();
    assert_eq!(job.get_status(), DownloadStatus::Idle);
    job.resume();
    assert_eq!(job.get_status(), DownloadStatus::Idle);
}

#[test]
fn progress_survives_a_pause_resume_cycle() {
    let mut job = probed_job();
    job.start().unwrap();
    job.record_chunk(1, 4096, 1000);
    let before = job.get_progress_vec();
    job.pause();
    job.resume();
    let after = job.get_progress_vec();
    assert_eq!(before, after);
    job.record_chunk(1, 4096, 2000);
    let later = job.get_progress_vec();
    for i in 0..after.len() {
        assert!(later[i].downloaded_bytes >= after[i].downloaded_bytes);
    }
    assert_eq!(later[1].downloaded_bytes, 8192);
}

#[test]
fn record_chunk_updates_only_its_part() {
    let mut job = probed_job();
    job.start().unwrap();
    job.record_chunk(2, 1000, 500);
    let pv = job.get_progress_vec();
    assert_eq!(pv[2].downloaded_bytes, 1000);
    assert_eq!(pv[2].download_speed, 2000);
    assert_eq!(pv[0].downloaded_bytes, 0);
    assert_eq!(pv[1].downloaded_bytes, 0);
    assert_eq!(pv[3].downloaded_bytes, 0);
}

#[test]
fn totals_aggregate_across_parts() {
    let mut job = probed_job();
    job.start().unwrap();
    job.record_chunk(0, 1000, 1000);
    job.record_chunk(1, 3000, 1000);
    assert_eq!(job.total_downloaded(), 4000);
    assert_eq!(job.total_speed(), 4000);
}

#[test]
fn finish_and_fail_set_terminal_states() {
    let mut job = probed_job();
    job.start().unwrap();
    job.finish();
    assert_eq!(job.get_status(), DownloadStatus::Done);
    let mut job2 = probed_job();
    job2.start().unwrap();
    job2.fail();
    assert_eq!(job2.get_status(), DownloadStatus::Error);
}

#[test]
fn snapshot_reads_progress_and_status_together() {
    let mut job = probed_job();
    job.start().unwrap();
    job.record_chunk(0, 100, 1000);
    let (progress, status) = job.snapshot();
    assert_eq!(status, DownloadStatus::Downloading);
    assert_eq!(progress, job.get_progress_vec());
    assert_eq!(progress[0].downloaded_bytes, 100);
}

#[test]
fn assembly_concatenates_in_plan_order() {
    let parts: Vec<Vec<u8>> = vec![vec![1, 2, 3], vec![], vec![4], vec![5, 6]];
    assert_eq!(assemble_parts(&parts), vec![1, 2, 3, 4, 5, 6]);
}

#[test]
fn join_keeps_all_buffers_when_every_part_succeeded() {
    let results: Vec<Result<Vec<u8>, FetchError>> =
        vec![Ok(vec![1, 2]), Ok(vec![]), Ok(vec![3])];
    let parts = collect_part_results(results).unwrap();
    assert_eq!(parts, vec![vec![1, 2], vec![], vec![3]]);
    let none: Vec<Result<Vec<u8>, FetchError>> = Vec::new();
    assert_eq!(collect_part_results(none).unwrap(), Vec::<Vec<u8>>::new());
}

#[test]
fn join_surfaces_the_first_part_failure() {
    let results: Vec<Result<Vec<u8>, FetchError>> = vec![
        Ok(vec![1]),
        Err(FetchError::UnexpectedStatus(200, String::from("first"))),
        Err(FetchError::Network(String::from("second"))),
    ];
    match collect_part_results(results) {
        Err(OrchestratorError::PartFailed(FetchError::UnexpectedStatus(status, body))) => {
            assert_eq!(status, 200);
            assert_eq!(body, "first");
        },
        _ => panic!("expected the first part failure"),
    }
}
