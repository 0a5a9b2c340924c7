use image_fetch::{confirms, reveal_command, summarize, BatchError, JobError, JobErrorKind, ProgressCounter, RevealError};

fn failed(kind: JobErrorKind, message: &str) -> Result<(), JobError> {
    Err(JobError { kind, message: message.to_string() })
}

#[test]
fn empty_batch_succeeds_with_zero() {
    let report = summarize(&Vec::new());
    assert_eq!(report.succeeded, 0);
    assert!(report.first_failure.is_none());
    assert!(matches!(report.into_result(), Ok(0)));
}

#[test]
fn all_jobs_succeed() {
    let outcomes: Vec<Result<(), JobError>> = vec![Ok(()), Ok(()), Ok(()), Ok(()), Ok(())];
    assert!(matches!(summarize(&outcomes).into_result(), Ok(5)));
}

#[test]
fn one_failure_fails_the_batch_and_keeps_the_rest() {
    let outcomes = vec![Ok(()), Ok(()), failed(JobErrorKind::Network, "timed out"), Ok(())];
    let report = summarize(&outcomes);
    assert_eq!(report.succeeded, 3);
    match report.into_result() {
        Err(BatchError::Job { index, error }) => {
            assert_eq!(index, 2);
            assert_eq!(error.kind, JobErrorKind::Network);
            assert_eq!(error.message, "timed out");
        }
        _ => panic!("batch should fail"),
    }
}

#[test]
fn first_failure_in_job_order_is_reported() {
    let outcomes = vec![
        Ok(()),
        failed(JobErrorKind::Filesystem, "disk full"),
        Ok(()),
        failed(JobErrorKind::Network, "404"),
    ];
    let report = summarize(&outcomes);
    assert_eq!(report.succeeded, 2);
    match report.into_result() {
        Err(BatchError::Job { index, error }) => {
            assert_eq!(index, 1);
            assert_eq!(error.kind, JobErrorKind::Filesystem);
            assert_eq!(error.message, "disk full");
        }
        _ => panic!("batch should fail"),
    }
}

#[test]
fn progress_counts_every_completion() {
    let k: u64 = 7;
    let mut counter = ProgressCounter::new(k);
    assert_eq!(counter.position, 0);
    let mut seen = Vec::new();
    while !counter.is_finished() {
        seen.push(counter.complete());
    }
    assert_eq!(counter.position, k);
    assert_eq!(seen, vec![1, 2, 3, 4, 5, 6, 7]);
}

#[test]
fn empty_progress_is_finished_at_once() {
    assert!(ProgressCounter::new(0).is_finished());
}

#[test]
fn reveal_program_per_platform() {
    assert_eq!(reveal_command("windows").ok(), Some("explorer".to_string()));
    assert_eq!(reveal_command("macos").ok(), Some("open".to_string()));
    assert_eq!(reveal_command("linux").ok(), Some("xdg-open".to_string()));
    match reveal_command("plan9") {
        Err(RevealError::UnsupportedPlatform { os }) => assert_eq!(os, "plan9"),
        _ => panic!("unknown platform"),
    }
    assert!(reveal_command("Linux").is_err());
}

#[test]
fn only_y_confirms() {
    assert!(confirms("y"));
    assert!(confirms("Y"));
    for answer in ["", "n", "yes", "N", " y"] {
        assert!(!confirms(answer), "{:?}", answer);
    }
}

#[test]
fn zero_images_succeed_without_jobs() {
    let r = image_fetch::Resolution::new(1920, 1080, "Full HD");
    let jobs = image_fetch::plan_batch(&r, "cats", 0, Ok(())).ok().expect("folder exists");
    assert!(jobs.is_empty());
    let outcomes: Vec<Result<(), JobError>> = jobs.iter().map(|_| Ok(())).collect();
    assert!(matches!(summarize(&outcomes).into_result(), Ok(0)));
}

#[test]
fn folder_failure_stops_before_any_job() {
    let r = image_fetch::Resolution::new(1920, 1080, "Full HD");
    match image_fetch::plan_batch(&r, "cats", 5, Err("permission denied".to_string())) {
        Err(BatchError::Directory { message }) => assert_eq!(message, "permission denied"),
        _ => panic!("the batch should fail"),
    }
}

#[test]
fn planned_batch_has_one_job_per_image() {
    let r = image_fetch::Resolution::new(1080, 1920, "Full HD Vertical");
    let jobs = image_fetch::plan_batch(&r, "a?b", 3, Ok(())).ok().expect("folder exists");
    assert_eq!(jobs.len(), 3);
    for (i, job) in jobs.iter().enumerate() {
        assert_eq!(job.index, i);
        assert!(job.file_name.starts_with("a-b-") && job.file_name.ends_with(".png"));
        assert_eq!(job.url, "https://source.unsplash.com/random/1080x1920/?a?b");
    }
}
