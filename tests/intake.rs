use vda_serwer::job::{Degradation, JobRun, RunAction, RunEvent};
use vda_serwer::models::{DownloadQueueItem, DownloadRequest, JobResult};
use vda_serwer::queue::{
    accepted_response, rejection_response, result_response, validate_request, IntakeError,
    QueueStore,
};

fn request(url: &str) -> DownloadRequest {
    DownloadRequest {
        url: url.to_string(),
        quality: None,
        format: None,
        subfolder: None,
        title: None,
        username: None,
        password: None,
    }
}

fn item(id: u64, url: &str) -> DownloadQueueItem {
    DownloadQueueItem {
        url: url.to_string(),
        quality: "best".to_string(),
        format_selector: "mp4".to_string(),
        subfolder: String::new(),
        title: None,
        username: None,
        password: None,
        id,
    }
}

fn finish(run: JobRun, events: Vec<RunEvent>) -> (JobResult, Option<Degradation>) {
    let mut run = run;
    let mut last = None;
    for ev in events {
        let (next, action) = run.step(ev);
        run = next;
        last = action;
    }
    match last {
        Some(RunAction::Finish { result, degradation }) => (result, degradation),
        other => panic!("the run did not finish: {:?}", other),
    }
}

#[test]
fn submit_best_mp4_is_accepted_as_one_and_completes() {
    let mut store = QueueStore::new();
    let mut req = request("http://example/video");
    req.quality = Some("best".to_string());
    req.format = Some("mp4".to_string());
    let admission = store.submit(&req, "/srv/downloads").unwrap();
    assert_eq!(admission.id, 1);
    let pending = store.pending();
    assert_eq!(pending.len(), 1);
    assert_eq!(pending[0].id, 1);
    assert_eq!(admission.snapshot, pending);

    let run = JobRun::new(admission.params.clone(), "yt-dlp", "ffmpeg");
    let (result, degradation) = finish(
        run,
        vec![RunEvent::Begin, RunEvent::DownloadExited { downloaded_file: None }],
    );
    assert!(result.success);
    assert_eq!(result.http_status, 200);
    assert_eq!(result.output_path, Some("/srv/downloads".to_string()));
    assert_eq!(degradation, None);

    let snapshot = store.remove(admission.id);
    assert!(snapshot.is_empty());
    assert_eq!(store.len(), 0);
}

#[test]
fn empty_url_is_rejected_without_touching_the_store() {
    let mut store = QueueStore::new();
    let err = store.submit(&request(""), "/srv/downloads").unwrap_err();
    assert_eq!(err, IntakeError::MissingUrl);
    assert_eq!(store.len(), 0);
    assert_eq!(store.last_id(), 0);
    let err = store.submit(&request("   "), "/srv/downloads").unwrap_err();
    assert_eq!(err, IntakeError::MissingUrl);
    assert_eq!(store.last_id(), 0);
    let next = store.submit(&request("http://a"), "/srv/downloads").unwrap();
    assert_eq!(next.id, 1);
}

#[test]
fn two_jobs_get_increasing_ids_and_run_in_submission_order() {
    let mut store = QueueStore::new();
    let a = store.submit(&request("http://example/a"), "/d").unwrap();
    let b = store.submit(&request("http://example/b"), "/d").unwrap();
    assert!(a.id < b.id);
    assert_eq!((a.id, b.id), (1, 2));

    // A stub executor that records the order in which it runs the jobs.
    let mut ran: Vec<String> = Vec::new();
    for job in store.pending() {
        let params = vda_serwer::queue::validate_request(
            &DownloadRequest { url: job.url.clone(), ..request("") },
            "/d",
        )
        .unwrap()
        .params;
        let run = JobRun::new(params, "yt-dlp", "ffmpeg");
        let (next, action) = run.step(RunEvent::Begin);
        match action {
            Some(RunAction::StartDownload { args }) => ran.push(args.last().unwrap().clone()),
            other => panic!("unexpected action {:?}", other),
        }
        let (_, action) = next.step(RunEvent::DownloadExited { downloaded_file: None });
        assert!(matches!(action, Some(RunAction::Finish { .. })));
        store.remove(job.id);
    }
    assert_eq!(ran, vec!["http://example/a".to_string(), "http://example/b".to_string()]);
    assert_eq!(store.len(), 0);
}

#[test]
fn mp3_without_a_source_file_still_succeeds_with_a_degradation() {
    let mut store = QueueStore::new();
    let mut req = request("http://example/song");
    req.format = Some("mp3".to_string());
    let admission = store.submit(&req, "/music").unwrap();
    let run = JobRun::new(admission.params.clone(), "yt-dlp", "ffmpeg");
    let (run, action) = run.step(RunEvent::Begin);
    assert!(matches!(action, Some(RunAction::StartDownload { .. })));
    let (run, action) = run.step(RunEvent::DownloadExited { downloaded_file: None });
    match action {
        Some(RunAction::FindLatest { dir }) => assert_eq!(dir, "/music"),
        other => panic!("unexpected action {:?}", other),
    }
    let (run, action) = run.step(RunEvent::LatestFound { path: None });
    match action {
        Some(RunAction::Finish { result, degradation }) => {
            assert!(result.success);
            assert_eq!(result.output_path, Some("/music".to_string()));
            assert_eq!(degradation, Some(Degradation::NoSourceFile));
        }
        other => panic!("unexpected action {:?}", other),
    }
    assert!(run.is_done());
}

#[test]
fn snapshot_after_intake_holds_exactly_the_unfinished_jobs() {
    let mut store = QueueStore::new();
    let a = store.submit(&request("http://a"), "/d").unwrap();
    assert_eq!(a.snapshot.iter().map(|i| i.id).collect::<Vec<_>>(), vec![1]);
    let b = store.submit(&request("http://b"), "/d").unwrap();
    assert_eq!(b.snapshot.iter().map(|i| i.id).collect::<Vec<_>>(), vec![1, 2]);
    let after = store.remove(a.id);
    assert_eq!(after.iter().map(|i| i.id).collect::<Vec<_>>(), vec![2]);
    let c = store.submit(&request("http://c"), "/d").unwrap();
    assert_eq!(c.snapshot.iter().map(|i| i.id).collect::<Vec<_>>(), vec![2, 3]);
    assert_eq!(c.snapshot[1].url, "http://c");
    assert!(store.pending().iter().all(|i| i.id != a.id));
}

#[test]
fn identities_keep_increasing_across_removals() {
    let mut store = QueueStore::new();
    let a = store.submit(&request("http://a"), "/d").unwrap();
    store.remove(a.id);
    let b = store.submit(&request("http://b"), "/d").unwrap();
    assert_eq!(b.id, 2);
    store.remove(b.id);
    assert_eq!(store.len(), 0);
    let c = store.submit(&request("http://c"), "/d").unwrap();
    assert_eq!(c.id, 3);
}

#[test]
fn loaded_queue_continues_after_the_largest_identity() {
    let mut store = QueueStore::from_loaded(vec![item(7, "http://x"), item(3, "http://y")]);
    assert_eq!(store.last_id(), 7);
    assert_eq!(store.len(), 2);
    let a = store.submit(&request("http://z"), "/d").unwrap();
    assert_eq!(a.id, 8);
    assert_eq!(a.snapshot.iter().map(|i| i.id).collect::<Vec<_>>(), vec![7, 3, 8]);
    let empty = QueueStore::from_loaded(Vec::new());
    assert_eq!(empty.last_id(), 0);
}

#[test]
fn identities_run_out_at_the_largest_value() {
    let mut store = QueueStore::from_loaded(vec![item(u64::MAX, "http://x")]);
    let err = store.submit(&request("http://y"), "/d").unwrap_err();
    assert_eq!(err, IntakeError::IdentitiesExhausted);
    assert_eq!(store.len(), 1);
}

#[test]
fn failed_handover_takes_the_job_out_again() {
    let mut store = QueueStore::new();
    let a = store.submit(&request("http://a"), "/d").unwrap();
    assert_eq!(store.settle_handover(a.id, true), None);
    assert_eq!(store.len(), 1);
    let b = store.submit(&request("http://b"), "/d").unwrap();
    let snapshot = store.settle_handover(b.id, false).unwrap();
    assert_eq!(snapshot.iter().map(|i| i.id).collect::<Vec<_>>(), vec![1]);
    assert_eq!(store.len(), 1);
}

#[test]
fn validation_fills_defaults_and_builds_the_directory() {
    let mut req = request("http://example/v");
    req.subfolder = Some("movies/2024".to_string());
    req.title = Some("Film".to_string());
    let job = validate_request(&req, "/home/u/Downloads").unwrap();
    assert_eq!(job.params.quality, "best");
    assert_eq!(job.params.format_selector, "mp4");
    assert_eq!(job.params.output_path, "/home/u/Downloads/movies/2024");
    assert_eq!(job.subfolder, "movies/2024");
    assert_eq!(job.params.custom_title, Some("Film".to_string()));
    let plain = validate_request(&request("http://example/v"), "/root/").unwrap();
    assert_eq!(plain.params.output_path, "/root/");
    assert_eq!(plain.subfolder, "");
}

#[test]
fn unsafe_subfolders_are_rejected() {
    let mut req = request("http://example/v");
    req.subfolder = Some("../escape".to_string());
    assert_eq!(validate_request(&req, "/d").unwrap_err(), IntakeError::UnsafeSubfolder);
    req.subfolder = Some("/etc".to_string());
    assert_eq!(validate_request(&req, "/d").unwrap_err(), IntakeError::UnsafeSubfolder);
    let mut store = QueueStore::new();
    assert_eq!(store.submit(&req, "/d").unwrap_err(), IntakeError::UnsafeSubfolder);
    assert_eq!(store.last_id(), 0);
}

#[test]
fn responses_carry_the_intake_outcome() {
    let r = rejection_response(&IntakeError::MissingUrl);
    assert!(!r.success);
    assert_eq!(r.error, Some("URL jest wymagany".to_string()));
    assert_eq!(IntakeError::MissingUrl.status(), 400);
    assert_eq!(IntakeError::UnsafeSubfolder.status(), 400);
    assert_eq!(IntakeError::HandoverFailed.status(), 500);
    assert_eq!(
        IntakeError::HandoverFailed.message(),
        "Nie udało się dodać zadania do kolejki"
    );
    assert_eq!(
        IntakeError::FolderUnavailable { reason: "denied".to_string() }.message(),
        "Nie udało się utworzyć folderu: denied"
    );
    assert_eq!(IntakeError::UnsafeSubfolder.message(), "Nieprawidłowa nazwa podfolderu");
    let ok = accepted_response(4);
    assert!(ok.success);
    assert_eq!(ok.id, Some(4));
    assert_eq!(ok.message, Some("Dodano do kolejki".to_string()));
}

#[test]
fn waiting_callers_get_the_job_result() {
    let failed = JobResult {
        success: false,
        http_status: 500,
        message: None,
        error: Some("boom".to_string()),
        output_path: None,
    };
    let (status, resp) = result_response(failed.clone(), 3);
    assert_eq!(status, 500);
    assert!(!resp.success);
    assert_eq!(resp.error, Some("boom".to_string()));
    let odd = JobResult { http_status: 42, ..failed };
    assert_eq!(result_response(odd, 3).0, 500);
    let done = JobResult {
        success: true,
        http_status: 200,
        message: Some("ok".to_string()),
        error: None,
        output_path: Some("/d".to_string()),
    };
    let (status, resp) = result_response(done, 9);
    assert_eq!(status, 200);
    assert_eq!(resp.output_path, Some("/d".to_string()));
    assert_eq!(resp.id, Some(9));
}
