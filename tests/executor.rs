use vda_serwer::executor::{
    conversion_arguments, conversion_target, download_arguments, latest_mp4, quality_argument,
    requested_conversion, ConversionTarget, FileEntry,
};
use vda_serwer::filename::clean_filename;
use vda_serwer::job::{Degradation, JobRun, RunAction, RunEvent};
use vda_serwer::models::DownloadParams;
use vda_serwer::paths::{has_extension, join_path, replace_extension, resolve_against, subfolder_is_safe};

fn params(format: &str) -> DownloadParams {
    DownloadParams {
        url: "http://example/video".to_string(),
        quality: "best".to_string(),
        format_selector: format.to_string(),
        output_path: "/srv/d".to_string(),
        custom_title: None,
        username: None,
        password: None,
    }
}

#[test]
fn sanitizing_is_idempotent() {
    for title in ["Żółć: a/b?", "  __Hello.World__  ", "", "...", "Zażółć gęślą jaźń", "plain"].iter() {
        let once = clean_filename(title);
        assert_eq!(clean_filename(&once), once, "{}", title);
    }
}

#[test]
fn sanitizing_nothing_gives_the_placeholder() {
    assert_eq!(clean_filename(""), "Unknown_Video");
    assert_eq!(clean_filename(" ._ "), "Unknown_Video");
    assert_eq!(clean_filename("???"), "Unknown_Video");
}

#[test]
fn sanitizing_replaces_transliterates_and_trims() {
    assert_eq!(clean_filename("a<b>c:d\"e/f\\g|h?i*j"), "a_b_c_d_e_f_g_h_i_j");
    assert_eq!(clean_filename("Zażółć gęślą jaźń"), "Zazolc gesla jazn");
    assert_eq!(clean_filename("Café été"), "Cafe ete");
    assert_eq!(clean_filename("_ .Title. _"), "Title");
    let long: String = std::iter::repeat('x').take(150).collect();
    assert_eq!(clean_filename(&long).chars().count(), 100);
    let accented: String = std::iter::repeat('é').take(120).collect();
    assert_eq!(clean_filename(&accented), "e".repeat(100));
}

#[test]
fn subfolder_checks() {
    assert!(!subfolder_is_safe("../escape"));
    assert!(!subfolder_is_safe("/absolute/path"));
    assert!(subfolder_is_safe("movies/2024"));
    assert!(!subfolder_is_safe("a/../b"));
    assert!(!subfolder_is_safe(".."));
    assert!(subfolder_is_safe("a..b/..c"));
    assert!(subfolder_is_safe(""));
}

#[test]
fn quality_aliases() {
    assert_eq!(quality_argument("best"), "bestvideo+bestaudio/best");
    assert_eq!(quality_argument("bestaudio"), "bestvideo+bestaudio/best");
    assert_eq!(quality_argument("worst"), "worstvideo+bestaudio/worst");
    assert_eq!(
        quality_argument("best[height<=720]"),
        "bestvideo[height<=720]+bestaudio/best[height<=720]"
    );
    assert_eq!(
        quality_argument("best[height<=480]"),
        "bestvideo[height<=480]+bestaudio/best[height<=480]"
    );
    assert_eq!(quality_argument("137+140"), "137+140");
}

#[test]
fn conversion_is_decided_by_the_lower_cased_format() {
    assert_eq!(requested_conversion("MP3"), Some(ConversionTarget::Mp3));
    assert_eq!(requested_conversion("MkV"), Some(ConversionTarget::Mkv));
    assert_eq!(requested_conversion("webm"), Some(ConversionTarget::Webm));
    assert_eq!(requested_conversion("mp4"), None);
    assert_eq!(conversion_target("MP3"), None);
    assert_eq!(conversion_target("mp3"), Some(ConversionTarget::Mp3));
}

#[test]
fn download_command_line() {
    let args = download_arguments("yt-dlp", &params("mp4"));
    assert_eq!(args.len(), 32);
    assert_eq!(args[0], "yt-dlp");
    assert_eq!(&args[1..4], &["--newline", "-f", "bestvideo+bestaudio/best"]);
    assert_eq!(args[4], "--merge-output-format");
    let retries = args.iter().position(|a| a == "--retries").unwrap();
    assert_eq!(args[retries + 1], "10");
    let out = args.iter().position(|a| a == "-o").unwrap();
    assert_eq!(args[out + 1], "/srv/d/%(title)s.%(ext)s");
    assert_eq!(args.last().unwrap(), "http://example/video");
    assert!(!args.iter().any(|a| a == "--username"));
}

#[test]
fn download_command_with_title_and_credentials() {
    let mut p = params("mp4");
    p.custom_title = Some("Mój film?".to_string());
    p.username = Some("jan".to_string());
    p.password = Some("SECRET-REDACTED".to_string());
    let args = download_arguments("./bin/yt-dlp", &p);
    let out = args.iter().position(|a| a == "-o").unwrap();
    assert_eq!(args[out + 1], "/srv/d/Moj film.%(ext)s");
    let n = args.len();
    assert_eq!(
        &args[n - 5..],
        &["--username", "jan", "--password", "SECRET-REDACTED", "http://example/video"]
    );
    let mut only_user = params("mp4");
    only_user.username = Some("jan".to_string());
    assert_eq!(download_arguments("yt-dlp", &only_user).len(), 32);
}

#[test]
fn transcoder_command_lines() {
    let mp3 = conversion_arguments("ffmpeg", "/d/My.Video.mp4", ConversionTarget::Mp3);
    assert_eq!(
        mp3,
        vec!["ffmpeg", "-i", "/d/My.Video.mp4", "-vn", "-acodec", "libmp3lame", "-q:a", "2", "-y", "/d/My.Video.mp3"]
    );
    let mkv = conversion_arguments("/opt/ffmpeg", "clip.mp4", ConversionTarget::Mkv);
    assert_eq!(
        mkv,
        vec!["/opt/ffmpeg", "-i", "clip.mp4", "-c", "copy", "-movflags", "+faststart", "-y", "clip.mkv"]
    );
}

#[test]
fn path_helpers() {
    assert_eq!(join_path("/a", "b"), "/a/b");
    assert_eq!(join_path("/a/", "b"), "/a/b");
    assert_eq!(join_path("", "b"), "b");
    assert_eq!(join_path("/a", "/b"), "/b");
    assert_eq!(replace_extension("/x.y/file", "mp3"), "/x.y/file.mp3");
    assert_eq!(replace_extension("/d/.hidden", "mkv"), "/d/.hidden.mkv");
    assert_eq!(resolve_against("/d", "a.mp4"), "/d/a.mp4");
    assert_eq!(resolve_against("/d", "/e/a.mp4"), "/e/a.mp4");
    assert!(has_extension("a.MP4", "mp4"));
    assert!(!has_extension(".mp4", "mp4"));
    assert!(!has_extension("a.mp4x", "mp4"));
    assert!(!has_extension("mp4", "mp4"));
}

#[test]
fn newest_mp4_is_chosen_last_one_on_ties() {
    let entries = vec![
        FileEntry { name: "a.mp4".to_string(), modified: 10 },
        FileEntry { name: "b.MP4".to_string(), modified: 30 },
        FileEntry { name: "c.mkv".to_string(), modified: 99 },
        FileEntry { name: "d.mp4".to_string(), modified: 30 },
        FileEntry { name: "e.mp4".to_string(), modified: 20 },
    ];
    assert_eq!(latest_mp4("/d", &entries), Some("/d/d.mp4".to_string()));
    let none = vec![FileEntry { name: "c.mkv".to_string(), modified: 1 }];
    assert_eq!(latest_mp4("/d", &none), None);
    assert_eq!(latest_mp4("/d", &Vec::new()), None);
}

fn drive(run: JobRun, events: Vec<RunEvent>) -> Vec<RunAction> {
    let mut run = run;
    let mut actions = Vec::new();
    for ev in events {
        let (next, action) = run.step(ev);
        run = next;
        actions.push(action.expect("the event was expected"));
    }
    actions
}

#[test]
fn conversion_run_converts_and_removes_the_source() {
    let run = JobRun::new(params("MKV"), "yt-dlp", "/usr/bin/ffmpeg");
    let actions = drive(
        run,
        vec![
            RunEvent::Begin,
            RunEvent::DownloadExited { downloaded_file: Some("clip.mp4".to_string()) },
            RunEvent::FileChecked { exists: true },
            RunEvent::TranscoderChecked { available: true },
            RunEvent::ConversionExited { success: true },
            RunEvent::SourceRemoved { removed: true },
        ],
    );
    assert!(matches!(&actions[1], RunAction::CheckFile { path } if path == "/srv/d/clip.mp4"));
    assert!(matches!(&actions[2], RunAction::CheckTranscoder { program } if program == "/usr/bin/ffmpeg"));
    match &actions[3] {
        RunAction::StartConversion { args } => {
            assert_eq!(args[2], "/srv/d/clip.mp4");
            assert_eq!(args.last().unwrap(), "/srv/d/clip.mkv");
        }
        other => panic!("unexpected {:?}", other),
    }
    assert!(matches!(&actions[4], RunAction::RemoveFile { path } if path == "/srv/d/clip.mp4"));
    assert!(matches!(&actions[5], RunAction::Finish { result, degradation: None } if result.success));
}

#[test]
fn missing_file_falls_back_to_the_newest_mp4() {
    let run = JobRun::new(params("webm"), "yt-dlp", "ffmpeg");
    let actions = drive(
        run,
        vec![
            RunEvent::Begin,
            RunEvent::DownloadExited { downloaded_file: Some("/x/gone.mp4".to_string()) },
            RunEvent::FileChecked { exists: false },
            RunEvent::LatestFound { path: Some("/srv/d/new.mp4".to_string()) },
            RunEvent::TranscoderChecked { available: false },
        ],
    );
    assert!(matches!(&actions[2], RunAction::FindLatest { dir } if dir == "/srv/d"));
    match &actions[4] {
        RunAction::Finish { result, degradation } => {
            assert!(result.success);
            assert_eq!(*degradation, Some(Degradation::TranscoderMissing));
        }
        other => panic!("unexpected {:?}", other),
    }
}

#[test]
fn failed_conversion_and_kept_source_are_degradations() {
    let base = vec![
        RunEvent::Begin,
        RunEvent::DownloadExited { downloaded_file: Some("a.mp4".to_string()) },
        RunEvent::FileChecked { exists: true },
        RunEvent::TranscoderChecked { available: true },
    ];
    let mut failed = base;
    failed.push(RunEvent::ConversionExited { success: false });
    let actions = drive(JobRun::new(params("mp3"), "yt-dlp", "ffmpeg"), failed);
    assert!(matches!(
        &actions[4],
        RunAction::Finish { result, degradation: Some(Degradation::ConversionFailed) } if result.success
    ));
    let kept = vec![
        RunEvent::Begin,
        RunEvent::DownloadExited { downloaded_file: Some("a.mp4".to_string()) },
        RunEvent::FileChecked { exists: true },
        RunEvent::TranscoderChecked { available: true },
        RunEvent::ConversionExited { success: true },
        RunEvent::SourceRemoved { removed: false },
    ];
    let actions = drive(JobRun::new(params("mp3"), "yt-dlp", "ffmpeg"), kept);
    assert!(matches!(
        &actions[5],
        RunAction::Finish { degradation: Some(Degradation::SourceKept), .. }
    ));
}

#[test]
fn spawn_failure_is_a_server_error() {
    let actions = drive(
        JobRun::new(params("mp4"), "yt-dlp", "ffmpeg"),
        vec![RunEvent::Begin, RunEvent::SpawnFailed { reason: "not found".to_string() }],
    );
    match &actions[1] {
        RunAction::Finish { result, degradation } => {
            assert!(!result.success);
            assert_eq!(result.http_status, 500);
            assert_eq!(result.error, Some("Nie udało się uruchomić yt-dlp: not found".to_string()));
            assert_eq!(result.output_path, None);
            assert_eq!(*degradation, None);
        }
        other => panic!("unexpected {:?}", other),
    }
}

#[test]
fn unexpected_events_change_nothing() {
    let run = JobRun::new(params("mp4"), "yt-dlp", "ffmpeg");
    let (run, action) = run.step(RunEvent::FileChecked { exists: true });
    assert!(action.is_none());
    let (run, action) = run.step(RunEvent::Begin);
    assert!(action.is_some());
    let (run, action) = run.step(RunEvent::Begin);
    assert!(action.is_none());
    let (run, _) = run.step(RunEvent::DownloadExited { downloaded_file: None });
    assert!(run.is_done());
    let (_, action) = run.step(RunEvent::Begin);
    assert!(action.is_none());
}

#[test]
fn run_with_a_decided_target() {
    let run = JobRun::with_target(params("whatever"), "yt-dlp", "ffmpeg", Some(ConversionTarget::Mp3));
    let actions = drive(run, vec![RunEvent::Begin, RunEvent::DownloadExited { downloaded_file: None }]);
    assert!(matches!(&actions[1], RunAction::FindLatest { .. }));
}
