use vda_serwer::cli::{parse_port, parse_server_args, ServerOptions};
use vda_serwer::premium::{premium_check_answer, premium_check_command, CheckOutcome, VerifyPremiumRequest};
use vda_serwer::setup::{
    downloads_folder, ffmpeg_program, ffmpeg_version_text, get_ffmpeg, queue_file_path,
    set_ffmpeg, set_global_download_dir, ytdlp_candidates, ytdlp_found, ytdlp_install_path,
    ytdlp_missing, ytdlp_program, ytdlp_release_url, ReleaseTarget, ToolConfig,
};

fn s(x: &str) -> Option<String> {
    Some(x.to_string())
}

#[test]
fn ffmpeg_setting() {
    let mut config = ToolConfig::new();
    assert_eq!(get_ffmpeg(&config), "ffmpeg");
    set_ffmpeg(&mut config, "/opt/bin/ffmpeg");
    assert_eq!(get_ffmpeg(&config), "/opt/bin/ffmpeg");
    set_global_download_dir(&mut config, "/media".to_string());
    assert_eq!(config.download_dir, s("/media"));
    assert_eq!(get_ffmpeg(&config), "/opt/bin/ffmpeg");
    assert_eq!(ffmpeg_program(None), "ffmpeg");
    assert_eq!(ffmpeg_program(s("/x/ffmpeg")), "/x/ffmpeg");
}

#[test]
fn downloads_folder_choice() {
    assert_eq!(downloads_folder(&s("/media"), &s("/env"), &s("/home/u")), "/media");
    assert_eq!(downloads_folder(&s(""), &s("/env"), &s("/home/u")), "/env");
    assert_eq!(downloads_folder(&None, &s(""), &s("/home/u")), "/home/u/Downloads");
    assert_eq!(downloads_folder(&None, &None, &None), "Downloads");
}

#[test]
fn tool_locations() {
    assert_eq!(queue_file_path(false), "download_queue.json");
    assert_eq!(queue_file_path(true), "/var/packages/vda_serwer/var/download_queue.json");
    assert_eq!(ytdlp_program(true, true, false), "yt-dlp");
    assert_eq!(ytdlp_program(true, false, false), "./bin/yt-dlp");
    assert_eq!(ytdlp_program(true, false, true), "/var/packages/vda_serwer/var/bin/yt-dlp");
    assert_eq!(ytdlp_program(false, false, true), "yt-dlp");
    assert_eq!(ytdlp_candidates(false).len(), 3);
    assert_eq!(ytdlp_candidates(true)[4], ".\\bin\\yt-dlp.exe");
    assert_eq!(
        ytdlp_release_url(ReleaseTarget::LinuxGnu),
        "https://github.com/yt-dlp/yt-dlp/releases/latest/download/yt-dlp_linux"
    );
    assert_eq!(
        ytdlp_release_url(ReleaseTarget::Nas),
        "https://github.com/yt-dlp/yt-dlp/releases/latest/download/yt-dlp"
    );
    assert_eq!(ytdlp_install_path(ReleaseTarget::Nas), "/var/packages/vda_serwer/var/bin/yt-dlp");
    assert_eq!(ytdlp_install_path(ReleaseTarget::LinuxMusl), "./bin/yt-dlp");
    assert_eq!(ytdlp_install_path(ReleaseTarget::WindowsArm64), "./bin/yt-dlp.exe");
}

#[test]
fn ytdlp_status_records() {
    let found = ytdlp_found(" 2024.08.06\n", "./bin/yt-dlp");
    assert!(found.installed);
    assert_eq!(found.version, s("2024.08.06"));
    assert_eq!(found.message, "yt-dlp wersja 2024.08.06 jest zainstalowany (./bin/yt-dlp)");
    let missing = ytdlp_missing();
    assert!(!missing.installed);
    assert_eq!(missing.error, s("not_found"));
}

#[test]
fn ffmpeg_version_line() {
    assert_eq!(ffmpeg_version_text(Some("ffmpeg version 6.1\r\nbuilt with gcc\n")), "ffmpeg version 6.1");
    assert_eq!(ffmpeg_version_text(Some("only line")), "only line");
    assert_eq!(ffmpeg_version_text(Some("")), "Brak wersji");
    assert_eq!(ffmpeg_version_text(Some("\nsecond")), "");
    assert_eq!(ffmpeg_version_text(None), "Nie udało się uruchomić ffmpeg");
}

#[test]
fn port_numbers() {
    assert_eq!(parse_port("8080"), Some(8080));
    assert_eq!(parse_port("+443"), Some(443));
    assert_eq!(parse_port("0065535"), Some(65535));
    assert_eq!(parse_port("65536"), None);
    assert_eq!(parse_port("99999999999"), None);
    assert_eq!(parse_port(""), None);
    assert_eq!(parse_port("+"), None);
    assert_eq!(parse_port("-1"), None);
    assert_eq!(parse_port("80a"), None);
    for text in ["0", "1", "+7", "65535", "65536", "12x", " 80"].iter() {
        assert_eq!(parse_port(text), text.parse::<u16>().ok(), "{}", text);
    }
}

#[test]
fn server_arguments() {
    let args = |v: &[&str]| v.iter().map(|a| a.to_string()).collect::<Vec<String>>();
    assert_eq!(parse_server_args(&args(&["srv"])), ServerOptions { port: 8080, verbose: false });
    assert_eq!(
        parse_server_args(&args(&["srv", "--port", "9000", "-v"])),
        ServerOptions { port: 9000, verbose: true }
    );
    assert_eq!(
        parse_server_args(&args(&["srv", "--port", "bad", "--verbose"])),
        ServerOptions { port: 8080, verbose: true }
    );
    assert_eq!(
        parse_server_args(&args(&["srv", "--port", "-v"])),
        ServerOptions { port: 8080, verbose: false }
    );
    assert_eq!(
        parse_server_args(&args(&["srv", "-v", "--port"])),
        ServerOptions { port: 8080, verbose: true }
    );
}

#[test]
fn premium_credentials() {
    let missing = VerifyPremiumRequest { username: s("jan"), password: s("") };
    let (status, resp) = premium_check_command(&missing).unwrap_err();
    assert_eq!(status, 400);
    assert_eq!(resp.error, s("Brak danych logowania"));
    let none = VerifyPremiumRequest { username: None, password: s("x") };
    assert_eq!(premium_check_command(&none).unwrap_err().0, 400);
    let ok = VerifyPremiumRequest { username: s("jan"), password: s("SECRET-REDACTED") };
    let args = premium_check_command(&ok).unwrap();
    assert_eq!(args[0], "yt-dlp");
    assert_eq!(&args[1..5], &["--username", "jan", "--password", "SECRET-REDACTED"]);
    assert_eq!(args.last().unwrap(), "https://www.cda.pl");
    let (status, resp) = premium_check_answer(&CheckOutcome::Accepted);
    assert_eq!(status, 200);
    assert!(resp.success);
    let (status, resp) = premium_check_answer(&CheckOutcome::Refused);
    assert_eq!(status, 200);
    assert_eq!(resp.error, s("Nieprawidłowe dane logowania"));
    let (status, resp) = premium_check_answer(&CheckOutcome::NotStarted { reason: "x".to_string() });
    assert_eq!(status, 500);
    assert_eq!(resp.error, s("Błąd uruchomienia yt-dlp: x"));
}
