//! Where the tools and files are, and what the tool checks report.
use vstd::prelude::*;
use crate::models::YtDlpStatus;
use crate::paths::{join_path, joined};
use crate::text::{chars_of, concat, find_chars, find_from, lemma_find_from, occurs_at, push_text, string_from, string_of, texts, trim, trimmed};

verus! {

/// The settings the server changes while it runs: the transcoder to call
/// and a download root chosen at run time.
#[derive(Clone, Debug, PartialEq, Eq)]
pub struct ToolConfig {
    pub ffmpeg: String,
    pub download_dir: Option<String>,
}

impl ToolConfig {
    /// The transcoder found through `PATH`, and no download root chosen.
    pub fn new() -> (r: ToolConfig)
        ensures
            r.ffmpeg@ == "ffmpeg"@,
            r.download_dir is None,
    {
        ToolConfig { ffmpeg: string_from("ffmpeg"), download_dir: None }
    }
}

/// The transcoder to call.
pub fn get_ffmpeg(config: &ToolConfig) -> (r: String)
    ensures
        r@ == config.ffmpeg@,
{
    config.ffmpeg.clone()
}

/// Chooses the transcoder to call.
pub fn set_ffmpeg(config: &mut ToolConfig, path: &str)
    ensures
        final(config).ffmpeg@ == path@,
        final(config).download_dir == old(config).download_dir,
{
    config.ffmpeg = string_from(path);
}

/// Chooses the download root.
pub fn set_global_download_dir(config: &mut ToolConfig, dir: String)
    ensures
        final(config).download_dir == Some(dir),
        final(config).ffmpeg == old(config).ffmpeg,
{
    config.download_dir = Some(dir);
}

/// The transcoder named by the environment, or the one on `PATH`.
pub fn ffmpeg_program(from_env: Option<String>) -> (r: String)
    ensures
        r@ == (match from_env {
            Some(p) => p@,
            None => "ffmpeg"@,
        }),
{
    match from_env {
        Some(p) => p,
        None => string_from("ffmpeg"),
    }
}

/// The text is given and not empty.
pub open spec fn is_set(o: Option<String>) -> bool {
    o matches Some(s) && s@.len() > 0
}

fn set_text(o: &Option<String>) -> (r: bool)
    ensures
        r == is_set(*o),
{
    match o {
        Some(s) => chars_of(s.as_str()).len() > 0,
        None => false,
    }
}

/// The download root: the one chosen at run time, else the one the
/// environment names, else `Downloads` in the home directory, else
/// `Downloads` in the working directory. Empty texts count as absent.
pub open spec fn downloads_root(
    configured: Option<String>,
    from_env: Option<String>,
    home: Option<String>,
) -> Seq<char> {
    if is_set(configured) {
        configured->0@
    } else if is_set(from_env) {
        from_env->0@
    } else {
        match home {
            Some(h) => joined(h@, "Downloads"@),
            None => "Downloads"@,
        }
    }
}

pub fn downloads_folder(
    configured: &Option<String>,
    from_env: &Option<String>,
    home: &Option<String>,
) -> (r: String)
    ensures
        r@ == downloads_root(*configured, *from_env, *home),
{
    if set_text(configured) {
        configured.as_ref().unwrap().clone()
    } else if set_text(from_env) {
        from_env.as_ref().unwrap().clone()
    } else {
        match home {
            Some(h) => join_path(h.as_str(), "Downloads"),
            None => string_from("Downloads"),
        }
    }
}

/// The directory of the NAS package, where its own files live.
pub open spec fn package_dir() -> Seq<char> {
    "/var/packages/vda_serwer/var"@
}

/// The queue file: in the package directory on a NAS, in the working
/// directory elsewhere.
pub fn queue_file_path(on_nas: bool) -> (r: String)
    ensures
        r@ == (if on_nas {
            "/var/packages/vda_serwer/var/download_queue.json"@
        } else {
            "download_queue.json"@
        }),
{
    if on_nas {
        string_from("/var/packages/vda_serwer/var/download_queue.json")
    } else {
        string_from("download_queue.json")
    }
}

/// The download tool to run: the one on `PATH` unless, on Linux, it is not
/// there; then the copy that setup installs.
pub fn ytdlp_program(linux: bool, on_path: bool, on_nas: bool) -> (r: String)
    ensures
        r@ == (if linux && !on_path {
            if on_nas {
                "/var/packages/vda_serwer/var/bin/yt-dlp"@
            } else {
                "./bin/yt-dlp"@
            }
        } else {
            "yt-dlp"@
        }),
{
    if linux && !on_path {
        if on_nas {
            string_from("/var/packages/vda_serwer/var/bin/yt-dlp")
        } else {
            string_from("./bin/yt-dlp")
        }
    } else {
        string_from("yt-dlp")
    }
}

/// Where the download tool may be, in the order they are tried.
pub fn ytdlp_candidates(windows: bool) -> (r: Vec<String>)
    ensures
        texts(r@) == seq!["yt-dlp"@, "./bin/yt-dlp"@, "/var/packages/vda_serwer/var/bin/yt-dlp"@]
            + if windows {
            seq!["yt-dlp.exe"@, ".\\bin\\yt-dlp.exe"@]
        } else {
            Seq::empty()
        },
{
    let mut r: Vec<String> = Vec::new();
    push_text(&mut r, "yt-dlp");
    push_text(&mut r, "./bin/yt-dlp");
    push_text(&mut r, "/var/packages/vda_serwer/var/bin/yt-dlp");
    let ghost common = texts(r@);
    if windows {
        push_text(&mut r, "yt-dlp.exe");
        push_text(&mut r, ".\\bin\\yt-dlp.exe");
    }
    assert(texts(r@) =~= common + if windows {
        seq!["yt-dlp.exe"@, ".\\bin\\yt-dlp.exe"@]
    } else {
        Seq::empty()
    });
    r
}

/// The status when the candidate `command` answered with `output`: the
/// version is the answer without surrounding white space.
pub fn ytdlp_found(output: &str, command: &str) -> (r: YtDlpStatus)
    ensures
        r.installed,
        r.version matches Some(v) && v@ == trim(output@),
        r.error is None,
        r.message@ == "yt-dlp wersja "@ + trim(output@) + " jest zainstalowany ("@ + command@ + ")"@,
{
    let version = trimmed(output);
    let m1 = concat("yt-dlp wersja ", version.as_str());
    let m2 = concat(m1.as_str(), " jest zainstalowany (");
    let m3 = concat(m2.as_str(), command);
    let message = concat(m3.as_str(), ")");
    YtDlpStatus { installed: true, version: Some(version), error: None, message }
}

/// The status when no candidate answered.
pub fn ytdlp_missing() -> (r: YtDlpStatus)
    ensures
        !r.installed,
        r.version is None,
        r.error matches Some(e) && e@ == "not_found"@,
        r.message@ == "yt-dlp nie jest zainstalowany"@,
{
    YtDlpStatus {
        installed: false,
        version: None,
        error: Some(string_from("not_found")),
        message: string_from("yt-dlp nie jest zainstalowany"),
    }
}

/// The first line of a text as `str::lines` gives it: up to the first line
/// feed, without a carriage return before it; none for an empty text.
pub open spec fn first_line(s: Seq<char>) -> Option<Seq<char>> {
    if s.len() == 0 {
        None
    } else {
        let line = match find_from(s, seq!['\n'], 0) {
            Some(k) => s.take(k),
            None => s,
        };
        if line.len() > 0 && line.last() == '\r' {
            Some(line.drop_last())
        } else {
            Some(line)
        }
    }
}

/// What the transcoder's version check reports: the first line of its
/// output, a fixed text when it printed nothing, another when it could not
/// be run.
pub fn ffmpeg_version_text(output: Option<&str>) -> (r: String)
    ensures
        r@ == (match output {
            Some(o) => match first_line(o@) {
                Some(l) => l,
                None => "Brak wersji"@,
            },
            None => "Nie udało się uruchomić ffmpeg"@,
        }),
{
    match output {
        Some(o) => {
            let v = chars_of(o);
            if v.len() == 0 {
                return string_from("Brak wersji");
            }
            let nl = chars_of("\n");
            proof {
                reveal_strlit("\n");
                assert(nl@ =~= seq!['\n']);
            }
            let end = match find_chars(&v, &nl, 0) {
                Some(k) => {
                    proof {
                        lemma_find_from(v@, nl@, 0);
                        assert(occurs_at(v@, nl@, k as int));
                    }
                    k
                },
                None => v.len(),
            };
            proof {
                assert(v@.take(v@.len() as int) =~= v@);
                assert(v@.subrange(0, end as int) =~= v@.take(end as int));
            }
            if end > 0 && v[end - 1] == '\r' {
                assert(v@.subrange(0, end - 1) =~= v@.take(end as int).drop_last());
                string_of(&v, 0, end - 1)
            } else {
                string_of(&v, 0, end)
            }
        },
        None => string_from("Nie udało się uruchomić ffmpeg"),
    }
}

/// The build of the download tool that setup fetches for a platform.
#[derive(Clone, Copy, Debug, PartialEq, Eq)]
pub enum ReleaseTarget {
    /// A NAS, which runs the Python build.
    Nas,
    LinuxMusl,
    LinuxGnu,
    /// Any other Linux: the Python build.
    LinuxOther,
    WindowsX64,
    WindowsX86,
    WindowsArm64,
}

pub open spec fn release_base() -> Seq<char> {
    "https://github.com/yt-dlp/yt-dlp/releases/latest/download/"@
}

/// The file of the release for a platform.
pub open spec fn release_file(t: ReleaseTarget) -> Seq<char> {
    match t {
        ReleaseTarget::Nas | ReleaseTarget::LinuxOther => "yt-dlp"@,
        ReleaseTarget::LinuxMusl => "yt-dlp_musllinux"@,
        ReleaseTarget::LinuxGnu => "yt-dlp_linux"@,
        ReleaseTarget::WindowsX64 => "yt-dlp.exe"@,
        ReleaseTarget::WindowsX86 => "yt-dlp_x86.exe"@,
        ReleaseTarget::WindowsArm64 => "yt-dlp_arm64.exe"@,
    }
}

/// Where setup fetches the download tool from.
pub fn ytdlp_release_url(t: ReleaseTarget) -> (r: String)
    ensures
        r@ == release_base() + release_file(t),
{
    let file = match t {
        ReleaseTarget::Nas | ReleaseTarget::LinuxOther => string_from("yt-dlp"),
        ReleaseTarget::LinuxMusl => string_from("yt-dlp_musllinux"),
        ReleaseTarget::LinuxGnu => string_from("yt-dlp_linux"),
        ReleaseTarget::WindowsX64 => string_from("yt-dlp.exe"),
        ReleaseTarget::WindowsX86 => string_from("yt-dlp_x86.exe"),
        ReleaseTarget::WindowsArm64 => string_from("yt-dlp_arm64.exe"),
    };
    concat("https://github.com/yt-dlp/yt-dlp/releases/latest/download/", file.as_str())
}

/// Where setup puts the download tool it fetched.
pub fn ytdlp_install_path(t: ReleaseTarget) -> (r: String)
    ensures
        r@ == (match t {
            ReleaseTarget::Nas => "/var/packages/vda_serwer/var/bin/yt-dlp"@,
            ReleaseTarget::WindowsX64 | ReleaseTarget::WindowsX86 | ReleaseTarget::WindowsArm64 =>
                "./bin/yt-dlp.exe"@,
            _ => "./bin/yt-dlp"@,
        }),
{
    match t {
        ReleaseTarget::Nas => string_from("/var/packages/vda_serwer/var/bin/yt-dlp"),
        ReleaseTarget::WindowsX64 | ReleaseTarget::WindowsX86 | ReleaseTarget::WindowsArm64 =>
            string_from("./bin/yt-dlp.exe"),
        _ => string_from("./bin/yt-dlp"),
    }
}

} // verus!
