//! The Download Executor's decisions: the download tool's arguments, whether
//! a job needs converting, and the transcoder's arguments.
use vstd::prelude::*;
use crate::filename::{clean_filename, clean_name};
use crate::models::DownloadParams;
use crate::paths::{eq_ignore_ascii_case, extension_of, has_extension, join_path, joined, replace_extension, with_extension};
use crate::text::{concat, lower_of, lowercase, push_text, string_from, text_eq, texts};

verus! {

/// The selector handed to the download tool for a quality: the convenience
/// aliases are widened to a video+audio expression, any other text is used
/// as it is.
pub open spec fn quality_selector(q: Seq<char>) -> Seq<char> {
    if q == "best"@ || q == "bestaudio"@ {
        "bestvideo+bestaudio/best"@
    } else if q == "worst"@ {
        "worstvideo+bestaudio/worst"@
    } else if q == "best[height<=720]"@ {
        "bestvideo[height<=720]+bestaudio/best[height<=720]"@
    } else if q == "best[height<=480]"@ {
        "bestvideo[height<=480]+bestaudio/best[height<=480]"@
    } else {
        q
    }
}

pub fn quality_argument(quality: &str) -> (r: String)
    ensures
        r@ == quality_selector(quality@),
{
    if text_eq(quality, "best") || text_eq(quality, "bestaudio") {
        string_from("bestvideo+bestaudio/best")
    } else if text_eq(quality, "worst") {
        string_from("worstvideo+bestaudio/worst")
    } else if text_eq(quality, "best[height<=720]") {
        string_from("bestvideo[height<=720]+bestaudio/best[height<=720]")
    } else if text_eq(quality, "best[height<=480]") {
        string_from("bestvideo[height<=480]+bestaudio/best[height<=480]")
    } else {
        string_from(quality)
    }
}

/// A format that needs post-processing after the download.
#[derive(Clone, Copy, Debug, PartialEq, Eq)]
pub enum ConversionTarget {
    Mkv,
    Webm,
    /// Audio only.
    Mp3,
}

impl ConversionTarget {
    pub open spec fn spec_extension(self) -> Seq<char> {
        match self {
            ConversionTarget::Mkv => "mkv"@,
            ConversionTarget::Webm => "webm"@,
            ConversionTarget::Mp3 => "mp3"@,
        }
    }

    /// The file extension of the converted file.
    pub fn extension(self) -> (r: String)
        ensures
            r@ == self.spec_extension(),
    {
        match self {
            ConversionTarget::Mkv => string_from("mkv"),
            ConversionTarget::Webm => string_from("webm"),
            ConversionTarget::Mp3 => string_from("mp3"),
        }
    }
}

/// The conversion a lower-cased format selector asks for.
pub open spec fn conversion_for(lowered: Seq<char>) -> Option<ConversionTarget> {
    if lowered == "mkv"@ {
        Some(ConversionTarget::Mkv)
    } else if lowered == "webm"@ {
        Some(ConversionTarget::Webm)
    } else if lowered == "mp3"@ {
        Some(ConversionTarget::Mp3)
    } else {
        None
    }
}

/// The conversion for a format selector that is already in lower case.
pub fn conversion_target(lowered: &str) -> (r: Option<ConversionTarget>)
    ensures
        r == conversion_for(lowered@),
{
    if text_eq(lowered, "mkv") {
        Some(ConversionTarget::Mkv)
    } else if text_eq(lowered, "webm") {
        Some(ConversionTarget::Webm)
    } else if text_eq(lowered, "mp3") {
        Some(ConversionTarget::Mp3)
    } else {
        None
    }
}

/// The conversion a format selector asks for; case does not matter.
pub fn requested_conversion(format_selector: &str) -> (r: Option<ConversionTarget>)
    ensures
        r == conversion_for(lower_of(format_selector@)),
{
    let lowered = lowercase(format_selector);
    conversion_target(lowered.as_str())
}

/// Where the download tool writes: the title-based template of the tool, or
/// the sanitized custom title, in the job's directory.
pub open spec fn output_template(dir: Seq<char>, title: Option<String>) -> Seq<char> {
    match title {
        Some(t) => joined(dir, clean_name(t@) + ".%(ext)s"@),
        None => joined(dir, "%(title)s.%(ext)s"@),
    }
}

/// The options every download gets: progress per line, an MP4 result,
/// retries and fragment concurrency, metadata, and no side files.
pub open spec fn fixed_options() -> Seq<Seq<char>> {
    seq![
        "--merge-output-format"@,
        "mp4"@,
        "--no-part"@,
        "--remux-video"@,
        "mp4"@,
        "--no-keep-fragments"@,
        "--fixup"@,
        "detect_or_warn"@,
        "--postprocessor-args"@,
        "ffmpeg:-movflags +faststart"@,
        "--concurrent-fragments"@,
        "10"@,
        "--retries"@,
        "10"@,
        "--fragment-retries"@,
        "10"@,
        "--no-playlist"@,
        "--no-write-info-json"@,
        "--no-write-thumbnail"@,
        "--no-write-description"@,
        "--no-write-auto-sub"@,
        "--no-write-sub"@,
        "--no-embed-thumbnail"@,
        "--add-metadata"@,
        "--no-warnings"@,
    ]
}

/// The credential options, present only when both parts are given.
pub open spec fn credential_options(username: Option<String>, password: Option<String>) -> Seq<
    Seq<char>,
> {
    match (username, password) {
        (Some(u), Some(p)) => seq!["--username"@, u@, "--password"@, p@],
        _ => Seq::empty(),
    }
}

/// The whole command line of the download tool for a job, the program
/// first and the URL last.
pub open spec fn download_command(tool: Seq<char>, params: DownloadParams) -> Seq<Seq<char>> {
    seq![tool, "--newline"@, "-f"@, quality_selector(params.quality@)] + fixed_options() + seq![
        "-o"@,
        output_template(params.output_path@, params.custom_title),
    ] + credential_options(params.username, params.password) + seq![params.url@]
}

fn push_fixed_options(args: &mut Vec<String>)
    ensures
        texts(final(args)@) == texts(old(args)@) + fixed_options(),
{
    let ghost start = texts(args@);
    push_text(args, "--merge-output-format");
    push_text(args, "mp4");
    push_text(args, "--no-part");
    push_text(args, "--remux-video");
    push_text(args, "mp4");
    push_text(args, "--no-keep-fragments");
    push_text(args, "--fixup");
    push_text(args, "detect_or_warn");
    push_text(args, "--postprocessor-args");
    push_text(args, "ffmpeg:-movflags +faststart");
    push_text(args, "--concurrent-fragments");
    push_text(args, "10");
    push_text(args, "--retries");
    push_text(args, "10");
    push_text(args, "--fragment-retries");
    push_text(args, "10");
    push_text(args, "--no-playlist");
    push_text(args, "--no-write-info-json");
    push_text(args, "--no-write-thumbnail");
    push_text(args, "--no-write-description");
    push_text(args, "--no-write-auto-sub");
    push_text(args, "--no-write-sub");
    push_text(args, "--no-embed-thumbnail");
    push_text(args, "--add-metadata");
    push_text(args, "--no-warnings");
    assert(texts(args@) =~= start + fixed_options());
}

/// The download tool's command line for a job: `tool` is the program.
pub fn download_arguments(tool: &str, params: &DownloadParams) -> (r: Vec<String>)
    ensures
        texts(r@) == download_command(tool@, *params),
{
    let mut args: Vec<String> = Vec::new();
    push_text(&mut args, tool);
    push_text(&mut args, "--newline");
    push_text(&mut args, "-f");
    let quality = quality_argument(params.quality.as_str());
    push_text(&mut args, quality.as_str());
    push_fixed_options(&mut args);
    push_text(&mut args, "-o");
    let template = match &params.custom_title {
        Some(title) => {
            let clean = clean_filename(title.as_str());
            let name = concat(clean.as_str(), ".%(ext)s");
            join_path(params.output_path.as_str(), name.as_str())
        },
        None => join_path(params.output_path.as_str(), "%(title)s.%(ext)s"),
    };
    push_text(&mut args, template.as_str());
    let ghost before_credentials = texts(args@);
    match (&params.username, &params.password) {
        (Some(u), Some(p)) => {
            push_text(&mut args, "--username");
            push_text(&mut args, u.as_str());
            push_text(&mut args, "--password");
            push_text(&mut args, p.as_str());
        },
        _ => {},
    }
    assert(texts(args@) =~= before_credentials + credential_options(
        params.username,
        params.password,
    ));
    push_text(&mut args, params.url.as_str());
    assert(texts(args@) =~= download_command(tool@, *params));
    args
}

/// The transcoder's command line: audio extraction at a fixed quality for
/// MP3, a stream copy with the index moved to the front otherwise.
pub open spec fn conversion_command(
    program: Seq<char>,
    source: Seq<char>,
    target: ConversionTarget,
) -> Seq<Seq<char>> {
    let out = with_extension(source, target.spec_extension());
    match target {
        ConversionTarget::Mp3 => seq![
            program,
            "-i"@,
            source,
            "-vn"@,
            "-acodec"@,
            "libmp3lame"@,
            "-q:a"@,
            "2"@,
            "-y"@,
            out,
        ],
        _ => seq![
            program,
            "-i"@,
            source,
            "-c"@,
            "copy"@,
            "-movflags"@,
            "+faststart"@,
            "-y"@,
            out,
        ],
    }
}

/// The transcoder's command line for converting `source`; `program` is the
/// transcoder.
pub fn conversion_arguments(program: &str, source: &str, target: ConversionTarget) -> (r: Vec<
    String,
>)
    ensures
        texts(r@) == conversion_command(program@, source@, target),
{
    let ext = target.extension();
    let out = replace_extension(source, ext.as_str());
    let mut args: Vec<String> = Vec::new();
    push_text(&mut args, program);
    push_text(&mut args, "-i");
    push_text(&mut args, source);
    match target {
        ConversionTarget::Mp3 => {
            push_text(&mut args, "-vn");
            push_text(&mut args, "-acodec");
            push_text(&mut args, "libmp3lame");
            push_text(&mut args, "-q:a");
            push_text(&mut args, "2");
        },
        _ => {
            push_text(&mut args, "-c");
            push_text(&mut args, "copy");
            push_text(&mut args, "-movflags");
            push_text(&mut args, "+faststart");
        },
    }
    push_text(&mut args, "-y");
    push_text(&mut args, out.as_str());
    assert(texts(args@) =~= conversion_command(program@, source@, target));
    args
}

/// A file found in a directory, with its modification time in nanoseconds
/// since the Unix epoch.
#[derive(Clone, Debug, PartialEq, Eq)]
pub struct FileEntry {
    pub name: String,
    pub modified: u128,
}

/// The entry is an MP4 file, by its extension in any ASCII case.
pub open spec fn is_mp4(e: FileEntry) -> bool {
    extension_of(e.name@) matches Some(x) && eq_ignore_ascii_case(x, "mp4"@)
}

/// Entry `k` is the most recently modified MP4 file, the last one listed
/// among equally recent ones.
pub open spec fn is_latest_mp4(entries: Seq<FileEntry>, k: int) -> bool {
    &&& 0 <= k < entries.len()
    &&& is_mp4(entries[k])
    &&& forall|j: int| 0 <= j < entries.len() && is_mp4(#[trigger] entries[j]) ==> entries[j].modified <= entries[k].modified
    &&& forall|j: int| k < j < entries.len() && is_mp4(#[trigger] entries[j]) ==> entries[j].modified < entries[k].modified
}

/// The most recently modified MP4 file among the entries of `dir`, as a path
/// in `dir`; none when no entry is an MP4 file.
pub fn latest_mp4(dir: &str, entries: &Vec<FileEntry>) -> (r: Option<String>)
    ensures
        r is None <==> forall|j: int| 0 <= j < entries@.len() ==> !is_mp4(#[trigger] entries@[j]),
        r matches Some(p) ==> exists|k: int| is_latest_mp4(entries@, k) && p@ == joined(dir@, entries@[k].name@),
{
    let mut best: Option<usize> = None;
    let mut i: usize = 0;
    while i < entries.len()
        invariant
            i <= entries.len(),
            best is None ==> forall|j: int| 0 <= j < i ==> !is_mp4(#[trigger] entries@[j]),
            best matches Some(k) ==> {
                &&& k < i
                &&& is_mp4(entries@[k as int])
                &&& forall|j: int| 0 <= j < i && is_mp4(#[trigger] entries@[j]) ==> entries@[j].modified <= entries@[k as int].modified
                &&& forall|j: int| k < j < i && is_mp4(#[trigger] entries@[j]) ==> entries@[j].modified < entries@[k as int].modified
            },
        decreases entries.len() - i,
    {
        if has_extension(entries[i].name.as_str(), "mp4") {
            match best {
                Some(k) => {
                    if entries[i].modified >= entries[k].modified {
                        best = Some(i);
                    }
                },
                None => {
                    best = Some(i);
                },
            }
        }
        i = i + 1;
    }
    match best {
        Some(k) => {
            assert(is_latest_mp4(entries@, k as int));
            Some(join_path(dir, entries[k].name.as_str()))
        },
        None => None,
    }
}

} // verus!
