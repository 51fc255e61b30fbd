//! The Output Parser: each line the download tool prints becomes one event.
//!
//! The rules are tried in order; the last one takes whatever is left, so no
//! line with text in it goes unreported.
use vstd::prelude::*;
use crate::text::{
    chars_of, contains, contains_chars, find_chars, find_from, is_white_space, lemma_find_contains,
    lemma_find_from, occurs_at, string_from, string_of, trim, trimmed, upper_of, uppercase,
    white_space,
};

verus! {

/// What a line of tool output reports.
#[derive(Clone, Copy, Debug, PartialEq, Eq)]
pub enum LineKind {
    /// The file the tool writes to was named.
    FileIdentified,
    /// A progress report; the text is the percentage.
    Progress,
    /// Some other download activity.
    Downloading,
    /// Separate streams are being merged into one file.
    Merging,
    /// Audio is being extracted.
    AudioExtraction,
    /// The tool reported an error.
    Error,
    /// Anything else, passed on as it is.
    Info,
}

/// One classified line, with the text to report.
#[derive(Clone, Debug, PartialEq, Eq)]
pub struct LineEvent {
    pub kind: LineKind,
    pub text: String,
}

pub open spec fn download_marker() -> Seq<char> {
    "[download]"@
}

pub open spec fn destination_marker() -> Seq<char> {
    "Destination:"@
}

pub open spec fn eta_marker() -> Seq<char> {
    "ETA"@
}

pub open spec fn merger_marker() -> Seq<char> {
    "[Merger]"@
}

pub open spec fn merging_marker() -> Seq<char> {
    "Merging formats into"@
}

pub open spec fn extract_audio_marker() -> Seq<char> {
    "[ExtractAudio]"@
}

pub open spec fn error_marker() -> Seq<char> {
    "ERROR"@
}

/// The kind of a trimmed, non-empty line `t` whose upper case is `u`.
pub open spec fn line_kind(t: Seq<char>, u: Seq<char>) -> LineKind {
    if contains(t, download_marker()) {
        if contains(t, destination_marker()) {
            LineKind::FileIdentified
        } else if contains(t, seq!['%']) && contains(t, eta_marker()) {
            LineKind::Progress
        } else {
            LineKind::Downloading
        }
    } else if contains(t, merger_marker()) && contains(t, merging_marker()) {
        LineKind::Merging
    } else if contains(t, extract_audio_marker()) {
        LineKind::AudioExtraction
    } else if contains(u, error_marker()) {
        LineKind::Error
    } else {
        LineKind::Info
    }
}

/// The file named after the first destination marker, trimmed.
pub open spec fn destination_of(t: Seq<char>) -> Seq<char> {
    let d = find_from(t, destination_marker(), 0)->0;
    trim(t.subrange(d + destination_marker().len(), t.len() as int))
}

/// Where the run of non-white-space characters around position `i` starts.
pub open spec fn run_start(t: Seq<char>, i: int) -> int
    decreases i,
{
    if i > 0 && i <= t.len() && !is_white_space(t[i - 1]) {
        run_start(t, i - 1)
    } else {
        i
    }
}

/// Where the run of non-white-space characters from position `i` ends.
pub open spec fn run_end(t: Seq<char>, i: int) -> int
    decreases t.len() - i,
{
    if 0 <= i < t.len() && !is_white_space(t[i]) {
        run_end(t, i + 1)
    } else {
        i
    }
}

/// The first white-space separated word that holds a `%`: the word around
/// the first `%`.
pub open spec fn percent_word(t: Seq<char>) -> Seq<char> {
    let p = find_from(t, seq!['%'], 0)->0;
    t.subrange(run_start(t, p), run_end(t, p))
}

/// The text between the first pair of double quotes, if there is a pair.
pub open spec fn quoted_of(t: Seq<char>) -> Option<Seq<char>> {
    match find_from(t, seq!['"'], 0) {
        Some(a) => match find_from(t, seq!['"'], a + 1) {
            Some(b) => Some(t.subrange(a + 1, b)),
            None => None,
        },
        None => None,
    }
}

/// The text reported for a line of the given kind.
pub open spec fn event_text(t: Seq<char>, kind: LineKind) -> Seq<char> {
    match kind {
        LineKind::FileIdentified => destination_of(t),
        LineKind::Progress => percent_word(t),
        _ => t,
    }
}

/// The file a line names as the download's result, if it names one.
pub open spec fn named_file(t: Seq<char>, kind: LineKind) -> Option<Seq<char>> {
    match kind {
        LineKind::FileIdentified => Some(destination_of(t)),
        LineKind::Merging => quoted_of(t),
        _ => None,
    }
}

/// The slot of the downloaded file after a line: what the line names, or
/// what it held before.
pub open spec fn slot_after(
    before: Option<String>,
    after: Option<String>,
    named: Option<Seq<char>>,
) -> bool {
    match named {
        Some(p) => after matches Some(f) && f@ == p,
        None => after == before,
    }
}

proof fn lemma_run_start(t: Seq<char>, i: int)
    requires
        0 <= i <= t.len(),
    ensures
        0 <= run_start(t, i) <= i,
        run_start(t, i) == 0 || is_white_space(t[run_start(t, i) - 1]),
        forall|k: int| run_start(t, i) <= k < i ==> !is_white_space(#[trigger] t[k]),
    decreases i,
{
    if i > 0 && !is_white_space(t[i - 1]) {
        lemma_run_start(t, i - 1);
    }
}

proof fn lemma_run_end(t: Seq<char>, i: int)
    requires
        0 <= i <= t.len(),
    ensures
        i <= run_end(t, i) <= t.len(),
        run_end(t, i) == t.len() || is_white_space(t[run_end(t, i)]),
        forall|k: int| i <= k < run_end(t, i) ==> !is_white_space(#[trigger] t[k]),
    decreases t.len() - i,
{
    if i < t.len() && !is_white_space(t[i]) {
        lemma_run_end(t, i + 1);
    }
}

fn run_start_exec(v: &Vec<char>, i: usize) -> (r: usize)
    requires
        i <= v.len(),
    ensures
        r == run_start(v@, i as int),
{
    let mut a: usize = i;
    while a > 0 && !white_space(v[a - 1])
        invariant
            a <= i <= v.len(),
            run_start(v@, i as int) == run_start(v@, a as int),
        decreases a,
    {
        a = a - 1;
    }
    a
}

fn run_end_exec(v: &Vec<char>, i: usize) -> (r: usize)
    requires
        i <= v.len(),
    ensures
        r == run_end(v@, i as int),
{
    let mut b: usize = i;
    while b < v.len() && !white_space(v[b])
        invariant
            i <= b <= v.len(),
            run_end(v@, i as int) == run_end(v@, b as int),
        decreases v.len() - b,
    {
        b = b + 1;
    }
    b
}

proof fn lemma_found(s: Seq<char>, pat: Seq<char>, i: int)
    requires
        find_from(s, pat, 0) == Some(i),
    ensures
        0 <= i,
        i + pat.len() <= s.len(),
{
    lemma_find_from(s, pat, 0);
    assert(occurs_at(s, pat, i));
}

/// Classifies a trimmed line `t` whose upper case is `upper`, and records
/// the file it names in `downloaded_file`.
pub fn classify_line(t: &str, upper: &str, downloaded_file: &mut Option<String>) -> (ev: LineEvent)
    ensures
        ev.kind == line_kind(t@, upper@),
        ev.text@ == event_text(t@, ev.kind),
        slot_after(*old(downloaded_file), *final(downloaded_file), named_file(t@, ev.kind)),
{
    let v = chars_of(t);
    let download = chars_of("[download]");
    let destination = chars_of("Destination:");
    if contains_chars(&v, &download) {
        proof {
            lemma_find_contains(v@, destination@);
        }
        match find_chars(&v, &destination, 0) {
            Some(d) => {
                let n = v.len();
                proof {
                    lemma_found(v@, destination@, d as int);
                }
                let rest = string_of(&v, d + destination.len(), n);
                let name = trimmed(rest.as_str());
                *downloaded_file = Some(name.clone());
                return LineEvent { kind: LineKind::FileIdentified, text: name };
            },
            None => {},
        }
        let percent = chars_of("%");
        let eta = chars_of("ETA");
        proof {
            reveal_strlit("%");
            assert(percent@ =~= seq!['%']);
            lemma_find_contains(v@, percent@);
        }
        if contains_chars(&v, &percent) && contains_chars(&v, &eta) {
            let p = find_chars(&v, &percent, 0).unwrap();
            proof {
                lemma_found(v@, percent@, p as int);
            }
            let a = run_start_exec(&v, p);
            let b = run_end_exec(&v, p);
            proof {
                lemma_run_start(v@, p as int);
                lemma_run_end(v@, p as int);
            }
            return LineEvent { kind: LineKind::Progress, text: string_of(&v, a, b) };
        }
        return LineEvent { kind: LineKind::Downloading, text: string_from(t) };
    }
    let merger = chars_of("[Merger]");
    let merging = chars_of("Merging formats into");
    if contains_chars(&v, &merger) && contains_chars(&v, &merging) {
        let quote = chars_of("\"");
        proof {
            reveal_strlit("\"");
            assert(quote@ =~= seq!['"']);
        }
        match find_chars(&v, &quote, 0) {
            Some(a) => {
                let n = v.len();
                proof {
                    lemma_found(v@, quote@, a as int);
                }
                match find_chars(&v, &quote, a + 1) {
                    Some(b) => {
                        proof {
                            lemma_find_from(v@, quote@, a + 1);
                            assert(occurs_at(v@, quote@, b as int));
                        }
                        *downloaded_file = Some(string_of(&v, a + 1, b));
                    },
                    None => {},
                }
            },
            None => {},
        }
        return LineEvent { kind: LineKind::Merging, text: string_from(t) };
    }
    let extract = chars_of("[ExtractAudio]");
    if contains_chars(&v, &extract) {
        return LineEvent { kind: LineKind::AudioExtraction, text: string_from(t) };
    }
    let u = chars_of(upper);
    let error = chars_of("ERROR");
    if contains_chars(&u, &error) {
        return LineEvent { kind: LineKind::Error, text: string_from(t) };
    }
    LineEvent { kind: LineKind::Info, text: string_from(t) }
}

/// Classifies one line of tool output and records the file it names in
/// `downloaded_file`. A line that is blank once trimmed gives no event and
/// leaves the slot alone; every other line gives exactly one event.
pub fn parse_output_line(line: &str, downloaded_file: &mut Option<String>) -> (r: Option<LineEvent>)
    ensures
        r is None <==> trim(line@).len() == 0,
        r is None ==> *final(downloaded_file) == *old(downloaded_file),
        r matches Some(ev) ==> {
            let t = trim(line@);
            &&& ev.kind == line_kind(t, upper_of(t))
            &&& ev.text@ == event_text(t, ev.kind)
            &&& slot_after(*old(downloaded_file), *final(downloaded_file), named_file(t, ev.kind))
        },
{
    let t = trimmed(line);
    let v = chars_of(t.as_str());
    if v.len() == 0 {
        return None;
    }
    let upper = uppercase(t.as_str());
    Some(classify_line(t.as_str(), upper.as_str(), downloaded_file))
}

} // verus!
