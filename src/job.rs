//! One job from download to result, as a state machine.
//!
//! The machine decides; its driver does the work. Each call of `step` takes
//! what the last action found out and answers with the next action, until
//! the machine finishes with the job's result. Post-processing is best
//! effort: once the download tool has run, the result is a success, and
//! what went wrong after it is reported as a degradation.
use vstd::prelude::*;
use crate::executor::{
    conversion_arguments, conversion_command, download_arguments, download_command,
    requested_conversion, conversion_for, ConversionTarget,
};
use crate::models::{DownloadParams, JobResult};
use crate::paths::{is_absolute, joined, resolve_against};
use crate::text::{concat, lower_of, string_from, texts};

verus! {

/// Where a job run stands.
#[derive(Debug)]
pub enum RunPhase {
    /// Nothing done yet.
    Start,
    /// The download tool was started and has not exited.
    Downloading,
    /// Checking that the file the tool named exists.
    CheckingFile { path: String },
    /// Looking for the newest MP4 file in the job's directory.
    Searching,
    /// Checking that the transcoder can be run, to convert `source`.
    CheckingTranscoder { source: String },
    /// The transcoder runs on `source`.
    Converting { source: String },
    /// The converted file exists; the source is being deleted.
    Removing,
    /// The result was handed out.
    Done,
}

/// What the driver found out since the last action.
#[derive(Debug)]
pub enum RunEvent {
    /// The run is to begin.
    Begin,
    /// The download tool could not be started.
    SpawnFailed { reason: String },
    /// The download tool exited and both of its output streams were read to
    /// the end; `downloaded_file` is what the Output Parser recorded.
    DownloadExited { downloaded_file: Option<String> },
    /// Whether the file to check exists.
    FileChecked { exists: bool },
    /// The newest MP4 file in the job's directory, if there is one.
    LatestFound { path: Option<String> },
    /// Whether the transcoder can be run.
    TranscoderChecked { available: bool },
    /// Whether the transcoder succeeded.
    ConversionExited { success: bool },
    /// Whether the source file was deleted.
    SourceRemoved { removed: bool },
}

/// Something that went wrong after the download without failing the job.
#[derive(Clone, Copy, Debug, PartialEq, Eq)]
pub enum Degradation {
    /// No file to convert was found; the download is kept as it is.
    NoSourceFile,
    /// The transcoder cannot be run; the download is kept as it is.
    TranscoderMissing,
    /// The transcoder failed; the download is kept as it is.
    ConversionFailed,
    /// The file was converted but its source could not be deleted.
    SourceKept,
}

/// What the driver is to do next.
#[derive(Debug)]
pub enum RunAction {
    /// Run the download tool with these arguments, the program first, and
    /// feed every line of its output to the Output Parser.
    StartDownload { args: Vec<String> },
    /// Tell whether this file exists.
    CheckFile { path: String },
    /// Find the most recently modified MP4 file in this directory.
    FindLatest { dir: String },
    /// Tell whether this transcoder can be run.
    CheckTranscoder { program: String },
    /// Run the transcoder with these arguments, the program first.
    StartConversion { args: Vec<String> },
    /// Delete this file.
    RemoveFile { path: String },
    /// The job is over.
    Finish { result: JobResult, degradation: Option<Degradation> },
}

/// One job's run.
pub struct JobRun {
    pub params: DownloadParams,
    /// The download tool.
    pub tool: String,
    /// The transcoder.
    pub transcoder: String,
    /// The conversion the job asks for.
    pub target: Option<ConversionTarget>,
    pub phase: RunPhase,
}

pub open spec fn success_message() -> Seq<char> {
    "Pobieranie zakończone pomyślnie"@
}

pub open spec fn spawn_failure_prefix() -> Seq<char> {
    "Nie udało się uruchomić yt-dlp: "@
}

/// The result of a job whose download tool ran: success, with the job's
/// directory as the output path.
pub open spec fn is_success_result(r: JobResult, dir: Seq<char>) -> bool {
    &&& r.success
    &&& r.http_status == 200
    &&& r.message matches Some(m) && m@ == success_message()
    &&& r.error is None
    &&& r.output_path matches Some(p) && p@ == dir
}

/// The result of a job whose download tool could not be started.
pub open spec fn is_spawn_failure(r: JobResult, reason: Seq<char>) -> bool {
    &&& !r.success
    &&& r.http_status == 500
    &&& r.message is None
    &&& r.error matches Some(e) && e@ == spawn_failure_prefix() + reason
    &&& r.output_path is None
}

/// The action finishes the job successfully, with the given degradation.
pub open spec fn finishes_ok(a: RunAction, dir: Seq<char>, d: Option<Degradation>) -> bool {
    &&& a matches RunAction::Finish { result, degradation }
    &&& is_success_result(result, dir)
    &&& degradation == d
}

/// The file a conversion starts from once the tool named `named`.
pub open spec fn named_path(dir: Seq<char>, named: Seq<char>) -> Seq<char> {
    if is_absolute(named) {
        named
    } else {
        joined(dir, named)
    }
}

/// The phase waits for this kind of event.
pub open spec fn expects(phase: RunPhase, ev: RunEvent) -> bool {
    match phase {
        RunPhase::Start => ev is Begin,
        RunPhase::Downloading => ev is SpawnFailed || ev is DownloadExited,
        RunPhase::CheckingFile { .. } => ev is FileChecked,
        RunPhase::Searching => ev is LatestFound,
        RunPhase::CheckingTranscoder { .. } => ev is TranscoderChecked,
        RunPhase::Converting { .. } => ev is ConversionExited,
        RunPhase::Removing => ev is SourceRemoved,
        RunPhase::Done => false,
    }
}

/// One step of the machine: from `pre` and the event to `post` and the
/// action. The job's parameters, tools and target never change.
pub open spec fn step_spec(pre: JobRun, ev: RunEvent, post: JobRun, act: RunAction) -> bool {
    let dir = pre.params.output_path@;
    match (pre.phase, ev) {
        (RunPhase::Start, RunEvent::Begin) => {
            &&& post.phase is Downloading
            &&& act matches RunAction::StartDownload { args }
            &&& texts(args@) == download_command(pre.tool@, pre.params)
        },
        (RunPhase::Downloading, RunEvent::SpawnFailed { reason }) => {
            &&& post.phase is Done
            &&& act matches RunAction::Finish { result, degradation }
            &&& is_spawn_failure(result, reason@)
            &&& degradation is None
        },
        (RunPhase::Downloading, RunEvent::DownloadExited { downloaded_file }) => match pre.target {
            None => post.phase is Done && finishes_ok(act, dir, None),
            Some(_) => match downloaded_file {
                Some(f) => {
                    &&& post.phase matches RunPhase::CheckingFile { path }
                    &&& path@ == named_path(dir, f@)
                    &&& act matches RunAction::CheckFile { path: p }
                    &&& p@ == path@
                },
                None => searches(post, act, dir),
            },
        },
        (RunPhase::CheckingFile { path }, RunEvent::FileChecked { exists }) => if exists {
            checks_transcoder(pre, post, act, path@)
        } else {
            searches(post, act, dir)
        },
        (RunPhase::Searching, RunEvent::LatestFound { path }) => match path {
            Some(p) => checks_transcoder(pre, post, act, p@),
            None => post.phase is Done && finishes_ok(act, dir, Some(Degradation::NoSourceFile)),
        },
        (RunPhase::CheckingTranscoder { source }, RunEvent::TranscoderChecked { available }) =>
            if available {
            &&& post.phase matches RunPhase::Converting { source: s }
            &&& s@ == source@
            &&& act matches RunAction::StartConversion { args }
            &&& pre.target matches Some(t)
            &&& texts(args@) == conversion_command(pre.transcoder@, source@, t)
        } else {
            post.phase is Done && finishes_ok(act, dir, Some(Degradation::TranscoderMissing))
        },
        (RunPhase::Converting { source }, RunEvent::ConversionExited { success }) => if success {
            &&& post.phase is Removing
            &&& act matches RunAction::RemoveFile { path }
            &&& path@ == source@
        } else {
            post.phase is Done && finishes_ok(act, dir, Some(Degradation::ConversionFailed))
        },
        (RunPhase::Removing, RunEvent::SourceRemoved { removed }) => {
            &&& post.phase is Done
            &&& finishes_ok(
                act,
                dir,
                if removed {
                    None
                } else {
                    Some(Degradation::SourceKept)
                },
            )
        },
        _ => false,
    }
}

/// The next action looks for the newest MP4 file in the job's directory.
pub open spec fn searches(post: JobRun, act: RunAction, dir: Seq<char>) -> bool {
    &&& post.phase is Searching
    &&& act matches RunAction::FindLatest { dir: d }
    &&& d@ == dir
}

/// The next action checks the transcoder, to convert `source`.
pub open spec fn checks_transcoder(pre: JobRun, post: JobRun, act: RunAction, source: Seq<char>) -> bool {
    &&& post.phase matches RunPhase::CheckingTranscoder { source: s }
    &&& s@ == source
    &&& act matches RunAction::CheckTranscoder { program }
    &&& program@ == pre.transcoder@
}

/// A conversion is only ever under way for a job that asks for one.
pub open spec fn consistent(run: JobRun) -> bool {
    match run.phase {
        RunPhase::CheckingFile { .. } | RunPhase::Searching | RunPhase::CheckingTranscoder { .. }
        | RunPhase::Converting { .. } | RunPhase::Removing => run.target is Some,
        _ => true,
    }
}

fn success_result(dir: &String) -> (r: JobResult)
    ensures
        is_success_result(r, dir@),
{
    JobResult {
        success: true,
        http_status: 200,
        message: Some(string_from("Pobieranie zakończone pomyślnie")),
        error: None,
        output_path: Some(dir.clone()),
    }
}

fn finish_ok(dir: &String, degradation: Option<Degradation>) -> (r: RunAction)
    ensures
        finishes_ok(r, dir@, degradation),
{
    RunAction::Finish { result: success_result(dir), degradation }
}

impl JobRun {
    /// A run for a job; the format selector decides the conversion, in any
    /// case.
    pub fn new(params: DownloadParams, tool: &str, transcoder: &str) -> (r: JobRun)
        ensures
            r.params == params,
            r.tool@ == tool@,
            r.transcoder@ == transcoder@,
            r.target == conversion_for(lower_of(params.format_selector@)),
            r.phase is Start,
    {
        let target = requested_conversion(params.format_selector.as_str());
        JobRun {
            params,
            tool: string_from(tool),
            transcoder: string_from(transcoder),
            target,
            phase: RunPhase::Start,
        }
    }

    /// A run for a job whose conversion was already decided.
    pub fn with_target(
        params: DownloadParams,
        tool: &str,
        transcoder: &str,
        target: Option<ConversionTarget>,
    ) -> (r: JobRun)
        ensures
            r.params == params,
            r.tool@ == tool@,
            r.transcoder@ == transcoder@,
            r.target == target,
            r.phase is Start,
    {
        JobRun {
            params,
            tool: string_from(tool),
            transcoder: string_from(transcoder),
            target,
            phase: RunPhase::Start,
        }
    }

    /// Whether the run is over.
    pub fn is_done(&self) -> (r: bool)
        ensures
            r == (self.phase is Done),
    {
        match self.phase {
            RunPhase::Done => true,
            _ => false,
        }
    }

    /// Takes what the last action found out and gives the run that follows
    /// and the next action. An event the current phase does not wait for
    /// changes nothing and gives no action.
    pub fn step(self, ev: RunEvent) -> (r: (JobRun, Option<RunAction>))
        requires
            consistent(self),
        ensures
            consistent(r.0),
            r.0.params == self.params,
            r.0.tool == self.tool,
            r.0.transcoder == self.transcoder,
            r.0.target == self.target,
            r.1 is None <==> !expects(self.phase, ev),
            r.1 is None ==> r.0 == self,
            r.1 matches Some(act) ==> step_spec(self, ev, r.0, act),
    {
        let ghost pre = self;
        let JobRun { params, tool, transcoder, target, phase } = self;
        let (next, action): (RunPhase, Option<RunAction>) = match (phase, ev) {
            (RunPhase::Start, RunEvent::Begin) => {
                let args = download_arguments(tool.as_str(), &params);
                (RunPhase::Downloading, Some(RunAction::StartDownload { args }))
            },
            (RunPhase::Downloading, RunEvent::SpawnFailed { reason }) => {
                let error = concat("Nie udało się uruchomić yt-dlp: ", reason.as_str());
                let result = JobResult {
                    success: false,
                    http_status: 500,
                    message: None,
                    error: Some(error),
                    output_path: None,
                };
                (RunPhase::Done, Some(RunAction::Finish { result, degradation: None }))
            },
            (RunPhase::Downloading, RunEvent::DownloadExited { downloaded_file }) => {
                match target {
                    None => (RunPhase::Done, Some(finish_ok(&params.output_path, None))),
                    Some(_) => match downloaded_file {
                        Some(f) => {
                            let path = resolve_against(params.output_path.as_str(), f.as_str());
                            let check = path.clone();
                            (RunPhase::CheckingFile { path }, Some(RunAction::CheckFile { path: check }))
                        },
                        None => (
                            RunPhase::Searching,
                            Some(RunAction::FindLatest { dir: params.output_path.clone() }),
                        ),
                    },
                }
            },
            (RunPhase::CheckingFile { path }, RunEvent::FileChecked { exists }) => {
                if exists {
                    (
                        RunPhase::CheckingTranscoder { source: path },
                        Some(RunAction::CheckTranscoder { program: transcoder.clone() }),
                    )
                } else {
                    (
                        RunPhase::Searching,
                        Some(RunAction::FindLatest { dir: params.output_path.clone() }),
                    )
                }
            },
            (RunPhase::Searching, RunEvent::LatestFound { path }) => match path {
                Some(p) => (
                    RunPhase::CheckingTranscoder { source: p },
                    Some(RunAction::CheckTranscoder { program: transcoder.clone() }),
                ),
                None => (
                    RunPhase::Done,
                    Some(finish_ok(&params.output_path, Some(Degradation::NoSourceFile))),
                ),
            },
            (RunPhase::CheckingTranscoder { source }, RunEvent::TranscoderChecked { available }) => {
                if available {
                    let t = target.unwrap();
                    let args = conversion_arguments(transcoder.as_str(), source.as_str(), t);
                    (RunPhase::Converting { source }, Some(RunAction::StartConversion { args }))
                } else {
                    (
                        RunPhase::Done,
                        Some(finish_ok(&params.output_path, Some(Degradation::TranscoderMissing))),
                    )
                }
            },
            (RunPhase::Converting { source }, RunEvent::ConversionExited { success }) => {
                if success {
                    (RunPhase::Removing, Some(RunAction::RemoveFile { path: source }))
                } else {
                    (
                        RunPhase::Done,
                        Some(finish_ok(&params.output_path, Some(Degradation::ConversionFailed))),
                    )
                }
            },
            (RunPhase::Removing, RunEvent::SourceRemoved { removed }) => {
                let degradation = if removed {
                    None
                } else {
                    Some(Degradation::SourceKept)
                };
                (RunPhase::Done, Some(finish_ok(&params.output_path, degradation)))
            },
            (phase, _) => (phase, None),
        };
        (JobRun { params, tool, transcoder, target, phase: next }, action)
    }
}

} // verus!
