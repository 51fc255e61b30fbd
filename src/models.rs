//! The records that travel between the request boundary, the queue and the
//! worker.
use vstd::prelude::*;

verus! {

/// Whether the download tool could be found, and which version answered.
#[derive(Clone, Debug, PartialEq, Eq)]
pub struct YtDlpStatus {
    pub installed: bool,
    pub version: Option<String>,
    pub error: Option<String>,
    pub message: String,
}

/// A download as a client asks for it; every field but the URL may be left
/// out.
#[derive(Clone, Debug, PartialEq, Eq)]
pub struct DownloadRequest {
    pub url: String,
    pub quality: Option<String>,
    pub format: Option<String>,
    pub subfolder: Option<String>,
    pub title: Option<String>,
    pub username: Option<String>,
    pub password: Option<String>,
}

/// The answer to a download request.
#[derive(Clone, Debug, PartialEq, Eq)]
pub struct DownloadResponse {
    pub success: bool,
    pub message: Option<String>,
    pub error: Option<String>,
    pub output_path: Option<String>,
    pub id: Option<u64>,
}

/// A pending job as the queue file records it.
#[derive(Clone, Debug, PartialEq, Eq)]
pub struct DownloadQueueItem {
    pub url: String,
    pub quality: String,
    pub format_selector: String,
    pub subfolder: String,
    pub title: Option<String>,
    pub username: Option<String>,
    pub password: Option<String>,
    pub id: u64,
}

/// The outcome of one job.
#[derive(Clone, Debug, PartialEq, Eq)]
pub struct JobResult {
    pub success: bool,
    pub http_status: u16,
    pub message: Option<String>,
    pub error: Option<String>,
    pub output_path: Option<String>,
}

/// What the worker needs to run one job; `output_path` is the directory the
/// files go to.
#[derive(Clone, Debug, PartialEq, Eq)]
pub struct DownloadParams {
    pub url: String,
    pub quality: String,
    pub format_selector: String,
    pub output_path: String,
    pub custom_title: Option<String>,
    pub username: Option<String>,
    pub password: Option<String>,
}

/// A copy of an optional text.
pub fn copy_text(o: &Option<String>) -> (r: Option<String>)
    ensures
        r == *o,
{
    match o {
        Some(s) => Some(s.clone()),
        None => None,
    }
}

impl DownloadQueueItem {
    /// A copy of the record.
    pub fn duplicate(&self) -> (r: DownloadQueueItem)
        ensures
            r == *self,
    {
        DownloadQueueItem {
            url: self.url.clone(),
            quality: self.quality.clone(),
            format_selector: self.format_selector.clone(),
            subfolder: self.subfolder.clone(),
            title: copy_text(&self.title),
            username: copy_text(&self.username),
            password: copy_text(&self.password),
            id: self.id,
        }
    }
}

impl DownloadParams {
    /// A copy of the parameters.
    pub fn duplicate(&self) -> (r: DownloadParams)
        ensures
            r == *self,
    {
        DownloadParams {
            url: self.url.clone(),
            quality: self.quality.clone(),
            format_selector: self.format_selector.clone(),
            output_path: self.output_path.clone(),
            custom_title: copy_text(&self.custom_title),
            username: copy_text(&self.username),
            password: copy_text(&self.password),
        }
    }
}

} // verus!
