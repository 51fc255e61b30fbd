//! A media-download job queue: requests are validated and given an
//! identity, kept in a durable queue, and run one at a time through a
//! download tool and an optional conversion.
//!
//! - [`queue`]: the Queue Store and Job Intake.
//! - [`job`]: one job's run, as a state machine whose driver does the work.
//! - [`output`]: the Output Parser for the download tool's lines.
//! - [`executor`]: command lines for the download tool and the transcoder.
//! - [`filename`], [`paths`], [`text`]: names, paths and text.
//! - [`setup`], [`premium`], [`cli`]: tool locations, credential checks,
//!   server options.
pub mod cli;
pub mod executor;
pub mod filename;
pub mod job;
pub mod models;
pub mod output;
pub mod paths;
pub mod premium;
pub mod queue;
pub mod setup;
pub mod text;
