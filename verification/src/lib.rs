//! Scheduling and supervision of a bounded number of concurrent transcoding jobs.
//!
//! The library decides; its caller acts. It holds the jobs and their states, admits them
//! under a concurrency limit, builds the transcoder's arguments, reads its progress lines
//! and judges its exit. Launching processes, reading pipes and waiting are the caller's part:
//! the caller hands in what it observed and carries out what comes back.
//!
//! - [`queue`]: the job queue and the step function that drives a job's run.
//! - [`gate`]: the admission limiter behind the queue's concurrency limit.
//! - [`job`]: the job and its status.
//! - [`invariants`]: what holds of every queue, however it is driven.
//! - [`invoker`]: supervision of one run of the transcoder.
//! - [`encoder`]: encoder selection, guard rails and the argument list.
//! - [`progress`]: the transcoder's progress lines.
//! - [`probe`]: a source file's metadata, read off the probing tool's report.
//! - [`system`]: the machine's processors and the default concurrency.
//! - [`utils`]: sizes and durations in words, resolutions, file names.
//! - [`text`], [`seqs`]: characters, numerals and searches that the rest is built on.

pub mod encoder;
pub mod gate;
pub mod invariants;
pub mod invoker;
pub mod job;
pub mod probe;
pub mod progress;
pub mod queue;
pub mod seqs;
pub mod system;
pub mod text;
pub mod utils;
