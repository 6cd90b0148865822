//! The job: one file to transcode, and the state it is in.

use crate::encoder::{EncodingSettings, SettingsModel};
use crate::probe::{VideoInfo, VideoModel};
use vstd::prelude::*;

verus! {

/// A point in time: seconds since the Unix epoch and the nanoseconds into that second.
#[derive(Clone, Copy, PartialEq, Eq, Structural, Debug)]
pub struct Timestamp {
    pub secs: i64,
    pub nanos: u32,
}

/// Where a job stands.
#[derive(Debug)]
pub enum JobStatus {
    /// Queued; not yet admitted.
    Pending,
    /// Admitted and being encoded; `progress` is in hundredths of a percent.
    Processing { progress: u32 },
    /// The encode succeeded.
    Completed { output_path: String },
    /// The encode failed for good.
    Failed { error: String },
    /// Set aside from outside the queue's own scheduling.
    Paused,
    /// Cancelled on request.
    Cancelled,
}

/// The mathematical content of [`JobStatus`].
pub enum StatusModel {
    Pending,
    Processing { progress: u32 },
    Completed { output_path: Seq<char> },
    Failed { error: Seq<char> },
    Paused,
    Cancelled,
}

impl View for JobStatus {
    type V = StatusModel;

    open spec fn view(&self) -> StatusModel {
        match self {
            JobStatus::Pending => StatusModel::Pending,
            JobStatus::Processing { progress } => StatusModel::Processing { progress: *progress },
            JobStatus::Completed { output_path } => StatusModel::Completed {
                output_path: output_path@,
            },
            JobStatus::Failed { error } => StatusModel::Failed { error: error@ },
            JobStatus::Paused => StatusModel::Paused,
            JobStatus::Cancelled => StatusModel::Cancelled,
        }
    }
}

impl Clone for JobStatus {
    fn clone(&self) -> (s: Self)
        ensures
            s@ == self@,
    {
        match self {
            JobStatus::Pending => JobStatus::Pending,
            JobStatus::Processing { progress } => JobStatus::Processing { progress: *progress },
            JobStatus::Completed { output_path } => JobStatus::Completed {
                output_path: output_path.clone(),
            },
            JobStatus::Failed { error } => JobStatus::Failed { error: error.clone() },
            JobStatus::Paused => JobStatus::Paused,
            JobStatus::Cancelled => JobStatus::Cancelled,
        }
    }
}

impl PartialEq for JobStatus {
    fn eq(&self, other: &Self) -> (r: bool) {
        match (self, other) {
            (JobStatus::Pending, JobStatus::Pending) => true,
            (JobStatus::Processing { progress: a }, JobStatus::Processing { progress: b }) => *a
                == *b,
            (JobStatus::Completed { output_path: a }, JobStatus::Completed { output_path: b }) => *a
                == *b,
            (JobStatus::Failed { error: a }, JobStatus::Failed { error: b }) => *a == *b,
            (JobStatus::Paused, JobStatus::Paused) => true,
            (JobStatus::Cancelled, JobStatus::Cancelled) => true,
            _ => false,
        }
    }
}

impl vstd::std_specs::cmp::PartialEqSpecImpl for JobStatus {
    open spec fn obeys_eq_spec() -> bool {
        true
    }

    /// Two statuses are equal where they are the same status with the same content.
    open spec fn eq_spec(&self, other: &Self) -> bool {
        self@ == other@
    }
}

impl StatusModel {
    /// A status that no transition leads out of.
    pub open spec fn is_terminal(self) -> bool {
        self is Completed || self is Failed || self is Cancelled
    }

    /// Whether a job in this status may pass to status `to`. A pending job may be admitted,
    /// set aside or cancelled. A job being processed may report progress, end, be set aside
    /// or be cancelled. A job set aside may be queued again, taken up again or cancelled.
    /// Nothing follows a terminal status.
    pub open spec fn may_become(self, to: StatusModel) -> bool {
        match self {
            StatusModel::Pending => to is Processing || to is Paused || to is Cancelled,
            StatusModel::Processing { .. } => to is Processing || to is Completed || to is Failed
                || to is Paused || to is Cancelled,
            StatusModel::Paused => to is Pending || to is Processing || to is Cancelled,
            StatusModel::Completed { .. } => false,
            StatusModel::Failed { .. } => false,
            StatusModel::Cancelled => false,
        }
    }
}

impl JobStatus {
    /// Whether the status is one that no transition leads out of.
    pub fn is_terminal(&self) -> (r: bool)
        ensures
            r == self@.is_terminal(),
    {
        match self {
            JobStatus::Completed { .. } => true,
            JobStatus::Failed { .. } => true,
            JobStatus::Cancelled => true,
            _ => false,
        }
    }

    /// Whether a job in this status may pass to status `to`.
    pub fn may_become(&self, to: &JobStatus) -> (r: bool)
        ensures
            r == self@.may_become(to@),
    {
        match self {
            JobStatus::Pending => match to {
                JobStatus::Processing { .. } => true,
                JobStatus::Paused => true,
                JobStatus::Cancelled => true,
                _ => false,
            },
            JobStatus::Processing { .. } => match to {
                JobStatus::Pending => false,
                _ => true,
            },
            JobStatus::Paused => match to {
                JobStatus::Pending => true,
                JobStatus::Processing { .. } => true,
                JobStatus::Cancelled => true,
                _ => false,
            },
            _ => false,
        }
    }
}

/// One file to transcode: where it comes from and goes to, what is known of the source, how
/// to encode it, and where it stands.
#[derive(Debug)]
pub struct Job {
    pub id: String,
    pub input_path: String,
    pub output_path: String,
    pub video_info: VideoInfo,
    pub settings: EncodingSettings,
    pub status: JobStatus,
    pub created_at: Timestamp,
    /// Set when the job first passes to `Processing`.
    pub started_at: Option<Timestamp>,
    /// Set when the job ends, completed or failed.
    pub completed_at: Option<Timestamp>,
}

/// The mathematical content of a [`Job`].
pub struct JobModel {
    pub id: Seq<char>,
    pub input_path: Seq<char>,
    pub output_path: Seq<char>,
    pub video_info: VideoModel,
    pub settings: SettingsModel,
    pub status: StatusModel,
    pub created_at: Timestamp,
    pub started_at: Option<Timestamp>,
    pub completed_at: Option<Timestamp>,
}

impl View for Job {
    type V = JobModel;

    open spec fn view(&self) -> JobModel {
        JobModel {
            id: self.id@,
            input_path: self.input_path@,
            output_path: self.output_path@,
            video_info: self.video_info@,
            settings: self.settings@,
            status: self.status@,
            created_at: self.created_at,
            started_at: self.started_at,
            completed_at: self.completed_at,
        }
    }
}

impl Clone for Job {
    fn clone(&self) -> (j: Self)
        ensures
            j@ == self@,
    {
        Job {
            id: self.id.clone(),
            input_path: self.input_path.clone(),
            output_path: self.output_path.clone(),
            video_info: self.video_info.clone(),
            settings: self.settings.clone(),
            status: self.status.clone(),
            created_at: self.created_at,
            started_at: self.started_at,
            completed_at: self.completed_at,
        }
    }
}

/// A job as it is when created at time `created_at` under the identity `id`: pending, never
/// started, never ended.
pub open spec fn new_job(
    id: Seq<char>,
    created_at: Timestamp,
    input_path: Seq<char>,
    output_path: Seq<char>,
    video_info: VideoModel,
    settings: SettingsModel,
) -> JobModel {
    JobModel {
        id,
        input_path,
        output_path,
        video_info,
        settings,
        status: StatusModel::Pending,
        created_at,
        started_at: None,
        completed_at: None,
    }
}

/// Trusted: `Uuid::new_v4` of the `uuid` crate, written out by the crate's `Display`, which
/// is the hyphenated form of 36 characters. Which identity comes out is left open. The call
/// panics where the operating system gives no random bytes.
#[verifier::external_body]
fn fresh_id() -> (id: String)
    ensures
        id@.len() == 36,
{
    uuid::Uuid::new_v4().to_string()
}

/// Trusted: `Utc::now` of the `chrono` crate, taken apart by `DateTime::timestamp` and
/// `DateTime::timestamp_subsec_nanos`. Nothing is claimed of the time that comes out. The
/// call panics where the system clock stands before the Unix epoch.
#[verifier::external_body]
pub(crate) fn current_time() -> (now: Timestamp) {
    let t = chrono::Utc::now();
    Timestamp { secs: t.timestamp(), nanos: t.timestamp_subsec_nanos() }
}

impl Job {
    /// A pending job under the given identity and creation time.
    pub fn with_identity(
        id: String,
        created_at: Timestamp,
        input_path: String,
        output_path: String,
        video_info: VideoInfo,
        settings: EncodingSettings,
    ) -> (job: Job)
        ensures
            job@ == new_job(
                id@,
                created_at,
                input_path@,
                output_path@,
                video_info@,
                settings@,
            ),
    {
        Job {
            id,
            input_path,
            output_path,
            video_info,
            settings,
            status: JobStatus::Pending,
            created_at,
            started_at: None,
            completed_at: None,
        }
    }

    /// A pending job under a fresh random identity, created now.
    pub fn new(
        input_path: String,
        output_path: String,
        video_info: VideoInfo,
        settings: EncodingSettings,
    ) -> (job: Job)
        ensures
            job@ == new_job(
                job@.id,
                job@.created_at,
                input_path@,
                output_path@,
                video_info@,
                settings@,
            ),
            job@.id.len() == 36,
    {
        Job::with_identity(
            fresh_id(),
            current_time(),
            input_path,
            output_path,
            video_info,
            settings,
        )
    }
}

} // verus!
