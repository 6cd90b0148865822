//! The job queue: the collection of jobs, the admission limiter and the pause flag, and the
//! decisions that drive each job from pending to its end.
//!
//! The queue is plain data with one owner. Whoever shares it between workers puts it behind
//! a lock and holds that lock for one call at a time. A worker drives one job by handing
//! [`JobQueue::process_job`] the events that it observes and carrying out the action that
//! comes back.

use crate::encoder::{EncodingSettings, SettingsModel};
use crate::gate::{first_free, AdmissionGate, GateModel};
use crate::job::{current_time, Job, JobModel, JobStatus, StatusModel, Timestamp};
use crate::seqs::{first_where, lemma_first_where, lemma_first_where_is};
use crate::text::{same_text, text_view};
use vstd::prelude::*;

verus! {

/// The jobs of a collection as models, in order.
pub open spec fn job_models(jobs: Seq<Job>) -> Seq<JobModel> {
    Seq::new(jobs.len(), |i: int| jobs[i]@)
}

/// The position of the first job with the given identity, or the number of jobs where
/// there is none.
pub open spec fn find_job(jobs: Seq<JobModel>, id: Seq<char>) -> int {
    first_where(jobs, |job: JobModel| job.id == id)
}

/// The first job with an identity is where a job has it and none before has.
pub proof fn lemma_find_job_is(jobs: Seq<JobModel>, id: Seq<char>, at: int)
    requires
        0 <= at <= jobs.len(),
        forall|k: int| 0 <= k < at ==> jobs[k].id != id,
        at < jobs.len() ==> jobs[at].id == id,
    ensures
        find_job(jobs, id) == at,
{
    lemma_first_where_is(jobs, |job: JobModel| job.id == id, at);
}

/// The first job with an identity has it, and no job before it has.
pub proof fn lemma_find_job(jobs: Seq<JobModel>, id: Seq<char>)
    ensures
        0 <= find_job(jobs, id) <= jobs.len(),
        find_job(jobs, id) < jobs.len() ==> jobs[find_job(jobs, id)].id == id,
        forall|k: int| 0 <= k < find_job(jobs, id) ==> jobs[k].id != id,
{
    lemma_first_where(jobs, |job: JobModel| job.id == id);
}

/// The job after it passed to status `to` at time `now`. The start time is set on the first
/// passage to `Processing`, the end time on the passage to `Completed` or `Failed`.
pub open spec fn moved(job: JobModel, to: StatusModel, now: Timestamp) -> JobModel {
    JobModel {
        id: job.id,
        input_path: job.input_path,
        output_path: job.output_path,
        video_info: job.video_info,
        settings: job.settings,
        status: to,
        created_at: job.created_at,
        started_at: if to is Processing && job.started_at is None {
            Some(now)
        } else {
            job.started_at
        },
        completed_at: if to is Completed || to is Failed {
            Some(now)
        } else {
            job.completed_at
        },
    }
}

/// The jobs after the first one with the given identity was asked to pass to status `to`.
/// Where there is no such job, or its status does not allow the passage, nothing changes.
pub open spec fn with_status(
    jobs: Seq<JobModel>,
    id: Seq<char>,
    to: StatusModel,
    now: Timestamp,
) -> Seq<JobModel> {
    let at = find_job(jobs, id);
    if at < jobs.len() && jobs[at].status.may_become(to) {
        jobs.update(at, moved(jobs[at], to, now))
    } else {
        jobs
    }
}

/// The jobs that have another identity than the given one, in order.
pub open spec fn without_job(jobs: Seq<JobModel>, id: Seq<char>) -> Seq<JobModel>
    decreases jobs.len(),
{
    if jobs.len() == 0 {
        Seq::empty()
    } else if jobs.last().id == id {
        without_job(jobs.drop_last(), id)
    } else {
        without_job(jobs.drop_last(), id).push(jobs.last())
    }
}

/// The identities of the pending jobs, in order.
pub open spec fn pending_ids(jobs: Seq<JobModel>) -> Seq<Seq<char>>
    decreases jobs.len(),
{
    if jobs.len() == 0 {
        Seq::empty()
    } else if jobs.last().status is Pending {
        pending_ids(jobs.drop_last()).push(jobs.last().id)
    } else {
        pending_ids(jobs.drop_last())
    }
}

/// The kinds of status that the statistics tell apart.
#[derive(Clone, Copy, PartialEq, Eq, Structural, Debug)]
pub enum StatusKind {
    Pending,
    Processing,
    Completed,
    Failed,
    Paused,
    Cancelled,
}

/// The kind of a status.
pub open spec fn kind_of(status: StatusModel) -> StatusKind {
    match status {
        StatusModel::Pending => StatusKind::Pending,
        StatusModel::Processing { .. } => StatusKind::Processing,
        StatusModel::Completed { .. } => StatusKind::Completed,
        StatusModel::Failed { .. } => StatusKind::Failed,
        StatusModel::Paused => StatusKind::Paused,
        StatusModel::Cancelled => StatusKind::Cancelled,
    }
}

/// The number of jobs whose status is of the given kind.
pub open spec fn count_kind(jobs: Seq<JobModel>, kind: StatusKind) -> nat
    decreases jobs.len(),
{
    if jobs.len() == 0 {
        0
    } else {
        count_kind(jobs.drop_last(), kind) + if kind_of(jobs.last().status) == kind {
            1nat
        } else {
            0nat
        }
    }
}

/// No more jobs are of a kind than there are jobs.
pub proof fn lemma_count_kind_bound(jobs: Seq<JobModel>, kind: StatusKind)
    ensures
        count_kind(jobs, kind) <= jobs.len(),
    decreases jobs.len(),
{
    if jobs.len() > 0 {
        lemma_count_kind_bound(jobs.drop_last(), kind);
    }
}

/// How many jobs the queue holds, and how many of them in each status. Jobs that were set
/// aside count in the total only.
#[derive(Clone, Copy, PartialEq, Eq, Structural, Debug)]
pub struct QueueStats {
    pub total: usize,
    pub pending: usize,
    pub processing: usize,
    pub completed: usize,
    pub failed: usize,
    pub cancelled: usize,
}

/// The statistics of a collection of jobs.
pub open spec fn stats_of(jobs: Seq<JobModel>) -> QueueStats {
    QueueStats {
        total: jobs.len() as usize,
        pending: count_kind(jobs, StatusKind::Pending) as usize,
        processing: count_kind(jobs, StatusKind::Processing) as usize,
        completed: count_kind(jobs, StatusKind::Completed) as usize,
        failed: count_kind(jobs, StatusKind::Failed) as usize,
        cancelled: count_kind(jobs, StatusKind::Cancelled) as usize,
    }
}

/// The mathematical content of a [`JobQueue`].
pub struct QueueModel {
    pub jobs: Seq<JobModel>,
    pub paused: bool,
    pub gate: GateModel,
}

/// The scheduler's state: the jobs, the admission limiter and the pause flag.
pub struct JobQueue {
    jobs: Vec<Job>,
    gate: AdmissionGate,
    paused: bool,
}

impl View for JobQueue {
    type V = QueueModel;

    closed spec fn view(&self) -> QueueModel {
        QueueModel { jobs: job_models(self.jobs@), paused: self.paused, gate: self.gate@ }
    }
}

/// The position of the first job with the given identity, or the number of jobs.
fn position_of(jobs: &Vec<Job>, id: &str) -> (at: usize)
    ensures
        at == find_job(job_models(jobs@), id@),
        at <= jobs.len(),
{
    let mut at: usize = 0;
    while at < jobs.len() && !same_text(jobs[at].id.as_str(), id)
        invariant
            at <= jobs.len(),
            forall|k: int| 0 <= k < at ==> job_models(jobs@)[k].id != id@,
        decreases jobs.len() - at,
    {
        at += 1;
    }
    proof {
        lemma_find_job_is(job_models(jobs@), id@, at as int);
    }
    at
}

/// A copy of a job in status `to`, with the times that the passage sets.
fn moved_job(job: &Job, to: JobStatus, now: Timestamp) -> (r: Job)
    ensures
        r@ == moved(job@, to@, now),
{
    let started_at = match (&to, job.started_at) {
        (JobStatus::Processing { .. }, None) => Some(now),
        _ => job.started_at,
    };
    let completed_at = match &to {
        JobStatus::Completed { .. } => Some(now),
        JobStatus::Failed { .. } => Some(now),
        _ => job.completed_at,
    };
    Job {
        id: job.id.clone(),
        input_path: job.input_path.clone(),
        output_path: job.output_path.clone(),
        video_info: job.video_info.clone(),
        settings: job.settings.clone(),
        status: to,
        created_at: job.created_at,
        started_at,
        completed_at,
    }
}

/// Puts `job` in the place of the job at `at`.
fn put_job(jobs: &mut Vec<Job>, at: usize, job: Job)
    requires
        at < old(jobs).len(),
    ensures
        job_models(final(jobs)@) == job_models(old(jobs)@).update(at as int, job@),
{
    jobs.set(at, job);
    assert(job_models(jobs@) =~= job_models(old(jobs)@).update(at as int, job@));
}

impl JobQueue {
    /// An empty queue that is not paused and admits `max_concurrent` jobs at once.
    pub fn new(max_concurrent: usize) -> (queue: Self)
        ensures
            queue@ == (QueueModel {
                jobs: Seq::empty(),
                paused: false,
                gate: GateModel { limit: max_concurrent as nat, slots: Seq::empty() },
            }),
    {
        let queue = JobQueue {
            jobs: Vec::new(),
            gate: AdmissionGate::new(max_concurrent),
            paused: false,
        };
        assert(job_models(queue.jobs@) =~= Seq::empty());
        queue
    }

    /// Replaces the admission limiter by a fresh one that admits `max_concurrent` jobs.
    /// Jobs that were admitted before keep their permits until they end; nothing is
    /// preempted, and those permits do not count against the new limit.
    pub fn set_max_concurrent(&mut self, max_concurrent: usize)
        ensures
            final(self)@ == (QueueModel {
                gate: old(self)@.gate.replace(max_concurrent as nat),
                ..old(self)@
            }),
            final(self)@.gate.bounded(),
    {
        self.gate.replace(max_concurrent);
    }

    /// The number of jobs that the current limiter admits at once.
    pub fn max_concurrent(&self) -> (n: usize)
        ensures
            n == self@.gate.limit,
    {
        self.gate.limit()
    }

    /// The number of permits of the current limiter that are out. It never exceeds the
    /// limit.
    pub fn permits_in_use(&self) -> (n: usize)
        ensures
            n == self@.gate.issued(),
            self@.gate.bounded(),
    {
        self.gate.issued()
    }

    /// Appends a job. Nothing is checked, not even that its identity is new.
    pub fn add_job(&mut self, job: Job)
        ensures
            final(self)@ == (QueueModel { jobs: old(self)@.jobs.push(job@), ..old(self)@ }),
    {
        self.jobs.push(job);
        assert(job_models(self.jobs@) =~= job_models(old(self).jobs@).push(job@));
    }

    /// A snapshot of all jobs, in order.
    pub fn get_jobs(&self) -> (jobs: Vec<Job>)
        ensures
            job_models(jobs@) == self@.jobs,
    {
        let mut jobs: Vec<Job> = Vec::new();
        let mut i: usize = 0;
        while i < self.jobs.len()
            invariant
                i <= self.jobs.len(),
                jobs.len() == i,
                forall|k: int| 0 <= k < i ==> jobs@[k]@ == self.jobs@[k]@,
            decreases self.jobs.len() - i,
        {
            jobs.push(self.jobs[i].clone());
            i += 1;
        }
        assert(job_models(jobs@) =~= job_models(self.jobs@));
        jobs
    }

    /// A snapshot of the first job with the given identity, if there is one.
    pub fn get_job(&self, id: &str) -> (job: Option<Job>)
        ensures
            find_job(self@.jobs, id@) < self@.jobs.len() ==> job is Some && job->0@
                == self@.jobs[find_job(self@.jobs, id@)],
            find_job(self@.jobs, id@) >= self@.jobs.len() ==> job is None,
    {
        let at = position_of(&self.jobs, id);
        if at < self.jobs.len() {
            Some(self.jobs[at].clone())
        } else {
            None
        }
    }

    /// Asks the first job with the given identity to pass to `status` at time `now`. The
    /// passage is made where the job's status allows it; otherwise, and where there is no
    /// such job, nothing changes.
    pub fn update_job_status_at(&mut self, id: &str, status: JobStatus, now: Timestamp)
        ensures
            final(self)@ == (QueueModel {
                jobs: with_status(old(self)@.jobs, id@, status@, now),
                ..old(self)@
            }),
    {
        let at = position_of(&self.jobs, id);
        if at < self.jobs.len() && self.jobs[at].status.may_become(&status) {
            let job = moved_job(&self.jobs[at], status, now);
            put_job(&mut self.jobs, at, job);
        }
    }

    /// Asks the first job with the given identity to pass to `status` now, by the system
    /// clock.
    pub fn update_job_status(&mut self, id: &str, status: JobStatus)
        ensures
            exists|now: Timestamp|
                final(self)@ == (QueueModel {
                    jobs: #[trigger] with_status(old(self)@.jobs, id@, status@, now),
                    ..old(self)@
                }),
    {
        let now = current_time();
        self.update_job_status_at(id, status, now);
    }

    /// Cancels the first job with the given identity. A job that has ended stays as it is.
    pub fn cancel_job(&mut self, id: &str)
        ensures
            final(self)@ == (QueueModel {
                jobs: cancelled(old(self)@.jobs, id@),
                ..old(self)@
            }),
    {
        let at = position_of(&self.jobs, id);
        if at < self.jobs.len() && self.jobs[at].status.may_become(&JobStatus::Cancelled) {
            // a cancellation records no time, so any time will do here
            let job = moved_job(&self.jobs[at], JobStatus::Cancelled, self.jobs[at].created_at);
            put_job(&mut self.jobs, at, job);
        }
    }

    /// Removes every job with the given identity.
    pub fn remove_job(&mut self, id: &str)
        ensures
            final(self)@ == (QueueModel { jobs: without_job(old(self)@.jobs, id@), ..old(self)@ }),
    {
        let ghost models = job_models(self.jobs@);
        let mut kept: Vec<Job> = Vec::new();
        let mut i: usize = 0;
        assert(models.take(0) =~= Seq::empty());
        assert(job_models(kept@) =~= Seq::empty());
        while i < self.jobs.len()
            invariant
                i <= self.jobs.len(),
                models == job_models(self.jobs@),
                job_models(kept@) == without_job(models.take(i as int), id@),
            decreases self.jobs.len() - i,
        {
            let ghost before = job_models(kept@);
            if !same_text(self.jobs[i].id.as_str(), id) {
                let job = self.jobs[i].clone();
                kept.push(job);
                assert(job_models(kept@) =~= before.push(models[i as int]));
            }
            i += 1;
            proof {
                let next = models.take(i as int);
                assert(next.drop_last() =~= models.take(i - 1));
                assert(next.last() == models[i - 1]);
            }
        }
        assert(models.take(self.jobs.len() as int) =~= models);
        self.jobs = kept;
    }

    /// Removes all jobs.
    pub fn clear_jobs(&mut self)
        ensures
            final(self)@ == (QueueModel { jobs: Seq::empty(), ..old(self)@ }),
    {
        self.jobs = Vec::new();
        assert(job_models(self.jobs@) =~= Seq::empty());
    }

    /// Pauses the queue: no job is started until it is resumed.
    pub fn pause(&mut self)
        ensures
            final(self)@ == (QueueModel { paused: true, ..old(self)@ }),
    {
        self.paused = true;
    }

    /// Resumes the queue.
    pub fn resume(&mut self)
        ensures
            final(self)@ == (QueueModel { paused: false, ..old(self)@ }),
    {
        self.paused = false;
    }

    /// Whether the queue is paused.
    pub fn is_paused(&self) -> (paused: bool)
        ensures
            paused == self@.paused,
    {
        self.paused
    }

    /// Counts the jobs, in all and by status.
    pub fn get_stats(&self) -> (stats: QueueStats)
        ensures
            stats == stats_of(self@.jobs),
    {
        let ghost models = job_models(self.jobs@);
        let mut stats = QueueStats {
            total: self.jobs.len(),
            pending: 0,
            processing: 0,
            completed: 0,
            failed: 0,
            cancelled: 0,
        };
        let mut i: usize = 0;
        assert(models.take(0) =~= Seq::empty());
        while i < self.jobs.len()
            invariant
                i <= self.jobs.len(),
                models == job_models(self.jobs@),
                stats.total == self.jobs.len(),
                stats.pending == count_kind(models.take(i as int), StatusKind::Pending),
                stats.processing == count_kind(models.take(i as int), StatusKind::Processing),
                stats.completed == count_kind(models.take(i as int), StatusKind::Completed),
                stats.failed == count_kind(models.take(i as int), StatusKind::Failed),
                stats.cancelled == count_kind(models.take(i as int), StatusKind::Cancelled),
            decreases self.jobs.len() - i,
        {
            proof {
                let next = models.take(i + 1);
                assert(next.drop_last() =~= models.take(i as int));
                assert(next.last() == models[i as int]);
                lemma_count_kind_bound(next, StatusKind::Pending);
                lemma_count_kind_bound(next, StatusKind::Processing);
                lemma_count_kind_bound(next, StatusKind::Completed);
                lemma_count_kind_bound(next, StatusKind::Failed);
                lemma_count_kind_bound(next, StatusKind::Cancelled);
            }
            match &self.jobs[i].status {
                JobStatus::Pending => {
                    stats.pending = stats.pending + 1;
                },
                JobStatus::Processing { .. } => {
                    stats.processing = stats.processing + 1;
                },
                JobStatus::Completed { .. } => {
                    stats.completed = stats.completed + 1;
                },
                JobStatus::Failed { .. } => {
                    stats.failed = stats.failed + 1;
                },
                JobStatus::Cancelled => {
                    stats.cancelled = stats.cancelled + 1;
                },
                JobStatus::Paused => {},
            }
            i += 1;
        }
        assert(models.take(self.jobs.len() as int) =~= models);
        stats
    }
}

/// The jobs after the first one with the given identity was cancelled. A job that has ended
/// stays as it is; no time is recorded.
pub open spec fn cancelled(jobs: Seq<JobModel>, id: Seq<char>) -> Seq<JobModel> {
    let at = find_job(jobs, id);
    if at < jobs.len() && !jobs[at].status.is_terminal() {
        jobs.update(
            at,
            JobModel {
                id: jobs[at].id,
                input_path: jobs[at].input_path,
                output_path: jobs[at].output_path,
                video_info: jobs[at].video_info,
                settings: jobs[at].settings,
                status: StatusModel::Cancelled,
                created_at: jobs[at].created_at,
                started_at: jobs[at].started_at,
                completed_at: jobs[at].completed_at,
            },
        )
    } else {
        jobs
    }
}

/// How far the run of one job has come.
#[derive(Clone, Copy, PartialEq, Eq, Structural, Debug)]
pub enum RunStage {
    /// No permit yet.
    Waiting,
    /// A permit is held; the job is not started yet.
    Admitted { permit: usize },
    /// The transcoder runs, with or without a wish for hardware acceleration.
    Running { permit: usize, hardware: bool },
    /// The run is over and its permit handed back.
    Ended,
}

/// The run of one job through the queue: which job, and how far it has come.
#[derive(Debug)]
pub struct JobRun {
    pub id: String,
    pub stage: RunStage,
}

/// The mathematical content of a [`JobRun`].
pub struct RunModel {
    pub id: Seq<char>,
    pub stage: RunStage,
}

impl View for JobRun {
    type V = RunModel;

    open spec fn view(&self) -> RunModel {
        RunModel { id: self.id@, stage: self.stage }
    }
}

/// What a worker observed for its job.
#[derive(Debug)]
pub enum JobEvent {
    /// Time to look again: at the start, after a permit was handed back, after a pause.
    Wake,
    /// The transcoder reported progress, in hundredths of a percent.
    Progress { percentage: u32 },
    /// The transcoder has exited and its output is drained; `failure` says why it failed,
    /// and is `None` where it succeeded.
    Finished { failure: Option<String> },
}

/// The mathematical content of a [`JobEvent`].
pub enum EventModel {
    Wake,
    Progress { percentage: u32 },
    Finished { failure: Option<Seq<char>> },
}

impl View for JobEvent {
    type V = EventModel;

    open spec fn view(&self) -> EventModel {
        match self {
            JobEvent::Wake => EventModel::Wake,
            JobEvent::Progress { percentage } => EventModel::Progress { percentage: *percentage },
            JobEvent::Finished { failure } => EventModel::Finished {
                failure: text_view(*failure),
            },
        }
    }
}

/// What the worker is to do next.
#[derive(Debug)]
pub enum JobAction {
    /// No permit is to be had. Wait until one is handed back, then wake the run again.
    AwaitPermit,
    /// The queue is paused. Wake the run again after a short while.
    AwaitResume,
    /// The job is now being processed: launch the transcoder and report the new status.
    Start { input_path: String, output_path: String, settings: EncodingSettings, total_duration: u64 },
    /// The attempt with hardware acceleration failed: launch the transcoder again with
    /// these settings, which ask for none.
    Retry { input_path: String, output_path: String, settings: EncodingSettings, total_duration: u64 },
    /// Carry on supervising the transcoder.
    Continue,
    /// The job has ended in `status`: report it. The run is over.
    Done { status: JobStatus },
    /// The run is over with nothing to report: the job is gone, or was not pending when its
    /// turn came, or left processing before the transcoder exited.
    Skip,
    /// The event does not belong to the run's stage. Nothing changed.
    Unexpected,
}

/// The mathematical content of a [`JobAction`].
pub enum ActionModel {
    AwaitPermit,
    AwaitResume,
    Start { input_path: Seq<char>, output_path: Seq<char>, settings: SettingsModel, total_duration: u64 },
    Retry { input_path: Seq<char>, output_path: Seq<char>, settings: SettingsModel, total_duration: u64 },
    Continue,
    Done { status: StatusModel },
    Skip,
    Unexpected,
}

impl View for JobAction {
    type V = ActionModel;

    open spec fn view(&self) -> ActionModel {
        match self {
            JobAction::AwaitPermit => ActionModel::AwaitPermit,
            JobAction::AwaitResume => ActionModel::AwaitResume,
            JobAction::Start { input_path, output_path, settings, total_duration } => {
                ActionModel::Start {
                    input_path: input_path@,
                    output_path: output_path@,
                    settings: settings@,
                    total_duration: *total_duration,
                }
            },
            JobAction::Retry { input_path, output_path, settings, total_duration } => {
                ActionModel::Retry {
                    input_path: input_path@,
                    output_path: output_path@,
                    settings: settings@,
                    total_duration: *total_duration,
                }
            },
            JobAction::Continue => ActionModel::Continue,
            JobAction::Done { status } => ActionModel::Done { status: status@ },
            JobAction::Skip => ActionModel::Skip,
            JobAction::Unexpected => ActionModel::Unexpected,
        }
    }
}

/// The queue, the run and the action after one event.
pub struct Outcome {
    pub queue: QueueModel,
    pub run: RunModel,
    pub action: ActionModel,
}

/// The settings without the wish for hardware acceleration.
pub open spec fn software(settings: SettingsModel) -> SettingsModel {
    SettingsModel { use_hardware: false, ..settings }
}

/// A share done, never above the whole.
pub open spec fn clamped(percentage: u32) -> u32 {
    if percentage > 10000 {
        10000
    } else {
        percentage
    }
}

/// The jobs after the first one with the given identity reported progress. Only a job that
/// is being processed takes the report.
pub open spec fn progressed(jobs: Seq<JobModel>, id: Seq<char>, percentage: u32, now: Timestamp) -> Seq<
    JobModel,
> {
    let at = find_job(jobs, id);
    if at < jobs.len() && jobs[at].status is Processing {
        jobs.update(
            at,
            moved(jobs[at], StatusModel::Processing { progress: clamped(percentage) }, now),
        )
    } else {
        jobs
    }
}

/// What happens to a run that holds a permit when it looks at the queue. While the queue is
/// paused it keeps the permit and waits. Otherwise the first job with its identity is
/// started if it is pending; if it is not, or is gone, the permit goes back and the run is
/// over.
pub open spec fn take_turn(q: QueueModel, id: Seq<char>, permit: usize, now: Timestamp) -> Outcome {
    let at = find_job(q.jobs, id);
    if q.paused {
        Outcome {
            queue: q,
            run: RunModel { id, stage: RunStage::Admitted { permit } },
            action: ActionModel::AwaitResume,
        }
    } else if at < q.jobs.len() && q.jobs[at].status is Pending {
        Outcome {
            queue: QueueModel {
                jobs: q.jobs.update(
                    at,
                    moved(q.jobs[at], StatusModel::Processing { progress: 0 }, now),
                ),
                ..q
            },
            run: RunModel {
                id,
                stage: RunStage::Running { permit, hardware: q.jobs[at].settings.use_hardware },
            },
            action: ActionModel::Start {
                input_path: q.jobs[at].input_path,
                output_path: q.jobs[at].output_path,
                settings: q.jobs[at].settings,
                total_duration: q.jobs[at].video_info.duration,
            },
        }
    } else {
        Outcome {
            queue: QueueModel { gate: q.gate.release(permit as int), ..q },
            run: RunModel { id, stage: RunStage::Ended },
            action: ActionModel::Skip,
        }
    }
}

/// What happens when the transcoder has exited. Where the job is no longer being processed
/// the result is dropped. A failure of an attempt with hardware acceleration is answered by
/// one more attempt without, the permit kept. Any other result ends the job, completed or
/// failed, and the permit goes back.
pub open spec fn conclude(
    q: QueueModel,
    id: Seq<char>,
    permit: usize,
    hardware: bool,
    failure: Option<Seq<char>>,
    now: Timestamp,
) -> Outcome {
    let at = find_job(q.jobs, id);
    let over = RunModel { id, stage: RunStage::Ended };
    if !(at < q.jobs.len() && q.jobs[at].status is Processing) {
        Outcome {
            queue: QueueModel { gate: q.gate.release(permit as int), ..q },
            run: over,
            action: ActionModel::Skip,
        }
    } else {
        match failure {
            Some(error) => if hardware {
                Outcome {
                    queue: q,
                    run: RunModel { id, stage: RunStage::Running { permit, hardware: false } },
                    action: ActionModel::Retry {
                        input_path: q.jobs[at].input_path,
                        output_path: q.jobs[at].output_path,
                        settings: software(q.jobs[at].settings),
                        total_duration: q.jobs[at].video_info.duration,
                    },
                }
            } else {
                Outcome {
                    queue: QueueModel {
                        jobs: q.jobs.update(
                            at,
                            moved(q.jobs[at], StatusModel::Failed { error }, now),
                        ),
                        gate: q.gate.release(permit as int),
                        ..q
                    },
                    run: over,
                    action: ActionModel::Done { status: StatusModel::Failed { error } },
                }
            },
            None => Outcome {
                queue: QueueModel {
                    jobs: q.jobs.update(
                        at,
                        moved(
                            q.jobs[at],
                            StatusModel::Completed { output_path: q.jobs[at].output_path },
                            now,
                        ),
                    ),
                    gate: q.gate.release(permit as int),
                    ..q
                },
                run: over,
                action: ActionModel::Done {
                    status: StatusModel::Completed { output_path: q.jobs[at].output_path },
                },
            },
        }
    }
}

/// The queue, the run and the action after the run met the event at time `now`.
///
/// A waiting run that wakes takes a permit if one is to be had and goes on as an admitted
/// run does; else it waits on. A running run records progress, and ends or tries again when
/// the transcoder has exited. An event that does not belong to the run's stage changes
/// nothing.
pub open spec fn step(q: QueueModel, run: RunModel, event: EventModel, now: Timestamp) -> Outcome {
    match run.stage {
        RunStage::Waiting => match event {
            EventModel::Wake => if q.gate.has_room() {
                take_turn(
                    QueueModel { gate: q.gate.grant(), ..q },
                    run.id,
                    first_free(q.gate.slots) as usize,
                    now,
                )
            } else {
                Outcome { queue: q, run, action: ActionModel::AwaitPermit }
            },
            _ => Outcome { queue: q, run, action: ActionModel::Unexpected },
        },
        RunStage::Admitted { permit } => match event {
            EventModel::Wake => take_turn(q, run.id, permit, now),
            _ => Outcome { queue: q, run, action: ActionModel::Unexpected },
        },
        RunStage::Running { permit, hardware } => match event {
            EventModel::Progress { percentage } => Outcome {
                queue: QueueModel { jobs: progressed(q.jobs, run.id, percentage, now), ..q },
                run,
                action: ActionModel::Continue,
            },
            EventModel::Finished { failure } => conclude(
                q,
                run.id,
                permit,
                hardware,
                failure,
                now,
            ),
            EventModel::Wake => Outcome { queue: q, run, action: ActionModel::Unexpected },
        },
        RunStage::Ended => Outcome { queue: q, run, action: ActionModel::Unexpected },
    }
}

/// One waiting run for each of the identities, in order.
pub open spec fn waiting_runs(ids: Seq<Seq<char>>) -> Seq<RunModel> {
    Seq::new(ids.len(), |i: int| RunModel { id: ids[i], stage: RunStage::Waiting })
}

/// The runs of a batch as models, in order.
pub open spec fn run_models(runs: Seq<JobRun>) -> Seq<RunModel> {
    Seq::new(runs.len(), |i: int| runs[i]@)
}

impl JobQueue {
    /// Plans a batch: one waiting run for every job that is pending now, in the order of
    /// the queue. Jobs added afterwards are not part of it.
    pub fn process_all(&self) -> (runs: Vec<JobRun>)
        ensures
            run_models(runs@) == waiting_runs(pending_ids(self@.jobs)),
    {
        let ghost models = job_models(self.jobs@);
        let mut runs: Vec<JobRun> = Vec::new();
        let mut i: usize = 0;
        assert(models.take(0) =~= Seq::empty());
        assert(run_models(runs@) =~= waiting_runs(pending_ids(models.take(0))));
        while i < self.jobs.len()
            invariant
                i <= self.jobs.len(),
                models == job_models(self.jobs@),
                run_models(runs@) == waiting_runs(pending_ids(models.take(i as int))),
            decreases self.jobs.len() - i,
        {
            let ghost before = run_models(runs@);
            let ghost ids = pending_ids(models.take(i as int));
            proof {
                let next = models.take(i + 1);
                assert(next.drop_last() =~= models.take(i as int));
                assert(next.last() == models[i as int]);
            }
            if matches!(self.jobs[i].status, JobStatus::Pending) {
                let run = JobRun { id: self.jobs[i].id.clone(), stage: RunStage::Waiting };
                let ghost added = run@;
                assert(added == (RunModel { id: models[i as int].id, stage: RunStage::Waiting }));
                runs.push(run);
                assert(run_models(runs@) =~= before.push(added));
                assert(before.push(added) =~= waiting_runs(ids.push(models[i as int].id)));
            }
            i += 1;
        }
        assert(models.take(self.jobs.len() as int) =~= models);
        runs
    }

    fn admit_run(&mut self, run: &mut JobRun, permit: usize, now: Timestamp) -> (action: JobAction)
        ensures
            final(run).id == old(run).id,
            (Outcome { queue: final(self)@, run: final(run)@, action: action@ }) == take_turn(
                old(self)@,
                old(run)@.id,
                permit,
                now,
            ),
    {
        if self.paused {
            run.stage = RunStage::Admitted { permit };
            return JobAction::AwaitResume;
        }
        let at = position_of(&self.jobs, run.id.as_str());
        if at < self.jobs.len() && matches!(self.jobs[at].status, JobStatus::Pending) {
            let job = moved_job(&self.jobs[at], JobStatus::Processing { progress: 0 }, now);
            let action = JobAction::Start {
                input_path: job.input_path.clone(),
                output_path: job.output_path.clone(),
                settings: job.settings.clone(),
                total_duration: job.video_info.duration,
            };
            run.stage = RunStage::Running { permit, hardware: job.settings.use_hardware };
            put_job(&mut self.jobs, at, job);
            action
        } else {
            self.gate.release(permit);
            run.stage = RunStage::Ended;
            JobAction::Skip
        }
    }

    fn conclude_run(
        &mut self,
        run: &mut JobRun,
        permit: usize,
        hardware: bool,
        failure: Option<String>,
        now: Timestamp,
    ) -> (action: JobAction)
        ensures
            final(run).id == old(run).id,
            (Outcome { queue: final(self)@, run: final(run)@, action: action@ }) == conclude(
                old(self)@,
                old(run)@.id,
                permit,
                hardware,
                text_view(failure),
                now,
            ),
    {
        let at = position_of(&self.jobs, run.id.as_str());
        if !(at < self.jobs.len() && matches!(self.jobs[at].status, JobStatus::Processing { .. })) {
            self.gate.release(permit);
            run.stage = RunStage::Ended;
            return JobAction::Skip;
        }
        let status = match failure {
            Some(error) => {
                if hardware {
                    let job = &self.jobs[at];
                    let mut settings = job.settings.clone();
                    settings.use_hardware = false;
                    run.stage = RunStage::Running { permit, hardware: false };
                    return JobAction::Retry {
                        input_path: job.input_path.clone(),
                        output_path: job.output_path.clone(),
                        settings,
                        total_duration: job.video_info.duration,
                    };
                }
                JobStatus::Failed { error }
            },
            None => JobStatus::Completed { output_path: self.jobs[at].output_path.clone() },
        };
        let job = moved_job(&self.jobs[at], status.clone(), now);
        put_job(&mut self.jobs, at, job);
        self.gate.release(permit);
        run.stage = RunStage::Ended;
        JobAction::Done { status }
    }

    /// Takes the run of one job one step on: `event` is what the worker observed, `now` the
    /// time of it, and the result what the worker is to do next.
    pub fn process_job_at(&mut self, run: &mut JobRun, event: JobEvent, now: Timestamp) -> (action:
        JobAction)
        ensures
            (Outcome { queue: final(self)@, run: final(run)@, action: action@ }) == step(
                old(self)@,
                old(run)@,
                event@,
                now,
            ),
            final(self)@.gate.bounded(),
    {
        let action = match run.stage {
            RunStage::Waiting => match event {
                JobEvent::Wake => match self.gate.try_acquire() {
                    Some(permit) => self.admit_run(run, permit, now),
                    None => JobAction::AwaitPermit,
                },
                _ => JobAction::Unexpected,
            },
            RunStage::Admitted { permit } => match event {
                JobEvent::Wake => self.admit_run(run, permit, now),
                _ => JobAction::Unexpected,
            },
            RunStage::Running { permit, hardware } => match event {
                JobEvent::Progress { percentage } => {
                    let share: u32 = if percentage > 10000 {
                        10000
                    } else {
                        percentage
                    };
                    let at = position_of(&self.jobs, run.id.as_str());
                    if at < self.jobs.len() && matches!(
                        self.jobs[at].status,
                        JobStatus::Processing { .. }
                    ) {
                        let job = moved_job(
                            &self.jobs[at],
                            JobStatus::Processing { progress: share },
                            now,
                        );
                        put_job(&mut self.jobs, at, job);
                    }
                    JobAction::Continue
                },
                JobEvent::Finished { failure } => self.conclude_run(
                    run,
                    permit,
                    hardware,
                    failure,
                    now,
                ),
                JobEvent::Wake => JobAction::Unexpected,
            },
            RunStage::Ended => JobAction::Unexpected,
        };
        proof {
            use_type_invariant(&self.gate);
            self.gate.lemma_bounded();
        }
        action
    }

    /// Takes the run of one job one step on, at the time that the system clock shows.
    pub fn process_job(&mut self, run: &mut JobRun, event: JobEvent) -> (action: JobAction)
        ensures
            exists|now: Timestamp|
                (Outcome { queue: final(self)@, run: final(run)@, action: action@ })
                    == #[trigger] step(old(self)@, old(run)@, event@, now),
            final(self)@.gate.bounded(),
    {
        let now = current_time();
        self.process_job_at(run, event, now)
    }
}

} // verus!
