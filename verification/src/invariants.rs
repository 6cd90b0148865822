//! What holds of every queue, however it is driven.

use crate::encoder::SettingsModel;
use crate::gate::{count_current, first_free, lemma_first_free, lemma_grant, lemma_release, Slot};
use crate::job::{JobModel, StatusModel, Timestamp};
use crate::queue::{cancelled, find_job, lemma_find_job, lemma_find_job_is, software, step,
    with_status, ActionModel, EventModel, QueueModel, RunModel, RunStage};
use vstd::prelude::*;

verus! {

/// A job that the queue's own operations can have made: it has an end time only if it has
/// ended, completed or failed.
pub open spec fn times_fit(job: JobModel) -> bool {
    job.completed_at is Some ==> job.status is Completed || job.status is Failed
}

/// Putting another job under the same identity in a job's place moves no job's position.
pub proof fn lemma_find_job_after_update(
    jobs: Seq<JobModel>,
    at: int,
    job: JobModel,
    id: Seq<char>,
)
    requires
        0 <= at < jobs.len(),
        job.id == jobs[at].id,
    ensures
        find_job(jobs.update(at, job), id) == find_job(jobs, id),
{
    lemma_find_job(jobs, id);
    lemma_find_job_is(jobs.update(at, job), id, find_job(jobs, id));
}

/// One step of a run keeps every job in its place under its identity, keeps what it is and
/// how it is to be encoded, and changes no other job than the first with the run's
/// identity.
pub proof fn lemma_step_keeps_jobs(
    q: QueueModel,
    run: RunModel,
    event: EventModel,
    now: Timestamp,
    k: int,
)
    requires
        0 <= k < q.jobs.len(),
    ensures
        step(q, run, event, now).queue.jobs.len() == q.jobs.len(),
        step(q, run, event, now).queue.paused == q.paused,
        step(q, run, event, now).run.id == run.id,
        step(q, run, event, now).queue.jobs[k].id == q.jobs[k].id,
        step(q, run, event, now).queue.jobs[k].input_path == q.jobs[k].input_path,
        step(q, run, event, now).queue.jobs[k].output_path == q.jobs[k].output_path,
        step(q, run, event, now).queue.jobs[k].video_info == q.jobs[k].video_info,
        step(q, run, event, now).queue.jobs[k].settings == q.jobs[k].settings,
        step(q, run, event, now).queue.jobs[k].created_at == q.jobs[k].created_at,
        k != find_job(q.jobs, run.id) ==> step(q, run, event, now).queue.jobs[k] == q.jobs[k],
{
    lemma_find_job(q.jobs, run.id);
}

/// Statuses only move forward: whatever one step of a run changes, it changes along a
/// passage that the job's status allows.
pub proof fn lemma_step_follows_transitions(
    q: QueueModel,
    run: RunModel,
    event: EventModel,
    now: Timestamp,
    k: int,
)
    requires
        0 <= k < q.jobs.len(),
    ensures
        step(q, run, event, now).queue.jobs[k] == q.jobs[k] || q.jobs[k].status.may_become(
            step(q, run, event, now).queue.jobs[k].status,
        ),
{
    lemma_find_job(q.jobs, run.id);
}

/// To cancel a job is to ask it to pass to `Cancelled`, at whatever time.
pub proof fn lemma_cancel_is_a_status_update(jobs: Seq<JobModel>, id: Seq<char>, now: Timestamp)
    ensures
        cancelled(jobs, id) == with_status(jobs, id, StatusModel::Cancelled, now),
{
    lemma_find_job(jobs, id);
}

/// A job that has ended, or was cancelled, stays exactly as it is under every request for
/// a new status.
pub proof fn lemma_terminal_is_final_for_updates(
    jobs: Seq<JobModel>,
    id: Seq<char>,
    to: StatusModel,
    now: Timestamp,
    k: int,
)
    requires
        0 <= k < jobs.len(),
        jobs[k].status.is_terminal(),
    ensures
        with_status(jobs, id, to, now)[k] == jobs[k],
        cancelled(jobs, id)[k] == jobs[k],
{
    lemma_find_job(jobs, id);
}

/// A job that has ended, or was cancelled, stays exactly as it is under every step of
/// every run: no late progress report and no late result touches it.
pub proof fn lemma_terminal_is_final(
    q: QueueModel,
    run: RunModel,
    event: EventModel,
    now: Timestamp,
    k: int,
)
    requires
        0 <= k < q.jobs.len(),
        q.jobs[k].status.is_terminal(),
    ensures
        step(q, run, event, now).queue.jobs[k] == q.jobs[k],
{
    lemma_find_job(q.jobs, run.id);
}

/// The start time is set once: a step never changes a start time that is set, and sets one
/// only on the passage to `Processing`. The end time is set once: a step never changes an
/// end time that is set, and sets one only on the passage to `Completed` or `Failed`.
pub proof fn lemma_times_set_once(
    q: QueueModel,
    run: RunModel,
    event: EventModel,
    now: Timestamp,
    k: int,
)
    requires
        0 <= k < q.jobs.len(),
        times_fit(q.jobs[k]),
    ensures
        ({
            let before = q.jobs[k];
            let after = step(q, run, event, now).queue.jobs[k];
            &&& before.started_at is Some ==> after.started_at == before.started_at
            &&& before.started_at is None && after.started_at is Some ==> after.status is Processing
                && after.started_at == Some(now)
            &&& before.completed_at is Some ==> after.completed_at == before.completed_at
            &&& before.completed_at is None && after.completed_at is Some ==> (after.status
                is Completed || after.status is Failed) && after.completed_at == Some(now)
            &&& times_fit(after)
        }),
{
    lemma_find_job(q.jobs, run.id);
}

/// The limiter's bound survives every step of every run: the permits of the current limiter
/// that are out never exceed its limit.
pub proof fn lemma_step_keeps_bound(q: QueueModel, run: RunModel, event: EventModel, now: Timestamp)
    requires
        q.gate.bounded(),
    ensures
        step(q, run, event, now).queue.gate.bounded(),
{
    if q.gate.has_room() {
        lemma_grant(q.gate);
    }
    lemma_release(q.gate, first_free(q.gate.slots) as usize as int);
    lemma_release(q.gate.grant(), first_free(q.gate.slots) as usize as int);
    match run.stage {
        RunStage::Admitted { permit } => {
            lemma_release(q.gate, permit as int);
        },
        RunStage::Running { permit, hardware } => {
            lemma_release(q.gate, permit as int);
        },
        _ => {},
    }
}

/// No job is started without a permit: a waiting run whose step starts its job has taken a
/// permit of the current limiter, which had room for it.
pub proof fn lemma_start_takes_permit(q: QueueModel, run: RunModel, now: Timestamp)
    requires
        run.stage is Waiting,
        q.gate.bounded(),
        q.gate.slots.len() < usize::MAX,
        step(q, run, EventModel::Wake, now).action is Start,
    ensures
        ({
            let after = step(q, run, EventModel::Wake, now);
            &&& q.gate.has_room()
            &&& after.run.stage matches RunStage::Running { permit, hardware }
            &&& 0 <= permit < after.queue.gate.slots.len()
            &&& after.queue.gate.slots[permit as int] == Slot::Current
            &&& after.queue.gate.issued() == q.gate.issued() + 1
            &&& after.queue.gate.issued() <= after.queue.gate.limit
        }),
{
    lemma_first_free(q.gate.slots);
    lemma_grant(q.gate);
}

/// A job cancelled while it was pending is never started: under every event of every run
/// with its identity it stays cancelled, and the run is told neither to start nor to
/// retry.
pub proof fn lemma_cancelled_job_never_starts(
    q: QueueModel,
    id: Seq<char>,
    run: RunModel,
    event: EventModel,
    now: Timestamp,
)
    requires
        find_job(q.jobs, id) < q.jobs.len(),
        q.jobs[find_job(q.jobs, id)].status is Pending,
        run.id == id,
    ensures
        ({
            let at = find_job(q.jobs, id);
            let after = QueueModel { jobs: cancelled(q.jobs, id), ..q };
            let next = step(after, run, event, now);
            &&& after.jobs[at].status is Cancelled
            &&& next.queue.jobs[at] == after.jobs[at]
            &&& !(next.action is Start)
            &&& !(next.action is Retry)
            &&& !(next.action is Done)
        }),
{
    let at = find_job(q.jobs, id);
    lemma_find_job(q.jobs, id);
    let after = QueueModel { jobs: cancelled(q.jobs, id), ..q };
    lemma_find_job_after_update(q.jobs, at, after.jobs[at], id);
    lemma_find_job(after.jobs, id);
}

/// What a transcoder answers that fails exactly when hardware acceleration is asked for.
pub open spec fn fails_on_hardware(settings: SettingsModel, error: Seq<char>) -> EventModel {
    EventModel::Finished {
        failure: if settings.use_hardware {
            Some(error)
        } else {
            None
        },
    }
}

/// The settings that an action launches the transcoder with.
pub open spec fn launched_with(action: ActionModel) -> SettingsModel
    recommends
        action is Start || action is Retry,
{
    match action {
        ActionModel::Start { settings, .. } => settings,
        ActionModel::Retry { settings, .. } => settings,
        _ => arbitrary(),
    }
}

/// The software fallback: a pending job that asks for hardware acceleration, run against a
/// transcoder that fails exactly when hardware acceleration is asked for, is started with
/// its own settings, retried once without acceleration, and ends completed, with its
/// permit handed back.
pub proof fn lemma_hardware_failure_falls_back(
    q: QueueModel,
    id: Seq<char>,
    error: Seq<char>,
    t1: Timestamp,
    t2: Timestamp,
    t3: Timestamp,
)
    requires
        !q.paused,
        q.gate.has_room(),
        q.gate.slots.len() < usize::MAX,
        find_job(q.jobs, id) < q.jobs.len(),
        q.jobs[find_job(q.jobs, id)].status is Pending,
        q.jobs[find_job(q.jobs, id)].settings.use_hardware,
    ensures
        ({
            let job = q.jobs[find_job(q.jobs, id)];
            let first = step(q, RunModel { id, stage: RunStage::Waiting }, EventModel::Wake, t1);
            let second = step(
                first.queue,
                first.run,
                fails_on_hardware(launched_with(first.action), error),
                t2,
            );
            let third = step(
                second.queue,
                second.run,
                fails_on_hardware(launched_with(second.action), error),
                t3,
            );
            let done = StatusModel::Completed { output_path: job.output_path };
            &&& first.action == ActionModel::Start {
                input_path: job.input_path,
                output_path: job.output_path,
                settings: job.settings,
                total_duration: job.video_info.duration,
            }
            &&& second.action == ActionModel::Retry {
                input_path: job.input_path,
                output_path: job.output_path,
                settings: software(job.settings),
                total_duration: job.video_info.duration,
            }
            &&& third.action == ActionModel::Done { status: done }
            &&& third.queue.jobs[find_job(q.jobs, id)].status == done
            &&& third.queue.jobs[find_job(q.jobs, id)].started_at is Some
            &&& third.queue.jobs[find_job(q.jobs, id)].completed_at == Some(t3)
            &&& third.run.stage is Ended
            &&& third.queue.gate.issued() == q.gate.issued()
        }),
{
    let at = find_job(q.jobs, id);
    let job = q.jobs[at];
    lemma_find_job(q.jobs, id);
    lemma_first_free(q.gate.slots);
    lemma_grant(q.gate);
    let permit = first_free(q.gate.slots) as usize;
    let first = step(q, RunModel { id, stage: RunStage::Waiting }, EventModel::Wake, t1);
    assert(first.run.stage == RunStage::Running { permit, hardware: true });
    lemma_find_job_after_update(q.jobs, at, first.queue.jobs[at], id);
    let second = step(
        first.queue,
        first.run,
        fails_on_hardware(launched_with(first.action), error),
        t2,
    );
    assert(second.queue == first.queue);
    assert(second.run.stage == RunStage::Running { permit, hardware: false });
    let third = step(
        second.queue,
        second.run,
        fails_on_hardware(launched_with(second.action), error),
        t3,
    );
    lemma_release(first.queue.gate, permit as int);
    assert(first.queue.gate.slots[permit as int] == Slot::Current);
}

/// A batch under way: the queue, and the runs that drive its jobs.
pub struct Batch {
    pub queue: QueueModel,
    pub runs: Seq<RunModel>,
}

/// The batch after its run number `k` met an event.
pub open spec fn batch_step(b: Batch, k: int, event: EventModel, now: Timestamp) -> Batch {
    Batch {
        queue: step(b.queue, b.runs[k], event, now).queue,
        runs: b.runs.update(k, step(b.queue, b.runs[k], event, now).run),
    }
}

/// The permit that a run holds at a stage, if it holds one.
pub open spec fn permit_of(stage: RunStage) -> Option<usize> {
    match stage {
        RunStage::Admitted { permit } => Some(permit),
        RunStage::Running { permit, .. } => Some(permit),
        _ => None,
    }
}

/// The number of runs whose transcoder runs.
pub open spec fn count_running(runs: Seq<RunModel>) -> nat
    decreases runs.len(),
{
    if runs.len() == 0 {
        0
    } else {
        count_running(runs.drop_last()) + if runs.last().stage is Running {
            1nat
        } else {
            0nat
        }
    }
}

/// The number of runs that wait for a permit.
pub open spec fn count_waiting(runs: Seq<RunModel>) -> nat
    decreases runs.len(),
{
    if runs.len() == 0 {
        0
    } else {
        count_waiting(runs.drop_last()) + if runs.last().stage is Waiting {
            1nat
        } else {
            0nat
        }
    }
}

/// The number of runs that hold a permit below `n`.
pub open spec fn count_below(runs: Seq<RunModel>, n: int) -> nat
    decreases runs.len(),
{
    if runs.len() == 0 {
        0
    } else {
        count_below(runs.drop_last(), n) + if permit_of(runs.last().stage) is Some && permit_of(
            runs.last().stage,
        )->0 < n {
            1nat
        } else {
            0nat
        }
    }
}

/// The number of runs that hold the permit `n`.
pub open spec fn count_at(runs: Seq<RunModel>, n: int) -> nat
    decreases runs.len(),
{
    if runs.len() == 0 {
        0
    } else {
        count_at(runs.drop_last(), n) + if permit_of(runs.last().stage) == Some(n as usize) && 0
            <= n <= usize::MAX {
            1nat
        } else {
            0nat
        }
    }
}

/// Every run that holds a permit holds one that the current limiter issued and has not
/// got back.
pub open spec fn permits_valid(slots: Seq<Slot>, runs: Seq<RunModel>) -> bool {
    forall|k: int|
        0 <= k < runs.len() && permit_of(#[trigger] runs[k].stage) is Some ==> permit_of(
            runs[k].stage,
        )->0 < slots.len() && slots[permit_of(runs[k].stage)->0 as int] == Slot::Current
}

/// No two runs hold the same permit.
pub open spec fn permits_distinct(runs: Seq<RunModel>) -> bool {
    forall|j: int, k: int|
        0 <= j < runs.len() && 0 <= k < runs.len() && j != k && permit_of(
            #[trigger] runs[j].stage,
        ) is Some ==> permit_of(runs[j].stage) != permit_of(#[trigger] runs[k].stage)
}

/// A batch is in order where the limiter is within its limit, every permit that a run holds
/// is one of the current limiter's and no other run's, and the slot table has room left
/// for every run that still waits.
pub open spec fn in_order(b: Batch) -> bool {
    &&& b.queue.gate.bounded()
    &&& b.queue.gate.slots.len() + count_waiting(b.runs) <= usize::MAX
    &&& permits_valid(b.queue.gate.slots, b.runs)
    &&& permits_distinct(b.runs)
}

/// Putting a run in another's place changes the count of waiting runs by what the two
/// differ in.
pub proof fn lemma_count_waiting_update(runs: Seq<RunModel>, k: int, run: RunModel)
    requires
        0 <= k < runs.len(),
    ensures
        count_waiting(runs.update(k, run)) + (if runs[k].stage is Waiting {
            1nat
        } else {
            0nat
        }) == count_waiting(runs) + (if run.stage is Waiting {
            1nat
        } else {
            0nat
        }),
    decreases runs.len(),
{
    let after = runs.update(k, run);
    if k == runs.len() - 1 {
        assert(after.drop_last() == runs.drop_last());
    } else {
        lemma_count_waiting_update(runs.drop_last(), k, run);
        assert(after.drop_last() == runs.drop_last().update(k, run));
    }
}

/// The runs with a permit below `n + 1` are those with a permit below `n` and those with
/// the permit `n`.
pub proof fn lemma_count_below_next(runs: Seq<RunModel>, n: int)
    requires
        0 <= n,
    ensures
        count_below(runs, n + 1) == count_below(runs, n) + count_at(runs, n),
    decreases runs.len(),
{
    if runs.len() > 0 {
        lemma_count_below_next(runs.drop_last(), n);
    }
}

/// Where no run holds a permit, none is counted for it.
pub proof fn lemma_count_at_none(runs: Seq<RunModel>, n: int)
    requires
        forall|k: int| 0 <= k < runs.len() ==> permit_of(#[trigger] runs[k].stage) != Some(
            n as usize,
        ),
    ensures
        count_at(runs, n) == 0,
    decreases runs.len(),
{
    if runs.len() > 0 {
        let rest = runs.drop_last();
        assert forall|k: int| 0 <= k < rest.len() implies permit_of(#[trigger] rest[k].stage)
            != Some(n as usize) by {
            assert(rest[k] == runs[k]);
        }
        lemma_count_at_none(rest, n);
        assert(runs.last() == runs[runs.len() - 1]);
    }
}

/// Where a permit is counted, some run holds it.
pub proof fn lemma_count_at_some(runs: Seq<RunModel>, n: int) -> (k: int)
    requires
        count_at(runs, n) > 0,
    ensures
        0 <= k < runs.len(),
        0 <= n <= usize::MAX,
        permit_of(runs[k].stage) == Some(n as usize),
    decreases runs.len(),
{
    if permit_of(runs.last().stage) == Some(n as usize) && 0 <= n <= usize::MAX {
        runs.len() - 1
    } else {
        let k = lemma_count_at_some(runs.drop_last(), n);
        assert(runs.drop_last()[k] == runs[k]);
        k
    }
}

/// Where no two runs hold the same permit, no permit is counted twice.
pub proof fn lemma_count_at_most_once(runs: Seq<RunModel>, n: int)
    requires
        permits_distinct(runs),
    ensures
        count_at(runs, n) <= 1,
    decreases runs.len(),
{
    if runs.len() > 0 {
        let rest = runs.drop_last();
        let last = runs.len() - 1;
        assert forall|j: int, k: int|
            0 <= j < rest.len() && 0 <= k < rest.len() && j != k && permit_of(
                #[trigger] rest[j].stage,
            ) is Some implies permit_of(rest[j].stage) != permit_of(#[trigger] rest[k].stage) by {
            assert(rest[j] == runs[j]);
            assert(rest[k] == runs[k]);
        }
        if permit_of(runs.last().stage) == Some(n as usize) && 0 <= n <= usize::MAX {
            assert forall|k: int| 0 <= k < rest.len() implies permit_of(#[trigger] rest[k].stage)
                != Some(n as usize) by {
                assert(rest[k] == runs[k]);
                assert(permit_of(runs[last].stage) is Some);
                assert(permit_of(runs[last].stage) != permit_of(runs[k].stage));
            }
            lemma_count_at_none(rest, n);
        } else {
            lemma_count_at_most_once(rest, n);
        }
    }
}

/// No more runs hold a permit below `n` than the limiter has permits out among its first
/// `n` slots.
pub proof fn lemma_holders_within_issued(slots: Seq<Slot>, runs: Seq<RunModel>, n: int)
    requires
        permits_valid(slots, runs),
        permits_distinct(runs),
        0 <= n <= slots.len(),
    ensures
        count_below(runs, n) <= count_current(slots.take(n)),
    decreases n,
{
    if n == 0 {
        lemma_count_below_zero(runs);
    } else {
        lemma_holders_within_issued(slots, runs, n - 1);
        lemma_count_below_next(runs, n - 1);
        lemma_count_at_most_once(runs, n - 1);
        assert(slots.take(n).drop_last() == slots.take(n - 1));
        assert(slots.take(n).last() == slots[n - 1]);
        if count_at(runs, n - 1) > 0 {
            let k = lemma_count_at_some(runs, n - 1);
            assert(permit_of(runs[k].stage) is Some);
        }
    }
}

/// No run holds a permit below zero.
pub proof fn lemma_count_below_zero(runs: Seq<RunModel>)
    ensures
        count_below(runs, 0) == 0,
    decreases runs.len(),
{
    if runs.len() > 0 {
        lemma_count_below_zero(runs.drop_last());
    }
}

/// Every run whose transcoder runs holds a permit of the slot table.
pub proof fn lemma_running_hold_permits(slots: Seq<Slot>, runs: Seq<RunModel>)
    requires
        permits_valid(slots, runs),
    ensures
        count_running(runs) <= count_below(runs, slots.len() as int),
    decreases runs.len(),
{
    if runs.len() > 0 {
        let rest = runs.drop_last();
        assert forall|k: int|
            0 <= k < rest.len() && permit_of(#[trigger] rest[k].stage) is Some implies permit_of(
            rest[k].stage,
        )->0 < slots.len() && slots[permit_of(rest[k].stage)->0 as int] == Slot::Current by {
            assert(rest[k] == runs[k]);
        }
        lemma_running_hold_permits(slots, rest);
        assert(runs.last() == runs[runs.len() - 1]);
    }
}

/// In a batch that is in order, no more transcoders run at once than the concurrency limit
/// allows.
pub proof fn lemma_running_within_limit(b: Batch)
    requires
        in_order(b),
    ensures
        count_running(b.runs) <= b.queue.gate.limit,
{
    let slots = b.queue.gate.slots;
    lemma_running_hold_permits(slots, b.runs);
    lemma_holders_within_issued(slots, b.runs, slots.len() as int);
    assert(slots.take(slots.len() as int) == slots);
}

/// A batch that starts on a limiter with no permit out is in order, as long as its runs
/// can be counted by the machine.
pub proof fn lemma_fresh_batch_in_order(b: Batch)
    requires
        b.queue.gate.slots.len() == 0,
        b.runs.len() <= usize::MAX,
        forall|k: int| 0 <= k < b.runs.len() ==> (#[trigger] b.runs[k]).stage is Waiting,
    ensures
        in_order(b),
{
    lemma_count_waiting_bound(b.runs);
}

/// No more runs wait than there are runs.
pub proof fn lemma_count_waiting_bound(runs: Seq<RunModel>)
    ensures
        count_waiting(runs) <= runs.len(),
    decreases runs.len(),
{
    if runs.len() > 0 {
        lemma_count_waiting_bound(runs.drop_last());
    }
}

/// Where a run waits, at least one run is counted as waiting.
pub proof fn lemma_count_waiting_some(runs: Seq<RunModel>, k: int)
    requires
        0 <= k < runs.len(),
        runs[k].stage is Waiting,
    ensures
        count_waiting(runs) >= 1,
    decreases runs.len(),
{
    if k < runs.len() - 1 {
        lemma_count_waiting_some(runs.drop_last(), k);
    }
}

/// The concurrency bound: whatever event whichever run of a batch meets, the batch stays in
/// order, the limit stays what it was, and so no more transcoders run at once than the
/// limit allows.
pub proof fn lemma_batch_stays_within_limit(b: Batch, k: int, event: EventModel, now: Timestamp)
    requires
        in_order(b),
        0 <= k < b.runs.len(),
    ensures
        in_order(batch_step(b, k, event, now)),
        batch_step(b, k, event, now).queue.gate.limit == b.queue.gate.limit,
        count_running(batch_step(b, k, event, now).runs) <= b.queue.gate.limit,
{
    let after = batch_step(b, k, event, now);
    let out = step(b.queue, b.runs[k], event, now);
    let slots = b.queue.gate.slots;
    let free = first_free(slots);
    lemma_step_keeps_bound(b.queue, b.runs[k], event, now);
    lemma_first_free(slots);
    lemma_count_waiting_update(b.runs, k, out.run);
    if b.runs[k].stage is Waiting {
        lemma_count_waiting_some(b.runs, k);
    }
    assert(after.runs.len() == b.runs.len());
    assert(!(out.run.stage is Waiting) || out.run.stage == b.runs[k].stage);
    assert(after.queue.gate.slots.len() + count_waiting(after.runs) <= usize::MAX);
    assert forall|j: int|
        0 <= j < after.runs.len() && permit_of(#[trigger] after.runs[j].stage) is Some implies permit_of(
        after.runs[j].stage,
    )->0 < after.queue.gate.slots.len() && after.queue.gate.slots[permit_of(
        after.runs[j].stage,
    )->0 as int] == Slot::Current by {
        if j != k {
            assert(after.runs[j] == b.runs[j]);
            assert(permit_of(b.runs[j].stage) is Some);
            if permit_of(b.runs[k].stage) is Some {
                assert(permit_of(b.runs[j].stage) != permit_of(b.runs[k].stage));
            }
        }
    }
    assert forall|i: int, j: int|
        0 <= i < after.runs.len() && 0 <= j < after.runs.len() && i != j && permit_of(
            #[trigger] after.runs[i].stage,
        ) is Some implies permit_of(after.runs[i].stage) != permit_of(
        #[trigger] after.runs[j].stage,
    ) by {
        if i != k && j != k {
            assert(after.runs[i] == b.runs[i]);
            assert(after.runs[j] == b.runs[j]);
        } else if i == k {
            assert(after.runs[j] == b.runs[j]);
            if permit_of(b.runs[j].stage) is Some {
                assert(permit_of(b.runs[j].stage)->0 < slots.len());
                assert(slots[permit_of(b.runs[j].stage)->0 as int] == Slot::Current);
                if permit_of(b.runs[k].stage) is Some {
                    assert(permit_of(b.runs[j].stage) != permit_of(b.runs[k].stage));
                }
            }
        } else {
            assert(after.runs[i] == b.runs[i]);
            assert(permit_of(b.runs[i].stage)->0 < slots.len());
            assert(slots[permit_of(b.runs[i].stage)->0 as int] == Slot::Current);
            if permit_of(b.runs[k].stage) is Some {
                assert(permit_of(b.runs[i].stage) != permit_of(b.runs[k].stage));
            }
        }
    }
    lemma_running_within_limit(after);
}

} // verus!
