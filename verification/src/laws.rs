//! What holds of the supervisor whatever happens to it, stated over the
//! models of its parts and proved from their definitions.

use crate::clock::{elapsed, Moment};
use crate::dispatcher::{clamp_progress, stopped_error, DispatcherView, PROGRESS_FULL};
use crate::heartbeat::{HeartbeatCheck, HeartbeatView};
use crate::manager::{
    backoff_seconds, evicted, in_time_order, lemma_recorded_in_time_order, next_backoff_step,
    restart_instant, ManagerView, PollDecision, RestartDecision, StartDecision, WorkerState,
    CIRCUIT_BREAKER_MAX_RESTARTS, CIRCUIT_BREAKER_WINDOW, MAX_BACKOFF_STEP,
};
use crate::models::TaskStatus;
use crate::protocol::{Envelope, TaskPayload, WorkerPayload};
use serde_json::Value;
use vstd::prelude::*;

verus! {

/// Starting is idempotent: while a worker is attached and the circuit
/// breaker is closed, `start` spawns nothing and changes nothing, the
/// session least of all. So of two starts in a row, with the worker of the
/// first attached in between, only the first begins a session.
pub proof fn law_start_is_idempotent(m: ManagerView, first: u64, second: u64)
    ensures
        m.child && m.state != WorkerState::CircuitBroken ==> m.start_decision()
            == StartDecision::AlreadyRunning && m.after_start(second) == m,
        m.start_decision() is Spawn ==> {
            let started = m.after_start(first);
            let running = started.after_child_spawned(started.session_id);
            &&& running.child
            &&& running.start_decision() == StartDecision::AlreadyRunning
            &&& running.after_start(second) == running
            &&& running.after_start(second).session_id == started.session_id
        },
{
}

/// Sessions are isolated: a message that is handled for another session
/// than the current one changes nothing. After a stop that holds of every
/// message of the session that was stopped, and a restart that such a
/// message asks for is not scheduled either.
pub proof fn law_stale_sessions_change_nothing(
    m: ManagerView,
    stopped_at: Moment,
    session_id: u64,
    envelope: Envelope<WorkerPayload>,
    now: Moment,
)
    ensures
        session_id != m.session_id ==> m.after_envelope(session_id, envelope, now) == m,
        m.after_stop(stopped_at).after_envelope(m.session_id, envelope, now) == m.after_stop(
            stopped_at,
        ),
        m.after_stop(stopped_at).after_schedule_restart(now.monotonic) == m.after_stop(
            stopped_at,
        ),
        m.after_stop(stopped_at).restart_decision(now.monotonic) == RestartDecision::Ignored,
{
}

/// A message of another protocol version changes nothing, whatever it
/// speaks of; it only asks for a restart.
pub proof fn law_other_versions_change_nothing(
    m: ManagerView,
    session_id: u64,
    envelope: Envelope<WorkerPayload>,
    now: Moment,
)
    requires
        envelope.v@ != crate::protocol::IPC_VERSION@,
    ensures
        m.after_envelope(session_id, envelope, now) == m,
        m.restart_reason(session_id, envelope) is Some,
{
}

/// Terminal states are absorbing in the registry: a task that is completed,
/// failed or cancelled stays exactly as it is, and out of flight, whatever
/// is done to the registry afterwards and whichever task it is addressed to:
/// a submission, a start, a progress report, a result, a cancellation, or
/// the abandoning of the tasks in flight.
pub proof fn law_terminal_states_are_absorbing(
    d: DispatcherView,
    id: Seq<char>,
    about: Seq<char>,
    task_type: Seq<char>,
    project_id: Seq<char>,
    progress: i64,
    message: Option<Seq<char>>,
    status: Seq<char>,
    output: Option<Value>,
    error: Option<Seq<char>>,
    now: i64,
)
    requires
        d.valid(),
        d.tasks.contains_key(id),
        d.tasks[id].status.is_terminal(),
    ensures
        !d.in_flight.contains(id),
        d.registered(about, task_type, project_id, now).tasks[id] == d.tasks[id],
        d.started(about, now).tasks[id] == d.tasks[id],
        d.progressed(about, progress, message, now).tasks[id] == d.tasks[id],
        d.finished(about, status, output, error, now).tasks[id] == d.tasks[id],
        d.cancelled(about, now).tasks[id] == d.tasks[id],
        d.all_abandoned(now).tasks[id] == d.tasks[id],
        !d.registered(about, task_type, project_id, now).in_flight.contains(id),
        !d.started(about, now).in_flight.contains(id),
        !d.progressed(about, progress, message, now).in_flight.contains(id),
        !d.finished(about, status, output, error, now).in_flight.contains(id),
        !d.cancelled(about, now).in_flight.contains(id),
        !d.all_abandoned(now).in_flight.contains(id),
        d.registered(id, task_type, project_id, now) == d,
        d.started(id, now) == d,
        d.progressed(id, progress, message, now) == d,
        d.finished(id, status, output, error, now) == d,
        d.cancelled(id, now) == d,
{
}

/// Terminal states are absorbing in the supervisor: a task that is
/// completed, failed or cancelled stays exactly as it is through every step
/// of the supervisor, whatever message, submission or cancellation the step
/// handles.
pub proof fn law_terminal_tasks_outlast_every_step(
    m: ManagerView,
    id: Seq<char>,
    session_id: u64,
    envelope: Envelope<WorkerPayload>,
    payload: TaskPayload,
    task_id: Seq<char>,
    now: Moment,
)
    requires
        m.valid(),
        m.dispatcher.tasks.contains_key(id),
        m.dispatcher.tasks[id].status.is_terminal(),
    ensures
        m.after_envelope(session_id, envelope, now).dispatcher.tasks[id] == m.dispatcher.tasks[id],
        m.after_submitted(payload, now.wall).dispatcher.tasks[id] == m.dispatcher.tasks[id],
        m.after_cancelled(task_id, now.wall).dispatcher.tasks[id] == m.dispatcher.tasks[id],
        m.after_stop(now).dispatcher.tasks[id] == m.dispatcher.tasks[id],
        m.after_restart(now).dispatcher.tasks[id] == m.dispatcher.tasks[id],
        m.after_start(now.monotonic).dispatcher == m.dispatcher,
        m.after_spawn_failed(session_id).dispatcher == m.dispatcher,
        m.after_child_spawned(session_id).dispatcher == m.dispatcher,
        m.after_schedule_restart(now.monotonic).dispatcher == m.dispatcher,
        m.after_restart_due(session_id).dispatcher == m.dispatcher,
        m.after_mark_unhealthy(session_id).dispatcher == m.dispatcher,
        m.after_poll(session_id, now.monotonic).dispatcher == m.dispatcher,
        m.marked_ready().dispatcher == m.dispatcher,
{
}

/// A submission files its task: unless a task in a terminal state is filed
/// under its id already, the task is queued under the type and the project
/// of the submission, with no progress made, and is in flight; the
/// supervisor is busy, and in its session as before. No other task changes.
pub proof fn law_submission_files_the_task(
    m: ManagerView,
    payload: TaskPayload,
    other: Seq<char>,
    now: i64,
)
    requires
        !m.dispatcher.absorbs(payload.task_id@),
    ensures
        ({
            let id = payload.task_id@;
            let after = m.after_submitted(payload, now);
            let task = after.dispatcher.tasks[id];
            &&& after.dispatcher.tasks.contains_key(id)
            &&& after.dispatcher.in_flight.contains(id)
            &&& task.task_id == id
            &&& task.task_type == payload.task_type@
            &&& task.project_id == payload.project_id@
            &&& task.status == TaskStatus::Pending
            &&& task.progress == 0
            &&& task.message == Some("queued"@)
            &&& task.output is None
            &&& task.error is None
            &&& task.created_at == now
            &&& task.updated_at == now
            &&& after.state == WorkerState::Busy
            &&& after.session_id == m.session_id
            &&& after.child == m.child
            &&& other != id ==> {
                &&& after.dispatcher.tasks.contains_key(other) == m.dispatcher.tasks.contains_key(
                    other,
                )
                &&& after.dispatcher.in_flight.contains(other) == m.dispatcher.in_flight.contains(
                    other,
                )
                &&& m.dispatcher.tasks.contains_key(other) ==> after.dispatcher.tasks[other]
                    == m.dispatcher.tasks[other]
            }
        }),
{
}

/// The tasks of a valid registry keep to the data model: a completed task
/// has all of its progress and no error; a task that has reached a terminal
/// state is not in flight; and whatever is done to the registry at `now`
/// leaves a task's time of update as it is or sets it to `now`, so that it
/// never runs backwards while the wall clock does not. The time at which a
/// task was first filed changes only when a new submission replaces it.
pub proof fn law_tasks_keep_to_the_data_model(
    d: DispatcherView,
    id: Seq<char>,
    about: Seq<char>,
    progress: i64,
    message: Option<Seq<char>>,
    status: Seq<char>,
    output: Option<Value>,
    error: Option<Seq<char>>,
    now: i64,
)
    requires
        d.valid(),
        d.tasks.contains_key(id),
    ensures
        d.tasks[id].status == TaskStatus::Completed ==> d.tasks[id].progress == PROGRESS_FULL
            && d.tasks[id].error is None,
        d.tasks[id].status.is_terminal() ==> !d.in_flight.contains(id),
        d.started(about, now).tasks[id].updated_at == d.tasks[id].updated_at || d.started(
            about,
            now,
        ).tasks[id].updated_at == now,
        d.progressed(about, progress, message, now).tasks[id].updated_at
            == d.tasks[id].updated_at || d.progressed(
            about,
            progress,
            message,
            now,
        ).tasks[id].updated_at == now,
        d.finished(about, status, output, error, now).tasks[id].updated_at
            == d.tasks[id].updated_at || d.finished(
            about,
            status,
            output,
            error,
            now,
        ).tasks[id].updated_at == now,
        d.cancelled(about, now).tasks[id].updated_at == d.tasks[id].updated_at || d.cancelled(
            about,
            now,
        ).tasks[id].updated_at == now,
        d.all_abandoned(now).tasks[id].updated_at == d.tasks[id].updated_at || d.all_abandoned(
            now,
        ).tasks[id].updated_at == now,
        d.started(about, now).tasks[id].created_at == d.tasks[id].created_at,
        d.progressed(about, progress, message, now).tasks[id].created_at
            == d.tasks[id].created_at,
        d.finished(about, status, output, error, now).tasks[id].created_at
            == d.tasks[id].created_at,
        d.cancelled(about, now).tasks[id].created_at == d.tasks[id].created_at,
        d.all_abandoned(now).tasks[id].created_at == d.tasks[id].created_at,
        d.finished(id, status, output, error, now).tasks[id].status == TaskStatus::Completed
            ==> d.finished(id, status, output, error, now).tasks[id].error is None,
{
}

/// The progress that is stored for a task that has not reached a terminal
/// state is the reported progress brought into the range from nothing to
/// the whole: the smaller of the whole and the larger of nothing and the
/// report.
pub proof fn law_progress_is_clamped(
    d: DispatcherView,
    id: Seq<char>,
    progress: i64,
    message: Option<Seq<char>>,
    now: i64,
)
    requires
        !d.absorbs(id),
    ensures
        d.progressed(id, progress, message, now).tasks[id].progress == clamp_progress(progress),
        clamp_progress(progress) == vstd::math::min(
            vstd::math::max(progress as int, 0),
            PROGRESS_FULL as int,
        ),
        0 <= clamp_progress(progress) <= PROGRESS_FULL,
{
}

/// The validity of a registry is kept by every change that a message or a
/// caller can make to it.
pub proof fn law_registry_stays_valid(
    d: DispatcherView,
    id: Seq<char>,
    task_type: Seq<char>,
    project_id: Seq<char>,
    progress: i64,
    message: Option<Seq<char>>,
    status: Seq<char>,
    output: Option<Value>,
    error: Option<Seq<char>>,
    now: i64,
)
    requires
        d.valid(),
    ensures
        DispatcherView::empty().valid(),
        d.registered(id, task_type, project_id, now).valid(),
        d.started(id, now).valid(),
        d.progressed(id, progress, message, now).valid(),
        d.finished(id, status, output, error, now).valid(),
        d.cancelled(id, now).valid(),
        d.all_abandoned(now).valid(),
{
    assert(d.all_abandoned(now).tasks.dom() =~= d.tasks.dom());
}

/// How many of the restarts in `history` lie within the window before
/// `now`.
pub open spec fn restarts_within_window(history: Seq<u64>, now: u64) -> int
    decreases history.len(),
{
    if history.len() == 0 {
        0
    } else {
        restarts_within_window(history.drop_first(), now) + if elapsed(history[0], now)
            <= CIRCUIT_BREAKER_WINDOW {
            1int
        } else {
            0int
        }
    }
}

/// Of a history in the order of time, forgetting leaves exactly the
/// restarts within the window.
pub proof fn lemma_eviction_leaves_the_recent(history: Seq<u64>, now: u64)
    requires
        in_time_order(history),
    ensures
        evicted(history, now).len() == restarts_within_window(history, now),
    decreases history.len(),
{
    if history.len() > 0 && elapsed(history[0], now) > CIRCUIT_BREAKER_WINDOW {
        let rest = history.drop_first();
        assert forall|i: int, j: int| 0 <= i <= j < rest.len() implies rest[i] <= rest[j] by {
            assert(rest[i] == history[i + 1] && rest[j] == history[j + 1]);
        }
        lemma_eviction_leaves_the_recent(rest, now);
    } else if history.len() > 0 {
        lemma_all_recent(history, now, 0);
        assert(history.skip(0) =~= history);
    }
}

/// Where the first restart lies within the window, in a history in the
/// order of time, all of them do.
proof fn lemma_all_recent(history: Seq<u64>, now: u64, from: int)
    requires
        in_time_order(history),
        history.len() > 0,
        elapsed(history[0], now) <= CIRCUIT_BREAKER_WINDOW,
        0 <= from <= history.len(),
    ensures
        restarts_within_window(history.skip(from), now) == history.len() - from,
    decreases history.len() - from,
{
    if from < history.len() {
        lemma_all_recent(history, now, from + 1);
        let tail = history.skip(from);
        assert(tail.drop_first() =~= history.skip(from + 1));
        assert(tail[0] == history[from]);
        assert(history[0] <= history[from]);
    }
}

/// A restart that is added to a history counts as one more within the
/// window exactly if it lies within it.
pub proof fn lemma_count_of_one_more(history: Seq<u64>, at: u64, now: u64)
    ensures
        restarts_within_window(history.push(at), now) == restarts_within_window(history, now)
            + if elapsed(at, now) <= CIRCUIT_BREAKER_WINDOW {
            1int
        } else {
            0int
        },
    decreases history.len(),
{
    let pushed = history.push(at);
    if history.len() == 0 {
        assert(pushed.drop_first() =~= history);
    } else {
        lemma_count_of_one_more(history.drop_first(), at, now);
        assert(pushed.drop_first() =~= history.drop_first().push(at));
        assert(pushed[0] == history[0]);
    }
}

/// The restart budget: at every reading `now` of the clock, the circuit
/// breaker opens exactly when more than five restarts, the new one among
/// them, lie within the last ten minutes; with five or fewer the restart is
/// scheduled. So at most five restarts are scheduled within any ten
/// minutes. Once the breaker is open no restart is scheduled, and `start`
/// refuses.
pub proof fn law_restart_budget(m: ManagerView, now: u64, later: u64)
    requires
        m.valid(),
    ensures
        ({
            let within = restarts_within_window(m.restart_history, now) + 1;
            &&& m.restart_decision(now) is Delayed <==> !m.restart_scheduled && !m.halted()
                && within <= CIRCUIT_BREAKER_MAX_RESTARTS
            &&& m.restart_decision(now) == RestartDecision::CircuitBroken <==> !m.restart_scheduled
                && !m.halted() && within > CIRCUIT_BREAKER_MAX_RESTARTS
            &&& m.restart_decision(now) != RestartDecision::Ignored
                ==> m.after_schedule_restart(now).restart_history.len() == within
        }),
        m.after_schedule_restart(now).valid(),
        m.restart_decision(now) is Delayed ==> {
            let armed = m.after_schedule_restart(now);
            &&& armed.state == WorkerState::Unhealthy
            &&& armed.restart_scheduled
            &&& armed.session_id == m.session_id
        },
        m.restart_decision(now) == RestartDecision::CircuitBroken ==> {
            let broken = m.after_schedule_restart(now);
            &&& broken.state == WorkerState::CircuitBroken
            &&& !broken.restart_scheduled
            &&& broken.start_decision() == StartDecision::CircuitOpen
            &&& broken.after_start(later) == broken
            &&& broken.restart_decision(later) == RestartDecision::Ignored
        },
        m.state == WorkerState::CircuitBroken ==> m.start_decision() == StartDecision::CircuitOpen
            && m.after_start(later) == m,
{
    let at = restart_instant(m.restart_history, now);
    lemma_recorded_in_time_order(m.restart_history, now);
    lemma_eviction_leaves_the_recent(m.restart_history.push(at), now);
    lemma_count_of_one_more(m.restart_history, at, now);
}

/// The step of the delay schedule after `count` restarts in a row that
/// began at step `step`.
pub open spec fn step_after(step: int, count: nat) -> int
    decreases count,
{
    if count == 0 {
        step
    } else {
        next_backoff_step(step_after(step, (count - 1) as nat))
    }
}

/// The delay schedule: restarts in a row wait 1, 2, 4, 8, 16 and 30
/// seconds, and 30 seconds each from the sixth on; no delay is shorter than
/// the one before it.
pub proof fn law_backoff_schedule(count: nat)
    ensures
        step_after(0, count) == if count < MAX_BACKOFF_STEP {
            count as int
        } else {
            MAX_BACKOFF_STEP as int
        },
        backoff_seconds(step_after(0, 0)) == 1,
        backoff_seconds(step_after(0, 1)) == 2,
        backoff_seconds(step_after(0, 2)) == 4,
        backoff_seconds(step_after(0, 3)) == 8,
        backoff_seconds(step_after(0, 4)) == 16,
        count >= 5 ==> backoff_seconds(step_after(0, count)) == 30,
        backoff_seconds(step_after(0, count)) <= backoff_seconds(step_after(0, count + 1)),
    decreases count,
{
    reveal_with_fuel(step_after, 6);
    if count > 0 {
        law_backoff_schedule((count - 1) as nat);
    }
}

/// A scheduled restart waits the delay of the current step and moves the
/// schedule on by one step.
pub proof fn law_backoff_advances(m: ManagerView, now: u64)
    requires
        m.valid(),
    ensures
        m.restart_decision(now) is Delayed ==> {
            &&& m.restart_decision(now)->delay_secs == backoff_seconds(m.backoff_step)
            &&& m.after_schedule_restart(now).backoff_step == step_after(m.backoff_step, 1)
            &&& m.after_schedule_restart(now).backoff_step >= m.backoff_step
        },
        !(m.restart_decision(now) is Delayed) ==> m.after_schedule_restart(now).backoff_step
            == m.backoff_step,
{
    reveal_with_fuel(step_after, 2);
}

/// The delay schedule starts over only when the worker has shown itself
/// ready: no other step of the supervisor lowers the step, and a message
/// either leaves it or, being a hello, a heartbeat or a task's result,
/// sets it back to the first.
pub proof fn law_backoff_resets_only_when_ready(
    m: ManagerView,
    session_id: u64,
    envelope: Envelope<WorkerPayload>,
    payload: TaskPayload,
    task_id: Seq<char>,
    now: Moment,
)
    requires
        m.valid(),
    ensures
        m.after_start(now.monotonic).backoff_step == m.backoff_step,
        m.after_spawn_failed(session_id).backoff_step == m.backoff_step,
        m.after_child_spawned(session_id).backoff_step == m.backoff_step,
        m.after_stop(now).backoff_step == m.backoff_step,
        m.after_restart(now).backoff_step == m.backoff_step,
        m.after_submitted(payload, now.wall).backoff_step == m.backoff_step,
        m.after_cancelled(task_id, now.wall).backoff_step == m.backoff_step,
        m.after_schedule_restart(now.monotonic).backoff_step >= m.backoff_step,
        m.after_restart_due(session_id).backoff_step == m.backoff_step,
        m.after_mark_unhealthy(session_id).backoff_step == m.backoff_step,
        m.after_poll(session_id, now.monotonic).backoff_step == m.backoff_step,
        ({
            let after = m.after_envelope(session_id, envelope, now);
            after.backoff_step == m.backoff_step || (after.backoff_step == 0
                && !after.restart_scheduled && (after.state == WorkerState::Ready || after.state
                == WorkerState::Busy))
        }),
{
}

/// When the supervisor stops, every task that was in flight has failed
/// with the error that its worker stopped, which begins with the words
/// "worker stopped"; nothing is in flight any more.
pub proof fn law_stop_fails_tasks_in_flight(m: ManagerView, id: Seq<char>, now: Moment)
    requires
        m.valid(),
        m.dispatcher.in_flight.contains(id),
    ensures
        m.after_stop(now).dispatcher.tasks.contains_key(id),
        m.after_stop(now).dispatcher.tasks[id].status == TaskStatus::Failed,
        m.after_stop(now).dispatcher.tasks[id].error == Some(stopped_error()),
        m.after_stop(now).dispatcher.tasks[id].updated_at == now.wall,
        m.after_stop(now).dispatcher.in_flight == Set::<Seq<char>>::empty(),
        stopped_error().subrange(0, 14) == "worker stopped"@,
{
    reveal_strlit("worker stopped while task was in-flight");
    reveal_strlit("worker stopped");
    assert(stopped_error().subrange(0, 14) =~= "worker stopped"@);
}

/// The monitor after the polls at `times`, one after the other.
pub open spec fn polls(h: HeartbeatView, times: Seq<u64>) -> HeartbeatView
    decreases times.len(),
{
    if times.len() == 0 {
        h
    } else {
        polls(h, times.drop_last()).polled(times.last())
    }
}

/// Each of `times` comes at least `interval` after the one before it, the
/// first of them after `start`.
pub open spec fn spaced(start: u64, times: Seq<u64>, interval: u64) -> bool {
    forall|i: int|
        0 <= i < times.len() ==> #[trigger] times[i] >= (if i == 0 {
            start
        } else {
            times[i - 1]
        }) + interval
}

/// The heartbeat declaration: after a heartbeat or a reset at `start`, as
/// many polls as the monitor allows misses, each a whole interval or more
/// after the one before it, with no heartbeat in between, end in the verdict
/// unhealthy; each poll before the last counts one more miss.
pub proof fn law_silence_is_declared(h: HeartbeatView, start: u64, times: Seq<u64>)
    requires
        h.misses == 0,
        h.last_signal == Some(start),
        h.max_misses >= 1,
        times.len() == h.max_misses,
        spaced(start, times, h.interval),
    ensures
        polls(h, times.drop_last()).verdict(times.last()) == HeartbeatCheck::Unhealthy,
        forall|k: int|
            0 <= k < times.len() - 1 ==> polls(h, times.take(k)).verdict(#[trigger] times[k])
                == HeartbeatCheck::Missed((k + 1) as u8),
{
    assert forall|k: int| 0 <= k < times.len() implies polls(h, times.take(k)).verdict(
        #[trigger] times[k],
    ) == (if k + 1 >= h.max_misses {
        HeartbeatCheck::Unhealthy
    } else {
        HeartbeatCheck::Missed((k + 1) as u8)
    }) by {
        lemma_polls_count(h, start, times, k);
    }
    assert(times.take(times.len() - 1) =~= times.drop_last());
}

/// After `k` spaced polls the monitor has counted `k` misses, and the last
/// poll is its last signal.
proof fn lemma_polls_count(h: HeartbeatView, start: u64, times: Seq<u64>, k: int)
    requires
        h.misses == 0,
        h.last_signal == Some(start),
        times.len() <= 255,
        0 <= k <= times.len(),
        spaced(start, times, h.interval),
    ensures
        polls(h, times.take(k)).misses == k,
        polls(h, times.take(k)).last_signal == Some(if k == 0 {
            start
        } else {
            times[k - 1]
        }),
        polls(h, times.take(k)).interval == h.interval,
        polls(h, times.take(k)).max_misses == h.max_misses,
        polls(h, times.take(k)).last_heartbeat == h.last_heartbeat,
        k < times.len() ==> !polls(h, times.take(k)).too_soon(times[k]),
    decreases k,
{
    if k > 0 {
        lemma_polls_count(h, start, times, k - 1);
        let prefix = times.take(k);
        assert(prefix.drop_last() =~= times.take(k - 1));
        assert(prefix.last() == times[k - 1]);
    }
    if k < times.len() {
        assert(times[k] >= (if k == 0 {
            start
        } else {
            times[k - 1]
        }) + h.interval);
    }
}

/// The supervisor after the rounds of the poller of its current session at
/// `times`, one after the other.
pub open spec fn poll_rounds(m: ManagerView, times: Seq<u64>) -> ManagerView
    decreases times.len(),
{
    if times.len() == 0 {
        m
    } else {
        poll_rounds(m, times.drop_last()).after_poll(m.session_id, times.last())
    }
}

/// The heartbeat declaration for the supervisor: while it is neither
/// stopped nor broken, as many rounds of the poller as the monitor allows
/// misses, each a whole interval or more after the one before it, with no
/// heartbeat in between, end in the decision to restart, and the supervisor
/// is unhealthy; the rounds before the last go on.
pub proof fn law_silent_session_is_restarted(m: ManagerView, start: u64, times: Seq<u64>)
    requires
        !m.halted(),
        m.heartbeat.misses == 0,
        m.heartbeat.last_signal == Some(start),
        m.heartbeat.max_misses >= 1,
        times.len() == m.heartbeat.max_misses,
        spaced(start, times, m.heartbeat.interval),
    ensures
        poll_rounds(m, times.drop_last()).poll_decision(m.session_id, times.last())
            == PollDecision::Restart,
        poll_rounds(m, times).state == WorkerState::Unhealthy,
        forall|k: int|
            0 <= k < times.len() - 1 ==> poll_rounds(m, times.take(k)).poll_decision(
                m.session_id,
                #[trigger] times[k],
            ) == PollDecision::Continue,
{
    law_silence_is_declared(m.heartbeat, start, times);
    assert forall|k: int| 0 <= k < times.len() implies ({
        let before = #[trigger] poll_rounds(m, times.take(k));
        &&& before.heartbeat == polls(m.heartbeat, times.take(k))
        &&& before.state == m.state
        &&& before.session_id == m.session_id
    }) by {
        lemma_poll_rounds(m, start, times, k);
    }
    let last = times.len() - 1;
    assert(times.take(last) =~= times.drop_last());
    assert(poll_rounds(m, times.take(last)).heartbeat == polls(m.heartbeat, times.take(last)));
    assert forall|k: int| 0 <= k < times.len() - 1 implies poll_rounds(
        m,
        times.take(k),
    ).poll_decision(m.session_id, #[trigger] times[k]) == PollDecision::Continue by {
        assert(poll_rounds(m, times.take(k)).heartbeat == polls(m.heartbeat, times.take(k)));
    }
}

/// Rounds of the poller that all go on change nothing of the supervisor
/// but its monitor.
proof fn lemma_poll_rounds(m: ManagerView, start: u64, times: Seq<u64>, k: int)
    requires
        !m.halted(),
        m.heartbeat.misses == 0,
        m.heartbeat.last_signal == Some(start),
        m.heartbeat.max_misses >= 1,
        times.len() == m.heartbeat.max_misses,
        spaced(start, times, m.heartbeat.interval),
        0 <= k < times.len(),
    ensures
        poll_rounds(m, times.take(k)).heartbeat == polls(m.heartbeat, times.take(k)),
        poll_rounds(m, times.take(k)).state == m.state,
        poll_rounds(m, times.take(k)).session_id == m.session_id,
    decreases k,
{
    if k > 0 {
        lemma_poll_rounds(m, start, times, k - 1);
        law_silence_is_declared(m.heartbeat, start, times);
        let prefix = times.take(k);
        assert(prefix.drop_last() =~= times.take(k - 1));
        assert(prefix.last() == times[k - 1]);
        let before = poll_rounds(m, times.take(k - 1));
        assert(before.heartbeat.verdict(times[k - 1]) == HeartbeatCheck::Missed(k as u8));
    }
}

/// A poll that finds the session unhealthy makes the supervisor unhealthy
/// and has its caller schedule a restart; unless one is pending already,
/// that restart is scheduled or opens the circuit breaker.
pub proof fn law_unhealthy_poll_schedules_restart(m: ManagerView, now: u64)
    requires
        !m.halted(),
        m.heartbeat.verdict(now) == HeartbeatCheck::Unhealthy,
    ensures
        m.poll_decision(m.session_id, now) == PollDecision::Restart,
        m.after_poll(m.session_id, now).state == WorkerState::Unhealthy,
        !m.restart_scheduled ==> m.after_poll(m.session_id, now).restart_decision(now)
            != RestartDecision::Ignored,
        !m.restart_scheduled && m.after_poll(m.session_id, now).restart_decision(now)
            is Delayed ==> m.after_poll(m.session_id, now).after_schedule_restart(
            now,
        ).restart_scheduled,
{
}

} // verus!
