//! The supervisor of one worker process, as a state machine. Each operation
//! is one step taken under the supervisor's lock: it changes the state and
//! says what its caller has to do next. Spawning, killing, writing, sleeping
//! and publishing are the caller's part.

use crate::clock::{elapsed, rfc3339_of, rfc3339_text, Moment};
use crate::dispatcher::{
    text_view, DispatcherView, SubmitTaskInput, TaskInfo, WorkerDispatcher,
};
use crate::heartbeat::{HeartbeatCheck, HeartbeatMonitor, HeartbeatView};
use crate::protocol::{
    fresh_uuid, CancelPayload, Envelope, MessageKind, TaskPayload, WelcomePayload, WorkerPayload,
    EVENT_TASK_CANCEL, EVENT_TASK_COMPLETED, EVENT_TASK_FAILED, EVENT_TASK_PROGRESS,
    EVENT_TASK_STARTED, EVENT_TASK_SUBMIT, EVENT_WORKER_HEARTBEAT, EVENT_WORKER_HELLO,
    EVENT_WORKER_WELCOME, IPC_VERSION,
};
use crate::text::{is_blank, join2, text_eq};
use crate::validation::{empty_field_error, require_non_empty};
use std::collections::VecDeque;
use vstd::prelude::*;

verus! {

/// A worker is expected to send a heartbeat every two seconds.
pub const HEARTBEAT_INTERVAL: u64 = 2_000_000_000;

/// Three silent intervals in a row make a session unhealthy.
pub const HEARTBEAT_MAX_MISSES: u8 = 3;

/// Restarts are counted over the last ten minutes.
pub const CIRCUIT_BREAKER_WINDOW: u64 = 600_000_000_000;

/// More restarts than this within the window open the circuit breaker.
pub const CIRCUIT_BREAKER_MAX_RESTARTS: usize = 5;

/// The last step of the restart delay schedule.
pub const MAX_BACKOFF_STEP: usize = 5;

/// The state of the worker as the supervisor sees it.
#[derive(Debug, Clone, Copy, PartialEq, Eq, Structural)]
pub enum WorkerState {
    Starting,
    Ready,
    Busy,
    Unhealthy,
    Stopped,
    CircuitBroken,
}

/// A snapshot of the supervisor for its subscribers.
#[derive(Debug)]
pub struct WorkerStatus {
    pub state: WorkerState,
    /// The last heartbeat since the last reset, as RFC 3339 text.
    pub last_heartbeat: Option<String>,
    pub restart_count_10m: usize,
    pub in_flight_tasks: usize,
}

/// What `start` decides.
#[derive(Debug, Clone, Copy, PartialEq, Eq, Structural)]
pub enum StartDecision {
    /// The circuit breaker is open: no worker is started.
    CircuitOpen,
    /// A worker is attached already: nothing is done.
    AlreadyRunning,
    /// A new session has begun; the caller spawns its worker.
    Spawn { session_id: u64 },
}

/// What `restart` leaves to its caller, in the order in which it is to be
/// done.
#[derive(Debug)]
pub struct RestartPlan {
    /// The worker of the session that ended is to be killed.
    pub kill_child: bool,
    /// The status as it stood when the old session had ended and the new one
    /// had not begun; it is to be published first.
    pub stopped: WorkerStatus,
    /// The session that has begun; the caller publishes the status and
    /// spawns its worker.
    pub session_id: u64,
}

/// What `schedule_restart` decides.
#[derive(Debug, Clone, Copy, PartialEq, Eq, Structural)]
pub enum RestartDecision {
    /// A restart is pending already, or the supervisor is stopped or its
    /// circuit breaker open: nothing changes.
    Ignored,
    /// Too many restarts within the window: the circuit breaker opens.
    CircuitBroken,
    /// The session `session_id` is to be restarted after `delay_secs`
    /// seconds.
    Delayed { delay_secs: u64, session_id: u64 },
}

/// What one round of the heartbeat poller ends in.
#[derive(Debug, Clone, Copy, PartialEq, Eq, Structural)]
pub enum PollDecision {
    /// The poller's session is over, or the supervisor is stopped or its
    /// circuit breaker open: the poller ends.
    Exit,
    /// The poller sleeps one more interval.
    Continue,
    /// The session is unhealthy: the caller schedules a restart, and the
    /// poller ends.
    Restart,
}

/// What `mark_unhealthy` leaves to its caller.
#[derive(Debug, Clone, Copy, PartialEq, Eq, Structural)]
pub struct UnhealthyMark {
    /// The worker is to be killed.
    pub kill_child: bool,
    /// The session was marked unhealthy: the caller schedules a restart.
    pub marked: bool,
}

/// What handling one message from the worker leaves to the caller, in the
/// order in which it is to be done.
#[derive(Debug)]
pub struct EnvelopeOutcome {
    /// To be written to the worker; a failure to write is passed over.
    pub welcome_reply: Option<Envelope<WelcomePayload>>,
    /// The status is to be published.
    pub status_changed: bool,
    /// To be published as `task:progress`.
    pub progress_event: Option<TaskInfo>,
    /// To be published as `task:completed`.
    pub completed_event: Option<TaskInfo>,
    /// To be published as `task:failed`.
    pub failed_event: Option<TaskInfo>,
    /// A restart is to be scheduled for this reason.
    pub restart_reason: Option<String>,
}

/// What a caller is told when `start` refuses.
pub open spec fn circuit_open_error() -> Seq<char> {
    "worker circuit breaker is open"@
}

/// The reason for the restart of a session whose heartbeats have stopped.
pub open spec fn heartbeat_timeout_reason() -> Seq<char> {
    "heartbeat timeout"@
}

impl StartDecision {
    /// The error that the caller of `start` gets: one where the circuit
    /// breaker is open, none where a worker runs or is to be spawned.
    pub fn refusal(&self) -> (error: Option<String>)
        ensures
            text_view(error) == match *self {
                StartDecision::CircuitOpen => Some(circuit_open_error()),
                _ => None,
            },
    {
        match self {
            StartDecision::CircuitOpen => Some("worker circuit breaker is open".to_string()),
            _ => None,
        }
    }
}

impl PollDecision {
    /// The reason with which the caller schedules a restart, where the
    /// round ends in one.
    pub fn restart_reason(&self) -> (reason: Option<String>)
        ensures
            text_view(reason) == match *self {
                PollDecision::Restart => Some(heartbeat_timeout_reason()),
                _ => None,
            },
    {
        match self {
            PollDecision::Restart => Some("heartbeat timeout".to_string()),
            _ => None,
        }
    }
}

/// The seconds to wait before a restart at step `step` of the schedule.
pub open spec fn backoff_seconds(step: int) -> u64 {
    if step <= 0 {
        1
    } else if step == 1 {
        2
    } else if step == 2 {
        4
    } else if step == 3 {
        8
    } else if step == 4 {
        16
    } else {
        30
    }
}

/// The step that follows `step` in the schedule; the last step follows
/// itself.
pub open spec fn next_backoff_step(step: int) -> int {
    if step + 1 < MAX_BACKOFF_STEP {
        step + 1
    } else {
        MAX_BACKOFF_STEP as int
    }
}

/// The session that follows session `id`; the count wraps around.
pub open spec fn next_session(id: u64) -> u64 {
    if id == u64::MAX {
        0
    } else {
        (id + 1) as u64
    }
}

/// `history` without the restarts at its front that lie further back from
/// `now` than the window.
pub open spec fn evicted(history: Seq<u64>, now: u64) -> Seq<u64>
    decreases history.len(),
{
    if history.len() > 0 && elapsed(history[0], now) > CIRCUIT_BREAKER_WINDOW {
        evicted(history.drop_first(), now)
    } else {
        history
    }
}

/// The instants of `history` come in the order of time.
pub open spec fn in_time_order(history: Seq<u64>) -> bool {
    forall|i: int, j: int| 0 <= i <= j < history.len() ==> history[i] <= history[j]
}

/// The instant under which a restart at `now` is recorded, so that the
/// history stays in the order of time. The monotonic clock does not run
/// backwards: a reading that lies before the last restart is recorded at the
/// instant of that restart.
pub open spec fn restart_instant(history: Seq<u64>, now: u64) -> u64 {
    if history.len() > 0 && history.last() > now {
        history.last()
    } else {
        now
    }
}

/// The restart history once a restart at `now` is recorded: the restart is
/// added at the end, and the restarts at the front that lie further back
/// from `now` than the window are forgotten.
pub open spec fn recorded(history: Seq<u64>, now: u64) -> Seq<u64> {
    evicted(history.push(restart_instant(history, now)), now)
}

/// Forgetting old restarts keeps the order of the others.
pub proof fn lemma_evicted_in_time_order(history: Seq<u64>, now: u64)
    requires
        in_time_order(history),
    ensures
        in_time_order(evicted(history, now)),
    decreases history.len(),
{
    if history.len() > 0 && elapsed(history[0], now) > CIRCUIT_BREAKER_WINDOW {
        let rest = history.drop_first();
        assert forall|i: int, j: int| 0 <= i <= j < rest.len() implies rest[i] <= rest[j] by {
            assert(rest[i] == history[i + 1] && rest[j] == history[j + 1]);
        }
        lemma_evicted_in_time_order(rest, now);
    }
}

/// A history in the order of time stays in it when a restart is recorded.
pub proof fn lemma_recorded_in_time_order(history: Seq<u64>, now: u64)
    requires
        in_time_order(history),
    ensures
        in_time_order(history.push(restart_instant(history, now))),
        in_time_order(recorded(history, now)),
{
    let at = restart_instant(history, now);
    let pushed = history.push(at);
    assert forall|i: int, j: int| 0 <= i <= j < pushed.len() implies pushed[i] <= pushed[j] by {
        if j < history.len() {
            assert(pushed[i] == history[i] && pushed[j] == history[j]);
        } else if i < history.len() {
            assert(pushed[i] == history[i]);
            assert(history[i] <= history.last());
        }
    }
    lemma_evicted_in_time_order(pushed, now);
}

/// The reason for a restart that is made of a fixed beginning and a detail.
pub open spec fn reason(about: Seq<char>, detail: Seq<char>) -> Seq<char> {
    about + detail
}

/// The mathematical state of a [`WorkerManager`].
pub struct ManagerView {
    pub state: WorkerState,
    /// Whether a worker process is attached.
    pub child: bool,
    pub dispatcher: DispatcherView,
    pub heartbeat: HeartbeatView,
    /// When restarts were scheduled, on the monotonic clock, oldest first.
    pub restart_history: Seq<u64>,
    pub backoff_step: int,
    pub restart_scheduled: bool,
    pub session_id: u64,
}

impl ManagerView {
    /// The supervisor before anything has happened.
    pub open spec fn initial() -> ManagerView {
        ManagerView {
            state: WorkerState::Stopped,
            child: false,
            dispatcher: DispatcherView::empty(),
            heartbeat: HeartbeatView::fresh(HEARTBEAT_INTERVAL, HEARTBEAT_MAX_MISSES),
            restart_history: Seq::empty(),
            backoff_step: 0,
            restart_scheduled: false,
            session_id: 0,
        }
    }

    /// What holds of every supervisor: its registry is valid, the step of
    /// the delay schedule is one of the schedule, and the restarts are
    /// recorded in the order of time.
    pub open spec fn valid(self) -> bool {
        &&& self.dispatcher.valid()
        &&& 0 <= self.backoff_step <= MAX_BACKOFF_STEP
        &&& in_time_order(self.restart_history)
    }

    /// `status` is the snapshot of this state: the state of the worker, the
    /// last heartbeat as RFC 3339 text, the number of restarts on record and
    /// the number of tasks in flight.
    pub open spec fn shows(self, status: WorkerStatus) -> bool {
        &&& status.state == self.state
        &&& text_view(status.last_heartbeat) == match self.heartbeat.last_heartbeat {
            Some(at) => Some(rfc3339_text(at)),
            None => None,
        }
        &&& status.restart_count_10m == self.restart_history.len()
        &&& status.in_flight_tasks == self.dispatcher.in_flight.len()
    }

    /// The supervisor is stopped or its circuit breaker is open.
    pub open spec fn halted(self) -> bool {
        self.state == WorkerState::Stopped || self.state == WorkerState::CircuitBroken
    }

    /// What `start` decides.
    pub open spec fn start_decision(self) -> StartDecision {
        if self.state == WorkerState::CircuitBroken {
            StartDecision::CircuitOpen
        } else if self.child {
            StartDecision::AlreadyRunning
        } else {
            StartDecision::Spawn { session_id: next_session(self.session_id) }
        }
    }

    /// The state after `start` at `now`.
    pub open spec fn after_start(self, now: u64) -> ManagerView {
        if self.start_decision() is Spawn {
            ManagerView {
                state: WorkerState::Starting,
                session_id: next_session(self.session_id),
                restart_scheduled: false,
                heartbeat: self.heartbeat.reset(now),
                ..self
            }
        } else {
            self
        }
    }

    /// The state once the spawn for session `session_id` has failed.
    pub open spec fn after_spawn_failed(self, session_id: u64) -> ManagerView {
        if self.session_id == session_id {
            ManagerView { state: WorkerState::Stopped, ..self }
        } else {
            self
        }
    }

    /// The state once the worker for session `session_id` is spawned.
    pub open spec fn after_child_spawned(self, session_id: u64) -> ManagerView {
        if self.session_id == session_id {
            ManagerView { child: true, ..self }
        } else {
            self
        }
    }

    /// The state after `stop` at `now`.
    pub open spec fn after_stop(self, now: Moment) -> ManagerView {
        ManagerView {
            session_id: next_session(self.session_id),
            restart_scheduled: false,
            state: WorkerState::Stopped,
            heartbeat: self.heartbeat.reset(now.monotonic),
            dispatcher: self.dispatcher.all_abandoned(now.wall),
            child: false,
            ..self
        }
    }

    /// The state after `restart` at `now`: stopped, and started again.
    pub open spec fn after_restart(self, now: Moment) -> ManagerView {
        self.after_stop(now).after_start(now.monotonic)
    }

    /// A worker has to be started before a task can be submitted.
    pub open spec fn needs_start(self) -> bool {
        !self.child && self.state != WorkerState::Starting
    }

    /// The state once the task of `payload` is submitted at `now`.
    pub open spec fn after_submitted(self, payload: TaskPayload, now: i64) -> ManagerView {
        ManagerView {
            dispatcher: self.dispatcher.registered(
                payload.task_id@,
                payload.task_type@,
                payload.project_id@,
                now,
            ),
            state: WorkerState::Busy,
            ..self
        }
    }

    /// The state once task `task_id` is cancelled at `now`: unchanged where
    /// the task is unknown.
    pub open spec fn after_cancelled(self, task_id: Seq<char>, now: i64) -> ManagerView {
        if self.dispatcher.tasks.contains_key(task_id) {
            let dispatcher = self.dispatcher.cancelled(task_id, now);
            ManagerView {
                dispatcher,
                state: if dispatcher.in_flight.len() == 0 {
                    WorkerState::Ready
                } else {
                    self.state
                },
                ..self
            }
        } else {
            self
        }
    }

    /// The state once the worker has shown itself ready: no restart is
    /// pending, the delay schedule starts over, and the supervisor is busy
    /// exactly if a task is in flight.
    pub open spec fn marked_ready(self) -> ManagerView {
        ManagerView {
            restart_scheduled: false,
            backoff_step: 0,
            state: if self.dispatcher.in_flight.len() > 0 {
                WorkerState::Busy
            } else {
                WorkerState::Ready
            },
            ..self
        }
    }

    /// A message is taken up if it speaks this protocol version and comes
    /// from the current session.
    pub open spec fn accepts(self, session_id: u64, envelope: Envelope<WorkerPayload>) -> bool {
        envelope.v@ == IPC_VERSION@ && self.session_id == session_id
    }

    /// The state after the message `envelope`, which session `session_id`
    /// received at `now`.
    pub open spec fn after_envelope(
        self,
        session_id: u64,
        envelope: Envelope<WorkerPayload>,
        now: Moment,
    ) -> ManagerView {
        let event = envelope.event@;
        if !self.accepts(session_id, envelope) {
            self
        } else if event == EVENT_WORKER_HELLO@ || event == EVENT_WORKER_HEARTBEAT@ {
            ManagerView { heartbeat: self.heartbeat.beat(now), ..self }.marked_ready()
        } else if event == EVENT_TASK_STARTED@ {
            ManagerView {
                dispatcher: match envelope.payload.task_id {
                    Some(task_id) => self.dispatcher.started(task_id@, now.wall),
                    None => self.dispatcher,
                },
                state: WorkerState::Busy,
                ..self
            }
        } else if event == EVENT_TASK_PROGRESS@ {
            match envelope.payload.progress {
                Ok(report) => ManagerView {
                    dispatcher: self.dispatcher.progressed(
                        report.task_id@,
                        report.progress,
                        text_view(report.message),
                        now.wall,
                    ),
                    state: WorkerState::Busy,
                    ..self
                },
                Err(_) => self,
            }
        } else if event == EVENT_TASK_COMPLETED@ || event == EVENT_TASK_FAILED@ {
            match envelope.payload.result {
                Ok(result) => ManagerView {
                    dispatcher: self.dispatcher.finished(
                        result.task_id@,
                        result.status@,
                        result.output,
                        text_view(result.error),
                        now.wall,
                    ),
                    ..self
                }.marked_ready(),
                Err(_) => self,
            }
        } else {
            self
        }
    }

    /// Why the message `envelope` asks for a restart, if it does.
    pub open spec fn restart_reason(
        self,
        session_id: u64,
        envelope: Envelope<WorkerPayload>,
    ) -> Option<Seq<char>> {
        let event = envelope.event@;
        if envelope.v@ != IPC_VERSION@ {
            Some(reason("unsupported IPC version from worker: "@, envelope.v@))
        } else if self.session_id != session_id {
            None
        } else if event == EVENT_WORKER_HELLO@ || event == EVENT_WORKER_HEARTBEAT@ || event
            == EVENT_TASK_STARTED@ {
            None
        } else if event == EVENT_TASK_PROGRESS@ {
            match envelope.payload.progress {
                Ok(_) => None,
                Err(why) => Some(reason("invalid task.progress payload: "@, why@)),
            }
        } else if event == EVENT_TASK_COMPLETED@ || event == EVENT_TASK_FAILED@ {
            match envelope.payload.result {
                Ok(_) => None,
                Err(why) => Some(reason("invalid task result payload: "@, why@)),
            }
        } else if envelope.kind == MessageKind::Error {
            Some(reason("worker error event: "@, event))
        } else {
            None
        }
    }

    /// The message `envelope` is one of those that change the status.
    pub open spec fn changes_status(
        self,
        session_id: u64,
        envelope: Envelope<WorkerPayload>,
    ) -> bool {
        let event = envelope.event@;
        if !self.accepts(session_id, envelope) {
            false
        } else if event == EVENT_WORKER_HELLO@ || event == EVENT_WORKER_HEARTBEAT@ || event
            == EVENT_TASK_STARTED@ {
            true
        } else if event == EVENT_TASK_PROGRESS@ {
            envelope.payload.progress is Ok
        } else if event == EVENT_TASK_COMPLETED@ || event == EVENT_TASK_FAILED@ {
            envelope.payload.result is Ok
        } else {
            false
        }
    }

    /// The task whose progress the message `envelope` reports.
    pub open spec fn progress_subject(
        self,
        session_id: u64,
        envelope: Envelope<WorkerPayload>,
    ) -> Option<Seq<char>> {
        let event = envelope.event@;
        if !self.accepts(session_id, envelope) || event == EVENT_WORKER_HELLO@ || event
            == EVENT_WORKER_HEARTBEAT@ {
            None
        } else if event == EVENT_TASK_STARTED@ {
            match envelope.payload.task_id {
                Some(task_id) => if self.dispatcher.tasks.contains_key(task_id@) {
                    Some(task_id@)
                } else {
                    None
                },
                None => None,
            }
        } else if event == EVENT_TASK_PROGRESS@ {
            match envelope.payload.progress {
                Ok(report) => Some(report.task_id@),
                Err(_) => None,
            }
        } else {
            None
        }
    }

    /// The task on which the message `envelope` is the worker's final word,
    /// and whether that word is a failure: it is one if the message is named
    /// `task.failed` or carries an error.
    pub open spec fn result_subject(
        self,
        session_id: u64,
        envelope: Envelope<WorkerPayload>,
    ) -> Option<(Seq<char>, bool)> {
        let event = envelope.event@;
        if !self.accepts(session_id, envelope) || event == EVENT_WORKER_HELLO@ || event
            == EVENT_WORKER_HEARTBEAT@ || event == EVENT_TASK_STARTED@ || event
            == EVENT_TASK_PROGRESS@ {
            None
        } else if event == EVENT_TASK_COMPLETED@ || event == EVENT_TASK_FAILED@ {
            match envelope.payload.result {
                Ok(result) => Some(
                    (result.task_id@, event == EVENT_TASK_FAILED@ || result.error is Some),
                ),
                Err(_) => None,
            }
        } else {
            None
        }
    }

    /// What `schedule_restart` decides at `now`.
    pub open spec fn restart_decision(self, now: u64) -> RestartDecision {
        if self.restart_scheduled || self.halted() {
            RestartDecision::Ignored
        } else if recorded(self.restart_history, now).len() > CIRCUIT_BREAKER_MAX_RESTARTS {
            RestartDecision::CircuitBroken
        } else {
            RestartDecision::Delayed {
                delay_secs: backoff_seconds(self.backoff_step),
                session_id: self.session_id,
            }
        }
    }

    /// The state after `schedule_restart` at `now`.
    pub open spec fn after_schedule_restart(self, now: u64) -> ManagerView {
        match self.restart_decision(now) {
            RestartDecision::Ignored => self,
            RestartDecision::CircuitBroken => ManagerView {
                restart_history: recorded(self.restart_history, now),
                state: WorkerState::CircuitBroken,
                restart_scheduled: false,
                ..self
            },
            RestartDecision::Delayed { .. } => ManagerView {
                restart_history: recorded(self.restart_history, now),
                state: WorkerState::Unhealthy,
                restart_scheduled: true,
                backoff_step: next_backoff_step(self.backoff_step),
                ..self
            },
        }
    }

    /// The restart that was scheduled for session `session_id` is still
    /// wanted once its delay is over.
    pub open spec fn restart_due(self, session_id: u64) -> bool {
        self.session_id == session_id && self.restart_scheduled && self.state
            == WorkerState::Unhealthy
    }

    /// The state once the delay of a scheduled restart is over.
    pub open spec fn after_restart_due(self, session_id: u64) -> ManagerView {
        if self.restart_due(session_id) {
            ManagerView { restart_scheduled: false, ..self }
        } else {
            self
        }
    }

    /// What `mark_unhealthy` leaves to its caller.
    pub open spec fn unhealthy_mark(self, session_id: u64) -> UnhealthyMark {
        if self.session_id != session_id {
            UnhealthyMark { kill_child: false, marked: false }
        } else {
            UnhealthyMark { kill_child: self.child, marked: !self.halted() }
        }
    }

    /// The state after `mark_unhealthy`.
    pub open spec fn after_mark_unhealthy(self, session_id: u64) -> ManagerView {
        if self.session_id != session_id {
            self
        } else {
            ManagerView {
                child: false,
                state: if self.halted() {
                    self.state
                } else {
                    WorkerState::Unhealthy
                },
                ..self
            }
        }
    }

    /// What a round of the heartbeat poller of session `session_id` ends in
    /// at `now`.
    pub open spec fn poll_decision(self, session_id: u64, now: u64) -> PollDecision {
        if self.session_id != session_id || self.halted() {
            PollDecision::Exit
        } else if self.heartbeat.verdict(now) == HeartbeatCheck::Unhealthy {
            PollDecision::Restart
        } else {
            PollDecision::Continue
        }
    }

    /// The state after a round of the heartbeat poller.
    pub open spec fn after_poll(self, session_id: u64, now: u64) -> ManagerView {
        match self.poll_decision(session_id, now) {
            PollDecision::Exit => self,
            PollDecision::Continue => ManagerView { heartbeat: self.heartbeat.polled(now), ..self },
            PollDecision::Restart => ManagerView {
                heartbeat: self.heartbeat.polled(now),
                state: WorkerState::Unhealthy,
                ..self
            },
        }
    }
}

impl EnvelopeOutcome {
    /// The outcome that asks for nothing.
    pub open spec fn is_nothing(self) -> bool {
        &&& self.welcome_reply is None
        &&& !self.status_changed
        &&& self.progress_event is None
        &&& self.completed_event is None
        &&& self.failed_event is None
        &&& self.restart_reason is None
    }

    /// This is the outcome of handling `envelope` for session `session_id`
    /// in state `before`, which led to state `after`.
    pub open spec fn describes(
        self,
        before: ManagerView,
        after: ManagerView,
        session_id: u64,
        envelope: Envelope<WorkerPayload>,
    ) -> bool {
        &&& self.welcome_reply is Some <==> before.accepts(session_id, envelope) && envelope.event@
            == EVENT_WORKER_HELLO@
        &&& self.welcome_reply is Some ==> {
            let reply = self.welcome_reply->0;
            &&& reply.v@ == IPC_VERSION@
            &&& reply.kind == MessageKind::Ack
            &&& reply.event@ == EVENT_WORKER_WELCOME@
            &&& reply.msg_id@.len() == 36
            &&& reply.trace_id@.len() == 36
            &&& reply.payload.accepted
        }
        &&& self.status_changed == before.changes_status(session_id, envelope)
        &&& text_view(self.restart_reason) == before.restart_reason(session_id, envelope)
        &&& match before.progress_subject(session_id, envelope) {
            Some(task_id) => self.progress_event is Some && self.progress_event->0@
                == after.dispatcher.tasks[task_id],
            None => self.progress_event is None,
        }
        &&& match before.result_subject(session_id, envelope) {
            Some((task_id, true)) => self.completed_event is None && self.failed_event is Some
                && self.failed_event->0@ == after.dispatcher.tasks[task_id],
            Some((task_id, false)) => self.failed_event is None && self.completed_event is Some
                && self.completed_event->0@ == after.dispatcher.tasks[task_id],
            None => self.completed_event is None && self.failed_event is None,
        }
    }
}

/// The supervisor's state. It holds no process handle: whether a worker is
/// attached is all it knows of it.
pub struct WorkerManager {
    state: WorkerState,
    child: bool,
    dispatcher: WorkerDispatcher,
    heartbeat: HeartbeatMonitor,
    restart_history: VecDeque<u64>,
    backoff_step: usize,
    restart_scheduled: bool,
    session_id: u64,
}

impl View for WorkerManager {
    type V = ManagerView;

    closed spec fn view(&self) -> ManagerView {
        ManagerView {
            state: self.state,
            child: self.child,
            dispatcher: self.dispatcher@,
            heartbeat: self.heartbeat@,
            restart_history: self.restart_history@,
            backoff_step: self.backoff_step as int,
            restart_scheduled: self.restart_scheduled,
            session_id: self.session_id,
        }
    }
}

/// The delay in seconds at step `step` of the restart schedule.
pub fn backoff_delay(step: usize) -> (secs: u64)
    ensures
        secs == backoff_seconds(step as int),
{
    if step == 0 {
        1
    } else if step == 1 {
        2
    } else if step == 2 {
        4
    } else if step == 3 {
        8
    } else if step == 4 {
        16
    } else {
        30
    }
}

/// An outcome that asks for nothing.
fn no_outcome() -> (outcome: EnvelopeOutcome)
    ensures
        outcome.is_nothing(),
{
    EnvelopeOutcome {
        welcome_reply: None,
        status_changed: false,
        progress_event: None,
        completed_event: None,
        failed_event: None,
        restart_reason: None,
    }
}

impl TaskPayload {
    /// The payload for the submission of `input`, under a fresh task id.
    /// Minting the id is uuid's part, and uuid gives up with a panic where
    /// the system has no random bytes for it.
    pub fn new(input: SubmitTaskInput) -> (payload: TaskPayload)
        ensures
            payload.task_type == input.task_type,
            payload.project_id == input.project_id,
            payload.config == input.config,
            payload.task_id@.len() == 36,
    {
        TaskPayload {
            task_id: fresh_uuid(),
            task_type: input.task_type,
            project_id: input.project_id,
            config: input.config,
        }
    }
}

impl WorkerManager {
    /// The supervisor is well formed.
    pub closed spec fn wf(&self) -> bool {
        self.dispatcher.wf() && self.backoff_step <= MAX_BACKOFF_STEP && in_time_order(
            self.restart_history@,
        )
    }

    /// A well-formed supervisor has a valid state.
    pub proof fn lemma_wf_valid(&self)
        requires
            self.wf(),
        ensures
            self@.valid(),
    {
        self.dispatcher.lemma_wf_valid();
    }

    /// A supervisor that is stopped and has no worker, no task and no
    /// history.
    pub fn new() -> (manager: WorkerManager)
        ensures
            manager.wf(),
            manager@ == ManagerView::initial(),
    {
        WorkerManager {
            state: WorkerState::Stopped,
            child: false,
            dispatcher: WorkerDispatcher::new(),
            heartbeat: HeartbeatMonitor::new(HEARTBEAT_INTERVAL, HEARTBEAT_MAX_MISSES),
            restart_history: VecDeque::new(),
            backoff_step: 0,
            restart_scheduled: false,
            session_id: 0,
        }
    }

    /// A snapshot of the status.
    pub fn get_status(&self) -> (status: WorkerStatus)
        requires
            self.wf(),
        ensures
            self@.shows(status),
    {
        self.status_snapshot()
    }

    /// A snapshot of the status.
    pub fn status_snapshot(&self) -> (status: WorkerStatus)
        requires
            self.wf(),
        ensures
            self@.shows(status),
    {
        let last_heartbeat = match self.heartbeat.last_heartbeat() {
            Some(at) => Some(rfc3339_of(at)),
            None => None,
        };
        WorkerStatus {
            state: self.state,
            last_heartbeat,
            restart_count_10m: self.restart_history.len(),
            in_flight_tasks: self.dispatcher.in_flight_count(),
        }
    }

    /// Every task, the one updated last first.
    pub fn list_tasks(&self) -> (tasks: Vec<TaskInfo>)
        requires
            self.wf(),
        ensures
            tasks@.len() == self@.dispatcher.tasks.dom().len(),
            forall|i: int|
                0 <= i < tasks@.len() ==> self@.dispatcher.tasks.contains_key(
                    #[trigger] tasks@[i].task_id@,
                ) && self@.dispatcher.tasks[tasks@[i].task_id@] == tasks@[i]@,
            forall|i: int, j: int|
                0 <= i < j < tasks@.len() ==> #[trigger] tasks@[i].task_id@
                    != #[trigger] tasks@[j].task_id@,
            forall|i: int, j: int|
                0 <= i < j < tasks@.len() ==> #[trigger] tasks@[i].updated_at
                    >= #[trigger] tasks@[j].updated_at,
    {
        self.dispatcher.list_tasks()
    }

    /// The current session.
    pub fn session_id(&self) -> (id: u64)
        ensures
            id == self@.session_id,
    {
        self.session_id
    }

    /// Whether `session_id` is the current session.
    pub fn is_session_active(&self, session_id: u64) -> (active: bool)
        ensures
            active == (self@.session_id == session_id),
    {
        self.session_id == session_id
    }

    /// Whether a task is filed under `task_id`.
    pub fn contains_task(&self, task_id: &str) -> (known: bool)
        requires
            self.wf(),
        ensures
            known == self@.dispatcher.tasks.contains_key(task_id@),
    {
        self.dispatcher.contains_task(task_id)
    }

    /// Begins a session at `now`, unless the circuit breaker is open or a
    /// worker is attached already.
    pub fn start(&mut self, now: u64) -> (decision: StartDecision)
        requires
            old(self).wf(),
        ensures
            final(self).wf(),
            decision == old(self)@.start_decision(),
            final(self)@ == old(self)@.after_start(now),
    {
        if self.state == WorkerState::CircuitBroken {
            return StartDecision::CircuitOpen;
        }
        if self.child {
            return StartDecision::AlreadyRunning;
        }
        self.state = WorkerState::Starting;
        self.session_id = self.session_id.wrapping_add(1);
        self.restart_scheduled = false;
        self.heartbeat.reset(now);
        StartDecision::Spawn { session_id: self.session_id }
    }

    /// Notes that the worker for session `session_id` could not be spawned:
    /// the supervisor is stopped, unless another session has begun since.
    pub fn spawn_failed(&mut self, session_id: u64)
        requires
            old(self).wf(),
        ensures
            final(self).wf(),
            final(self)@ == old(self)@.after_spawn_failed(session_id),
    {
        if self.session_id == session_id {
            self.state = WorkerState::Stopped;
        }
    }

    /// Notes that the worker for session `session_id` is spawned. It is
    /// attached if that session is still the current one; if not, the caller
    /// kills it.
    pub fn child_spawned(&mut self, session_id: u64) -> (attached: bool)
        requires
            old(self).wf(),
        ensures
            final(self).wf(),
            attached == (old(self)@.session_id == session_id),
            final(self)@ == old(self)@.after_child_spawned(session_id),
    {
        if self.session_id != session_id {
            return false;
        }
        self.child = true;
        true
    }

    /// Ends the session at `now`: every task in flight is abandoned. Says
    /// whether a worker was attached, which the caller kills.
    pub fn stop(&mut self, now: Moment) -> (kill_child: bool)
        requires
            old(self).wf(),
        ensures
            final(self).wf(),
            kill_child == old(self)@.child,
            final(self)@ == old(self)@.after_stop(now),
    {
        self.session_id = self.session_id.wrapping_add(1);
        self.restart_scheduled = false;
        self.state = WorkerState::Stopped;
        self.heartbeat.reset(now.monotonic);
        self.dispatcher.fail_all_in_flight(now.wall);
        let kill_child = self.child;
        self.child = false;
        kill_child
    }

    /// Ends the session at `now` and begins the next one. The plan holds
    /// the status as it stood in between, when the supervisor was stopped.
    pub fn restart(&mut self, now: Moment) -> (plan: RestartPlan)
        requires
            old(self).wf(),
        ensures
            final(self).wf(),
            plan.kill_child == old(self)@.child,
            old(self)@.after_stop(now).shows(plan.stopped),
            plan.stopped.state == WorkerState::Stopped,
            plan.stopped.in_flight_tasks == 0,
            plan.session_id == final(self)@.session_id,
            final(self)@ == old(self)@.after_restart(now),
            final(self)@.state == WorkerState::Starting,
    {
        self.restart_scheduled = false;
        let kill_child = self.stop(now);
        let stopped = self.status_snapshot();
        let decision = self.start(now.monotonic);
        RestartPlan { kill_child, stopped, session_id: self.session_id }
    }

    /// Checks what is handed in for a submission: neither the task type nor
    /// the project id may be blank.
    pub fn validate_submission(input: &SubmitTaskInput) -> (checked: Result<(), String>)
        ensures
            checked is Ok <==> !is_blank(input.task_type@) && !is_blank(input.project_id@),
            checked is Err ==> checked->Err_0@ == if is_blank(input.task_type@) {
                empty_field_error("task_type"@)
            } else {
                empty_field_error("project_id"@)
            },
    {
        match require_non_empty("task_type", input.task_type.as_str()) {
            Err(why) => {
                return Err(why);
            },
            Ok(_) => {},
        }
        require_non_empty("project_id", input.project_id.as_str())
    }

    /// Checks the id handed in for a cancellation: it may not be blank.
    pub fn validate_cancellation(task_id: &str) -> (checked: Result<(), String>)
        ensures
            checked is Ok <==> !is_blank(task_id@),
            checked is Err ==> checked->Err_0@ == empty_field_error("task_id"@),
    {
        require_non_empty("task_id", task_id)
    }

    /// Whether a worker has to be started before a task can be submitted.
    pub fn needs_start(&self) -> (needed: bool)
        ensures
            needed == self@.needs_start(),
    {
        !self.child && !(self.state == WorkerState::Starting)
    }

    /// The message that submits the task of `payload` to the worker, under
    /// a message id and a trace id of 36 characters each, minted for it.
    pub fn submit_envelope(payload: &TaskPayload) -> (envelope: Envelope<TaskPayload>)
        ensures
            envelope.v@ == IPC_VERSION@,
            envelope.kind == MessageKind::Command,
            envelope.event@ == EVENT_TASK_SUBMIT@,
            envelope.msg_id@.len() == 36,
            envelope.trace_id@.len() == 36,
            envelope.payload == *payload,
    {
        Envelope::new(MessageKind::Command, EVENT_TASK_SUBMIT, payload.clone())
    }

    /// The message that asks the worker to cancel `task_id`, under a message
    /// id and a trace id of 36 characters each, minted for it.
    pub fn cancel_envelope(task_id: &str) -> (envelope: Envelope<CancelPayload>)
        ensures
            envelope.v@ == IPC_VERSION@,
            envelope.kind == MessageKind::Command,
            envelope.event@ == EVENT_TASK_CANCEL@,
            envelope.msg_id@.len() == 36,
            envelope.trace_id@.len() == 36,
            envelope.payload.task_id@ == task_id@,
    {
        Envelope::new(
            MessageKind::Command,
            EVENT_TASK_CANCEL,
            CancelPayload { task_id: task_id.to_string() },
        )
    }

    /// Registers at `now` the task of `payload`, once its submission is
    /// written to the worker: the task is in flight and the supervisor busy.
    pub fn submit_task(&mut self, payload: &TaskPayload, now: i64) -> (info: TaskInfo)
        requires
            old(self).wf(),
        ensures
            final(self).wf(),
            final(self)@ == old(self)@.after_submitted(*payload, now),
            info@ == final(self)@.dispatcher.tasks[payload.task_id@],
    {
        let info = self.dispatcher.register_submission(payload, now);
        self.state = WorkerState::Busy;
        info
    }

    /// Cancels `task_id` at `now`, once the request to cancel it is written
    /// to the worker. Says whether the task was known; the supervisor is
    /// ready if nothing is left in flight.
    pub fn cancel_task(&mut self, task_id: &str, now: i64) -> (cancelled: bool)
        requires
            old(self).wf(),
        ensures
            final(self).wf(),
            cancelled == old(self)@.dispatcher.tasks.contains_key(task_id@),
            final(self)@ == old(self)@.after_cancelled(task_id@, now),
    {
        match self.dispatcher.cancel_task(task_id, now) {
            None => false,
            Some(_) => {
                if self.dispatcher.in_flight_count() == 0 {
                    self.state = WorkerState::Ready;
                }
                true
            },
        }
    }

    /// The delay before the next restart; the schedule moves on one step.
    pub fn next_backoff_delay(&mut self) -> (secs: u64)
        requires
            old(self).wf(),
        ensures
            final(self).wf(),
            secs == backoff_seconds(old(self)@.backoff_step),
            final(self)@ == (ManagerView {
                backoff_step: next_backoff_step(old(self)@.backoff_step),
                ..old(self)@
            }),
    {
        let secs = backoff_delay(self.backoff_step);
        if self.backoff_step + 1 < MAX_BACKOFF_STEP {
            self.backoff_step = self.backoff_step + 1;
        } else {
            self.backoff_step = MAX_BACKOFF_STEP;
        }
        secs
    }

    /// Records a restart at `now`, forgets the restarts at the front of the
    /// history that lie further back from `now` than the window, and says
    /// whether more are left than the circuit breaker allows. A `now` that
    /// lies before the last restart on record is recorded at the instant of
    /// that restart.
    pub fn track_restart_and_check_breaker(&mut self, now: u64) -> (broken: bool)
        requires
            old(self).wf(),
        ensures
            final(self).wf(),
            broken == (recorded(old(self)@.restart_history, now).len()
                > CIRCUIT_BREAKER_MAX_RESTARTS),
            final(self)@ == (ManagerView {
                restart_history: recorded(old(self)@.restart_history, now),
                ..old(self)@
            }),
    {
        let count: usize = self.restart_history.len();
        let at: u64 = if count > 0 && self.restart_history[count - 1] > now {
            self.restart_history[count - 1]
        } else {
            now
        };
        proof {
            lemma_recorded_in_time_order(self.restart_history@, now);
        }
        self.restart_history.push_back(at);
        let ghost pushed = self.restart_history@;
        while self.restart_history.len() > 0 && now.saturating_sub(self.restart_history[0])
            > CIRCUIT_BREAKER_WINDOW
            invariant
                self.wf(),
                evicted(self.restart_history@, now) == evicted(pushed, now),
                self@ == (ManagerView { restart_history: self.restart_history@, ..old(self)@ }),
            decreases self.restart_history@.len(),
        {
            let ghost before = self.restart_history@;
            let dropped = self.restart_history.pop_front();
            proof {
                assert(self.restart_history@ =~= before.drop_first());
                assert forall|i: int, j: int|
                    0 <= i <= j < self.restart_history@.len() implies self.restart_history@[i]
                    <= self.restart_history@[j] by {
                    assert(self.restart_history@[i] == before[i + 1]);
                    assert(self.restart_history@[j] == before[j + 1]);
                }
            }
        }
        self.restart_history.len() > CIRCUIT_BREAKER_MAX_RESTARTS
    }

    /// Notes that the worker has shown itself ready: no restart is pending,
    /// the delay schedule starts over, and the supervisor is busy exactly if
    /// a task is in flight.
    pub fn mark_ready(&mut self)
        requires
            old(self).wf(),
        ensures
            final(self).wf(),
            final(self)@ == old(self)@.marked_ready(),
    {
        self.restart_scheduled = false;
        self.backoff_step = 0;
        self.state = if self.dispatcher.in_flight_count() > 0 {
            WorkerState::Busy
        } else {
            WorkerState::Ready
        };
    }

    /// Handles one message from the worker, which the listener of session
    /// `session_id` received at `now`.
    ///
    /// A message of another protocol version asks for a restart and changes
    /// nothing. A message from a session that is over changes nothing. Of the
    /// others, `worker.hello` and `worker.heartbeat` count as a heartbeat and
    /// show the worker ready, and a hello is answered with a welcome;
    /// `task.started`, `task.progress`, `task.completed` and `task.failed`
    /// are applied to the task they speak of, unless that task has reached a
    /// terminal state: such a task takes in nothing more, and the events that
    /// are to be published show it as it stands; a payload that cannot be
    /// read asks for a restart, and so does any other message of kind error.
    pub fn handle_envelope(
        &mut self,
        session_id: u64,
        envelope: Envelope<WorkerPayload>,
        now: Moment,
    ) -> (outcome: EnvelopeOutcome)
        requires
            old(self).wf(),
        ensures
            final(self).wf(),
            final(self)@ == old(self)@.after_envelope(session_id, envelope, now),
            outcome.describes(old(self)@, final(self)@, session_id, envelope),
    {
        let mut outcome = no_outcome();
        if !text_eq(envelope.v.as_str(), IPC_VERSION) {
            outcome.restart_reason = Some(
                join2("unsupported IPC version from worker: ", envelope.v.as_str()),
            );
            return outcome;
        }
        if self.session_id != session_id {
            return outcome;
        }
        let Envelope { v: _, kind, event, msg_id: _, trace_id: _, payload } = envelope;
        let event = event.as_str();
        if text_eq(event, EVENT_WORKER_HELLO) {
            self.heartbeat.mark_heartbeat(now);
            self.mark_ready();
            outcome.status_changed = true;
            outcome.welcome_reply = Some(
                Envelope::new(
                    MessageKind::Ack,
                    EVENT_WORKER_WELCOME,
                    WelcomePayload { accepted: true },
                ),
            );
        } else if text_eq(event, EVENT_WORKER_HEARTBEAT) {
            self.heartbeat.mark_heartbeat(now);
            self.mark_ready();
            outcome.status_changed = true;
        } else if text_eq(event, EVENT_TASK_STARTED) {
            if let Some(task_id) = payload.task_id {
                outcome.progress_event = self.dispatcher.mark_started(task_id.as_str(), now.wall);
            }
            self.state = WorkerState::Busy;
            outcome.status_changed = true;
        } else if text_eq(event, EVENT_TASK_PROGRESS) {
            match payload.progress {
                Ok(report) => {
                    outcome.progress_event = self.dispatcher.apply_progress(report, now.wall);
                    self.state = WorkerState::Busy;
                    outcome.status_changed = true;
                },
                Err(why) => {
                    outcome.restart_reason = Some(
                        join2("invalid task.progress payload: ", why.as_str()),
                    );
                },
            }
        } else if text_eq(event, EVENT_TASK_COMPLETED) || text_eq(event, EVENT_TASK_FAILED) {
            match payload.result {
                Ok(result) => {
                    let is_failure = text_eq(event, EVENT_TASK_FAILED) || result.error.is_some();
                    let info = self.dispatcher.apply_result(result, now.wall);
                    if is_failure {
                        outcome.failed_event = info;
                    } else {
                        outcome.completed_event = info;
                    }
                    self.mark_ready();
                    outcome.status_changed = true;
                },
                Err(why) => {
                    outcome.restart_reason = Some(
                        join2("invalid task result payload: ", why.as_str()),
                    );
                },
            }
        } else if kind == MessageKind::Error {
            outcome.restart_reason = Some(join2("worker error event: ", event));
        }
        outcome
    }

    /// Asks at `now` for a restart of the current session. Nothing happens
    /// where a restart is pending already or the supervisor is stopped or its
    /// circuit breaker open. Otherwise the restart is recorded; with more
    /// than five restarts within the last ten minutes the circuit breaker
    /// opens, with fewer the restart is scheduled after the next delay of
    /// the schedule.
    pub fn schedule_restart(&mut self, now: u64) -> (decision: RestartDecision)
        requires
            old(self).wf(),
        ensures
            final(self).wf(),
            decision == old(self)@.restart_decision(now),
            final(self)@ == old(self)@.after_schedule_restart(now),
    {
        if self.restart_scheduled || self.state == WorkerState::Stopped || self.state
            == WorkerState::CircuitBroken {
            return RestartDecision::Ignored;
        }
        if self.track_restart_and_check_breaker(now) {
            self.state = WorkerState::CircuitBroken;
            self.restart_scheduled = false;
            RestartDecision::CircuitBroken
        } else {
            self.state = WorkerState::Unhealthy;
            self.restart_scheduled = true;
            let delay_secs = self.next_backoff_delay();
            RestartDecision::Delayed { delay_secs, session_id: self.session_id }
        }
    }

    /// Decides, once the delay of the restart scheduled for session
    /// `session_id` is over, whether the restart is still wanted: it is if
    /// that session is still the current one, the restart still pending and
    /// the supervisor still unhealthy. The restart is no longer pending
    /// afterwards.
    pub fn restart_due(&mut self, session_id: u64) -> (due: bool)
        requires
            old(self).wf(),
        ensures
            final(self).wf(),
            due == old(self)@.restart_due(session_id),
            final(self)@ == old(self)@.after_restart_due(session_id),
    {
        if self.session_id != session_id || !self.restart_scheduled || !(self.state
            == WorkerState::Unhealthy) {
            false
        } else {
            self.restart_scheduled = false;
            true
        }
    }

    /// Notes that the worker's stream of session `session_id` has ended. If
    /// that session is still the current one, the worker is detached, for
    /// the caller to kill, and the supervisor is unhealthy unless it is
    /// stopped or its circuit breaker open.
    pub fn mark_unhealthy(&mut self, session_id: u64) -> (mark: UnhealthyMark)
        requires
            old(self).wf(),
        ensures
            final(self).wf(),
            mark == old(self)@.unhealthy_mark(session_id),
            final(self)@ == old(self)@.after_mark_unhealthy(session_id),
    {
        if self.session_id != session_id {
            return UnhealthyMark { kill_child: false, marked: false };
        }
        let kill_child = self.child;
        self.child = false;
        if self.state == WorkerState::Stopped || self.state == WorkerState::CircuitBroken {
            return UnhealthyMark { kill_child, marked: false };
        }
        self.state = WorkerState::Unhealthy;
        UnhealthyMark { kill_child, marked: true }
    }

    /// How long the heartbeat poller of session `session_id` sleeps before
    /// its next round, in nanoseconds; `None` once that session is over.
    pub fn poll_interval(&self, session_id: u64) -> (interval: Option<u64>)
        ensures
            interval == if self@.session_id == session_id {
                Some(self@.heartbeat.interval)
            } else {
                None
            },
    {
        if self.session_id != session_id {
            None
        } else {
            Some(self.heartbeat.interval())
        }
    }

    /// One round of the heartbeat poller of session `session_id`, at `now`.
    pub fn poll_heartbeat(&mut self, session_id: u64, now: u64) -> (decision: PollDecision)
        requires
            old(self).wf(),
        ensures
            final(self).wf(),
            decision == old(self)@.poll_decision(session_id, now),
            final(self)@ == old(self)@.after_poll(session_id, now),
    {
        if self.session_id != session_id {
            return PollDecision::Exit;
        }
        if self.state == WorkerState::Stopped || self.state == WorkerState::CircuitBroken {
            return PollDecision::Exit;
        }
        if self.heartbeat.check(now) == HeartbeatCheck::Unhealthy {
            self.state = WorkerState::Unhealthy;
            PollDecision::Restart
        } else {
            PollDecision::Continue
        }
    }
}

} // verus!
