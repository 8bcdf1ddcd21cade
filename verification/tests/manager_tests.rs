use serde_json::Value;
use worker_supervisor::clock::Moment;
use worker_supervisor::dispatcher::{SubmitTaskInput, TaskInfo};
use worker_supervisor::manager::{
    backoff_delay, PollDecision, RestartDecision, StartDecision, WorkerManager, WorkerState,
};
use worker_supervisor::models::TaskStatus;
use worker_supervisor::protocol::{
    Envelope, MessageKind, ProgressPayload, TaskPayload, TaskResultPayload, WorkerPayload,
};

const SECOND: u64 = 1_000_000_000;
const MINUTE: u64 = 60 * SECOND;

fn at(seconds: u64) -> Moment {
    Moment { monotonic: seconds * SECOND, wall: (seconds * SECOND) as i64 + 1_700_000_000_000_000_000 }
}

fn unread() -> WorkerPayload {
    WorkerPayload {
        task_id: None,
        progress: Err("missing field `task_id`".to_string()),
        result: Err("missing field `task_id`".to_string()),
    }
}

fn message(kind: MessageKind, event: &str, payload: WorkerPayload) -> Envelope<WorkerPayload> {
    Envelope::new(kind, event, payload)
}

fn hello() -> Envelope<WorkerPayload> {
    message(MessageKind::Event, "worker.hello", unread())
}

fn heartbeat() -> Envelope<WorkerPayload> {
    message(MessageKind::Event, "worker.heartbeat", unread())
}

fn started(task_id: &str) -> Envelope<WorkerPayload> {
    let mut payload = unread();
    payload.task_id = Some(task_id.to_string());
    payload.progress = Err("missing field `progress`".to_string());
    payload.result = Err("missing field `status`".to_string());
    message(MessageKind::Event, "task.started", payload)
}

fn progress(task_id: &str, millionths: i64) -> Envelope<WorkerPayload> {
    let mut payload = unread();
    payload.task_id = Some(task_id.to_string());
    payload.progress = Ok(ProgressPayload {
        task_id: task_id.to_string(),
        progress: millionths,
        message: None,
    });
    payload.result = Err("missing field `status`".to_string());
    message(MessageKind::Event, "task.progress", payload)
}

fn finished(
    event: &str,
    task_id: &str,
    status: &str,
    output: Option<Value>,
    error: Option<&str>,
) -> Envelope<WorkerPayload> {
    let mut payload = unread();
    payload.task_id = Some(task_id.to_string());
    payload.result = Ok(TaskResultPayload {
        task_id: task_id.to_string(),
        status: status.to_string(),
        output,
        error: error.map(|e| e.to_string()),
    });
    message(MessageKind::Event, event, payload)
}

fn input(task_type: &str, project_id: &str) -> SubmitTaskInput {
    SubmitTaskInput {
        task_type: task_type.to_string(),
        project_id: project_id.to_string(),
        config: serde_json::from_str("{}").unwrap(),
    }
}

fn state(manager: &WorkerManager) -> WorkerState {
    manager.get_status().state
}

fn task(manager: &WorkerManager, task_id: &str) -> TaskInfo {
    manager.list_tasks().into_iter().find(|t| t.task_id == task_id).unwrap()
}

/// A manager whose worker is attached and has said hello.
fn running() -> (WorkerManager, u64) {
    let mut manager = WorkerManager::new();
    let session = match manager.start(0) {
        StartDecision::Spawn { session_id } => session_id,
        other => panic!("no spawn: {:?}", other),
    };
    assert!(manager.child_spawned(session));
    manager.handle_envelope(session, hello(), at(0));
    (manager, session)
}

fn submit(manager: &mut WorkerManager, now: Moment) -> TaskPayload {
    let input = input("render", "p1");
    assert!(WorkerManager::validate_submission(&input).is_ok());
    let payload = TaskPayload::new(input);
    manager.submit_task(&payload, now.wall);
    payload
}

#[test]
fn new_manager_is_stopped() {
    let manager = WorkerManager::new();
    let status = manager.get_status();
    assert_eq!(status.state, WorkerState::Stopped);
    assert_eq!(status.last_heartbeat, None);
    assert_eq!(status.restart_count_10m, 0);
    assert_eq!(status.in_flight_tasks, 0);
    assert_eq!(manager.session_id(), 0);
    assert!(manager.needs_start());
    assert!(manager.list_tasks().is_empty());
    assert_eq!(manager.poll_interval(0), Some(2 * SECOND));
    assert_eq!(manager.poll_interval(1), None);
}

#[test]
fn happy_path() {
    let mut manager = WorkerManager::new();
    let mut timeline = Vec::new();

    let session = match manager.start(0) {
        StartDecision::Spawn { session_id } => session_id,
        other => panic!("no spawn: {:?}", other),
    };
    assert!(manager.child_spawned(session));
    timeline.push(state(&manager));

    let outcome = manager.handle_envelope(session, hello(), at(1));
    assert!(outcome.status_changed);
    let reply = outcome.welcome_reply.unwrap();
    assert_eq!(reply.v, "1.0");
    assert_eq!(reply.kind, MessageKind::Ack);
    assert_eq!(reply.event, "worker.welcome");
    assert_eq!(reply.msg_id.chars().count(), 36);
    assert_eq!(reply.trace_id.chars().count(), 36);
    assert!(reply.payload.accepted);
    assert!(outcome.restart_reason.is_none());
    timeline.push(state(&manager));

    let request = input("render", "p1");
    assert!(WorkerManager::validate_submission(&request).is_ok());
    assert!(!manager.needs_start());
    let payload = TaskPayload::new(request);
    let envelope = WorkerManager::submit_envelope(&payload);
    assert_eq!(envelope.kind, MessageKind::Command);
    assert_eq!(envelope.event, "task.submit");
    assert_eq!(envelope.v, "1.0");
    assert_eq!(envelope.msg_id.chars().count(), 36);
    assert_eq!(envelope.trace_id.chars().count(), 36);
    assert_eq!(envelope.payload.task_id, payload.task_id);
    assert_eq!(envelope.payload.task_type, "render");
    assert_eq!(envelope.payload.project_id, "p1");
    let registered = manager.submit_task(&payload, at(2).wall);
    assert_eq!(registered.status, TaskStatus::Pending);
    let id = payload.task_id.clone();
    assert_eq!(id.len(), 36);
    assert_eq!(manager.list_tasks().len(), 1);
    assert_eq!(state(&manager), WorkerState::Busy);

    let outcome = manager.handle_envelope(session, started(&id), at(3));
    assert_eq!(outcome.progress_event.unwrap().status, TaskStatus::Running);
    timeline.push(state(&manager));

    for (k, millionths) in [250_000i64, 500_000, 750_000].into_iter().enumerate() {
        let outcome = manager.handle_envelope(session, progress(&id, millionths), at(4 + k as u64));
        assert!(outcome.status_changed);
        assert_eq!(outcome.progress_event.unwrap().progress as i64, millionths);
        timeline.push(state(&manager));
    }

    let output: Value = serde_json::from_str("{\"frames\":120}").unwrap();
    let outcome = manager.handle_envelope(
        session,
        finished("task.completed", &id, "completed", Some(output.clone()), None),
        at(8),
    );
    assert!(outcome.failed_event.is_none());
    let done = outcome.completed_event.unwrap();
    assert_eq!(done.status, TaskStatus::Completed);
    timeline.push(state(&manager));

    assert_eq!(
        timeline,
        vec![
            WorkerState::Starting,
            WorkerState::Ready,
            WorkerState::Busy,
            WorkerState::Busy,
            WorkerState::Busy,
            WorkerState::Busy,
            WorkerState::Ready,
        ]
    );
    let last = task(&manager, &id);
    assert_eq!(last.status, TaskStatus::Completed);
    assert_eq!(last.progress, 1_000_000);
    assert_eq!(last.output, Some(output));
    assert_eq!(last.error, None);
    assert_eq!(manager.get_status().in_flight_tasks, 0);
}

#[test]
fn cancel_during_progress() {
    let (mut manager, session) = running();
    let payload = submit(&mut manager, at(1));
    let id = payload.task_id.clone();
    manager.handle_envelope(session, progress(&id, 500_000), at(2));
    assert_eq!(state(&manager), WorkerState::Busy);

    assert!(WorkerManager::validate_cancellation(&id).is_ok());
    assert!(manager.contains_task(&id));
    let envelope = WorkerManager::cancel_envelope(&id);
    assert_eq!(envelope.kind, MessageKind::Command);
    assert_eq!(envelope.event, "task.cancel");
    assert_eq!(envelope.v, "1.0");
    assert_eq!(envelope.msg_id.chars().count(), 36);
    assert_eq!(envelope.trace_id.chars().count(), 36);
    assert_eq!(envelope.payload.task_id, id);
    assert!(manager.cancel_task(&id, at(3).wall));

    let cancelled = task(&manager, &id);
    assert_eq!(cancelled.status, TaskStatus::Cancelled);
    assert_eq!(cancelled.progress, 500_000);
    assert_eq!(state(&manager), WorkerState::Ready);
    assert_eq!(manager.get_status().in_flight_tasks, 0);
}

#[test]
fn cancel_leaves_the_manager_busy_while_tasks_are_in_flight() {
    let (mut manager, _session) = running();
    let first = submit(&mut manager, at(1));
    let _second = submit(&mut manager, at(2));
    assert!(manager.cancel_task(&first.task_id, at(3).wall));
    assert_eq!(state(&manager), WorkerState::Busy);
    assert_eq!(manager.get_status().in_flight_tasks, 1);
}

#[test]
fn cancel_of_an_unknown_task() {
    let (mut manager, _session) = running();
    assert!(!manager.contains_task("ghost"));
    assert!(!manager.cancel_task("ghost", at(1).wall));
    assert_eq!(state(&manager), WorkerState::Ready);
}

#[test]
fn blank_fields_are_refused() {
    let no_type = WorkerManager::validate_submission(&input("  ", "p1"));
    assert_eq!(no_type, Err("task_type cannot be empty".to_string()));
    let no_project = WorkerManager::validate_submission(&input("render", "\t"));
    assert_eq!(no_project, Err("project_id cannot be empty".to_string()));
    let neither = WorkerManager::validate_submission(&input("", ""));
    assert_eq!(neither, Err("task_type cannot be empty".to_string()));
    assert_eq!(
        WorkerManager::validate_cancellation(" \n"),
        Err("task_id cannot be empty".to_string())
    );
}

#[test]
fn start_is_idempotent() {
    let mut manager = WorkerManager::new();
    let first = manager.start(0);
    assert_eq!(first, StartDecision::Spawn { session_id: 1 });
    assert!(manager.child_spawned(1));
    assert_eq!(manager.start(5), StartDecision::AlreadyRunning);
    assert_eq!(manager.session_id(), 1);
    assert_eq!(state(&manager), WorkerState::Starting);
}

#[test]
fn start_before_the_worker_is_attached_begins_another_session() {
    let mut manager = WorkerManager::new();
    assert_eq!(manager.start(0), StartDecision::Spawn { session_id: 1 });
    assert!(!manager.needs_start());
    assert_eq!(manager.start(1), StartDecision::Spawn { session_id: 2 });
    // The worker of the first session comes too late and is not attached.
    assert!(!manager.child_spawned(1));
    assert!(manager.child_spawned(2));
    assert_eq!(manager.start(2), StartDecision::AlreadyRunning);
}

#[test]
fn failed_spawn_stops_the_session() {
    let mut manager = WorkerManager::new();
    assert_eq!(manager.start(0), StartDecision::Spawn { session_id: 1 });
    manager.spawn_failed(1);
    assert_eq!(state(&manager), WorkerState::Stopped);
    assert_eq!(manager.start(1), StartDecision::Spawn { session_id: 2 });
    manager.spawn_failed(1);
    assert_eq!(state(&manager), WorkerState::Starting);
}

#[test]
fn stop_fails_tasks_in_flight_and_ends_the_session() {
    let (mut manager, session) = running();
    let first = submit(&mut manager, at(1));
    let second = submit(&mut manager, at(2));
    manager.handle_envelope(
        session,
        finished("task.completed", &second.task_id, "completed", None, None),
        at(3),
    );
    assert!(manager.stop(at(4)));
    assert_eq!(state(&manager), WorkerState::Stopped);
    assert_eq!(manager.session_id(), session + 1);
    assert!(!manager.is_session_active(session));
    assert_eq!(manager.get_status().in_flight_tasks, 0);
    assert_eq!(manager.get_status().last_heartbeat, None);

    let failed = task(&manager, &first.task_id);
    assert_eq!(failed.status, TaskStatus::Failed);
    assert!(failed.error.unwrap().contains("worker stopped"));
    assert_eq!(task(&manager, &second.task_id).status, TaskStatus::Completed);
    // A second stop finds no worker to kill.
    assert!(!manager.stop(at(5)));
}

#[test]
fn messages_of_a_stopped_session_are_ignored() {
    let (mut manager, session) = running();
    let payload = submit(&mut manager, at(1));
    manager.stop(at(2));
    let before = task(&manager, &payload.task_id);

    let outcome = manager.handle_envelope(session, progress(&payload.task_id, 900_000), at(3));
    assert!(!outcome.status_changed);
    assert!(outcome.progress_event.is_none());
    assert!(outcome.restart_reason.is_none());

    let after = task(&manager, &payload.task_id);
    assert_eq!(after.status, before.status);
    assert_eq!(after.progress, before.progress);
    assert_eq!(after.updated_at, before.updated_at);
    assert_eq!(state(&manager), WorkerState::Stopped);
}

#[test]
fn version_mismatch() {
    let (mut manager, session) = running();
    let payload = submit(&mut manager, at(1));
    let mut envelope = progress(&payload.task_id, 900_000);
    envelope.v = "2.0".to_string();
    let outcome = manager.handle_envelope(session, envelope, at(2));
    assert_eq!(
        outcome.restart_reason.as_deref(),
        Some("unsupported IPC version from worker: 2.0")
    );
    assert!(!outcome.status_changed);
    assert!(outcome.progress_event.is_none());
    let unchanged = task(&manager, &payload.task_id);
    assert_eq!(unchanged.status, TaskStatus::Pending);
    assert_eq!(unchanged.progress, 0);

    let decision = manager.schedule_restart(at(2).monotonic);
    assert_eq!(decision, RestartDecision::Delayed { delay_secs: 1, session_id: session });
    assert_eq!(state(&manager), WorkerState::Unhealthy);
}

#[test]
fn heartbeat_timeout() {
    let (mut manager, session) = running();
    assert_eq!(manager.poll_interval(session), Some(2 * SECOND));
    assert_eq!(manager.poll_heartbeat(session, 2 * SECOND), PollDecision::Continue);
    assert_eq!(manager.poll_heartbeat(session, 4 * SECOND), PollDecision::Continue);
    assert_eq!(state(&manager), WorkerState::Ready);
    assert_eq!(manager.poll_heartbeat(session, 6 * SECOND), PollDecision::Restart);
    assert_eq!(state(&manager), WorkerState::Unhealthy);
    assert_eq!(PollDecision::Restart.restart_reason(), Some("heartbeat timeout".to_string()));
    assert_eq!(PollDecision::Continue.restart_reason(), None);
    assert_eq!(PollDecision::Exit.restart_reason(), None);

    let decision = manager.schedule_restart(6 * SECOND);
    assert_eq!(decision, RestartDecision::Delayed { delay_secs: 1, session_id: session });
    assert_eq!(manager.get_status().restart_count_10m, 1);
    // While the restart is pending no other is scheduled.
    assert_eq!(manager.schedule_restart(6 * SECOND), RestartDecision::Ignored);
    assert_eq!(manager.get_status().restart_count_10m, 1);
}

#[test]
fn heartbeat_keeps_the_session_healthy() {
    let (mut manager, session) = running();
    let mut second: u64 = 1;
    while second <= 20 {
        if second % 2 == 1 {
            let outcome = manager.handle_envelope(session, heartbeat(), at(second));
            assert!(outcome.status_changed);
            assert!(outcome.welcome_reply.is_none());
        } else {
            let decision = manager.poll_heartbeat(session, second * SECOND);
            assert_eq!(decision, PollDecision::Continue);
        }
        second += 1;
    }
    assert_eq!(state(&manager), WorkerState::Ready);
    let last = manager.get_status().last_heartbeat.unwrap();
    assert_eq!(last, worker_supervisor::clock::rfc3339(at(19).wall));
}

#[test]
fn poller_of_an_old_session_ends() {
    let (mut manager, session) = running();
    manager.stop(at(1));
    assert_eq!(manager.poll_heartbeat(session, 100 * SECOND), PollDecision::Exit);
    assert_eq!(manager.poll_interval(session), None);
    let next = manager.session_id();
    assert_eq!(manager.poll_heartbeat(next, 100 * SECOND), PollDecision::Exit);
}

#[test]
fn delays_follow_the_schedule() {
    let expected = [1u64, 2, 4, 8, 16, 30, 30, 30];
    for (step, secs) in expected.iter().enumerate() {
        assert_eq!(backoff_delay(step), *secs);
    }

    let (mut manager, _session) = running();
    let mut now: u64 = 0;
    let mut seen = Vec::new();
    for _ in 0..8 {
        // Far enough apart for the circuit breaker to stay closed.
        now += 11 * MINUTE;
        let session = manager.session_id();
        match manager.schedule_restart(now) {
            RestartDecision::Delayed { delay_secs, session_id } => {
                assert_eq!(session_id, session);
                seen.push(delay_secs);
            }
            other => panic!("not delayed: {:?}", other),
        }
        assert!(manager.restart_due(session));
        let plan = manager.restart(Moment { monotonic: now, wall: 0 });
        assert!(manager.child_spawned(plan.session_id));
    }
    assert_eq!(seen, expected);
}

#[test]
fn ready_worker_starts_the_schedule_over() {
    let (mut manager, _session) = running();
    let mut now: u64 = 0;
    for expected in [1u64, 2, 4] {
        now += 11 * MINUTE;
        let session = manager.session_id();
        assert_eq!(
            manager.schedule_restart(now),
            RestartDecision::Delayed { delay_secs: expected, session_id: session }
        );
        assert!(manager.restart_due(session));
        let plan = manager.restart(Moment { monotonic: now, wall: 0 });
        assert!(manager.child_spawned(plan.session_id));
    }
    let session = manager.session_id();
    manager.handle_envelope(session, hello(), Moment { monotonic: now, wall: 0 });
    assert_eq!(state(&manager), WorkerState::Ready);
    now += 11 * MINUTE;
    assert_eq!(
        manager.schedule_restart(now),
        RestartDecision::Delayed { delay_secs: 1, session_id: session }
    );
}

#[test]
fn circuit_breaker() {
    let (mut manager, _session) = running();
    let mut now: u64 = 0;
    for k in 0..5 {
        now += 30 * SECOND;
        let session = manager.session_id();
        match manager.schedule_restart(now) {
            RestartDecision::Delayed { .. } => {}
            other => panic!("crash {} not delayed: {:?}", k + 1, other),
        }
        assert_eq!(manager.get_status().restart_count_10m, k + 1);
        assert!(manager.restart_due(session));
        let plan = manager.restart(Moment { monotonic: now, wall: 0 });
        assert!(plan.kill_child);
        assert!(manager.child_spawned(plan.session_id));
    }
    now += 30 * SECOND;
    assert!(now <= 3 * MINUTE);
    assert_eq!(manager.schedule_restart(now), RestartDecision::CircuitBroken);
    assert_eq!(manager.get_status().restart_count_10m, 6);
    assert_eq!(state(&manager), WorkerState::CircuitBroken);
    assert_eq!(manager.start(now), StartDecision::CircuitOpen);
    assert_eq!(
        manager.start(now).refusal(),
        Some("worker circuit breaker is open".to_string())
    );
    assert_eq!(state(&manager), WorkerState::CircuitBroken);
    assert_eq!(manager.schedule_restart(now + SECOND), RestartDecision::Ignored);
    assert!(!manager.restart_due(manager.session_id()));
}

#[test]
fn old_restarts_leave_the_window() {
    let (mut manager, _session) = running();
    let mut now: u64 = 0;
    for _ in 0..5 {
        now += SECOND;
        let session = manager.session_id();
        assert!(matches!(manager.schedule_restart(now), RestartDecision::Delayed { .. }));
        assert!(manager.restart_due(session));
        let plan = manager.restart(Moment { monotonic: now, wall: 0 });
        assert!(manager.child_spawned(plan.session_id));
    }
    // Exactly ten minutes after the first restart it still counts.
    let mut probe = WorkerManager::new();
    assert_eq!(probe.start(0), StartDecision::Spawn { session_id: 1 });
    assert!(matches!(probe.schedule_restart(SECOND), RestartDecision::Delayed { .. }));
    assert!(probe.restart_due(1));
    assert!(matches!(probe.schedule_restart(SECOND + 10 * MINUTE), RestartDecision::Delayed { .. }));
    assert_eq!(probe.get_status().restart_count_10m, 2);
    assert!(probe.restart_due(1));
    assert!(matches!(probe.schedule_restart(2 * SECOND + 10 * MINUTE), RestartDecision::Delayed { .. }));
    assert_eq!(probe.get_status().restart_count_10m, 2);

    // More than ten minutes after all five, the sixth restart is the only one.
    now += 10 * MINUTE + 1;
    assert!(matches!(manager.schedule_restart(now), RestartDecision::Delayed { .. }));
    assert_eq!(manager.get_status().restart_count_10m, 1);
}

#[test]
fn restart_is_dropped_when_the_session_has_changed() {
    let (mut manager, session) = running();
    assert!(matches!(manager.schedule_restart(SECOND), RestartDecision::Delayed { .. }));
    manager.stop(at(2));
    assert!(!manager.restart_due(session));
    assert!(!manager.restart_due(manager.session_id()));

    let (mut manager, session) = running();
    assert!(matches!(manager.schedule_restart(SECOND), RestartDecision::Delayed { .. }));
    manager.handle_envelope(session, heartbeat(), at(2));
    assert!(!manager.restart_due(session));
}

#[test]
fn end_of_the_stream_marks_the_session_unhealthy() {
    let (mut manager, session) = running();
    let stale = manager.mark_unhealthy(session + 1);
    assert!(!stale.kill_child);
    assert!(!stale.marked);
    assert_eq!(state(&manager), WorkerState::Ready);

    let mark = manager.mark_unhealthy(session);
    assert!(mark.kill_child);
    assert!(mark.marked);
    assert_eq!(state(&manager), WorkerState::Unhealthy);
    assert!(manager.needs_start());

    manager.stop(at(1));
    let after_stop = manager.mark_unhealthy(manager.session_id());
    assert!(!after_stop.kill_child);
    assert!(!after_stop.marked);
    assert_eq!(state(&manager), WorkerState::Stopped);
}

#[test]
fn unreadable_payloads_ask_for_a_restart() {
    let (mut manager, session) = running();
    let bad_progress = message(MessageKind::Event, "task.progress", unread());
    let outcome = manager.handle_envelope(session, bad_progress, at(1));
    assert_eq!(
        outcome.restart_reason.as_deref(),
        Some("invalid task.progress payload: missing field `task_id`")
    );
    assert!(!outcome.status_changed);

    let bad_result = message(MessageKind::Event, "task.failed", unread());
    let outcome = manager.handle_envelope(session, bad_result, at(1));
    assert_eq!(
        outcome.restart_reason.as_deref(),
        Some("invalid task result payload: missing field `task_id`")
    );

    let error = message(MessageKind::Error, "worker.crashed", unread());
    let outcome = manager.handle_envelope(session, error, at(1));
    assert_eq!(outcome.restart_reason.as_deref(), Some("worker error event: worker.crashed"));

    let other = message(MessageKind::Event, "worker.log", unread());
    let outcome = manager.handle_envelope(session, other, at(1));
    assert!(outcome.restart_reason.is_none());
    assert!(!outcome.status_changed);
    assert_eq!(state(&manager), WorkerState::Ready);
}

#[test]
fn failure_is_told_by_the_event_or_by_an_error() {
    let (mut manager, session) = running();
    let a = submit(&mut manager, at(1));
    let b = submit(&mut manager, at(1));
    let c = submit(&mut manager, at(1));

    let outcome = manager.handle_envelope(
        session,
        finished("task.failed", &a.task_id, "failed", None, None),
        at(2),
    );
    assert!(outcome.completed_event.is_none());
    assert_eq!(outcome.failed_event.unwrap().status, TaskStatus::Failed);
    assert_eq!(state(&manager), WorkerState::Busy);

    let outcome = manager.handle_envelope(
        session,
        finished("task.completed", &b.task_id, "completed", None, Some("late error")),
        at(3),
    );
    assert!(outcome.completed_event.is_none());
    let told = outcome.failed_event.unwrap();
    assert_eq!(told.status, TaskStatus::Failed);
    assert_eq!(told.error.as_deref(), Some("late error"));

    let outcome = manager.handle_envelope(
        session,
        finished("task.completed", &c.task_id, "completed", None, None),
        at(4),
    );
    assert!(outcome.failed_event.is_none());
    assert_eq!(outcome.completed_event.unwrap().progress, 1_000_000);
    assert_eq!(state(&manager), WorkerState::Ready);
}

#[test]
fn started_without_a_task_id_only_makes_the_manager_busy() {
    let (mut manager, session) = running();
    let outcome = manager.handle_envelope(session, message(MessageKind::Event, "task.started", unread()), at(1));
    assert!(outcome.status_changed);
    assert!(outcome.progress_event.is_none());
    assert_eq!(state(&manager), WorkerState::Busy);
    let outcome = manager.handle_envelope(session, started("ghost"), at(2));
    assert!(outcome.progress_event.is_none());
    assert!(!manager.contains_task("ghost"));
}

#[test]
fn status_snapshot_is_what_get_status_gives() {
    let (mut manager, session) = running();
    submit(&mut manager, at(1));
    manager.handle_envelope(session, heartbeat(), at(2));
    let a = manager.get_status();
    let b = manager.status_snapshot();
    assert_eq!(a.state, b.state);
    assert_eq!(a.last_heartbeat, b.last_heartbeat);
    assert_eq!(a.restart_count_10m, b.restart_count_10m);
    assert_eq!(a.in_flight_tasks, b.in_flight_tasks);
    assert_eq!(a.state, WorkerState::Busy);
    assert_eq!(a.in_flight_tasks, 1);
}

#[test]
fn restart_begins_the_session_after_the_next() {
    let (mut manager, session) = running();
    let payload = submit(&mut manager, at(1));
    let plan = manager.restart(at(2));
    assert!(plan.kill_child);
    assert_eq!(plan.stopped.state, WorkerState::Stopped);
    assert_eq!(plan.stopped.in_flight_tasks, 0);
    assert_eq!(plan.stopped.last_heartbeat, None);
    assert_eq!(plan.stopped.restart_count_10m, 0);
    assert_eq!(plan.session_id, session + 2);
    assert_eq!(manager.session_id(), session + 2);
    assert_eq!(state(&manager), WorkerState::Starting);
    assert_eq!(task(&manager, &payload.task_id).status, TaskStatus::Failed);
}

#[test]
fn late_completion_of_a_cancelled_task_is_absorbed() {
    let (mut manager, session) = running();
    let payload = submit(&mut manager, at(1));
    let id = payload.task_id.clone();
    manager.handle_envelope(session, progress(&id, 500_000), at(2));
    assert!(manager.cancel_task(&id, at(3).wall));
    let before = task(&manager, &id);
    assert_eq!(before.status, TaskStatus::Cancelled);

    let output: Value = serde_json::from_str("{\"frames\":120}").unwrap();
    let outcome = manager.handle_envelope(
        session,
        finished("task.completed", &id, "completed", Some(output), None),
        at(4),
    );
    assert_eq!(outcome.completed_event.unwrap().status, TaskStatus::Cancelled);
    manager.handle_envelope(session, progress(&id, 900_000), at(5));
    manager.handle_envelope(session, started(&id), at(6));
    manager.handle_envelope(session, heartbeat(), at(7));

    let after = task(&manager, &id);
    assert_eq!(after.status, TaskStatus::Cancelled);
    assert_eq!(after.progress, 500_000);
    assert_eq!(after.output, None);
    assert_eq!(after.updated_at, before.updated_at);
    assert_eq!(manager.get_status().in_flight_tasks, 0);
    assert_eq!(state(&manager), WorkerState::Ready);
}

#[test]
fn start_refuses_only_when_the_breaker_is_open() {
    assert_eq!(StartDecision::AlreadyRunning.refusal(), None);
    assert_eq!(StartDecision::Spawn { session_id: 3 }.refusal(), None);
    assert_eq!(
        StartDecision::CircuitOpen.refusal(),
        Some("worker circuit breaker is open".to_string())
    );
}

#[test]
fn ready_mark_resets_the_schedule() {
    let (mut manager, _session) = running();
    assert_eq!(manager.next_backoff_delay(), 1);
    assert_eq!(manager.next_backoff_delay(), 2);
    assert_eq!(manager.next_backoff_delay(), 4);
    submit(&mut manager, at(1));
    manager.mark_ready();
    assert_eq!(state(&manager), WorkerState::Busy);
    assert_eq!(manager.next_backoff_delay(), 1);
    let mut idle = WorkerManager::new();
    for expected in [1u64, 2, 4, 8, 16, 30, 30] {
        assert_eq!(idle.next_backoff_delay(), expected);
    }
    idle.mark_ready();
    assert_eq!(state(&idle), WorkerState::Ready);
    assert_eq!(idle.next_backoff_delay(), 1);
}

#[test]
fn sixth_restart_within_three_minutes_breaks_the_circuit() {
    let mut manager = WorkerManager::new();
    let mut now: u64 = 0;
    for k in 0..5 {
        now += 30 * SECOND;
        assert!(!manager.track_restart_and_check_breaker(now));
        assert_eq!(manager.get_status().restart_count_10m, k + 1);
    }
    now += 30 * SECOND;
    assert!(manager.track_restart_and_check_breaker(now));
    assert_eq!(manager.get_status().restart_count_10m, 6);
}

#[test]
fn restart_before_the_last_one_counts_at_the_last_one() {
    let mut manager = WorkerManager::new();
    assert!(!manager.track_restart_and_check_breaker(20 * MINUTE));
    // A reading that lies before the last restart is recorded at the
    // instant of that restart, so the history stays in the order of time.
    assert!(!manager.track_restart_and_check_breaker(MINUTE));
    assert_eq!(manager.get_status().restart_count_10m, 2);
    assert!(!manager.track_restart_and_check_breaker(31 * MINUTE));
    assert_eq!(manager.get_status().restart_count_10m, 1);
}
