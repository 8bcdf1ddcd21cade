use serde_json::Value;
use worker_supervisor::dispatcher::{
    clamp, map_worker_status, TaskInfo, WorkerDispatcher, PROGRESS_FULL,
};
use worker_supervisor::models::TaskStatus;
use worker_supervisor::protocol::{ProgressPayload, TaskPayload, TaskResultPayload};

fn empty_object() -> Value {
    serde_json::from_str("{}").unwrap()
}

fn payload(task_id: &str) -> TaskPayload {
    TaskPayload {
        task_id: task_id.to_string(),
        task_type: "render".to_string(),
        project_id: "p1".to_string(),
        config: empty_object(),
    }
}

fn progress(task_id: &str, progress: i64, message: Option<&str>) -> ProgressPayload {
    ProgressPayload {
        task_id: task_id.to_string(),
        progress,
        message: message.map(|m| m.to_string()),
    }
}

fn result(task_id: &str, status: &str, output: Option<Value>, error: Option<&str>) -> TaskResultPayload {
    TaskResultPayload {
        task_id: task_id.to_string(),
        status: status.to_string(),
        output,
        error: error.map(|e| e.to_string()),
    }
}

fn find(dispatcher: &WorkerDispatcher, task_id: &str) -> TaskInfo {
    dispatcher
        .list_tasks()
        .into_iter()
        .find(|t| t.task_id == task_id)
        .unwrap()
}

#[test]
fn new_registry_is_empty() {
    let dispatcher = WorkerDispatcher::new();
    assert_eq!(dispatcher.in_flight_count(), 0);
    assert!(dispatcher.list_tasks().is_empty());
    assert!(!dispatcher.contains_task("t1"));
}

#[test]
fn submission_is_queued_and_in_flight() {
    let mut dispatcher = WorkerDispatcher::new();
    let info = dispatcher.register_submission(&payload("t1"), 100);
    assert_eq!(info.task_id, "t1");
    assert_eq!(info.task_type, "render");
    assert_eq!(info.project_id, "p1");
    assert_eq!(info.status, TaskStatus::Pending);
    assert_eq!(info.progress, 0);
    assert_eq!(info.message.as_deref(), Some("queued"));
    assert_eq!(info.output, None);
    assert_eq!(info.error, None);
    assert_eq!(info.created_at, 100);
    assert_eq!(info.updated_at, 100);
    assert!(!info.is_terminal());
    assert!(dispatcher.contains_task("t1"));
    assert_eq!(dispatcher.in_flight_count(), 1);
}

#[test]
fn submitting_twice_under_one_id_keeps_one_task() {
    let mut dispatcher = WorkerDispatcher::new();
    dispatcher.register_submission(&payload("t1"), 100);
    dispatcher.apply_progress(progress("t1", 500_000, None), 110);
    let again = dispatcher.register_submission(&payload("t1"), 120);
    assert_eq!(again.status, TaskStatus::Pending);
    assert_eq!(again.progress, 0);
    assert_eq!(again.created_at, 120);
    assert_eq!(dispatcher.list_tasks().len(), 1);
    assert_eq!(dispatcher.in_flight_count(), 1);
}

#[test]
fn start_of_a_known_task() {
    let mut dispatcher = WorkerDispatcher::new();
    dispatcher.register_submission(&payload("t1"), 100);
    let info = dispatcher.mark_started("t1", 150).unwrap();
    assert_eq!(info.status, TaskStatus::Running);
    assert_eq!(info.message.as_deref(), Some("started"));
    assert_eq!(info.created_at, 100);
    assert_eq!(info.updated_at, 150);
    assert_eq!(dispatcher.in_flight_count(), 1);
}

#[test]
fn start_of_an_unknown_task_changes_nothing() {
    let mut dispatcher = WorkerDispatcher::new();
    assert!(dispatcher.mark_started("ghost", 150).is_none());
    assert!(!dispatcher.contains_task("ghost"));
    assert_eq!(dispatcher.in_flight_count(), 0);
}

#[test]
fn progress_is_clamped_between_nothing_and_the_whole() {
    assert_eq!(clamp(-1), 0);
    assert_eq!(clamp(i64::MIN), 0);
    assert_eq!(clamp(0), 0);
    assert_eq!(clamp(250_000), 250_000);
    assert_eq!(clamp(1_000_000), PROGRESS_FULL);
    assert_eq!(clamp(1_000_001), PROGRESS_FULL);
    assert_eq!(clamp(i64::MAX), PROGRESS_FULL);

    let mut dispatcher = WorkerDispatcher::new();
    dispatcher.register_submission(&payload("t1"), 100);
    let low = dispatcher.apply_progress(progress("t1", -5, Some("going")), 110).unwrap();
    assert_eq!(low.progress, 0);
    assert_eq!(low.status, TaskStatus::Running);
    assert_eq!(low.message.as_deref(), Some("going"));
    let high = dispatcher.apply_progress(progress("t1", 7_000_000, None), 120).unwrap();
    assert_eq!(high.progress, 1_000_000);
    assert_eq!(high.message, None);
    let mid = dispatcher.apply_progress(progress("t1", 500_000, None), 130).unwrap();
    assert_eq!(mid.progress, 500_000);
    assert_eq!(mid.updated_at, 130);
}

#[test]
fn progress_of_an_unknown_task_files_a_placeholder() {
    let mut dispatcher = WorkerDispatcher::new();
    let info = dispatcher.apply_progress(progress("ghost", 250_000, None), 200).unwrap();
    assert_eq!(info.task_id, "ghost");
    assert_eq!(info.task_type, "unknown");
    assert_eq!(info.project_id, "");
    assert_eq!(info.status, TaskStatus::Running);
    assert_eq!(info.progress, 250_000);
    assert_eq!(info.created_at, 200);
    assert!(dispatcher.contains_task("ghost"));
    assert_eq!(dispatcher.in_flight_count(), 1);
}

#[test]
fn worker_status_words() {
    assert_eq!(map_worker_status("completed", None), TaskStatus::Completed);
    assert_eq!(map_worker_status("failed", None), TaskStatus::Failed);
    assert_eq!(map_worker_status("cancelled", None), TaskStatus::Cancelled);
    assert_eq!(map_worker_status("running", None), TaskStatus::Running);
    assert_eq!(map_worker_status("pending", None), TaskStatus::Pending);
    assert_eq!(map_worker_status("done", None), TaskStatus::Failed);
    assert_eq!(map_worker_status("", None), TaskStatus::Failed);
    assert_eq!(map_worker_status("Completed", None), TaskStatus::Failed);
    assert_eq!(map_worker_status("completed", Some("boom")), TaskStatus::Completed);
    assert_eq!(map_worker_status("failed", Some("boom")), TaskStatus::Failed);
    assert_eq!(map_worker_status("running", Some("boom")), TaskStatus::Running);
}

#[test]
fn completed_result_has_all_the_progress() {
    let mut dispatcher = WorkerDispatcher::new();
    dispatcher.register_submission(&payload("t1"), 100);
    dispatcher.apply_progress(progress("t1", 750_000, Some("almost")), 110);
    let output: Value = serde_json::from_str("{\"frames\":120}").unwrap();
    let info = dispatcher
        .apply_result(result("t1", "completed", Some(output.clone()), None), 120)
        .unwrap();
    assert_eq!(info.status, TaskStatus::Completed);
    assert_eq!(info.progress, PROGRESS_FULL);
    assert_eq!(info.output, Some(output));
    assert_eq!(info.error, None);
    assert_eq!(info.message, None);
    assert_eq!(info.updated_at, 120);
    assert!(info.is_terminal());
    assert_eq!(dispatcher.in_flight_count(), 0);
}

#[test]
fn failed_result_keeps_the_progress() {
    let mut dispatcher = WorkerDispatcher::new();
    dispatcher.register_submission(&payload("t1"), 100);
    dispatcher.apply_progress(progress("t1", 400_000, None), 110);
    let info = dispatcher.apply_result(result("t1", "failed", None, Some("boom")), 120).unwrap();
    assert_eq!(info.status, TaskStatus::Failed);
    assert_eq!(info.progress, 400_000);
    assert_eq!(info.error.as_deref(), Some("boom"));
    assert_eq!(dispatcher.in_flight_count(), 0);
}

#[test]
fn result_with_an_unknown_word_counts_as_failed() {
    let mut dispatcher = WorkerDispatcher::new();
    let info = dispatcher.apply_result(result("ghost", "weird", None, None), 120).unwrap();
    assert_eq!(info.status, TaskStatus::Failed);
    assert_eq!(info.task_type, "unknown");
    assert_eq!(dispatcher.in_flight_count(), 0);
    assert!(dispatcher.contains_task("ghost"));
}

#[test]
fn cancel_takes_the_task_out_of_flight() {
    let mut dispatcher = WorkerDispatcher::new();
    dispatcher.register_submission(&payload("t1"), 100);
    dispatcher.register_submission(&payload("t2"), 101);
    let info = dispatcher.cancel_task("t1", 150).unwrap();
    assert_eq!(info.status, TaskStatus::Cancelled);
    assert_eq!(info.message.as_deref(), Some("cancelled"));
    assert_eq!(info.updated_at, 150);
    assert_eq!(dispatcher.in_flight_count(), 1);
    assert!(dispatcher.cancel_task("ghost", 151).is_none());
    assert_eq!(dispatcher.in_flight_count(), 1);
}

#[test]
fn stop_fails_what_is_in_flight_and_nothing_else() {
    let mut dispatcher = WorkerDispatcher::new();
    dispatcher.register_submission(&payload("a"), 100);
    dispatcher.register_submission(&payload("b"), 101);
    dispatcher.register_submission(&payload("c"), 102);
    dispatcher.register_submission(&payload("d"), 103);
    dispatcher.mark_started("b", 110);
    dispatcher.apply_result(result("c", "completed", None, None), 111);
    dispatcher.cancel_task("d", 112);
    assert_eq!(dispatcher.in_flight_count(), 2);

    dispatcher.fail_all_in_flight(200);

    assert_eq!(dispatcher.in_flight_count(), 0);
    for id in ["a", "b"] {
        let task = find(&dispatcher, id);
        assert_eq!(task.status, TaskStatus::Failed);
        assert_eq!(task.error.as_deref(), Some("worker stopped while task was in-flight"));
        assert!(task.error.unwrap().contains("worker stopped"));
        assert_eq!(task.message, None);
        assert_eq!(task.updated_at, 200);
    }
    let done = find(&dispatcher, "c");
    assert_eq!(done.status, TaskStatus::Completed);
    assert_eq!(done.updated_at, 111);
    let cancelled = find(&dispatcher, "d");
    assert_eq!(cancelled.status, TaskStatus::Cancelled);
    assert_eq!(cancelled.updated_at, 112);
}

#[test]
fn terminal_task_is_untouched_by_events_for_other_tasks() {
    let mut dispatcher = WorkerDispatcher::new();
    dispatcher.register_submission(&payload("done"), 100);
    dispatcher.apply_result(result("done", "completed", None, None), 110);
    dispatcher.register_submission(&payload("other"), 120);
    dispatcher.mark_started("other", 121);
    dispatcher.apply_progress(progress("other", 10, None), 122);
    dispatcher.apply_result(result("other", "failed", None, Some("x")), 123);
    dispatcher.cancel_task("other", 124);
    dispatcher.fail_all_in_flight(125);
    let done = find(&dispatcher, "done");
    assert_eq!(done.status, TaskStatus::Completed);
    assert_eq!(done.progress, PROGRESS_FULL);
    assert_eq!(done.updated_at, 110);
}

#[test]
fn tasks_are_listed_newest_first() {
    let mut dispatcher = WorkerDispatcher::new();
    dispatcher.register_submission(&payload("a"), 100);
    dispatcher.register_submission(&payload("b"), 300);
    dispatcher.register_submission(&payload("c"), 200);
    dispatcher.register_submission(&payload("d"), 300);
    let ids: Vec<String> = dispatcher.list_tasks().into_iter().map(|t| t.task_id).collect();
    assert_eq!(ids, vec!["b", "d", "c", "a"]);
    dispatcher.mark_started("a", 400);
    let ids: Vec<String> = dispatcher.list_tasks().into_iter().map(|t| t.task_id).collect();
    assert_eq!(ids, vec!["a", "b", "d", "c"]);
}

#[test]
fn copy_of_a_task_is_the_same_task() {
    let mut dispatcher = WorkerDispatcher::new();
    let info = dispatcher.register_submission(&payload("t1"), 100);
    let copy = info.clone();
    assert_eq!(copy.task_id, info.task_id);
    assert_eq!(copy.status, info.status);
    assert_eq!(copy.message, info.message);
    assert_eq!(copy.created_at, info.created_at);
}

#[test]
fn completed_word_with_an_error_is_stored_as_failed() {
    let mut dispatcher = WorkerDispatcher::new();
    dispatcher.register_submission(&payload("t1"), 100);
    dispatcher.apply_progress(progress("t1", 400_000, None), 110);
    let info = dispatcher
        .apply_result(result("t1", "completed", None, Some("boom")), 120)
        .unwrap();
    assert_eq!(info.status, TaskStatus::Failed);
    assert_eq!(info.error.as_deref(), Some("boom"));
    assert_eq!(info.progress, 400_000);
    assert_eq!(dispatcher.in_flight_count(), 0);
}

#[test]
fn late_result_for_a_cancelled_task_is_absorbed() {
    let mut dispatcher = WorkerDispatcher::new();
    dispatcher.register_submission(&payload("t1"), 100);
    dispatcher.apply_progress(progress("t1", 500_000, None), 110);
    dispatcher.cancel_task("t1", 120);
    let output: Value = serde_json::from_str("{\"frames\":120}").unwrap();
    let info = dispatcher
        .apply_result(result("t1", "completed", Some(output), None), 130)
        .unwrap();
    assert_eq!(info.status, TaskStatus::Cancelled);
    assert_eq!(info.progress, 500_000);
    assert_eq!(info.output, None);
    assert_eq!(info.message.as_deref(), Some("cancelled"));
    assert_eq!(info.updated_at, 120);
    let stored = find(&dispatcher, "t1");
    assert_eq!(stored.status, TaskStatus::Cancelled);
    assert_eq!(stored.updated_at, 120);
    assert_eq!(dispatcher.in_flight_count(), 0);
}

#[test]
fn terminal_task_takes_in_nothing_more() {
    for last_word in ["completed", "failed", "cancelled"] {
        let mut dispatcher = WorkerDispatcher::new();
        dispatcher.register_submission(&payload("t1"), 100);
        dispatcher.apply_progress(progress("t1", 300_000, Some("going")), 105);
        dispatcher.apply_result(result("t1", last_word, None, None), 110);
        let before = find(&dispatcher, "t1");
        assert!(before.is_terminal());

        let started = dispatcher.mark_started("t1", 120).unwrap();
        assert_eq!(started.status, before.status);
        let progressed = dispatcher.apply_progress(progress("t1", 900_000, Some("x")), 121).unwrap();
        assert_eq!(progressed.status, before.status);
        assert_eq!(progressed.progress, before.progress);
        let finished = dispatcher.apply_result(result("t1", "running", None, Some("e")), 122).unwrap();
        assert_eq!(finished.status, before.status);
        let cancelled = dispatcher.cancel_task("t1", 123).unwrap();
        assert_eq!(cancelled.status, before.status);
        let again = dispatcher.register_submission(&payload("t1"), 124);
        assert_eq!(again.status, before.status);
        dispatcher.fail_all_in_flight(125);

        let after = find(&dispatcher, "t1");
        assert_eq!(after.status, before.status);
        assert_eq!(after.progress, before.progress);
        assert_eq!(after.message, before.message);
        assert_eq!(after.error, before.error);
        assert_eq!(after.created_at, before.created_at);
        assert_eq!(after.updated_at, before.updated_at);
        assert_eq!(dispatcher.in_flight_count(), 0);
        assert_eq!(dispatcher.list_tasks().len(), 1);
    }
}

#[test]
fn abandoned_task_takes_in_nothing_more() {
    let mut dispatcher = WorkerDispatcher::new();
    dispatcher.register_submission(&payload("t1"), 100);
    dispatcher.fail_all_in_flight(110);
    dispatcher.apply_progress(progress("t1", 900_000, None), 120);
    dispatcher.mark_started("t1", 121);
    let task = find(&dispatcher, "t1");
    assert_eq!(task.status, TaskStatus::Failed);
    assert_eq!(task.progress, 0);
    assert_eq!(task.updated_at, 110);
    assert_eq!(dispatcher.in_flight_count(), 0);
}
