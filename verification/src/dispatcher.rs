//! The registry of tasks: what is known of each task, and which of them are
//! in flight. A task that is completed, failed or cancelled has reached a
//! terminal state: nothing that comes later changes it.

use crate::models::TaskStatus;
use crate::protocol::{ProgressPayload, TaskPayload, TaskResultPayload};
use crate::text::text_eq;
use serde_json::Value;
use vstd::prelude::*;
use vstd::set_lib::lemma_len_subset;

verus! {

/// Progress is counted in millionths of the whole task; this is all of it.
pub const PROGRESS_FULL: u32 = 1_000_000;

/// What a caller hands in to have a task run.
#[derive(Debug)]
pub struct SubmitTaskInput {
    pub task_type: String,
    pub project_id: String,
    pub config: Value,
}

/// What the supervisor knows of one task.
#[derive(Debug)]
pub struct TaskInfo {
    pub task_id: String,
    pub task_type: String,
    pub project_id: String,
    pub status: TaskStatus,
    /// In millionths of the whole, at most [`PROGRESS_FULL`].
    pub progress: u32,
    pub message: Option<String>,
    pub output: Option<Value>,
    pub error: Option<String>,
    /// Wall-clock nanoseconds since the Unix epoch.
    pub created_at: i64,
    /// Wall-clock nanoseconds since the Unix epoch.
    pub updated_at: i64,
}

/// The view of an optional text.
pub open spec fn text_view(text: Option<String>) -> Option<Seq<char>> {
    match text {
        Some(s) => Some(s@),
        None => None,
    }
}

/// A [`TaskInfo`] with its texts as sequences of characters.
pub struct TaskView {
    pub task_id: Seq<char>,
    pub task_type: Seq<char>,
    pub project_id: Seq<char>,
    pub status: TaskStatus,
    pub progress: u32,
    pub message: Option<Seq<char>>,
    pub output: Option<Value>,
    pub error: Option<Seq<char>>,
    pub created_at: i64,
    pub updated_at: i64,
}

impl View for TaskInfo {
    type V = TaskView;

    open spec fn view(&self) -> TaskView {
        TaskView {
            task_id: self.task_id@,
            task_type: self.task_type@,
            project_id: self.project_id@,
            status: self.status,
            progress: self.progress,
            message: text_view(self.message),
            output: self.output,
            error: text_view(self.error),
            created_at: self.created_at,
            updated_at: self.updated_at,
        }
    }
}

impl Clone for TaskInfo {
    fn clone(&self) -> (copy: Self)
        ensures
            copy == *self,
    {
        TaskInfo {
            task_id: self.task_id.clone(),
            task_type: self.task_type.clone(),
            project_id: self.project_id.clone(),
            status: self.status,
            progress: self.progress,
            message: self.message.clone(),
            output: self.output.clone(),
            error: self.error.clone(),
            created_at: self.created_at,
            updated_at: self.updated_at,
        }
    }
}

/// The progress that is stored for a reported `progress`: the nearest value
/// between nothing and the whole.
pub open spec fn clamp_progress(progress: i64) -> u32 {
    if progress < 0 {
        0
    } else if progress > PROGRESS_FULL {
        PROGRESS_FULL
    } else {
        progress as u32
    }
}

/// The status that a worker's word for it stands for. A word that is none
/// of the five known ones counts as a failure.
pub open spec fn status_of(word: Seq<char>) -> TaskStatus {
    if word == "completed"@ {
        TaskStatus::Completed
    } else if word == "failed"@ {
        TaskStatus::Failed
    } else if word == "cancelled"@ {
        TaskStatus::Cancelled
    } else if word == "running"@ {
        TaskStatus::Running
    } else if word == "pending"@ {
        TaskStatus::Pending
    } else {
        TaskStatus::Failed
    }
}

/// The status that is stored for a worker's final word on a task: what the
/// word stands for, but failed where the word is `completed` and an error
/// comes with it, since a completed task has no error.
pub open spec fn result_status(word: Seq<char>, error: Option<Seq<char>>) -> TaskStatus {
    if status_of(word) == TaskStatus::Completed && error is Some {
        TaskStatus::Failed
    } else {
        status_of(word)
    }
}

/// The error that a task gets when its worker stops under it.
pub open spec fn stopped_error() -> Seq<char> {
    "worker stopped while task was in-flight"@
}

impl TaskView {
    /// A task as it stands right after its submission at `now`.
    pub open spec fn queued(
        task_id: Seq<char>,
        task_type: Seq<char>,
        project_id: Seq<char>,
        now: i64,
    ) -> TaskView {
        TaskView {
            task_id,
            task_type,
            project_id,
            status: TaskStatus::Pending,
            progress: 0,
            message: Some("queued"@),
            output: None,
            error: None,
            created_at: now,
            updated_at: now,
        }
    }

    /// What stands for a task that the worker speaks of at `now` and the
    /// registry has never heard of.
    pub open spec fn placeholder(task_id: Seq<char>, now: i64) -> TaskView {
        TaskView {
            task_id,
            task_type: "unknown"@,
            project_id: Seq::empty(),
            status: TaskStatus::Pending,
            progress: 0,
            message: None,
            output: None,
            error: None,
            created_at: now,
            updated_at: now,
        }
    }

    /// The task once the worker has started on it.
    pub open spec fn started(self, now: i64) -> TaskView {
        TaskView {
            status: TaskStatus::Running,
            message: Some("started"@),
            updated_at: now,
            ..self
        }
    }

    /// The task after a progress report.
    pub open spec fn progressed(
        self,
        progress: i64,
        message: Option<Seq<char>>,
        now: i64,
    ) -> TaskView {
        TaskView {
            status: TaskStatus::Running,
            progress: clamp_progress(progress),
            message,
            updated_at: now,
            ..self
        }
    }

    /// The task after the worker's final word on it.
    pub open spec fn finished(
        self,
        status: Seq<char>,
        output: Option<Value>,
        error: Option<Seq<char>>,
        now: i64,
    ) -> TaskView {
        TaskView {
            status: result_status(status, error),
            progress: if result_status(status, error) == TaskStatus::Completed {
                PROGRESS_FULL
            } else {
                self.progress
            },
            output,
            error,
            message: None,
            updated_at: now,
            ..self
        }
    }

    /// The task once it is cancelled.
    pub open spec fn cancelled(self, now: i64) -> TaskView {
        TaskView {
            status: TaskStatus::Cancelled,
            message: Some("cancelled"@),
            updated_at: now,
            ..self
        }
    }

    /// The task once its worker has stopped under it.
    pub open spec fn abandoned(self, now: i64) -> TaskView {
        TaskView {
            status: TaskStatus::Failed,
            error: Some(stopped_error()),
            message: None,
            updated_at: now,
            ..self
        }
    }

    /// What holds of every task in a registry: progress never exceeds the
    /// whole, and a completed task has all of it and no error.
    pub open spec fn valid(self) -> bool {
        &&& self.progress <= PROGRESS_FULL
        &&& self.status == TaskStatus::Completed ==> self.progress == PROGRESS_FULL
        &&& self.status == TaskStatus::Completed ==> self.error is None
    }
}

impl TaskInfo {
    /// The record of a task submitted at `now`.
    pub fn from_payload(payload: &TaskPayload, now: i64) -> (info: TaskInfo)
        ensures
            info@ == TaskView::queued(
                payload.task_id@,
                payload.task_type@,
                payload.project_id@,
                now,
            ),
    {
        TaskInfo {
            task_id: payload.task_id.clone(),
            task_type: payload.task_type.clone(),
            project_id: payload.project_id.clone(),
            status: TaskStatus::Pending,
            progress: 0,
            message: Some("queued".to_string()),
            output: None,
            error: None,
            created_at: now,
            updated_at: now,
        }
    }

    /// The record for a task that only the worker has spoken of.
    pub fn placeholder(task_id: &str, now: i64) -> (info: TaskInfo)
        ensures
            info@ == TaskView::placeholder(task_id@, now),
    {
        TaskInfo {
            task_id: task_id.to_string(),
            task_type: "unknown".to_string(),
            project_id: String::new(),
            status: TaskStatus::Pending,
            progress: 0,
            message: None,
            output: None,
            error: None,
            created_at: now,
            updated_at: now,
        }
    }

    /// Whether the task has run its course.
    pub fn is_terminal(&self) -> (terminal: bool)
        ensures
            terminal == self.status.is_terminal(),
    {
        match self.status {
            TaskStatus::Completed | TaskStatus::Failed | TaskStatus::Cancelled => true,
            _ => false,
        }
    }
}

/// Reads a worker's word for a status. The word alone decides: the error
/// that came with it has no part in it.
pub fn map_worker_status(status: &str, _error: Option<&str>) -> (mapped: TaskStatus)
    ensures
        mapped == status_of(status@),
{
    if text_eq(status, "completed") {
        TaskStatus::Completed
    } else if text_eq(status, "failed") {
        TaskStatus::Failed
    } else if text_eq(status, "cancelled") {
        TaskStatus::Cancelled
    } else if text_eq(status, "running") {
        TaskStatus::Running
    } else if text_eq(status, "pending") {
        TaskStatus::Pending
    } else {
        TaskStatus::Failed
    }
}

/// Brings a reported progress into the range from nothing to the whole.
pub fn clamp(progress: i64) -> (stored: u32)
    ensures
        stored == clamp_progress(progress),
        stored <= PROGRESS_FULL,
        0 <= progress <= PROGRESS_FULL ==> stored == progress,
{
    if progress < 0 {
        0
    } else if progress > PROGRESS_FULL as i64 {
        PROGRESS_FULL
    } else {
        progress as u32
    }
}

/// The mathematical state of a [`WorkerDispatcher`]: the tasks by their
/// ids, and the ids of those in flight.
pub struct DispatcherView {
    pub tasks: Map<Seq<char>, TaskView>,
    pub in_flight: Set<Seq<char>>,
}

impl DispatcherView {
    /// The registry that knows no task.
    pub open spec fn empty() -> DispatcherView {
        DispatcherView { tasks: Map::empty(), in_flight: Set::empty() }
    }

    /// What holds of every registry: a task is filed under its own id; only
    /// known tasks that have not reached a terminal state are in flight; and
    /// each task is valid.
    pub open spec fn valid(self) -> bool {
        &&& self.tasks.dom().finite()
        &&& self.in_flight.finite()
        &&& forall|id: Seq<char>| #[trigger]
            self.in_flight.contains(id) ==> self.tasks.contains_key(id)
                && !self.tasks[id].status.is_terminal()
        &&& forall|id: Seq<char>| #[trigger]
            self.tasks.contains_key(id) ==> self.tasks[id].task_id == id && self.tasks[id].valid()
    }

    /// The task filed under `id`, or the placeholder for it.
    pub open spec fn entry(self, id: Seq<char>, now: i64) -> TaskView {
        if self.tasks.contains_key(id) {
            self.tasks[id]
        } else {
            TaskView::placeholder(id, now)
        }
    }

    /// The task filed under `id` has reached a terminal state: it takes in
    /// nothing more.
    pub open spec fn absorbs(self, id: Seq<char>) -> bool {
        self.tasks.contains_key(id) && self.tasks[id].status.is_terminal()
    }

    /// After the submission of a task under the id `id`: the task is queued
    /// and in flight. Ids are minted fresh; should a task in a terminal state
    /// be filed under `id` already, nothing changes.
    pub open spec fn registered(
        self,
        id: Seq<char>,
        task_type: Seq<char>,
        project_id: Seq<char>,
        now: i64,
    ) -> DispatcherView {
        if self.absorbs(id) {
            self
        } else {
            DispatcherView {
                tasks: self.tasks.insert(id, TaskView::queued(id, task_type, project_id, now)),
                in_flight: self.in_flight.insert(id),
            }
        }
    }

    /// After the worker has started on task `id`: nothing changes where the
    /// task is unknown or has reached a terminal state.
    pub open spec fn started(self, id: Seq<char>, now: i64) -> DispatcherView {
        if self.tasks.contains_key(id) && !self.absorbs(id) {
            DispatcherView {
                tasks: self.tasks.insert(id, self.tasks[id].started(now)),
                in_flight: self.in_flight.insert(id),
            }
        } else {
            self
        }
    }

    /// After a progress report on task `id`: nothing changes where the task
    /// has reached a terminal state.
    pub open spec fn progressed(
        self,
        id: Seq<char>,
        progress: i64,
        message: Option<Seq<char>>,
        now: i64,
    ) -> DispatcherView {
        if self.absorbs(id) {
            self
        } else {
            DispatcherView {
                tasks: self.tasks.insert(
                    id,
                    self.entry(id, now).progressed(progress, message, now),
                ),
                in_flight: self.in_flight.insert(id),
            }
        }
    }

    /// After the worker's final word on task `id`: nothing changes where the
    /// task has reached a terminal state already.
    pub open spec fn finished(
        self,
        id: Seq<char>,
        status: Seq<char>,
        output: Option<Value>,
        error: Option<Seq<char>>,
        now: i64,
    ) -> DispatcherView {
        if self.absorbs(id) {
            self
        } else {
            DispatcherView {
                tasks: self.tasks.insert(
                    id,
                    self.entry(id, now).finished(status, output, error, now),
                ),
                in_flight: self.in_flight.remove(id),
            }
        }
    }

    /// After the cancellation of task `id`: nothing changes where the task
    /// is unknown or has reached a terminal state.
    pub open spec fn cancelled(self, id: Seq<char>, now: i64) -> DispatcherView {
        if self.tasks.contains_key(id) && !self.absorbs(id) {
            DispatcherView {
                tasks: self.tasks.insert(id, self.tasks[id].cancelled(now)),
                in_flight: self.in_flight.remove(id),
            }
        } else {
            self
        }
    }

    /// After the worker has stopped: every task in flight is abandoned, the
    /// others stay as they are, and nothing is in flight.
    pub open spec fn all_abandoned(self, now: i64) -> DispatcherView {
        DispatcherView {
            tasks: Map::new(
                |id: Seq<char>| self.tasks.contains_key(id),
                |id: Seq<char>|
                    if self.in_flight.contains(id) {
                        self.tasks[id].abandoned(now)
                    } else {
                        self.tasks[id]
                    },
            ),
            in_flight: Set::empty(),
        }
    }
}

/// One task and whether it is in flight.
struct TaskSlot {
    info: TaskInfo,
    in_flight: bool,
}

/// The registry of tasks.
pub struct WorkerDispatcher {
    slots: Vec<TaskSlot>,
    in_flight_count: usize,
    model: Ghost<DispatcherView>,
}

impl View for WorkerDispatcher {
    type V = DispatcherView;

    closed spec fn view(&self) -> DispatcherView {
        self.model@
    }
}

impl WorkerDispatcher {
    /// The slots hold what the model says, each task once.
    spec fn represents(&self) -> bool {
        let slots = self.slots@;
        let model = self.model@;
        &&& forall|i: int|
            0 <= i < slots.len() ==> model.tasks.contains_key(#[trigger] slots[i].info.task_id@)
                && model.tasks[slots[i].info.task_id@] == slots[i].info@ && slots[i].in_flight
                == model.in_flight.contains(slots[i].info.task_id@)
        &&& forall|i: int, j: int|
            0 <= i < j < slots.len() ==> #[trigger] slots[i].info.task_id@
                != #[trigger] slots[j].info.task_id@
        &&& forall|id: Seq<char>| #[trigger]
            model.tasks.contains_key(id) ==> exists|i: int|
                0 <= i < slots.len() && #[trigger] slots[i].info.task_id@ == id
        &&& model.tasks.dom().len() == slots.len()
        &&& model.in_flight.len() == self.in_flight_count
    }

    /// The registry is well formed: what it holds represents a valid state.
    pub closed spec fn wf(&self) -> bool {
        self.represents() && self.model@.valid()
    }

    /// A well-formed registry has a valid state.
    pub proof fn lemma_wf_valid(&self)
        requires
            self.wf(),
        ensures
            self@.valid(),
    {
    }

    /// The registry that knows no task.
    pub fn new() -> (dispatcher: WorkerDispatcher)
        ensures
            dispatcher.wf(),
            dispatcher@ == DispatcherView::empty(),
    {
        WorkerDispatcher {
            slots: Vec::new(),
            in_flight_count: 0,
            model: Ghost(DispatcherView::empty()),
        }
    }

    /// Where the task `task_id` is kept.
    fn find(&self, task_id: &str) -> (found: Option<usize>)
        requires
            self.wf(),
        ensures
            match found {
                Some(i) => i < self.slots@.len() && self.slots@[i as int].info.task_id@
                    == task_id@ && self@.tasks.contains_key(task_id@),
                None => !self@.tasks.contains_key(task_id@),
            },
    {
        let mut i: usize = 0;
        while i < self.slots.len()
            invariant
                self.wf(),
                i <= self.slots@.len(),
                forall|j: int| 0 <= j < i ==> self.slots@[j].info.task_id@ != task_id@,
            decreases self.slots@.len() - i,
        {
            if text_eq(self.slots[i].info.task_id.as_str(), task_id) {
                return Some(i);
            }
            i += 1;
        }
        None
    }

    /// Whether a task is filed under `task_id`.
    pub fn contains_task(&self, task_id: &str) -> (known: bool)
        requires
            self.wf(),
        ensures
            known == self@.tasks.contains_key(task_id@),
    {
        self.find(task_id).is_some()
    }

    /// Files `info`, in flight or not, under its id at slot `at`: in place of
    /// the task that is there, or as a new last slot.
    fn store(&mut self, at: usize, info: TaskInfo, in_flight: bool)
        requires
            old(self).wf(),
            at <= old(self).slots@.len(),
            at < old(self).slots@.len() ==> old(self).slots@[at as int].info.task_id@
                == info.task_id@,
            at == old(self).slots@.len() ==> !old(self)@.tasks.contains_key(info.task_id@),
            info@.valid(),
            in_flight ==> !info.status.is_terminal(),
        ensures
            final(self).wf(),
            final(self)@.tasks == old(self)@.tasks.insert(info.task_id@, info@),
            final(self)@.in_flight == if in_flight {
                old(self)@.in_flight.insert(info.task_id@)
            } else {
                old(self)@.in_flight.remove(info.task_id@)
            },
            final(self).slots@.len() == if at < old(self).slots@.len() {
                old(self).slots@.len()
            } else {
                old(self).slots@.len() + 1
            },
            forall|i: int|
                0 <= i < old(self).slots@.len() ==> #[trigger] final(self).slots@[i].info.task_id@
                    == old(self).slots@[i].info.task_id@,
            forall|i: int|
                0 <= i < old(self).slots@.len() && i != at ==> #[trigger] final(self).slots@[i]
                    == old(self).slots@[i],
            final(self).slots@[at as int].info == info,
            final(self).slots@[at as int].in_flight == in_flight,
    {
        let ghost id = info.task_id@;
        let ghost before = self.model@;
        let ghost old_slots = self.slots@;
        let was_in_flight = if at < self.slots.len() {
            self.slots[at].in_flight
        } else {
            false
        };
        proof {
            assert(was_in_flight == before.in_flight.contains(id));
            if !was_in_flight && in_flight {
                // One more task comes in flight: there is room for it.
                if before.tasks.contains_key(id) {
                    let rest = before.tasks.dom().remove(id);
                    assert(before.in_flight.subset_of(rest));
                    lemma_len_subset(before.in_flight, rest);
                } else {
                    assert(before.in_flight.subset_of(before.tasks.dom()));
                    lemma_len_subset(before.in_flight, before.tasks.dom());
                }
            }
        }
        let slot = TaskSlot { info, in_flight };
        if at < self.slots.len() {
            self.slots[at] = slot;
        } else {
            self.slots.push(slot);
        }
        let total: usize = self.slots.len();
        if was_in_flight && !in_flight {
            self.in_flight_count = self.in_flight_count - 1;
        } else if !was_in_flight && in_flight {
            assert(self.in_flight_count < total);
            self.in_flight_count = self.in_flight_count + 1;
        }
        proof {
            let after = DispatcherView {
                tasks: before.tasks.insert(id, info@),
                in_flight: if in_flight {
                    before.in_flight.insert(id)
                } else {
                    before.in_flight.remove(id)
                },
            };
            self.model = Ghost(after);
            let slots = self.slots@;
            assert forall|i: int| 0 <= i < slots.len() implies after.tasks.contains_key(
                #[trigger] slots[i].info.task_id@,
            ) && after.tasks[slots[i].info.task_id@] == slots[i].info@ && slots[i].in_flight
                == after.in_flight.contains(slots[i].info.task_id@) by {
                if i != at {
                    assert(slots[i] == old_slots[i]);
                    assert(old_slots[i].info.task_id@ != id);
                }
            }
            assert forall|i: int, j: int| 0 <= i < j < slots.len() implies #[trigger] slots[i].info.task_id@
                != #[trigger] slots[j].info.task_id@ by {
                if i != at && j != at {
                    assert(slots[i] == old_slots[i]);
                    assert(slots[j] == old_slots[j]);
                }
            }
            assert forall|key: Seq<char>| #[trigger] after.tasks.contains_key(key) implies exists|
                i: int,
            |
                0 <= i < slots.len() && #[trigger] slots[i].info.task_id@ == key by {
                if key == id {
                    assert(slots[at as int].info.task_id@ == key);
                } else {
                    assert(before.tasks.contains_key(key));
                    let i = choose|i: int|
                        0 <= i < old_slots.len() && #[trigger] old_slots[i].info.task_id@ == key;
                    assert(slots[i].info.task_id@ == key);
                }
            }
            if before.tasks.contains_key(id) {
                assert(after.tasks.dom() =~= before.tasks.dom());
            } else {
                assert(after.tasks.dom() =~= before.tasks.dom().insert(id));
            }
        }
    }

    /// Registers a task submitted at `now` and puts it in flight. A task
    /// already filed under the same id is replaced, unless it has reached a
    /// terminal state: such a task stays as it is. Returns the task as it is
    /// filed afterwards.
    pub fn register_submission(&mut self, payload: &TaskPayload, now: i64) -> (info: TaskInfo)
        requires
            old(self).wf(),
        ensures
            final(self).wf(),
            final(self)@ == old(self)@.registered(
                payload.task_id@,
                payload.task_type@,
                payload.project_id@,
                now,
            ),
            final(self)@.tasks.contains_key(payload.task_id@),
            info@ == final(self)@.tasks[payload.task_id@],
    {
        let info = TaskInfo::from_payload(payload, now);
        match self.find(payload.task_id.as_str()) {
            Some(at) => {
                if self.slots[at].info.is_terminal() {
                    return self.slots[at].info.clone();
                }
                self.store(at, info.clone(), true);
            },
            None => {
                let at = self.slots.len();
                self.store(at, info.clone(), true);
            },
        }
        info
    }

    /// Notes at `now` that the worker has started on `task_id`: the task, if
    /// known, is running and in flight, unless it has reached a terminal
    /// state: such a task stays as it is. Returns the task as it is filed
    /// afterwards, if it is known.
    pub fn mark_started(&mut self, task_id: &str, now: i64) -> (info: Option<TaskInfo>)
        requires
            old(self).wf(),
        ensures
            final(self).wf(),
            final(self)@ == old(self)@.started(task_id@, now),
            match info {
                Some(task) => old(self)@.tasks.contains_key(task_id@) && task@
                    == final(self)@.tasks[task_id@],
                None => !old(self)@.tasks.contains_key(task_id@),
            },
    {
        match self.find(task_id) {
            None => None,
            Some(at) => {
                let mut task = self.slots[at].info.clone();
                if task.is_terminal() {
                    return Some(task);
                }
                task.status = TaskStatus::Running;
                task.message = Some("started".to_string());
                task.updated_at = now;
                self.store(at, task.clone(), true);
                Some(task)
            },
        }
    }

    /// Applies a progress report that arrived at `now`. A task that the
    /// registry has never heard of is filed as a placeholder first; a task
    /// that has reached a terminal state stays as it is. Returns the task as
    /// it is filed afterwards.
    pub fn apply_progress(&mut self, payload: ProgressPayload, now: i64) -> (info: Option<TaskInfo>)
        requires
            old(self).wf(),
        ensures
            final(self).wf(),
            final(self)@ == old(self)@.progressed(
                payload.task_id@,
                payload.progress,
                text_view(payload.message),
                now,
            ),
            info is Some,
            final(self)@.tasks.contains_key(payload.task_id@),
            info->0@ == final(self)@.tasks[payload.task_id@],
    {
        let (at, mut task) = match self.find(payload.task_id.as_str()) {
            Some(i) => (i, self.slots[i].info.clone()),
            None => (self.slots.len(), TaskInfo::placeholder(payload.task_id.as_str(), now)),
        };
        if task.is_terminal() {
            return Some(task);
        }
        task.status = TaskStatus::Running;
        task.progress = clamp(payload.progress);
        task.message = payload.message;
        task.updated_at = now;
        self.store(at, task.clone(), true);
        Some(task)
    }

    /// Applies the worker's final word on a task, which arrived at `now`. A
    /// task that the registry has never heard of is filed as a placeholder
    /// first; a task that has reached a terminal state already stays as it
    /// is. A word `completed` that comes with an error is stored as failed.
    /// Returns the task as it is filed afterwards.
    pub fn apply_result(&mut self, payload: TaskResultPayload, now: i64) -> (info: Option<TaskInfo>)
        requires
            old(self).wf(),
        ensures
            final(self).wf(),
            final(self)@ == old(self)@.finished(
                payload.task_id@,
                payload.status@,
                payload.output,
                text_view(payload.error),
                now,
            ),
            info is Some,
            final(self)@.tasks.contains_key(payload.task_id@),
            info->0@ == final(self)@.tasks[payload.task_id@],
    {
        let (at, mut task) = match self.find(payload.task_id.as_str()) {
            Some(i) => (i, self.slots[i].info.clone()),
            None => (self.slots.len(), TaskInfo::placeholder(payload.task_id.as_str(), now)),
        };
        if task.is_terminal() {
            return Some(task);
        }
        let error = match &payload.error {
            Some(text) => Some(text.as_str()),
            None => None,
        };
        let mapped = map_worker_status(payload.status.as_str(), error);
        task.status = match mapped {
            TaskStatus::Completed => if error.is_some() {
                TaskStatus::Failed
            } else {
                TaskStatus::Completed
            },
            other => other,
        };
        if task.status == TaskStatus::Completed {
            task.progress = PROGRESS_FULL;
        }
        task.output = payload.output;
        task.error = payload.error;
        task.message = None;
        task.updated_at = now;
        self.store(at, task.clone(), false);
        Some(task)
    }

    /// Cancels `task_id` at `now`: the task, if known, is cancelled and no
    /// longer in flight, unless it has reached a terminal state: such a task
    /// stays as it is. Returns the task as it is filed afterwards, if it is
    /// known.
    pub fn cancel_task(&mut self, task_id: &str, now: i64) -> (info: Option<TaskInfo>)
        requires
            old(self).wf(),
        ensures
            final(self).wf(),
            final(self)@ == old(self)@.cancelled(task_id@, now),
            match info {
                Some(task) => old(self)@.tasks.contains_key(task_id@) && task@
                    == final(self)@.tasks[task_id@],
                None => !old(self)@.tasks.contains_key(task_id@),
            },
    {
        match self.find(task_id) {
            None => None,
            Some(at) => {
                let mut task = self.slots[at].info.clone();
                if task.is_terminal() {
                    return Some(task);
                }
                task.status = TaskStatus::Cancelled;
                task.message = Some("cancelled".to_string());
                task.updated_at = now;
                self.store(at, task.clone(), false);
                Some(task)
            },
        }
    }

    /// Abandons at `now` every task in flight: each fails with the error
    /// that its worker stopped, and nothing is in flight any more.
    pub fn fail_all_in_flight(&mut self, now: i64)
        requires
            old(self).wf(),
        ensures
            final(self).wf(),
            final(self)@ == old(self)@.all_abandoned(now),
    {
        let ghost before = self@;
        let ghost old_slots = self.slots@;
        let n: usize = self.slots.len();
        let mut i: usize = 0;
        while i < n
            invariant
                self.wf(),
                before.valid(),
                i <= n,
                n == self.slots@.len(),
                n == old_slots.len(),
                self@.tasks.dom() == before.tasks.dom(),
                forall|j: int|
                    0 <= j < n ==> #[trigger] self.slots@[j].info.task_id@
                        == old_slots[j].info.task_id@,
                forall|j: int|
                    0 <= j < n ==> before.tasks.contains_key(#[trigger] old_slots[j].info.task_id@),
                forall|key: Seq<char>| #[trigger]
                    before.tasks.contains_key(key) ==> exists|j: int|
                        0 <= j < n && #[trigger] old_slots[j].info.task_id@ == key,
                forall|j: int|
                    0 <= j < i ==> !self.slots@[j].in_flight && self@.tasks[#[trigger] old_slots[j].info.task_id@]
                        == before.all_abandoned(now).tasks[old_slots[j].info.task_id@],
                forall|j: int|
                    i <= j < n ==> self.slots@[j].in_flight == before.in_flight.contains(
                        #[trigger] old_slots[j].info.task_id@,
                    ) && self@.tasks[old_slots[j].info.task_id@]
                        == before.tasks[old_slots[j].info.task_id@],
            decreases n - i,
        {
            let ghost pre_slots = self.slots@;
            let ghost pre = self@;
            if self.slots[i].in_flight {
                let mut task = self.slots[i].info.clone();
                task.status = TaskStatus::Failed;
                task.error = Some("worker stopped while task was in-flight".to_string());
                task.message = None;
                task.updated_at = now;
                self.store(i, task, false);
                proof {
                    let id = old_slots[i as int].info.task_id@;
                    assert(self@.tasks.dom() =~= pre.tasks.dom());
                    assert forall|j: int| 0 <= j < n && j != i implies #[trigger] old_slots[j].info.task_id@
                        != id by {
                        assert(pre_slots[j].info.task_id@ == old_slots[j].info.task_id@);
                        assert(pre_slots[i as int].info.task_id@ == id);
                    }
                }
            }
            i += 1;
        }
        proof {
            let target = before.all_abandoned(now);
            assert(target.tasks.dom() =~= before.tasks.dom());
            assert(self@.tasks =~= target.tasks) by {
                assert forall|key: Seq<char>| self@.tasks.contains_key(key) implies #[trigger] self@.tasks[key]
                    == target.tasks[key] by {
                    assert(before.tasks.contains_key(key));
                    let j = choose|j: int|
                        0 <= j < n && #[trigger] old_slots[j].info.task_id@ == key;
                    assert(self@.tasks[old_slots[j].info.task_id@]
                        == target.tasks[old_slots[j].info.task_id@]);
                }
            }
            assert(self@.in_flight =~= Set::<Seq<char>>::empty()) by {
                assert forall|key: Seq<char>| !self@.in_flight.contains(key) by {
                    if self@.in_flight.contains(key) {
                        assert(self@.tasks.contains_key(key));
                        assert(before.tasks.contains_key(key));
                        let j = choose|j: int|
                            0 <= j < n && #[trigger] old_slots[j].info.task_id@ == key;
                        assert(self.slots@[j].info.task_id@ == key);
                        assert(!self.slots@[j].in_flight);
                    }
                }
            }
        }
    }

    /// How many tasks are in flight.
    pub fn in_flight_count(&self) -> (count: usize)
        requires
            self.wf(),
        ensures
            count == self@.in_flight.len(),
    {
        self.in_flight_count
    }

    /// Every task once, the one updated last first.
    pub fn list_tasks(&self) -> (tasks: Vec<TaskInfo>)
        requires
            self.wf(),
        ensures
            tasks@.len() == self@.tasks.dom().len(),
            forall|i: int|
                0 <= i < tasks@.len() ==> self@.tasks.contains_key(#[trigger] tasks@[i].task_id@)
                    && self@.tasks[tasks@[i].task_id@] == tasks@[i]@,
            forall|i: int, j: int|
                0 <= i < j < tasks@.len() ==> #[trigger] tasks@[i].task_id@
                    != #[trigger] tasks@[j].task_id@,
            forall|i: int, j: int|
                0 <= i < j < tasks@.len() ==> #[trigger] tasks@[i].updated_at
                    >= #[trigger] tasks@[j].updated_at,
    {
        let mut tasks: Vec<TaskInfo> = Vec::new();
        let n: usize = self.slots.len();
        let mut k: usize = 0;
        while k < n
            invariant
                self.wf(),
                k <= n,
                n == self.slots@.len(),
                tasks@.len() == k,
                forall|i: int|
                    0 <= i < tasks@.len() ==> exists|s: int|
                        0 <= s < k && self.slots@[s].info == #[trigger] tasks@[i],
                forall|i: int, j: int|
                    0 <= i < j < tasks@.len() ==> #[trigger] tasks@[i].task_id@
                        != #[trigger] tasks@[j].task_id@,
                forall|i: int, j: int|
                    0 <= i < j < tasks@.len() ==> #[trigger] tasks@[i].updated_at
                        >= #[trigger] tasks@[j].updated_at,
            decreases n - k,
        {
            let task = self.slots[k].info.clone();
            let mut at: usize = 0;
            while at < tasks.len() && tasks[at].updated_at >= task.updated_at
                invariant
                    at <= tasks@.len(),
                    forall|i: int| 0 <= i < at ==> (#[trigger] tasks@[i]).updated_at >= task.updated_at,
                decreases tasks@.len() - at,
            {
                at += 1;
            }
            let ghost before = tasks@;
            tasks.insert(at, task);
            proof {
                let after = tasks@;
                assert forall|i: int| 0 <= i < after.len() implies exists|s: int|
                    0 <= s < k + 1 && self.slots@[s].info == #[trigger] after[i] by {
                    if i < at {
                        assert(after[i] == before[i]);
                        let s = choose|s: int| 0 <= s < k && self.slots@[s].info == before[i];
                        assert(self.slots@[s].info == after[i]);
                    } else if i == at {
                        assert(self.slots@[k as int].info == after[i]);
                    } else {
                        assert(after[i] == before[i - 1]);
                        let s = choose|s: int| 0 <= s < k && self.slots@[s].info == before[i - 1];
                        assert(self.slots@[s].info == after[i]);
                    }
                }
                assert forall|i: int, j: int| 0 <= i < j < after.len() implies #[trigger] after[i].task_id@
                    != #[trigger] after[j].task_id@ && after[i].updated_at >= after[j].updated_at by {
                    let si = choose|s: int| 0 <= s < k + 1 && self.slots@[s].info == after[i];
                    let sj = choose|s: int| 0 <= s < k + 1 && self.slots@[s].info == after[j];
                    if i == at {
                        assert(after[j] == before[j - 1]);
                        let s = choose|s: int| 0 <= s < k && self.slots@[s].info == before[j - 1];
                        assert(self.slots@[s].info.task_id@ != self.slots@[k as int].info.task_id@);
                        if j - 1 >= at && at < before.len() {
                            assert(before[at as int].updated_at >= before[j - 1].updated_at || at == j - 1);
                        }
                    } else if j == at {
                        assert(after[i] == before[i]);
                        let s = choose|s: int| 0 <= s < k && self.slots@[s].info == before[i];
                        assert(self.slots@[s].info.task_id@ != self.slots@[k as int].info.task_id@);
                    } else {
                        let bi = if i < at { i } else { i - 1 };
                        let bj = if j < at { j } else { j - 1 };
                        assert(after[i] == before[bi]);
                        assert(after[j] == before[bj]);
                    }
                }
            }
            k += 1;
        }
        proof {
            assert forall|i: int| 0 <= i < tasks@.len() implies self@.tasks.contains_key(
                #[trigger] tasks@[i].task_id@,
            ) && self@.tasks[tasks@[i].task_id@] == tasks@[i]@ by {
                let s = choose|s: int| 0 <= s < n && self.slots@[s].info == tasks@[i];
                assert(self@.tasks.contains_key(self.slots@[s].info.task_id@));
            }
        }
        tasks
    }
}

} // verus!
