//! The records that the application keeps, and the states of a task.

use vstd::prelude::*;

verus! {

/// Where a task stands in its life.
#[derive(Debug, Clone, Copy, PartialEq, Eq, Structural)]
pub enum TaskStatus {
    Pending,
    Running,
    Completed,
    Failed,
    Cancelled,
}

impl TaskStatus {
    /// A task in a terminal state has run its course.
    pub open spec fn is_terminal(self) -> bool {
        self == TaskStatus::Completed || self == TaskStatus::Failed || self
            == TaskStatus::Cancelled
    }
}

/// A project as it is stored.
#[derive(Debug)]
pub struct Project {
    pub id: String,
    pub name: String,
    pub theme: Option<String>,
    pub target_platform: String,
    pub status: String,
    /// RFC 3339 text.
    pub created_at: String,
    /// RFC 3339 text.
    pub updated_at: String,
}

/// What a caller hands in to have a project made.
#[derive(Debug)]
pub struct CreateProjectInput {
    pub name: String,
    pub theme: Option<String>,
    pub target_platform: Option<String>,
}

/// What a caller hands in to have a project changed; a field that is
/// missing stays as it is.
#[derive(Debug)]
pub struct UpdateProjectInput {
    pub name: Option<String>,
    pub theme: Option<String>,
    pub target_platform: Option<String>,
    pub status: Option<String>,
}

/// One version of a project's script as it is stored.
#[derive(Debug)]
pub struct ScriptVersion {
    pub id: String,
    pub project_id: String,
    pub version_no: i64,
    pub content: String,
    pub source: Option<String>,
    pub model: Option<String>,
    pub prompt_snapshot: Option<String>,
    /// RFC 3339 text.
    pub created_at: String,
}

/// What a caller hands in to have a script version made.
#[derive(Debug)]
pub struct CreateScriptVersionInput {
    pub project_id: String,
    pub content: String,
    pub source: Option<String>,
    pub model: Option<String>,
    pub prompt_snapshot: Option<String>,
}

/// One scene of a project's storyboard as it is stored.
#[derive(Debug)]
pub struct StoryboardScene {
    pub id: String,
    pub project_id: String,
    pub script_version_id: Option<String>,
    pub scene_index: i64,
    pub scene_text: String,
    pub visual_prompt: Option<String>,
    pub duration_ms: i64,
    pub camera_hint: Option<String>,
}

/// What a caller hands in to have a scene made.
#[derive(Debug)]
pub struct CreateSceneInput {
    pub project_id: String,
    pub script_version_id: Option<String>,
    pub scene_text: String,
    pub visual_prompt: Option<String>,
    pub duration_ms: Option<i64>,
    pub camera_hint: Option<String>,
}

/// What a caller hands in to have a scene changed; a field that is missing
/// stays as it is.
#[derive(Debug)]
pub struct UpdateSceneInput {
    pub script_version_id: Option<String>,
    pub scene_text: Option<String>,
    pub visual_prompt: Option<String>,
    pub duration_ms: Option<i64>,
    pub camera_hint: Option<String>,
}

/// The place that one scene is to take in its storyboard.
#[derive(Debug)]
pub struct SceneReorderItem {
    pub id: String,
    pub scene_index: i64,
}

} // verus!
