//! How the stored records are made and changed. Reading and writing the
//! store itself is the caller's part.

use crate::clock::{rfc3339_of, rfc3339_text};
use crate::dispatcher::text_view;
use crate::models::{
    CreateProjectInput, CreateSceneInput, CreateScriptVersionInput, Project, ScriptVersion,
    StoryboardScene, UpdateProjectInput, UpdateSceneInput,
};
use crate::protocol::fresh_uuid;
use vstd::prelude::*;

verus! {

/// How long a scene lasts where nothing else is said, in milliseconds.
pub const DEFAULT_DURATION_MS: i64 = 3000;

/// The duration that is stored for a wished one: the default where none is
/// given, and one millisecond at least.
pub open spec fn stored_duration(wished: Option<i64>) -> i64 {
    let ms = match wished {
        Some(ms) => ms,
        None => DEFAULT_DURATION_MS,
    };
    if ms < 1 {
        1
    } else {
        ms
    }
}

/// `given` where it is there, `kept` where it is not.
pub open spec fn replaced(kept: Seq<char>, given: Option<String>) -> Seq<char> {
    match given {
        Some(text) => text@,
        None => kept,
    }
}

/// `given` where it is there, `kept` where it is not.
pub open spec fn replaced_optional(kept: Option<String>, given: Option<String>) -> Option<
    Seq<char>,
> {
    match given {
        Some(text) => Some(text@),
        None => text_view(kept),
    }
}

/// The project that is stored for `input` at `now`: a draft under a fresh
/// id, for the platform `douyin` unless another is named. Minting the id is uuid's part, and
/// uuid gives up with a panic where the system has no random bytes for it.
pub fn new_project(input: CreateProjectInput, now: i64) -> (project: Project)
    ensures
        project.id@.len() == 36,
        project.name == input.name,
        project.theme == input.theme,
        project.target_platform@ == replaced("douyin"@, input.target_platform),
        project.status@ == "draft"@,
        project.created_at@ == rfc3339_text(now),
        project.updated_at@ == rfc3339_text(now),
{
    let target_platform = match input.target_platform {
        Some(platform) => platform,
        None => "douyin".to_string(),
    };
    Project {
        id: fresh_uuid(),
        name: input.name,
        theme: input.theme,
        target_platform,
        status: "draft".to_string(),
        created_at: rfc3339_of(now),
        updated_at: rfc3339_of(now),
    }
}

/// `project` with the changes of `input`, made at `now`. A field that
/// `input` leaves out stays as it is; a theme can be set, not taken away.
pub fn apply_project_update(project: Project, input: UpdateProjectInput, now: i64) -> (updated:
    Project)
    ensures
        updated.id == project.id,
        updated.name@ == replaced(project.name@, input.name),
        text_view(updated.theme) == replaced_optional(project.theme, input.theme),
        updated.target_platform@ == replaced(project.target_platform@, input.target_platform),
        updated.status@ == replaced(project.status@, input.status),
        updated.created_at == project.created_at,
        updated.updated_at@ == rfc3339_text(now),
{
    let mut updated = project;
    if let Some(name) = input.name {
        updated.name = name;
    }
    if let Some(theme) = input.theme {
        updated.theme = Some(theme);
    }
    if let Some(target_platform) = input.target_platform {
        updated.target_platform = target_platform;
    }
    if let Some(status) = input.status {
        updated.status = status;
    }
    updated.updated_at = rfc3339_of(now);
    updated
}

/// The script version that is stored for `input` at `now`, as version
/// `version_no`, under a fresh id. Minting the id is uuid's part, and
/// uuid gives up with a panic where the system has no random bytes for it.
pub fn new_script_version(input: CreateScriptVersionInput, version_no: i64, now: i64) -> (version:
    ScriptVersion)
    ensures
        version.id@.len() == 36,
        version.project_id == input.project_id,
        version.version_no == version_no,
        version.content == input.content,
        version.source == input.source,
        version.model == input.model,
        version.prompt_snapshot == input.prompt_snapshot,
        version.created_at@ == rfc3339_text(now),
{
    ScriptVersion {
        id: fresh_uuid(),
        project_id: input.project_id,
        version_no,
        content: input.content,
        source: input.source,
        model: input.model,
        prompt_snapshot: input.prompt_snapshot,
        created_at: rfc3339_of(now),
    }
}

/// The duration that is stored for a wished one.
pub fn duration_to_store(wished: Option<i64>) -> (ms: i64)
    ensures
        ms == stored_duration(wished),
        ms >= 1,
{
    let ms = match wished {
        Some(ms) => ms,
        None => DEFAULT_DURATION_MS,
    };
    if ms < 1 {
        1
    } else {
        ms
    }
}

/// The scene that is stored for `input` at place `scene_index` of its
/// storyboard, under a fresh id. Minting the id is uuid's part, and
/// uuid gives up with a panic where the system has no random bytes for it.
pub fn new_scene(input: CreateSceneInput, scene_index: i64) -> (scene: StoryboardScene)
    ensures
        scene.id@.len() == 36,
        scene.project_id == input.project_id,
        scene.script_version_id == input.script_version_id,
        scene.scene_index == scene_index,
        scene.scene_text == input.scene_text,
        scene.visual_prompt == input.visual_prompt,
        scene.duration_ms == stored_duration(input.duration_ms),
        scene.camera_hint == input.camera_hint,
{
    StoryboardScene {
        id: fresh_uuid(),
        project_id: input.project_id,
        script_version_id: input.script_version_id,
        scene_index,
        scene_text: input.scene_text,
        visual_prompt: input.visual_prompt,
        duration_ms: duration_to_store(input.duration_ms),
        camera_hint: input.camera_hint,
    }
}

/// `scene` with the changes of `input`. A field that `input` leaves out
/// stays as it is; what is optional can be set, not taken away; a duration
/// is one millisecond at least.
pub fn apply_scene_update(scene: StoryboardScene, input: UpdateSceneInput) -> (updated:
    StoryboardScene)
    ensures
        updated.id == scene.id,
        updated.project_id == scene.project_id,
        updated.scene_index == scene.scene_index,
        text_view(updated.script_version_id) == replaced_optional(
            scene.script_version_id,
            input.script_version_id,
        ),
        updated.scene_text@ == replaced(scene.scene_text@, input.scene_text),
        text_view(updated.visual_prompt) == replaced_optional(
            scene.visual_prompt,
            input.visual_prompt,
        ),
        updated.duration_ms == match input.duration_ms {
            Some(ms) => stored_duration(Some(ms)),
            None => scene.duration_ms,
        },
        text_view(updated.camera_hint) == replaced_optional(scene.camera_hint, input.camera_hint),
{
    let mut updated = scene;
    if let Some(script_version_id) = input.script_version_id {
        updated.script_version_id = Some(script_version_id);
    }
    if let Some(scene_text) = input.scene_text {
        updated.scene_text = scene_text;
    }
    if let Some(visual_prompt) = input.visual_prompt {
        updated.visual_prompt = Some(visual_prompt);
    }
    if let Some(ms) = input.duration_ms {
        updated.duration_ms = duration_to_store(Some(ms));
    }
    if let Some(camera_hint) = input.camera_hint {
        updated.camera_hint = Some(camera_hint);
    }
    updated
}

/// The index that the scene at place `offset` of a reordering holds while
/// the others move: no two of them are the same, and none is an index that
/// a scene can have for good.
pub fn temporary_index(offset: u32) -> (index: i64)
    ensures
        index == -(offset as int) - 1,
        index < 0,
{
    -(offset as i64) - 1
}

} // verus!
