use worker_supervisor::models::{
    CreateProjectInput, CreateSceneInput, CreateScriptVersionInput, SceneReorderItem,
    UpdateProjectInput, UpdateSceneInput,
};
use worker_supervisor::validation::{
    require_non_empty, require_positive_duration, validate_create_project, validate_create_scene,
    validate_create_script_version, validate_reorder_items, validate_update_project,
    validate_update_scene,
};

fn item(id: &str, scene_index: i64) -> SceneReorderItem {
    SceneReorderItem { id: id.to_string(), scene_index }
}

fn scene_input(project_id: &str, scene_text: &str, duration_ms: Option<i64>) -> CreateSceneInput {
    CreateSceneInput {
        project_id: project_id.to_string(),
        script_version_id: None,
        scene_text: scene_text.to_string(),
        visual_prompt: None,
        duration_ms,
        camera_hint: None,
    }
}

fn scene_update(duration_ms: Option<i64>) -> UpdateSceneInput {
    UpdateSceneInput {
        script_version_id: None,
        scene_text: None,
        visual_prompt: None,
        duration_ms,
        camera_hint: None,
    }
}

fn script_input(project_id: &str, source: Option<&str>) -> CreateScriptVersionInput {
    CreateScriptVersionInput {
        project_id: project_id.to_string(),
        content: "text".to_string(),
        source: source.map(|s| s.to_string()),
        model: None,
        prompt_snapshot: None,
    }
}

fn err(text: &str) -> Result<(), String> {
    Err(text.to_string())
}

#[test]
fn blank_values_are_refused_by_name() {
    assert_eq!(require_non_empty("name", "x"), Ok(()));
    assert_eq!(require_non_empty("name", " x "), Ok(()));
    assert_eq!(require_non_empty("name", ""), err("name cannot be empty"));
    assert_eq!(require_non_empty("project_id", " \t\n"), err("project_id cannot be empty"));
    assert_eq!(require_non_empty("x", "\u{3000}"), err("x cannot be empty"));
}

#[test]
fn durations_have_to_be_positive() {
    assert_eq!(require_positive_duration(None), Ok(()));
    assert_eq!(require_positive_duration(Some(1)), Ok(()));
    assert_eq!(require_positive_duration(Some(0)), err("duration_ms must be > 0"));
    assert_eq!(require_positive_duration(Some(-5)), err("duration_ms must be > 0"));
}

#[test]
fn reorderings() {
    assert_eq!(validate_reorder_items(&[]), Ok(()));
    assert_eq!(validate_reorder_items(&[item("a", 0), item("b", 1), item("c", 2)]), Ok(()));
    assert_eq!(validate_reorder_items(&[item("a", 5), item("b", 0)]), Ok(()));
    assert_eq!(
        validate_reorder_items(&[item("a", 0), item(" ", 1)]),
        err("scene_id cannot be empty")
    );
    assert_eq!(
        validate_reorder_items(&[item("a", 0), item("b", -1)]),
        err("scene_index must be >= 0")
    );
    assert_eq!(
        validate_reorder_items(&[item("a", 0), item("b", 1), item("a", 2)]),
        err("duplicate scene_id in reorder payload")
    );
    assert_eq!(
        validate_reorder_items(&[item("a", 0), item("b", 1), item("c", 1)]),
        err("duplicate scene_index in reorder payload")
    );
}

#[test]
fn reordering_reports_the_first_fault() {
    // The second item is at fault twice over; its id is looked at first.
    assert_eq!(
        validate_reorder_items(&[item("a", 0), item("a", 0)]),
        err("duplicate scene_id in reorder payload")
    );
    // A negative index is found before a repeated id.
    assert_eq!(
        validate_reorder_items(&[item("a", 0), item("a", -1)]),
        err("scene_index must be >= 0")
    );
    // The fault of an earlier item hides that of a later one.
    assert_eq!(
        validate_reorder_items(&[item("a", -1), item("", 0)]),
        err("scene_index must be >= 0")
    );
    // Ids are compared as they stand, white space and all.
    assert_eq!(validate_reorder_items(&[item("a", 0), item("a ", 1)]), Ok(()));
}

#[test]
fn project_inputs() {
    let input = CreateProjectInput { name: "demo".to_string(), theme: None, target_platform: None };
    assert_eq!(validate_create_project(&input), Ok(()));
    let blank = CreateProjectInput { name: " ".to_string(), theme: None, target_platform: None };
    assert_eq!(validate_create_project(&blank), err("name cannot be empty"));

    let no_change = UpdateProjectInput { name: None, theme: None, target_platform: None, status: None };
    assert_eq!(validate_update_project("p1", &no_change), Ok(()));
    assert_eq!(validate_update_project("", &no_change), err("project_id cannot be empty"));
    let blank_name = UpdateProjectInput {
        name: Some("  ".to_string()),
        theme: None,
        target_platform: None,
        status: None,
    };
    assert_eq!(validate_update_project("p1", &blank_name), err("name cannot be empty"));
    assert_eq!(validate_update_project(" ", &blank_name), err("project_id cannot be empty"));
}

#[test]
fn scene_inputs() {
    assert_eq!(validate_create_scene(&scene_input("p1", "fade in", None)), Ok(()));
    assert_eq!(validate_create_scene(&scene_input("p1", "fade in", Some(10))), Ok(()));
    assert_eq!(
        validate_create_scene(&scene_input("", "", Some(0))),
        err("project_id cannot be empty")
    );
    assert_eq!(
        validate_create_scene(&scene_input("p1", " ", Some(0))),
        err("scene_text cannot be empty")
    );
    assert_eq!(
        validate_create_scene(&scene_input("p1", "x", Some(0))),
        err("duration_ms must be > 0")
    );
    assert_eq!(validate_update_scene("s1", &scene_update(None)), Ok(()));
    assert_eq!(validate_update_scene("", &scene_update(Some(0))), err("scene_id cannot be empty"));
    assert_eq!(validate_update_scene("s1", &scene_update(Some(-1))), err("duration_ms must be > 0"));
}

#[test]
fn script_inputs() {
    assert_eq!(validate_create_script_version(&script_input("p1", None)), Ok(()));
    assert_eq!(validate_create_script_version(&script_input("p1", Some("ai"))), Ok(()));
    assert_eq!(validate_create_script_version(&script_input("p1", Some("manual"))), Ok(()));
    assert_eq!(
        validate_create_script_version(&script_input("p1", Some("AI"))),
        err("source must be 'ai' or 'manual'")
    );
    assert_eq!(
        validate_create_script_version(&script_input(" ", Some("robot"))),
        err("project_id cannot be empty")
    );
}
