//! Checks on what callers hand in, each made before anything is stored or
//! sent.

use crate::models::{
    CreateProjectInput, CreateSceneInput, CreateScriptVersionInput, SceneReorderItem,
    UpdateProjectInput, UpdateSceneInput,
};
use crate::text::{is_blank, is_blank_text, join2, text_eq};
use vstd::prelude::*;

verus! {

/// The complaint about a field that holds nothing.
pub open spec fn empty_field_error(field: Seq<char>) -> Seq<char> {
    field + " cannot be empty"@
}

/// Accepts `value` unless nothing is left of it once it is trimmed; the
/// error names `field`.
pub fn require_non_empty(field: &str, value: &str) -> (checked: Result<(), String>)
    ensures
        checked is Ok <==> !is_blank(value@),
        checked is Err ==> checked->Err_0@ == empty_field_error(field@),
{
    if is_blank_text(value) {
        return Err(join2(field, " cannot be empty"));
    }
    Ok(())
}

/// What is wrong with a duration, if anything: one that is given has to be
/// positive.
pub open spec fn duration_fault(duration_ms: Option<i64>) -> Option<Seq<char>> {
    match duration_ms {
        Some(ms) => if ms <= 0 {
            Some("duration_ms must be > 0"@)
        } else {
            None
        },
        None => None,
    }
}

/// Accepts a duration that is missing or positive.
pub fn require_positive_duration(duration_ms: Option<i64>) -> (checked: Result<(), String>)
    ensures
        checked is Ok <==> duration_fault(duration_ms) is None,
        checked is Err ==> Some(checked->Err_0@) == duration_fault(duration_ms),
{
    if let Some(ms) = duration_ms {
        if ms <= 0 {
            return Err("duration_ms must be > 0".to_string());
        }
    }
    Ok(())
}

/// What is wrong with item `i` of a reordering, given the items before it.
/// The checks are made in this order: the scene id may not be blank, the
/// index may not be negative, and neither the id nor the index may have come
/// before.
pub open spec fn reorder_fault(items: Seq<SceneReorderItem>, i: int) -> Option<Seq<char>> {
    if is_blank(items[i].id@) {
        Some(empty_field_error("scene_id"@))
    } else if items[i].scene_index < 0 {
        Some("scene_index must be >= 0"@)
    } else if exists|j: int| 0 <= j < i && items[j].id@ == items[i].id@ {
        Some("duplicate scene_id in reorder payload"@)
    } else if exists|j: int| 0 <= j < i && items[j].scene_index == items[i].scene_index {
        Some("duplicate scene_index in reorder payload"@)
    } else {
        None
    }
}

/// Checks a reordering of scenes. It is accepted if no item is at fault;
/// the error is that of the first item at fault.
pub fn validate_reorder_items(items: &[SceneReorderItem]) -> (checked: Result<(), String>)
    ensures
        checked is Ok <==> forall|i: int| 0 <= i < items@.len() ==> reorder_fault(items@, i) is None,
        checked is Err ==> exists|i: int|
            0 <= i < items@.len() && reorder_fault(items@, i) == Some(checked->Err_0@) && forall|
                k: int,
            |
                0 <= k < i ==> reorder_fault(items@, k) is None,
{
    let mut i: usize = 0;
    while i < items.len()
        invariant
            i <= items@.len(),
            forall|k: int| 0 <= k < i ==> reorder_fault(items@, k) is None,
        decreases items@.len() - i,
    {
        match require_non_empty("scene_id", items[i].id.as_str()) {
            Err(why) => {
                assert(reorder_fault(items@, i as int) == Some(why@));
                return Err(why);
            },
            Ok(_) => {},
        }
        if items[i].scene_index < 0 {
            let why = "scene_index must be >= 0".to_string();
            assert(reorder_fault(items@, i as int) == Some(why@));
            return Err(why);
        }
        let mut same_id = false;
        let mut same_index = false;
        let mut j: usize = 0;
        while j < i
            invariant
                j <= i < items@.len(),
                same_id == exists|k: int| 0 <= k < j && items@[k].id@ == items@[i as int].id@,
                same_index == exists|k: int|
                    0 <= k < j && items@[k].scene_index == items@[i as int].scene_index,
            decreases i - j,
        {
            if text_eq(items[j].id.as_str(), items[i].id.as_str()) {
                same_id = true;
            }
            if items[j].scene_index == items[i].scene_index {
                same_index = true;
            }
            j += 1;
        }
        if same_id {
            let why = "duplicate scene_id in reorder payload".to_string();
            assert(reorder_fault(items@, i as int) == Some(why@));
            return Err(why);
        }
        if same_index {
            let why = "duplicate scene_index in reorder payload".to_string();
            assert(reorder_fault(items@, i as int) == Some(why@));
            return Err(why);
        }
        assert(reorder_fault(items@, i as int) is None);
        i += 1;
    }
    Ok(())
}

/// Checks what is handed in to make a project: the name may not be blank.
pub fn validate_create_project(input: &CreateProjectInput) -> (checked: Result<(), String>)
    ensures
        checked is Ok <==> !is_blank(input.name@),
        checked is Err ==> checked->Err_0@ == empty_field_error("name"@),
{
    require_non_empty("name", input.name.as_str())
}

/// Checks what is handed in to change a project: the project id may not be
/// blank, nor a name that is given.
pub fn validate_update_project(project_id: &str, input: &UpdateProjectInput) -> (checked: Result<
    (),
    String,
>)
    ensures
        checked is Ok <==> !is_blank(project_id@) && (input.name is Some ==> !is_blank(
            input.name->0@,
        )),
        checked is Err ==> checked->Err_0@ == if is_blank(project_id@) {
            empty_field_error("project_id"@)
        } else {
            empty_field_error("name"@)
        },
{
    match require_non_empty("project_id", project_id) {
        Err(why) => {
            return Err(why);
        },
        Ok(_) => {},
    }
    match &input.name {
        Some(name) => require_non_empty("name", name.as_str()),
        None => Ok(()),
    }
}

/// Checks what is handed in to make a scene: neither the project id nor the
/// text may be blank, and a duration that is given has to be positive.
pub fn validate_create_scene(input: &CreateSceneInput) -> (checked: Result<(), String>)
    ensures
        checked is Ok <==> !is_blank(input.project_id@) && !is_blank(input.scene_text@)
            && duration_fault(input.duration_ms) is None,
        checked is Err ==> Some(checked->Err_0@) == if is_blank(input.project_id@) {
            Some(empty_field_error("project_id"@))
        } else if is_blank(input.scene_text@) {
            Some(empty_field_error("scene_text"@))
        } else {
            duration_fault(input.duration_ms)
        },
{
    match require_non_empty("project_id", input.project_id.as_str()) {
        Err(why) => {
            return Err(why);
        },
        Ok(_) => {},
    }
    match require_non_empty("scene_text", input.scene_text.as_str()) {
        Err(why) => {
            return Err(why);
        },
        Ok(_) => {},
    }
    require_positive_duration(input.duration_ms)
}

/// Checks what is handed in to change a scene: the scene id may not be
/// blank, and a duration that is given has to be positive.
pub fn validate_update_scene(scene_id: &str, input: &UpdateSceneInput) -> (checked: Result<
    (),
    String,
>)
    ensures
        checked is Ok <==> !is_blank(scene_id@) && duration_fault(input.duration_ms) is None,
        checked is Err ==> Some(checked->Err_0@) == if is_blank(scene_id@) {
            Some(empty_field_error("scene_id"@))
        } else {
            duration_fault(input.duration_ms)
        },
{
    match require_non_empty("scene_id", scene_id) {
        Err(why) => {
            return Err(why);
        },
        Ok(_) => {},
    }
    require_positive_duration(input.duration_ms)
}

/// A script comes from a model or from a person, if its source is named at
/// all.
pub open spec fn source_is_known(source: Option<String>) -> bool {
    match source {
        Some(word) => word@ == "ai"@ || word@ == "manual"@,
        None => true,
    }
}

/// Checks what is handed in to make a script version: the project id may
/// not be blank, and a source that is given has to be `ai` or `manual`.
pub fn validate_create_script_version(input: &CreateScriptVersionInput) -> (checked: Result<
    (),
    String,
>)
    ensures
        checked is Ok <==> !is_blank(input.project_id@) && source_is_known(input.source),
        checked is Err ==> checked->Err_0@ == if is_blank(input.project_id@) {
            empty_field_error("project_id"@)
        } else {
            "source must be 'ai' or 'manual'"@
        },
{
    match require_non_empty("project_id", input.project_id.as_str()) {
        Err(why) => {
            return Err(why);
        },
        Ok(_) => {},
    }
    if let Some(source) = &input.source {
        if !text_eq(source.as_str(), "ai") && !text_eq(source.as_str(), "manual") {
            return Err("source must be 'ai' or 'manual'".to_string());
        }
    }
    Ok(())
}

} // verus!
