//! Versioned submission payloads and immutable plans within the current database schema.
use crate::fault::{answers, failure, EngineError, EngineErrorModel};
use crate::json::{
    count_model, count_value, empty_object, text_value, Json, JsonModel, ObjectBuilder,
};
use vstd::prelude::*;

verus! {

/// The payload that a submission is saved in.
pub fn submission_payload(submission: Json) -> (r: Json)
    ensures
        r@ == empty_object().with("payload_version"@, count_model(1)).with(
            "submission"@,
            submission@,
        ),
{
    ObjectBuilder::new().with("payload_version", count_value(1)).with(
        "submission",
        submission,
    ).build()
}

/// The point that a task has reached.
pub open spec fn phase_model(phase: Seq<char>) -> JsonModel {
    empty_object().with("version"@, count_model(1)).with("phase"@, JsonModel::Text(phase))
}

/// The point that a task has reached.
pub fn phase_checkpoint(phase: &str) -> (r: Json)
    ensures
        r@ == phase_model(phase@),
{
    ObjectBuilder::new().with("version", count_value(1)).with("phase", text_value(phase)).build()
}

/// The fault of a task under a name that is taken.
pub open spec fn name_fault(taken: bool) -> Option<EngineErrorModel> {
    if taken {
        Some(failure("configuration"@, "task_id already exists"@))
    } else {
        None
    }
}

/// Checks that a task's name is not taken.
pub fn check_name(taken: bool) -> (r: Result<(), EngineError>)
    ensures
        answers(r, name_fault(taken)),
{
    if taken {
        return Err(EngineError::new("configuration", "task_id already exists"));
    }
    Ok(())
}

/// The fault of a plan that was not saved with exactly one running task.
pub open spec fn save_fault(changed: usize) -> Option<EngineErrorModel> {
    if changed != 1 {
        Some(failure("storage"@, "plan requires a running task"@))
    } else {
        None
    }
}

/// Checks that a plan was saved with exactly one running task.
pub fn check_saved(changed: usize) -> (r: Result<(), EngineError>)
    ensures
        answers(r, save_fault(changed)),
{
    if changed != 1 {
        return Err(EngineError::new("storage", "plan requires a running task"));
    }
    Ok(())
}

/// What is saved of the point that a task has reached.
pub proof fn lemma_phase_is_told(phase: Seq<char>)
    ensures
        phase_model(phase).at("phase"@) == JsonModel::Text(phase),
        phase_model(phase).at("version"@) == count_model(1),
{
    lemma_phase_names();
}

/// A taken name is refused, and a plan that was not saved with exactly one running task.
pub proof fn lemma_what_is_not_saved(taken: bool, changed: usize)
    ensures
        name_fault(taken) is Some <==> taken,
        save_fault(changed) is None <==> changed == 1,
        taken ==> name_fault(taken)->0.kind == "configuration"@,
        changed != 1 ==> save_fault(changed)->0.kind == "storage"@,
{
}

proof fn lemma_phase_names()
    ensures
        "version"@ != "phase"@,
{
    reveal_strlit("version");
    reveal_strlit("phase");
    assert("version"@.len() == 7);
    assert("phase"@.len() == 5);
}

} // verus!
