//! Consistent, read-only task and attempt evidence.
use crate::fault::{answers, failure, EngineError, EngineErrorModel};
use crate::json::{as_count, member, parse, parsed_json, Json, JsonModel};
use crate::text::same_text;
use vstd::prelude::*;

verus! {

/// The fault of a saved cost.
pub open spec fn cost_fault(value: i64) -> Option<EngineErrorModel> {
    if value < 0 {
        Some(failure("storage"@, "negative saved cost"@))
    } else {
        None
    }
}

/// A saved cost.
pub fn saved_cost(value: i64) -> (r: Result<u64, EngineError>)
    ensures
        answers(r, cost_fault(value)),
        r is Ok ==> r->Ok_0 == value,
{
    if value < 0 {
        return Err(EngineError::new("storage", "negative saved cost"));
    }
    Ok(value as u64)
}

/// A saved cost that may be unknown.
pub fn saved_optional_cost(value: Option<i64>) -> (r: Result<Option<u64>, EngineError>)
    ensures
        answers(
            r,
            match value {
                Some(v) => cost_fault(v),
                None => None,
            },
        ),
        r is Ok ==> match (r->Ok_0, value) {
            (Some(c), Some(v)) => c == v,
            (None, None) => true,
            _ => false,
        },
{
    match value {
        Some(v) => match saved_cost(v) {
            Ok(c) => Ok(Some(c)),
            Err(e) => Err(e),
        },
        None => Ok(None),
    }
}

/// The fault of saved evidence, read as a value.
pub open spec fn json_fault(value: Option<JsonModel>) -> Option<EngineErrorModel> {
    if value is None {
        Some(failure("storage"@, "invalid saved JSON evidence"@))
    } else {
        None
    }
}

/// Saved evidence.
pub fn saved_json(text: &str) -> (r: Result<Json, EngineError>)
    ensures
        answers(r, json_fault(parsed_json(text@))),
        r is Ok ==> Some(r->Ok_0@) == parsed_json(text@),
{
    checked_json(parse(text))
}

/// Saved evidence, read as a value.
pub fn checked_json(value: Option<Json>) -> (r: Result<Json, EngineError>)
    ensures
        answers(
            r,
            json_fault(
                match value {
                    Some(j) => Some(j@),
                    None => None,
                },
            ),
        ),
        r is Ok ==> value is Some && r->Ok_0@ == value->0@,
{
    match value {
        Some(j) => Ok(j),
        None => Err(EngineError::new("storage", "invalid saved JSON evidence")),
    }
}

/// A call whose cost is not settled.
pub open spec fn open_state(state: Seq<char>) -> bool {
    state == "pending"@ || state == "unresolved"@
}

/// Whether a call's cost is not settled.
pub fn is_open_state(state: &str) -> (r: bool)
    ensures
        r == open_state(state@),
{
    same_text(state, "pending") || same_text(state, "unresolved")
}

/// A task needs attention: it is running or waits for a human, holds a reservation, or has a call
/// whose cost is not settled.
pub open spec fn needs_attention(
    status: Seq<char>,
    reserved: u64,
    states: Seq<Seq<char>>,
) -> bool {
    ||| status == "running"@
    ||| status == "human_required"@
    ||| reserved > 0
    ||| exists|i: int| 0 <= i < states.len() && open_state(#[trigger] states[i])
}

/// Whether a task needs attention, by its status, its reservation and the states of its calls.
pub fn is_recoverable(status: &str, reserved: u64, states: &Vec<String>) -> (r: bool)
    ensures
        r == needs_attention(status@, reserved, states.deep_view()),
{
    if same_text(status, "running") || same_text(status, "human_required") || reserved > 0 {
        return true;
    }
    let ghost all = states.deep_view();
    let mut i: usize = 0;
    while i < states.len()
        invariant
            i <= states@.len(),
            all == states.deep_view(),
            forall|j: int| 0 <= j < i ==> !open_state(#[trigger] all[j]),
        decreases states@.len() - i,
    {
        assert(all[i as int] == states@[i as int]@);
        if is_open_state(states[i].as_str()) {
            return true;
        }
        i += 1;
    }
    false
}

/// How a saved task is read.
#[derive(Clone, Copy, Debug, PartialEq, Eq, Structural)]
pub enum PayloadKind {
    /// A versioned payload that holds the submission.
    Submission,
    /// The task itself.
    Task,
}

/// How a saved task is read.
pub open spec fn payload_kind(payload: JsonModel) -> PayloadKind {
    if payload.at("payload_version"@) == JsonModel::Number(crate::json::NumberModel::PosInt(1)) {
        PayloadKind::Submission
    } else {
        PayloadKind::Task
    }
}

/// How a saved task is read.
pub fn kind_of_payload(payload: &Json) -> (r: PayloadKind)
    ensures
        r == payload_kind(payload@),
{
    match as_count(member(Some(payload), "payload_version")) {
        Some(1) => PayloadKind::Submission,
        _ => PayloadKind::Task,
    }
}

/// A task needs attention exactly where it runs, waits for a human, has something set aside, or has
/// a call that is pending or unresolved.
pub proof fn lemma_who_needs_attention(
    status: Seq<char>,
    reserved: u64,
    states: Seq<Seq<char>>,
)
    ensures
        needs_attention(status, reserved, states) <==> {
            ||| status == "running"@ || status == "human_required"@
            ||| reserved > 0
            ||| exists|i: int|
                0 <= i < states.len() && (#[trigger] states[i] == "pending"@ || states[i]
                    == "unresolved"@)
        },
{
    if exists|i: int| 0 <= i < states.len() && open_state(#[trigger] states[i]) {
        let i = choose|i: int| 0 <= i < states.len() && open_state(#[trigger] states[i]);
        assert(states[i] == "pending"@ || states[i] == "unresolved"@);
    }
    if exists|i: int|
        0 <= i < states.len() && (#[trigger] states[i] == "pending"@ || states[i]
            == "unresolved"@) {
        let i = choose|i: int|
            0 <= i < states.len() && (#[trigger] states[i] == "pending"@ || states[i]
                == "unresolved"@);
        assert(open_state(states[i]));
    }
}

/// A saved cost below zero is refused, and so is saved evidence that is no JSON.
pub proof fn lemma_what_is_not_read(cost: i64, value: Option<JsonModel>)
    ensures
        cost_fault(cost) is Some <==> cost < 0,
        cost_fault(cost) is Some ==> cost_fault(cost)->0.kind == "storage"@,
        json_fault(value) is Some <==> value is None,
        json_fault(value) is Some ==> json_fault(value)->0.kind == "storage"@,
{
}

/// A saved task is read as a submission exactly where it says that it is of the first version of
/// one.
pub proof fn lemma_kinds_of_payload(payload: JsonModel)
    ensures
        payload_kind(payload) == PayloadKind::Submission <==> payload.at("payload_version"@)
            == JsonModel::Number(crate::json::NumberModel::PosInt(1)),
        payload_kind(payload) == PayloadKind::Submission || payload_kind(payload)
            == PayloadKind::Task,
{
}

} // verus!
