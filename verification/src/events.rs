//! Events of a task, each of bounded size.
use crate::contracts::encoding::Encode;
use crate::fault::{answers, failure, EngineError, EngineErrorModel};
use crate::json::{
    count_model, count_value, empty_object, json_text, text_or_null, text_or_null_value,
    text_value, Json, JsonModel, ObjectBuilder,
};
use crate::model::Duplicate;
use crate::text::{byte_count, byte_len};
use vstd::prelude::*;

verus! {

/// Something that happened to a task.
#[derive(Debug)]
pub struct Event {
    pub task_id: String,
    pub node_id: Option<String>,
    pub attempt_id: Option<String>,
    pub sequence: u64,
    pub timestamp_ms: u64,
    pub kind: String,
    pub data: Json,
}

/// What a `Event` holds.
#[verifier::ext_equal]
pub ghost struct EventModel {
    pub task_id: Seq<char>,
    pub node_id: Option<Seq<char>>,
    pub attempt_id: Option<Seq<char>>,
    pub sequence: u64,
    pub timestamp_ms: u64,
    pub kind: Seq<char>,
    pub data: JsonModel,
}

impl DeepView for Event {
    type V = EventModel;

    open spec fn deep_view(&self) -> EventModel {
        EventModel {
            task_id: self.task_id.deep_view(),
            node_id: self.node_id.deep_view(),
            attempt_id: self.attempt_id.deep_view(),
            sequence: self.sequence.deep_view(),
            timestamp_ms: self.timestamp_ms.deep_view(),
            kind: self.kind.deep_view(),
            data: self.data.deep_view(),
        }
    }
}

impl Duplicate for Event {
    fn duplicate(&self) -> (r: Self) {
        Event {
            task_id: self.task_id.duplicate(),
            node_id: self.node_id.duplicate(),
            attempt_id: self.attempt_id.duplicate(),
            sequence: self.sequence.duplicate(),
            timestamp_ms: self.timestamp_ms.duplicate(),
            kind: self.kind.duplicate(),
            data: self.data.duplicate(),
        }
    }
}

impl Clone for Event {
    fn clone(&self) -> (r: Self)
        ensures
            r.deep_view() == self.deep_view(),
    {
        self.duplicate()
    }
}

impl Encode for Event {
    open spec fn json_of(m: EventModel) -> JsonModel {
        empty_object().with("task_id"@, JsonModel::Text(m.task_id)).with(
            "node_id"@,
            text_or_null(m.node_id),
        ).with("attempt_id"@, text_or_null(m.attempt_id)).with(
            "sequence"@,
            count_model(m.sequence),
        ).with("timestamp_ms"@, count_model(m.timestamp_ms)).with(
            "kind"@,
            JsonModel::Text(m.kind),
        ).with("data"@, m.data)
    }

    fn to_json(&self) -> (r: Json) {
        ObjectBuilder::new().with("task_id", text_value(self.task_id.as_str())).with(
            "node_id",
            text_or_null_value(&self.node_id),
        ).with("attempt_id", text_or_null_value(&self.attempt_id)).with(
            "sequence",
            count_value(self.sequence),
        ).with("timestamp_ms", count_value(self.timestamp_ms)).with(
            "kind",
            text_value(self.kind.as_str()),
        ).with("data", self.data.duplicate()).build()
    }
}

impl EventModel {
    /// The bytes that the event takes as JSON.
    pub open spec fn size(self) -> nat {
        byte_len(json_text(Event::json_of(self)))
    }

    /// The fault of an event that takes more bytes than it may.
    pub open spec fn size_fault(self, max_bytes: usize) -> Option<EngineErrorModel> {
        if self.size() > max_bytes {
            Some(failure("protocol"@, "event exceeds configured size limit"@))
        } else {
            None
        }
    }
}

impl Event {
    /// Checks that an event takes no more bytes than it may.
    pub fn check_size(&self, max_bytes: usize) -> (r: Result<(), EngineError>)
        ensures
            answers(r, self.deep_view().size_fault(max_bytes)),
    {
        let text: String = self.to_json().to_text();
        check_encoded(text.as_str(), max_bytes)
    }
}

/// Checks that the JSON text of an event takes no more bytes than it may.
pub fn check_encoded(text: &str, max_bytes: usize) -> (r: Result<(), EngineError>)
    ensures
        answers(
            r,
            if byte_len(text@) > max_bytes {
                Some(failure("protocol"@, "event exceeds configured size limit"@))
            } else {
                None
            },
        ),
{
    if byte_count(text) > max_bytes {
        return Err(EngineError::new("protocol", "event exceeds configured size limit"));
    }
    Ok(())
}

/// What became of handing an event to its consumer.
#[derive(Clone, Copy, Debug, PartialEq, Eq, Structural)]
pub enum Delivery {
    /// The task was cancelled first.
    Cancelled,
    /// The consumer has gone; execution does not depend on it.
    ConsumerGone,
    Sent,
    /// The execution deadline passed while the consumer was not ready.
    TimedOut,
}

/// The fault of a delivery.
pub open spec fn delivery_fault(delivery: Delivery) -> Option<EngineErrorModel> {
    match delivery {
        Delivery::Cancelled => Some(failure("cancelled"@, "task cancelled"@)),
        Delivery::ConsumerGone => None,
        Delivery::Sent => None,
        Delivery::TimedOut => Some(
            failure("deadline"@, "event consumer exceeded execution deadline"@),
        ),
    }
}

/// Whether a task goes on after an event was handed to its consumer.
pub fn check_delivery(delivery: Delivery) -> (r: Result<(), EngineError>)
    ensures
        answers(r, delivery_fault(delivery)),
{
    match delivery {
        Delivery::Cancelled => Err(EngineError::new("cancelled", "task cancelled")),
        Delivery::ConsumerGone => Ok(()),
        Delivery::Sent => Ok(()),
        Delivery::TimedOut => Err(
            EngineError::new("deadline", "event consumer exceeded execution deadline"),
        ),
    }
}

/// An event in its JSON form tells all that it has, and an event is too large exactly where that
/// form takes more bytes than it may.
pub proof fn lemma_event_is_told(event: EventModel, max_bytes: usize)
    ensures
        ({
            let v = Event::json_of(event);
            &&& v.at("task_id"@) == JsonModel::Text(event.task_id)
            &&& v.at("node_id"@) == text_or_null(event.node_id)
            &&& v.at("attempt_id"@) == text_or_null(event.attempt_id)
            &&& v.at("sequence"@) == count_model(event.sequence)
            &&& v.at("timestamp_ms"@) == count_model(event.timestamp_ms)
            &&& v.at("kind"@) == JsonModel::Text(event.kind)
            &&& v.at("data"@) == event.data
            &&& event.size_fault(max_bytes) is None <==> byte_len(json_text(v)) <= max_bytes
        }),
{
    lemma_event_names();
}

/// A task goes on after an event was sent, and where its consumer is gone; it ends where it was
/// cancelled or its consumer takes too long.
pub proof fn lemma_what_follows_a_delivery(delivery: Delivery)
    ensures
        delivery == Delivery::Sent || delivery == Delivery::ConsumerGone ==> delivery_fault(
            delivery,
        ) is None,
        delivery == Delivery::Cancelled ==> delivery_fault(delivery) is Some && delivery_fault(
            delivery,
        )->0.kind == "cancelled"@,
        delivery == Delivery::TimedOut ==> delivery_fault(delivery) is Some && delivery_fault(
            delivery,
        )->0.kind == "deadline"@,
{
}

proof fn lemma_event_names()
    ensures
        "task_id"@ != "node_id"@,
        "task_id"@ != "attempt_id"@,
        "task_id"@ != "sequence"@,
        "task_id"@ != "timestamp_ms"@,
        "task_id"@ != "kind"@,
        "task_id"@ != "data"@,
        "node_id"@ != "attempt_id"@,
        "node_id"@ != "sequence"@,
        "node_id"@ != "timestamp_ms"@,
        "node_id"@ != "kind"@,
        "node_id"@ != "data"@,
        "attempt_id"@ != "sequence"@,
        "attempt_id"@ != "timestamp_ms"@,
        "attempt_id"@ != "kind"@,
        "attempt_id"@ != "data"@,
        "sequence"@ != "timestamp_ms"@,
        "sequence"@ != "kind"@,
        "sequence"@ != "data"@,
        "timestamp_ms"@ != "kind"@,
        "timestamp_ms"@ != "data"@,
        "kind"@ != "data"@,
{
    reveal_strlit("task_id");
    reveal_strlit("node_id");
    reveal_strlit("attempt_id");
    reveal_strlit("sequence");
    reveal_strlit("timestamp_ms");
    reveal_strlit("kind");
    reveal_strlit("data");
    assert("task_id"@.len() == 7);
    assert("node_id"@.len() == 7);
    assert("attempt_id"@.len() == 10);
    assert("sequence"@.len() == 8);
    assert("timestamp_ms"@.len() == 12);
    assert("kind"@.len() == 4);
    assert("data"@.len() == 4);
    assert("task_id"@[0] != "node_id"@[0]);
    assert("kind"@[0] != "data"@[0]);
}

} // verus!
