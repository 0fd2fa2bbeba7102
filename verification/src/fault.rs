//! Errors of the engine, and the rule that the first fault found is the one reported.
use crate::json::{empty_object, text_value, Json, JsonModel, ObjectBuilder};
use crate::model::Duplicate;
use crate::text::{
    ascending, lemma_text_irreflexive, lemma_text_total, lemma_text_transitive, text_lt,
};
use vstd::prelude::*;

verus! {

/// An error: its kind, a message, the task it belongs to, and details.
#[derive(Debug)]
pub struct EngineError {
    pub kind: String,
    pub message: String,
    pub task_id: Option<String>,
    pub details: Json,
}

/// What a `EngineError` holds.
#[verifier::ext_equal]
pub ghost struct EngineErrorModel {
    pub kind: Seq<char>,
    pub message: Seq<char>,
    pub task_id: Option<Seq<char>>,
    pub details: JsonModel,
}

impl DeepView for EngineError {
    type V = EngineErrorModel;

    open spec fn deep_view(&self) -> EngineErrorModel {
        EngineErrorModel {
            kind: self.kind.deep_view(),
            message: self.message.deep_view(),
            task_id: self.task_id.deep_view(),
            details: self.details.deep_view(),
        }
    }
}

impl Duplicate for EngineError {
    fn duplicate(&self) -> (r: Self) {
        EngineError {
            kind: self.kind.duplicate(),
            message: self.message.duplicate(),
            task_id: self.task_id.duplicate(),
            details: self.details.duplicate(),
        }
    }
}

impl Clone for EngineError {
    fn clone(&self) -> (r: Self)
        ensures
            r.deep_view() == self.deep_view(),
    {
        self.duplicate()
    }
}

/// An error of a kind with a message, without task and details.
pub open spec fn failure(kind: Seq<char>, message: Seq<char>) -> EngineErrorModel {
    EngineErrorModel { kind, message, task_id: None, details: JsonModel::Null }
}

/// Details that name a field.
pub open spec fn field_details(field: Seq<char>) -> JsonModel {
    empty_object().with("field"@, JsonModel::Text(field))
}

/// An error that names a field.
pub open spec fn field_failure(
    kind: Seq<char>,
    field: Seq<char>,
    message: Seq<char>,
) -> EngineErrorModel {
    EngineErrorModel { kind, message, task_id: None, details: field_details(field) }
}

impl EngineError {
    pub fn new(kind: &str, message: &str) -> (r: Self)
        ensures
            r.deep_view() == failure(kind@, message@),
    {
        EngineError {
            kind: kind.to_owned(),
            message: message.to_owned(),
            task_id: None,
            details: Json::Null,
        }
    }

    /// The error, as one of a task.
    pub fn task(self, id: &str) -> (r: Self)
        ensures
            r.deep_view() == (EngineErrorModel { task_id: Some(id@), ..self.deep_view() }),
    {
        EngineError {
            kind: self.kind,
            message: self.message,
            task_id: Some(id.to_owned()),
            details: self.details,
        }
    }

    /// The error with other details.
    pub fn details(self, details: Json) -> (r: Self)
        ensures
            r.deep_view() == (EngineErrorModel { details: details@, ..self.deep_view() }),
    {
        EngineError { kind: self.kind, message: self.message, task_id: self.task_id, details }
    }

    /// The error in one line.
    pub fn to_text(&self) -> (r: String)
        ensures
            r@ == self.kind@ + ": "@ + self.message@,
    {
        crate::text::join3(self.kind.as_str(), ": ", self.message.as_str())
    }
}

/// An error that names a field.
pub fn field_error(kind: &str, field: &str, message: &str) -> (r: EngineError)
    ensures
        r.deep_view() == field_failure(kind@, field@, message@),
{
    EngineError::new(kind, message).details(
        ObjectBuilder::new().with("field", text_value(field)).build(),
    )
}

/// `r` succeeds where there is no fault, and reports the fault where there is one.
pub open spec fn answers<T>(
    r: Result<T, EngineError>,
    fault: Option<EngineErrorModel>,
) -> bool {
    match r {
        Ok(_) => fault is None,
        Err(e) => fault == Some(e.deep_view()),
    }
}

/// The fault of the first of `n` items that has one.
pub open spec fn first_fault(
    faults: spec_fn(int) -> Option<EngineErrorModel>,
    n: nat,
) -> Option<EngineErrorModel>
    decreases n,
{
    if n == 0 {
        None
    } else {
        match first_fault(faults, (n - 1) as nat) {
            Some(e) => Some(e),
            None => faults(n - 1),
        }
    }
}

/// Of two faults the first.
pub open spec fn or_fault(
    first: Option<EngineErrorModel>,
    second: Option<EngineErrorModel>,
) -> Option<EngineErrorModel> {
    match first {
        Some(e) => Some(e),
        None => second,
    }
}

/// Where there is no first fault, no item has one.
pub proof fn lemma_first_fault_at(
    faults: spec_fn(int) -> Option<EngineErrorModel>,
    n: nat,
    i: int,
)
    requires
        first_fault(faults, n) is None,
        0 <= i < n,
    ensures
        faults(i) is None,
    decreases n,
{
    if i < n - 1 {
        lemma_first_fault_at(faults, (n - 1) as nat, i);
    }
}

/// The first fault is that of an item.
pub proof fn lemma_first_fault_is_one(
    faults: spec_fn(int) -> Option<EngineErrorModel>,
    n: nat,
) -> (i: int)
    requires
        first_fault(faults, n) is Some,
    ensures
        0 <= i < n,
        faults(i) == first_fault(faults, n),
    decreases n,
{
    if first_fault(faults, (n - 1) as nat) is Some {
        lemma_first_fault_is_one(faults, (n - 1) as nat)
    } else {
        n - 1
    }
}

/// Where no item has a fault, there is no first fault.
pub proof fn lemma_no_fault(faults: spec_fn(int) -> Option<EngineErrorModel>, n: nat)
    requires
        forall|i: int| 0 <= i < n ==> (#[trigger] faults(i)) is None,
    ensures
        first_fault(faults, n) is None,
    decreases n,
{
    if n > 0 {
        lemma_no_fault(faults, (n - 1) as nat);
    }
}

/// An item's fault after faultless ones is the first fault of all.
pub proof fn lemma_first_fault(
    faults: spec_fn(int) -> Option<EngineErrorModel>,
    i: nat,
    n: nat,
)
    requires
        i < n,
        first_fault(faults, i) is None,
        faults(i as int) is Some,
    ensures
        first_fault(faults, n) == faults(i as int),
    decreases n,
{
    if i + 1 < n {
        lemma_first_fault(faults, i, (n - 1) as nat);
    }
}

/// `key` has a fault, and no key before it in the order of texts has one.
pub open spec fn least_faulty(
    keys: Set<Seq<char>>,
    faults: spec_fn(Seq<char>) -> Option<EngineErrorModel>,
    key: Seq<char>,
) -> bool {
    &&& keys.contains(key)
    &&& faults(key) is Some
    &&& forall|other: Seq<char>|
        #[trigger] keys.contains(other) && text_lt(other, key) ==> faults(other) is None
}

/// The fault of the first key, in the order of texts, that has one.
pub open spec fn first_key_fault(
    keys: Set<Seq<char>>,
    faults: spec_fn(Seq<char>) -> Option<EngineErrorModel>,
) -> Option<EngineErrorModel> {
    if exists|key: Seq<char>| #[trigger] keys.contains(key) && faults(key) is Some {
        faults(choose|key: Seq<char>| least_faulty(keys, faults, key))
    } else {
        None
    }
}

/// Where ascending keys have no fault up to one that has, that one is the first.
pub proof fn lemma_first_key_fault(
    listed: Seq<Seq<char>>,
    keys: Set<Seq<char>>,
    faults: spec_fn(Seq<char>) -> Option<EngineErrorModel>,
    i: int,
)
    requires
        ascending(listed),
        forall|t: Seq<char>| keys.contains(t) <==> listed.contains(t),
        0 <= i < listed.len(),
        faults(listed[i]) is Some,
        forall|j: int| 0 <= j < i ==> faults(#[trigger] listed[j]) is None,
    ensures
        first_key_fault(keys, faults) == faults(listed[i]),
{
    let key = listed[i];
    assert(listed.contains(key));
    assert forall|other: Seq<char>|
        #[trigger] keys.contains(other) && text_lt(other, key) implies faults(other) is None by {
        let j = choose|j: int| 0 <= j < listed.len() && listed[j] == other;
        if j == i {
            lemma_text_irreflexive(key);
        } else if j > i {
            assert(text_lt(listed[i], listed[j]));
            lemma_text_transitive(key, other, key);
            lemma_text_irreflexive(key);
        }
    }
    assert(least_faulty(keys, faults, key));
    let chosen = choose|k: Seq<char>| least_faulty(keys, faults, k);
    lemma_text_total(chosen, key);
}

/// Where no listed key has a fault there is none.
pub proof fn lemma_no_key_fault(
    listed: Seq<Seq<char>>,
    keys: Set<Seq<char>>,
    faults: spec_fn(Seq<char>) -> Option<EngineErrorModel>,
)
    requires
        forall|t: Seq<char>| keys.contains(t) <==> listed.contains(t),
        forall|j: int| 0 <= j < listed.len() ==> faults(#[trigger] listed[j]) is None,
    ensures
        first_key_fault(keys, faults) is None,
{
}

proof fn lemma_least_faulty(
    keys: Set<Seq<char>>,
    faults: spec_fn(Seq<char>) -> Option<EngineErrorModel>,
    key: Seq<char>,
) -> (least: Seq<char>)
    requires
        keys.finite(),
        keys.contains(key),
        faults(key) is Some,
    ensures
        least_faulty(keys, faults, least),
    decreases keys.filter(|t: Seq<char>| text_lt(t, key)).len(),
{
    if exists|other: Seq<char>|
        #[trigger] keys.contains(other) && text_lt(other, key) && faults(other) is Some {
        let other = choose|other: Seq<char>|
            #[trigger] keys.contains(other) && text_lt(other, key) && faults(other) is Some;
        let below = keys.filter(|t: Seq<char>| text_lt(t, key));
        let less = keys.filter(|t: Seq<char>| text_lt(t, other));
        lemma_text_irreflexive(other);
        assert(less.subset_of(below.remove(other))) by {
            assert forall|t: Seq<char>| less.contains(t) implies below.remove(other).contains(
                t,
            ) by {
                lemma_text_transitive(t, other, key);
            }
        }
        assert(below.contains(other));
        vstd::set_lib::lemma_len_subset(less, below.remove(other));
        lemma_least_faulty(keys, faults, other)
    } else {
        key
    }
}

/// Among finitely many keys there is a fault exactly where some key has one, and it is the fault of
/// one of them.
pub proof fn lemma_some_key_fault(
    keys: Set<Seq<char>>,
    faults: spec_fn(Seq<char>) -> Option<EngineErrorModel>,
)
    requires
        keys.finite(),
    ensures
        first_key_fault(keys, faults) is Some <==> exists|key: Seq<char>|
            #[trigger] keys.contains(key) && faults(key) is Some,
        first_key_fault(keys, faults) is Some ==> exists|key: Seq<char>|
            #[trigger] keys.contains(key) && faults(key) == first_key_fault(keys, faults),
{
    if exists|key: Seq<char>| #[trigger] keys.contains(key) && faults(key) is Some {
        let key = choose|key: Seq<char>| #[trigger] keys.contains(key) && faults(key) is Some;
        let least = lemma_least_faulty(keys, faults, key);
        let chosen = choose|key: Seq<char>| least_faulty(keys, faults, key);
        assert(least_faulty(keys, faults, chosen));
        assert(keys.contains(chosen));
    }
}

/// An error tells its kind and its message; one of a field names the field.
pub proof fn lemma_error_tells_its_field(kind: Seq<char>, field: Seq<char>, message: Seq<char>)
    ensures
        failure(kind, message).kind == kind && failure(kind, message).message == message,
        failure(kind, message).task_id is None && failure(kind, message).details is Null,
        field_failure(kind, field, message).kind == kind,
        field_failure(kind, field, message).message == message,
        field_failure(kind, field, message).task_id is None,
        field_failure(kind, field, message).details.at("field"@) == JsonModel::Text(field),
{
}

} // verus!
