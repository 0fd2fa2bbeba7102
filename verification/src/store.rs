//! Business rules of the ledger, not a generic key/value persistence interface.
pub mod feedback;
pub mod metrics;
pub mod planning;
pub mod recovery;
pub mod schema;
pub mod settlement;

use crate::contracts::planning::{SubmissionSpec, SubmissionSpecModel};
use crate::contracts::task::{minus_floored, TaskSpec, TaskSpecModel};
use crate::fault::{answers, failure, EngineError, EngineErrorModel};
use crate::json::{
    count_model, count_value, empty_object, text_value, Json, JsonModel, NumberModel,
    ObjectBuilder,
};
use crate::model::Duplicate;
use crate::text::same_text;
use vstd::prelude::*;

verus! {

/// What a task may spend, has spent, has set aside, and how many calls it has made.
#[derive(Debug)]
pub struct Ledger {
    pub total: u64,
    pub settled: u64,
    pub reserved: u64,
    pub calls: u32,
}

/// What a `Ledger` holds.
#[verifier::ext_equal]
pub ghost struct LedgerModel {
    pub total: u64,
    pub settled: u64,
    pub reserved: u64,
    pub calls: u32,
}

impl DeepView for Ledger {
    type V = LedgerModel;

    open spec fn deep_view(&self) -> LedgerModel {
        LedgerModel {
            total: self.total.deep_view(),
            settled: self.settled.deep_view(),
            reserved: self.reserved.deep_view(),
            calls: self.calls.deep_view(),
        }
    }
}

impl Duplicate for Ledger {
    fn duplicate(&self) -> (r: Self) {
        Ledger {
            total: self.total.duplicate(),
            settled: self.settled.duplicate(),
            reserved: self.reserved.duplicate(),
            calls: self.calls.duplicate(),
        }
    }
}

impl Clone for Ledger {
    fn clone(&self) -> (r: Self)
        ensures
            r.deep_view() == self.deep_view(),
    {
        self.duplicate()
    }
}

/// Persisted evidence of a call, including calls at no cost whose outcome is unknown.
#[derive(Debug)]
pub struct AttemptRecord {
    pub attempt_id: String,
    pub amount: u64,
    pub cost: Option<u64>,
    pub state: String,
    pub metadata: Json,
    pub outcome: Option<Json>,
}

/// What a `AttemptRecord` holds.
#[verifier::ext_equal]
pub ghost struct AttemptRecordModel {
    pub attempt_id: Seq<char>,
    pub amount: u64,
    pub cost: Option<u64>,
    pub state: Seq<char>,
    pub metadata: JsonModel,
    pub outcome: Option<JsonModel>,
}

impl DeepView for AttemptRecord {
    type V = AttemptRecordModel;

    open spec fn deep_view(&self) -> AttemptRecordModel {
        AttemptRecordModel {
            attempt_id: self.attempt_id.deep_view(),
            amount: self.amount.deep_view(),
            cost: self.cost.deep_view(),
            state: self.state.deep_view(),
            metadata: self.metadata.deep_view(),
            outcome: self.outcome.deep_view(),
        }
    }
}

impl Duplicate for AttemptRecord {
    fn duplicate(&self) -> (r: Self) {
        AttemptRecord {
            attempt_id: self.attempt_id.duplicate(),
            amount: self.amount.duplicate(),
            cost: self.cost.duplicate(),
            state: self.state.duplicate(),
            metadata: self.metadata.duplicate(),
            outcome: self.outcome.duplicate(),
        }
    }
}

impl Clone for AttemptRecord {
    fn clone(&self) -> (r: Self)
        ensures
            r.deep_view() == self.deep_view(),
    {
        self.duplicate()
    }
}

/// Persisted evidence of a task.
#[derive(Debug)]
pub struct RecoveryRecord {
    pub task: TaskSpec,
    /// The original submission, if the task was submitted as one.
    pub submission: Option<SubmissionSpec>,
    pub plan: Json,
    pub config_hash: String,
    pub status: String,
    pub checkpoint: Json,
    pub ledger: Ledger,
    pub result: Option<Json>,
    pub attempts: Vec<AttemptRecord>,
}

/// What a `RecoveryRecord` holds.
#[verifier::ext_equal]
pub ghost struct RecoveryRecordModel {
    pub task: TaskSpecModel,
    pub submission: Option<SubmissionSpecModel>,
    pub plan: JsonModel,
    pub config_hash: Seq<char>,
    pub status: Seq<char>,
    pub checkpoint: JsonModel,
    pub ledger: LedgerModel,
    pub result: Option<JsonModel>,
    pub attempts: Seq<AttemptRecordModel>,
}

impl DeepView for RecoveryRecord {
    type V = RecoveryRecordModel;

    open spec fn deep_view(&self) -> RecoveryRecordModel {
        RecoveryRecordModel {
            task: self.task.deep_view(),
            submission: self.submission.deep_view(),
            plan: self.plan.deep_view(),
            config_hash: self.config_hash.deep_view(),
            status: self.status.deep_view(),
            checkpoint: self.checkpoint.deep_view(),
            ledger: self.ledger.deep_view(),
            result: self.result.deep_view(),
            attempts: self.attempts.deep_view(),
        }
    }
}

impl Duplicate for RecoveryRecord {
    fn duplicate(&self) -> (r: Self) {
        RecoveryRecord {
            task: self.task.duplicate(),
            submission: self.submission.duplicate(),
            plan: self.plan.duplicate(),
            config_hash: self.config_hash.duplicate(),
            status: self.status.duplicate(),
            checkpoint: self.checkpoint.duplicate(),
            ledger: self.ledger.duplicate(),
            result: self.result.duplicate(),
            attempts: self.attempts.duplicate(),
        }
    }
}

impl Clone for RecoveryRecord {
    fn clone(&self) -> (r: Self)
        ensures
            r.deep_view() == self.deep_view(),
    {
        self.duplicate()
    }
}

impl LedgerModel {
    /// What is neither spent nor set aside.
    pub open spec fn free(self) -> int {
        minus_floored(minus_floored(self.total as int, self.settled as int), self.reserved as int)
    }

    /// The fault of setting an amount aside for one more call.
    pub open spec fn reserve_fault(
        self,
        status: Seq<char>,
        amount: u64,
        max_calls: u32,
    ) -> Option<EngineErrorModel> {
        if status != "running"@ {
            Some(failure("cancelled"@, "task is not running"@))
        } else if amount > self.free() || self.calls >= max_calls {
            Some(failure("budget"@, "insufficient budget or total call limit reached"@))
        } else {
            None
        }
    }

    /// The ledger with an amount set aside for one more call.
    pub open spec fn with_reservation(self, amount: u64) -> LedgerModel {
        LedgerModel {
            reserved: (self.reserved + amount) as u64,
            calls: (self.calls + 1) as u32,
            ..self
        }
    }
}

impl Ledger {
    /// What is neither spent nor set aside.
    pub fn available(&self) -> (r: u64)
        ensures
            r == self.deep_view().free(),
    {
        self.total.saturating_sub(self.settled).saturating_sub(self.reserved)
    }

    /// The ledger after an amount is set aside for a call of a task in the given status.
    pub fn reserve(&self, status: &str, amount: u64, max_calls: u32) -> (r: Result<
        Ledger,
        EngineError,
    >)
        ensures
            answers(r, self.deep_view().reserve_fault(status@, amount, max_calls)),
            r is Ok ==> {
                &&& r->Ok_0.deep_view() == self.deep_view().with_reservation(amount)
                &&& r->Ok_0.reserved == self.reserved + amount
                &&& r->Ok_0.calls == self.calls + 1
            },
    {
        if !same_text(status, "running") {
            return Err(EngineError::new("cancelled", "task is not running"));
        }
        if amount > self.available() || self.calls >= max_calls {
            return Err(
                EngineError::new("budget", "insufficient budget or total call limit reached"),
            );
        }
        Ok(
            Ledger {
                total: self.total,
                settled: self.settled,
                reserved: self.reserved + amount,
                calls: self.calls + 1,
            },
        )
    }
}

/// A reservation never sets aside more than the budget leaves: whatever is set aside beyond the
/// budget was so before.
pub proof fn lemma_reservation_within_budget(
    ledger: LedgerModel,
    status: Seq<char>,
    amount: u64,
    max_calls: u32,
)
    requires
        ledger.reserve_fault(status, amount, max_calls) is None,
    ensures
        ({
            let after = ledger.with_reservation(amount);
            &&& after.settled + after.reserved <= after.total || amount == 0
            &&& after.reserved == ledger.reserved + amount
            &&& after.calls == ledger.calls + 1
            &&& after.calls <= max_calls
            &&& after.free() == ledger.free() - amount
        }),
{
}

/// An entry of the audit trail.
pub open spec fn audit_model(kind: Seq<char>, now: u64, data: JsonModel) -> JsonModel {
    empty_object().with("kind"@, JsonModel::Text(kind)).with(
        "timestamp_ms"@,
        count_model(now),
    ).with("data"@, data)
}

/// An entry of the audit trail.
pub fn audit(kind: &str, now: u64, data: Json) -> (r: Json)
    ensures
        r@ == audit_model(kind@, now, data@),
{
    ObjectBuilder::new().with("kind", text_value(kind)).with(
        "timestamp_ms",
        count_value(now),
    ).with("data", data).build()
}

/// What the audit trail says of a reservation.
pub fn reservation_entry(attempt: &str, amount: u64, metadata: Json) -> (r: Json)
    ensures
        r@ == empty_object().with("attempt_id"@, JsonModel::Text(attempt@)).with(
            "amount"@,
            count_model(amount),
        ).with("metadata"@, metadata@),
{
    ObjectBuilder::new().with("attempt_id", text_value(attempt)).with(
        "amount",
        count_value(amount),
    ).with("metadata", metadata).build()
}

/// What the audit trail says of a task that ended.
pub fn finish_entry(status: &str, result: Json) -> (r: Json)
    ensures
        r@ == empty_object().with("status"@, JsonModel::Text(status@)).with("result"@, result@),
{
    ObjectBuilder::new().with("status", text_value(status)).with("result", result).build()
}

/// An amount is set aside exactly for a running task that has calls left, where it fits into the
/// budget beside what is spent and set aside. Nothing else of the ledger changes.
pub proof fn lemma_reservation_is_owed(
    ledger: LedgerModel,
    status: Seq<char>,
    amount: u64,
    max_calls: u32,
)
    ensures
        ({
            let fault = ledger.reserve_fault(status, amount, max_calls);
            let fits = ledger.settled + ledger.reserved + amount <= ledger.total || amount == 0;
            let after = ledger.with_reservation(amount);
            &&& fault is None <==> status == "running"@ && fits && ledger.calls < max_calls
            &&& status != "running"@ ==> fault is Some && fault->0.kind == "cancelled"@
            &&& status == "running"@ && !(fits && ledger.calls < max_calls) ==> fault is Some
                && fault->0.kind == "budget"@
            &&& fault is None ==> {
                &&& after.total == ledger.total && after.settled == ledger.settled
                &&& after.reserved == ledger.reserved + amount
                &&& after.calls == ledger.calls + 1
            }
        }),
{
}

/// What is free of a budget is what is neither spent nor set aside, and nothing where more than the
/// budget is.
pub proof fn lemma_free_budget(ledger: LedgerModel)
    ensures
        ledger.settled + ledger.reserved <= ledger.total ==> ledger.free() == ledger.total
            - ledger.settled - ledger.reserved,
        ledger.settled + ledger.reserved > ledger.total ==> ledger.free() == 0,
{
}

/// An entry of the audit trail tells what happened, when, and what is said of it.
pub proof fn lemma_audit_entry(kind: Seq<char>, now: u64, data: JsonModel)
    ensures
        audit_model(kind, now, data).at("kind"@) == JsonModel::Text(kind),
        audit_model(kind, now, data).at("timestamp_ms"@) == JsonModel::Number(
            NumberModel::PosInt(now),
        ),
        audit_model(kind, now, data).at("data"@) == data,
{
    lemma_audit_names();
}

proof fn lemma_audit_names()
    ensures
        "kind"@ != "timestamp_ms"@,
        "kind"@ != "data"@,
        "timestamp_ms"@ != "data"@,
{
    reveal_strlit("kind");
    reveal_strlit("timestamp_ms");
    reveal_strlit("data");
    assert("kind"@.len() == 4);
    assert("timestamp_ms"@.len() == 12);
    assert("data"@.len() == 4);
    assert("kind"@[0] != "data"@[0]);
}

} // verus!
