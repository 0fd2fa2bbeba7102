//! Settlement and reconciliation preserve call evidence in the same ledger transaction.
use super::{Ledger, LedgerModel};
use crate::fault::{answers, failure, EngineError, EngineErrorModel};
use crate::json::{
    count_or_null, count_or_null_value, empty_object, extend_object, parse, parsed_json, text_value,
    Json, JsonModel, ObjectBuilder,
};
use crate::model::Duplicate;
use crate::text::{blank, is_blank, same_text};
use vstd::prelude::*;

verus! {

/// The greatest amount that the ledger holds.
pub const LEDGER_MAX: u64 = 0x7fff_ffff_ffff_ffff;

/// What a call is settled by: its outcome, or evidence found later, with the text of the outcome
/// that was saved.
pub enum SettlementEvidence {
    Invocation(Json),
    Reconciliation { evidence: String, saved: Option<String> },
}

/// What a call is settled by.
#[verifier::ext_equal]
pub ghost enum SettlementEvidenceModel {
    Invocation(JsonModel),
    Reconciliation { evidence: Seq<char>, saved: Option<Seq<char>> },
}

impl DeepView for SettlementEvidence {
    type V = SettlementEvidenceModel;

    open spec fn deep_view(&self) -> SettlementEvidenceModel {
        match self {
            SettlementEvidence::Invocation(outcome) => SettlementEvidenceModel::Invocation(
                outcome@,
            ),
            SettlementEvidence::Reconciliation { evidence, saved } => {
                SettlementEvidenceModel::Reconciliation {
                    evidence: evidence@,
                    saved: saved.deep_view(),
                }
            },
        }
    }
}

/// The saved outcome with the evidence added. A call without an outcome gets one that holds
/// nothing else; nothing is said where the saved text is no JSON (the inner value) or no object.
pub open spec fn reconciled(
    saved: Option<Option<JsonModel>>,
    evidence: Seq<char>,
) -> Result<JsonModel, EngineErrorModel> {
    match saved {
        Some(None) => Err(failure("storage"@, "invalid saved call outcome"@)),
        Some(Some(JsonModel::Object(m))) => Ok(
            JsonModel::Object(m).with("reconciliation_evidence"@, JsonModel::Text(evidence)),
        ),
        None => Ok(
            empty_object().with("reconciliation_evidence"@, JsonModel::Text(evidence)),
        ),
        Some(Some(JsonModel::Null)) => Ok(
            empty_object().with("reconciliation_evidence"@, JsonModel::Text(evidence)),
        ),
        Some(Some(_)) => Err(failure("storage"@, "saved call outcome must be an object"@)),
    }
}

impl SettlementEvidenceModel {
    /// The outcome to save.
    pub open spec fn outcome(self) -> Result<JsonModel, EngineErrorModel> {
        match self {
            SettlementEvidenceModel::Invocation(outcome) => Ok(outcome),
            SettlementEvidenceModel::Reconciliation { evidence, saved } => reconciled(
                match saved {
                    Some(text) => Some(parsed_json(text)),
                    None => None,
                },
                evidence,
            ),
        }
    }
}

/// An exec result has the value or the error of a spec result.
pub open spec fn agrees(r: Result<Json, EngineError>, want: Result<JsonModel, EngineErrorModel>) -> bool {
    match (r, want) {
        (Ok(j), Ok(m)) => j@ == m,
        (Err(e), Err(m)) => e.deep_view() == m,
        _ => false,
    }
}

/// Adds evidence to a saved outcome. The inner value is absent where the saved text is no JSON.
pub fn reconcile_outcome(saved: Option<Option<Json>>, evidence: &str) -> (r: Result<
    Json,
    EngineError,
>)
    ensures
        agrees(
            r,
            reconciled(
                match saved {
                    Some(Some(j)) => Some(Some(j@)),
                    Some(None) => Some(None),
                    None => None,
                },
                evidence@,
            ),
        ),
{
    match saved {
        Some(None) => Err(EngineError::new("storage", "invalid saved call outcome")),
        Some(Some(Json::Object(members))) => {
            let members: Vec<(String, Json)> = extend_object(
                members,
                "reconciliation_evidence",
                text_value(evidence),
            );
            Ok(Json::Object(members))
        },
        None => Ok(
            ObjectBuilder::new().with("reconciliation_evidence", text_value(evidence)).build(),
        ),
        Some(Some(Json::Null)) => Ok(
            ObjectBuilder::new().with("reconciliation_evidence", text_value(evidence)).build(),
        ),
        Some(Some(_)) => Err(EngineError::new("storage", "saved call outcome must be an object")),
    }
}

impl SettlementEvidence {
    /// The outcome to save.
    pub fn resolve(self) -> (r: Result<Json, EngineError>)
        ensures
            agrees(r, self.deep_view().outcome()),
    {
        match self {
            SettlementEvidence::Invocation(outcome) => Ok(outcome),
            SettlementEvidence::Reconciliation { evidence, saved } => {
                let read: Option<Option<Json>> = match saved {
                    Some(text) => Some(parse(text.as_str())),
                    None => None,
                };
                reconcile_outcome(read, evidence.as_str())
            },
        }
    }
}

/// What the store knows of a call's money.
#[derive(Debug)]
pub struct AttemptLine {
    pub amount: u64,
    pub cost: Option<u64>,
    pub state: String,
}

/// What a `AttemptLine` holds.
#[verifier::ext_equal]
pub ghost struct AttemptLineModel {
    pub amount: u64,
    pub cost: Option<u64>,
    pub state: Seq<char>,
}

impl DeepView for AttemptLine {
    type V = AttemptLineModel;

    open spec fn deep_view(&self) -> AttemptLineModel {
        AttemptLineModel {
            amount: self.amount.deep_view(),
            cost: self.cost.deep_view(),
            state: self.state.deep_view(),
        }
    }
}

impl Duplicate for AttemptLine {
    fn duplicate(&self) -> (r: Self) {
        AttemptLine {
            amount: self.amount.duplicate(),
            cost: self.cost.duplicate(),
            state: self.state.duplicate(),
        }
    }
}

impl Clone for AttemptLine {
    fn clone(&self) -> (r: Self)
        ensures
            r.deep_view() == self.deep_view(),
    {
        self.duplicate()
    }
}

/// What a settlement writes: the ledger, and the call's cost, state and outcome.
#[derive(Debug)]
pub struct Settlement {
    pub ledger: Ledger,
    pub line: AttemptLine,
    pub outcome: Json,
}

/// What a `Settlement` holds.
#[verifier::ext_equal]
pub ghost struct SettlementModel {
    pub ledger: LedgerModel,
    pub line: AttemptLineModel,
    pub outcome: JsonModel,
}

impl DeepView for Settlement {
    type V = SettlementModel;

    open spec fn deep_view(&self) -> SettlementModel {
        SettlementModel {
            ledger: self.ledger.deep_view(),
            line: self.line.deep_view(),
            outcome: self.outcome.deep_view(),
        }
    }
}

impl Duplicate for Settlement {
    fn duplicate(&self) -> (r: Self) {
        Settlement {
            ledger: self.ledger.duplicate(),
            line: self.line.duplicate(),
            outcome: self.outcome.duplicate(),
        }
    }
}

impl Clone for Settlement {
    fn clone(&self) -> (r: Self)
        ensures
            r.deep_view() == self.deep_view(),
    {
        self.duplicate()
    }
}

impl AttemptLineModel {
    pub open spec fn is_settled(self) -> bool {
        self.state == "settled"@
    }

    /// What a settlement with a known or unknown cost writes. Nothing is written where the call
    /// is settled at that cost already. An unknown cost keeps the reservation.
    pub open spec fn settled_with(
        self,
        ledger: LedgerModel,
        cost: Option<u64>,
        outcome: Result<JsonModel, EngineErrorModel>,
    ) -> Result<Option<SettlementModel>, EngineErrorModel> {
        if self.is_settled() {
            if self.cost == cost {
                Ok(None)
            } else {
                Err(failure("storage"@, "conflicting settlement"@))
            }
        } else {
            match outcome {
                Err(e) => Err(e),
                Ok(outcome) => match cost {
                    Some(c) => if c > LEDGER_MAX {
                        Err(failure("budget"@, "reported cost exceeds ledger range"@))
                    } else if ledger.settled + c > LEDGER_MAX {
                        Err(failure("budget"@, "ledger overflow"@))
                    } else {
                        Ok(
                            Some(
                                SettlementModel {
                                    ledger: LedgerModel {
                                        settled: (ledger.settled + c) as u64,
                                        reserved: (ledger.reserved - self.amount) as u64,
                                        ..ledger
                                    },
                                    line: AttemptLineModel {
                                        cost: Some(c),
                                        state: "settled"@,
                                        ..self
                                    },
                                    outcome,
                                },
                            ),
                        )
                    },
                    None => Ok(
                        Some(
                            SettlementModel {
                                ledger,
                                line: AttemptLineModel { state: "unresolved"@, ..self },
                                outcome,
                            },
                        ),
                    ),
                },
            }
        }
    }
}

impl AttemptLine {
    /// What a settlement writes; nothing where the call is settled at that cost already.
    pub fn settle(&self, ledger: &Ledger, cost: Option<u64>, evidence: SettlementEvidence) -> (r:
        Result<Option<Settlement>, EngineError>)
        requires
            self.state@ != "settled"@ && cost is Some ==> self.amount <= ledger.reserved,
        ensures
            match (
                r,
                self.deep_view().settled_with(
                    ledger.deep_view(),
                    cost,
                    evidence.deep_view().outcome(),
                ),
            ) {
                (Ok(s), Ok(m)) => s.deep_view() == m,
                (Err(e), Err(m)) => e.deep_view() == m,
                _ => false,
            },
    {
        if same_text(self.state.as_str(), "settled") {
            let same: bool = match (self.cost, cost) {
                (Some(a), Some(b)) => a == b,
                (None, None) => true,
                _ => false,
            };
            if same {
                return Ok(None);
            }
            return Err(EngineError::new("storage", "conflicting settlement"));
        }
        let outcome: Json = match evidence.resolve() {
            Ok(outcome) => outcome,
            Err(e) => {
                return Err(e);
            },
        };
        match cost {
            Some(c) => {
                if c > LEDGER_MAX {
                    return Err(EngineError::new("budget", "reported cost exceeds ledger range"));
                }
                if ledger.settled > LEDGER_MAX || c > LEDGER_MAX - ledger.settled {
                    return Err(EngineError::new("budget", "ledger overflow"));
                }
                Ok(
                    Some(
                        Settlement {
                            ledger: Ledger {
                                total: ledger.total,
                                settled: ledger.settled + c,
                                reserved: ledger.reserved - self.amount,
                                calls: ledger.calls,
                            },
                            line: AttemptLine {
                                amount: self.amount,
                                cost: Some(c),
                                state: "settled".to_owned(),
                            },
                            outcome,
                        },
                    ),
                )
            },
            None => Ok(
                Some(
                    Settlement {
                        ledger: ledger.duplicate(),
                        line: AttemptLine {
                            amount: self.amount,
                            cost: self.cost,
                            state: "unresolved".to_owned(),
                        },
                        outcome,
                    },
                ),
            ),
        }
    }
}

/// What is reported after a settlement was saved: a cost above the reservation.
pub open spec fn overrun_fault(amount: u64, cost: Option<u64>) -> Option<EngineErrorModel> {
    if cost is Some && cost->0 > amount {
        Some(
            failure(
                "budget"@,
                "provider usage exceeded declared reservation; actual cost recorded"@,
            ),
        )
    } else {
        None
    }
}

/// Reports a cost above the reservation, after it was saved.
pub fn check_overrun(amount: u64, cost: Option<u64>) -> (r: Result<(), EngineError>)
    ensures
        answers(r, overrun_fault(amount, cost)),
{
    if let Some(c) = cost {
        if c > amount {
            return Err(
                EngineError::new(
                    "budget",
                    "provider usage exceeded declared reservation; actual cost recorded",
                ),
            );
        }
    }
    Ok(())
}

/// The fault of reconciling without evidence.
pub open spec fn reconcile_fault(evidence: Seq<char>) -> Option<EngineErrorModel> {
    if blank(evidence) {
        Some(failure("recovery"@, "reconciliation evidence required"@))
    } else {
        None
    }
}

/// Checks that there is evidence to reconcile by.
pub fn check_evidence(evidence: &str) -> (r: Result<(), EngineError>)
    ensures
        answers(r, reconcile_fault(evidence@)),
{
    if is_blank(evidence) {
        return Err(EngineError::new("recovery", "reconciliation evidence required"));
    }
    Ok(())
}

/// What the audit trail says of a settlement.
pub fn settlement_entry(attempt: &str, cost: Option<u64>, outcome: Json) -> (r: Json)
    ensures
        r@ == empty_object().with("attempt_id"@, JsonModel::Text(attempt@)).with(
            "actual_cost"@,
            count_or_null(cost),
        ).with("outcome"@, outcome@),
{
    ObjectBuilder::new().with("attempt_id", text_value(attempt)).with(
        "actual_cost",
        count_or_null_value(cost),
    ).with("outcome", outcome).build()
}

/// A task's money: its ledger and its calls.
#[verifier::ext_equal]
pub ghost struct Account {
    pub ledger: LedgerModel,
    pub lines: Seq<AttemptLineModel>,
}

/// What the first `n` calls have set aside: the amounts of those that are not settled.
pub open spec fn open_amounts(lines: Seq<AttemptLineModel>, n: nat) -> int
    decreases n,
{
    if n == 0 {
        0
    } else {
        open_amounts(lines, (n - 1) as nat) + (if lines[n - 1].is_settled() {
            0
        } else {
            lines[n - 1].amount as int
        })
    }
}

/// What the first `n` calls have cost: the costs of those that are settled.
pub open spec fn settled_costs(lines: Seq<AttemptLineModel>, n: nat) -> int
    decreases n,
{
    if n == 0 {
        0
    } else {
        settled_costs(lines, (n - 1) as nat) + (if lines[n - 1].is_settled()
            && lines[n - 1].cost is Some {
            lines[n - 1].cost->0 as int
        } else {
            0
        })
    }
}

impl Account {
    /// The ledger is the sum of the calls: what is set aside, what was spent, how many.
    pub open spec fn balanced(self) -> bool {
        &&& self.ledger.reserved == open_amounts(self.lines, self.lines.len())
        &&& self.ledger.settled == settled_costs(self.lines, self.lines.len())
        &&& self.ledger.calls == self.lines.len()
        &&& forall|i: int|
            0 <= i < self.lines.len() && (#[trigger] self.lines[i]).is_settled()
                ==> self.lines[i].cost is Some
    }

    /// The account after a reservation.
    pub open spec fn reserved(self, amount: u64) -> Account {
        Account {
            ledger: self.ledger.with_reservation(amount),
            lines: self.lines.push(
                AttemptLineModel { amount, cost: None, state: "pending"@ },
            ),
        }
    }

    /// The account after what a settlement of a call wrote.
    pub open spec fn settled(self, i: int, written: SettlementModel) -> Account {
        Account { ledger: written.ledger, lines: self.lines.update(i, written.line) }
    }
}

/// An account without calls.
pub open spec fn new_account(budget: u64) -> Account {
    Account {
        ledger: LedgerModel { total: budget, settled: 0, reserved: 0, calls: 0 },
        lines: Seq::empty(),
    }
}

/// A new account is balanced.
pub proof fn lemma_new_account_balanced(budget: u64)
    ensures
        new_account(budget).balanced(),
{
}

proof fn lemma_sums_push(lines: Seq<AttemptLineModel>, line: AttemptLineModel, n: nat)
    requires
        n <= lines.len(),
    ensures
        open_amounts(lines.push(line), n) == open_amounts(lines, n),
        settled_costs(lines.push(line), n) == settled_costs(lines, n),
    decreases n,
{
    if n > 0 {
        lemma_sums_push(lines, line, (n - 1) as nat);
        assert(lines.push(line)[n - 1] == lines[n - 1]);
    }
}

proof fn lemma_sums_update(
    lines: Seq<AttemptLineModel>,
    i: int,
    line: AttemptLineModel,
    n: nat,
)
    requires
        0 <= i < lines.len(),
        n <= lines.len(),
    ensures
        ({
            let before = lines[i];
            let amount = |l: AttemptLineModel|
                if l.is_settled() {
                    0int
                } else {
                    l.amount as int
                };
            let cost = |l: AttemptLineModel|
                if l.is_settled() && l.cost is Some {
                    l.cost->0 as int
                } else {
                    0int
                };
            &&& open_amounts(lines.update(i, line), n) == open_amounts(lines, n) + (if i < n {
                amount(line) - amount(before)
            } else {
                0
            })
            &&& settled_costs(lines.update(i, line), n) == settled_costs(lines, n) + (if i < n {
                cost(line) - cost(before)
            } else {
                0
            })
        }),
    decreases n,
{
    if n > 0 {
        lemma_sums_update(lines, i, line, (n - 1) as nat);
        if i != n - 1 {
            assert(lines.update(i, line)[n - 1] == lines[n - 1]);
        }
    }
}

/// A call that is not settled has its amount set aside: the reservation can be taken back.
pub proof fn lemma_open_amount_reserved(account: Account, i: int)
    requires
        account.balanced(),
        0 <= i < account.lines.len(),
        !account.lines[i].is_settled(),
    ensures
        account.lines[i].amount <= account.ledger.reserved,
{
    lemma_open_amount(account.lines, i, account.lines.len());
}

proof fn lemma_open_amount(lines: Seq<AttemptLineModel>, i: int, n: nat)
    requires
        0 <= i < n <= lines.len(),
        !lines[i].is_settled(),
    ensures
        lines[i].amount <= open_amounts(lines, n),
    decreases n,
{
    if i < n - 1 {
        lemma_open_amount(lines, i, (n - 1) as nat);
    } else {
        lemma_open_positive(lines, (n - 1) as nat);
    }
}

proof fn lemma_open_positive(lines: Seq<AttemptLineModel>, n: nat)
    ensures
        open_amounts(lines, n) >= 0,
    decreases n,
{
    if n > 0 {
        lemma_open_positive(lines, (n - 1) as nat);
    }
}

/// A reservation keeps the account balanced.
pub proof fn lemma_reservation_balanced(
    account: Account,
    status: Seq<char>,
    amount: u64,
    max_calls: u32,
)
    requires
        account.balanced(),
        account.ledger.reserve_fault(status, amount, max_calls) is None,
    ensures
        account.reserved(amount).balanced(),
{
    let after = account.reserved(amount);
    let line = AttemptLineModel { amount, cost: None, state: "pending"@ };
    lemma_sums_push(account.lines, line, account.lines.len());
    assert(after.lines[account.lines.len() as int] == line);
    reveal_strlit("pending");
    reveal_strlit("settled");
    assert("pending"@[0] != "settled"@[0]);
    assert forall|i: int|
        0 <= i < after.lines.len() && (#[trigger] after.lines[i]).is_settled() implies after.lines[i].cost
        is Some by {
        if i < account.lines.len() {
            assert(after.lines[i] == account.lines[i]);
        }
    }
}

/// A settlement keeps the account balanced: a known cost moves the call's amount from what is
/// set aside to what was spent, at its actual cost; an unknown cost changes no sum.
pub proof fn lemma_settlement_balanced(
    account: Account,
    i: int,
    cost: Option<u64>,
    outcome: Result<JsonModel, EngineErrorModel>,
)
    requires
        account.balanced(),
        0 <= i < account.lines.len(),
    ensures
        account.lines[i].settled_with(account.ledger, cost, outcome) matches Ok(Some(written)) ==> {
            &&& account.settled(i, written).balanced()
            &&& cost is None ==> account.settled(i, written).ledger == account.ledger
            &&& cost is Some ==> account.settled(i, written).ledger.settled
                == account.ledger.settled + cost->0
            &&& cost is Some ==> account.settled(i, written).ledger.reserved
                == account.ledger.reserved - account.lines[i].amount
        },
{
    match account.lines[i].settled_with(account.ledger, cost, outcome) {
        Ok(Some(written)) => {
            lemma_open_amount_reserved(account, i);
            lemma_sums_update(account.lines, i, written.line, account.lines.len());
            reveal_strlit("unresolved");
            reveal_strlit("settled");
            assert("unresolved"@[0] != "settled"@[0]);
            let after = account.settled(i, written);
            assert forall|k: int|
                0 <= k < after.lines.len() && (
                #[trigger] after.lines[k]).is_settled() implies after.lines[k].cost is Some by {
                if k != i {
                    assert(after.lines[k] == account.lines[k]);
                }
            }
        },
        _ => {},
    }
}

/// Settling is idempotent: once a call is settled at a cost, the same settlement writes nothing,
/// and any other is refused.
pub proof fn lemma_settlement_final(
    line: AttemptLineModel,
    ledger: LedgerModel,
    cost: u64,
    outcome: Result<JsonModel, EngineErrorModel>,
    later: Option<u64>,
    other: Result<JsonModel, EngineErrorModel>,
)
    ensures
        line.settled_with(ledger, Some(cost), outcome) matches Ok(Some(written)) ==> {
            &&& written.line.settled_with(written.ledger, Some(cost), other) == Ok::<
                Option<SettlementModel>,
                EngineErrorModel,
            >(None)
            &&& later != Some(cost) ==> written.line.settled_with(written.ledger, later, other)
                == Err::<Option<SettlementModel>, EngineErrorModel>(
                failure("storage"@, "conflicting settlement"@),
            )
        },
{
}

/// Reconciliation keeps everything that was saved of a call, and adds the evidence.
pub proof fn lemma_reconciliation_keeps_outcome(
    saved: Map<Seq<char>, JsonModel>,
    evidence: Seq<char>,
    key: Seq<char>,
)
    requires
        key != "reconciliation_evidence"@,
    ensures
        ({
            let after = reconciled(Some(Some(JsonModel::Object(saved))), evidence);
            &&& after is Ok
            &&& after->Ok_0.at(key) == JsonModel::Object(saved).at(key)
            &&& after->Ok_0.at("reconciliation_evidence"@) == JsonModel::Text(evidence)
        }),
{
}

/// What can happen to an account.
pub ghost enum AccountStep {
    /// An amount is asked for, for one more call of a task in a status.
    Reserve { status: Seq<char>, amount: u64 },
    /// The call at `i` is settled or reconciled.
    Settle { i: int, cost: Option<u64>, outcome: Result<JsonModel, EngineErrorModel> },
}

impl Account {
    /// The account after a step; a refused step changes nothing.
    pub open spec fn after(self, step: AccountStep, max_calls: u32) -> Account {
        match step {
            AccountStep::Reserve { status, amount } => if self.ledger.reserve_fault(
                status,
                amount,
                max_calls,
            ) is None {
                self.reserved(amount)
            } else {
                self
            },
            AccountStep::Settle { i, cost, outcome } => if 0 <= i < self.lines.len() {
                match self.lines[i].settled_with(self.ledger, cost, outcome) {
                    Ok(Some(written)) => self.settled(i, written),
                    _ => self,
                }
            } else {
                self
            },
        }
    }

    /// A step settles no call above the amount that was set aside for it.
    pub open spec fn within(self, step: AccountStep) -> bool {
        match step {
            AccountStep::Settle { i, cost: Some(cost), .. } => 0 <= i < self.lines.len() ==> cost
                <= self.lines[i].amount,
            _ => true,
        }
    }

    /// The account after the first `n` steps.
    pub open spec fn run(self, steps: Seq<AccountStep>, max_calls: u32, n: nat) -> Account
        decreases n,
    {
        if n == 0 {
            self
        } else {
            self.run(steps, max_calls, (n - 1) as nat).after(steps[n - 1], max_calls)
        }
    }
}

/// However calls are reserved and settled, a task's account stays the sum of its calls, and it
/// never has more calls than its limit.
pub proof fn lemma_account_kept(budget: u64, steps: Seq<AccountStep>, max_calls: u32, n: nat)
    ensures
        new_account(budget).run(steps, max_calls, n).balanced(),
        new_account(budget).run(steps, max_calls, n).ledger.total == budget,
        new_account(budget).run(steps, max_calls, n).ledger.calls <= max_calls,
    decreases n,
{
    lemma_new_account_balanced(budget);
    if n > 0 {
        lemma_account_kept(budget, steps, max_calls, (n - 1) as nat);
        let before = new_account(budget).run(steps, max_calls, (n - 1) as nat);
        match steps[n - 1] {
            AccountStep::Reserve { status, amount } => {
                if before.ledger.reserve_fault(status, amount, max_calls) is None {
                    lemma_reservation_balanced(before, status, amount, max_calls);
                }
            },
            AccountStep::Settle { i, cost, outcome } => {
                if 0 <= i < before.lines.len() {
                    lemma_settlement_balanced(before, i, cost, outcome);
                }
            },
        }
    }
}

/// A task stays within its budget: as long as no call costs more than was set aside for it, what
/// is spent and set aside never exceeds the budget.
pub proof fn lemma_budget_kept(budget: u64, steps: Seq<AccountStep>, max_calls: u32, n: nat)
    requires
        forall|k: nat|
            k < n ==> (#[trigger] new_account(budget).run(steps, max_calls, k)).within(
                steps[k as int],
            ),
    ensures
        ({
            let ledger = new_account(budget).run(steps, max_calls, n).ledger;
            ledger.settled + ledger.reserved <= budget
        }),
    decreases n,
{
    if n > 0 {
        let k = (n - 1) as nat;
        lemma_budget_kept(budget, steps, max_calls, k);
        lemma_account_kept(budget, steps, max_calls, k);
        let before = new_account(budget).run(steps, max_calls, k);
        assert(before.within(steps[n - 1]));
        match steps[n - 1] {
            AccountStep::Reserve { status, amount } => {},
            AccountStep::Settle { i, cost, outcome } => {
                if 0 <= i < before.lines.len() {
                    lemma_settlement_balanced(before, i, cost, outcome);
                    if before.lines[i].is_settled() {
                        assert(before.after(steps[n - 1], max_calls) == before);
                    }
                }
            },
        }
    }
}

/// What a settlement of an open call does to the ledger and to the call. A known cost is added to
/// what is spent and frees what was set aside for the call, whatever the cost; an unknown cost
/// leaves the ledger as it is and the call unresolved. A cost that the ledger cannot hold is
/// refused, and so is an outcome that cannot be saved.
pub proof fn lemma_settlement_writes(
    line: AttemptLineModel,
    ledger: LedgerModel,
    cost: Option<u64>,
    outcome: Result<JsonModel, EngineErrorModel>,
)
    requires
        line.amount <= ledger.reserved,
        line.state != "settled"@,
    ensures
        ({
            let r = line.settled_with(ledger, cost, outcome);
            &&& outcome is Err ==> r is Err && r->Err_0 == outcome->Err_0
            &&& outcome is Ok && cost is Some ==> {
                let spent = ledger.settled + cost->0;
                &&& spent > 9_223_372_036_854_775_807 ==> r is Err && r->Err_0.kind == "budget"@
                &&& spent <= 9_223_372_036_854_775_807 ==> {
                    let written = r->Ok_0->0;
                    &&& r is Ok && r->Ok_0 is Some
                    &&& written.ledger.total == ledger.total
                    &&& written.ledger.calls == ledger.calls
                    &&& written.ledger.settled == spent
                    &&& written.ledger.reserved == ledger.reserved - line.amount
                    &&& written.line.amount == line.amount
                    &&& written.line.cost == cost
                    &&& written.line.state == "settled"@
                    &&& written.outcome == outcome->Ok_0
                }
            }
            &&& outcome is Ok && cost is None ==> {
                let written = r->Ok_0->0;
                &&& r is Ok && r->Ok_0 is Some
                &&& written.ledger == ledger
                &&& written.line.amount == line.amount && written.line.cost == line.cost
                &&& written.line.state == "unresolved"@
                &&& written.outcome == outcome->Ok_0
            }
        }),
{
}

/// A call that is settled stays so: the same cost writes nothing, any other is refused.
pub proof fn lemma_settled_call_stays(
    line: AttemptLineModel,
    ledger: LedgerModel,
    cost: Option<u64>,
    outcome: Result<JsonModel, EngineErrorModel>,
)
    requires
        line.state == "settled"@,
    ensures
        line.cost == cost ==> line.settled_with(ledger, cost, outcome) is Ok && line.settled_with(
            ledger,
            cost,
            outcome,
        )->Ok_0 is None,
        line.cost != cost ==> line.settled_with(ledger, cost, outcome) is Err && line.settled_with(
            ledger,
            cost,
            outcome,
        )->Err_0.kind == "storage"@,
{
}

/// A cost above what was set aside is reported, and no other.
pub proof fn lemma_overrun_is_reported(amount: u64, cost: Option<u64>)
    ensures
        overrun_fault(amount, cost) is Some <==> cost is Some && cost->0 > amount,
        overrun_fault(amount, cost) is Some ==> overrun_fault(amount, cost)->0.kind == "budget"@,
{
}

/// A call settled by its invocation has the outcome that came of it. One that is reconciled has its
/// saved outcome with the evidence added; without a saved outcome it has the evidence alone; and a
/// saved outcome that is no JSON object is refused.
pub proof fn lemma_settlement_outcome(
    outcome: JsonModel,
    evidence: Seq<char>,
    saved: Option<Seq<char>>,
)
    ensures
        SettlementEvidenceModel::Invocation(outcome).outcome() is Ok,
        SettlementEvidenceModel::Invocation(outcome).outcome()->Ok_0 == outcome,
        ({
            let r = SettlementEvidenceModel::Reconciliation { evidence, saved }.outcome();
            let read = parsed_json(saved->0);
            let absent = saved is None || read == Some(JsonModel::Null);
            &&& r is Ok <==> absent || read is Some && read->0 is Object
            &&& r is Ok ==> r->Ok_0.at("reconciliation_evidence"@) == JsonModel::Text(evidence)
            &&& absent ==> forall|key: Seq<char>|
                key != "reconciliation_evidence"@ ==> !#[trigger] r->Ok_0.has(key)
            &&& saved is Some && read is Some && read->0 is Object ==> forall|key: Seq<char>|
                key != "reconciliation_evidence"@ ==> #[trigger] r->Ok_0.at(key) == read->0.at(key)
            &&& r is Err ==> r->Err_0.kind == "storage"@
        }),
{
}

/// Reconciling takes evidence: a text that is not blank.
pub proof fn lemma_reconciling_takes_evidence(evidence: Seq<char>)
    ensures
        reconcile_fault(evidence) is None <==> !blank(evidence),
        reconcile_fault(evidence) is Some ==> reconcile_fault(evidence)->0.kind == "recovery"@,
{
}

} // verus!
