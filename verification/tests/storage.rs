use model_collaboration_engine::binary64::number;
use model_collaboration_engine::contracts::{Artifact, Evaluation, EvaluationRecord, EvaluationStatus, TaskType};
use model_collaboration_engine::contracts::{CriticVerdict, Feedback, FeedbackKind};
use model_collaboration_engine::json::{parse, text_value, Json};
use model_collaboration_engine::store::feedback::{
    checksum_of, decide_feedback, is_terminal, profile_key, read_task_type, validate_evaluation,
    SavedArtifact, SavedEvidence,
};
use model_collaboration_engine::store::metrics::{calls, tasks, CallGroup, CallRow, StatusCount};
use model_collaboration_engine::store::planning::{
    check_name, check_saved, phase_checkpoint, submission_payload,
};
use model_collaboration_engine::store::recovery::{
    is_open_state, is_recoverable, kind_of_payload, saved_cost, saved_json, saved_optional_cost,
    PayloadKind,
};
use model_collaboration_engine::store::schema::{
    check_path, lock_name, open, Opening, APPLICATION_ID, SCHEMA_VERSION,
};
use model_collaboration_engine::store::settlement::{
    settlement_entry, AttemptLine, SettlementEvidence, LEDGER_MAX,
};
use model_collaboration_engine::store::{audit, finish_entry, reservation_entry, Ledger};

fn ledger(total: u64, settled: u64, reserved: u64, calls: u32) -> Ledger {
    Ledger {
        total,
        settled,
        reserved,
        calls,
    }
}

fn json(text: &str) -> Json {
    parse(text).unwrap()
}

#[test]
fn a_ledger_sets_aside_what_is_free() {
    let l = ledger(100, 30, 20, 1);
    assert_eq!(l.available(), 50);
    let after = l.reserve("running", 50, 2).unwrap();
    assert_eq!((after.total, after.settled, after.reserved, after.calls), (100, 30, 70, 2));
    assert_eq!(after.available(), 0);
    assert_eq!(l.reserve("running", 51, 2).unwrap_err().kind, "budget");
    assert_eq!(l.reserve("running", 1, 1).unwrap_err().kind, "budget");
    assert_eq!(l.reserve("cancelled", 1, 2).unwrap_err().kind, "cancelled");
    assert_eq!(ledger(10, 30, 0, 0).available(), 0);
    assert!(ledger(0, 0, 0, 0).reserve("running", 0, 1).is_ok());
}

fn pending(amount: u64) -> AttemptLine {
    AttemptLine {
        amount,
        cost: None,
        state: "pending".into(),
    }
}

fn outcome() -> SettlementEvidence {
    SettlementEvidence::Invocation(json(r#"{"complete":true}"#))
}

#[test]
fn a_known_cost_replaces_the_reservation_and_an_unknown_one_keeps_it() {
    let l = ledger(100, 5, 20, 1);
    let settled = pending(20).settle(&l, Some(7), outcome()).unwrap().unwrap();
    assert_eq!((settled.ledger.settled, settled.ledger.reserved), (12, 0));
    assert_eq!(settled.line.cost, Some(7));
    assert_eq!(settled.line.state, "settled");
    let unknown = pending(20).settle(&l, None, outcome()).unwrap().unwrap();
    assert_eq!((unknown.ledger.settled, unknown.ledger.reserved), (5, 20));
    assert_eq!(unknown.line.state, "unresolved");
    assert_eq!(unknown.outcome.to_text(), r#"{"complete":true}"#);
    let later = unknown.line.settle(&unknown.ledger, Some(20), outcome()).unwrap().unwrap();
    assert_eq!((later.ledger.settled, later.ledger.reserved), (25, 0));
}

#[test]
fn a_settled_call_is_final() {
    let l = ledger(100, 5, 20, 1);
    let settled = pending(20).settle(&l, Some(7), outcome()).unwrap().unwrap();
    assert!(settled.line.settle(&settled.ledger, Some(7), outcome()).unwrap().is_none());
    let conflict = settled.line.settle(&settled.ledger, Some(8), outcome()).unwrap_err();
    assert_eq!(conflict.message, "conflicting settlement");
    let conflict = settled.line.settle(&settled.ledger, None, outcome()).unwrap_err();
    assert_eq!(conflict.kind, "storage");
}

#[test]
fn costs_beyond_the_ledger_are_refused() {
    let l = ledger(100, 5, 20, 1);
    let error = pending(20).settle(&l, Some(LEDGER_MAX + 1), outcome()).unwrap_err();
    assert_eq!(error.message, "reported cost exceeds ledger range");
    let error = pending(20).settle(&l, Some(LEDGER_MAX), outcome()).unwrap_err();
    assert_eq!(error.message, "ledger overflow");
    assert!(pending(20).settle(&l, Some(LEDGER_MAX - 5), outcome()).is_ok());
}

#[test]
fn saved_outcomes_must_be_objects_to_be_reconciled() {
    let l = ledger(100, 5, 20, 1);
    let reconciled = |saved: Option<&str>| {
        pending(20).settle(
            &l,
            Some(1),
            SettlementEvidence::Reconciliation {
                evidence: "invoice".into(),
                saved: saved.map(String::from),
            },
        )
    };
    let text = |saved: Option<&str>| reconciled(saved).unwrap().unwrap().outcome.to_text();
    assert_eq!(text(None), r#"{"reconciliation_evidence":"invoice"}"#);
    assert_eq!(text(Some("null")), r#"{"reconciliation_evidence":"invoice"}"#);
    assert_eq!(
        text(Some(r#"{"a":1}"#)),
        r#"{"a":1,"reconciliation_evidence":"invoice"}"#
    );
    assert_eq!(
        reconciled(Some("[]")).unwrap_err().message,
        "saved call outcome must be an object"
    );
    assert_eq!(
        reconciled(Some("{")).unwrap_err().message,
        "invalid saved call outcome"
    );
}

#[test]
fn the_audit_trail_holds_what_happened() {
    assert_eq!(
        audit("kind", 5, text_value("data")).to_text(),
        r#"{"data":"data","kind":"kind","timestamp_ms":5}"#
    );
    assert_eq!(
        reservation_entry("a", 3, Json::Null).to_text(),
        r#"{"amount":3,"attempt_id":"a","metadata":null}"#
    );
    assert_eq!(
        settlement_entry("a", None, Json::Bool(true)).to_text(),
        r#"{"actual_cost":null,"attempt_id":"a","outcome":true}"#
    );
    assert_eq!(
        finish_entry("failed", Json::Null).to_text(),
        r#"{"result":null,"status":"failed"}"#
    );
    assert_eq!(
        phase_checkpoint("planned").to_text(),
        r#"{"phase":"planned","version":1}"#
    );
}

#[test]
fn schemas_are_used_made_or_refused() {
    assert_eq!(open(0, 0, 0).unwrap(), Opening::Initialize);
    assert_eq!(open(SCHEMA_VERSION, APPLICATION_ID, 9).unwrap(), Opening::Use);
    assert_eq!(open(0, 0, 1).unwrap_err().message, "file is not an engine database");
    let refused = open(1, APPLICATION_ID, 9).unwrap_err();
    assert_eq!(refused.kind, "schema");
    assert_eq!(
        refused.details.to_text(),
        r#"{"action":"backup_and_rebuild","current":1,"target":2}"#
    );
    assert!(check_path("engine.db").is_ok());
    assert_eq!(check_path("").unwrap_err().kind, "configuration");
    assert_eq!(check_path(":memory:").unwrap_err().kind, "configuration");
    assert_eq!(lock_name("abc"), "mce-abc.lock");
}

#[test]
fn names_and_plans_are_saved_once() {
    assert!(check_name(false).is_ok());
    assert_eq!(check_name(true).unwrap_err().message, "task_id already exists");
    assert!(check_saved(1).is_ok());
    assert_eq!(check_saved(0).unwrap_err().message, "plan requires a running task");
    assert_eq!(check_saved(2).unwrap_err().kind, "storage");
}

#[test]
fn saved_values_are_read_back_or_refused() {
    assert_eq!(saved_cost(5).unwrap(), 5);
    assert_eq!(saved_cost(-1).unwrap_err().message, "negative saved cost");
    assert_eq!(saved_optional_cost(None).unwrap(), None);
    assert_eq!(saved_optional_cost(Some(2)).unwrap(), Some(2));
    assert!(saved_optional_cost(Some(-2)).is_err());
    assert_eq!(saved_json("[1]").unwrap().to_text(), "[1]");
    assert_eq!(saved_json("[").unwrap_err().message, "invalid saved JSON evidence");
}

#[test]
fn tasks_that_need_attention_are_found() {
    let states = |items: &[&str]| items.iter().map(|s| (*s).to_owned()).collect::<Vec<String>>();
    assert!(is_recoverable("running", 0, &states(&[])));
    assert!(is_recoverable("human_required", 0, &states(&["settled"])));
    assert!(is_recoverable("completed", 1, &states(&[])));
    assert!(is_recoverable("cancelled", 0, &states(&["settled", "unresolved"])));
    assert!(!is_recoverable("completed", 0, &states(&["settled"])));
    assert!(is_open_state("pending"));
    assert!(!is_open_state("settled"));
    assert_eq!(
        kind_of_payload(&submission_payload(Json::Null)),
        PayloadKind::Submission
    );
    assert_eq!(kind_of_payload(&json(r#"{"task_id":"x"}"#)), PayloadKind::Task);
}

fn row(metadata: &str, outcome: &str, cost: Option<u64>, amount: u64) -> CallRow {
    CallRow {
        metadata: json(metadata),
        outcome: json(outcome),
        cost,
        amount,
        config_hash: "hash".into(),
    }
}

#[test]
fn every_call_counts_in_one_group() {
    let model = r#"{"route":{"model_id":"m","model_version":"1","node_id":"invoke"}}"#;
    let tool = r#"{"kind":"tool","name":"lookup"}"#;
    let rows = vec![
        row(model, r#"{"call_metrics":{"status":"succeeded","latency_ms":10}}"#, Some(5), 9),
        row(model, r#"{"call_metrics":{"status":"failed","latency_ms":20}}"#, None, 9),
        row(tool, r#"{"call_metrics":{"status":"timed_out"}}"#, None, 4),
        row(model, r#"{"call_metrics":{"status":"cancelled"}}"#, Some(1), 9),
        row(model, r#"{"call_metrics":{"status":"not_dispatched"}}"#, Some(0), 9),
        row("{}", "null", None, 1),
    ];
    let groups = calls(&rows).unwrap();
    let total: u64 = groups.iter().map(|g| g.statistics.attempts).sum();
    assert_eq!(total, 6);
    let of = |kind: &str| -> &CallGroup {
        groups.iter().find(|g| g.statistics.attempt_kind == kind).unwrap()
    };
    let m = of("model");
    assert_eq!(m.statistics.attempts, 4);
    assert_eq!(
        (m.statistics.succeeded, m.statistics.failed, m.statistics.cancelled),
        (1, 1, 1)
    );
    assert_eq!(m.statistics.not_dispatched, 1);
    assert_eq!((m.statistics.known_cost, m.statistics.unresolved_reserved), (6, 9));
    assert_eq!(m.statistics.unknown_cost_attempts, 1);
    assert_eq!((m.latency_total, m.statistics.latency_samples), (30, 2));
    assert_eq!(of("tool").statistics.timed_out, 1);
    assert_eq!(of("unknown").statistics.unknown_status, 1);
    let mean = number(15.0f64.to_bits());
    let summed = groups
        .into_iter()
        .find(|g| g.statistics.attempt_kind == "model")
        .unwrap()
        .summarize(mean);
    assert_eq!(summed.mean_latency_ms.unwrap().bits, mean.bits);
}

#[test]
fn tasks_are_tallied_by_status() {
    let rows = [("completed", 3), ("human_required", 2), ("failed", 1), ("cancelled", 4), ("running", 5)]
        .iter()
        .map(|(status, count)| StatusCount {
            status: (*status).into(),
            count: *count,
        })
        .collect::<Vec<_>>();
    let s = tasks(&rows);
    assert_eq!(s.total, 15);
    assert_eq!(
        (s.completed, s.human_required, s.failed, s.cancelled, s.running),
        (3, 2, 1, 4, 5)
    );
}

fn evaluation(defects: &[&str]) -> Evaluation {
    Evaluation {
        status: EvaluationStatus::Pass,
        checks: vec![],
        evidence: vec![],
        defects: defects.iter().map(|d| (*d).to_owned()).collect(),
        action: "accept".into(),
    }
}

fn record(text: &str) -> EvaluationRecord {
    EvaluationRecord {
        task_id: "task".into(),
        artifact: Artifact {
            artifact_id: "artifact".into(),
            version: 1,
            attempt_id: "worker".into(),
            text: text.into(),
            checksum: checksum_of(text),
        },
        deterministic: evaluation(&[]),
        critic: None,
    }
}

fn metadata(node: &str) -> String {
    format!(
        r#"{{"route":{{"node_id":"{node}","model_id":"m","model_version":"2","quality":{{"requested":{{"task_type":"writing","role":"{node}"}}}}}}}}"#
    )
}

#[test]
fn a_saved_evaluation_is_immutable_but_for_its_critic() {
    let worker = metadata("invoke");
    let critic = metadata("critic");
    let check = |new: &EvaluationRecord, old: Option<&EvaluationRecord>, status: &str| {
        validate_evaluation(
            new,
            &SavedEvidence {
                status,
                artifact_call: Some(&worker),
                critic_call: Some(&critic),
                record: old.map(Some),
            },
        )
    };
    let first = record("text");
    assert!(check(&first, None, "running").is_ok());
    assert!(check(&first, Some(&first), "running").is_ok());
    assert_eq!(check(&first, None, "completed").unwrap_err().kind, "evaluation");
    let mut judged = record("text");
    judged.critic = Some(CriticVerdict {
        attempt_id: "critic".into(),
        evaluation: evaluation(&["wrong"]),
    });
    assert!(check(&judged, Some(&first), "running").is_ok());
    assert_eq!(
        check(&first, Some(&judged), "running").unwrap_err().message,
        "conflicting evaluation evidence"
    );
    assert!(check(&record("other"), Some(&first), "running").is_err());
    let mut broken = record("text");
    broken.artifact.checksum = checksum_of("else");
    assert_eq!(
        check(&broken, None, "running").unwrap_err().message,
        "artifact checksum mismatch"
    );
}

#[test]
fn a_profile_is_named_by_the_saved_route() {
    let key = profile_key(Some(&metadata("generator")), false, "v1").unwrap();
    assert_eq!(key.model_id, "m");
    assert_eq!(key.model_version, "2");
    assert_eq!(key.task_type, TaskType::Writing);
    assert_eq!(key.role, "generator");
    assert_eq!(key.evaluator_version, "v1");
    let error = profile_key(Some(&metadata("critic")), false, "v1").unwrap_err();
    assert_eq!(error.message, "attempt role does not match feedback target");
    assert!(profile_key(Some(&metadata("critic")), true, "v1").is_ok());
    assert_eq!(profile_key(None, false, "").unwrap_err().message, "unknown attempt");
    assert_eq!(profile_key(Some("{"), false, "").unwrap_err().kind, "storage");
    let bare = r#"{"route":{"node_id":"invoke"}}"#;
    assert_eq!(
        profile_key(Some(bare), false, "").unwrap_err().message,
        "attempt lacks versioned routing evidence"
    );
    assert_eq!(read_task_type("code_review"), Some(TaskType::CodeReview));
    assert_eq!(read_task_type("cooking"), None);
    assert!(is_terminal("failed"));
    assert!(!is_terminal("running"));
}

#[test]
fn feedback_is_saved_once_and_taken_again_unchanged() {
    let saved = record("text");
    let plan = r#"{"effective_plan":{"acceptance":{"version":"v1"}}}"#;
    let ended = SavedArtifact {
        status: "completed",
        plan,
        record: Some(&saved),
    };
    let feedback = Feedback {
        feedback_id: "feedback".into(),
        task_id: "task".into(),
        artifact_id: "artifact".into(),
        kind: FeedbackKind::BusinessAcceptance,
        evaluator_version: "v1".into(),
        accepted: true,
        reason: "reason".into(),
    };
    let call = metadata("invoke");
    let decide = |earlier, artifact, call, duplicate| {
        decide_feedback(&feedback, "payload", earlier, artifact, call, duplicate)
    };
    let key = decide(None, Some(&ended), Some(call.as_str()), false).unwrap().unwrap();
    assert_eq!((key.model_id.as_str(), key.evaluator_version.as_str()), ("m", "v1"));
    assert!(decide(Some("payload"), None, None, true).unwrap().is_none());
    assert_eq!(
        decide(Some("other"), Some(&ended), Some(call.as_str()), false).unwrap_err().message,
        "feedback ID conflicts with saved evidence"
    );
    assert_eq!(
        decide(None, Some(&ended), Some(call.as_str()), true).unwrap_err().message,
        "artifact already has feedback of this kind"
    );
    assert_eq!(
        decide(None, None, None, false).unwrap_err().message,
        "unknown artifact or wrong task"
    );
    assert_eq!(decide(None, Some(&ended), None, true).unwrap_err().message, "unknown attempt");
    let running = SavedArtifact {
        status: "running",
        plan,
        record: Some(&saved),
    };
    assert_eq!(
        decide(None, Some(&running), Some(call.as_str()), false).unwrap_err().message,
        "feedback requires a terminal task"
    );
}

#[test]
fn an_account_keeps_its_balance_and_its_budget() {
    let mut account = ledger(100, 0, 0, 0);
    let mut lines = vec![];
    for (amount, cost) in [(40, Some(25)), (50, None), (25, Some(25))] {
        account = account.reserve("running", amount, 4).unwrap();
        let done = pending(amount).settle(&account, cost, outcome()).unwrap().unwrap();
        account = done.ledger;
        lines.push(done.line);
        let paid: u64 = lines.iter().filter_map(|line| line.cost).sum();
        let open: u64 = lines.iter().filter(|line| line.cost.is_none()).map(|l| l.amount).sum();
        assert_eq!((account.settled, account.reserved), (paid, open));
        assert!(account.settled + account.reserved <= account.total);
    }
    assert_eq!(account.calls, 3);
    assert_eq!(account.reserve("running", 1, 4).unwrap_err().kind, "budget");
    assert_eq!(account.reserve("running", 0, 3).unwrap_err().kind, "budget");
}
