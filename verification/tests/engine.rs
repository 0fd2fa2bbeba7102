#![allow(dead_code)]
#![allow(unused_imports)]
#![allow(clippy::too_many_arguments)]
use model_collaboration_engine::adapter::{InvokeRequest, ModelOutput};
use model_collaboration_engine::assessment::{
    AssessmentRule, ExecutionClass, RuleOperator, RuleSet, TaskFactValue, TaskFacts,
};
use model_collaboration_engine::binary64::{number, Binary64};
use model_collaboration_engine::contracts::encoding::Encode;
use model_collaboration_engine::contracts::{
    id, Acceptance, Config, Constraints, EffectivePlan, Endpoint, EngineError, Evaluation,
    EvaluationRecord, EvaluationStatus, Feedback, FeedbackKind, MetricsSnapshot, Model, ParentEntry,
    PlanChoice, PlannerProposal, PlanningConfig, PlanningMode, QualityProfile,
    QualityStatistics, RankingConfig,
    RankingEntry, RoleMapping, RoleProfile, RoutingProfiles, SelectionPolicy, Snapshot, Strategy,
    SubmissionSpec, TaskResult, TaskSpec, TaskType, ToolCall, ToolResult, ToolSpec, Usage, Weights,
    WeightsEntry,
};
use model_collaboration_engine::decision::{
    DecisionAssessment, DecisionConfig, DecisionPolicy, DecisionPolicyRule, DecisionQuestion,
    DecisionQuestionKind, DecisionSignal, DecisionValue,
};
use model_collaboration_engine::engine::execution::{
    critic_verdict, upgrade_stop_reason, UpgradeRequirement,
};
use model_collaboration_engine::engine::invocation::dispatch::{
    dispatch_refusal, dispatch_time, streams_to_host,
};
use model_collaboration_engine::engine::invocation::{call_metadata, quality_of, select};
use model_collaboration_engine::engine::node::{ModelCall, Node, NodeAction, NodeEvent};
use model_collaboration_engine::engine::planning::attempt::{
    planning_available, planning_excluded, planning_phase,
};
use model_collaboration_engine::engine::planning::{
    check_budget, check_time, may_fall_back, stage_deadline,
};
use model_collaboration_engine::engine::preparation::{
    Preparation, PreparationAction, PreparationEvent,
};
use model_collaboration_engine::engine::rounds::{Execution, ExecutionAction, ExecutionEvent};
use model_collaboration_engine::engine::run::{Run, RunAction, RunEvent};
use model_collaboration_engine::engine::shutdown::{Shutdown, ShutdownAction, ShutdownEvent};
use model_collaboration_engine::engine::tools::{check_batch, find_tool};
use model_collaboration_engine::engine::{
    check_assembly, check_executor, check_queue, cleanup_timeout, conclude, cutoff_ms,
    remaining_ms, task_event, task_started, Lifecycle, Queued, Reply,
};
use model_collaboration_engine::events::Event;
use model_collaboration_engine::json::{
    as_array, as_count, is_null, is_text, member, parse, text_value, Json, ObjectBuilder,
};
use model_collaboration_engine::planning::validation::validate_plan;
use model_collaboration_engine::router::profiles::{
    apply_profiles, resolve as resolve_quality, EvidenceNumbers, SnapshotEncodings,
};
use model_collaboration_engine::router::rankings::resolve as resolve_ranking;
use model_collaboration_engine::router::{
    route, route_profiled, FallbackTier, Health, RouteRequest, RoutingDecision, RoutingSnapshot,
    Valuation,
};
use model_collaboration_engine::store::feedback::{
    check_duplicate, decide_feedback, feedback_target, read_task_type,
    validate_evaluation, SavedArtifact, SavedEvidence,
};
use model_collaboration_engine::store::metrics::{calls, tasks, CallGroup, CallRow, StatusCount};
use model_collaboration_engine::store::planning::{check_name, phase_checkpoint};
use model_collaboration_engine::store::recovery::is_recoverable;
use model_collaboration_engine::store::settlement::{
    check_evidence, check_overrun, AttemptLine, SettlementEvidence,
};
use model_collaboration_engine::store::Ledger;
use model_collaboration_engine::text::{TextMap, TextSet};
use model_collaboration_engine::tools::ToolRequest;
use std::collections::VecDeque;

fn float(x: f64) -> Binary64 {
    number(x.to_bits())
}

fn value(x: Binary64) -> f64 {
    f64::from_bits(x.bits)
}

fn names(items: &[&str]) -> TextSet {
    let mut out = TextSet::new();
    for item in items {
        out.insert((*item).to_owned());
    }
    out
}

fn weights(parts: [f64; 6], version: &str) -> Weights {
    Weights {
        quality: float(parts[0]),
        capability: float(parts[1]),
        reliability: float(parts[2]),
        cost: float(parts[3]),
        latency: float(parts[4]),
        uncertainty: float(parts[5]),
        total: float(parts.iter().sum()),
        version: version.into(),
    }
}

fn model(id: &str) -> Model {
    Model {
        id: id.into(),
        model: "model-name".into(),
        version: "1".into(),
        endpoint: Endpoint::ChatCompletions,
        base_url: "http://127.0.0.1:8000/v1".into(),
        api_key_env: "MODEL_API_KEY".into(),
        provider: "local".into(),
        region: "local".into(),
        local: true,
        capabilities: names(&["text", "json", "tools"]),
        context_tokens: 32_768,
        input_price: 1,
        output_price: 2,
        price_version: "1".into(),
        acceptance: float(0.8),
        reliability: float(0.9),
        latency_ms: 1000,
        uncertainty: float(0.1),
        execution_class: ExecutionClass::Simple,
    }
}

fn config() -> Config {
    Config {
        database_path: "engine.db".into(),
        models: vec![model("local"), model("other")],
        planner_models: TextSet::new(),
        routing_profiles: Some(RoutingProfiles {
            schema_version: 1,
            version: "test-static-v1".into(),
            parents: vec![],
            role_mappings: vec![],
            weights: vec![],
            profiles: vec![],
        }),
        rankings: None,
        assessment_rules: None,
        decision: None,
        weights: weights([1.0, 0.0, 0.0, 0.0, 0.0, 0.0], "quality-only"),
        max_concurrency: 4,
        event_capacity: 64,
        event_max_bytes: 8192,
        stream_frame_max_bytes: 65_536,
        context_max_bytes: 1_048_576,
        close_grace_ms: 1000,
        cleanup_timeout_ms: 1000,
    }
}

fn policy(min_quality: f64) -> SelectionPolicy {
    SelectionPolicy {
        version: "host-task-fit-v1".into(),
        min_quality: float(min_quality),
        target_quality: float(0.9),
        above_target_factor: float(0.1),
        cost_reference: 10_000,
        latency_reference_ms: 5000,
        min_upgrade_gain: float(0.05),
    }
}

fn constraints(local_only: bool) -> Constraints {
    Constraints {
        allowed_models: TextSet::new(),
        allowed_providers: TextSet::new(),
        allowed_regions: TextSet::new(),
        local_only,
        required_capabilities: TextSet::new(),
        preferred_capabilities: TextSet::new(),
        different_critic: false,
    }
}

fn acceptance() -> Acceptance {
    Acceptance {
        version: "1".into(),
        nonempty: true,
        required_substrings: vec![],
        json_object: false,
    }
}

fn plan(kind: TaskType) -> EffectivePlan {
    let mut role_profiles = TextMap::new();
    role_profiles.insert(
        "invoke".to_owned(),
        RoleProfile {
            task_type: kind,
            role: "invoke".into(),
        },
    );
    EffectivePlan {
        plan_version: 1,
        task_type: kind,
        strategy: Strategy::Single,
        role_profiles,
        constraints: constraints(false),
        acceptance: acceptance(),
        selection: Some(policy(0.0)),
        submission_hash: "test".into(),
        proposal_id: None,
        validator_version: "1".into(),
        routing_profile_version: "global-prior-v1".into(),
        assessment: None,
    }
}

fn task() -> TaskSpec {
    TaskSpec {
        task_id: "example".into(),
        goal: "Write a short answer".into(),
        evidence: vec![],
        strategy: Strategy::Single,
        acceptance: acceptance(),
        selection: policy(0.0),
        constraints: constraints(true),
        budget: 100_000,
        deadline_ms: 60_000,
        output_tokens: 256,
        max_calls: 10,
        max_rounds: 3,
        max_attempts: 2,
        max_call_cost: 50_000,
        finalization_ms: 100,
        tools: vec![],
    }
}

fn posterior(profile: &QualityProfile) -> f64 {
    let weight = value(profile.prior_weight);
    (weight * value(profile.prior) + profile.accepted as f64) / (weight + profile.samples as f64)
}

fn numbers(
    config: &Config,
    plan: &EffectivePlan,
    at_ms: u64,
    metrics: &MetricsSnapshot,
) -> TextMap<Vec<EvidenceNumbers>> {
    let mut plan = plan.clone();
    apply_profiles(config, &mut plan);
    let defaults = RoutingProfiles::default();
    let profiles = config.routing_profiles.as_ref().unwrap_or(&defaults);
    let mut out = TextMap::new();
    for i in 0..plan.role_profiles.len() {
        let node = plan.role_profiles.key_at(i).clone();
        let role = plan.role_profiles.value_at(i);
        let kind = if node == "critic" {
            FeedbackKind::CriticCorrectness
        } else {
            FeedbackKind::BusinessAcceptance
        };
        let mut list = vec![];
        for model in &config.models {
            let found = resolve_quality(
                profiles,
                model,
                role,
                &plan.acceptance.version,
                metrics,
                kind,
                float(0.0),
            );
            let ranked = resolve_ranking(
                config.rankings.as_ref(),
                model,
                role,
                at_ms,
                float(0.0),
                float(0.0),
            );
            let (normalized, contribution) = match (&ranked.entry, &config.rankings) {
                (Some(entry), Some(rankings)) => {
                    let normalized = if rankings.population == 1 {
                        1.0
                    } else {
                        f64::from(rankings.population - entry.rank)
                            / f64::from(rankings.population - 1)
                    };
                    (normalized, value(rankings.weight) * normalized)
                }
                _ => (0.0, 0.0),
            };
            list.push(EvidenceNumbers {
                posterior: float(found.evidence.as_ref().map_or(0.0, posterior)),
                normalized_rank: float(normalized),
                contribution: float(contribution),
            });
        }
        out.insert(node, list);
    }
    out
}

fn capture(
    config: &Config,
    plan: &mut EffectivePlan,
    at_ms: u64,
    metrics: &MetricsSnapshot,
) -> RoutingSnapshot {
    let numbers = numbers(config, plan, at_ms, metrics);
    let encodings = SnapshotEncodings {
        rankings: format!("{:?}", config.rankings).into_bytes(),
        feedback: format!("{:?}", metrics.quality).into_bytes(),
        profiles: format!("{:?}", config.routing_profiles).into_bytes(),
    };
    RoutingSnapshot::capture_with_metrics(config, plan, at_ms, metrics, &numbers, &encodings)
}

fn snapshot(config: &Config, kind: TaskType) -> RoutingSnapshot {
    config.validate(false).unwrap();
    capture(config, &mut plan(kind), 10_000, &MetricsSnapshot::default())
}

/// The score of a candidate and its parts, added in the order of their names.
fn valuation(
    model: &Model,
    weights: &Weights,
    request: &RouteRequest<'_>,
    quality: f64,
    policy: Option<&SelectionPolicy>,
    ranking: Option<f64>,
    task_fit: bool,
    at_ms: u64,
) -> Valuation {
    let task = request.task;
    let cost = request.input_tokens * model.input_price + task.output_tokens * model.output_price;
    let (calls, failures) = request
        .health
        .get(&model.id)
        .map_or((0, 0), |h| (h.calls, h.failures));
    let reliability = (value(model.reliability) * 10.0 + calls.saturating_sub(failures) as f64)
        / (10.0 + calls as f64);
    let preferred = &task.constraints.preferred_capabilities;
    let capability = if preferred.is_empty() {
        0.0
    } else {
        let held = (0..preferred.len())
            .filter(|i| model.capabilities.contains(preferred.at(*i)))
            .count();
        held as f64 / preferred.len() as f64
    };
    let (value_of_quality, cost_share, latency_share) = match policy {
        Some(p) => {
            let target = value(p.target_quality);
            (
                quality.min(target) + value(p.above_target_factor) * (quality - target).max(0.0),
                -value(weights.cost) * cost as f64 / p.cost_reference as f64,
                -value(weights.latency) * model.latency_ms as f64 / p.latency_reference_ms as f64,
            )
        }
        None => (
            quality,
            -value(weights.cost) * cost as f64 / task.max_call_cost.max(1) as f64,
            -value(weights.latency)
                * (model.latency_ms as f64 / task.deadline_ms.saturating_sub(at_ms).max(1) as f64)
                    .min(1.0),
        ),
    };
    let parts = [
        ("capability", value(weights.capability) * capability),
        ("cost", cost_share),
        ("latency", latency_share),
        ("quality", value(weights.quality) * value_of_quality),
        ("reliability", value(weights.reliability) * reliability),
        (
            "uncertainty",
            -value(weights.uncertainty) * value(model.uncertainty),
        ),
    ];
    let mut breakdown = TextMap::new();
    let mut score = 0.0;
    for (name, part) in parts {
        breakdown.insert(name.to_owned(), float(part));
        if name == "reliability" && !task_fit {
            score += ranking.unwrap_or(0.0);
        }
        score += part;
    }
    Valuation {
        score: float(score),
        breakdown,
    }
}

fn valuations(snapshot: &RoutingSnapshot, request: &RouteRequest<'_>) -> Vec<Valuation> {
    let Some(node) = snapshot.nodes.get(request.node) else {
        return snapshot
            .models
            .iter()
            .map(|_| Valuation {
                score: float(0.0),
                breakdown: TextMap::new(),
            })
            .collect();
    };
    let task_fit = snapshot.schema_version >= 4;
    let policy = if task_fit && request.node != "critic" {
        snapshot.selection.as_ref()
    } else {
        None
    };
    snapshot
        .models
        .iter()
        .map(|model| {
            let quality = node
                .qualities
                .get(&model.id)
                .map_or(0.0, |q| value(q.quality));
            let ranking = if snapshot.schema_version >= 3 {
                node.rankings.get(&model.id).map(|r| value(r.contribution))
            } else {
                None
            };
            valuation(
                model,
                &node.weights,
                request,
                quality,
                policy,
                ranking,
                task_fit,
                snapshot.captured_at_ms,
            )
        })
        .collect()
}

fn encoded(snapshot: &RoutingSnapshot) -> Vec<u8> {
    format!("{snapshot:?}").into_bytes()
}

fn routed(
    snapshot: &RoutingSnapshot,
    task: &TaskSpec,
    node: &str,
    floor: f64,
    health: &TextMap<Health>,
) -> Result<RoutingDecision, EngineError> {
    let excluded = TextSet::new();
    let request = RouteRequest {
        task,
        node,
        input_tokens: 100,
        available: 100_000,
        excluded: &excluded,
        quality_floor: float(floor),
        health,
        health_encoded: b"{}",
    };
    route_profiled(
        snapshot,
        &request,
        &valuations(snapshot, &request),
        &encoded(snapshot),
    )
}

fn pick(snapshot: &RoutingSnapshot, task: &TaskSpec, floor: f64) -> RoutingDecision {
    routed(snapshot, task, "invoke", floor, &TextMap::new()).unwrap()
}

fn excluded_for(decision: &RoutingDecision, model: &str) -> Vec<String> {
    decision.excluded.get(model).unwrap().clone()
}
/// What the adapter is told to do with a call.
enum Script {
    Reply(Result<ModelOutput, EngineError>),
    /// The run is cancelled while the call is out.
    Cancel,
    /// The call takes longer than it may.
    TimeOut,
}

/// What the host's tool does.
#[derive(Clone, Copy)]
enum ToolScript {
    Cost(Option<u64>),
    Fail,
    Cancel,
}

/// A call as it is saved.
struct Saved {
    id: String,
    line: AttemptLine,
    metadata: Json,
    outcome: Option<Json>,
}

/// A task as it is saved.
struct Row {
    task_id: String,
    status: String,
    ledger: Ledger,
    attempts: Vec<Saved>,
    checkpoint: Json,
    plan: Json,
    result: Option<Json>,
    records: Vec<EvaluationRecord>,
}

/// An engine with a scripted adapter and a store in memory.
struct Host {
    config: Config,
    rows: Vec<Row>,
    script: VecDeque<Script>,
    requests: Vec<InvokeRequest>,
    tool: Option<ToolScript>,
    tool_requests: Vec<ToolRequest>,
    events: Vec<Event>,
    cancelled: bool,
    now: u64,
    /// The clock after an amount was reserved.
    after_reserve: Option<u64>,
    fail_settlement: bool,
    assessment: Option<DecisionAssessment>,
    routing: Option<RoutingSnapshot>,
    plan: Option<EffectivePlan>,
    /// What was routed, and from what.
    routes: Vec<Routed>,
    /// The feedback that is saved, with its serialized form.
    feedback: Vec<(Feedback, String)>,
    quality: MetricsSnapshot,
    lifecycle: Lifecycle,
}

struct Routed {
    decision: RoutingDecision,
    available: u64,
    excluded: TextSet,
    floor: Binary64,
}

fn setup(script: Vec<Script>, config: Config) -> Host {
    config.validate(false).unwrap();
    Host {
        config,
        rows: vec![],
        script: script.into(),
        requests: vec![],
        tool: None,
        tool_requests: vec![],
        events: vec![],
        cancelled: false,
        now: 1_000_000,
        after_reserve: None,
        fail_settlement: false,
        assessment: None,
        routing: None,
        plan: None,
        routes: vec![],
        feedback: vec![],
        quality: MetricsSnapshot::default(),
        lifecycle: Lifecycle::new(),
    }
}

fn decimal(x: f64) -> Json {
    parse(&serde_json::Value::from(x).to_string()).unwrap()
}

fn route_value(decision: &RoutingDecision) -> Json {
    let requested = match &decision.quality {
        Some(q) => ObjectBuilder::new()
            .with("task_type", q.requested.task_type.to_json())
            .with("role", text_value(&q.requested.role))
            .build(),
        None => Json::Null,
    };
    ObjectBuilder::new()
        .with("node_id", text_value(&decision.node_id))
        .with("model_id", text_value(&decision.model_id))
        .with("model_version", text_value(&decision.model_version))
        .with("quality", ObjectBuilder::new().with("requested", requested).build())
        .build()
}

fn read_kind(value: &serde_json::Value) -> Option<TaskType> {
    read_task_type(value.as_str()?)
}

fn read_strategy(value: &serde_json::Value) -> Option<Strategy> {
    match value.as_str()? {
        "single" => Some(Strategy::Single),
        "cascade" => Some(Strategy::Cascade),
        "generator_critic" => Some(Strategy::GeneratorCritic),
        _ => None,
    }
}

fn texts(value: &serde_json::Value) -> Option<Vec<String>> {
    let mut out = vec![];
    for item in value.as_array()? {
        out.push(item.as_str()?.to_owned());
    }
    Some(out)
}

fn has_only(value: &serde_json::Value, names: &[&str]) -> Option<()> {
    let object = value.as_object()?;
    if object.keys().all(|k| names.contains(&k.as_str())) {
        Some(())
    } else {
        None
    }
}

fn read_proposal(text: &str) -> Option<PlannerProposal> {
    let value: serde_json::Value = serde_json::from_str(text).ok()?;
    has_only(
        &value,
        &[
            "proposal_version",
            "task_type",
            "classification_confidence",
            "strategy",
            "required_capabilities",
            "suggested_acceptance",
            "reason",
        ],
    )?;
    let acceptance = value.get("suggested_acceptance")?;
    let mut required_capabilities = TextSet::new();
    for name in texts(value.get("required_capabilities")?)? {
        required_capabilities.insert(name);
    }
    Some(PlannerProposal {
        proposal_version: value.get("proposal_version")?.as_u64()? as u32,
        task_type: read_kind(value.get("task_type")?)?,
        classification_confidence: float(value.get("classification_confidence")?.as_f64()?),
        strategy: read_strategy(value.get("strategy")?)?,
        required_capabilities,
        suggested_acceptance: Acceptance {
            version: acceptance.get("version")?.as_str()?.to_owned(),
            nonempty: acceptance.get("nonempty")?.as_bool()?,
            required_substrings: texts(acceptance.get("required_substrings")?)?,
            json_object: acceptance.get("json_object")?.as_bool()?,
        },
        reason: value.get("reason")?.as_str()?.to_owned(),
    })
}

fn read_evaluation(text: &str) -> Option<Evaluation> {
    let value: serde_json::Value = serde_json::from_str(text).ok()?;
    let status = match value.get("status")?.as_str()? {
        "pass" => EvaluationStatus::Pass,
        "revise" => EvaluationStatus::Revise,
        "missing_evidence" => EvaluationStatus::MissingEvidence,
        "unacceptable" => EvaluationStatus::Unacceptable,
        "human_required" => EvaluationStatus::HumanRequired,
        _ => return None,
    };
    Some(Evaluation {
        status,
        checks: texts(value.get("checks")?)?,
        evidence: texts(value.get("evidence")?)?,
        defects: texts(value.get("defects")?)?,
        action: value.get("action")?.as_str()?.to_owned(),
    })
}

impl Host {
    fn row(&mut self, task_id: &str) -> &mut Row {
        self.rows.iter_mut().find(|r| r.task_id == task_id).unwrap()
    }

    fn saved(&self, task_id: &str) -> &Row {
        self.rows.iter().find(|r| r.task_id == task_id).unwrap()
    }

    fn reserve(
        &mut self,
        task: &TaskSpec,
        attempt: String,
        amount: u64,
        metadata: Json,
    ) -> Result<(), EngineError> {
        let max_calls = task.max_calls;
        let row = self.row(&task.task_id);
        row.ledger = row.ledger.reserve(&row.status, amount, max_calls)?;
        row.attempts.push(Saved {
            id: attempt,
            line: AttemptLine {
                amount,
                cost: None,
                state: "pending".into(),
            },
            metadata,
            outcome: None,
        });
        if let Some(now) = self.after_reserve.take() {
            self.now = now;
        }
        Ok(())
    }

    fn settle(
        &mut self,
        task_id: &str,
        attempt: &str,
        cost: Option<u64>,
        evidence: SettlementEvidence,
    ) -> Result<(), EngineError> {
        if self.fail_settlement {
            return Err(EngineError::new("storage", "injected settlement failure"));
        }
        let row = self.row(task_id);
        let saved = row.attempts.iter_mut().find(|a| a.id == attempt).unwrap();
        let amount = saved.line.amount;
        assert!(saved.line.state == "settled" || amount <= row.ledger.reserved);
        if let Some(settlement) = saved.line.settle(&row.ledger, cost, evidence)? {
            saved.line = settlement.line;
            saved.outcome = Some(settlement.outcome);
            row.ledger = settlement.ledger;
            return check_overrun(amount, cost);
        }
        Ok(())
    }

    fn record(&mut self, task: &TaskSpec, record: EvaluationRecord) -> Result<(), EngineError> {
        let row = self.row(&task.task_id);
        let call = |id: &str| {
            row.attempts
                .iter()
                .find(|a| a.id == id)
                .map(|a| a.metadata.to_text())
        };
        let artifact_call = call(&record.artifact.attempt_id);
        let critic_call = record.critic.as_ref().and_then(|c| call(&c.attempt_id));
        let earlier = row
            .records
            .iter()
            .position(|r| r.artifact.artifact_id == record.artifact.artifact_id);
        validate_evaluation(
            &record,
            &SavedEvidence {
                status: &row.status,
                artifact_call: artifact_call.as_deref(),
                critic_call: critic_call.as_deref(),
                record: earlier.map(|i| Some(&row.records[i])),
            },
        )?;
        match earlier {
            Some(i) => row.records[i] = record,
            None => row.records.push(record),
        }
        Ok(())
    }

    fn emit(
        &mut self,
        task: &TaskSpec,
        node: Option<String>,
        attempt: Option<String>,
        kind: &str,
        data: Json,
    ) {
        let sequence = self.events.len() as u64 + 1;
        let now = self.now;
        self.events
            .push(task_event(task, node, attempt, sequence, now, kind, data));
    }

    fn call(&mut self, request: InvokeRequest) -> Reply<ModelOutput> {
        self.requests.push(request);
        match self.script.pop_front().expect("unexpected call") {
            Script::Reply(r) => Reply::Answered(r),
            Script::Cancel => {
                self.cancelled = true;
                Reply::Cancelled
            }
            Script::TimeOut => Reply::TimedOut,
        }
    }

    fn chosen(&self, decision: &RoutingDecision, attempt: String) -> ModelCall {
        let index = self.config.find_model(&decision.model_id).unwrap();
        let model = self.config.models[index].clone();
        ModelCall {
            attempt,
            quality: quality_of(decision, &model),
            model,
            amount: decision.estimated_cost,
        }
    }

    fn prepare(&mut self, submission: &SubmissionSpec, task: &TaskSpec) -> Result<TaskSpec, EngineError> {
        let encoded = format!("{submission:?}").into_bytes();
        let mut preparation =
            Preparation::new(submission.clone(), task.clone(), self.config.clone(), encoded);
        let mut event = PreparationEvent::Done {
            cancelled: self.cancelled,
            now: self.now,
        };
        loop {
            let (next, action) = preparation.step(event);
            preparation = next;
            let done = |host: &Host| PreparationEvent::Done {
                cancelled: host.cancelled,
                now: host.now,
            };
            event = match action {
                PreparationAction::ReadLedger => PreparationEvent::Read {
                    ledger: self.saved(&task.task_id).ledger.clone(),
                    now: self.now,
                    fresh: id(),
                },
                PreparationAction::Checkpoint { value } => {
                    self.row(&task.task_id).checkpoint = value;
                    done(self)
                }
                PreparationAction::Emit { node, about, kind, data } => {
                    self.emit(task, node, about, &kind, data);
                    done(self)
                }
                PreparationAction::Route { task: phase, input_tokens, available } => {
                    let excluded = planning_excluded(&self.config);
                    let health = TextMap::new();
                    let request = RouteRequest {
                        task: &phase,
                        node: "planner",
                        input_tokens,
                        available,
                        excluded: &excluded,
                        quality_floor: float(0.0),
                        health: &health,
                        health_encoded: b"{}",
                    };
                    let valuations: Vec<Valuation> = self
                        .config
                        .models
                        .iter()
                        .map(|m| {
                            valuation(
                                m,
                                &self.config.weights,
                                &request,
                                value(m.acceptance),
                                None,
                                None,
                                false,
                                self.now,
                            )
                        })
                        .collect();
                    match route(&self.config, &request, &valuations, self.now) {
                        Err(error) => PreparationEvent::Unrouted { error },
                        Ok(decision) => PreparationEvent::Routed {
                            call: self.chosen(&decision, id()),
                            route: route_value(&decision),
                        },
                    }
                }
                PreparationAction::Reserve { attempt, amount, metadata } => {
                    match self.reserve(task, attempt, amount, metadata) {
                        Ok(()) => done(self),
                        Err(error) => PreparationEvent::Broken { error },
                    }
                }
                PreparationAction::CallModel { request, .. } => {
                    assert!(!streams_to_host(&request.node));
                    let reply = self.call(request);
                    let text = match &reply {
                        Reply::Answered(Ok(output)) => output.text.clone(),
                        _ => String::new(),
                    };
                    PreparationEvent::Replied {
                        reply,
                        parsed: read_proposal(&text),
                        encoded: parse(&text).unwrap_or(Json::Null),
                        latency_ms: 3,
                    }
                }
                PreparationAction::Decide { .. } => {
                    let answer = self.assessment.clone().unwrap();
                    PreparationEvent::Assessed {
                        answer: Reply::Answered(Ok(answer)),
                        encoded: text_value("assessed"),
                    }
                }
                PreparationAction::Settle { attempt, cost, outcome } => {
                    match self.settle(
                        &task.task_id,
                        &attempt,
                        cost,
                        SettlementEvidence::Invocation(outcome),
                    ) {
                        Ok(()) => done(self),
                        Err(error) => PreparationEvent::Broken { error },
                    }
                }
                PreparationAction::Measure { task } => PreparationEvent::Measured {
                    bytes: format!("{task:?}").len(),
                    cancelled: self.cancelled,
                    now: self.now,
                },
                PreparationAction::Capture { mut plan } => {
                    let snapshot = capture(&self.config, &mut plan, self.now, &self.quality);
                    let routing = ObjectBuilder::new()
                        .with("profile_version", text_value(&snapshot.profile_version))
                        .build();
                    self.routing = Some(snapshot);
                    self.plan = Some(plan.clone());
                    PreparationEvent::Captured {
                        encoded: ObjectBuilder::new()
                            .with("acceptance", plan.acceptance.to_json())
                            .with("task_type", plan.task_type.to_json())
                            .with("strategy", plan.strategy.to_json())
                            .with("submission_hash", text_value(&plan.submission_hash))
                            .build(),
                        routing,
                        plan,
                    }
                }
                PreparationAction::SavePlan { saved, checkpoint } => {
                    let row = self.row(&task.task_id);
                    row.plan = saved;
                    row.checkpoint = checkpoint;
                    done(self)
                }
                PreparationAction::Finish { task } => return Ok(task),
                PreparationAction::Fail { error } => return Err(error),
                PreparationAction::Wait => panic!("the preparation waits for something else"),
            };
        }
    }

    fn invoke(
        &mut self,
        task: &TaskSpec,
        snapshot: Snapshot,
        excluded: &TextSet,
        floor: Binary64,
        upgrade: Option<&UpgradeRequirement>,
    ) -> Result<(ModelOutput, ModelCall), EngineError> {
        let role = snapshot.role.clone();
        let text = format!("{snapshot:?}");
        let snapshot = snapshot.sealed(text.as_bytes());
        assert_eq!(snapshot.checksum.len(), 64);
        let mut node = Node::new(
            task,
            &role,
            &text,
            excluded,
            self.config.context_max_bytes,
            self.tool.is_some(),
        );
        let requirement = match upgrade {
            Some(u) => ObjectBuilder::new()
                .with("previous_quality", decimal(value(u.previous_quality)))
                .with("required_quality", decimal(value(u.required_quality)))
                .build(),
            None => Json::Null,
        };
        let mut event = NodeEvent::Done {
            cancelled: self.cancelled,
            now: self.now,
            fresh: id(),
        };
        loop {
            let (next, action) = node.step(event);
            node = next;
            let done = |host: &Host| NodeEvent::Done {
                cancelled: host.cancelled,
                now: host.now,
                fresh: id(),
            };
            event = match action {
                NodeAction::Route { input_tokens } => {
                    let available = self.saved(&task.task_id).ledger.available();
                    let health = TextMap::new();
                    let attempted = node.attempted().clone();
                    let request = RouteRequest {
                        task,
                        node: &role,
                        input_tokens,
                        available,
                        excluded: &attempted,
                        quality_floor: floor,
                        health: &health,
                        health_encoded: b"{}",
                    };
                    let routing = self.routing.as_ref();
                    let (values, bytes) = match routing {
                        Some(s) => (valuations(s, &request), encoded(s)),
                        None => (vec![], vec![]),
                    };
                    match select(routing, &request, &values, &bytes) {
                        Err(error) => NodeEvent::Broken { error },
                        Ok(decision) => {
                            let metadata = call_metadata(
                                route_value(&decision),
                                Json::Null,
                                available,
                                &attempted,
                                decimal(value(floor)),
                                Json::Null,
                                requirement.clone(),
                            );
                            let call = self.chosen(&decision, id());
                            self.routes.push(Routed {
                                decision,
                                available,
                                excluded: attempted,
                                floor,
                            });
                            NodeEvent::Routed { metadata, call }
                        }
                    }
                }
                NodeAction::Emit { attempt, kind, data } => {
                    self.emit(task, Some(role.clone()), Some(attempt), &kind, data);
                    done(self)
                }
                NodeAction::Reserve { attempt, amount, metadata } => {
                    match self.reserve(task, attempt, amount, metadata) {
                        Ok(()) => done(self),
                        Err(error) => NodeEvent::Broken { error },
                    }
                }
                NodeAction::CallModel { request, .. } => NodeEvent::ModelReplied {
                    reply: self.call(request),
                    latency_ms: 5,
                },
                NodeAction::CallTool { tool, .. } => {
                    self.tool_requests.push(tool);
                    let answer = match self.tool.unwrap() {
                        ToolScript::Cost(actual_cost) => Reply::Answered(Ok(ToolResult {
                            output: "lookup result".into(),
                            actual_cost,
                        })),
                        ToolScript::Fail => {
                            Reply::Answered(Err(EngineError::new("tool", "host rejected request")))
                        }
                        ToolScript::Cancel => {
                            self.cancelled = true;
                            Reply::Cancelled
                        }
                    };
                    NodeEvent::ToolReplied { answer, latency_ms: 2 }
                }
                NodeAction::Settle { attempt, cost, outcome } => {
                    match self.settle(
                        &task.task_id,
                        &attempt,
                        cost,
                        SettlementEvidence::Invocation(outcome),
                    ) {
                        Ok(()) => done(self),
                        Err(error) => NodeEvent::Broken { error },
                    }
                }
                NodeAction::Finish { output, call } => return Ok((output, call)),
                NodeAction::Fail { error } => return Err(error),
                NodeAction::Wait => panic!("the node waits for something else"),
            };
        }
    }

    fn execute(&mut self, task: &TaskSpec) -> Result<TaskResult, EngineError> {
        let mut execution = Execution::new(task);
        let mut event = ExecutionEvent::Done;
        loop {
            let (next, action) = execution.step(event);
            execution = next;
            event = match action {
                ExecutionAction::Invoke {
                    role,
                    prior,
                    feedback,
                    round,
                    excluded,
                    quality_floor,
                    upgrade,
                } => {
                    let snapshot = Snapshot::new(task, &role, prior, feedback, round);
                    match self.invoke(task, snapshot, &excluded, quality_floor, upgrade.as_ref()) {
                        Err(error) => ExecutionEvent::Refused {
                            error,
                            required: decimal(value(quality_floor)),
                            requirement: match upgrade {
                                Some(u) => ObjectBuilder::new()
                                    .with("previous_quality", decimal(value(u.previous_quality)))
                                    .with("required_quality", decimal(value(u.required_quality)))
                                    .build(),
                                None => Json::Null,
                            },
                        },
                        Ok((output, call)) => {
                            if role == "critic" {
                                ExecutionEvent::Judged {
                                    attempt: call.attempt,
                                    evaluation: read_evaluation(&output.text),
                                }
                            } else {
                                let raised =
                                    value(call.quality) + value(task.selection.min_upgrade_gain);
                                ExecutionEvent::Produced {
                                    artifact_id: id(),
                                    attempt: call.attempt,
                                    text: output.text,
                                    model: call.model.id,
                                    quality: call.quality,
                                    raised: float(raised),
                                }
                            }
                        }
                    }
                }
                ExecutionAction::Record { record } => match self.record(task, record) {
                    Ok(()) => ExecutionEvent::Done,
                    Err(error) => ExecutionEvent::Broken { error },
                },
                ExecutionAction::Checkpoint { value } => {
                    self.row(&task.task_id).checkpoint = value;
                    ExecutionEvent::Done
                }
                ExecutionAction::Emit { node, data } => {
                    self.emit(task, Some(node), None, "evaluation", data);
                    ExecutionEvent::Done
                }
                ExecutionAction::ReadLedger => ExecutionEvent::Read {
                    ledger: self.saved(&task.task_id).ledger.clone(),
                },
                ExecutionAction::Finish { result } => return Ok(result),
                ExecutionAction::Fail { error } => return Err(error),
                ExecutionAction::Wait => panic!("the task waits for something else"),
            };
        }
    }

    fn run(&mut self, submission: SubmissionSpec) -> Result<TaskResult, EngineError> {
        let task = submission.provisional_task();
        let task_bytes = format!("{task:?}").len();
        let mut run = Run::new(submission.clone());
        let mut event = RunEvent::Asked {
            bytes: format!("{submission:?}").len(),
            task_bytes,
            given: self.tool.is_some(),
            now: self.now,
        };
        loop {
            let (next, action) = run.step(&self.config, event);
            run = next;
            event = match action {
                RunAction::Register => match self.lifecycle.enter(&task.task_id, &task.task_id) {
                    Ok(()) => RunEvent::Done { now: self.now },
                    Err(error) => RunEvent::Broken { error },
                },
                RunAction::Queue { .. } => RunEvent::Waited {
                    queued: Queued::Granted,
                    task_bytes,
                    now: self.now,
                },
                RunAction::Create => {
                    match check_name(self.rows.iter().any(|r| r.task_id == task.task_id)) {
                        Err(error) => RunEvent::Broken { error },
                        Ok(()) => {
                            self.create(&task);
                            RunEvent::Done { now: self.now }
                        }
                    }
                }
                RunAction::Emit { data } => {
                    self.emit(&task, None, None, "task_started", data);
                    RunEvent::Done { now: self.now }
                }
                RunAction::Prepare => match self.prepare(&submission, &task) {
                    Ok(task) => RunEvent::Prepared { task },
                    Err(error) => RunEvent::Broken { error },
                },
                RunAction::Execute { task } => RunEvent::Executed {
                    result: self.execute(&task),
                },
                RunAction::Finish { status, saved } => {
                    let row = self.row(&task.task_id);
                    row.status = status;
                    row.result = Some(saved);
                    RunEvent::Done { now: self.now }
                }
                RunAction::Return { result } => {
                    self.lifecycle.leave(&task.task_id);
                    return result;
                }
                RunAction::Wait => panic!("the run waits for something else"),
            };
        }
    }

    fn create(&mut self, task: &TaskSpec) {
        self.rows.push(Row {
            task_id: task.task_id.clone(),
            status: "running".into(),
            ledger: Ledger {
                total: task.budget,
                settled: 0,
                reserved: 0,
                calls: 0,
            },
            attempts: vec![],
            checkpoint: phase_checkpoint("admitted"),
            plan: Json::Null,
            result: None,
            records: vec![],
        });
        self.events.clear();
    }

    fn run_task(&mut self, task: TaskSpec) -> Result<TaskResult, EngineError> {
        self.run(SubmissionSpec::from_task(task))
    }

    fn models(&self) -> Vec<&str> {
        self.requests.iter().map(|r| r.model.id.as_str()).collect()
    }

    fn kinds(&self) -> Vec<&str> {
        self.events.iter().map(|e| e.kind.as_str()).collect()
    }

    fn metrics(&self) -> Vec<CallGroup> {
        let mut rows = vec![];
        for row in &self.rows {
            for attempt in &row.attempts {
                rows.push(CallRow {
                    metadata: attempt.metadata.clone(),
                    outcome: attempt.outcome.clone().unwrap_or(Json::Null),
                    cost: attempt.line.cost,
                    amount: attempt.line.amount,
                    config_hash: "hash".into(),
                });
            }
        }
        calls(&rows).unwrap()
    }

    /// The tasks that need attention.
    fn records(&self) -> Vec<&Row> {
        self.rows
            .iter()
            .filter(|r| {
                let states: Vec<String> = r.attempts.iter().map(|a| a.line.state.clone()).collect();
                is_recoverable(&r.status, r.ledger.reserved, &states)
            })
            .collect()
    }
}

fn at<'a>(value: &'a Json, path: &[&str]) -> Option<&'a Json> {
    let mut v = Some(value);
    for name in path {
        v = member(v, name);
    }
    v
}

fn output(text: &str, usage: bool) -> Script {
    Script::Reply(Ok(answer(text, usage)))
}

fn answer(text: &str, usage: bool) -> ModelOutput {
    ModelOutput {
        text: text.into(),
        tool_calls: vec![],
        usage: usage.then_some(Usage {
            input_tokens: 10,
            output_tokens: 5,
        }),
        request_id: Some("test-request".into()),
        complete: true,
    }
}

fn two_models() -> Config {
    let mut cheap = model("cheap");
    cheap.input_price = 1;
    cheap.output_price = 1;
    cheap.acceptance = float(0.7);
    cheap.context_tokens = 100_000;
    let mut strong = cheap.clone();
    strong.id = "strong".into();
    strong.endpoint = Endpoint::Responses;
    strong.input_price = 2;
    strong.output_price = 2;
    strong.acceptance = float(0.9);
    let mut out = config();
    out.models = vec![cheap, strong];
    out.routing_profiles = None;
    out.weights = weights([0.0, 0.0, 0.0, 1.0, 0.0, 0.0], "1");
    out.context_max_bytes = 65_536;
    out
}

fn given(strategy: Strategy) -> TaskSpec {
    let mut out = task();
    out.task_id = id();
    out.goal = "Say accepted".into();
    out.strategy = strategy;
    out.acceptance.required_substrings = vec!["accepted".into()];
    out.constraints = constraints(false);
    out.constraints.different_critic = true;
    out.budget = 100_000;
    out.deadline_ms = 1_010_000;
    out.output_tokens = 100;
    out.max_calls = 8;
    out.max_rounds = 3;
    out.max_attempts = 2;
    out.max_call_cost = 30_000;
    out.finalization_ms = 100;
    out
}

#[test]
fn single_settles_and_rejects_duplicate_id() {
    let mut host = setup(vec![output("accepted", true)], two_models());
    let task = given(Strategy::Single);
    let result = host.run_task(task.clone()).unwrap();
    assert_eq!(result.status, "completed");
    assert_eq!(result.settled_cost, 15);
    assert_eq!(result.reserved_cost, 0);
    assert_eq!(host.saved(&task.task_id).ledger.calls, 1);
    assert!(host.run_task(task).is_err());
    assert_eq!(host.requests.len(), 1);
}

#[test]
fn cascade_upgrades_after_failed_acceptance() {
    let script = vec![output("wrong", true), output("accepted", true)];
    let mut host = setup(script, two_models());
    let result = host.run_task(given(Strategy::Cascade)).unwrap();
    assert_eq!(result.status, "completed");
    assert_eq!(result.artifact.version, 2);
    assert_eq!(host.models(), vec!["cheap", "strong"]);
    assert_eq!(result.settled_cost, 45);
    let metadata = &host.saved(&result.task_id).attempts[1].metadata;
    let upgrade = at(metadata, &["route_inputs", "upgrade"]).unwrap();
    assert_eq!(
        upgrade.to_text(),
        r#"{"previous_quality":0.7,"required_quality":0.75}"#
    );
}

#[test]
fn initial_route_records_the_host_minimum_quality_floor() {
    let mut host = setup(vec![output("accepted", true)], two_models());
    let mut task = given(Strategy::Single);
    task.selection.min_quality = float(0.8);
    let result = host.run_task(task).unwrap();
    assert_eq!(host.models(), vec!["strong"]);
    let metadata = &host.saved(&result.task_id).attempts[0].metadata;
    let floor = at(metadata, &["route_inputs", "quality_floor"]).unwrap();
    assert_eq!(floor.to_text(), "0.8");
}

#[test]
fn cascade_stops_when_no_candidate_meets_minimum_quality_gain() {
    let mut config = two_models();
    config.models[0].acceptance = float(0.70);
    config.models[1].acceptance = float(0.72);
    let mut host = setup(vec![output("wrong", true)], config);
    let result = host.run_task(given(Strategy::Cascade)).unwrap();
    assert_eq!(result.status, "human_required");
    assert_eq!(result.artifact.text, "wrong");
    assert_eq!(host.models(), vec!["cheap"]);
    let row = host.saved(&result.task_id);
    assert_eq!(row.ledger.calls, 1);
    let stop = at(&row.checkpoint, &["upgrade_stop"]).unwrap();
    assert!(is_text(member(Some(stop), "reason"), "no_quality_improvement"));
    assert_eq!(at(stop, &["required_quality"]).unwrap().to_text(), "0.75");
    assert_eq!(
        at(stop, &["requirement"]).unwrap().to_text(),
        r#"{"previous_quality":0.7,"required_quality":0.75}"#
    );
}

#[test]
fn cascade_records_budget_when_only_improving_candidate_is_unaffordable() {
    let mut config = two_models();
    config.models[1].input_price = 1_000_000;
    config.models[1].output_price = 1_000_000;
    let mut host = setup(vec![output("wrong", true)], config);
    let result = host.run_task(given(Strategy::Cascade)).unwrap();
    assert_eq!(result.status, "human_required");
    assert_eq!(host.models(), vec!["cheap"]);
    let row = host.saved(&result.task_id);
    assert_eq!(row.ledger.calls, 1);
    assert!(is_text(at(&row.checkpoint, &["upgrade_stop", "reason"]), "budget"));
}

#[test]
fn cascade_prefers_quality_reason_when_budget_cannot_enable_candidate() {
    let mut config = two_models();
    config.models[1].acceptance = float(0.72);
    config.models[1].input_price = 1_000_000;
    config.models[1].output_price = 1_000_000;
    let mut host = setup(vec![output("wrong", true)], config);
    let result = host.run_task(given(Strategy::Cascade)).unwrap();
    assert_eq!(host.models(), vec!["cheap"]);
    let row = host.saved(&result.task_id);
    assert!(is_text(
        at(&row.checkpoint, &["upgrade_stop", "reason"]),
        "no_quality_improvement"
    ));
}

#[test]
fn critic_requires_revision_and_uses_other_model() {
    let revise = r#"{"status":"revise","checks":[],"evidence":[],"defects":["add detail"],"action":"revise"}"#;
    let pass = r#"{"status":"pass","checks":[],"evidence":[],"defects":[],"action":"accept"}"#;
    let script = vec![
        output("accepted", true),
        output(revise, true),
        output("accepted with detail", true),
        output(pass, true),
    ];
    let mut host = setup(script, two_models());
    let result = host.run_task(given(Strategy::GeneratorCritic)).unwrap();
    assert_eq!(result.status, "completed");
    assert_eq!(result.artifact.version, 2);
    assert_eq!(host.models(), vec!["cheap", "strong", "cheap", "strong"]);
    let records = &host.saved(&result.task_id).records;
    assert_eq!(records.len(), 2);
    assert!(records.iter().all(|r| r.critic.is_some()));
}

#[test]
fn missing_usage_remains_reserved() {
    let mut host = setup(vec![output("accepted", false)], two_models());
    let result = host.run_task(given(Strategy::Single)).unwrap();
    assert_eq!(result.settled_cost, 0);
    assert!(result.reserved_cost > 0);
    assert_eq!(host.records().len(), 1);
}

#[test]
fn cancellation_keeps_unknown_cost_and_finishes_task() {
    let mut host = setup(vec![Script::Cancel], two_models());
    let error = host.run_task(given(Strategy::Single)).unwrap_err();
    assert_eq!(error.kind, "cancelled");
    assert_eq!(error.message, "task cancelled during model invocation");
    let records = host.records();
    assert_eq!(records[0].status, "cancelled");
    assert!(records[0].ledger.reserved > 0);
    assert_eq!(records[0].attempts[0].line.state, "unresolved");
}

#[test]
fn budget_and_call_limit_prevent_additional_dispatch() {
    let mut host = setup(vec![output("wrong", true)], two_models());
    let mut task = given(Strategy::Cascade);
    task.max_calls = 1;
    assert_eq!(host.run_task(task).unwrap_err().kind, "budget");
    assert_eq!(host.requests.len(), 1);
}

#[test]
fn deadline_interrupts_a_blocked_adapter() {
    let mut host = setup(vec![Script::TimeOut], two_models());
    let mut task = given(Strategy::Single);
    task.finalization_ms = 50;
    let error = host.run_task(task).unwrap_err();
    assert_eq!(error.kind, "deadline");
    assert!(host.records()[0].ledger.reserved > 0);
    let outcome = host.records()[0].attempts[0].outcome.as_ref().unwrap();
    assert!(is_text(at(outcome, &["call_metrics", "status"]), "timed_out"));
}

fn tool_task() -> TaskSpec {
    let mut task = given(Strategy::Single);
    task.tools = vec![ToolSpec {
        name: "lookup".into(),
        description: "lookup".into(),
        parameters: ObjectBuilder::new().with("type", text_value("object")).build(),
        max_cost: 50,
    }];
    task
}

fn tool_output(names: &[&str]) -> Script {
    let mut out = answer("", true);
    for (i, name) in names.iter().enumerate() {
        out.tool_calls.push(ToolCall {
            id: format!("call-{i}"),
            name: (*name).into(),
            arguments: ObjectBuilder::new().with("query", text_value("x")).build(),
        });
    }
    Script::Reply(Ok(out))
}

#[test]
fn tool_roundtrip_is_accounted_and_observable() {
    let script = vec![tool_output(&["lookup"]), output("accepted", true)];
    let mut host = setup(script, two_models());
    host.tool = Some(ToolScript::Cost(Some(7)));
    let task = tool_task();
    let result = host.run_task(task.clone()).unwrap();
    let metrics = host.metrics();
    let tool = metrics
        .iter()
        .find(|c| c.statistics.attempt_kind == "tool")
        .unwrap();
    assert_eq!(tool.statistics.tool_name.as_deref(), Some("lookup"));
    assert_eq!((tool.statistics.succeeded, tool.statistics.known_cost), (1, 7));
    assert_eq!(metrics.iter().map(|c| c.statistics.attempts).sum::<u64>(), 3);
    assert_eq!(result.settled_cost, 37);
    assert_eq!(result.reserved_cost, 0);
    assert_eq!(host.saved(&task.task_id).ledger.calls, 3);
    let messages = &host.requests[1].messages;
    assert_eq!(messages[2].tool_calls[0].id, "call-0");
    assert_eq!(messages[3].role, "tool");
    assert_eq!(messages[3].content, "lookup result");
    assert_eq!(messages[3].tool_call_id.as_deref(), Some("call-0"));
    assert_eq!(host.tool_requests[0].max_cost, 50);
    assert!(host.kinds().contains(&"tool_requested"));
    assert!(host.kinds().contains(&"tool_completed"));
    assert!(host.events.windows(2).all(|w| w[0].sequence < w[1].sequence));
}

#[test]
fn whole_tool_batch_is_validated_before_side_effects() {
    let mut host = setup(vec![tool_output(&["lookup", "not_declared"])], two_models());
    host.tool = Some(ToolScript::Cost(Some(7)));
    assert_eq!(host.run_task(tool_task()).unwrap_err().kind, "protocol");
    assert!(host.tool_requests.is_empty());
}

#[test]
fn tool_calls_obey_total_call_limit() {
    let mut host = setup(vec![tool_output(&["lookup"])], two_models());
    host.tool = Some(ToolScript::Cost(Some(7)));
    let mut task = tool_task();
    task.max_calls = 1;
    assert_eq!(host.run_task(task).unwrap_err().kind, "budget");
    assert!(host.tool_requests.is_empty());
    assert_eq!(host.requests.len(), 1);
}

#[test]
fn failed_tool_is_not_retried_and_retains_reservation() {
    let mut host = setup(vec![tool_output(&["lookup"])], two_models());
    host.tool = Some(ToolScript::Fail);
    let task = tool_task();
    assert_eq!(host.run_task(task.clone()).unwrap_err().kind, "tool");
    assert_eq!(host.tool_requests.len(), 1);
    assert_eq!(host.requests.len(), 1);
    assert_eq!(host.saved(&task.task_id).ledger.reserved, 50);
}

#[test]
fn tool_overrun_records_actual_cost_before_failing() {
    let mut host = setup(vec![tool_output(&["lookup"])], two_models());
    host.tool = Some(ToolScript::Cost(Some(75)));
    let task = tool_task();
    assert_eq!(host.run_task(task.clone()).unwrap_err().kind, "budget");
    let ledger = &host.saved(&task.task_id).ledger;
    assert_eq!(ledger.settled, 90);
    assert_eq!(ledger.reserved, 0);
}

#[test]
fn cancellation_during_tool_retains_unknown_cost() {
    let mut host = setup(vec![tool_output(&["lookup"])], two_models());
    host.tool = Some(ToolScript::Cancel);
    let task = tool_task();
    assert_eq!(host.run_task(task.clone()).unwrap_err().kind, "cancelled");
    assert_eq!(host.saved(&task.task_id).ledger.reserved, 50);
}

#[test]
fn critic_cannot_execute_host_tools() {
    let script = vec![output("accepted", true), tool_output(&["lookup"])];
    let mut host = setup(script, two_models());
    host.tool = Some(ToolScript::Cost(Some(0)));
    let mut task = tool_task();
    task.strategy = Strategy::GeneratorCritic;
    assert_eq!(host.run_task(task).unwrap_err().kind, "protocol");
    assert!(host.tool_requests.is_empty());
}

#[test]
fn unknown_tool_cost_is_kept_after_success() {
    let script = vec![tool_output(&["lookup"]), output("accepted", true)];
    let mut host = setup(script, two_models());
    host.tool = Some(ToolScript::Cost(None));
    let result = host.run_task(tool_task()).unwrap();
    assert_eq!(result.status, "completed");
    assert_eq!(result.settled_cost, 30);
    assert_eq!(result.reserved_cost, 50);
}

#[test]
fn tool_declarations_require_an_executor() {
    let mut host = setup(vec![], two_models());
    let error = host.run_task(tool_task()).unwrap_err();
    assert_eq!(error.kind, "configuration");
    assert!(host.rows.is_empty());
}

#[test]
fn a_failed_model_is_replaced_at_most_so_often_and_keeps_its_reservation() {
    let fails = || Script::Reply(Err(EngineError::new("model", "network failed")));
    let mut host = setup(vec![fails(), output("accepted", true)], two_models());
    let result = host.run_task(given(Strategy::Single)).unwrap();
    assert_eq!(host.models(), vec!["cheap", "strong"]);
    assert_eq!(result.settled_cost, 30);
    assert!(result.reserved_cost > 0);
    let mut host = setup(vec![fails(), fails()], two_models());
    let error = host.run_task(given(Strategy::Single)).unwrap_err();
    assert_eq!(error.kind, "model");
    assert_eq!(error.message, "model attempt limit exhausted");
    assert_eq!(host.requests.len(), 2);
}

#[test]
fn incomplete_output_and_repeated_tool_calls_are_refused() {
    let mut partial = answer("accepted", true);
    partial.complete = false;
    let mut host = setup(vec![Script::Reply(Ok(partial))], two_models());
    let error = host.run_task(given(Strategy::Single)).unwrap_err();
    assert_eq!(error.message, "model output is incomplete");
    assert_eq!(host.rows[0].ledger.settled, 15);
    let script = vec![tool_output(&["lookup"]), tool_output(&["lookup"])];
    let mut host = setup(script, two_models());
    host.tool = Some(ToolScript::Cost(Some(1)));
    let error = host.run_task(tool_task()).unwrap_err();
    assert_eq!(error.kind, "protocol");
    assert_eq!(host.tool_requests.len(), 1);
}

fn one_model() -> Config {
    let mut out = config();
    out.models = vec![model("local")];
    out.models[0].output_price = 1;
    out.routing_profiles = None;
    out.planner_models = names(&["local"]);
    out
}

fn proposal() -> String {
    r#"{"proposal_version":1,"task_type":"writing","classification_confidence":0.8,"strategy":"single","required_capabilities":["text"],"suggested_acceptance":{"version":"1","nonempty":false,"required_substrings":[],"json_object":false},"reason":"A simple greeting"}"#.to_owned()
}

fn submission() -> SubmissionSpec {
    let mut task = task();
    task.task_id = id();
    task.deadline_ms = 1_030_000;
    task.acceptance.json_object = true;
    let mut out = SubmissionSpec::from_task(task);
    out.schema_version = 2;
    out.strategy = None;
    out.task_type = None;
    out.planning = PlanningConfig {
        mode: PlanningMode::Auto,
        fallback: None,
        max_calls: 1,
        max_cost: 20_000,
        timeout_ms: 5000,
    };
    out
}

fn with_fallback() -> SubmissionSpec {
    let mut out = submission();
    out.planning.fallback = Some(PlanChoice {
        task_type: TaskType::General,
        strategy: Strategy::Single,
    });
    out
}

fn explicit() -> SubmissionSpec {
    let mut out = submission();
    out.strategy = Some(Strategy::Single);
    out.task_type = Some(TaskType::Writing);
    out
}

#[test]
fn planning_and_execution_share_accounting_and_preserve_host_acceptance() {
    let script = vec![output(&proposal(), true), output(r#"{"greeting":"hello"}"#, true)];
    let mut host = setup(script, one_model());
    let sub = submission();
    let result = host.run(sub.clone()).unwrap();
    assert_eq!(result.settled_cost, 30);
    let row = host.saved(&sub.task_id);
    assert_eq!(row.ledger.calls, 2);
    assert_eq!(host.requests[0].node, "planner");
    assert!(host.requests[0].tools.is_empty());
    assert!(host.requests[0].json_object);
    assert_eq!(row.status, "completed");
    let plan = member(Some(&row.plan), "effective_plan");
    let acceptance = member(plan, "acceptance").unwrap();
    assert_eq!(at(acceptance, &["json_object"]).unwrap().to_text(), "true");
    assert_eq!(at(acceptance, &["nonempty"]).unwrap().to_text(), "true");
    let hash = model_collaboration_engine::contracts::digest(format!("{sub:?}").as_bytes());
    assert!(is_text(member(plan, "submission_hash"), &hash));
    let selection = host.plan.as_ref().unwrap().selection.as_ref().unwrap();
    assert_eq!(selection.version, "host-task-fit-v1");
    assert_eq!(selection.cost_reference, 10_000);
    assert_eq!(
        &host.kinds()[..5],
        &[
            "task_started",
            "planning_started",
            "model_started",
            "planning_completed",
            "plan_validated"
        ]
    );
    for (i, event) in host.events.iter().enumerate() {
        assert_eq!(event.sequence, i as u64 + 1);
    }
}

#[test]
fn schema_three_facts_freeze_the_assessed_execution_class() {
    let mut config = one_model();
    config.models[0].execution_class = ExecutionClass::Hard;
    config.assessment_rules = Some(RuleSet {
        version: "coding-demand-v1".into(),
        rules: vec![AssessmentRule {
            id: "many-files".into(),
            fact: "file_count".into(),
            op: RuleOperator::Gt,
            value: TaskFactValue::Integer(5),
            minimum_execution_class: ExecutionClass::Hard,
        }],
    });
    let mut host = setup(vec![output("{}", true)], config);
    let mut sub = explicit();
    sub.schema_version = 3;
    let mut values = TextMap::new();
    values.insert("file_count".to_owned(), TaskFactValue::Integer(7));
    sub.task_facts = Some(TaskFacts {
        version: "coding-facts-v1".into(),
        values,
    });
    let result = host.run(sub).unwrap();
    let assessment = host.plan.as_ref().unwrap().assessment.as_ref().unwrap();
    assert_eq!(assessment.execution_class, ExecutionClass::Hard);
    let routing = host.routing.as_ref().unwrap();
    assert_eq!(routing.minimum_execution_class, ExecutionClass::Hard);
    assert_eq!(result.status, "completed");
}

#[test]
fn explicit_disabled_and_complete_auto_skip_planning_without_a_pool() {
    for mode in [PlanningMode::Disabled, PlanningMode::Auto] {
        let mut config = one_model();
        config.planner_models = TextSet::new();
        let mut host = setup(vec![output("{}", true)], config);
        let mut sub = explicit();
        sub.planning.mode = mode;
        host.run(sub.clone()).unwrap();
        let row = host.saved(&sub.task_id);
        assert_eq!(row.ledger.calls, 1);
        let skipped = at(&row.plan, &["planning", "skipped"]).unwrap();
        assert_eq!(skipped.to_text(), "true");
    }
}

#[test]
fn required_plans_even_with_host_choices_and_rejects_conflicts() {
    for conflict in [false, true] {
        let script = vec![output(&proposal(), true), output("{}", true)];
        let mut host = setup(script, one_model());
        let mut sub = explicit();
        sub.planning.mode = PlanningMode::Required;
        if conflict {
            sub.task_type = Some(TaskType::Reasoning);
        }
        let result = host.run(sub.clone());
        if conflict {
            assert_eq!(result.unwrap_err().kind, "plan_validation");
        } else {
            assert_eq!(result.unwrap().status, "completed");
        }
        let calls = host.saved(&sub.task_id).ledger.calls;
        assert_eq!(calls, if conflict { 1 } else { 2 });
    }
}

#[test]
fn invalid_proposals_are_settled_before_rejection() {
    let good = proposal();
    let unknown = good.replace(
        r#""reason":"#,
        r#""selection":{"version":"planner-must-not-change-host-policy"},"reason":"#,
    );
    let capability = good.replace(r#"["text"]"#, r#"["shell"]"#);
    let confidence = good.replace("0.8", "1.1");
    let version = good.replace(r#""version":"1""#, r#""version":"unregistered""#);
    let strategy = good.replace(r#""single""#, r#""arbitrary_graph""#);
    for text in ["not json".to_owned(), unknown, capability, confidence, version, strategy] {
        let mut host = setup(vec![output(&text, true)], one_model());
        let sub = submission();
        assert_eq!(host.run(sub.clone()).unwrap_err().kind, "plan_validation");
        let row = host.saved(&sub.task_id);
        assert_eq!(row.ledger.settled, 15);
        assert_eq!(row.ledger.calls, 1);
        let outcome = row.attempts[0].outcome.as_ref().unwrap();
        assert!(is_text(at(outcome, &["planning_output", "text"]), &text));
    }
}

#[test]
fn explicit_fallback_keeps_unknown_planning_cost_and_recovery_evidence() {
    let mut host = setup(vec![output("bad", false), output("{}", true)], one_model());
    let sub = with_fallback();
    let result = host.run(sub.clone()).unwrap();
    assert_eq!(result.settled_cost, 15);
    assert!(result.reserved_cost > 0);
    let records = host.records();
    assert_eq!(records.len(), 1);
    assert_eq!(records[0].task_id, sub.task_id);
    assert_eq!(records[0].attempts[0].line.state, "unresolved");
    assert!(is_text(
        at(&records[0].plan, &["planning", "error", "kind"]),
        "plan_validation"
    ));
    assert!(is_text(
        at(&records[0].plan, &["planning", "fallback", "task_type"]),
        "general"
    ));
    assert!(host.kinds().contains(&"planning_fallback"));
}

#[test]
fn planning_pool_cannot_bypass_host_data_constraints() {
    for restriction in ["pool", "local", "provider", "region", "model", "json", "context"] {
        let mut config = one_model();
        match restriction {
            "pool" => config.planner_models = TextSet::new(),
            "local" => config.models[0].local = false,
            "json" => config.models[0].capabilities.remove("json"),
            "context" => config.models[0].context_tokens = 10,
            _ => {}
        }
        let mut host = setup(vec![], config);
        let mut sub = submission();
        match restriction {
            "provider" => sub.constraints.allowed_providers = names(&["other"]),
            "region" => sub.constraints.allowed_regions = names(&["other"]),
            "model" => sub.constraints.allowed_models = names(&["other"]),
            _ => {}
        }
        let error = host.run(sub.clone()).unwrap_err();
        assert_eq!(error.kind, "planning", "{restriction}: {error:?}");
        assert_eq!(host.saved(&sub.task_id).ledger.calls, 0);
    }
}

#[test]
fn total_call_exhaustion_and_usage_overrun_never_fall_back() {
    for overrun in [false, true] {
        let mut reply = answer(&proposal(), true);
        if overrun {
            reply.usage = Some(Usage {
                input_tokens: 50_000,
                output_tokens: 1,
            });
        }
        let mut host = setup(vec![Script::Reply(Ok(reply))], one_model());
        let mut sub = with_fallback();
        sub.max_calls = 1;
        assert_eq!(host.run(sub.clone()).unwrap_err().kind, "budget");
        let ledger = &host.saved(&sub.task_id).ledger;
        assert_eq!(ledger.calls, 1);
        assert_eq!(ledger.settled, if overrun { 50_001 } else { 15 });
    }
}

#[test]
fn cancellation_and_close_finish_planning_accounting_without_fallback() {
    let mut host = setup(vec![Script::Cancel], one_model());
    let sub = with_fallback();
    assert_eq!(host.run(sub.clone()).unwrap_err().kind, "cancelled");
    assert_eq!(host.requests.len(), 1);
    assert_eq!(host.saved(&sub.task_id).status, "cancelled");
    assert_eq!(host.records()[0].attempts[0].line.state, "unresolved");
    assert!(!host.kinds().contains(&"planning_fallback"));
}

#[test]
fn version_and_mode_errors_reject_before_admission() {
    let mut host = setup(vec![], one_model());
    for variant in 0..4 {
        let mut sub = submission();
        match variant {
            0 => sub.schema_version = 1,
            1 => sub.planning.mode = PlanningMode::Disabled,
            2 => sub.planning.max_calls = 2,
            _ => sub.planning.timeout_ms = 0,
        }
        assert_eq!(host.run(sub).unwrap_err().kind, "configuration");
    }
    assert!(host.rows.is_empty());
    assert!(host.requests.is_empty());
}

#[test]
fn settlement_storage_failure_stops_before_fallback_or_execution() {
    let mut host = setup(vec![output(&proposal(), true)], one_model());
    host.fail_settlement = true;
    let sub = with_fallback();
    assert_eq!(host.run(sub.clone()).unwrap_err().kind, "storage");
    let row = host.saved(&sub.task_id);
    assert_eq!(row.ledger.calls, 1);
    assert_eq!(row.attempts[0].line.state, "pending");
    assert_eq!(row.status, "failed");
}

#[test]
fn planner_selection_failure_uses_only_explicit_validated_fallback() {
    for no_pool in [false, true] {
        let mut config = one_model();
        if no_pool {
            config.planner_models = TextSet::new();
        }
        let mut host = setup(vec![output("{}", true)], config);
        let mut sub = with_fallback();
        sub.planning.max_cost = 0;
        host.run(sub.clone()).unwrap();
        let row = host.saved(&sub.task_id);
        assert_eq!(row.ledger.calls, 1);
        assert_eq!(host.requests[0].node, "invoke");
        assert!(is_text(at(&row.plan, &["planning", "error", "kind"]), "planning"));
    }
}

#[test]
fn planned_critic_preserves_diversity_and_records_role_mapping() {
    let text = proposal()
        .replace("\"writing\"", "\"code_generation\"")
        .replace("\"single\"", "\"generator_critic\"");
    let pass = r#"{"status":"pass","checks":[],"evidence":[],"defects":[],"action":"accept"}"#;
    let mut config = one_model();
    let mut critic = config.models[0].clone();
    critic.id = "other".into();
    config.models.push(critic);
    let script = vec![output(&text, true), output("{}", true), output(pass, true)];
    let mut host = setup(script, config);
    let mut sub = submission();
    sub.constraints.different_critic = true;
    host.run(sub.clone()).unwrap();
    let routing = host.routing.as_ref().unwrap();
    let critic = routing.nodes.get("critic").unwrap();
    let quality = critic.qualities.get("other").unwrap();
    assert_eq!(quality.requested.task_type, TaskType::CodeReview);
    assert_ne!(host.requests[1].model.id, host.requests[2].model.id);
    assert!(host.requests[2].tools.is_empty());
    assert_eq!(host.saved(&sub.task_id).ledger.calls, 3);
}

#[test]
fn dispatched_planning_timeout_falls_back_and_retains_unknown_cost() {
    let mut host = setup(vec![Script::TimeOut, output("{}", true)], one_model());
    let sub = with_fallback();
    let result = host.run(sub.clone()).unwrap();
    assert_eq!(result.status, "completed");
    let planner = &host.records()[0].attempts[0];
    assert_eq!(planner.line.state, "unresolved");
    assert_eq!(planner.line.cost, None);
    assert!(planner.line.amount > 0);
    let outcome = planner.outcome.as_ref().unwrap();
    assert!(is_text(at(outcome, &["call_metrics", "status"]), "timed_out"));
    assert_eq!(host.saved(&sub.task_id).ledger.calls, 2);
    assert_eq!(host.requests[0].node, "planner");
    assert_eq!(host.requests[1].node, "invoke");
}

#[test]
fn undispatched_timeout_settles_zero_and_global_deadline_never_falls_back() {
    for global in [false, true] {
        let mut host = setup(vec![output("{}", true)], one_model());
        let mut sub = with_fallback();
        sub.planning.timeout_ms = 100;
        if global {
            sub.deadline_ms = 1_001_500;
            sub.finalization_ms = 10;
        }
        host.after_reserve = Some(if global { 1_001_490 } else { 1_000_101 });
        let result = host.run(sub.clone());
        if global {
            assert_eq!(result.unwrap_err().kind, "deadline");
            assert!(host.requests.is_empty());
        } else {
            assert_eq!(result.unwrap().status, "completed");
            assert_eq!(host.requests[0].node, "invoke");
        }
        let row = host.saved(&sub.task_id);
        assert_eq!(row.attempts[0].line.cost, Some(0));
        let outcome = row.attempts[0].outcome.as_ref().unwrap();
        assert_eq!(at(outcome, &["not_dispatched"]).unwrap().to_text(), "true");
        assert!(host.requests.iter().all(|r| r.node != "planner"));
        assert_eq!(row.ledger.calls, if global { 1 } else { 2 });
        assert_eq!(row.ledger.reserved, 0);
    }
}

fn deciding() -> Config {
    let mut config = one_model();
    config.models[0].execution_class = ExecutionClass::Hard;
    config.decision = Some(DecisionConfig {
        question_set_version: "demand-v1".into(),
        questions: vec![DecisionQuestion {
            id: "reasoning_need".into(),
            kind: DecisionQuestionKind::Choice {
                options: vec!["direct".into(), "multi_step".into()],
            },
        }],
        policy: DecisionPolicy {
            version: "policy-v1".into(),
            rules: vec![DecisionPolicyRule {
                question_id: "reasoning_need".into(),
                outcome: "multi_step".into(),
                outcome_score: None,
                minimum_probability: float(0.5),
                threshold_text: "0.500".into(),
                execution_class: ExecutionClass::Hard,
                needs_clarification: false,
            }],
        },
        max_cost: 500,
    });
    config
}

fn assessment(likely: f64, other: f64, cost: Option<u64>) -> DecisionAssessment {
    let mut probabilities = TextMap::new();
    probabilities.insert("direct".to_owned(), float(other));
    probabilities.insert("multi_step".to_owned(), float(likely));
    DecisionAssessment {
        question_set_version: "demand-v1".into(),
        adapter_id: "fake-v1".into(),
        actual_model: "fake-model-v1".into(),
        signals: vec![DecisionSignal {
            question_id: "reasoning_need".into(),
            value: DecisionValue::Choice("multi_step".into()),
            probabilities,
            probability_total: float(likely + other),
            confidence: Some(float(0.9)),
        }],
        actual_cost: cost,
    }
}

#[test]
fn a_decision_shares_the_ledger_and_raises_the_execution_class() {
    let mut host = setup(vec![output("{}", true)], deciding());
    host.assessment = Some(assessment(0.75, 0.25, Some(40)));
    let sub = explicit();
    let result = host.run(sub.clone()).unwrap();
    let row = host.saved(&sub.task_id);
    assert_eq!(row.ledger.calls, 2);
    assert_eq!(result.settled_cost, 55);
    assert!(is_text(member(Some(&row.attempts[0].metadata), "kind"), "decision"));
    let routing = host.routing.as_ref().unwrap();
    assert_eq!(routing.minimum_execution_class, ExecutionClass::Hard);
}

#[test]
fn a_refused_decision_keeps_its_reservation_and_ends_the_task() {
    let mut host = setup(vec![], deciding());
    host.assessment = Some(assessment(0.75, 0.75, Some(40)));
    let sub = explicit();
    let error = host.run(sub.clone()).unwrap_err();
    assert_eq!(error.kind, "decision");
    let row = host.saved(&sub.task_id);
    assert_eq!(row.ledger.reserved, 500);
    assert_eq!(row.attempts[0].line.state, "unresolved");
    let outcome = row.attempts[0].outcome.as_ref().unwrap();
    assert!(is_text(at(outcome, &["error", "kind"]), "decision"));
}

fn feedback(result: &TaskResult) -> Feedback {
    Feedback {
        feedback_id: id(),
        task_id: result.task_id.clone(),
        artifact_id: result.artifact.artifact_id.clone(),
        kind: FeedbackKind::BusinessAcceptance,
        evaluator_version: "1".into(),
        accepted: false,
        reason: "Host rejected greeting".into(),
    }
}

impl Host {
    /// Saves feedback, and counts it for the model that it is about.
    fn record_feedback(&mut self, feedback: &Feedback) -> Result<(), EngineError> {
        let payload = format!("{feedback:?}");
        let saved = self
            .feedback
            .iter()
            .find(|(f, _)| f.feedback_id == feedback.feedback_id)
            .map(|(_, payload)| payload.as_str());
        let duplicate = self
            .feedback
            .iter()
            .any(|(f, _)| f.artifact_id == feedback.artifact_id && f.kind == feedback.kind);
        let row = self.rows.iter().find(|r| r.task_id == feedback.task_id);
        let plan = row.map(|r| r.plan.to_text());
        let record = row.and_then(|r| {
            r.records
                .iter()
                .find(|e| e.artifact.artifact_id == feedback.artifact_id)
        });
        let artifact = match (row, &plan, record) {
            (Some(row), Some(plan), Some(record)) => Some(SavedArtifact {
                status: &row.status,
                plan,
                record: Some(record),
            }),
            _ => None,
        };
        let metadata = feedback_target(feedback, artifact.as_ref())
            .ok()
            .and_then(|attempt| row?.attempts.iter().find(|a| a.id == attempt))
            .map(|a| a.metadata.to_text());
        let decided = decide_feedback(
            feedback,
            &payload,
            saved,
            artifact.as_ref(),
            metadata.as_deref(),
            duplicate,
        )?;
        if let Some(key) = decided {
            self.feedback.push((feedback.clone(), payload));
            self.quality.revision += 1;
            self.quality.quality.push(QualityStatistics {
                key,
                kind: feedback.kind,
                accepted: u64::from(feedback.accepted),
                samples: 1,
            });
        }
        Ok(())
    }
}

/// What the routing snapshot holds on a model's quality at a node.
fn quality_evidence<'a>(host: &'a Host, node: &str, model: &str) -> Option<&'a QualityProfile> {
    let routing = host.routing.as_ref().unwrap();
    let qualities = &routing.nodes.get(node).unwrap().qualities;
    qualities.get(model).unwrap().evidence.as_ref()
}

#[test]
fn invalid_feedback_does_not_write_and_versions_are_isolated() {
    let mut host = setup(vec![output("{}", true), output("{}", true)], one_model());
    let result = host.run(explicit()).unwrap();
    let good = feedback(&result);
    for field in ["task", "artifact", "version", "critic"] {
        let mut invalid = good.clone();
        match field {
            "task" => invalid.task_id = id(),
            "artifact" => invalid.artifact_id = id(),
            "version" => invalid.evaluator_version = "2".into(),
            _ => invalid.kind = FeedbackKind::CriticCorrectness,
        }
        assert_eq!(host.record_feedback(&invalid).unwrap_err().kind, "feedback");
    }
    assert_eq!(host.quality.revision, 0);
    host.record_feedback(&good).unwrap();
    let mut next = explicit();
    next.acceptance.version = "2".into();
    host.run(next).unwrap();
    assert!(quality_evidence(&host, "invoke", "local").is_none());
}

#[test]
fn feedback_is_idempotent_persistent_and_only_changes_future_snapshots() {
    let mut host = setup(vec![output("{}", true), output("{}", true)], one_model());
    let result = host.run(explicit()).unwrap();
    let original = host.saved(&result.task_id).plan.to_text();
    assert!(host.quality.quality.is_empty());
    assert_eq!(host.saved(&result.task_id).status, "completed");
    let before = host.metrics();
    assert_eq!(before[0].statistics.succeeded, 1);
    assert_eq!(before[0].statistics.latency_samples, 1);
    assert_eq!(before[0].statistics.known_cost, host.saved(&result.task_id).ledger.settled);
    let mean = float(before[0].latency_total as f64);
    let summary = before[0].clone().summarize(mean);
    assert_eq!(summary.mean_latency_ms.map(value), Some(5.0));
    let counts = vec![StatusCount {
        status: host.saved(&result.task_id).status.clone(),
        count: 1,
    }];
    assert_eq!(tasks(&counts).completed, 1);
    let good = feedback(&result);
    host.record_feedback(&good).unwrap();
    host.record_feedback(&good).unwrap();
    assert_eq!(host.quality.revision, 1);
    let counted = &host.quality.quality[0];
    assert_eq!((counted.samples, counted.accepted), (1, 0));
    assert_eq!(counted.key.model_id, "local");
    assert_eq!(counted.key.task_type, TaskType::Writing);
    assert_eq!(host.saved(&result.task_id).plan.to_text(), original);
    host.run(explicit()).unwrap();
    assert_eq!(host.routing.as_ref().unwrap().feedback_revision, 1);
    assert_eq!(quality_evidence(&host, "invoke", "local").unwrap().samples, 1);
    let mut conflict = good.clone();
    conflict.accepted = true;
    assert_eq!(host.record_feedback(&conflict).unwrap_err().kind, "feedback");
    conflict.feedback_id = id();
    assert_eq!(host.record_feedback(&conflict).unwrap_err().kind, "feedback");
    assert_eq!(host.quality.revision, 1);
    let records = &host.saved(&result.task_id).records;
    assert_eq!(records.len(), 1);
    assert!(records[0].critic.is_none());
    let saved = records[0].to_json().to_text();
    assert_eq!(parse(&saved).unwrap().to_text(), saved);
    let (_, failed) = shut(&host.config, &mut host.lifecycle, &[true]);
    assert!(failed.is_none());
    assert_eq!(host.lifecycle.check_open().unwrap_err().kind, "closed");
}

#[test]
fn live_feedback_changes_selection_but_model_versions_do_not_mix() {
    let mut config = one_model();
    let mut other = config.models[0].clone();
    other.id = "other".into();
    config.models.push(other);
    let mut host = setup(vec![output("{}", true), output("{}", true)], config);
    let first = host.run(explicit()).unwrap();
    let plan = host.plan.clone().unwrap();
    assert_eq!(host.models(), ["local"]);
    host.record_feedback(&feedback(&first)).unwrap();
    host.run(explicit()).unwrap();
    assert_eq!(host.models(), ["local", "other"]);
    let mut config = host.config.clone();
    config.models[0].version = "new-version".into();
    host.routing = Some(capture(&config, &mut plan.clone(), host.now, &host.quality));
    assert!(quality_evidence(&host, "invoke", "local").is_none());
}

#[test]
fn critic_verdict_and_business_acceptance_are_independent() {
    let verdict = r#"{"status":"revise","checks":[],"evidence":[],"defects":["wrong"],"action":"revise"}"#;
    let mut host = setup(vec![output("{}", true), output(verdict, true)], one_model());
    let mut sub = explicit();
    sub.strategy = Some(Strategy::GeneratorCritic);
    sub.max_rounds = 1;
    let result = host.run(sub).unwrap();
    assert_eq!(result.status, "human_required");
    let record = &host.saved(&result.task_id).records[0];
    assert_eq!(record.deterministic.status, EvaluationStatus::Pass);
    let critic = record.critic.as_ref().unwrap();
    assert_eq!(critic.evaluation.status, EvaluationStatus::Revise);
    assert!(host.quality.quality.is_empty());
    let business = feedback(&result);
    host.record_feedback(&business).unwrap();
    let mut judged = business.clone();
    judged.feedback_id = id();
    judged.kind = FeedbackKind::CriticCorrectness;
    judged.accepted = true;
    host.record_feedback(&judged).unwrap();
    let quality = &host.quality.quality;
    assert_eq!(quality.len(), 2);
    assert!(quality.iter().any(|s| s.kind == FeedbackKind::CriticCorrectness
        && s.accepted == 1
        && s.key.role == "critic"));
    assert!(quality.iter().any(|s| s.kind == FeedbackKind::BusinessAcceptance
        && s.accepted == 0
        && s.key.role == "generator"));
}

fn profile(model: &str, kind: TaskType, role: &str, prior: f64) -> QualityProfile {
    QualityProfile {
        model_id: model.into(),
        model_version: "1".into(),
        task_type: kind,
        role: role.into(),
        evaluator_version: "1".into(),
        prior: float(prior),
        prior_weight: float(10.0),
        accepted: 0,
        samples: 0,
    }
}

/// Two models that only their profiles tell apart.
fn typed_config(profiles: Vec<QualityProfile>) -> Config {
    let mut out = config();
    out.planner_models = names(&["local"]);
    out.routing_profiles.as_mut().unwrap().profiles = profiles;
    out
}

#[test]
fn cascade_uses_frozen_quality_and_persists_replay_inputs() {
    let mut config = typed_config(vec![
        profile("local", TaskType::Writing, "invoke", 0.6),
        profile("other", TaskType::Writing, "invoke", 0.9),
    ]);
    config.models[0].acceptance = float(0.99);
    config.models[1].acceptance = float(0.1);
    config.models[0].input_price = 0;
    config.models[0].output_price = 0;
    config.weights = weights([1.0, 0.0, 0.0, 100.0, 0.0, 0.0], "quality-only");
    let script = vec![output("{}", true), output(r#"{"answer":"hello"}"#, true)];
    let mut host = setup(script, config);
    let mut sub = submission();
    sub.task_type = Some(TaskType::Writing);
    sub.strategy = Some(Strategy::Cascade);
    sub.acceptance.required_substrings = vec!["hello".into()];
    let result = host.run(sub.clone()).unwrap();
    assert_eq!(result.status, "completed");
    assert_eq!(host.saved(&sub.task_id).ledger.calls, 2);
    assert_eq!(host.models(), ["local", "other"]);
    let snapshot = host.routing.as_ref().unwrap();
    let plan = host.plan.as_ref().unwrap();
    assert_eq!(plan.routing_profile_version, snapshot.profile_version);
    let task = sub.task(Strategy::Cascade);
    let health = TextMap::new();
    assert_eq!(host.routes.len(), 2);
    for stored in &host.routes {
        let request = RouteRequest {
            task: &task,
            node: &stored.decision.node_id,
            input_tokens: stored.decision.estimated_input,
            available: stored.available,
            excluded: &stored.excluded,
            quality_floor: stored.floor,
            health: &health,
            health_encoded: b"{}",
        };
        let again =
            route_profiled(snapshot, &request, &valuations(snapshot, &request), &encoded(snapshot))
                .unwrap();
        assert_eq!(stored.decision.model_id, again.model_id);
        assert_eq!(stored.decision.score.bits, again.score.bits);
        let hash = model_collaboration_engine::contracts::digest(&encoded(snapshot));
        assert_eq!(stored.decision.routing_snapshot, Some(hash));
    }
}

#[test]
fn critic_uses_code_review_profile_and_host_mapping_is_versioned() {
    let verdict = r#"{"status":"pass","checks":[],"evidence":[],"defects":[],"action":"accept"}"#;
    for override_mapping in [false, true] {
        let mut config = typed_config(vec![
            profile("local", TaskType::CodeGeneration, "generator", 0.99),
            profile("other", TaskType::CodeReview, "critic", 0.99),
            profile("local", TaskType::Reasoning, "invoke", 0.99),
        ]);
        if override_mapping {
            let profiles = config.routing_profiles.as_mut().unwrap();
            profiles.role_mappings.push(RoleMapping {
                task_type: TaskType::CodeGeneration,
                node: "critic".into(),
                profile: RoleProfile {
                    task_type: TaskType::Reasoning,
                    role: "invoke".into(),
                },
            });
        }
        let mut host = setup(vec![output("{}", true), output(verdict, true)], config);
        let mut sub = submission();
        sub.task_type = Some(TaskType::CodeGeneration);
        sub.strategy = Some(Strategy::GeneratorCritic);
        sub.constraints.different_critic = false;
        assert_eq!(host.run(sub).unwrap().status, "completed");
        let critic = if override_mapping { "local" } else { "other" };
        assert_eq!(host.models(), ["local", critic]);
        assert!(host.requests[1].tools.is_empty());
        let expected = if override_mapping {
            TaskType::Reasoning
        } else {
            TaskType::CodeReview
        };
        let plan = host.plan.as_ref().unwrap();
        assert_eq!(plan.role_profiles.get("critic").unwrap().task_type, expected);
    }
}

#[test]
fn planner_stays_global_while_execution_is_typed() {
    let config = typed_config(vec![profile("other", TaskType::Writing, "invoke", 0.99)]);
    let mut host = setup(vec![output(&proposal(), true), output("{}", true)], config);
    host.run(submission()).unwrap();
    assert_eq!(host.requests[0].node, "planner");
    assert_eq!(host.models(), ["local", "other"]);
}

#[test]
fn typed_cancellation_keeps_snapshot_and_unresolved_reservation() {
    let mut host = setup(vec![Script::Cancel], typed_config(vec![]));
    let mut sub = submission();
    sub.task_type = Some(TaskType::Writing);
    sub.strategy = Some(Strategy::Single);
    assert_eq!(host.run(sub.clone()).unwrap_err().kind, "cancelled");
    assert!(host.saved(&sub.task_id).ledger.reserved > 0);
    assert!(host
        .records()
        .iter()
        .any(|r| at(&r.plan, &["routing_snapshot", "profile_version"]).is_some()));
}

#[test]
fn explicit_task_uses_general_profiles_and_persists_a_plan() {
    let config = typed_config(vec![profile("other", TaskType::General, "invoke", 0.99)]);
    let mut host = setup(vec![output("{}", true)], config);
    let mut input = task();
    input.task_id = id();
    input.deadline_ms = host.now + 30_000;
    host.run_task(input.clone()).unwrap();
    assert_eq!(host.requests.len(), 1);
    assert_eq!(host.models(), ["other"]);
    let row = host.saved(&input.task_id);
    assert_eq!(at(&row.plan, &["planning", "skipped"]).unwrap().to_text(), "true");
    assert!(is_text(at(&row.plan, &["effective_plan", "task_type"]), "general"));
    let routing = host.routing.as_ref().unwrap();
    let qualities = &routing.nodes.get("invoke").unwrap().qualities;
    assert_eq!(qualities.get("other").unwrap().fallback, FallbackTier::Exact);
}

#[test]
fn planner_and_unknown_cost_calls_are_accounted_without_quality_samples() {
    let script = vec![output(&proposal(), false), output("{}", true)];
    let mut host = setup(script, one_model());
    let result = host.run(submission()).unwrap();
    let metrics = host.metrics();
    assert_eq!(metrics.len(), 2);
    let total = |f: fn(&CallGroup) -> u64| metrics.iter().map(f).sum::<u64>();
    assert_eq!(total(|g| g.statistics.attempts), 2);
    assert_eq!(total(|g| g.statistics.unresolved_reserved), result.reserved_cost);
    assert_eq!(total(|g| g.statistics.known_cost), result.settled_cost);
    assert!(host.quality.quality.is_empty());
}

#[test]
fn cancelled_critic_retains_candidate_but_no_invented_critic_verdict() {
    let mut host = setup(vec![output("{}", true), Script::Cancel], one_model());
    let mut sub = explicit();
    sub.strategy = Some(Strategy::GeneratorCritic);
    let task_id = sub.task_id.clone();
    assert_eq!(host.run(sub).unwrap_err().kind, "cancelled");
    let records = &host.saved(&task_id).records;
    assert_eq!(records.len(), 1);
    assert!(records[0].critic.is_none());
    let cancelled: u64 = host.metrics().iter().map(|c| c.statistics.cancelled).sum();
    assert_eq!(cancelled, 1);
    let late = Feedback {
        feedback_id: id(),
        task_id: task_id.clone(),
        artifact_id: records[0].artifact.artifact_id.clone(),
        kind: FeedbackKind::BusinessAcceptance,
        evaluator_version: "1".into(),
        accepted: false,
        reason: "cancelled".into(),
    };
    assert_eq!(host.saved(&task_id).status, "cancelled");
    host.row(&task_id).status = "running".into();
    assert_eq!(host.record_feedback(&late).unwrap_err().kind, "feedback");
    host.row(&task_id).status = "cancelled".into();
    host.record_feedback(&late).unwrap();
}

#[test]
fn failed_model_attempt_keeps_metrics_and_reservation() {
    let script = vec![Script::Reply(Err(EngineError::new("model", "network failed")))];
    let mut host = setup(script, one_model());
    let mut sub = explicit();
    sub.max_attempts = 1;
    let task_id = sub.task_id.clone();
    assert!(host.run(sub).is_err());
    let metrics = host.metrics();
    assert_eq!(metrics[0].statistics.failed, 1);
    let row = host.saved(&task_id);
    assert_eq!(metrics[0].statistics.unresolved_reserved, row.ledger.reserved);
    assert!(row.records.is_empty());
    assert_eq!(row.status, "failed");
    assert!(host.quality.quality.is_empty());
}

#[test]
fn zero_reservation_does_not_hide_unknown_usage() {
    let mut config = one_model();
    config.models[0].input_price = 0;
    config.models[0].output_price = 0;
    let mut host = setup(vec![output("{}", false)], config);
    let result = host.run(explicit()).unwrap();
    assert_eq!(result.reserved_cost, 0);
    let metrics = host.metrics();
    assert_eq!(metrics[0].statistics.unknown_cost_attempts, 1);
    assert_eq!(metrics[0].statistics.unresolved_reserved, 0);
}

#[test]
fn reconciliation_preserves_outcome_metrics_and_is_idempotent() {
    for (status, cost) in [("succeeded", 15), ("cancelled", 0), ("timed_out", 150)] {
        let mut host = setup(vec![], one_model());
        let mut task = task();
        task.task_id = "reconciled".into();
        host.rows.push(Row {
            task_id: task.task_id.clone(),
            status: "running".into(),
            ledger: Ledger {
                total: 1000,
                settled: 0,
                reserved: 0,
                calls: 0,
            },
            attempts: vec![],
            checkpoint: Json::Null,
            plan: Json::Null,
            result: None,
            records: vec![],
        });
        let metadata =
            parse(r#"{"route":{"model_id":"local","model_version":"1","node_id":"invoke"}}"#);
        host.reserve(&task, "attempt".into(), 100, metadata.unwrap())
            .unwrap();
        let original = format!(
            r#"{{"request_id":"provider-request","planning_output":{{"text":"evidence"}},"error":{{"kind":"test"}},"call_metrics":{{"status":"{status}","latency_ms":42}}}}"#
        );
        let outcome = SettlementEvidence::Invocation(parse(&original).unwrap());
        host.settle("reconciled", "attempt", None, outcome).unwrap();
        let before = host.metrics().remove(0);
        let reconcile = |host: &mut Host, cost: u64, evidence: &str| {
            check_evidence(evidence)?;
            let saved = host.saved("reconciled").attempts[0].outcome.clone();
            host.settle(
                "reconciled",
                "attempt",
                Some(cost),
                SettlementEvidence::Reconciliation {
                    evidence: evidence.into(),
                    saved: saved.map(|o| o.to_text()),
                },
            )
        };
        assert_eq!(reconcile(&mut host, cost, "  ").unwrap_err().kind, "recovery");
        let result = reconcile(&mut host, cost, "verified invoice");
        if cost > 100 {
            assert_eq!(result.unwrap_err().kind, "budget");
            let row = host.saved("reconciled");
            assert_eq!(row.attempts[0].line.state, "settled");
        } else {
            result.unwrap();
        }
        reconcile(&mut host, cost, "verified invoice").unwrap();
        assert_eq!(
            reconcile(&mut host, cost + 1, "conflict").unwrap_err().kind,
            "storage"
        );
        let after = host.metrics().remove(0);
        assert_eq!(after.statistics.succeeded, before.statistics.succeeded);
        assert_eq!(after.statistics.cancelled, before.statistics.cancelled);
        assert_eq!(after.statistics.timed_out, before.statistics.timed_out);
        assert_eq!(after.latency_total, 42);
        assert_eq!(after.statistics.latency_samples, 1);
        assert_eq!(after.statistics.known_cost, cost);
        assert_eq!(after.statistics.unknown_cost_attempts, 0);
        let row = host.saved("reconciled");
        let ledger = &row.ledger;
        assert_eq!((ledger.settled, ledger.reserved, ledger.calls), (cost, 0, 1));
        let outcome = row.attempts[0].outcome.as_ref().unwrap();
        let first = parse(&original).unwrap();
        for name in ["request_id", "planning_output", "error", "call_metrics"] {
            assert_eq!(
                at(outcome, &[name]).unwrap().to_text(),
                at(&first, &[name]).unwrap().to_text()
            );
        }
        assert!(is_text(
            member(Some(outcome), "reconciliation_evidence"),
            "verified invoice"
        ));
    }
}

#[test]
fn close_cancels_active_model_and_releases_database_after_accounting() {
    let mut lifecycle = Lifecycle::new();
    lifecycle.enter("run-1", "task").unwrap();
    assert!(lifecycle.check_open().is_ok());
    assert!(lifecycle.begin_close());
    assert!(!lifecycle.is_drained());
    assert_eq!(lifecycle.runs(), vec!["run-1"]);
    assert!(!lifecycle.finish_close());
    let mut host = setup(vec![Script::Cancel], two_models());
    assert_eq!(host.run_task(given(Strategy::Single)).unwrap_err().kind, "cancelled");
    assert!(host.records()[0].ledger.reserved > 0);
    lifecycle.leave("run-1");
    assert!(lifecycle.is_drained());
    assert!(lifecycle.finish_close());
    assert!(!lifecycle.begin_close());
    let refused = lifecycle.enter("run-2", "late").unwrap_err();
    assert_eq!(refused.kind, "closed");
    assert_eq!(refused.task_id.as_deref(), Some("late"));
    assert_eq!(lifecycle.check_open().unwrap_err().kind, "closed");
}

#[test]
fn close_allows_graceful_completion_and_rejects_queued_tasks() {
    let mut lifecycle = Lifecycle::new();
    lifecycle.enter("running", "a").unwrap();
    lifecycle.enter("queued", "b").unwrap();
    assert!(lifecycle.begin_close());
    assert_eq!(check_queue(Queued::Closed, "b").unwrap_err().kind, "closed");
    lifecycle.leave("queued");
    assert!(!lifecycle.is_drained());
    let mut host = setup(vec![output("accepted", true)], two_models());
    assert_eq!(host.run_task(given(Strategy::Single)).unwrap().status, "completed");
    lifecycle.leave("running");
    assert!(lifecycle.finish_close());
}

#[test]
fn cleanup_timeout_retains_ownership_until_retry() {
    let mut lifecycle = Lifecycle::new();
    lifecycle.enter("slow", "task").unwrap();
    assert!(lifecycle.begin_close());
    assert!(!lifecycle.finish_close());
    assert_eq!(cleanup_timeout().kind, "cleanup_timeout");
    assert!(lifecycle.begin_close());
    lifecycle.leave("slow");
    assert!(lifecycle.finish_close());
}

#[test]
fn waiting_for_a_slot_ends_in_one_of_four_ways() {
    assert!(check_queue(Queued::Granted, "t").is_ok());
    let cancelled = check_queue(Queued::Cancelled, "t").unwrap_err();
    assert_eq!(cancelled.message, "task cancelled while queued");
    assert_eq!(cancelled.task_id.as_deref(), Some("t"));
    let late = check_queue(Queued::TimedOut, "t").unwrap_err();
    assert_eq!(late.kind, "deadline");
    assert_eq!(late.task_id, None);
}

#[test]
fn a_decision_needs_a_model_to_decide() {
    assert!(check_assembly(&two_models(), false).is_ok());
    assert!(check_assembly(&deciding(), true).is_ok());
    let error = check_assembly(&deciding(), false).unwrap_err();
    assert_eq!(error.kind, "decision");
    let mut config = two_models();
    config.models = vec![];
    assert_eq!(check_assembly(&config, true).unwrap_err().kind, "configuration");
}

#[test]
fn execution_time_leaves_room_to_finish() {
    let mut task = given(Strategy::Single);
    task.deadline_ms = 1000;
    task.finalization_ms = 100;
    assert_eq!(cutoff_ms(&task), 900);
    assert_eq!(remaining_ms(&task, 850), 50);
    assert_eq!(remaining_ms(&task, 900), 0);
    assert_eq!(dispatch_time(&task, false, 850), Some(50));
    assert_eq!(dispatch_time(&task, true, 850), None);
    assert_eq!(dispatch_time(&task, false, 900), None);
    assert_eq!(dispatch_refusal(true).kind, "cancelled");
    assert_eq!(dispatch_refusal(false).kind, "deadline");
    task.finalization_ms = 2000;
    assert_eq!(cutoff_ms(&task), 0);
}

#[test]
fn planning_never_outlives_its_task_or_its_stage() {
    let sub = submission();
    let task = sub.provisional_task();
    assert_eq!(stage_deadline(&task, &sub, 1_000_000), 1_005_000);
    assert_eq!(stage_deadline(&task, &sub, 1_029_000), 1_029_900);
    let phase = planning_phase(&task, &sub, 1_005_000);
    assert_eq!(phase.deadline_ms, 1_005_000);
    assert_eq!(phase.finalization_ms, 0);
    assert_eq!(phase.max_call_cost, 20_000);
    assert!(phase.tools.is_empty());
    assert!(phase.constraints.required_capabilities.contains("json"));
    let ledger = Ledger {
        total: 30_000,
        settled: 15_000,
        reserved: 0,
        calls: 1,
    };
    assert_eq!(planning_available(&ledger, &sub), 15_000);
}

#[test]
fn resources_are_checked_before_each_stage() {
    let task = submission().provisional_task();
    assert!(check_time(&task, false, 1_000_000).is_ok());
    assert_eq!(check_time(&task, true, 1_000_000).unwrap_err().kind, "cancelled");
    assert_eq!(check_time(&task, false, 1_029_900).unwrap_err().kind, "deadline");
    let ledger = |settled: u64, calls: u32| Ledger {
        total: 100,
        settled,
        reserved: 0,
        calls,
    };
    assert!(check_budget(&task, &ledger(99, 0)).is_ok());
    assert_eq!(check_budget(&task, &ledger(100, 0)).unwrap_err().kind, "budget");
    assert_eq!(
        check_budget(&task, &ledger(0, task.max_calls)).unwrap_err().kind,
        "budget"
    );
    let free = Ledger {
        total: 0,
        settled: 0,
        reserved: 0,
        calls: 0,
    };
    assert!(check_budget(&task, &free).is_ok());
}

#[test]
fn some_failures_of_planning_allow_no_fallback() {
    for kind in ["cancelled", "deadline", "budget", "storage"] {
        assert!(!may_fall_back(&EngineError::new(kind, "")));
    }
    for kind in ["planning", "plan_validation", "model", "protocol"] {
        assert!(may_fall_back(&EngineError::new(kind, "")));
    }
}

#[test]
fn a_proposal_only_strengthens_what_the_host_asks() {
    let sub = submission();
    let read = read_proposal(&proposal()).unwrap();
    let plan = validate_plan(&sub, Some(("proposal", &read)), None, b"bytes").unwrap();
    assert_eq!(plan.task_type, TaskType::Writing);
    assert_eq!(plan.proposal_id.as_deref(), Some("proposal"));
    assert!(plan.acceptance.json_object && plan.acceptance.nonempty);
    assert!(plan.constraints.required_capabilities.contains("text"));
    assert!(plan.constraints.local_only);
    let mut stronger = read.clone();
    stronger.suggested_acceptance.required_substrings = vec!["hello".into()];
    let plan = validate_plan(&sub, Some(("proposal", &stronger)), None, b"bytes").unwrap();
    assert_eq!(plan.acceptance.required_substrings, vec!["hello"]);
    let mut unknown = read.clone();
    unknown.required_capabilities = names(&["shell"]);
    assert_eq!(
        validate_plan(&sub, Some(("proposal", &unknown)), None, b"").unwrap_err().kind,
        "plan_validation"
    );
}

#[test]
fn tool_batches_are_bounded_and_named_once() {
    let task = tool_task();
    let call = |id: &str, name: &str| ToolCall {
        id: id.into(),
        name: name.into(),
        arguments: ObjectBuilder::new().build(),
    };
    let none = TextSet::new();
    assert!(check_batch(&vec![call("a", "lookup")], &task.tools, &none).is_ok());
    for batch in [
        vec![call("", "lookup")],
        vec![call("a", "lookup"), call("a", "lookup")],
        vec![call("a", "else")],
    ] {
        assert_eq!(check_batch(&batch, &task.tools, &none).unwrap_err().kind, "protocol");
    }
    assert!(check_batch(&vec![call("a", "lookup")], &task.tools, &names(&["a"])).is_err());
    let many: Vec<ToolCall> = (0..129).map(|i| call(&format!("c{i}"), "lookup")).collect();
    assert!(check_batch(&many, &task.tools, &none).is_err());
    assert_eq!(find_tool(&task.tools, "lookup"), Some(0));
    assert_eq!(find_tool(&task.tools, "else"), None);
}

#[test]
fn the_reason_of_a_stopped_upgrade_is_the_best_candidate() {
    let reason = |excluded: &str| {
        let details = parse(&format!(r#"{{"category":"no_candidate","excluded":{excluded}}}"#));
        upgrade_stop_reason(&EngineError::new("routing", "none").details(details.unwrap()))
    };
    assert_eq!(reason("{}"), "no_quality_improvement");
    assert_eq!(reason(r#"{"a":["quality_floor","budget"]}"#), "no_quality_improvement");
    assert_eq!(reason(r#"{"a":["budget"],"b":["quality_floor"]}"#), "budget");
    assert_eq!(reason(r#"{"a":["region"],"b":["quality_floor"]}"#), "constraints");
    assert_eq!(
        reason(r#"{"a":["attempt_history_or_diversity"]}"#),
        "no_quality_improvement"
    );
}

#[test]
fn a_critic_may_not_pass_an_artifact_with_defects() {
    let verdict = |text: &str| critic_verdict("attempt", read_evaluation(text));
    let pass = r#"{"status":"pass","checks":[],"evidence":[],"defects":[],"action":"accept"}"#;
    assert_eq!(verdict(pass).unwrap().attempt_id, "attempt");
    let odd = pass.replace("\"defects\":[]", "\"defects\":[\"x\"]");
    assert_eq!(
        verdict(&odd).unwrap_err().message,
        "critic passed an artifact with unresolved defects"
    );
    assert_eq!(
        verdict("nothing").unwrap_err().message,
        "critic returned an invalid Evaluation object"
    );
}

#[test]
fn a_submission_of_a_task_makes_that_task_again() {
    let task = tool_task();
    let again = SubmissionSpec::from_task(task.clone()).provisional_task();
    assert_eq!(format!("{again:?}"), format!("{task:?}"));
    assert!(!SubmissionSpec::from_task(task).needs_planning());
    assert!(submission().needs_planning());
}

#[test]
fn a_machine_ignores_what_it_does_not_wait_for() {
    let task = given(Strategy::Single);
    let node = Node::new(&task, "invoke", "{}", &TextSet::new(), 65_536, false);
    let (node, action) = node.step(NodeEvent::ModelReplied {
        reply: Reply::TimedOut,
        latency_ms: 1,
    });
    assert!(matches!(action, NodeAction::Wait));
    let (_, action) = node.step(NodeEvent::Done {
        cancelled: true,
        now: 1,
        fresh: id(),
    });
    assert!(matches!(action, NodeAction::Fail { .. }));
    let execution = Execution::new(&task);
    let (execution, action) = execution.step(ExecutionEvent::Judged {
        attempt: "a".into(),
        evaluation: None,
    });
    assert!(matches!(action, ExecutionAction::Wait));
    let (_, action) = execution.step(ExecutionEvent::Done);
    assert!(matches!(action, ExecutionAction::Invoke { round: 1, .. }));
}

/// Shuts an engine down that ends its runs at the given times.
fn shut(config: &Config, lifecycle: &mut Lifecycle, ends: &[bool]) -> (Vec<String>, Option<EngineError>) {
    let mut ends = ends.iter();
    let mut done = vec![];
    let mut shutdown = Shutdown::new();
    let mut event = ShutdownEvent::Done;
    loop {
        let (next, action) = shutdown.step(config, lifecycle, event);
        shutdown = next;
        event = match action {
            ShutdownAction::Drain { timeout_ms } => {
                done.push(format!("drain {timeout_ms}"));
                if *ends.next().unwrap() {
                    for name in lifecycle.runs() {
                        lifecycle.leave(&name);
                    }
                    ShutdownEvent::Drained
                } else {
                    ShutdownEvent::TimedOut
                }
            }
            ShutdownAction::Cancel { runs } => {
                done.push(format!("cancel {}", runs.join(",")));
                ShutdownEvent::Done
            }
            ShutdownAction::CloseStore => {
                done.push("close".into());
                ShutdownEvent::Done
            }
            ShutdownAction::Return { failed } => return (done, failed),
            ShutdownAction::Wait => panic!("the shutdown waits for something else"),
        };
    }
}

#[test]
fn a_shutdown_closes_the_store_last_and_can_be_tried_again() {
    let mut config = two_models();
    config.close_grace_ms = 7;
    config.cleanup_timeout_ms = 9;
    let mut lifecycle = Lifecycle::new();
    lifecycle.enter("run", "task").unwrap();
    let (done, failed) = shut(&config, &mut lifecycle, &[false, false]);
    assert_eq!(done, vec!["drain 7", "cancel run", "drain 9"]);
    assert_eq!(failed.unwrap().kind, "cleanup_timeout");
    assert_eq!(lifecycle.enter("other", "task").unwrap_err().kind, "closed");
    assert!(!lifecycle.is_drained());
    let (done, failed) = shut(&config, &mut lifecycle, &[true]);
    assert_eq!(done, vec!["drain 7", "close"]);
    assert!(failed.is_none());
    assert!(lifecycle.is_drained());
    let refused = lifecycle.enter("late", "task").unwrap_err();
    assert_eq!((refused.kind.as_str(), refused.task_id.as_deref()), ("closed", Some("task")));
    assert_eq!(lifecycle.check_open().unwrap_err().kind, "closed");
    let (done, failed) = shut(&config, &mut lifecycle, &[]);
    assert!(done.is_empty() && failed.is_none());
}

#[test]
fn a_shutdown_does_not_take_it_on_trust_that_runs_have_ended() {
    let config = two_models();
    let mut lifecycle = Lifecycle::new();
    lifecycle.enter("run", "task").unwrap();
    let (shutdown, action) = Shutdown::new().step(&config, &mut lifecycle, ShutdownEvent::Done);
    assert!(matches!(action, ShutdownAction::Drain { .. }));
    let (shutdown, action) = shutdown.step(&config, &mut lifecycle, ShutdownEvent::Drained);
    assert!(matches!(action, ShutdownAction::Wait));
    lifecycle.leave("run");
    let (shutdown, action) = shutdown.step(&config, &mut lifecycle, ShutdownEvent::Drained);
    assert!(matches!(action, ShutdownAction::CloseStore));
    let error = EngineError::new("storage", "locked");
    let (_, action) = shutdown.step(&config, &mut lifecycle, ShutdownEvent::Broken { error });
    assert!(matches!(action, ShutdownAction::Return { failed: Some(e) } if e.kind == "storage"));
    assert!(lifecycle.begin_close());
}

#[test]
fn a_closed_engine_refuses_a_run_before_anything_is_saved() {
    let mut host = setup(vec![], two_models());
    host.lifecycle.begin_close();
    let error = host.run_task(given(Strategy::Single)).unwrap_err();
    assert_eq!(error.kind, "closed");
    assert!(host.rows.is_empty());
}
