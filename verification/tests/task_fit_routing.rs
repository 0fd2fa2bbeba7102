#![allow(dead_code)]
#![allow(unused_imports)]
#![allow(clippy::too_many_arguments)]
use model_collaboration_engine::assessment::ExecutionClass;
use model_collaboration_engine::binary64::{number, Binary64};
use model_collaboration_engine::contracts::{
    Acceptance, Config, Constraints, EffectivePlan, Endpoint, EngineError, FeedbackKind,
    MetricsSnapshot, Model, ParentEntry, PlanChoice, PlanningConfig, PlanningMode, QualityProfile,
    RankingConfig, RankingEntry, RoleMapping, RoleProfile, RoutingProfiles, SelectionPolicy,
    Strategy, SubmissionSpec, TaskSpec, TaskType, Weights, WeightsEntry,
};
use model_collaboration_engine::router::profiles::{
    apply_profiles, resolve as resolve_quality, EvidenceNumbers, SnapshotEncodings,
};
use model_collaboration_engine::router::rankings::resolve as resolve_ranking;
use model_collaboration_engine::router::{
    route, route_profiled, route_profiled_with_minimum_class, FallbackTier, Health, RankingStatus,
    RouteRequest, RoutingDecision, RoutingSnapshot, Valuation,
};
use model_collaboration_engine::text::{TextMap, TextSet};

fn float(x: f64) -> Binary64 {
    number(x.to_bits())
}

fn value(x: Binary64) -> f64 {
    f64::from_bits(x.bits)
}

fn names(items: &[&str]) -> TextSet {
    let mut out = TextSet::new();
    for item in items {
        out.insert((*item).to_owned());
    }
    out
}

fn weights(parts: [f64; 6], version: &str) -> Weights {
    Weights {
        quality: float(parts[0]),
        capability: float(parts[1]),
        reliability: float(parts[2]),
        cost: float(parts[3]),
        latency: float(parts[4]),
        uncertainty: float(parts[5]),
        total: float(parts.iter().sum()),
        version: version.into(),
    }
}

fn model(id: &str) -> Model {
    Model {
        id: id.into(),
        model: "model-name".into(),
        version: "1".into(),
        endpoint: Endpoint::ChatCompletions,
        base_url: "http://127.0.0.1:8000/v1".into(),
        api_key_env: "MODEL_API_KEY".into(),
        provider: "local".into(),
        region: "local".into(),
        local: true,
        capabilities: names(&["text", "json", "tools"]),
        context_tokens: 32_768,
        input_price: 1,
        output_price: 2,
        price_version: "1".into(),
        acceptance: float(0.8),
        reliability: float(0.9),
        latency_ms: 1000,
        uncertainty: float(0.1),
        execution_class: ExecutionClass::Simple,
    }
}

fn config() -> Config {
    Config {
        database_path: "engine.db".into(),
        models: vec![model("local"), model("other")],
        planner_models: TextSet::new(),
        routing_profiles: Some(RoutingProfiles {
            schema_version: 1,
            version: "test-static-v1".into(),
            parents: vec![],
            role_mappings: vec![],
            weights: vec![],
            profiles: vec![],
        }),
        rankings: None,
        assessment_rules: None,
        decision: None,
        weights: weights([1.0, 0.0, 0.0, 0.0, 0.0, 0.0], "quality-only"),
        max_concurrency: 4,
        event_capacity: 64,
        event_max_bytes: 8192,
        stream_frame_max_bytes: 65_536,
        context_max_bytes: 1_048_576,
        close_grace_ms: 1000,
        cleanup_timeout_ms: 1000,
    }
}

fn policy(min_quality: f64) -> SelectionPolicy {
    SelectionPolicy {
        version: "host-task-fit-v1".into(),
        min_quality: float(min_quality),
        target_quality: float(0.9),
        above_target_factor: float(0.1),
        cost_reference: 10_000,
        latency_reference_ms: 5000,
        min_upgrade_gain: float(0.05),
    }
}

fn constraints(local_only: bool) -> Constraints {
    Constraints {
        allowed_models: TextSet::new(),
        allowed_providers: TextSet::new(),
        allowed_regions: TextSet::new(),
        local_only,
        required_capabilities: TextSet::new(),
        preferred_capabilities: TextSet::new(),
        different_critic: false,
    }
}

fn acceptance() -> Acceptance {
    Acceptance {
        version: "1".into(),
        nonempty: true,
        required_substrings: vec![],
        json_object: false,
    }
}

fn plan(kind: TaskType) -> EffectivePlan {
    let mut role_profiles = TextMap::new();
    role_profiles.insert(
        "invoke".to_owned(),
        RoleProfile {
            task_type: kind,
            role: "invoke".into(),
        },
    );
    EffectivePlan {
        plan_version: 1,
        task_type: kind,
        strategy: Strategy::Single,
        role_profiles,
        constraints: constraints(false),
        acceptance: acceptance(),
        selection: Some(policy(0.0)),
        submission_hash: "test".into(),
        proposal_id: None,
        validator_version: "1".into(),
        routing_profile_version: "global-prior-v1".into(),
        assessment: None,
    }
}

fn task() -> TaskSpec {
    TaskSpec {
        task_id: "example".into(),
        goal: "Write a short answer".into(),
        evidence: vec![],
        strategy: Strategy::Single,
        acceptance: acceptance(),
        selection: policy(0.0),
        constraints: constraints(true),
        budget: 100_000,
        deadline_ms: 60_000,
        output_tokens: 256,
        max_calls: 10,
        max_rounds: 3,
        max_attempts: 2,
        max_call_cost: 50_000,
        finalization_ms: 100,
        tools: vec![],
    }
}

fn posterior(profile: &QualityProfile) -> f64 {
    let weight = value(profile.prior_weight);
    (weight * value(profile.prior) + profile.accepted as f64) / (weight + profile.samples as f64)
}

fn numbers(
    config: &Config,
    plan: &EffectivePlan,
    at_ms: u64,
    metrics: &MetricsSnapshot,
) -> TextMap<Vec<EvidenceNumbers>> {
    let mut plan = plan.clone();
    apply_profiles(config, &mut plan);
    let defaults = RoutingProfiles::default();
    let profiles = config.routing_profiles.as_ref().unwrap_or(&defaults);
    let mut out = TextMap::new();
    for i in 0..plan.role_profiles.len() {
        let node = plan.role_profiles.key_at(i).clone();
        let role = plan.role_profiles.value_at(i);
        let kind = if node == "critic" {
            FeedbackKind::CriticCorrectness
        } else {
            FeedbackKind::BusinessAcceptance
        };
        let mut list = vec![];
        for model in &config.models {
            let found = resolve_quality(
                profiles,
                model,
                role,
                &plan.acceptance.version,
                metrics,
                kind,
                float(0.0),
            );
            let ranked = resolve_ranking(
                config.rankings.as_ref(),
                model,
                role,
                at_ms,
                float(0.0),
                float(0.0),
            );
            let (normalized, contribution) = match (&ranked.entry, &config.rankings) {
                (Some(entry), Some(rankings)) => {
                    let normalized = if rankings.population == 1 {
                        1.0
                    } else {
                        f64::from(rankings.population - entry.rank)
                            / f64::from(rankings.population - 1)
                    };
                    (normalized, value(rankings.weight) * normalized)
                }
                _ => (0.0, 0.0),
            };
            list.push(EvidenceNumbers {
                posterior: float(found.evidence.as_ref().map_or(0.0, posterior)),
                normalized_rank: float(normalized),
                contribution: float(contribution),
            });
        }
        out.insert(node, list);
    }
    out
}

fn capture(config: &Config, plan: &mut EffectivePlan, at_ms: u64) -> RoutingSnapshot {
    let numbers = numbers(config, plan, at_ms, &MetricsSnapshot::default());
    let encodings = SnapshotEncodings {
        rankings: format!("{:?}", config.rankings).into_bytes(),
        feedback: b"[]".to_vec(),
        profiles: format!("{:?}", config.routing_profiles).into_bytes(),
    };
    RoutingSnapshot::capture(config, plan, at_ms, &numbers, &encodings)
}

fn snapshot(config: &Config, kind: TaskType) -> RoutingSnapshot {
    config.validate(false).unwrap();
    capture(config, &mut plan(kind), 10_000)
}

/// The score of a candidate and its parts, added in the order of their names.
fn valuation(
    model: &Model,
    weights: &Weights,
    request: &RouteRequest<'_>,
    quality: f64,
    policy: Option<&SelectionPolicy>,
    ranking: Option<f64>,
    task_fit: bool,
    at_ms: u64,
) -> Valuation {
    let task = request.task;
    let cost = request.input_tokens * model.input_price + task.output_tokens * model.output_price;
    let (calls, failures) = request
        .health
        .get(&model.id)
        .map_or((0, 0), |h| (h.calls, h.failures));
    let reliability = (value(model.reliability) * 10.0 + calls.saturating_sub(failures) as f64)
        / (10.0 + calls as f64);
    let preferred = &task.constraints.preferred_capabilities;
    let capability = if preferred.is_empty() {
        0.0
    } else {
        let held = (0..preferred.len())
            .filter(|i| model.capabilities.contains(preferred.at(*i)))
            .count();
        held as f64 / preferred.len() as f64
    };
    let (value_of_quality, cost_share, latency_share) = match policy {
        Some(p) => {
            let target = value(p.target_quality);
            (
                quality.min(target) + value(p.above_target_factor) * (quality - target).max(0.0),
                -value(weights.cost) * cost as f64 / p.cost_reference as f64,
                -value(weights.latency) * model.latency_ms as f64 / p.latency_reference_ms as f64,
            )
        }
        None => (
            quality,
            -value(weights.cost) * cost as f64 / task.max_call_cost.max(1) as f64,
            -value(weights.latency)
                * (model.latency_ms as f64 / task.deadline_ms.saturating_sub(at_ms).max(1) as f64)
                    .min(1.0),
        ),
    };
    let parts = [
        ("capability", value(weights.capability) * capability),
        ("cost", cost_share),
        ("latency", latency_share),
        ("quality", value(weights.quality) * value_of_quality),
        ("reliability", value(weights.reliability) * reliability),
        (
            "uncertainty",
            -value(weights.uncertainty) * value(model.uncertainty),
        ),
    ];
    let mut breakdown = TextMap::new();
    let mut score = 0.0;
    for (name, part) in parts {
        breakdown.insert(name.to_owned(), float(part));
        if name == "reliability" && !task_fit {
            score += ranking.unwrap_or(0.0);
        }
        score += part;
    }
    Valuation {
        score: float(score),
        breakdown,
    }
}

fn valuations(snapshot: &RoutingSnapshot, request: &RouteRequest<'_>) -> Vec<Valuation> {
    let Some(node) = snapshot.nodes.get(request.node) else {
        return snapshot
            .models
            .iter()
            .map(|_| Valuation {
                score: float(0.0),
                breakdown: TextMap::new(),
            })
            .collect();
    };
    let task_fit = snapshot.schema_version >= 4;
    let policy = if task_fit && request.node != "critic" {
        snapshot.selection.as_ref()
    } else {
        None
    };
    snapshot
        .models
        .iter()
        .map(|model| {
            let quality = node
                .qualities
                .get(&model.id)
                .map_or(0.0, |q| value(q.quality));
            let ranking = if snapshot.schema_version >= 3 {
                node.rankings.get(&model.id).map(|r| value(r.contribution))
            } else {
                None
            };
            valuation(
                model,
                &node.weights,
                request,
                quality,
                policy,
                ranking,
                task_fit,
                snapshot.captured_at_ms,
            )
        })
        .collect()
}

fn encoded(snapshot: &RoutingSnapshot) -> Vec<u8> {
    format!("{snapshot:?}").into_bytes()
}

fn routed(
    snapshot: &RoutingSnapshot,
    task: &TaskSpec,
    node: &str,
    floor: f64,
    health: &TextMap<Health>,
) -> Result<RoutingDecision, EngineError> {
    let excluded = TextSet::new();
    let request = RouteRequest {
        task,
        node,
        input_tokens: 100,
        available: 100_000,
        excluded: &excluded,
        quality_floor: float(floor),
        health,
        health_encoded: b"{}",
    };
    route_profiled(
        snapshot,
        &request,
        &valuations(snapshot, &request),
        &encoded(snapshot),
    )
}

fn pick(snapshot: &RoutingSnapshot, task: &TaskSpec, floor: f64) -> RoutingDecision {
    routed(snapshot, task, "invoke", floor, &TextMap::new()).unwrap()
}

fn excluded_for(decision: &RoutingDecision, model: &str) -> Vec<String> {
    decision.excluded.get(model).unwrap().clone()
}

fn host_policy() -> SelectionPolicy {
    policy(0.75)
}

#[test]
fn selection_policy_accepts_valid_bounds() {
    host_policy().validate().unwrap();
}

#[test]
fn selection_policy_rejects_invalid_bounds_and_unknown_fields() {
    let cases: Vec<(&str, fn(&mut SelectionPolicy))> = vec![
        ("min_quality", |p| p.min_quality = float(0.91)),
        ("target_quality", |p| p.target_quality = float(1.01)),
        ("above_target_factor", |p| p.above_target_factor = float(-0.01)),
        ("cost_reference", |p| p.cost_reference = 0),
        ("latency_reference_ms", |p| p.latency_reference_ms = 0),
        ("min_upgrade_gain", |p| p.min_upgrade_gain = float(0.0)),
    ];
    for (name, change) in cases {
        let mut candidate = host_policy();
        change(&mut candidate);
        assert!(candidate.validate().is_err(), "{name}");
    }
}

#[test]
fn selection_policy_uses_utf8_byte_limit_for_version() {
    let mut candidate = host_policy();
    candidate.version = "模".repeat(86);
    assert!(candidate.validate().is_err());
    candidate.version = "模".repeat(85);
    assert!(candidate.validate().is_ok());
}

fn submission(selection: Option<SelectionPolicy>) -> SubmissionSpec {
    SubmissionSpec {
        schema_version: 2,
        task_id: "example".into(),
        goal: "Write a short answer".into(),
        evidence: vec![],
        task_type: None,
        strategy: Some(Strategy::Single),
        acceptance: acceptance(),
        selection,
        constraints: constraints(true),
        budget: 100_000,
        deadline_ms: 60_000,
        output_tokens: 256,
        max_calls: 10,
        max_rounds: 3,
        max_attempts: 2,
        max_call_cost: 50_000,
        finalization_ms: 100,
        tools: vec![],
        planning: PlanningConfig {
            mode: PlanningMode::Disabled,
            fallback: None,
            max_calls: 1,
            max_cost: 100,
            timeout_ms: 1000,
        },
        task_facts: None,
        minimum_execution_class: ExecutionClass::Simple,
    }
}

#[test]
fn submission_schema_two_requires_and_preserves_selection_policy() {
    let config = config();
    let given = submission(Some(host_policy()));
    given.validate(&config, 500, 500, 30_000).unwrap();
    assert_eq!(given.selection.as_ref().unwrap().version, "host-task-fit-v1");
    let missing = submission(None);
    assert!(missing.validate(&config, 500, 500, 30_000).is_err());
}

#[test]
fn snapshot_schema_four_freezes_selection_and_algorithm() {
    let snapshot = snapshot(&config(), TaskType::Reasoning);
    assert_eq!(snapshot.schema_version, 4);
    assert_eq!(
        snapshot.selection.as_ref().unwrap().version,
        "host-task-fit-v1"
    );
    assert_eq!(snapshot.algorithm_version.as_deref(), Some("task-fit-v1"));
}

#[test]
fn schema_four_requires_task_fit_inputs_while_schema_three_remains_routable() {
    let snapshot = snapshot(&config(), TaskType::Reasoning);
    let mut missing = snapshot.clone();
    missing.selection = None;
    let result = routed(&missing, &task(), "invoke", 0.0, &TextMap::new());
    assert_eq!(result.unwrap_err().kind, "routing");

    let mut historical = snapshot;
    historical.schema_version = 3;
    historical.selection = None;
    historical.algorithm_version = None;
    assert_eq!(pick(&historical, &task(), 0.0).model_id, "local");
}

#[test]
fn schema_three_ignores_task_fit_fields_and_uses_legacy_scoring() {
    let mut config = config();
    config.models.truncate(1);
    config.weights = weights([1.0, 0.0, 0.0, 1.0, 0.0, 0.0], "legacy-check");
    let mut snapshot = snapshot(&config, TaskType::Reasoning);
    snapshot.schema_version = 3;
    let task = task();
    let decision = pick(&snapshot, &task, 0.0);
    let expected_cost =
        100 * config.models[0].input_price + task.output_tokens * config.models[0].output_price;
    let expected = 0.8 - expected_cost as f64 / task.max_call_cost as f64;
    assert!((value(decision.score) - expected).abs() < 1e-12);
}

#[test]
fn critic_keeps_role_scoring_without_generation_selection_floor() {
    let config = config();
    let mut plan = plan(TaskType::Reasoning);
    plan.strategy = Strategy::GeneratorCritic;
    plan.selection.as_mut().unwrap().min_quality = float(0.95);
    plan.role_profiles.insert(
        "critic".into(),
        RoleProfile {
            task_type: TaskType::Reasoning,
            role: "critic".into(),
        },
    );
    let snapshot = capture(&config, &mut plan, 10_000);
    let decision = routed(&snapshot, &task(), "critic", 0.0, &TextMap::new()).unwrap();
    assert_eq!(decision.model_id, "local");
    assert_eq!(value(decision.score), 0.8);
    let refused = routed(&snapshot, &task(), "invoke", 0.0, &TextMap::new());
    assert_eq!(refused.unwrap_err().kind, "routing");
}

fn pick_case(economic_quality: f64, strong_quality: f64, budget: u64) -> RoutingDecision {
    let mut config = config();
    config.models[0].id = "economic".into();
    config.models[0].acceptance = float(economic_quality);
    config.models[0].input_price = 10;
    config.models[0].output_price = 0;
    config.models[1].id = "strong".into();
    config.models[1].acceptance = float(strong_quality);
    config.models[1].input_price = 40;
    config.models[1].output_price = 0;
    config.weights = weights([1.0, 0.0, 0.0, 0.1, 0.0, 0.0], "task-fit-test");
    let snapshot = snapshot(&config, TaskType::Reasoning);
    let mut task = task();
    task.budget = budget;
    task.max_call_cost = budget;
    pick(&snapshot, &task, 0.0)
}

#[test]
fn task_fit_value_selects_economic_or_strong_by_expected_gain() {
    let simple = pick_case(0.90, 0.95, 10_000);
    assert_eq!(simple.model_id, "economic");
    assert!((value(simple.score) - 0.890).abs() < 1e-12);

    let difficult = pick_case(0.76, 0.95, 10_000);
    assert_eq!(difficult.model_id, "strong");
    assert!((value(difficult.score) - 0.865).abs() < 1e-12);
}

#[test]
fn task_fit_value_is_independent_of_budget_when_eligibility_is_unchanged() {
    assert_eq!(
        pick_case(0.90, 0.95, 10_000).model_id,
        pick_case(0.90, 0.95, 100_000).model_id
    );
}
