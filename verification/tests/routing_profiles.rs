#![allow(dead_code)]
#![allow(unused_imports)]
#![allow(clippy::too_many_arguments)]
use model_collaboration_engine::assessment::ExecutionClass;
use model_collaboration_engine::binary64::{number, Binary64};
use model_collaboration_engine::contracts::{
    Acceptance, Config, Constraints, EffectivePlan, Endpoint, EngineError, FeedbackKind,
    MetricsSnapshot, Model, ParentEntry, PlanChoice, PlanningConfig, PlanningMode, QualityProfile,
    RankingConfig, RankingEntry, RoleMapping, RoleProfile, RoutingProfiles, SelectionPolicy,
    Strategy, SubmissionSpec, TaskSpec, TaskType, Weights, WeightsEntry,
};
use model_collaboration_engine::router::profiles::{
    apply_profiles, resolve as resolve_quality, EvidenceNumbers, SnapshotEncodings,
};
use model_collaboration_engine::router::rankings::resolve as resolve_ranking;
use model_collaboration_engine::router::{
    route, route_profiled, route_profiled_with_minimum_class, FallbackTier, Health, RankingStatus,
    RouteRequest, RoutingDecision, RoutingSnapshot, Valuation,
};
use model_collaboration_engine::text::{TextMap, TextSet};

fn float(x: f64) -> Binary64 {
    number(x.to_bits())
}

fn value(x: Binary64) -> f64 {
    f64::from_bits(x.bits)
}

fn names(items: &[&str]) -> TextSet {
    let mut out = TextSet::new();
    for item in items {
        out.insert((*item).to_owned());
    }
    out
}

fn weights(parts: [f64; 6], version: &str) -> Weights {
    Weights {
        quality: float(parts[0]),
        capability: float(parts[1]),
        reliability: float(parts[2]),
        cost: float(parts[3]),
        latency: float(parts[4]),
        uncertainty: float(parts[5]),
        total: float(parts.iter().sum()),
        version: version.into(),
    }
}

fn model(id: &str) -> Model {
    Model {
        id: id.into(),
        model: "model-name".into(),
        version: "1".into(),
        endpoint: Endpoint::ChatCompletions,
        base_url: "http://127.0.0.1:8000/v1".into(),
        api_key_env: "MODEL_API_KEY".into(),
        provider: "local".into(),
        region: "local".into(),
        local: true,
        capabilities: names(&["text", "json", "tools"]),
        context_tokens: 32_768,
        input_price: 1,
        output_price: 2,
        price_version: "1".into(),
        acceptance: float(0.8),
        reliability: float(0.9),
        latency_ms: 1000,
        uncertainty: float(0.1),
        execution_class: ExecutionClass::Simple,
    }
}

fn config() -> Config {
    Config {
        database_path: "engine.db".into(),
        models: vec![model("local"), model("other")],
        planner_models: TextSet::new(),
        routing_profiles: Some(RoutingProfiles {
            schema_version: 1,
            version: "test-static-v1".into(),
            parents: vec![],
            role_mappings: vec![],
            weights: vec![],
            profiles: vec![],
        }),
        rankings: None,
        assessment_rules: None,
        decision: None,
        weights: weights([1.0, 0.0, 0.0, 0.0, 0.0, 0.0], "quality-only"),
        max_concurrency: 4,
        event_capacity: 64,
        event_max_bytes: 8192,
        stream_frame_max_bytes: 65_536,
        context_max_bytes: 1_048_576,
        close_grace_ms: 1000,
        cleanup_timeout_ms: 1000,
    }
}

fn policy(min_quality: f64) -> SelectionPolicy {
    SelectionPolicy {
        version: "host-task-fit-v1".into(),
        min_quality: float(min_quality),
        target_quality: float(0.9),
        above_target_factor: float(0.1),
        cost_reference: 10_000,
        latency_reference_ms: 5000,
        min_upgrade_gain: float(0.05),
    }
}

fn constraints(local_only: bool) -> Constraints {
    Constraints {
        allowed_models: TextSet::new(),
        allowed_providers: TextSet::new(),
        allowed_regions: TextSet::new(),
        local_only,
        required_capabilities: TextSet::new(),
        preferred_capabilities: TextSet::new(),
        different_critic: false,
    }
}

fn acceptance() -> Acceptance {
    Acceptance {
        version: "1".into(),
        nonempty: true,
        required_substrings: vec![],
        json_object: false,
    }
}

fn plan(kind: TaskType) -> EffectivePlan {
    let mut role_profiles = TextMap::new();
    role_profiles.insert(
        "invoke".to_owned(),
        RoleProfile {
            task_type: kind,
            role: "invoke".into(),
        },
    );
    EffectivePlan {
        plan_version: 1,
        task_type: kind,
        strategy: Strategy::Single,
        role_profiles,
        constraints: constraints(false),
        acceptance: acceptance(),
        selection: Some(policy(0.0)),
        submission_hash: "test".into(),
        proposal_id: None,
        validator_version: "1".into(),
        routing_profile_version: "global-prior-v1".into(),
        assessment: None,
    }
}

fn task() -> TaskSpec {
    TaskSpec {
        task_id: "example".into(),
        goal: "Write a short answer".into(),
        evidence: vec![],
        strategy: Strategy::Single,
        acceptance: acceptance(),
        selection: policy(0.0),
        constraints: constraints(true),
        budget: 100_000,
        deadline_ms: 60_000,
        output_tokens: 256,
        max_calls: 10,
        max_rounds: 3,
        max_attempts: 2,
        max_call_cost: 50_000,
        finalization_ms: 100,
        tools: vec![],
    }
}

fn posterior(profile: &QualityProfile) -> f64 {
    let weight = value(profile.prior_weight);
    (weight * value(profile.prior) + profile.accepted as f64) / (weight + profile.samples as f64)
}

fn numbers(
    config: &Config,
    plan: &EffectivePlan,
    at_ms: u64,
    metrics: &MetricsSnapshot,
) -> TextMap<Vec<EvidenceNumbers>> {
    let mut plan = plan.clone();
    apply_profiles(config, &mut plan);
    let defaults = RoutingProfiles::default();
    let profiles = config.routing_profiles.as_ref().unwrap_or(&defaults);
    let mut out = TextMap::new();
    for i in 0..plan.role_profiles.len() {
        let node = plan.role_profiles.key_at(i).clone();
        let role = plan.role_profiles.value_at(i);
        let kind = if node == "critic" {
            FeedbackKind::CriticCorrectness
        } else {
            FeedbackKind::BusinessAcceptance
        };
        let mut list = vec![];
        for model in &config.models {
            let found = resolve_quality(
                profiles,
                model,
                role,
                &plan.acceptance.version,
                metrics,
                kind,
                float(0.0),
            );
            let ranked = resolve_ranking(
                config.rankings.as_ref(),
                model,
                role,
                at_ms,
                float(0.0),
                float(0.0),
            );
            let (normalized, contribution) = match (&ranked.entry, &config.rankings) {
                (Some(entry), Some(rankings)) => {
                    let normalized = if rankings.population == 1 {
                        1.0
                    } else {
                        f64::from(rankings.population - entry.rank)
                            / f64::from(rankings.population - 1)
                    };
                    (normalized, value(rankings.weight) * normalized)
                }
                _ => (0.0, 0.0),
            };
            list.push(EvidenceNumbers {
                posterior: float(found.evidence.as_ref().map_or(0.0, posterior)),
                normalized_rank: float(normalized),
                contribution: float(contribution),
            });
        }
        out.insert(node, list);
    }
    out
}

fn capture(config: &Config, plan: &mut EffectivePlan, at_ms: u64) -> RoutingSnapshot {
    let numbers = numbers(config, plan, at_ms, &MetricsSnapshot::default());
    let encodings = SnapshotEncodings {
        rankings: format!("{:?}", config.rankings).into_bytes(),
        feedback: b"[]".to_vec(),
        profiles: format!("{:?}", config.routing_profiles).into_bytes(),
    };
    RoutingSnapshot::capture(config, plan, at_ms, &numbers, &encodings)
}

fn snapshot(config: &Config, kind: TaskType) -> RoutingSnapshot {
    config.validate(false).unwrap();
    capture(config, &mut plan(kind), 10_000)
}

/// The score of a candidate and its parts, added in the order of their names.
fn valuation(
    model: &Model,
    weights: &Weights,
    request: &RouteRequest<'_>,
    quality: f64,
    policy: Option<&SelectionPolicy>,
    ranking: Option<f64>,
    task_fit: bool,
    at_ms: u64,
) -> Valuation {
    let task = request.task;
    let cost = request.input_tokens * model.input_price + task.output_tokens * model.output_price;
    let (calls, failures) = request
        .health
        .get(&model.id)
        .map_or((0, 0), |h| (h.calls, h.failures));
    let reliability = (value(model.reliability) * 10.0 + calls.saturating_sub(failures) as f64)
        / (10.0 + calls as f64);
    let preferred = &task.constraints.preferred_capabilities;
    let capability = if preferred.is_empty() {
        0.0
    } else {
        let held = (0..preferred.len())
            .filter(|i| model.capabilities.contains(preferred.at(*i)))
            .count();
        held as f64 / preferred.len() as f64
    };
    let (value_of_quality, cost_share, latency_share) = match policy {
        Some(p) => {
            let target = value(p.target_quality);
            (
                quality.min(target) + value(p.above_target_factor) * (quality - target).max(0.0),
                -value(weights.cost) * cost as f64 / p.cost_reference as f64,
                -value(weights.latency) * model.latency_ms as f64 / p.latency_reference_ms as f64,
            )
        }
        None => (
            quality,
            -value(weights.cost) * cost as f64 / task.max_call_cost.max(1) as f64,
            -value(weights.latency)
                * (model.latency_ms as f64 / task.deadline_ms.saturating_sub(at_ms).max(1) as f64)
                    .min(1.0),
        ),
    };
    let parts = [
        ("capability", value(weights.capability) * capability),
        ("cost", cost_share),
        ("latency", latency_share),
        ("quality", value(weights.quality) * value_of_quality),
        ("reliability", value(weights.reliability) * reliability),
        (
            "uncertainty",
            -value(weights.uncertainty) * value(model.uncertainty),
        ),
    ];
    let mut breakdown = TextMap::new();
    let mut score = 0.0;
    for (name, part) in parts {
        breakdown.insert(name.to_owned(), float(part));
        if name == "reliability" && !task_fit {
            score += ranking.unwrap_or(0.0);
        }
        score += part;
    }
    Valuation {
        score: float(score),
        breakdown,
    }
}

fn valuations(snapshot: &RoutingSnapshot, request: &RouteRequest<'_>) -> Vec<Valuation> {
    let Some(node) = snapshot.nodes.get(request.node) else {
        return snapshot
            .models
            .iter()
            .map(|_| Valuation {
                score: float(0.0),
                breakdown: TextMap::new(),
            })
            .collect();
    };
    let task_fit = snapshot.schema_version >= 4;
    let policy = if task_fit && request.node != "critic" {
        snapshot.selection.as_ref()
    } else {
        None
    };
    snapshot
        .models
        .iter()
        .map(|model| {
            let quality = node
                .qualities
                .get(&model.id)
                .map_or(0.0, |q| value(q.quality));
            let ranking = if snapshot.schema_version >= 3 {
                node.rankings.get(&model.id).map(|r| value(r.contribution))
            } else {
                None
            };
            valuation(
                model,
                &node.weights,
                request,
                quality,
                policy,
                ranking,
                task_fit,
                snapshot.captured_at_ms,
            )
        })
        .collect()
}

fn encoded(snapshot: &RoutingSnapshot) -> Vec<u8> {
    format!("{snapshot:?}").into_bytes()
}

fn routed(
    snapshot: &RoutingSnapshot,
    task: &TaskSpec,
    node: &str,
    floor: f64,
    health: &TextMap<Health>,
) -> Result<RoutingDecision, EngineError> {
    let excluded = TextSet::new();
    let request = RouteRequest {
        task,
        node,
        input_tokens: 100,
        available: 100_000,
        excluded: &excluded,
        quality_floor: float(floor),
        health,
        health_encoded: b"{}",
    };
    route_profiled(
        snapshot,
        &request,
        &valuations(snapshot, &request),
        &encoded(snapshot),
    )
}

fn pick(snapshot: &RoutingSnapshot, task: &TaskSpec, floor: f64) -> RoutingDecision {
    routed(snapshot, task, "invoke", floor, &TextMap::new()).unwrap()
}

fn excluded_for(decision: &RoutingDecision, model: &str) -> Vec<String> {
    decision.excluded.get(model).unwrap().clone()
}

fn profile(model: &str, kind: TaskType, role: &str, prior: f64) -> QualityProfile {
    QualityProfile {
        model_id: model.into(),
        model_version: "1".into(),
        task_type: kind,
        role: role.into(),
        evaluator_version: "1".into(),
        prior: float(prior),
        prior_weight: float(10.0),
        accepted: 0,
        samples: 0,
    }
}

fn profiles(config: &mut Config) -> &mut RoutingProfiles {
    config.routing_profiles.as_mut().unwrap()
}

#[test]
fn task_type_changes_ranking_without_changing_capabilities() {
    let mut c = config();
    profiles(&mut c).profiles = vec![
        profile("local", TaskType::Writing, "invoke", 0.95),
        profile("other", TaskType::Writing, "invoke", 0.3),
        profile("local", TaskType::CodeGeneration, "invoke", 0.2),
        profile("other", TaskType::CodeGeneration, "invoke", 0.9),
    ];
    assert_eq!(
        pick(&snapshot(&c, TaskType::Writing), &task(), 0.0).model_id,
        "local"
    );
    assert_eq!(
        pick(&snapshot(&c, TaskType::CodeGeneration), &task(), 0.0).model_id,
        "other"
    );
}

#[test]
fn fallback_walks_parents_general_then_global_without_inventing_zero() {
    let mut c = config();
    profiles(&mut c).parents.push(ParentEntry {
        child: TaskType::CodeGeneration,
        parent: TaskType::Reasoning,
    });
    profiles(&mut c).profiles = vec![
        profile("local", TaskType::CodeGeneration, "invoke", 0.4),
        profile("local", TaskType::Reasoning, "invoke", 0.5),
        profile("local", TaskType::General, "invoke", 0.6),
    ];
    for (tier, quality) in [
        (FallbackTier::Exact, 0.4),
        (FallbackTier::Parent, 0.5),
        (FallbackTier::General, 0.6),
        (FallbackTier::GlobalPrior, 0.8),
    ] {
        let s = snapshot(&c, TaskType::CodeGeneration);
        let node = s.nodes.get("invoke").unwrap();
        let q = node.qualities.get("local").unwrap();
        assert_eq!(q.fallback, tier);
        assert!((value(q.quality) - quality).abs() < 1e-12);
        if !profiles(&mut c).profiles.is_empty() {
            profiles(&mut c).profiles.remove(0);
        }
    }
}

fn tier(s: &RoutingSnapshot) -> FallbackTier {
    s.nodes
        .get("invoke")
        .unwrap()
        .qualities
        .get("local")
        .unwrap()
        .fallback
}

#[test]
fn version_and_role_are_part_of_the_quality_key() {
    let mut c = config();
    let exact = profile("local", TaskType::Writing, "invoke", 0.95);
    for field in ["model_version", "evaluator_version", "role"] {
        let mut wrong = exact.clone();
        match field {
            "role" => wrong.role = "critic".into(),
            "model_version" => wrong.model_version = "old".into(),
            _ => wrong.evaluator_version = "old".into(),
        }
        profiles(&mut c).profiles = vec![wrong];
        let s = snapshot(&c, TaskType::Writing);
        assert_eq!(tier(&s), FallbackTier::GlobalPrior);
    }
    profiles(&mut c).profiles.push(exact);
    let s = snapshot(&c, TaskType::Writing);
    assert_eq!(tier(&s), FallbackTier::Exact);
}

#[test]
fn posterior_and_cascade_floor_use_identical_quality() {
    let mut c = config();
    let mut p = profile("local", TaskType::Writing, "invoke", 0.9);
    p.samples = 10;
    p.accepted = 3; // (9 + 3) / (10 + 10) = 0.6, not global 0.8 or prior 0.9.
    profiles(&mut c).profiles = vec![p, profile("other", TaskType::Writing, "invoke", 0.5)];
    let s = snapshot(&c, TaskType::Writing);
    let d = pick(&s, &task(), 0.6);
    assert_eq!(d.model_id, "local");
    assert!((value(*d.breakdown.get("quality").unwrap()) - 0.6).abs() < 1e-12);
    assert_eq!(excluded_for(&d, "other"), vec!["quality_floor"]);
    let mut cold = profile("local", TaskType::Writing, "invoke", 0.5);
    cold.prior_weight = float(f64::from_bits(1));
    assert_eq!(value(cold.quality(float(posterior(&cold)))), 0.5);
}

#[test]
fn typed_weights_and_parent_weights_change_ranking() {
    let mut c = config();
    c.models[0].acceptance = float(0.99);
    c.models[0].input_price = 10;
    c.models[1].acceptance = float(0.4);
    let cheap = weights([0.0, 0.0, 0.0, 1.0, 0.0, 0.0], "cheap-v1");
    profiles(&mut c).weights.push(WeightsEntry {
        task_type: TaskType::Writing,
        weights: cheap,
    });
    profiles(&mut c).parents.push(ParentEntry {
        child: TaskType::CodeGeneration,
        parent: TaskType::Writing,
    });
    for kind in [TaskType::Writing, TaskType::CodeGeneration] {
        let d = pick(&snapshot(&c, kind), &task(), 0.0);
        assert_eq!(d.model_id, "other");
        assert_eq!(d.weights_version, "cheap-v1");
    }
    assert_eq!(
        pick(&snapshot(&c, TaskType::Reasoning), &task(), 0.0).model_id,
        "local"
    );
}

#[test]
fn frozen_snapshot_replays_after_config_change_and_ignores_local_accept_counts() {
    let mut c = config();
    profiles(&mut c)
        .profiles
        .push(profile("local", TaskType::Writing, "invoke", 0.95));
    let s = snapshot(&c, TaskType::Writing);
    let first = pick(&s, &task(), 0.0);
    profiles(&mut c).profiles[0].prior = float(0.1);
    c.models[0].input_price = 1000;
    c.weights.quality = float(0.0);
    let restored = s.clone();
    let again = pick(&restored, &task(), 0.0);
    assert_eq!(first.score, again.score);
    assert_eq!(first.model_id, again.model_id);
    assert_eq!(first.routing_snapshot, again.routing_snapshot);
    let mut health = TextMap::new();
    health.insert(
        "local".to_owned(),
        Health {
            calls: 100,
            accepted: 0,
            failures: 0,
            unavailable_until: 0,
        },
    );
    let d = routed(&s, &task(), "invoke", 0.0, &health).unwrap();
    assert_eq!(
        d.breakdown.get("quality").unwrap(),
        first.breakdown.get("quality").unwrap()
    );
}

#[test]
fn hard_constraints_still_exclude_the_highest_quality_model() {
    let mut c = config();
    c.models[0].acceptance = float(1.0);
    c.models[0].local = false;
    let d = pick(&snapshot(&c, TaskType::Writing), &task(), 0.0);
    assert_eq!(d.model_id, "other");
    assert!(excluded_for(&d, "local").contains(&"local_only".into()));
}

#[test]
fn minimum_execution_class_filters_lower_class_candidates() {
    let mut c = config();
    c.models[0].execution_class = ExecutionClass::Medium;
    c.models[1].execution_class = ExecutionClass::Simple;
    let s = snapshot(&c, TaskType::Writing);
    let task = task();
    let excluded = TextSet::new();
    let health = TextMap::new();
    let request = RouteRequest {
        task: &task,
        node: "invoke",
        input_tokens: 100,
        available: 100_000,
        excluded: &excluded,
        quality_floor: float(0.0),
        health: &health,
        health_encoded: b"{}",
    };
    let decision = route_profiled_with_minimum_class(
        &s,
        &request,
        ExecutionClass::Medium,
        &valuations(&s, &request),
        &encoded(&s),
    )
    .unwrap();
    assert_eq!(decision.model_id, "local");
    assert_eq!(excluded_for(&decision, "other"), vec!["execution_class"]);
}

#[test]
fn invalid_profiles_fail_configuration_before_admission() {
    let parent = |child, parent| ParentEntry { child, parent };
    let mutations: Vec<fn(&mut RoutingProfiles)> = vec![
        |p| p.schema_version = 2,
        |p| p.version = " ".into(),
        |p| {
            p.parents = vec![ParentEntry {
                child: TaskType::General,
                parent: TaskType::Writing,
            }]
        },
        |p| {
            p.role_mappings = vec![RoleMapping {
                task_type: TaskType::Writing,
                node: "planner".into(),
                profile: RoleProfile {
                    task_type: TaskType::General,
                    role: "invoke".into(),
                },
            }]
        },
    ];
    for mutation in mutations {
        let mut c = config();
        mutation(profiles(&mut c));
        assert!(c.validate(false).is_err());
    }
    let mut c = config();
    profiles(&mut c).parents = vec![
        parent(TaskType::Writing, TaskType::Reasoning),
        parent(TaskType::Reasoning, TaskType::Writing),
    ];
    assert!(c.validate(false).is_err());
    let changes: Vec<fn(&mut QualityProfile)> = vec![
        |p| p.model_id = "missing".into(),
        |p| p.prior = float(1.1),
        |p| p.prior_weight = float(0.0),
        |p| p.accepted = 1,
        |p| p.samples = u64::MAX,
    ];
    for change in changes {
        let mut p = profile("local", TaskType::Writing, "invoke", 0.5);
        change(&mut p);
        let mut c = config();
        profiles(&mut c).profiles = vec![p];
        assert!(c.validate(false).is_err());
    }
    let mut c = config();
    let p = profile("local", TaskType::Writing, "invoke", 0.5);
    profiles(&mut c).profiles = vec![p.clone(), p];
    assert!(c.validate(false).is_err());
    profiles(&mut c).profiles.clear();
    assert!(c.validate(false).is_ok());
    let w = weights([f64::MAX, 0.0, 0.0, f64::MAX, 0.0, 0.0], "quality-only");
    profiles(&mut c).weights.push(WeightsEntry {
        task_type: TaskType::Writing,
        weights: w,
    });
    assert!(c.validate(false).is_err());
}

#[test]
fn no_profile_config_still_captures_global_prior_snapshot() {
    let mut c = config();
    c.routing_profiles = None;
    let s = capture(&c, &mut plan(TaskType::General), 0);
    assert_eq!(s.profile_version, "global-prior-v1");
    assert_eq!(tier(&s), FallbackTier::GlobalPrior);
}

#[test]
fn role_mappings_change_the_plan_and_the_evidence() {
    let mut c = config();
    profiles(&mut c).role_mappings = vec![RoleMapping {
        task_type: TaskType::Writing,
        node: "invoke".into(),
        profile: RoleProfile {
            task_type: TaskType::Reasoning,
            role: "invoke".into(),
        },
    }];
    profiles(&mut c).profiles = vec![profile("local", TaskType::Reasoning, "invoke", 0.3)];
    let mut p = plan(TaskType::Writing);
    let s = capture(&c, &mut p, 10_000);
    assert_eq!(
        p.role_profiles.get("invoke").unwrap().task_type,
        TaskType::Reasoning
    );
    assert_eq!(p.routing_profile_version, "test-static-v1");
    assert_eq!(tier(&s), FallbackTier::Exact);
    assert_eq!(pick(&s, &task(), 0.0).model_id, "other");
}

#[test]
fn unknown_nodes_and_versions_are_refused() {
    let s = snapshot(&config(), TaskType::Writing);
    let error = routed(&s, &task(), "nowhere", 0.0, &TextMap::new()).unwrap_err();
    assert_eq!(error.to_text(), "routing: snapshot has no profile for this node");
    let mut old = s.clone();
    old.schema_version = 5;
    let error = routed(&old, &task(), "invoke", 0.0, &TextMap::new()).unwrap_err();
    assert_eq!(error.to_text(), "routing: unsupported routing snapshot version");
}

#[test]
fn excluded_and_unavailable_models_are_no_candidates() {
    let s = snapshot(&config(), TaskType::Writing);
    let mut health = TextMap::new();
    health.insert(
        "local".to_owned(),
        Health {
            calls: 1,
            accepted: 0,
            failures: 1,
            unavailable_until: 10_001,
        },
    );
    let d = routed(&s, &task(), "invoke", 0.0, &health).unwrap();
    assert_eq!(d.model_id, "other");
    assert_eq!(excluded_for(&d, "local"), vec!["unavailable"]);
    assert_eq!(d.estimated_cost, 100 + 2 * 256);
    assert_eq!(d.metrics_snapshot.len(), 64);
}
