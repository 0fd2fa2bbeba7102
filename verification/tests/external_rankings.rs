#![allow(dead_code)]
#![allow(unused_imports)]
#![allow(clippy::too_many_arguments)]
use model_collaboration_engine::assessment::ExecutionClass;
use model_collaboration_engine::binary64::{number, Binary64};
use model_collaboration_engine::contracts::{
    Acceptance, Config, Constraints, EffectivePlan, Endpoint, EngineError, FeedbackKind,
    MetricsSnapshot, Model, ParentEntry, PlanChoice, PlanningConfig, PlanningMode, QualityProfile,
    RankingConfig, RankingEntry, RoleMapping, RoleProfile, RoutingProfiles, SelectionPolicy,
    Strategy, SubmissionSpec, TaskSpec, TaskType, Weights, WeightsEntry,
};
use model_collaboration_engine::router::profiles::{
    apply_profiles, resolve as resolve_quality, EvidenceNumbers, SnapshotEncodings,
};
use model_collaboration_engine::router::rankings::resolve as resolve_ranking;
use model_collaboration_engine::router::{
    route, route_profiled, route_profiled_with_minimum_class, FallbackTier, Health, RankingStatus,
    RouteRequest, RoutingDecision, RoutingSnapshot, Valuation,
};
use model_collaboration_engine::text::{TextMap, TextSet};

fn float(x: f64) -> Binary64 {
    number(x.to_bits())
}

fn value(x: Binary64) -> f64 {
    f64::from_bits(x.bits)
}

fn names(items: &[&str]) -> TextSet {
    let mut out = TextSet::new();
    for item in items {
        out.insert((*item).to_owned());
    }
    out
}

fn weights(parts: [f64; 6], version: &str) -> Weights {
    Weights {
        quality: float(parts[0]),
        capability: float(parts[1]),
        reliability: float(parts[2]),
        cost: float(parts[3]),
        latency: float(parts[4]),
        uncertainty: float(parts[5]),
        total: float(parts.iter().sum()),
        version: version.into(),
    }
}

fn model(id: &str) -> Model {
    Model {
        id: id.into(),
        model: "model-name".into(),
        version: "1".into(),
        endpoint: Endpoint::ChatCompletions,
        base_url: "http://127.0.0.1:8000/v1".into(),
        api_key_env: "MODEL_API_KEY".into(),
        provider: "local".into(),
        region: "local".into(),
        local: true,
        capabilities: names(&["text", "json", "tools"]),
        context_tokens: 32_768,
        input_price: 1,
        output_price: 2,
        price_version: "1".into(),
        acceptance: float(0.8),
        reliability: float(0.9),
        latency_ms: 1000,
        uncertainty: float(0.1),
        execution_class: ExecutionClass::Simple,
    }
}

fn config() -> Config {
    Config {
        database_path: "engine.db".into(),
        models: vec![model("local"), model("other")],
        planner_models: TextSet::new(),
        routing_profiles: Some(RoutingProfiles {
            schema_version: 1,
            version: "test-static-v1".into(),
            parents: vec![],
            role_mappings: vec![],
            weights: vec![],
            profiles: vec![],
        }),
        rankings: None,
        assessment_rules: None,
        decision: None,
        weights: weights([1.0, 0.0, 0.0, 0.0, 0.0, 0.0], "quality-only"),
        max_concurrency: 4,
        event_capacity: 64,
        event_max_bytes: 8192,
        stream_frame_max_bytes: 65_536,
        context_max_bytes: 1_048_576,
        close_grace_ms: 1000,
        cleanup_timeout_ms: 1000,
    }
}

fn policy(min_quality: f64) -> SelectionPolicy {
    SelectionPolicy {
        version: "host-task-fit-v1".into(),
        min_quality: float(min_quality),
        target_quality: float(0.9),
        above_target_factor: float(0.1),
        cost_reference: 10_000,
        latency_reference_ms: 5000,
        min_upgrade_gain: float(0.05),
    }
}

fn constraints(local_only: bool) -> Constraints {
    Constraints {
        allowed_models: TextSet::new(),
        allowed_providers: TextSet::new(),
        allowed_regions: TextSet::new(),
        local_only,
        required_capabilities: TextSet::new(),
        preferred_capabilities: TextSet::new(),
        different_critic: false,
    }
}

fn acceptance() -> Acceptance {
    Acceptance {
        version: "1".into(),
        nonempty: true,
        required_substrings: vec![],
        json_object: false,
    }
}

fn plan(kind: TaskType) -> EffectivePlan {
    let mut role_profiles = TextMap::new();
    role_profiles.insert(
        "invoke".to_owned(),
        RoleProfile {
            task_type: kind,
            role: "invoke".into(),
        },
    );
    EffectivePlan {
        plan_version: 1,
        task_type: kind,
        strategy: Strategy::Single,
        role_profiles,
        constraints: constraints(false),
        acceptance: acceptance(),
        selection: Some(policy(0.0)),
        submission_hash: "test".into(),
        proposal_id: None,
        validator_version: "1".into(),
        routing_profile_version: "global-prior-v1".into(),
        assessment: None,
    }
}

fn task() -> TaskSpec {
    TaskSpec {
        task_id: "example".into(),
        goal: "Write a short answer".into(),
        evidence: vec![],
        strategy: Strategy::Single,
        acceptance: acceptance(),
        selection: policy(0.0),
        constraints: constraints(true),
        budget: 100_000,
        deadline_ms: 60_000,
        output_tokens: 256,
        max_calls: 10,
        max_rounds: 3,
        max_attempts: 2,
        max_call_cost: 50_000,
        finalization_ms: 100,
        tools: vec![],
    }
}

fn posterior(profile: &QualityProfile) -> f64 {
    let weight = value(profile.prior_weight);
    (weight * value(profile.prior) + profile.accepted as f64) / (weight + profile.samples as f64)
}

fn numbers(
    config: &Config,
    plan: &EffectivePlan,
    at_ms: u64,
    metrics: &MetricsSnapshot,
) -> TextMap<Vec<EvidenceNumbers>> {
    let mut plan = plan.clone();
    apply_profiles(config, &mut plan);
    let defaults = RoutingProfiles::default();
    let profiles = config.routing_profiles.as_ref().unwrap_or(&defaults);
    let mut out = TextMap::new();
    for i in 0..plan.role_profiles.len() {
        let node = plan.role_profiles.key_at(i).clone();
        let role = plan.role_profiles.value_at(i);
        let kind = if node == "critic" {
            FeedbackKind::CriticCorrectness
        } else {
            FeedbackKind::BusinessAcceptance
        };
        let mut list = vec![];
        for model in &config.models {
            let found = resolve_quality(
                profiles,
                model,
                role,
                &plan.acceptance.version,
                metrics,
                kind,
                float(0.0),
            );
            let ranked = resolve_ranking(
                config.rankings.as_ref(),
                model,
                role,
                at_ms,
                float(0.0),
                float(0.0),
            );
            let (normalized, contribution) = match (&ranked.entry, &config.rankings) {
                (Some(entry), Some(rankings)) => {
                    let normalized = if rankings.population == 1 {
                        1.0
                    } else {
                        f64::from(rankings.population - entry.rank)
                            / f64::from(rankings.population - 1)
                    };
                    (normalized, value(rankings.weight) * normalized)
                }
                _ => (0.0, 0.0),
            };
            list.push(EvidenceNumbers {
                posterior: float(found.evidence.as_ref().map_or(0.0, posterior)),
                normalized_rank: float(normalized),
                contribution: float(contribution),
            });
        }
        out.insert(node, list);
    }
    out
}

fn capture(config: &Config, plan: &mut EffectivePlan, at_ms: u64) -> RoutingSnapshot {
    let numbers = numbers(config, plan, at_ms, &MetricsSnapshot::default());
    let encodings = SnapshotEncodings {
        rankings: format!("{:?}", config.rankings).into_bytes(),
        feedback: b"[]".to_vec(),
        profiles: format!("{:?}", config.routing_profiles).into_bytes(),
    };
    RoutingSnapshot::capture(config, plan, at_ms, &numbers, &encodings)
}

fn snapshot(config: &Config, kind: TaskType) -> RoutingSnapshot {
    config.validate(false).unwrap();
    capture(config, &mut plan(kind), 10_000)
}

/// The score of a candidate and its parts, added in the order of their names.
fn valuation(
    model: &Model,
    weights: &Weights,
    request: &RouteRequest<'_>,
    quality: f64,
    policy: Option<&SelectionPolicy>,
    ranking: Option<f64>,
    task_fit: bool,
    at_ms: u64,
) -> Valuation {
    let task = request.task;
    let cost = request.input_tokens * model.input_price + task.output_tokens * model.output_price;
    let (calls, failures) = request
        .health
        .get(&model.id)
        .map_or((0, 0), |h| (h.calls, h.failures));
    let reliability = (value(model.reliability) * 10.0 + calls.saturating_sub(failures) as f64)
        / (10.0 + calls as f64);
    let preferred = &task.constraints.preferred_capabilities;
    let capability = if preferred.is_empty() {
        0.0
    } else {
        let held = (0..preferred.len())
            .filter(|i| model.capabilities.contains(preferred.at(*i)))
            .count();
        held as f64 / preferred.len() as f64
    };
    let (value_of_quality, cost_share, latency_share) = match policy {
        Some(p) => {
            let target = value(p.target_quality);
            (
                quality.min(target) + value(p.above_target_factor) * (quality - target).max(0.0),
                -value(weights.cost) * cost as f64 / p.cost_reference as f64,
                -value(weights.latency) * model.latency_ms as f64 / p.latency_reference_ms as f64,
            )
        }
        None => (
            quality,
            -value(weights.cost) * cost as f64 / task.max_call_cost.max(1) as f64,
            -value(weights.latency)
                * (model.latency_ms as f64 / task.deadline_ms.saturating_sub(at_ms).max(1) as f64)
                    .min(1.0),
        ),
    };
    let parts = [
        ("capability", value(weights.capability) * capability),
        ("cost", cost_share),
        ("latency", latency_share),
        ("quality", value(weights.quality) * value_of_quality),
        ("reliability", value(weights.reliability) * reliability),
        (
            "uncertainty",
            -value(weights.uncertainty) * value(model.uncertainty),
        ),
    ];
    let mut breakdown = TextMap::new();
    let mut score = 0.0;
    for (name, part) in parts {
        breakdown.insert(name.to_owned(), float(part));
        if name == "reliability" && !task_fit {
            score += ranking.unwrap_or(0.0);
        }
        score += part;
    }
    Valuation {
        score: float(score),
        breakdown,
    }
}

fn valuations(snapshot: &RoutingSnapshot, request: &RouteRequest<'_>) -> Vec<Valuation> {
    let Some(node) = snapshot.nodes.get(request.node) else {
        return snapshot
            .models
            .iter()
            .map(|_| Valuation {
                score: float(0.0),
                breakdown: TextMap::new(),
            })
            .collect();
    };
    let task_fit = snapshot.schema_version >= 4;
    let policy = if task_fit && request.node != "critic" {
        snapshot.selection.as_ref()
    } else {
        None
    };
    snapshot
        .models
        .iter()
        .map(|model| {
            let quality = node
                .qualities
                .get(&model.id)
                .map_or(0.0, |q| value(q.quality));
            let ranking = if snapshot.schema_version >= 3 {
                node.rankings.get(&model.id).map(|r| value(r.contribution))
            } else {
                None
            };
            valuation(
                model,
                &node.weights,
                request,
                quality,
                policy,
                ranking,
                task_fit,
                snapshot.captured_at_ms,
            )
        })
        .collect()
}

fn encoded(snapshot: &RoutingSnapshot) -> Vec<u8> {
    format!("{snapshot:?}").into_bytes()
}

fn routed(
    snapshot: &RoutingSnapshot,
    task: &TaskSpec,
    node: &str,
    floor: f64,
    health: &TextMap<Health>,
) -> Result<RoutingDecision, EngineError> {
    let excluded = TextSet::new();
    let request = RouteRequest {
        task,
        node,
        input_tokens: 100,
        available: 100_000,
        excluded: &excluded,
        quality_floor: float(floor),
        health,
        health_encoded: b"{}",
    };
    route_profiled(
        snapshot,
        &request,
        &valuations(snapshot, &request),
        &encoded(snapshot),
    )
}

fn pick(snapshot: &RoutingSnapshot, task: &TaskSpec, floor: f64) -> RoutingDecision {
    routed(snapshot, task, "invoke", floor, &TextMap::new()).unwrap()
}

fn excluded_for(decision: &RoutingDecision, model: &str) -> Vec<String> {
    decision.excluded.get(model).unwrap().clone()
}

fn rankings() -> RankingConfig {
    RankingConfig {
        schema_version: 1,
        version: "r1".into(),
        source: "synthetic".into(),
        source_version: "s1".into(),
        category: "reasoning".into(),
        published_at_ms: 0,
        expires_at_ms: 20_000,
        population: 10,
        weight: float(0.5),
        entries: vec![RankingEntry {
            model_id: "other".into(),
            model_version: "1".into(),
            source_model: "external".into(),
            source_model_version: "v1".into(),
            task_type: TaskType::Reasoning,
            role: "invoke".into(),
            rank: 1,
        }],
    }
}

fn configured(rankings: RankingConfig) -> Config {
    let mut c = config();
    c.rankings = Some(rankings);
    c
}

fn part(decision: &RoutingDecision, name: &str) -> f64 {
    value(*decision.breakdown.get(name).unwrap())
}

#[test]
fn external_rank_changes_selection_without_changing_quality() {
    let c = configured(rankings());
    c.validate(false).unwrap();
    let s = capture(&c, &mut plan(TaskType::Reasoning), 10_000);
    let d = pick(&s, &task(), 0.0);
    assert_eq!(d.model_id, "other");
    assert_eq!(part(&d, "ranking"), 0.5);
    assert_eq!(value(d.quality.unwrap().quality), 0.8);
}

#[test]
fn external_rank_cannot_override_unequal_task_fit_value() {
    let mut c = configured(rankings());
    c.models[0].acceptance = float(0.81);
    c.models[1].acceptance = float(0.80);
    let s = capture(&c, &mut plan(TaskType::Reasoning), 10_000);
    let d = pick(&s, &task(), 0.0);
    assert_eq!(d.model_id, "local");
    assert_eq!(part(&d, "ranking"), 0.0);
}

#[test]
fn critic_uses_legacy_role_score_but_task_fit_ranking_tie_break() {
    let mut ranking = rankings();
    ranking.entries[0].role = "critic".into();
    let mut config = configured(ranking);
    config.models[0].acceptance = float(0.8);
    config.models[1].acceptance = float(0.7);
    let mut plan = plan(TaskType::Reasoning);
    plan.strategy = Strategy::GeneratorCritic;
    plan.selection.as_mut().unwrap().min_quality = float(0.95);
    plan.role_profiles.insert(
        "critic".into(),
        RoleProfile {
            task_type: TaskType::Reasoning,
            role: "critic".into(),
        },
    );
    let snapshot = capture(&config, &mut plan, 10_000);
    let decision = routed(&snapshot, &task(), "critic", 0.0, &TextMap::new()).unwrap();
    assert_eq!(decision.model_id, "local");
    assert_eq!(value(decision.score), 0.8);
}

#[test]
fn schema_three_keeps_legacy_total_score_then_model_id_ordering() {
    let mut c = configured(rankings());
    c.models[0].id = "z-local".into();
    c.models[0].acceptance = float(0.5);
    c.models[1].acceptance = float(0.0);
    c.models[1].input_price = c.models[0].input_price + 1;
    let mut snapshot = snapshot(&c, TaskType::Reasoning);
    snapshot.schema_version = 3;
    snapshot.selection = None;
    snapshot.algorithm_version = None;
    let decision = pick(&snapshot, &task(), 0.0);
    assert_eq!(decision.model_id, "other");
    assert_eq!(value(decision.score), 0.5);
}

#[test]
fn ranking_cannot_override_hard_constraints_or_quality_floor() {
    let mut c = configured(rankings());
    c.models[1].acceptance = float(0.4);
    let s = snapshot(&c, TaskType::Reasoning);
    let d = pick(&s, &task(), 0.7);
    assert_eq!(d.model_id, "local");
    assert_eq!(excluded_for(&d, "other"), ["quality_floor"]);
    for reason in [
        "allowed_models",
        "provider",
        "region",
        "capabilities",
        "context",
        "budget",
    ] {
        let mut c = configured(rankings());
        let mut t = task();
        match reason {
            "allowed_models" => {
                t.constraints.allowed_models.insert("local".into());
            }
            "provider" => {
                c.models[1].provider = "blocked".into();
                t.constraints
                    .allowed_providers
                    .insert(c.models[0].provider.clone());
            }
            "region" => {
                c.models[1].region = "blocked".into();
                t.constraints
                    .allowed_regions
                    .insert(c.models[0].region.clone());
            }
            "capabilities" => {
                c.models[1].capabilities = TextSet::new();
            }
            "context" => {
                c.models[1].context_tokens = 1;
            }
            "budget" => {
                c.models[1].input_price = 1_000_000;
            }
            _ => unreachable!(),
        }
        let d = pick(&snapshot(&c, TaskType::Reasoning), &t, 0.0);
        assert_eq!(d.model_id, "local");
        assert!(excluded_for(&d, "other").iter().any(|v| v == reason));
    }
}

#[test]
fn unknown_and_inactive_evidence_has_explicit_status() {
    for (field, status) in [
        ("expires_at_ms", RankingStatus::Expired),
        ("published_at_ms", RankingStatus::NotYetEffective),
        ("weight", RankingStatus::Disabled),
        ("model_version", RankingStatus::ModelVersionMismatch),
        ("task_type", RankingStatus::TaskTypeMismatch),
        ("role", RankingStatus::RoleMismatch),
    ] {
        let mut v = rankings();
        match field {
            "expires_at_ms" => v.expires_at_ms = 10_000,
            "published_at_ms" => v.published_at_ms = 10_001,
            "weight" => v.weight = float(0.0),
            "model_version" => v.entries[0].model_version = "old".into(),
            "task_type" => v.entries[0].task_type = TaskType::Writing,
            _ => v.entries[0].role = "critic".into(),
        }
        let s = snapshot(&configured(v), TaskType::Reasoning);
        let r = s
            .nodes
            .get("invoke")
            .unwrap()
            .rankings
            .get("other")
            .unwrap();
        assert_eq!(r.status, status);
        assert_eq!(value(r.contribution), 0.0);
        assert!(r.normalized_rank.is_none());
    }
    let status = |s: &RoutingSnapshot| {
        s.nodes
            .get("invoke")
            .unwrap()
            .rankings
            .get("local")
            .unwrap()
            .status
    };
    let s = snapshot(&configured(rankings()), TaskType::Reasoning);
    assert_eq!(status(&s), RankingStatus::Missing);
    let s = snapshot(&config(), TaskType::Reasoning);
    assert_eq!(status(&s), RankingStatus::Disabled);
}

#[test]
fn snapshot_roundtrip_freezes_reference_and_old_snapshots_remain_routable() {
    let mut c = configured(rankings());
    let s = snapshot(&c, TaskType::Reasoning);
    let before = pick(&s, &task(), 0.0);
    c.rankings.as_mut().unwrap().entries[0].rank = 10;
    let after = s.clone();
    assert_eq!(encoded(&s), encoded(&after));
    let d = pick(&after, &task(), 0.0);
    assert_eq!(d.score, before.score);
    assert_eq!(d.model_id, before.model_id);
    assert_eq!(after.ranking_config.as_ref().unwrap().entries[0].rank, 1);
    assert_eq!(after.ranking_config_hash, s.ranking_config_hash);
    assert!(s.ranking_config_hash.is_some());
    assert_eq!(
        pick(&snapshot(&c, TaskType::Reasoning), &task(), 0.0).model_id,
        "local"
    );
    for version in [1, 2] {
        let mut restored = s.clone();
        restored.schema_version = version;
        restored.ranking_config = None;
        restored.ranking_config_hash = None;
        let mut node = restored.nodes.get("invoke").unwrap().clone();
        node.rankings = TextMap::new();
        restored.nodes.insert("invoke".into(), node);
        let d = pick(&restored, &task(), 0.0);
        assert_eq!(d.model_id, "local");
        assert!(d.ranking.is_none());
        assert!(!d.breakdown.contains_key("ranking"));
    }
}

#[test]
fn normalization_uses_full_population_and_allows_ties_and_singletons() {
    for (rank, population, expected) in [(1, 1, 0.5), (2, 10, 4.0 / 9.0), (10, 10, 0.0)] {
        let mut v = rankings();
        v.population = population;
        v.entries[0].rank = rank;
        let mut tied = v.entries[0].clone();
        tied.model_id = "local".into();
        v.entries.push(tied);
        let s = snapshot(&configured(v), TaskType::Reasoning);
        let d = pick(&s, &task(), 0.0);
        assert!((part(&d, "ranking") - expected).abs() < 1e-12);
    }
}

#[test]
fn rejects_invalid_metadata_mappings_and_unknown_fields() {
    let cases: Vec<(&str, fn(&mut RankingConfig))> = vec![
        ("schema_version", |v| v.schema_version = 2),
        ("population zero", |v| v.population = 0),
        ("population", |v| v.population = 1_000_001),
        ("weight below", |v| v.weight = float(-0.1)),
        ("weight above", |v| v.weight = float(1.1)),
        ("version", |v| v.version = " ".into()),
        ("category", |v| v.category = "".into()),
        ("source", |v| v.source = "x".repeat(2049)),
        ("source_version", |v| v.source_version = "x".repeat(257)),
        ("expires_at_ms", |v| v.expires_at_ms = 0),
        ("published_at_ms", |v| v.published_at_ms = u64::MAX),
        ("model_id", |v| v.entries[0].model_id = "unknown".into()),
        ("model_version", |v| v.entries[0].model_version = "".into()),
        ("source_model_version", |v| {
            v.entries[0].source_model_version = "".into()
        }),
        ("role", |v| v.entries[0].role = "planner".into()),
        ("rank zero", |v| v.entries[0].rank = 0),
        ("rank", |v| v.entries[0].rank = 11),
    ];
    for (name, change) in cases {
        let mut v = rankings();
        change(&mut v);
        assert!(configured(v).validate(false).is_err(), "{name}");
    }
    let mut v = rankings();
    let duplicate = v.entries[0].clone();
    v.entries.push(duplicate);
    assert!(configured(v).validate(false).is_err());
    let mut v = rankings();
    let mut conflict = v.entries[0].clone();
    conflict.model_id = "local".into();
    conflict.rank = 2;
    v.entries.push(conflict);
    assert!(configured(v).validate(false).is_err());
    assert!(configured(rankings()).validate(false).is_ok());
}

#[test]
fn global_planner_route_does_not_use_external_rankings() {
    let c = configured(rankings());
    let t = task();
    let excluded = TextSet::new();
    let health = TextMap::new();
    let request = RouteRequest {
        task: &t,
        node: "planner",
        input_tokens: 100,
        available: 100_000,
        excluded: &excluded,
        quality_floor: float(0.0),
        health: &health,
        health_encoded: b"{}",
    };
    let scores: Vec<Valuation> = c
        .models
        .iter()
        .map(|m| {
            valuation(
                m,
                &c.weights,
                &request,
                value(m.acceptance),
                None,
                None,
                false,
                10_000,
            )
        })
        .collect();
    let decision = route(&c, &request, &scores, 10_000).unwrap();
    assert_eq!(decision.model_id, "local");
    assert!(decision.ranking.is_none());
    assert!(!decision.breakdown.contains_key("ranking"));
}
