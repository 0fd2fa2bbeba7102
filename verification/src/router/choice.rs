//! What a route gives, told by the request, the models and their evidence.
use super::profiles::RoutingSnapshotModel;
use super::{
    prior_inputs, Asked, RouteInputs, RoutingDecision, RoutingDecisionModel, ValuationModel,
};
use crate::assessment::ExecutionClass;
use crate::binary64::{lemma_order_is_value_order, Binary64};
use crate::contracts::configuration::{ConfigModel, ModelModel};
use crate::fault::{lemma_first_fault_at, EngineError};
use crate::json::JsonModel;
use crate::text::{lemma_text_irreflexive, text_lt};
use vstd::prelude::*;

verus! {

/// A call costs no more than a limit; a limit of the greatest number is none.
pub open spec fn within_limit(cost: int, limit: u64) -> bool {
    cost <= limit || limit == u64::MAX
}

/// The model has every capability that a task asks for at a node: text always, JSON where an object
/// or a critic is asked for, tools where the task has some and no critic is asked for, and each
/// that the host requires.
pub open spec fn is_capable(m: ModelModel, asked: Asked) -> bool {
    &&& m.capabilities.contains("text"@)
    &&& asked.task.acceptance.json_object || asked.node == "critic"@ ==> m.capabilities.contains(
        "json"@,
    )
    &&& asked.task.tools.len() > 0 && asked.node != "critic"@ ==> m.capabilities.contains(
        "tools"@,
    )
    &&& forall|c: Seq<char>| #[trigger]
        asked.task.constraints.required_capabilities.contains(c) ==> m.capabilities.contains(c)
}

/// The prompt and the output, with some room, fit into the model's context.
pub open spec fn has_room(m: ModelModel, asked: Asked) -> bool {
    within_limit(asked.input_tokens + asked.task.output_tokens + 256, m.context_tokens)
}

/// Where a list names anything, it names this.
pub open spec fn is_allowed(allowed: Set<Seq<char>>, name: Seq<char>) -> bool {
    (exists|t: Seq<char>| #[trigger] allowed.contains(t)) ==> allowed.contains(name)
}

/// What the call is estimated to cost: each token at its price.
pub open spec fn estimate(m: ModelModel, asked: Asked) -> int {
    asked.input_tokens * m.input_price + asked.task.output_tokens * m.output_price
}

pub open spec fn is_affordable(m: ModelModel, asked: Asked) -> bool {
    within_limit(estimate(m, asked), asked.available) && within_limit(
        estimate(m, asked),
        asked.task.max_call_cost,
    )
}

/// The model is not known to be unavailable at a time.
pub open spec fn is_up(m: ModelModel, asked: Asked, at_ms: u64) -> bool {
    asked.health.contains_key(m.id) ==> asked.health[m.id].unavailable_until <= at_ms
}

/// The model's class is at least another.
pub open spec fn is_of_class(m: ModelModel, class: ExecutionClass) -> bool {
    match class {
        ExecutionClass::Simple => true,
        ExecutionClass::Medium => m.execution_class != ExecutionClass::Simple,
        ExecutionClass::Hard => m.execution_class == ExecutionClass::Hard,
    }
}

/// The model meets every hard constraint of a request but that on quality.
pub open spec fn suits(m: ModelModel, asked: Asked, at_ms: u64, class: ExecutionClass) -> bool {
    &&& is_capable(m, asked)
    &&& has_room(m, asked)
    &&& is_allowed(asked.task.constraints.allowed_models, m.id)
    &&& is_allowed(asked.task.constraints.allowed_providers, m.provider)
    &&& is_allowed(asked.task.constraints.allowed_regions, m.region)
    &&& asked.task.constraints.local_only ==> m.local
    &&& is_affordable(m, asked)
    &&& !asked.excluded.contains(m.id)
    &&& is_up(m, asked, at_ms)
    &&& is_of_class(m, class)
}

/// The value of a finite quality is at least that of a finite floor.
pub open spec fn reaches(quality: Binary64, floor: Binary64) -> bool {
    quality.finite() && floor.finite() ==> quality.value() >= floor.value()
}

/// The same, of finite numbers alone.
pub open spec fn surely_reaches(quality: Binary64, floor: Binary64) -> bool {
    quality.finite() && floor.finite() && quality.value() >= floor.value()
}

/// The request of given inputs.
spec fn request_of(inputs: RouteInputs) -> Asked {
    Asked {
        task: inputs.task,
        node: inputs.node,
        input_tokens: inputs.input_tokens,
        available: inputs.available,
        excluded: inputs.excluded,
        quality_floor: inputs.quality_floor,
        health: inputs.health,
        health_hash: inputs.health_hash,
    }
}

proof fn lemma_estimate(m: ModelModel, asked: Asked)
    ensures
        asked.input_tokens * m.input_price >= 0,
        asked.task.output_tokens * m.output_price >= 0,
{
    assert(asked.input_tokens * m.input_price >= 0) by (nonlinear_arith);
    assert(asked.task.output_tokens * m.output_price >= 0) by (nonlinear_arith);
}

proof fn lemma_capable(inputs: RouteInputs, i: int)
    ensures
        is_capable(inputs.models[i], request_of(inputs)) <==> !inputs.incapable(i),
{
    let m = inputs.models[i];
    let asked = request_of(inputs);
    if !inputs.incapable(i) {
        assert(inputs.needs("text"@));
        if asked.task.acceptance.json_object || asked.node == "critic"@ {
            assert(inputs.needs("json"@));
        }
        if asked.task.tools.len() > 0 && asked.node != "critic"@ {
            assert(inputs.needs("tools"@));
        }
        assert forall|c: Seq<char>| #[trigger]
            asked.task.constraints.required_capabilities.contains(c) implies
            m.capabilities.contains(c) by {
            assert(inputs.needs(c));
        }
    }
}

proof fn lemma_quality(q: Binary64, floor: Binary64)
    ensures
        !q.less(floor) ==> reaches(q, floor),
        surely_reaches(q, floor) ==> !q.less(floor),
{
    if q.finite() && floor.finite() {
        lemma_order_is_value_order(q, floor);
    }
}

proof fn lemma_floors(inputs: RouteInputs, i: int)
    ensures
        !inputs.quality(i).less(inputs.required_quality()) ==> {
            &&& reaches(inputs.quality(i), inputs.quality_floor)
            &&& inputs.policy is Some ==> reaches(
                inputs.quality(i),
                inputs.policy->0.min_quality,
            )
        },
        surely_reaches(inputs.quality(i), inputs.quality_floor) && (inputs.policy is Some
            ==> surely_reaches(inputs.quality(i), inputs.policy->0.min_quality))
            ==> !inputs.quality(i).less(inputs.required_quality()),
{
    let q = inputs.quality(i);
    lemma_quality(q, inputs.quality_floor);
    match inputs.policy {
        Some(p) => {
            lemma_quality(q, p.min_quality);
        },
        None => {},
    }
}

proof fn lemma_suits(inputs: RouteInputs, i: int)
    requires
        0 <= i < inputs.models.len(),
    ensures
        ({
            let m = inputs.models[i];
            let fits = suits(m, request_of(inputs), inputs.at_ms, inputs.minimum_class);
            let sure = surely_reaches(inputs.quality(i), inputs.quality_floor) && (inputs.policy
                is Some ==> surely_reaches(inputs.quality(i), inputs.policy->0.min_quality));
            &&& inputs.eligible(i) ==> {
                &&& fits
                &&& reaches(inputs.quality(i), inputs.quality_floor)
                &&& inputs.policy is Some ==> reaches(
                    inputs.quality(i),
                    inputs.policy->0.min_quality,
                )
            }
            &&& fits && sure ==> inputs.eligible(i)
        }),
{
    let m = inputs.models[i];
    super::lemma_admitted(inputs, i);
    lemma_capable(inputs, i);
    lemma_floors(inputs, i);
    lemma_estimate(m, request_of(inputs));
}

/// What a decision says of the model that it names.
pub open spec fn names(d: RoutingDecisionModel, m: ModelModel, asked: Asked) -> bool {
    &&& d.model_id == m.id
    &&& d.model_version == m.version
    &&& d.node_id == asked.node
    &&& d.estimated_input == asked.input_tokens
    &&& estimate(m, asked) <= u64::MAX ==> d.estimated_cost == estimate(m, asked)
    &&& d.estimated_cost <= asked.available && d.estimated_cost <= asked.task.max_call_cost
    &&& d.estimated_latency_ms == m.latency_ms
    &&& d.uncertainty == m.uncertainty
}

/// One score is at least another, as the values of finite numbers.
pub open spec fn scores_at_least(a: Binary64, b: Binary64) -> bool {
    a.finite() && b.finite() ==> a.value() >= b.value()
}

proof fn lemma_total_order(a: Binary64, b: Binary64)
    ensures
        a.total_rank() >= b.total_rank() ==> scores_at_least(a, b),
        a.total_rank() == b.total_rank() <==> a == b,
{
    if a.finite() && b.finite() {
        lemma_order_is_value_order(a, b);
    }
}

/// By task fit, a candidate of the same score has no better ranking; of the same ranking too, no
/// lower estimate; and of the same estimate too, no earlier name. Else the name alone decides.
pub open spec fn no_better_of_equals(inputs: RouteInputs, k: int, j: int) -> bool {
    let asked = Asked {
        task: inputs.task,
        node: inputs.node,
        input_tokens: inputs.input_tokens,
        available: inputs.available,
        excluded: inputs.excluded,
        quality_floor: inputs.quality_floor,
        health: inputs.health,
        health_hash: inputs.health_hash,
    };
    let ck = inputs.contribution(k);
    let cj = inputs.contribution(j);
    let ek = estimate(inputs.models[k], asked);
    let ej = estimate(inputs.models[j], asked);
    inputs.valuations[k].score == inputs.valuations[j].score ==> {
        &&& inputs.task_fit ==> scores_at_least(ck, cj)
        &&& inputs.task_fit && ck == cj && ek < u64::MAX && ej < u64::MAX ==> ek <= ej
        &&& (!inputs.task_fit || ck == cj && ek == ej) ==> !text_lt(
            inputs.models[j].id,
            inputs.models[k].id,
        )
    }
}

proof fn lemma_best(inputs: RouteInputs, k: int, j: int)
    requires
        inputs.best(inputs.models.len() as int, k),
        inputs.eligible(j),
    ensures
        scores_at_least(inputs.valuations[k].score, inputs.valuations[j].score),
        no_better_of_equals(inputs, k, j),
{
    lemma_total_order(inputs.valuations[k].score, inputs.valuations[j].score);
    lemma_total_order(inputs.contribution(k), inputs.contribution(j));
    lemma_estimate(inputs.models[k], request_of(inputs));
    lemma_estimate(inputs.models[j], request_of(inputs));
    lemma_text_irreflexive(inputs.models[k].id);
    crate::text::lemma_text_total(inputs.models[k].id, inputs.models[j].id);
    if text_lt(inputs.models[k].id, inputs.models[j].id) && text_lt(
        inputs.models[j].id,
        inputs.models[k].id,
    ) {
        crate::text::lemma_text_transitive(
            inputs.models[k].id,
            inputs.models[j].id,
            inputs.models[k].id,
        );
    }
}

/// A route by a snapshot gives a model of the snapshot that meets the request, whatever the scores:
/// it has every capability asked for, room for the call, is allowed, affordable, not excluded, not
/// known to be down, of the least class, and of the least quality. The decision is of that model at
/// that node, with its estimate, its evidence and its score, and no other such model has a higher
/// score.
pub proof fn lemma_route_meets_the_request(
    snapshot: RoutingSnapshotModel,
    asked: Asked,
    valuations: Seq<ValuationModel>,
    class: ExecutionClass,
    hash: Seq<char>,
    r: Result<RoutingDecision, EngineError>,
)
    requires
        snapshot.answered(asked, valuations, class, hash, r),
        r is Ok,
    ensures
        snapshot.nodes.contains_key(asked.node),
        1 <= snapshot.schema_version <= 4,
        ({
            let d = r->Ok_0.deep_view();
            let evidence = snapshot.nodes[asked.node].qualities;
            let by_fit = snapshot.schema_version == 4 && asked.node != "critic"@;
            exists|k: int|
                {
                    let m = #[trigger] snapshot.models[k];
                    let q = evidence[m.id].quality;
                    &&& 0 <= k < snapshot.models.len()
                    &&& names(d, m, asked)
                    &&& suits(m, asked, snapshot.captured_at_ms, class)
                    &&& evidence.contains_key(m.id)
                    &&& d.quality == Some(evidence[m.id])
                    &&& d.score == valuations[k].score
                    &&& d.routing_snapshot == Some(hash)
                    &&& reaches(q, asked.quality_floor)
                    &&& by_fit ==> snapshot.selection is Some && reaches(
                        q,
                        snapshot.selection->0.min_quality,
                    )
                    &&& forall|j: int|
                        0 <= j < snapshot.models.len() && suits(
                            #[trigger] snapshot.models[j],
                            asked,
                            snapshot.captured_at_ms,
                            class,
                        ) && surely_reaches(
                            evidence[snapshot.models[j].id].quality,
                            asked.quality_floor,
                        ) && (by_fit ==> surely_reaches(
                            evidence[snapshot.models[j].id].quality,
                            snapshot.selection->0.min_quality,
                        )) ==> scores_at_least(d.score, valuations[j].score)
                }
        }),
{
    let inputs = snapshot.inputs(asked, valuations, class, hash);
    let d = r->Ok_0.deep_view();
    let n = inputs.models.len() as int;
    let k = choose|k: int| #[trigger] inputs.best(n, k) && d == inputs.decision(k, d.decision_id);
    assert(request_of(inputs) == asked);
    lemma_suits(inputs, k);
    lemma_estimate(inputs.models[k], asked);
    lemma_first_fault_at(inputs.evidence_faults(), inputs.models.len(), k);
    super::lemma_best_meets_constraints(inputs, n, k);
    assert forall|j: int| 0 <= j < n && inputs.eligible(j) implies scores_at_least(
        d.score,
        #[trigger] valuations[j].score,
    ) by {
        lemma_best(inputs, k, j);
    }
    assert forall|j: int|
        0 <= j < snapshot.models.len() && suits(
            #[trigger] snapshot.models[j],
            asked,
            snapshot.captured_at_ms,
            class,
        ) && surely_reaches(
            snapshot.nodes[asked.node].qualities[snapshot.models[j].id].quality,
            asked.quality_floor,
        ) && (snapshot.schema_version == 4 && asked.node != "critic"@ ==> surely_reaches(
            snapshot.nodes[asked.node].qualities[snapshot.models[j].id].quality,
            snapshot.selection->0.min_quality,
        )) implies scores_at_least(d.score, valuations[j].score) by {
        lemma_suits(inputs, j);
        lemma_best(inputs, k, j);
    }
    assert(snapshot.models[k] == inputs.models[k]);
}

/// A route by the configured priors gives a model of the configuration that meets the request, of
/// the least quality by its prior, and of the highest score of all such models.
pub proof fn lemma_prior_route_meets_the_request(
    config: ConfigModel,
    asked: Asked,
    valuations: Seq<ValuationModel>,
    now: u64,
    r: Result<RoutingDecision, EngineError>,
)
    requires
        prior_inputs(config, asked, valuations, now).answered(r),
        r is Ok,
    ensures
        ({
            let d = r->Ok_0.deep_view();
            exists|k: int|
                {
                    let m = #[trigger] config.models[k];
                    &&& 0 <= k < config.models.len()
                    &&& names(d, m, asked)
                    &&& suits(m, asked, now, ExecutionClass::Simple)
                    &&& reaches(m.acceptance, asked.quality_floor)
                    &&& d.score == valuations[k].score
                    &&& d.quality is None && d.ranking is None && d.routing_snapshot is None
                    &&& d.weights_version == config.weights.version
                    &&& forall|j: int|
                        0 <= j < config.models.len() && suits(
                            #[trigger] config.models[j],
                            asked,
                            now,
                            ExecutionClass::Simple,
                        ) && surely_reaches(config.models[j].acceptance, asked.quality_floor)
                            ==> scores_at_least(d.score, valuations[j].score)
                }
        }),
{
    let inputs = prior_inputs(config, asked, valuations, now);
    let d = r->Ok_0.deep_view();
    let n = inputs.models.len() as int;
    let k = choose|k: int| #[trigger] inputs.best(n, k) && d == inputs.decision(k, d.decision_id);
    assert(request_of(inputs) == asked);
    lemma_suits(inputs, k);
    lemma_estimate(inputs.models[k], asked);
    super::lemma_best_meets_constraints(inputs, n, k);
    assert forall|j: int|
        0 <= j < config.models.len() && suits(
            #[trigger] config.models[j],
            asked,
            now,
            ExecutionClass::Simple,
        ) && surely_reaches(config.models[j].acceptance, asked.quality_floor) implies
        scores_at_least(d.score, valuations[j].score) by {
        lemma_suits(inputs, j);
        lemma_best(inputs, k, j);
    }
    assert(config.models[k] == inputs.models[k]);
}

/// Equals are told apart by ranking, estimate and name, in this order, where task fit decides, and
/// by name alone else.
pub proof fn lemma_equals_are_told_apart(inputs: RouteInputs, k: int, j: int)
    requires
        inputs.best(inputs.models.len() as int, k),
        inputs.eligible(j),
    ensures
        no_better_of_equals(inputs, k, j),
{
    lemma_best(inputs, k, j);
}

/// Success is owed: where the snapshot can be routed by, has evidence on each of its models, and
/// one of them meets the request, a model is given.
pub proof fn lemma_route_is_owed(
    snapshot: RoutingSnapshotModel,
    asked: Asked,
    valuations: Seq<ValuationModel>,
    class: ExecutionClass,
    hash: Seq<char>,
    r: Result<RoutingDecision, EngineError>,
    j: int,
)
    requires
        snapshot.answered(asked, valuations, class, hash, r),
        1 <= snapshot.schema_version <= 4,
        snapshot.schema_version == 4 ==> snapshot.selection is Some && snapshot.algorithm_version
            == Some("task-fit-v1"@),
        snapshot.nodes.contains_key(asked.node),
        forall|i: int|
            0 <= i < snapshot.models.len() ==> {
                let node = snapshot.nodes[asked.node];
                &&& node.qualities.contains_key(#[trigger] snapshot.models[i].id)
                &&& node.rankings.contains_key(snapshot.models[i].id)
            },
        0 <= j < snapshot.models.len(),
        suits(snapshot.models[j], asked, snapshot.captured_at_ms, class),
        surely_reaches(
            snapshot.nodes[asked.node].qualities[snapshot.models[j].id].quality,
            asked.quality_floor,
        ),
        snapshot.schema_version == 4 && asked.node != "critic"@ ==> surely_reaches(
            snapshot.nodes[asked.node].qualities[snapshot.models[j].id].quality,
            snapshot.selection->0.min_quality,
        ),
    ensures
        r is Ok,
{
    let inputs = snapshot.inputs(asked, valuations, class, hash);
    assert(request_of(inputs) == asked);
    lemma_suits(inputs, j);
    assert(inputs.eligible(j));
    assert forall|i: int| 0 <= i < inputs.models.len() implies (
    #[trigger] (inputs.evidence_faults())(i)) is None by {
        assert(snapshot.models[i].id == inputs.models[i].id);
    }
    crate::fault::lemma_no_fault(inputs.evidence_faults(), inputs.models.len());
}

proof fn lemma_contains_flag(s: Seq<Seq<char>>, on: bool, name: Seq<char>, t: Seq<char>)
    ensures
        (s + super::flag(on, name)).contains(t) <==> s.contains(t) || (on && t == name),
{
    let whole = s + super::flag(on, name);
    if s.contains(t) {
        let k = s.index_of(t);
        assert(whole[k] == t);
    }
    if on && t == name {
        assert(whole[s.len() as int] == t);
    }
    if whole.contains(t) {
        let k = whole.index_of(t);
        if k < s.len() {
            assert(s[k] == t);
        }
    }
}

#[verifier::spinoff_prover]
proof fn lemma_flags(
    b0: bool,
    b1: bool,
    b2: bool,
    b3: bool,
    b4: bool,
    b5: bool,
    b6: bool,
    b7: bool,
    b8: bool,
    b9: bool,
    b10: bool,
    t: Seq<char>,
)
    ensures
        super::reasons_of(b0, b1, b2, b3, b4, b5, b6, b7, b8, b9, b10).contains(t) <==> ({
            ||| b0 && t == "capabilities"@
            ||| b1 && t == "context"@
            ||| b2 && t == "allowed_models"@
            ||| b3 && t == "provider"@
            ||| b4 && t == "region"@
            ||| b5 && t == "local_only"@
            ||| b6 && t == "budget"@
            ||| b7 && t == "attempt_history_or_diversity"@
            ||| b8 && t == "quality_floor"@
            ||| b9 && t == "unavailable"@
            ||| b10 && t == "execution_class"@
        }),
{
    let e = Seq::<Seq<char>>::empty();
    let s0 = super::flag(b0, "capabilities"@);
    assert(e + s0 =~= s0);
    lemma_contains_flag(e, b0, "capabilities"@, t);
    let s1 = s0 + super::flag(b1, "context"@);
    lemma_contains_flag(s0, b1, "context"@, t);
    let s2 = s1 + super::flag(b2, "allowed_models"@);
    lemma_contains_flag(s1, b2, "allowed_models"@, t);
    let s3 = s2 + super::flag(b3, "provider"@);
    lemma_contains_flag(s2, b3, "provider"@, t);
    let s4 = s3 + super::flag(b4, "region"@);
    lemma_contains_flag(s3, b4, "region"@, t);
    let s5 = s4 + super::flag(b5, "local_only"@);
    lemma_contains_flag(s4, b5, "local_only"@, t);
    let s6 = s5 + super::flag(b6, "budget"@);
    lemma_contains_flag(s5, b6, "budget"@, t);
    let s7 = s6 + super::flag(b7, "attempt_history_or_diversity"@);
    lemma_contains_flag(s6, b7, "attempt_history_or_diversity"@, t);
    let s8 = s7 + super::flag(b8, "quality_floor"@);
    lemma_contains_flag(s7, b8, "quality_floor"@, t);
    let s9 = s8 + super::flag(b9, "unavailable"@);
    lemma_contains_flag(s8, b9, "unavailable"@, t);
    let s10 = s9 + super::flag(b10, "execution_class"@);
    lemma_contains_flag(s9, b10, "execution_class"@, t);
}

#[verifier::spinoff_prover]
proof fn lemma_reasons(inputs: RouteInputs, i: int, t: Seq<char>)
    ensures
        inputs.reasons(i).contains(t) <==> ({
            let m = inputs.models[i];
            let c = inputs.task.constraints;
            ||| inputs.incapable(i) && t == "capabilities"@
            ||| super::capped(
                super::capped(inputs.input_tokens + inputs.task.output_tokens) + 256,
            ) > m.context_tokens && t == "context"@
            ||| RouteInputs::barred(c.allowed_models, m.id) && t == "allowed_models"@
            ||| RouteInputs::barred(c.allowed_providers, m.provider) && t == "provider"@
            ||| RouteInputs::barred(c.allowed_regions, m.region) && t == "region"@
            ||| c.local_only && !m.local && t == "local_only"@
            ||| (inputs.cost(i) > inputs.available || inputs.cost(i) > inputs.task.max_call_cost)
                && t == "budget"@
            ||| inputs.excluded.contains(m.id) && t == "attempt_history_or_diversity"@
            ||| inputs.quality(i).less(inputs.required_quality()) && t == "quality_floor"@
            ||| inputs.unavailable(i) && t == "unavailable"@
            ||| m.execution_class.level() < inputs.minimum_class.level() && t
                == "execution_class"@
        }),
{
    let m = inputs.models[i];
    let c = inputs.task.constraints;
    let b0 = inputs.incapable(i);
    let b1 = super::capped(super::capped(inputs.input_tokens + inputs.task.output_tokens) + 256)
        > m.context_tokens;
    let b2 = RouteInputs::barred(c.allowed_models, m.id);
    let b3 = RouteInputs::barred(c.allowed_providers, m.provider);
    let b4 = RouteInputs::barred(c.allowed_regions, m.region);
    let b5 = c.local_only && !m.local;
    let b6 = inputs.cost(i) > inputs.available || inputs.cost(i) > inputs.task.max_call_cost;
    let b7 = inputs.excluded.contains(m.id);
    let b8 = inputs.quality(i).less(inputs.required_quality());
    let b9 = inputs.unavailable(i);
    let b10 = m.execution_class.level() < inputs.minimum_class.level();
    lemma_flags(b0, b1, b2, b3, b4, b5, b6, b7, b8, b9, b10, t);
}

proof fn lemma_reason_names()
    ensures
        ({
            let names = seq![
                "capabilities"@,
                "context"@,
                "allowed_models"@,
                "provider"@,
                "region"@,
                "local_only"@,
                "budget"@,
                "attempt_history_or_diversity"@,
                "quality_floor"@,
                "unavailable"@,
                "execution_class"@,
            ];
            names.no_duplicates()
        }),
{
    reveal_strlit("capabilities");
    reveal_strlit("context");
    reveal_strlit("allowed_models");
    reveal_strlit("provider");
    reveal_strlit("region");
    reveal_strlit("local_only");
    reveal_strlit("budget");
    reveal_strlit("attempt_history_or_diversity");
    reveal_strlit("quality_floor");
    reveal_strlit("unavailable");
    reveal_strlit("execution_class");
    assert("region"@[0] != "budget"@[0]);
    assert("capabilities"@.len() == 12 && "context"@.len() == 7 && "allowed_models"@.len() == 14
        && "provider"@.len() == 8 && "region"@.len() == 6 && "local_only"@.len() == 10
        && "budget"@.len() == 6 && "attempt_history_or_diversity"@.len() == 28
        && "quality_floor"@.len() == 13 && "unavailable"@.len() == 11
        && "execution_class"@.len() == 15);
}

/// Each reason names the constraint that a model fails, and no other: capabilities, context, the
/// three lists, locality, budget, attempts so far, quality, availability and class.
pub open spec fn explains(
    reasons: Seq<Seq<char>>,
    m: ModelModel,
    asked: Asked,
    at_ms: u64,
    class: ExecutionClass,
) -> bool {
    let c = asked.task.constraints;
    &&& reasons.contains("capabilities"@) <==> !is_capable(m, asked)
    &&& reasons.contains("context"@) <==> !has_room(m, asked)
    &&& reasons.contains("allowed_models"@) <==> !is_allowed(c.allowed_models, m.id)
    &&& reasons.contains("provider"@) <==> !is_allowed(c.allowed_providers, m.provider)
    &&& reasons.contains("region"@) <==> !is_allowed(c.allowed_regions, m.region)
    &&& reasons.contains("local_only"@) <==> c.local_only && !m.local
    &&& reasons.contains("budget"@) <==> !is_affordable(m, asked)
    &&& reasons.contains("attempt_history_or_diversity"@) <==> asked.excluded.contains(m.id)
    &&& reasons.contains("unavailable"@) <==> !is_up(m, asked, at_ms)
    &&& reasons.contains("execution_class"@) <==> !is_of_class(m, class)
}

proof fn lemma_explained(inputs: RouteInputs, i: int)
    requires
        0 <= i < inputs.models.len(),
    ensures
        explains(
            inputs.reasons(i),
            inputs.models[i],
            request_of(inputs),
            inputs.at_ms,
            inputs.minimum_class,
        ),
        surely_reaches(inputs.quality(i), inputs.quality_floor) && (inputs.policy is Some
            ==> surely_reaches(inputs.quality(i), inputs.policy->0.min_quality))
            ==> !inputs.reasons(i).contains("quality_floor"@),
        !inputs.reasons(i).contains("quality_floor"@) ==> reaches(
            inputs.quality(i),
            inputs.quality_floor,
        ) && (inputs.policy is Some ==> reaches(inputs.quality(i), inputs.policy->0.min_quality)),
{
    let names = seq![
        "capabilities"@,
        "context"@,
        "allowed_models"@,
        "provider"@,
        "region"@,
        "local_only"@,
        "budget"@,
        "attempt_history_or_diversity"@,
        "quality_floor"@,
        "unavailable"@,
        "execution_class"@,
    ];
    lemma_reason_names();
    assert forall|a: int| 0 <= a < 11 implies {
        let t = #[trigger] names[a];
        forall|b: int| 0 <= b < 11 && b != a ==> #[trigger] names[b] != t
    } by {}
    lemma_reasons(inputs, i, names[0]);
    lemma_reasons(inputs, i, names[1]);
    lemma_reasons(inputs, i, names[2]);
    lemma_reasons(inputs, i, names[3]);
    lemma_reasons(inputs, i, names[4]);
    lemma_reasons(inputs, i, names[5]);
    lemma_reasons(inputs, i, names[6]);
    lemma_reasons(inputs, i, names[7]);
    lemma_reasons(inputs, i, names[8]);
    lemma_reasons(inputs, i, names[9]);
    lemma_reasons(inputs, i, names[10]);
    lemma_capable(inputs, i);
    lemma_floors(inputs, i);
    lemma_estimate(inputs.models[i], request_of(inputs));
}

/// The models have different names.
pub open spec fn are_named_apart(models: Seq<ModelModel>) -> bool {
    forall|i: int, j: int|
        0 <= i < j < models.len() ==> (#[trigger] models[i]).id != (#[trigger] models[j]).id
}

proof fn lemma_rejected(inputs: RouteInputs, n: nat)
    requires
        n <= inputs.models.len(),
        are_named_apart(inputs.models),
    ensures
        forall|i: int|
            0 <= i < n ==> {
                let id = (#[trigger] inputs.models[i]).id;
                &&& inputs.rejected(n).contains_key(id) <==> !inputs.eligible(i)
                &&& !inputs.eligible(i) ==> inputs.rejected(n)[id] == inputs.reasons(i)
            },
        forall|i: int|
            n <= i < inputs.models.len() ==> !inputs.rejected(n).contains_key(
                (#[trigger] inputs.models[i]).id,
            ),
    decreases n,
{
    if n > 0 {
        lemma_rejected(inputs, (n - 1) as nat);
    }
}

/// A decision tells why each other model was left out: a model of the snapshot is listed exactly
/// where it is no candidate, with the names of the constraints that it fails.
pub proof fn lemma_exclusions_are_explained(
    snapshot: RoutingSnapshotModel,
    asked: Asked,
    valuations: Seq<ValuationModel>,
    class: ExecutionClass,
    hash: Seq<char>,
    r: Result<RoutingDecision, EngineError>,
    i: int,
)
    requires
        snapshot.answered(asked, valuations, class, hash, r),
        r is Ok,
        are_named_apart(snapshot.models),
        0 <= i < snapshot.models.len(),
    ensures
        ({
            let excluded = r->Ok_0.deep_view().excluded;
            let m = snapshot.models[i];
            let q = snapshot.nodes[asked.node].qualities[m.id].quality;
            let by_fit = snapshot.schema_version == 4 && asked.node != "critic"@;
            let sure = surely_reaches(q, asked.quality_floor) && (by_fit ==> surely_reaches(
                q,
                snapshot.selection->0.min_quality,
            ));
            &&& suits(m, asked, snapshot.captured_at_ms, class) && sure
                ==> !excluded.contains_key(m.id)
            &&& !suits(m, asked, snapshot.captured_at_ms, class) ==> excluded.contains_key(m.id)
            &&& excluded.contains_key(m.id) ==> {
                &&& explains(excluded[m.id], m, asked, snapshot.captured_at_ms, class)
                &&& sure ==> !excluded[m.id].contains("quality_floor"@)
            }
            &&& !excluded.contains_key(m.id) || !excluded[m.id].contains("quality_floor"@)
                ==> reaches(q, asked.quality_floor)
        }),
{
    let inputs = snapshot.inputs(asked, valuations, class, hash);
    assert(request_of(inputs) == asked);
    assert(snapshot.models[i] == inputs.models[i]);
    lemma_rejected(inputs, inputs.models.len());
    lemma_suits(inputs, i);
    lemma_explained(inputs, i);
}

/// Where no model is a candidate, the error says so, and tells of each model why.
pub proof fn lemma_refusal_is_explained(
    snapshot: RoutingSnapshotModel,
    asked: Asked,
    valuations: Seq<ValuationModel>,
    class: ExecutionClass,
    hash: Seq<char>,
    r: Result<RoutingDecision, EngineError>,
    i: int,
)
    requires
        snapshot.answered(asked, valuations, class, hash, r),
        r is Err,
        r->Err_0.deep_view().details.at("category"@) == JsonModel::Text("no_candidate"@),
        are_named_apart(snapshot.models),
        0 <= i < snapshot.models.len(),
    ensures
        ({
            let m = snapshot.models[i];
            let listed = r->Err_0.deep_view().details.at("excluded"@).at(m.id);
            &&& r->Err_0.deep_view().kind == "routing"@
            &&& exists|reasons: Seq<Seq<char>>| #[trigger]
                explains(reasons, m, asked, snapshot.captured_at_ms, class) && listed
                    == JsonModel::Array(
                    Seq::new(reasons.len(), |k: int| JsonModel::Text(reasons[k])),
                ) && reasons.len() > 0
        }),
{
    let inputs = snapshot.inputs(asked, valuations, class, hash);
    assert(request_of(inputs) == asked);
    assert(snapshot.models[i] == inputs.models[i]);
    assert(snapshot.fault(asked.node) is None);
    lemma_rejected(inputs, inputs.models.len());
    lemma_explained(inputs, i);
    let e = r->Err_0.deep_view();
    reveal_strlit("category");
    reveal_strlit("excluded");
    assert("category"@ != "excluded"@) by {
        assert("category"@[0] != "excluded"@[0]);
    }
    if super::first_fault(inputs.evidence_faults(), inputs.models.len()) is Some {
        let at = crate::fault::lemma_first_fault_is_one(
            inputs.evidence_faults(),
            inputs.models.len(),
        );
    }
    assert(!inputs.eligible(i));
    let reasons = inputs.reasons(i);
    assert(explains(reasons, snapshot.models[i], asked, snapshot.captured_at_ms, class));
}

/// A decision tells what it rests on: the weights, the health, the snapshot, and of the chosen
/// model the uncertainty, the latency, its quality and its ranking. The ranking's contribution
/// stands among the parts of the score.
pub proof fn lemma_decision_tells_what_it_rests_on(
    inputs: RouteInputs,
    k: int,
    decision_id: Seq<char>,
    part: Seq<char>,
)
    requires
        0 <= k < inputs.models.len(),
    ensures
        ({
            let d = inputs.decision(k, decision_id);
            let m = inputs.models[k];
            &&& d.decision_id == decision_id && d.node_id == inputs.node
            &&& d.model_id == m.id && d.model_version == m.version
            &&& d.estimated_input == inputs.input_tokens
            &&& d.estimated_latency_ms == m.latency_ms && d.uncertainty == m.uncertainty
            &&& d.score == inputs.valuations[k].score
            &&& d.weights_version == inputs.weights_version
            &&& d.metrics_snapshot == inputs.health_hash
            &&& d.routing_snapshot == inputs.snapshot_hash
            &&& inputs.qualities is Some ==> d.quality == Some(inputs.qualities->0[m.id])
            &&& inputs.qualities is None ==> d.quality is None
            &&& inputs.rankings is Some ==> d.ranking == Some(inputs.rankings->0[m.id])
                && d.breakdown.dom().contains("ranking"@) && d.breakdown["ranking"@]
                == inputs.rankings->0[m.id].contribution
            &&& inputs.rankings is None ==> d.ranking is None && d.breakdown
                == inputs.valuations[k].breakdown
            &&& part != "ranking"@ ==> d.breakdown.dom().contains(part)
                == inputs.valuations[k].breakdown.dom().contains(part)
            &&& part != "ranking"@ && d.breakdown.dom().contains(part) ==> d.breakdown[part]
                == inputs.valuations[k].breakdown[part]
        }),
{
}

/// A snapshot can be routed by exactly where it is of a version that is read, has a profile of the
/// node, and, from the version on that fits tasks, has the preferences and the algorithm for that.
pub proof fn lemma_which_snapshot_is_routed_by(snapshot: RoutingSnapshotModel, node: Seq<char>)
    ensures
        snapshot.fault(node) is None <==> {
            &&& 1 <= snapshot.schema_version <= 4
            &&& snapshot.schema_version == 4 ==> snapshot.selection is Some
                && snapshot.algorithm_version == Some("task-fit-v1"@)
            &&& snapshot.nodes.dom().contains(node)
        },
        snapshot.fault(node) is Some ==> snapshot.fault(node)->0.kind == "routing"@,
{
}

} // verus!
