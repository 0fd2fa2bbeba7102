//! Routing: hard constraints first, then the best valued candidate.
pub mod choice;
pub mod profiles;
pub mod rankings;

use crate::assessment::ExecutionClass;
use crate::binary64::{number, Binary64, ZERO};
use crate::contracts::configuration::{Config, ConfigModel, Model, ModelModel};
use crate::contracts::selection::{SelectionPolicy, SelectionPolicyModel};
use crate::contracts::task::{TaskSpec, TaskSpecModel};
use crate::fault::{
    answers, failure, first_fault, lemma_first_fault, EngineError, EngineErrorModel,
};
use crate::identity::{digest, hex, id, identity_shape, sha256};
use crate::json::{
    empty_object, text_array, text_array_value, text_value, Json, JsonModel, ObjectBuilder,
};
use crate::model::Duplicate;
use crate::text::{
    lemma_text_irreflexive, lemma_text_total, lemma_text_transitive, same_text, text_less, text_lt,
    TextMap, TextSet,
};
pub use profiles::{
    FallbackTier, NodeProfile, NodeProfileModel, ResolvedQuality, ResolvedQualityModel,
    RoutingSnapshot, RoutingSnapshotModel,
};
pub use rankings::{RankingStatus, ResolvedRanking, ResolvedRankingModel};
use vstd::prelude::*;

verus! {

/// What is known of a model's recent calls.
#[derive(Debug)]
pub struct Health {
    pub calls: u64,
    pub accepted: u64,
    pub failures: u64,
    pub unavailable_until: u64,
}

/// What a `Health` holds.
#[verifier::ext_equal]
pub ghost struct HealthModel {
    pub calls: u64,
    pub accepted: u64,
    pub failures: u64,
    pub unavailable_until: u64,
}

impl DeepView for Health {
    type V = HealthModel;

    open spec fn deep_view(&self) -> HealthModel {
        HealthModel {
            calls: self.calls.deep_view(),
            accepted: self.accepted.deep_view(),
            failures: self.failures.deep_view(),
            unavailable_until: self.unavailable_until.deep_view(),
        }
    }
}

impl Duplicate for Health {
    fn duplicate(&self) -> (r: Self) {
        Health {
            calls: self.calls.duplicate(),
            accepted: self.accepted.duplicate(),
            failures: self.failures.duplicate(),
            unavailable_until: self.unavailable_until.duplicate(),
        }
    }
}

impl Clone for Health {
    fn clone(&self) -> (r: Self)
        ensures
            r.deep_view() == self.deep_view(),
    {
        self.duplicate()
    }
}

/// The value of a candidate: its score, and its parts but for the contribution of a ranking.
#[derive(Debug)]
pub struct Valuation {
    pub score: Binary64,
    pub breakdown: TextMap<Binary64>,
}

/// What a `Valuation` holds.
#[verifier::ext_equal]
pub ghost struct ValuationModel {
    pub score: Binary64,
    pub breakdown: Map<Seq<char>, Binary64>,
}

impl DeepView for Valuation {
    type V = ValuationModel;

    open spec fn deep_view(&self) -> ValuationModel {
        ValuationModel {
            score: self.score.deep_view(),
            breakdown: self.breakdown.deep_view(),
        }
    }
}

impl Duplicate for Valuation {
    fn duplicate(&self) -> (r: Self) {
        Valuation {
            score: self.score.duplicate(),
            breakdown: self.breakdown.duplicate(),
        }
    }
}

impl Clone for Valuation {
    fn clone(&self) -> (r: Self)
        ensures
            r.deep_view() == self.deep_view(),
    {
        self.duplicate()
    }
}

/// The chosen model, with what it was chosen by.
#[derive(Debug)]
pub struct RoutingDecision {
    pub decision_id: String,
    pub node_id: String,
    pub model_id: String,
    pub model_version: String,
    pub estimated_cost: u64,
    pub estimated_input: u64,
    pub estimated_latency_ms: u64,
    pub score: Binary64,
    pub breakdown: TextMap<Binary64>,
    pub excluded: TextMap<Vec<String>>,
    pub weights_version: String,
    pub metrics_snapshot: String,
    pub uncertainty: Binary64,
    pub quality: Option<ResolvedQuality>,
    pub ranking: Option<ResolvedRanking>,
    pub routing_snapshot: Option<String>,
}

/// What a `RoutingDecision` holds.
#[verifier::ext_equal]
pub ghost struct RoutingDecisionModel {
    pub decision_id: Seq<char>,
    pub node_id: Seq<char>,
    pub model_id: Seq<char>,
    pub model_version: Seq<char>,
    pub estimated_cost: u64,
    pub estimated_input: u64,
    pub estimated_latency_ms: u64,
    pub score: Binary64,
    pub breakdown: Map<Seq<char>, Binary64>,
    pub excluded: Map<Seq<char>, Seq<Seq<char>>>,
    pub weights_version: Seq<char>,
    pub metrics_snapshot: Seq<char>,
    pub uncertainty: Binary64,
    pub quality: Option<ResolvedQualityModel>,
    pub ranking: Option<ResolvedRankingModel>,
    pub routing_snapshot: Option<Seq<char>>,
}

impl DeepView for RoutingDecision {
    type V = RoutingDecisionModel;

    open spec fn deep_view(&self) -> RoutingDecisionModel {
        RoutingDecisionModel {
            decision_id: self.decision_id.deep_view(),
            node_id: self.node_id.deep_view(),
            model_id: self.model_id.deep_view(),
            model_version: self.model_version.deep_view(),
            estimated_cost: self.estimated_cost.deep_view(),
            estimated_input: self.estimated_input.deep_view(),
            estimated_latency_ms: self.estimated_latency_ms.deep_view(),
            score: self.score.deep_view(),
            breakdown: self.breakdown.deep_view(),
            excluded: self.excluded.deep_view(),
            weights_version: self.weights_version.deep_view(),
            metrics_snapshot: self.metrics_snapshot.deep_view(),
            uncertainty: self.uncertainty.deep_view(),
            quality: self.quality.deep_view(),
            ranking: self.ranking.deep_view(),
            routing_snapshot: self.routing_snapshot.deep_view(),
        }
    }
}

impl Duplicate for RoutingDecision {
    fn duplicate(&self) -> (r: Self) {
        RoutingDecision {
            decision_id: self.decision_id.duplicate(),
            node_id: self.node_id.duplicate(),
            model_id: self.model_id.duplicate(),
            model_version: self.model_version.duplicate(),
            estimated_cost: self.estimated_cost.duplicate(),
            estimated_input: self.estimated_input.duplicate(),
            estimated_latency_ms: self.estimated_latency_ms.duplicate(),
            score: self.score.duplicate(),
            breakdown: self.breakdown.duplicate(),
            excluded: self.excluded.duplicate(),
            weights_version: self.weights_version.duplicate(),
            metrics_snapshot: self.metrics_snapshot.duplicate(),
            uncertainty: self.uncertainty.duplicate(),
            quality: self.quality.duplicate(),
            ranking: self.ranking.duplicate(),
            routing_snapshot: self.routing_snapshot.duplicate(),
        }
    }
}

impl Clone for RoutingDecision {
    fn clone(&self) -> (r: Self)
        ensures
            r.deep_view() == self.deep_view(),
    {
        self.duplicate()
    }
}

/// What a node of a task asks for.
pub struct RouteRequest<'a> {
    pub task: &'a TaskSpec,
    pub node: &'a str,
    pub input_tokens: u64,
    pub available: u64,
    pub excluded: &'a TextSet,
    pub quality_floor: Binary64,
    pub health: &'a TextMap<Health>,
    /// The serialized form of `health`.
    pub health_encoded: &'a [u8],
}

/// Everything that decides a route.
#[verifier::ext_equal]
pub ghost struct RouteInputs {
    pub models: Seq<ModelModel>,
    pub valuations: Seq<ValuationModel>,
    pub task: TaskSpecModel,
    pub node: Seq<char>,
    pub input_tokens: u64,
    pub available: u64,
    pub excluded: Set<Seq<char>>,
    pub quality_floor: Binary64,
    pub health: Map<Seq<char>, HealthModel>,
    pub health_hash: Seq<char>,
    pub weights_version: Seq<char>,
    /// Quality by model, where a profile gives it.
    pub qualities: Option<Map<Seq<char>, ResolvedQualityModel>>,
    /// Ranking by model, where a profile gives it.
    pub rankings: Option<Map<Seq<char>, ResolvedRankingModel>>,
    pub policy: Option<SelectionPolicyModel>,
    pub task_fit: bool,
    pub at_ms: u64,
    pub minimum_class: ExecutionClass,
    pub snapshot_hash: Option<Seq<char>>,
}

/// At most the greatest `u64`.
pub open spec fn capped(n: int) -> int {
    if n > u64::MAX {
        u64::MAX as int
    } else {
        n
    }
}

/// The text alone where it applies, else nothing.
pub open spec fn flag(applies: bool, reason: Seq<char>) -> Seq<Seq<char>> {
    if applies {
        seq![reason]
    } else {
        Seq::empty()
    }
}

/// What tokens cost at given prices.
pub open spec fn token_cost(input: u64, input_price: u64, output: u64, output_price: u64) -> int {
    capped(capped(input * input_price) + capped(output * output_price))
}

impl RouteInputs {
    pub open spec fn quality(self, i: int) -> Binary64 {
        match self.qualities {
            Some(q) => q[self.models[i].id].quality,
            None => self.models[i].acceptance,
        }
    }

    pub open spec fn contribution(self, i: int) -> Binary64 {
        match self.rankings {
            Some(q) => q[self.models[i].id].contribution,
            None => number(ZERO),
        }
    }

    /// The estimated cost of a call to a model.
    pub open spec fn cost(self, i: int) -> int {
        token_cost(
            self.input_tokens,
            self.models[i].input_price,
            self.task.output_tokens,
            self.models[i].output_price,
        )
    }

    /// A capability that the request needs.
    pub open spec fn needs(self, c: Seq<char>) -> bool {
        ||| self.task.constraints.required_capabilities.contains(c)
        ||| c == "text"@
        ||| c == "tools"@ && self.task.tools.len() > 0 && self.node != "critic"@
        ||| c == "json"@ && (self.task.acceptance.json_object || self.node == "critic"@)
    }

    pub open spec fn incapable(self, i: int) -> bool {
        exists|c: Seq<char>| #[trigger]
            self.needs(c) && !self.models[i].capabilities.contains(c)
    }

    /// The quality that a candidate must have at least.
    pub open spec fn required_quality(self) -> Binary64 {
        match self.policy {
            Some(p) => self.quality_floor.greater_of(p.min_quality),
            None => self.quality_floor,
        }
    }

    pub open spec fn unavailable(self, i: int) -> bool {
        let id = self.models[i].id;
        self.health.dom().contains(id) && self.health[id].unavailable_until > self.at_ms
    }

    /// An allow list that is not empty and lacks the name.
    pub open spec fn barred(allowed: Set<Seq<char>>, name: Seq<char>) -> bool {
        (exists|t: Seq<char>| #[trigger] allowed.contains(t)) && !allowed.contains(name)
    }

    /// Why a model cannot be a candidate.
    pub open spec fn reasons(self, i: int) -> Seq<Seq<char>> {
        let m = self.models[i];
        let c = self.task.constraints;
        flag(self.incapable(i), "capabilities"@) + flag(
            capped(capped(self.input_tokens + self.task.output_tokens) + 256) > m.context_tokens,
            "context"@,
        ) + flag(Self::barred(c.allowed_models, m.id), "allowed_models"@) + flag(
            Self::barred(c.allowed_providers, m.provider),
            "provider"@,
        ) + flag(Self::barred(c.allowed_regions, m.region), "region"@) + flag(
            c.local_only && !m.local,
            "local_only"@,
        ) + flag(
            self.cost(i) > self.available || self.cost(i) > self.task.max_call_cost,
            "budget"@,
        ) + flag(self.excluded.contains(m.id), "attempt_history_or_diversity"@) + flag(
            self.quality(i).less(self.required_quality()),
            "quality_floor"@,
        ) + flag(self.unavailable(i), "unavailable"@) + flag(
            m.execution_class.level() < self.minimum_class.level(),
            "execution_class"@,
        )
    }

    /// A model meets every hard constraint.
    pub open spec fn admitted(self, i: int) -> bool {
        let m = self.models[i];
        let c = self.task.constraints;
        &&& !self.incapable(i)
        &&& capped(capped(self.input_tokens + self.task.output_tokens) + 256) <= m.context_tokens
        &&& !Self::barred(c.allowed_models, m.id)
        &&& !Self::barred(c.allowed_providers, m.provider)
        &&& !Self::barred(c.allowed_regions, m.region)
        &&& c.local_only ==> m.local
        &&& self.cost(i) <= self.available
        &&& self.cost(i) <= self.task.max_call_cost
        &&& !self.excluded.contains(m.id)
        &&& !self.quality(i).less(self.required_quality())
        &&& !self.unavailable(i)
        &&& m.execution_class.level() >= self.minimum_class.level()
    }

    pub open spec fn eligible(self, i: int) -> bool {
        0 <= i < self.models.len() && self.reasons(i).len() == 0
    }

    /// The reasons by model, of the first `n` models.
    pub open spec fn rejected(self, n: nat) -> Map<Seq<char>, Seq<Seq<char>>>
        decreases n,
    {
        if n == 0 {
            Map::empty()
        } else {
            let before = self.rejected((n - 1) as nat);
            if self.eligible(n - 1) {
                before
            } else {
                before.insert(self.models[n - 1].id, self.reasons(n - 1))
            }
        }
    }

    /// Candidate `a` is better than `b`: by score, under task fit then by ranking and cost, and
    /// at last by name.
    pub open spec fn beats(self, a: int, b: int) -> bool {
        let sa = self.valuations[a].score.total_rank();
        let sb = self.valuations[b].score.total_rank();
        let ca = self.contribution(a).total_rank();
        let cb = self.contribution(b).total_rank();
        if sa != sb {
            sa > sb
        } else if self.task_fit && ca != cb {
            ca > cb
        } else if self.task_fit && self.cost(a) != self.cost(b) {
            self.cost(a) < self.cost(b)
        } else {
            text_lt(self.models[a].id, self.models[b].id)
        }
    }

    /// `k` is the best candidate of the first `n` models, and the first of equals.
    pub open spec fn best(self, n: int, k: int) -> bool {
        &&& 0 <= k < n
        &&& self.eligible(k)
        &&& forall|j: int| 0 <= j < k && #[trigger] self.eligible(j) ==> self.beats(k, j)
        &&& forall|j: int| k < j < n && #[trigger] self.eligible(j) ==> !self.beats(j, k)
    }

    /// The models that the evidence lacks.
    pub open spec fn evidence_faults(self) -> spec_fn(int) -> Option<EngineErrorModel> {
        |i: int|
            if self.qualities is Some && !self.qualities->0.dom().contains(self.models[i].id) {
                Some(failure("routing"@, "snapshot lacks model quality evidence"@))
            } else if self.rankings is Some && !self.rankings->0.dom().contains(
                self.models[i].id,
            ) {
                Some(failure("routing"@, "snapshot lacks model ranking evidence"@))
            } else {
                None
            }
    }

    /// Why there is no decision.
    pub open spec fn fault(self) -> Option<EngineErrorModel> {
        match first_fault(self.evidence_faults(), self.models.len()) {
            Some(e) => Some(e),
            None => if exists|i: int| #[trigger] self.eligible(i) {
                None
            } else {
                Some(no_candidate(self.rejected(self.models.len())))
            },
        }
    }

    /// The decision for a candidate.
    pub open spec fn decision(self, k: int, decision_id: Seq<char>) -> RoutingDecisionModel {
        let m = self.models[k];
        RoutingDecisionModel {
            decision_id,
            node_id: self.node,
            model_id: m.id,
            model_version: m.version,
            estimated_cost: self.cost(k) as u64,
            estimated_input: self.input_tokens,
            estimated_latency_ms: m.latency_ms,
            score: self.valuations[k].score,
            breakdown: match self.rankings {
                Some(q) => self.valuations[k].breakdown.insert("ranking"@, q[m.id].contribution),
                None => self.valuations[k].breakdown,
            },
            excluded: self.rejected(self.models.len()),
            weights_version: self.weights_version,
            metrics_snapshot: self.health_hash,
            uncertainty: m.uncertainty,
            quality: match self.qualities {
                Some(q) => Some(q[m.id]),
                None => None,
            },
            ranking: match self.rankings {
                Some(q) => Some(q[m.id]),
                None => None,
            },
            routing_snapshot: self.snapshot_hash,
        }
    }

    /// `r` is the answer to the request.
    pub open spec fn answered(self, r: Result<RoutingDecision, EngineError>) -> bool {
        &&& answers(r, self.fault())
        &&& r is Ok ==> {
            let d = r->Ok_0.deep_view();
            &&& identity_shape(d.decision_id)
            &&& exists|k: int| #[trigger]
                self.best(self.models.len() as int, k) && d == self.decision(k, d.decision_id)
        }
    }
}

/// Reasons by model, as a value.
pub open spec fn reasons_model(rejected: Map<Seq<char>, Seq<Seq<char>>>) -> JsonModel {
    JsonModel::Object(rejected.map_values(|reasons: Seq<Seq<char>>| text_array(reasons)))
}

/// The error where no model is a candidate.
pub open spec fn no_candidate(rejected: Map<Seq<char>, Seq<Seq<char>>>) -> EngineErrorModel {
    EngineErrorModel {
        details: empty_object().with("category"@, JsonModel::Text("no_candidate"@)).with(
            "excluded"@,
            reasons_model(rejected),
        ),
        ..failure("routing"@, "no model satisfies all hard constraints"@)
    }
}

fn reasons_value(rejected: &TextMap<Vec<String>>) -> (r: Json)
    ensures
        r@ == reasons_model(rejected.deep_view()),
{
    let n: usize = rejected.len();
    let ghost all = rejected.deep_view();
    let mut out: ObjectBuilder = ObjectBuilder::new();
    let mut i: usize = 0;
    while i < n
        invariant
            i <= n,
            n == rejected.keys().len(),
            n == rejected.values().len(),
            all == rejected.deep_view(),
            rejected.keys().no_duplicates(),
            forall|j: int|
                0 <= j < n ==> rejected.spec_get(#[trigger] rejected.keys()[j]) == Some(
                    rejected.values()[j],
                ),
            out@ is Object,
            forall|t: Seq<char>| #[trigger]
                out@->Object_0.dom().contains(t) <==> (exists|j: int|
                    0 <= j < i && #[trigger] rejected.keys()[j] == t),
            forall|t: Seq<char>| #[trigger]
                out@->Object_0.dom().contains(t) ==> out@->Object_0[t] == text_array(all[t]),
        decreases n - i,
    {
        let name: &str = rejected.key_at(i).as_str();
        let reasons: &Vec<String> = rejected.value_at(i);
        let ghost before = out@->Object_0;
        proof {
            assert(rejected.has(name@));
            assert(all[name@] == reasons.deep_view());
        }
        out = out.with(name, text_array_value(reasons));
        proof {
            let now = out@->Object_0;
            assert(now =~= before.insert(name@, text_array(all[name@])));
            assert forall|t: Seq<char>| #[trigger]
                now.dom().contains(t) <==> (exists|j: int|
                    0 <= j < i + 1 && #[trigger] rejected.keys()[j] == t) by {
                assert(now.dom().contains(t) <==> before.dom().contains(t) || t == name@);
                assert(rejected.keys()[i as int] == name@);
            }
        }
        i += 1;
    }
    proof {
        let m = out@->Object_0;
        let want = reasons_model(all)->Object_0;
        assert forall|t: Seq<char>| m.dom().contains(t) == want.dom().contains(t) by {
            assert(all.dom().contains(t) == rejected.has(t));
        }
        assert(m =~= want);
    }
    out.build()
}

/// `a * b`, at most the greatest `u64`.
pub fn capped_product(a: u64, b: u64) -> (r: u64)
    ensures
        r == capped(a * b),
{
    proof {
        assert(a * b <= 0xffff_ffff_ffff_ffff * 0xffff_ffff_ffff_ffff) by (nonlinear_arith)
            requires
                a <= 0xffff_ffff_ffff_ffff,
                b <= 0xffff_ffff_ffff_ffff,
        ;
    }
    let p: u128 = a as u128 * b as u128;
    if p > 0xffff_ffff_ffff_ffff {
        0xffff_ffff_ffff_ffff
    } else {
        p as u64
    }
}

/// What tokens cost at given prices.
pub fn cost_of(input: u64, input_price: u64, output: u64, output_price: u64) -> (r: u64)
    ensures
        r == token_cost(input, input_price, output, output_price),
{
    proof {
        assert(input * input_price >= 0) by (nonlinear_arith);
        assert(output * output_price >= 0) by (nonlinear_arith);
    }
    capped_product(input, input_price).saturating_add(capped_product(output, output_price))
}

/// A request with the evidence that decides it.
struct Route<'a> {
    models: &'a Vec<Model>,
    valuations: &'a Vec<Valuation>,
    request: &'a RouteRequest<'a>,
    weights_version: &'a String,
    profile: Option<&'a NodeProfile>,
    ranked: bool,
    policy: Option<&'a SelectionPolicy>,
    task_fit: bool,
    at_ms: u64,
    minimum_class: ExecutionClass,
    snapshot_encoded: Option<&'a [u8]>,
}

impl<'a> Route<'a> {
    spec fn inputs(&self) -> RouteInputs {
        RouteInputs {
            models: self.models.deep_view(),
            valuations: self.valuations.deep_view(),
            task: self.request.task.deep_view(),
            node: self.request.node@,
            input_tokens: self.request.input_tokens,
            available: self.request.available,
            excluded: self.request.excluded.deep_view(),
            quality_floor: self.request.quality_floor,
            health: self.request.health.deep_view(),
            health_hash: hex(sha256(self.request.health_encoded@)),
            weights_version: self.weights_version@,
            qualities: match self.profile {
                Some(node) => Some(node.qualities.deep_view()),
                None => None,
            },
            rankings: match self.profile {
                Some(node) => if self.ranked {
                    Some(node.rankings.deep_view())
                } else {
                    None
                },
                None => None,
            },
            policy: self.policy.deep_view(),
            task_fit: self.task_fit,
            at_ms: self.at_ms,
            minimum_class: self.minimum_class,
            snapshot_hash: match self.snapshot_encoded {
                Some(bytes) => Some(hex(sha256(bytes@))),
                None => None,
            },
        }
    }

    fn cost(&self, i: usize) -> (r: u64)
        requires
            i < self.models@.len(),
        ensures
            r == self.inputs().cost(i as int),
    {
        let m: &Model = &self.models[i];
        cost_of(
            self.request.input_tokens,
            m.input_price,
            self.request.task.output_tokens,
            m.output_price,
        )
    }

    fn is_incapable(&self, i: usize) -> (r: bool)
        requires
            i < self.models@.len(),
        ensures
            r == self.inputs().incapable(i as int),
    {
        let ghost inputs = self.inputs();
        let m: &Model = &self.models[i];
        assert(inputs.models[i as int] == m.deep_view());
        let critic: bool = same_text(self.request.node, "critic");
        if !self.request.task.constraints.required_capabilities.is_subset(&m.capabilities) {
            proof {
                let c = choose|c: Seq<char>|
                    inputs.task.constraints.required_capabilities.contains(c)
                        && !m.capabilities.deep_view().contains(c);
                assert(inputs.needs(c));
            }
            return true;
        }
        if !m.capabilities.contains("text") {
            assert(inputs.needs("text"@));
            return true;
        }
        if self.request.task.tools.len() > 0 && !critic && !m.capabilities.contains("tools") {
            assert(inputs.needs("tools"@));
            return true;
        }
        if (self.request.task.acceptance.json_object || critic) && !m.capabilities.contains(
            "json",
        ) {
            assert(inputs.needs("json"@));
            return true;
        }
        false
    }

    fn quality(&self, i: usize) -> (r: Binary64)
        requires
            i < self.models@.len(),
            self.profile is Some ==> self.profile->0.qualities.has(self.models@[i as int].id@),
        ensures
            r == self.inputs().quality(i as int),
    {
        let m: &Model = &self.models[i];
        match self.profile {
            Some(node) => match node.qualities.get(m.id.as_str()) {
                Some(q) => q.quality,
                None => m.acceptance,
            },
            None => m.acceptance,
        }
    }

    fn contribution(&self, i: usize) -> (r: Binary64)
        requires
            i < self.models@.len(),
            self.profile is Some && self.ranked ==> self.profile->0.rankings.has(
                self.models@[i as int].id@,
            ),
        ensures
            r == self.inputs().contribution(i as int),
    {
        let m: &Model = &self.models[i];
        match self.profile {
            Some(node) => if self.ranked {
                match node.rankings.get(m.id.as_str()) {
                    Some(q) => q.contribution,
                    None => number(ZERO),
                }
            } else {
                number(ZERO)
            },
            None => number(ZERO),
        }
    }

    fn is_unavailable(&self, i: usize) -> (r: bool)
        requires
            i < self.models@.len(),
        ensures
            r == self.inputs().unavailable(i as int),
    {
        match self.request.health.get(self.models[i].id.as_str()) {
            Some(h) => h.unavailable_until > self.at_ms,
            None => false,
        }
    }

    fn reasons(&self, i: usize) -> (r: Vec<String>)
        requires
            i < self.models@.len(),
            self.profile is Some ==> self.profile->0.qualities.has(self.models@[i as int].id@),
        ensures
            r.deep_view() == self.inputs().reasons(i as int),
    {
        let m: &Model = &self.models[i];
        let task: &TaskSpec = self.request.task;
        let cost: u64 = self.cost(i);
        let required: Binary64 = match self.policy {
            Some(policy) => self.request.quality_floor.max(policy.min_quality),
            None => self.request.quality_floor,
        };
        let needed: u64 = self.request.input_tokens.saturating_add(
            task.output_tokens,
        ).saturating_add(256);
        assert(self.inputs().models[i as int] == m.deep_view());
        let mut out: Vec<String> = Vec::new();
        assert(out.deep_view() =~= Seq::empty());
        note(&mut out, self.is_incapable(i), "capabilities");
        note(&mut out, needed > m.context_tokens, "context");
        note(&mut out, is_barred(&task.constraints.allowed_models, m.id.as_str()), "allowed_models");
        note(
            &mut out,
            is_barred(&task.constraints.allowed_providers, m.provider.as_str()),
            "provider",
        );
        note(&mut out, is_barred(&task.constraints.allowed_regions, m.region.as_str()), "region");
        note(&mut out, task.constraints.local_only && !m.local, "local_only");
        note(&mut out, cost > self.request.available || cost > task.max_call_cost, "budget");
        note(
            &mut out,
            self.request.excluded.contains(m.id.as_str()),
            "attempt_history_or_diversity",
        );
        note(&mut out, self.quality(i).lt(required), "quality_floor");
        note(&mut out, self.is_unavailable(i), "unavailable");
        note(&mut out, m.execution_class.below(self.minimum_class), "execution_class");
        assert(out.deep_view() =~= self.inputs().reasons(i as int));
        out
    }

    fn beats(&self, a: usize, b: usize) -> (r: bool)
        requires
            a < self.models@.len(),
            b < self.models@.len(),
            self.valuations@.len() == self.models@.len(),
            self.profile is Some && self.ranked ==> self.profile->0.rankings.has(
                self.models@[a as int].id@,
            ) && self.profile->0.rankings.has(self.models@[b as int].id@),
        ensures
            r == self.inputs().beats(a as int, b as int),
    {
        let sa: Binary64 = self.valuations[a].score;
        let sb: Binary64 = self.valuations[b].score;
        if sb.total_lt(sa) {
            return true;
        }
        if sa.total_lt(sb) {
            return false;
        }
        if self.task_fit {
            let ca: Binary64 = self.contribution(a);
            let cb: Binary64 = self.contribution(b);
            if cb.total_lt(ca) {
                return true;
            }
            if ca.total_lt(cb) {
                return false;
            }
            let x: u64 = self.cost(a);
            let y: u64 = self.cost(b);
            if x != y {
                return x < y;
            }
        }
        text_less(self.models[a].id.as_str(), self.models[b].id.as_str())
    }

    fn check_evidence(&self, i: usize) -> (r: Result<(), EngineError>)
        requires
            i < self.models@.len(),
        ensures
            answers(r, (self.inputs().evidence_faults())(i as int)),
            r is Ok && self.profile is Some ==> self.profile->0.qualities.has(
                self.models@[i as int].id@,
            ),
            r is Ok && self.profile is Some && self.ranked ==> self.profile->0.rankings.has(
                self.models@[i as int].id@,
            ),
    {
        let ghost inputs = self.inputs();
        assert(inputs.models[i as int] == self.models@[i as int].deep_view());
        if let Some(node) = self.profile {
            if !node.qualities.contains_key(self.models[i].id.as_str()) {
                return Err(EngineError::new("routing", "snapshot lacks model quality evidence"));
            }
            if self.ranked && !node.rankings.contains_key(self.models[i].id.as_str()) {
                return Err(EngineError::new("routing", "snapshot lacks model ranking evidence"));
            }
        }
        Ok(())
    }

    fn decide(&self) -> (r: Result<RoutingDecision, EngineError>)
        requires
            self.valuations@.len() == self.models@.len(),
        ensures
            self.inputs().answered(r),
    {
        let ghost inputs = self.inputs();
        let ghost faults = inputs.evidence_faults();
        let mut rejected: TextMap<Vec<String>> = TextMap::new();
        let mut best: Option<usize> = None;
        let mut i: usize = 0;
        assert(rejected.deep_view() =~= Map::empty());
        while i < self.models.len()
            invariant
                i <= self.models@.len(),
                self.valuations@.len() == self.models@.len(),
                inputs == self.inputs(),
                inputs.models.len() == self.models@.len(),
                faults == inputs.evidence_faults(),
                first_fault(faults, i as nat) is None,
                rejected.deep_view() == inputs.rejected(i as nat),
                self.profile is Some ==> forall|j: int|
                    0 <= j < i ==> self.profile->0.qualities.has(
                        (#[trigger] self.models@[j]).id@,
                    ),
                self.profile is Some && self.ranked ==> forall|j: int|
                    0 <= j < i ==> self.profile->0.rankings.has((#[trigger] self.models@[j]).id@),
                match best {
                    Some(k) => k < i && inputs.best(i as int, k as int),
                    None => forall|j: int| 0 <= j < i ==> !#[trigger] inputs.eligible(j),
                },
            decreases self.models@.len() - i,
        {
            proof {
                if faults(i as int) is Some {
                    lemma_first_fault(faults, i as nat, self.models@.len());
                }
                assert(inputs.models[i as int] == self.models@[i as int].deep_view());
            }
            if let Err(e) = self.check_evidence(i) {
                return Err(e);
            }
            let reasons: Vec<String> = self.reasons(i);
            if reasons.len() > 0 {
                assert(!inputs.eligible(i as int));
                let ghost before = rejected.deep_view();
                let ghost words = reasons.deep_view();
                rejected.insert(self.models[i].id.clone(), reasons);
                assert(rejected.deep_view() =~= before.insert(
                    self.models@[i as int].id@,
                    words,
                ));
            } else {
                assert(inputs.eligible(i as int));
                match best {
                    None => {
                        best = Some(i);
                    },
                    Some(k) => {
                        if self.beats(i, k) {
                            proof {
                                assert forall|j: int|
                                    0 <= j < i && #[trigger] inputs.eligible(
                                        j,
                                    ) implies inputs.beats(i as int, j) by {
                                    if j < k {
                                        lemma_beats_weaker(inputs, i as int, k as int, j);
                                    } else if j > k {
                                        lemma_beats_weaker(inputs, i as int, k as int, j);
                                    }
                                }
                            }
                            best = Some(i);
                        }
                    },
                }
            }
            i += 1;
        }
        match best {
            None => {
                let details: Json = ObjectBuilder::new().with(
                    "category",
                    text_value("no_candidate"),
                ).with("excluded", reasons_value(&rejected)).build();
                Err(
                    EngineError::new("routing", "no model satisfies all hard constraints").details(
                        details,
                    ),
                )
            },
            Some(k) => Ok(self.decision(k, rejected)),
        }
    }

    fn decision(&self, k: usize, rejected: TextMap<Vec<String>>) -> (r: RoutingDecision)
        requires
            k < self.models@.len(),
            self.valuations@.len() == self.models@.len(),
            rejected.deep_view() == self.inputs().rejected(self.models@.len()),
            self.profile is Some ==> self.profile->0.qualities.has(self.models@[k as int].id@),
            self.profile is Some && self.ranked ==> self.profile->0.rankings.has(
                self.models@[k as int].id@,
            ),
        ensures
            identity_shape(r.decision_id@),
            r.deep_view() == self.inputs().decision(k as int, r.decision_id@),
    {
        let m: &Model = &self.models[k];
        let quality: Option<ResolvedQuality> = match self.profile {
            Some(node) => match node.qualities.get(m.id.as_str()) {
                Some(q) => Some(q.duplicate()),
                None => None,
            },
            None => None,
        };
        let ranking: Option<ResolvedRanking> = match self.profile {
            Some(node) => if self.ranked {
                match node.rankings.get(m.id.as_str()) {
                    Some(q) => Some(q.duplicate()),
                    None => None,
                }
            } else {
                None
            },
            None => None,
        };
        let routing_snapshot: Option<String> = match self.snapshot_encoded {
            Some(bytes) => Some(digest(bytes)),
            None => None,
        };
        let mut breakdown: TextMap<Binary64> = self.valuations[k].breakdown.duplicate();
        let ghost parts = breakdown;
        if let Some(q) = &ranking {
            let _old: Option<Binary64> = breakdown.insert("ranking".to_owned(), q.contribution);
            proof {
                let all = breakdown.deep_view();
                let with = parts.deep_view().insert("ranking"@, q.contribution);
                assert forall|t: Seq<char>| #[trigger] all.dom().contains(t)
                    == with.dom().contains(t) by {
                    assert(breakdown.has(t) <==> parts.has(t) || t == "ranking"@);
                }
                assert forall|t: Seq<char>| #[trigger] all.dom().contains(t) implies all[t]
                    == with[t] by {
                    if t != "ranking"@ {
                        assert(breakdown.spec_get(t) == parts.spec_get(t));
                    }
                }
                assert(all =~= with);
            }
        }
        let r = RoutingDecision {
            decision_id: id(),
            node_id: self.request.node.to_owned(),
            model_id: m.id.clone(),
            model_version: m.version.clone(),
            estimated_cost: self.cost(k),
            estimated_input: self.request.input_tokens,
            estimated_latency_ms: m.latency_ms,
            score: self.valuations[k].score,
            breakdown,
            excluded: rejected,
            weights_version: self.weights_version.clone(),
            metrics_snapshot: digest(self.request.health_encoded),
            uncertainty: m.uncertainty,
            quality,
            ranking,
            routing_snapshot,
        };
        assert(r.deep_view() =~= self.inputs().decision(k as int, r.decision_id@));
        r
    }
}

/// Adds a reason where it applies.
fn note(out: &mut Vec<String>, applies: bool, reason: &str)
    ensures
        final(out).deep_view() == old(out).deep_view() + flag(applies, reason@),
{
    let ghost before = out.deep_view();
    if applies {
        out.push(reason.to_owned());
        assert(out.deep_view() =~= before + seq![reason@]);
    } else {
        assert(out.deep_view() =~= before + Seq::<Seq<char>>::empty());
    }
}

fn is_barred(allowed: &TextSet, name: &str) -> (r: bool)
    ensures
        r == RouteInputs::barred(allowed.deep_view(), name@),
{
    if allowed.is_empty() {
        return false;
    }
    proof {
        let first = allowed.listed()[0];
        assert(allowed.has(first));
        assert(allowed.deep_view().contains(first));
    }
    !allowed.contains(name)
}

/// What beats a candidate beats every candidate that does not beat that one.
proof fn lemma_beats_weaker(inputs: RouteInputs, a: int, b: int, c: int)
    requires
        inputs.beats(a, b),
        inputs.beats(b, c) || !inputs.beats(c, b),
    ensures
        inputs.beats(a, c),
{
    let ia = inputs.models[a].id;
    let ib = inputs.models[b].id;
    let ic = inputs.models[c].id;
    lemma_text_total(ib, ic);
    lemma_text_irreflexive(ib);
    lemma_text_irreflexive(ia);
    if text_lt(ia, ib) && text_lt(ib, ic) {
        lemma_text_transitive(ia, ib, ic);
    }
}

/// The best candidate is one: nothing but the inputs decides which.
pub proof fn lemma_best_unique(inputs: RouteInputs, n: int, a: int, b: int)
    requires
        inputs.best(n, a),
        inputs.best(n, b),
    ensures
        a == b,
{
}

/// The best candidate meets every hard constraint.
pub proof fn lemma_best_meets_constraints(inputs: RouteInputs, n: int, k: int)
    requires
        inputs.best(n, k),
    ensures
        inputs.admitted(k),
{
    lemma_admitted(inputs, k);
}

/// Budget only admits: more of it available, a larger budget of the task or a larger limit for one
/// call bars no candidate, and at the same valuations does not change which of two candidates is
/// better.
pub proof fn lemma_budget_only_admits(
    inputs: RouteInputs,
    available: u64,
    budget: u64,
    max_call_cost: u64,
    a: int,
    b: int,
)
    requires
        available >= inputs.available,
        budget >= inputs.task.budget,
        max_call_cost >= inputs.task.max_call_cost,
    ensures
        ({
            let task = TaskSpecModel { budget, max_call_cost, ..inputs.task };
            let richer = RouteInputs { available, task, ..inputs };
            &&& inputs.eligible(a) ==> richer.eligible(a)
            &&& richer.beats(a, b) == inputs.beats(a, b)
        }),
{
    let task = TaskSpecModel { budget, max_call_cost, ..inputs.task };
    let richer = RouteInputs { available, task, ..inputs };
    lemma_same_needs(inputs, richer, a);
    lemma_admitted(inputs, a);
    lemma_admitted(richer, a);
}

proof fn lemma_same_needs(x: RouteInputs, y: RouteInputs, i: int)
    requires
        x.task.constraints == y.task.constraints,
        x.task.tools == y.task.tools,
        x.task.acceptance == y.task.acceptance,
        x.node == y.node,
        x.models == y.models,
    ensures
        x.incapable(i) == y.incapable(i),
{
    assert forall|c: Seq<char>| #[trigger] x.needs(c) == y.needs(c) by {}
    if x.incapable(i) {
        let c = choose|c: Seq<char>| #[trigger]
            x.needs(c) && !x.models[i].capabilities.contains(c);
        assert(y.needs(c));
    }
    if y.incapable(i) {
        let c = choose|c: Seq<char>| #[trigger]
            y.needs(c) && !y.models[i].capabilities.contains(c);
        assert(x.needs(c));
    }
}

proof fn lemma_two_flags(s: Seq<Seq<char>>, on: bool, name: Seq<char>)
    ensures
        (s + flag(on, name)).len() == 0 <==> s.len() == 0 && !on,
{
}

/// The reasons of flags in their order.
spec fn reasons_of(
    b0: bool,
    b1: bool,
    b2: bool,
    b3: bool,
    b4: bool,
    b5: bool,
    b6: bool,
    b7: bool,
    b8: bool,
    b9: bool,
    b10: bool,
) -> Seq<Seq<char>> {
    flag(b0, "capabilities"@)
        + flag(b1, "context"@)
        + flag(b2, "allowed_models"@)
        + flag(b3, "provider"@)
        + flag(b4, "region"@)
        + flag(b5, "local_only"@)
        + flag(b6, "budget"@)
        + flag(b7, "attempt_history_or_diversity"@)
        + flag(b8, "quality_floor"@)
        + flag(b9, "unavailable"@)
        + flag(b10, "execution_class"@)
}

proof fn lemma_reasons_of(
    b0: bool,
    b1: bool,
    b2: bool,
    b3: bool,
    b4: bool,
    b5: bool,
    b6: bool,
    b7: bool,
    b8: bool,
    b9: bool,
    b10: bool,
)
    ensures
        reasons_of(b0, b1, b2, b3, b4, b5, b6, b7, b8, b9, b10).len() == 0 <==> !b0 && !b1 && !b2
            && !b3 && !b4 && !b5 && !b6 && !b7 && !b8 && !b9 && !b10,
{
    let s0 = flag(b0, "capabilities"@);
    let s1 = s0 + flag(b1, "context"@);
    lemma_two_flags(s0, b1, "context"@);
    let s2 = s1 + flag(b2, "allowed_models"@);
    lemma_two_flags(s1, b2, "allowed_models"@);
    let s3 = s2 + flag(b3, "provider"@);
    lemma_two_flags(s2, b3, "provider"@);
    let s4 = s3 + flag(b4, "region"@);
    lemma_two_flags(s3, b4, "region"@);
    let s5 = s4 + flag(b5, "local_only"@);
    lemma_two_flags(s4, b5, "local_only"@);
    let s6 = s5 + flag(b6, "budget"@);
    lemma_two_flags(s5, b6, "budget"@);
    let s7 = s6 + flag(b7, "attempt_history_or_diversity"@);
    lemma_two_flags(s6, b7, "attempt_history_or_diversity"@);
    let s8 = s7 + flag(b8, "quality_floor"@);
    lemma_two_flags(s7, b8, "quality_floor"@);
    let s9 = s8 + flag(b9, "unavailable"@);
    lemma_two_flags(s8, b9, "unavailable"@);
    let s10 = s9 + flag(b10, "execution_class"@);
    lemma_two_flags(s9, b10, "execution_class"@);
}

proof fn lemma_admitted(inputs: RouteInputs, i: int)
    ensures
        inputs.reasons(i).len() == 0 <==> inputs.admitted(i),
{
    let m = inputs.models[i];
    let c = inputs.task.constraints;
    lemma_reasons_of(
        inputs.incapable(i),
        capped(capped(inputs.input_tokens + inputs.task.output_tokens) + 256) > m.context_tokens,
        RouteInputs::barred(c.allowed_models, m.id),
        RouteInputs::barred(c.allowed_providers, m.provider),
        RouteInputs::barred(c.allowed_regions, m.region),
        c.local_only && !m.local,
        inputs.cost(i) > inputs.available || inputs.cost(i) > inputs.task.max_call_cost,
        inputs.excluded.contains(m.id),
        inputs.quality(i).less(inputs.required_quality()),
        inputs.unavailable(i),
        m.execution_class.level() < inputs.minimum_class.level(),
    );
}

/// Routes with the configured priors.
pub fn route(config: &Config, r: &RouteRequest<'_>, valuations: &Vec<Valuation>, now: u64) -> (res:
    Result<RoutingDecision, EngineError>)
    requires
        valuations@.len() == config.models@.len(),
    ensures
        prior_inputs(config.deep_view(), r.asked(), valuations.deep_view(), now).answered(res),
{
    let route = Route {
        models: &config.models,
        valuations,
        request: r,
        weights_version: &config.weights.version,
        profile: None,
        ranked: false,
        policy: None,
        task_fit: false,
        at_ms: now,
        minimum_class: ExecutionClass::Simple,
        snapshot_encoded: None,
    };
    assert(route.inputs() =~= prior_inputs(
        config.deep_view(),
        r.asked(),
        valuations.deep_view(),
        now,
    ));
    route.decide()
}

/// What a request asks for.
#[verifier::ext_equal]
pub ghost struct Asked {
    pub task: TaskSpecModel,
    pub node: Seq<char>,
    pub input_tokens: u64,
    pub available: u64,
    pub excluded: Set<Seq<char>>,
    pub quality_floor: Binary64,
    pub health: Map<Seq<char>, HealthModel>,
    pub health_hash: Seq<char>,
}

impl<'a> RouteRequest<'a> {
    pub open spec fn asked(&self) -> Asked {
        Asked {
            task: self.task.deep_view(),
            node: self.node@,
            input_tokens: self.input_tokens,
            available: self.available,
            excluded: self.excluded.deep_view(),
            quality_floor: self.quality_floor,
            health: self.health.deep_view(),
            health_hash: hex(sha256(self.health_encoded@)),
        }
    }
}

/// The inputs of a route by the configured priors.
pub open spec fn prior_inputs(
    config: ConfigModel,
    asked: Asked,
    valuations: Seq<ValuationModel>,
    now: u64,
) -> RouteInputs {
    RouteInputs {
        models: config.models,
        valuations,
        task: asked.task,
        node: asked.node,
        input_tokens: asked.input_tokens,
        available: asked.available,
        excluded: asked.excluded,
        quality_floor: asked.quality_floor,
        health: asked.health,
        health_hash: asked.health_hash,
        weights_version: config.weights.version,
        qualities: None,
        rankings: None,
        policy: None,
        task_fit: false,
        at_ms: now,
        minimum_class: ExecutionClass::Simple,
        snapshot_hash: None,
    }
}

impl RoutingSnapshotModel {
    /// Why a snapshot cannot be routed by at a node.
    pub open spec fn fault(self, node: Seq<char>) -> Option<EngineErrorModel> {
        if !(1 <= self.schema_version <= 4) {
            Some(failure("routing"@, "unsupported routing snapshot version"@))
        } else if self.schema_version >= 4 && (self.selection is None || self.algorithm_version
            != Some("task-fit-v1"@)) {
            Some(
                failure("routing"@, "task-fit routing snapshot lacks supported algorithm inputs"@),
            )
        } else if !self.nodes.dom().contains(node) {
            Some(failure("routing"@, "snapshot has no profile for this node"@))
        } else {
            None
        }
    }

    /// The inputs of a route by the snapshot. A critic is not selected by task fit.
    pub open spec fn inputs(
        self,
        asked: Asked,
        valuations: Seq<ValuationModel>,
        minimum_class: ExecutionClass,
        snapshot_hash: Seq<char>,
    ) -> RouteInputs {
        let node = self.nodes[asked.node];
        RouteInputs {
            models: self.models,
            valuations,
            task: asked.task,
            node: asked.node,
            input_tokens: asked.input_tokens,
            available: asked.available,
            excluded: asked.excluded,
            quality_floor: asked.quality_floor,
            health: asked.health,
            health_hash: asked.health_hash,
            weights_version: node.weights.version,
            qualities: Some(node.qualities),
            rankings: if self.schema_version >= 3 {
                Some(node.rankings)
            } else {
                None
            },
            policy: if self.schema_version >= 4 && asked.node != "critic"@ {
                self.selection
            } else {
                None
            },
            task_fit: self.schema_version >= 4,
            at_ms: self.captured_at_ms,
            minimum_class,
            snapshot_hash: Some(snapshot_hash),
        }
    }

    /// `r` is the answer to a request by the snapshot.
    pub open spec fn answered(
        self,
        asked: Asked,
        valuations: Seq<ValuationModel>,
        minimum_class: ExecutionClass,
        snapshot_hash: Seq<char>,
        r: Result<RoutingDecision, EngineError>,
    ) -> bool {
        match self.fault(asked.node) {
            Some(e) => r is Err && r->Err_0.deep_view() == e,
            None => self.inputs(asked, valuations, minimum_class, snapshot_hash).answered(r),
        }
    }
}

/// Re-evaluate a stored snapshot and recorded request without refreshing profiles. Decision IDs
/// are new audit identities; selection, score and evidence are reproducible. `encoded` is the
/// serialized snapshot.
pub fn route_profiled(
    snapshot: &RoutingSnapshot,
    r: &RouteRequest<'_>,
    valuations: &Vec<Valuation>,
    encoded: &[u8],
) -> (res: Result<RoutingDecision, EngineError>)
    requires
        valuations@.len() == snapshot.models@.len(),
    ensures
        snapshot.deep_view().answered(
            r.asked(),
            valuations.deep_view(),
            snapshot.minimum_execution_class,
            hex(sha256(encoded@)),
            res,
        ),
{
    route_profiled_with_minimum_class(
        snapshot,
        r,
        snapshot.minimum_execution_class,
        valuations,
        encoded,
    )
}

/// Routes by a snapshot, with another minimum execution class.
pub fn route_profiled_with_minimum_class(
    snapshot: &RoutingSnapshot,
    r: &RouteRequest<'_>,
    minimum_class: ExecutionClass,
    valuations: &Vec<Valuation>,
    encoded: &[u8],
) -> (res: Result<RoutingDecision, EngineError>)
    requires
        valuations@.len() == snapshot.models@.len(),
    ensures
        snapshot.deep_view().answered(
            r.asked(),
            valuations.deep_view(),
            minimum_class,
            hex(sha256(encoded@)),
            res,
        ),
{
    if snapshot.schema_version < 1 || snapshot.schema_version > 4 {
        return Err(EngineError::new("routing", "unsupported routing snapshot version"));
    }
    let task_fit: bool = snapshot.schema_version >= 4;
    let supported: bool = match &snapshot.algorithm_version {
        Some(v) => same_text(v.as_str(), "task-fit-v1"),
        None => false,
    };
    if task_fit && (snapshot.selection.is_none() || !supported) {
        return Err(
            EngineError::new(
                "routing",
                "task-fit routing snapshot lacks supported algorithm inputs",
            ),
        );
    }
    let node: &NodeProfile = match snapshot.nodes.get(r.node) {
        Some(node) => node,
        None => {
            return Err(EngineError::new("routing", "snapshot has no profile for this node"));
        },
    };
    let policy: Option<&SelectionPolicy> = if task_fit && !same_text(r.node, "critic") {
        match &snapshot.selection {
            Some(policy) => Some(policy),
            None => None,
        }
    } else {
        None
    };
    let route = Route {
        models: &snapshot.models,
        valuations,
        request: r,
        weights_version: &node.weights.version,
        profile: Some(node),
        ranked: snapshot.schema_version >= 3,
        policy,
        task_fit,
        at_ms: snapshot.captured_at_ms,
        minimum_class,
        snapshot_encoded: Some(encoded),
    };
    assert(route.inputs() =~= snapshot.deep_view().inputs(
        r.asked(),
        valuations.deep_view(),
        minimum_class,
        hex(sha256(encoded@)),
    ));
    route.decide()
}

} // verus!
