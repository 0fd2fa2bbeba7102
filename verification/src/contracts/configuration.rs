//! Effective execution configuration; shared validation for file and component callers.
use super::profiles::{RoutingProfiles, RoutingProfilesModel};
use super::rankings::{RankingConfig, RankingConfigModel};
use super::task::Endpoint;
use super::url::{parse_url, url_parts, UrlParts};
use crate::assessment::{ExecutionClass, RuleSet, RuleSetModel};
use crate::binary64::{number, Binary64, ZERO};
use crate::decision::{DecisionConfig, DecisionConfigModel};
use crate::fault::{
    answers, failure, first_fault, lemma_first_fault, lemma_first_fault_at,
    lemma_first_fault_is_one, or_fault, EngineError, EngineErrorModel,
};
use crate::model::Duplicate;
use crate::text::{blank, is_blank, same_text, TextSet};
use vstd::prelude::*;

verus! {

/// A configured model. Prices are integer microcredits per token.
#[derive(Debug)]
pub struct Model {
    pub id: String,
    pub model: String,
    pub version: String,
    pub endpoint: Endpoint,
    pub base_url: String,
    pub api_key_env: String,
    pub provider: String,
    pub region: String,
    pub local: bool,
    pub capabilities: TextSet,
    pub context_tokens: u64,
    pub input_price: u64,
    pub output_price: u64,
    pub price_version: String,
    pub acceptance: Binary64,
    pub reliability: Binary64,
    pub latency_ms: u64,
    pub uncertainty: Binary64,
    pub execution_class: ExecutionClass,
}

/// What a `Model` holds.
#[verifier::ext_equal]
pub ghost struct ModelModel {
    pub id: Seq<char>,
    pub model: Seq<char>,
    pub version: Seq<char>,
    pub endpoint: Endpoint,
    pub base_url: Seq<char>,
    pub api_key_env: Seq<char>,
    pub provider: Seq<char>,
    pub region: Seq<char>,
    pub local: bool,
    pub capabilities: Set<Seq<char>>,
    pub context_tokens: u64,
    pub input_price: u64,
    pub output_price: u64,
    pub price_version: Seq<char>,
    pub acceptance: Binary64,
    pub reliability: Binary64,
    pub latency_ms: u64,
    pub uncertainty: Binary64,
    pub execution_class: ExecutionClass,
}

impl DeepView for Model {
    type V = ModelModel;

    open spec fn deep_view(&self) -> ModelModel {
        ModelModel {
            id: self.id.deep_view(),
            model: self.model.deep_view(),
            version: self.version.deep_view(),
            endpoint: self.endpoint.deep_view(),
            base_url: self.base_url.deep_view(),
            api_key_env: self.api_key_env.deep_view(),
            provider: self.provider.deep_view(),
            region: self.region.deep_view(),
            local: self.local.deep_view(),
            capabilities: self.capabilities.deep_view(),
            context_tokens: self.context_tokens.deep_view(),
            input_price: self.input_price.deep_view(),
            output_price: self.output_price.deep_view(),
            price_version: self.price_version.deep_view(),
            acceptance: self.acceptance.deep_view(),
            reliability: self.reliability.deep_view(),
            latency_ms: self.latency_ms.deep_view(),
            uncertainty: self.uncertainty.deep_view(),
            execution_class: self.execution_class.deep_view(),
        }
    }
}

impl Duplicate for Model {
    fn duplicate(&self) -> (r: Self) {
        Model {
            id: self.id.duplicate(),
            model: self.model.duplicate(),
            version: self.version.duplicate(),
            endpoint: self.endpoint.duplicate(),
            base_url: self.base_url.duplicate(),
            api_key_env: self.api_key_env.duplicate(),
            provider: self.provider.duplicate(),
            region: self.region.duplicate(),
            local: self.local.duplicate(),
            capabilities: self.capabilities.duplicate(),
            context_tokens: self.context_tokens.duplicate(),
            input_price: self.input_price.duplicate(),
            output_price: self.output_price.duplicate(),
            price_version: self.price_version.duplicate(),
            acceptance: self.acceptance.duplicate(),
            reliability: self.reliability.duplicate(),
            latency_ms: self.latency_ms.duplicate(),
            uncertainty: self.uncertainty.duplicate(),
            execution_class: self.execution_class.duplicate(),
        }
    }
}

impl Clone for Model {
    fn clone(&self) -> (r: Self)
        ensures
            r.deep_view() == self.deep_view(),
    {
        self.duplicate()
    }
}

/// How much each part of a score counts.
#[derive(Debug)]
pub struct Weights {
    pub quality: Binary64,
    pub capability: Binary64,
    pub reliability: Binary64,
    pub cost: Binary64,
    pub latency: Binary64,
    pub uncertainty: Binary64,
    /// The sum of the six weights, added in binary64 in their order.
    pub total: Binary64,
    pub version: String,
}

/// What a `Weights` holds.
#[verifier::ext_equal]
pub ghost struct WeightsModel {
    pub quality: Binary64,
    pub capability: Binary64,
    pub reliability: Binary64,
    pub cost: Binary64,
    pub latency: Binary64,
    pub uncertainty: Binary64,
    pub total: Binary64,
    pub version: Seq<char>,
}

impl DeepView for Weights {
    type V = WeightsModel;

    open spec fn deep_view(&self) -> WeightsModel {
        WeightsModel {
            quality: self.quality.deep_view(),
            capability: self.capability.deep_view(),
            reliability: self.reliability.deep_view(),
            cost: self.cost.deep_view(),
            latency: self.latency.deep_view(),
            uncertainty: self.uncertainty.deep_view(),
            total: self.total.deep_view(),
            version: self.version.deep_view(),
        }
    }
}

impl Duplicate for Weights {
    fn duplicate(&self) -> (r: Self) {
        Weights {
            quality: self.quality.duplicate(),
            capability: self.capability.duplicate(),
            reliability: self.reliability.duplicate(),
            cost: self.cost.duplicate(),
            latency: self.latency.duplicate(),
            uncertainty: self.uncertainty.duplicate(),
            total: self.total.duplicate(),
            version: self.version.duplicate(),
        }
    }
}

impl Clone for Weights {
    fn clone(&self) -> (r: Self)
        ensures
            r.deep_view() == self.deep_view(),
    {
        self.duplicate()
    }
}

/// The configuration of an engine.
#[derive(Debug)]
pub struct Config {
    pub database_path: String,
    pub models: Vec<Model>,
    /// Explicit candidates for planning. Empty disables model-based planning.
    pub planner_models: TextSet,
    /// Optional quality evidence; missing profiles use the global prior in the same router.
    pub routing_profiles: Option<RoutingProfiles>,
    pub rankings: Option<RankingConfig>,
    pub assessment_rules: Option<RuleSet>,
    pub decision: Option<DecisionConfig>,
    pub weights: Weights,
    pub max_concurrency: usize,
    pub event_capacity: usize,
    pub event_max_bytes: usize,
    pub stream_frame_max_bytes: usize,
    pub context_max_bytes: usize,
    pub close_grace_ms: u64,
    pub cleanup_timeout_ms: u64,
}

/// What a `Config` holds.
#[verifier::ext_equal]
pub ghost struct ConfigModel {
    pub database_path: Seq<char>,
    pub models: Seq<ModelModel>,
    pub planner_models: Set<Seq<char>>,
    pub routing_profiles: Option<RoutingProfilesModel>,
    pub rankings: Option<RankingConfigModel>,
    pub assessment_rules: Option<RuleSetModel>,
    pub decision: Option<DecisionConfigModel>,
    pub weights: WeightsModel,
    pub max_concurrency: usize,
    pub event_capacity: usize,
    pub event_max_bytes: usize,
    pub stream_frame_max_bytes: usize,
    pub context_max_bytes: usize,
    pub close_grace_ms: u64,
    pub cleanup_timeout_ms: u64,
}

impl DeepView for Config {
    type V = ConfigModel;

    open spec fn deep_view(&self) -> ConfigModel {
        ConfigModel {
            database_path: self.database_path.deep_view(),
            models: self.models.deep_view(),
            planner_models: self.planner_models.deep_view(),
            routing_profiles: self.routing_profiles.deep_view(),
            rankings: self.rankings.deep_view(),
            assessment_rules: self.assessment_rules.deep_view(),
            decision: self.decision.deep_view(),
            weights: self.weights.deep_view(),
            max_concurrency: self.max_concurrency.deep_view(),
            event_capacity: self.event_capacity.deep_view(),
            event_max_bytes: self.event_max_bytes.deep_view(),
            stream_frame_max_bytes: self.stream_frame_max_bytes.deep_view(),
            context_max_bytes: self.context_max_bytes.deep_view(),
            close_grace_ms: self.close_grace_ms.deep_view(),
            cleanup_timeout_ms: self.cleanup_timeout_ms.deep_view(),
        }
    }
}

impl Duplicate for Config {
    fn duplicate(&self) -> (r: Self) {
        Config {
            database_path: self.database_path.duplicate(),
            models: self.models.duplicate(),
            planner_models: self.planner_models.duplicate(),
            routing_profiles: self.routing_profiles.duplicate(),
            rankings: self.rankings.duplicate(),
            assessment_rules: self.assessment_rules.duplicate(),
            decision: self.decision.duplicate(),
            weights: self.weights.duplicate(),
            max_concurrency: self.max_concurrency.duplicate(),
            event_capacity: self.event_capacity.duplicate(),
            event_max_bytes: self.event_max_bytes.duplicate(),
            stream_frame_max_bytes: self.stream_frame_max_bytes.duplicate(),
            context_max_bytes: self.context_max_bytes.duplicate(),
            close_grace_ms: self.close_grace_ms.duplicate(),
            cleanup_timeout_ms: self.cleanup_timeout_ms.duplicate(),
        }
    }
}

impl Clone for Config {
    fn clone(&self) -> (r: Self)
        ensures
            r.deep_view() == self.deep_view(),
    {
        self.duplicate()
    }
}

impl WeightsModel {
    /// No weight is below zero, their sum is finite and above zero, and they have a version.
    pub open spec fn valid(self) -> bool {
        &&& !blank(self.version)
        &&& self.total.finite()
        &&& number(ZERO).less(self.total)
        &&& weight_valid(self.quality)
        &&& weight_valid(self.capability)
        &&& weight_valid(self.reliability)
        &&& weight_valid(self.cost)
        &&& weight_valid(self.latency)
        &&& weight_valid(self.uncertainty)
    }

    pub open spec fn fault(self) -> Option<EngineErrorModel> {
        if self.valid() {
            None
        } else {
            Some(
                failure("configuration"@, "weights must be finite, nonnegative and versioned"@),
            )
        }
    }
}

/// Finite and not below zero.
pub open spec fn weight_valid(w: Binary64) -> bool {
    w.finite() && number(ZERO).at_most(w)
}

fn is_weight(w: Binary64) -> (r: bool)
    ensures
        r == weight_valid(w),
{
    w.is_finite() && number(ZERO).le(w)
}

impl Weights {
    pub fn validate(&self) -> (r: Result<(), EngineError>)
        ensures
            answers(r, self.deep_view().fault()),
    {
        if is_blank(self.version.as_str()) || !self.total.is_finite() || !number(ZERO).lt(
            self.total,
        ) || !is_weight(self.quality) || !is_weight(self.capability) || !is_weight(
            self.reliability,
        ) || !is_weight(self.cost) || !is_weight(self.latency) || !is_weight(self.uncertainty) {
            return Err(
                EngineError::new(
                    "configuration",
                    "weights must be finite, nonnegative and versioned",
                ),
            );
        }
        Ok(())
    }
}

/// A capability that models can have.
pub open spec fn known_capability(c: Seq<char>) -> bool {
    c == "text"@ || c == "tools"@ || c == "json"@
}

/// Every member is a capability that models can have.
pub open spec fn all_known(set: Set<Seq<char>>) -> bool {
    forall|c: Seq<char>| #[trigger] set.contains(c) ==> known_capability(c)
}

/// Whether every member is a capability that models can have.
pub fn all_known_capabilities(set: &TextSet) -> (r: bool)
    ensures
        r == all_known(set.deep_view()),
{
    let n: usize = set.len();
    let mut i: usize = 0;
    while i < n
        invariant
            i <= n,
            n == set.listed().len(),
            forall|j: int| 0 <= j < i ==> known_capability(#[trigger] set.listed()[j]),
        decreases n - i,
    {
        let c: &str = set.at(i).as_str();
        if !same_text(c, "text") && !same_text(c, "tools") && !same_text(c, "json") {
            proof {
                assert(set.has(set.listed()[i as int]));
                assert(set.deep_view().contains(c@));
            }
            return false;
        }
        i += 1;
    }
    proof {
        assert forall|c: Seq<char>| #[trigger] set.deep_view().contains(c) implies known_capability(
            c,
        ) by {
            let k = choose|k: int| 0 <= k < set.listed().len() && set.listed()[k] == c;
            assert(known_capability(set.listed()[k]));
        }
    }
    true
}

impl ModelModel {
    /// The fault of a model whose URL has the given parts.
    pub open spec fn fault_at(self, url: Option<UrlParts>) -> Option<EngineErrorModel> {
        if self.id.len() == 0 || self.model.len() == 0 || self.version.len() == 0
            || self.price_version.len() == 0 || self.api_key_env.len() == 0 {
            Some(
                failure(
                    "configuration"@,
                    "model identifiers, credential references and versions must be nonempty and unique"@,
                ),
            )
        } else if url is None {
            Some(failure("configuration"@, "invalid model base_url"@))
        } else if !url->0.web || url->0.credentials || url->0.query || url->0.fragment {
            Some(
                failure(
                    "configuration"@,
                    "base_url must be HTTP(S) without credentials, query or fragment"@,
                ),
            )
        } else if self.context_tokens == 0 || self.context_tokens > 100_000_000 || self.input_price
            > 1_000_000_000 || self.output_price > 1_000_000_000 || !self.acceptance.in_unit()
            || !self.reliability.in_unit() || !self.uncertainty.in_unit() {
            Some(failure("configuration"@, "invalid model capacity, price or metrics"@))
        } else if !all_known(self.capabilities) {
            Some(
                failure(
                    "configuration"@,
                    "phase one supports text, tools and json capabilities only"@,
                ),
            )
        } else {
            None
        }
    }

    pub open spec fn fault(self) -> Option<EngineErrorModel> {
        self.fault_at(url_parts(self.base_url))
    }
}

impl Model {
    /// Checks the model.
    pub fn validate(&self) -> (r: Result<(), EngineError>)
        ensures
            answers(r, self.deep_view().fault()),
    {
        let url: Option<UrlParts> = parse_url(self.base_url.as_str());
        self.validate_at(url)
    }

    /// Checks the model, whose URL has the given parts.
    pub fn validate_at(&self, url: Option<UrlParts>) -> (r: Result<(), EngineError>)
        ensures
            answers(r, self.deep_view().fault_at(url)),
    {
        if self.id.as_str().is_empty() || self.model.as_str().is_empty()
            || self.version.as_str().is_empty() || self.price_version.as_str().is_empty()
            || self.api_key_env.as_str().is_empty() {
            return Err(
                EngineError::new(
                    "configuration",
                    "model identifiers, credential references and versions must be nonempty and unique",
                ),
            );
        }
        let parts: UrlParts = match url {
            Some(parts) => parts,
            None => {
                return Err(EngineError::new("configuration", "invalid model base_url"));
            },
        };
        if !parts.web || parts.credentials || parts.query || parts.fragment {
            return Err(
                EngineError::new(
                    "configuration",
                    "base_url must be HTTP(S) without credentials, query or fragment",
                ),
            );
        }
        if self.context_tokens == 0 || self.context_tokens > 100_000_000 || self.input_price
            > 1_000_000_000 || self.output_price > 1_000_000_000 || !self.acceptance.is_unit()
            || !self.reliability.is_unit() || !self.uncertainty.is_unit() {
            return Err(
                EngineError::new("configuration", "invalid model capacity, price or metrics"),
            );
        }
        if !all_known_capabilities(&self.capabilities) {
            return Err(
                EngineError::new(
                    "configuration",
                    "phase one supports text, tools and json capabilities only",
                ),
            );
        }
        Ok(())
    }
}

impl ConfigModel {
    /// Some model has that name.
    pub open spec fn has_model(self, id: Seq<char>) -> bool {
        exists|i: int| 0 <= i < self.models.len() && (#[trigger] self.models[i]).id == id
    }

    /// The fault of the runtime limits.
    pub open spec fn runtime_fault(self) -> Option<EngineErrorModel> {
        if self.close_grace_ms > 86_400_000 || self.cleanup_timeout_ms > 86_400_000 {
            Some(failure("configuration"@, "shutdown timeouts must be between zero and one day"@))
        } else if !(1 <= self.max_concurrency <= 1024 && 1 <= self.event_capacity <= 65536 && 1024
            <= self.event_max_bytes <= 1048576 && 1024 <= self.stream_frame_max_bytes <= 4194304
            && 1024 <= self.context_max_bytes <= 16777216) {
            Some(failure("configuration"@, "invalid concurrency or buffer bounds"@))
        } else {
            None
        }
    }

    pub open spec fn model_faults(self) -> spec_fn(int) -> Option<EngineErrorModel> {
        |i: int|
            or_fault(
                self.models[i].fault(),
                if exists|j: int|
                    0 <= j < i && (#[trigger] self.models[j]).id == self.models[i].id {
                    Some(failure("configuration"@, "duplicate model ID"@))
                } else {
                    None
                },
            )
    }

    /// The fault of a configuration, for a file store or another one.
    pub open spec fn fault(self, sqlite: bool) -> Option<EngineErrorModel> {
        if sqlite && (blank(self.database_path) || self.database_path == ":memory:"@) {
            Some(failure("configuration"@, "database_path must name a file"@))
        } else if self.models.len() == 0 {
            Some(failure("configuration"@, "models must not be empty"@))
        } else {
            or_fault(
                self.runtime_fault(),
                or_fault(
                    self.weights.fault(),
                    or_fault(
                        first_fault(self.model_faults(), self.models.len()),
                        or_fault(self.planner_fault(), self.evidence_fault()),
                    ),
                ),
            )
        }
    }

    /// The fault of the planning candidates.
    pub open spec fn planner_fault(self) -> Option<EngineErrorModel> {
        if exists|id: Seq<char>| #[trigger]
            self.planner_models.contains(id) && !self.has_model(id) {
            Some(
                failure("configuration"@, "planner_models must reference configured model IDs"@),
            )
        } else {
            None
        }
    }

    /// The fault of profiles, rankings, rules and decision.
    pub open spec fn evidence_fault(self) -> Option<EngineErrorModel> {
        or_fault(
            match self.routing_profiles {
                Some(profiles) => profiles.fault(self),
                None => None,
            },
            or_fault(
                match self.rankings {
                    Some(rankings) => rankings.fault(self),
                    None => None,
                },
                or_fault(
                    match self.assessment_rules {
                        Some(rules) => rules.fault(),
                        None => None,
                    },
                    match self.decision {
                        Some(decision) => decision.fault(),
                        None => None,
                    },
                ),
            ),
        )
    }
}

impl Config {
    /// Whether some model has that name.
    pub fn knows_model(&self, id: &str) -> (r: bool)
        ensures
            r == self.deep_view().has_model(id@),
    {
        self.find_model(id).is_some()
    }

    /// The place of the first model of that name.
    pub fn find_model(&self, id: &str) -> (r: Option<usize>)
        ensures
            r is Some == self.deep_view().has_model(id@),
            r is Some ==> {
                &&& r->0 < self.models@.len()
                &&& self.models@[r->0 as int].id@ == id@
                &&& forall|j: int| 0 <= j < r->0 ==> (#[trigger] self.models@[j]).id@ != id@
            },
    {
        let ghost all = self.deep_view().models;
        let mut i: usize = 0;
        while i < self.models.len()
            invariant
                i <= self.models@.len(),
                all == self.deep_view().models,
                forall|j: int| 0 <= j < i ==> (#[trigger] all[j]).id != id@,
                forall|j: int| 0 <= j < i ==> (#[trigger] self.models@[j]).id@ != id@,
            decreases self.models@.len() - i,
        {
            assert(all[i as int] == self.models@[i as int].deep_view());
            if same_text(self.models[i].id.as_str(), id) {
                return Some(i);
            }
            i += 1;
        }
        None
    }

    pub fn validate_runtime(&self) -> (r: Result<(), EngineError>)
        ensures
            answers(r, self.deep_view().runtime_fault()),
    {
        if self.close_grace_ms > 86_400_000 || self.cleanup_timeout_ms > 86_400_000 {
            return Err(
                EngineError::new(
                    "configuration",
                    "shutdown timeouts must be between zero and one day",
                ),
            );
        }
        if self.max_concurrency < 1 || self.max_concurrency > 1024 || self.event_capacity < 1
            || self.event_capacity > 65536 || self.event_max_bytes < 1024 || self.event_max_bytes
            > 1048576 || self.stream_frame_max_bytes < 1024 || self.stream_frame_max_bytes
            > 4194304 || self.context_max_bytes < 1024 || self.context_max_bytes > 16777216 {
            return Err(EngineError::new("configuration", "invalid concurrency or buffer bounds"));
        }
        Ok(())
    }

    fn validate_models(&self) -> (r: Result<(), EngineError>)
        ensures
            answers(r, first_fault(self.deep_view().model_faults(), self.models@.len())),
    {
        let ghost config = self.deep_view();
        let ghost faults = config.model_faults();
        let mut ids: TextSet = TextSet::new();
        let mut i: usize = 0;
        while i < self.models.len()
            invariant
                i <= self.models@.len(),
                config == self.deep_view(),
                faults == config.model_faults(),
                first_fault(faults, i as nat) is None,
                forall|t: Seq<char>| #[trigger]
                    ids.has(t) <==> (exists|j: int|
                        0 <= j < i && (#[trigger] config.models[j]).id == t),
            decreases self.models@.len() - i,
        {
            let model: &Model = &self.models[i];
            proof {
                assert(config.models[i as int] == model.deep_view());
                if faults(i as int) is Some {
                    lemma_first_fault(faults, i as nat, self.models@.len());
                }
            }
            if let Err(e) = model.validate() {
                return Err(e);
            }
            let ghost known = ids;
            if !ids.insert(model.id.clone()) {
                return Err(EngineError::new("configuration", "duplicate model ID"));
            }
            proof {
                assert forall|t: Seq<char>| #[trigger]
                    ids.has(t) <==> (exists|j: int|
                        0 <= j < i + 1 && (#[trigger] config.models[j]).id == t) by {
                    assert(ids.has(t) <==> known.has(t) || t == config.models[i as int].id);
                }
            }
            i += 1;
        }
        Ok(())
    }

    fn validate_planners(&self) -> (r: Result<(), EngineError>)
        ensures
            answers(r, self.deep_view().planner_fault()),
    {
        let ghost config = self.deep_view();
        let n: usize = self.planner_models.len();
        let mut i: usize = 0;
        while i < n
            invariant
                i <= n,
                n == self.planner_models.listed().len(),
                config == self.deep_view(),
                forall|j: int|
                    0 <= j < i ==> config.has_model(#[trigger] self.planner_models.listed()[j]),
            decreases n - i,
        {
            if !self.knows_model(self.planner_models.at(i).as_str()) {
                proof {
                    let id = self.planner_models.listed()[i as int];
                    assert(self.planner_models.has(id));
                    assert(config.planner_models.contains(id) && !config.has_model(id));
                }
                return Err(
                    EngineError::new(
                        "configuration",
                        "planner_models must reference configured model IDs",
                    ),
                );
            }
            i += 1;
        }
        proof {
            assert forall|id: Seq<char>| #[trigger]
                config.planner_models.contains(id) implies config.has_model(id) by {
                let k = choose|k: int|
                    0 <= k < self.planner_models.listed().len()
                        && self.planner_models.listed()[k] == id;
                assert(config.has_model(self.planner_models.listed()[k]));
            }
        }
        Ok(())
    }

    fn validate_evidence(&self) -> (r: Result<(), EngineError>)
        ensures
            answers(r, self.deep_view().evidence_fault()),
    {
        if let Some(profiles) = &self.routing_profiles {
            if let Err(e) = profiles.validate(self) {
                return Err(e);
            }
        }
        if let Some(rankings) = &self.rankings {
            if let Err(e) = rankings.validate(self) {
                return Err(e);
            }
        }
        if let Some(rules) = &self.assessment_rules {
            if let Err(e) = rules.validate() {
                return Err(e);
            }
        }
        if let Some(decision) = &self.decision {
            if let Err(e) = decision.validate() {
                return Err(e);
            }
        }
        Ok(())
    }

    /// Checks the configuration, for a file store or another one.
    pub fn validate(&self, sqlite: bool) -> (r: Result<(), EngineError>)
        ensures
            answers(r, self.deep_view().fault(sqlite)),
    {
        if sqlite && (is_blank(self.database_path.as_str()) || same_text(
            self.database_path.as_str(),
            ":memory:",
        )) {
            return Err(EngineError::new("configuration", "database_path must name a file"));
        }
        if self.models.len() == 0 {
            return Err(EngineError::new("configuration", "models must not be empty"));
        }
        if let Err(e) = self.validate_runtime() {
            return Err(e);
        }
        if let Err(e) = self.weights.validate() {
            return Err(e);
        }
        if let Err(e) = self.validate_models() {
            return Err(e);
        }
        if let Err(e) = self.validate_planners() {
            return Err(e);
        }
        self.validate_evidence()
    }
}

/// Whether a model can be configured: it has its names, a URL of the web that tells neither
/// credentials nor a query nor a fragment, a capacity and prices within bounds, metrics from zero
/// to one, and no capability but text, tools and JSON.
pub open spec fn can_be_configured(model: ModelModel, url: Option<UrlParts>) -> bool {
    &&& model.id.len() > 0 && model.model.len() > 0 && model.version.len() > 0
    &&& model.price_version.len() > 0 && model.api_key_env.len() > 0
    &&& url is Some && url->0.web && !url->0.credentials && !url->0.query && !url->0.fragment
    &&& 1 <= model.context_tokens <= 100_000_000
    &&& model.input_price <= 1_000_000_000 && model.output_price <= 1_000_000_000
    &&& model.acceptance.in_unit() && model.reliability.in_unit() && model.uncertainty.in_unit()
    &&& forall|c: Seq<char>| #[trigger]
        model.capabilities.contains(c) ==> c == "text"@ || c == "tools"@ || c == "json"@
}

/// A model is accepted exactly where it can be configured.
pub proof fn lemma_valid_model(model: ModelModel, url: Option<UrlParts>)
    ensures
        model.fault_at(url) is None <==> can_be_configured(model, url),
        model.fault_at(url) is Some ==> model.fault_at(url)->0.kind == "configuration"@,
        model.fault() == model.fault_at(url_parts(model.base_url)),
{
}

/// A configuration is accepted only where it has models, each with a name of its own, where its
/// timeouts and buffers are within bounds, and where planners are models that it has. One that is
/// kept in a file names that file.
pub proof fn lemma_valid_configuration(config: ConfigModel, sqlite: bool)
    ensures
        config.fault(sqlite) is None <==> {
            &&& sqlite ==> !blank(config.database_path) && config.database_path != ":memory:"@
            &&& config.models.len() > 0
            &&& config.close_grace_ms <= 86_400_000 && config.cleanup_timeout_ms <= 86_400_000
            &&& 1 <= config.max_concurrency <= 1024
            &&& 1 <= config.event_capacity <= 65_536
            &&& 1024 <= config.event_max_bytes <= 1_048_576
            &&& 1024 <= config.stream_frame_max_bytes <= 4_194_304
            &&& 1024 <= config.context_max_bytes <= 16_777_216
            &&& config.weights.fault() is None
            &&& forall|i: int|
                0 <= i < config.models.len() ==> can_be_configured(
                    #[trigger] config.models[i],
                    url_parts(config.models[i].base_url),
                )
            &&& forall|i: int, j: int|
                0 <= j < i < config.models.len() ==> (#[trigger] config.models[j]).id != (
                #[trigger] config.models[i]).id
            &&& forall|id: Seq<char>| #[trigger]
                config.planner_models.contains(id) ==> exists|i: int|
                    0 <= i < config.models.len() && (#[trigger] config.models[i]).id == id
            &&& config.routing_profiles is Some ==> config.routing_profiles->0.fault(config) is None
            &&& config.rankings is Some ==> config.rankings->0.fault(config) is None
            &&& config.assessment_rules is Some ==> config.assessment_rules->0.fault() is None
            &&& config.decision is Some ==> config.decision->0.fault() is None
        },
{
    let faults = config.model_faults();
    let n = config.models.len();
    assert forall|i: int| 0 <= i < n implies (#[trigger] faults(i)) is None == {
        &&& can_be_configured(config.models[i], url_parts(config.models[i].base_url))
        &&& forall|j: int| 0 <= j < i ==> (#[trigger] config.models[j]).id != config.models[i].id
    } by {
        lemma_valid_model(config.models[i], url_parts(config.models[i].base_url));
    }
    if first_fault(faults, n) is Some {
        let i = lemma_first_fault_is_one(faults, n);
        assert(faults(i) is Some);
        assert(config.models[i].id == config.models[i].id);
    } else {
        assert forall|i: int| 0 <= i < n implies (#[trigger] faults(i)) is None by {
            lemma_first_fault_at(faults, n, i);
        }
        assert forall|i: int| 0 <= i < n implies can_be_configured(
            #[trigger] config.models[i],
            url_parts(config.models[i].base_url),
        ) by {
            assert(faults(i) is None);
        }
        assert forall|i: int, j: int| 0 <= j < i < n implies (#[trigger] config.models[j]).id != (
        #[trigger] config.models[i]).id by {
            assert(faults(i) is None);
        }
    }
}

/// Weights are accepted exactly where they have a version, their sum is finite and above zero, and
/// each is finite and not below zero.
pub proof fn lemma_valid_weights(weights: WeightsModel)
    ensures
        weights.fault() is None <==> {
            &&& !blank(weights.version)
            &&& weights.total.finite() && number(0).less(weights.total)
            &&& weights.quality.finite() && number(0).at_most(weights.quality)
            &&& weights.capability.finite() && number(0).at_most(weights.capability)
            &&& weights.reliability.finite() && number(0).at_most(weights.reliability)
            &&& weights.cost.finite() && number(0).at_most(weights.cost)
            &&& weights.latency.finite() && number(0).at_most(weights.latency)
            &&& weights.uncertainty.finite() && number(0).at_most(weights.uncertainty)
        },
        weights.fault() is Some ==> weights.fault()->0.kind == "configuration"@,
{
}

} // verus!
