//! The file schema, and the resolution of providers to models; execution uses `Config`.
use super::{error, field_fault};
use crate::assessment::{ExecutionClass, RuleSet, RuleSetModel};
use crate::binary64::Binary64;
use crate::contracts::configuration::{Config, ConfigModel, Model, ModelModel, Weights, WeightsModel};
use crate::contracts::profiles::{RoutingProfiles, RoutingProfilesModel};
use crate::contracts::rankings::{RankingConfig, RankingConfigModel};
use crate::contracts::task::Endpoint;
use crate::contracts::url::{parse_url, url_parts, UrlParts};
use crate::cut::{trim_slashes, unslashed};
use crate::decision::{DecisionConfig, DecisionConfigModel};
use crate::fault::{
    answers, first_fault, lemma_first_fault, or_fault, EngineError, EngineErrorModel,
};
use crate::json::JsonModel;
use crate::model::Duplicate;
use crate::text::{blank, chars_of, decimal, decimal_text, is_blank, join, join3, same_text, TextSet};
use vstd::prelude::*;

verus! {

/// How a provider is reached.
#[derive(Clone, Copy, Debug, PartialEq, Eq, Structural)]
pub enum ProviderKind {
    Direct,
    Relay,
}

impl DeepView for ProviderKind {
    type V = ProviderKind;

    open spec fn deep_view(&self) -> ProviderKind {
        *self
    }
}

impl Duplicate for ProviderKind {
    fn duplicate(&self) -> (r: Self) {
        *self
    }
}

/// How a provider authenticates.
#[derive(Clone, Copy, Debug, PartialEq, Eq, Structural)]
pub enum AuthType {
    Bearer,
}

impl DeepView for AuthType {
    type V = AuthType;

    open spec fn deep_view(&self) -> AuthType {
        *self
    }
}

impl Duplicate for AuthType {
    fn duplicate(&self) -> (r: Self) {
        *self
    }
}

/// Where the ledger is kept.
#[derive(Debug)]
pub struct Storage {
    pub database_path: String,
}

/// What a `Storage` holds.
#[verifier::ext_equal]
pub ghost struct StorageModel {
    pub database_path: Seq<char>,
}

impl DeepView for Storage {
    type V = StorageModel;

    open spec fn deep_view(&self) -> StorageModel {
        StorageModel {
            database_path: self.database_path.deep_view(),
        }
    }
}

impl Duplicate for Storage {
    fn duplicate(&self) -> (r: Self) {
        Storage {
            database_path: self.database_path.duplicate(),
        }
    }
}

impl Clone for Storage {
    fn clone(&self) -> (r: Self)
        ensures
            r.deep_view() == self.deep_view(),
    {
        self.duplicate()
    }
}

/// Where a credential comes from.
#[derive(Debug)]
pub struct Auth {
    pub kind: AuthType,
    pub env: String,
}

/// What a `Auth` holds.
#[verifier::ext_equal]
pub ghost struct AuthModel {
    pub kind: AuthType,
    pub env: Seq<char>,
}

impl DeepView for Auth {
    type V = AuthModel;

    open spec fn deep_view(&self) -> AuthModel {
        AuthModel {
            kind: self.kind.deep_view(),
            env: self.env.deep_view(),
        }
    }
}

impl Duplicate for Auth {
    fn duplicate(&self) -> (r: Self) {
        Auth {
            kind: self.kind.duplicate(),
            env: self.env.duplicate(),
        }
    }
}

impl Clone for Auth {
    fn clone(&self) -> (r: Self)
        ensures
            r.deep_view() == self.deep_view(),
    {
        self.duplicate()
    }
}

/// A model of a provider.
#[derive(Debug)]
pub struct ModelDefinition {
    pub id: String,
    pub model: String,
    pub version: String,
    pub endpoint: Endpoint,
    pub capabilities: TextSet,
    pub context_tokens: u64,
    pub input_price: u64,
    pub output_price: u64,
    pub price_version: String,
    pub acceptance: Binary64,
    pub reliability: Binary64,
    pub latency_ms: u64,
    pub uncertainty: Binary64,
    pub execution_class: ExecutionClass,
}

/// What a `ModelDefinition` holds.
#[verifier::ext_equal]
pub ghost struct ModelDefinitionModel {
    pub id: Seq<char>,
    pub model: Seq<char>,
    pub version: Seq<char>,
    pub endpoint: Endpoint,
    pub capabilities: Set<Seq<char>>,
    pub context_tokens: u64,
    pub input_price: u64,
    pub output_price: u64,
    pub price_version: Seq<char>,
    pub acceptance: Binary64,
    pub reliability: Binary64,
    pub latency_ms: u64,
    pub uncertainty: Binary64,
    pub execution_class: ExecutionClass,
}

impl DeepView for ModelDefinition {
    type V = ModelDefinitionModel;

    open spec fn deep_view(&self) -> ModelDefinitionModel {
        ModelDefinitionModel {
            id: self.id.deep_view(),
            model: self.model.deep_view(),
            version: self.version.deep_view(),
            endpoint: self.endpoint.deep_view(),
            capabilities: self.capabilities.deep_view(),
            context_tokens: self.context_tokens.deep_view(),
            input_price: self.input_price.deep_view(),
            output_price: self.output_price.deep_view(),
            price_version: self.price_version.deep_view(),
            acceptance: self.acceptance.deep_view(),
            reliability: self.reliability.deep_view(),
            latency_ms: self.latency_ms.deep_view(),
            uncertainty: self.uncertainty.deep_view(),
            execution_class: self.execution_class.deep_view(),
        }
    }
}

impl Duplicate for ModelDefinition {
    fn duplicate(&self) -> (r: Self) {
        ModelDefinition {
            id: self.id.duplicate(),
            model: self.model.duplicate(),
            version: self.version.duplicate(),
            endpoint: self.endpoint.duplicate(),
            capabilities: self.capabilities.duplicate(),
            context_tokens: self.context_tokens.duplicate(),
            input_price: self.input_price.duplicate(),
            output_price: self.output_price.duplicate(),
            price_version: self.price_version.duplicate(),
            acceptance: self.acceptance.duplicate(),
            reliability: self.reliability.duplicate(),
            latency_ms: self.latency_ms.duplicate(),
            uncertainty: self.uncertainty.duplicate(),
            execution_class: self.execution_class.duplicate(),
        }
    }
}

impl Clone for ModelDefinition {
    fn clone(&self) -> (r: Self)
        ensures
            r.deep_view() == self.deep_view(),
    {
        self.duplicate()
    }
}

/// A service and its models. The declared kinds describe the connection, never an upstream
/// identity.
#[derive(Debug)]
pub struct Provider {
    pub id: String,
    pub kind: ProviderKind,
    pub base_url: String,
    pub auth: Auth,
    pub endpoints: Vec<Endpoint>,
    pub region: String,
    pub local: bool,
    pub models: Vec<ModelDefinition>,
}

/// What a `Provider` holds.
#[verifier::ext_equal]
pub ghost struct ProviderModel {
    pub id: Seq<char>,
    pub kind: ProviderKind,
    pub base_url: Seq<char>,
    pub auth: AuthModel,
    pub endpoints: Seq<Endpoint>,
    pub region: Seq<char>,
    pub local: bool,
    pub models: Seq<ModelDefinitionModel>,
}

impl DeepView for Provider {
    type V = ProviderModel;

    open spec fn deep_view(&self) -> ProviderModel {
        ProviderModel {
            id: self.id.deep_view(),
            kind: self.kind.deep_view(),
            base_url: self.base_url.deep_view(),
            auth: self.auth.deep_view(),
            endpoints: self.endpoints.deep_view(),
            region: self.region.deep_view(),
            local: self.local.deep_view(),
            models: self.models.deep_view(),
        }
    }
}

impl Duplicate for Provider {
    fn duplicate(&self) -> (r: Self) {
        Provider {
            id: self.id.duplicate(),
            kind: self.kind.duplicate(),
            base_url: self.base_url.duplicate(),
            auth: self.auth.duplicate(),
            endpoints: self.endpoints.duplicate(),
            region: self.region.duplicate(),
            local: self.local.duplicate(),
            models: self.models.duplicate(),
        }
    }
}

impl Clone for Provider {
    fn clone(&self) -> (r: Self)
        ensures
            r.deep_view() == self.deep_view(),
    {
        self.duplicate()
    }
}

/// What routing is configured with.
#[derive(Debug)]
pub struct Routing {
    pub planner_models: TextSet,
    pub profiles: Option<RoutingProfiles>,
    pub rankings: Option<RankingConfig>,
    pub assessment_rules: Option<RuleSet>,
    pub decision: Option<DecisionConfig>,
    pub weights: Weights,
}

/// What a `Routing` holds.
#[verifier::ext_equal]
pub ghost struct RoutingModel {
    pub planner_models: Set<Seq<char>>,
    pub profiles: Option<RoutingProfilesModel>,
    pub rankings: Option<RankingConfigModel>,
    pub assessment_rules: Option<RuleSetModel>,
    pub decision: Option<DecisionConfigModel>,
    pub weights: WeightsModel,
}

impl DeepView for Routing {
    type V = RoutingModel;

    open spec fn deep_view(&self) -> RoutingModel {
        RoutingModel {
            planner_models: self.planner_models.deep_view(),
            profiles: self.profiles.deep_view(),
            rankings: self.rankings.deep_view(),
            assessment_rules: self.assessment_rules.deep_view(),
            decision: self.decision.deep_view(),
            weights: self.weights.deep_view(),
        }
    }
}

impl Duplicate for Routing {
    fn duplicate(&self) -> (r: Self) {
        Routing {
            planner_models: self.planner_models.duplicate(),
            profiles: self.profiles.duplicate(),
            rankings: self.rankings.duplicate(),
            assessment_rules: self.assessment_rules.duplicate(),
            decision: self.decision.duplicate(),
            weights: self.weights.duplicate(),
        }
    }
}

impl Clone for Routing {
    fn clone(&self) -> (r: Self)
        ensures
            r.deep_view() == self.deep_view(),
    {
        self.duplicate()
    }
}

/// The limits at run time.
#[derive(Debug)]
pub struct Runtime {
    pub max_concurrency: usize,
    pub event_capacity: usize,
    pub event_max_bytes: usize,
    pub stream_frame_max_bytes: usize,
    pub context_max_bytes: usize,
    pub close_grace_ms: u64,
    pub cleanup_timeout_ms: u64,
}

/// What a `Runtime` holds.
#[verifier::ext_equal]
pub ghost struct RuntimeModel {
    pub max_concurrency: usize,
    pub event_capacity: usize,
    pub event_max_bytes: usize,
    pub stream_frame_max_bytes: usize,
    pub context_max_bytes: usize,
    pub close_grace_ms: u64,
    pub cleanup_timeout_ms: u64,
}

impl DeepView for Runtime {
    type V = RuntimeModel;

    open spec fn deep_view(&self) -> RuntimeModel {
        RuntimeModel {
            max_concurrency: self.max_concurrency.deep_view(),
            event_capacity: self.event_capacity.deep_view(),
            event_max_bytes: self.event_max_bytes.deep_view(),
            stream_frame_max_bytes: self.stream_frame_max_bytes.deep_view(),
            context_max_bytes: self.context_max_bytes.deep_view(),
            close_grace_ms: self.close_grace_ms.deep_view(),
            cleanup_timeout_ms: self.cleanup_timeout_ms.deep_view(),
        }
    }
}

impl Duplicate for Runtime {
    fn duplicate(&self) -> (r: Self) {
        Runtime {
            max_concurrency: self.max_concurrency.duplicate(),
            event_capacity: self.event_capacity.duplicate(),
            event_max_bytes: self.event_max_bytes.duplicate(),
            stream_frame_max_bytes: self.stream_frame_max_bytes.duplicate(),
            context_max_bytes: self.context_max_bytes.duplicate(),
            close_grace_ms: self.close_grace_ms.duplicate(),
            cleanup_timeout_ms: self.cleanup_timeout_ms.duplicate(),
        }
    }
}

impl Clone for Runtime {
    fn clone(&self) -> (r: Self)
        ensures
            r.deep_view() == self.deep_view(),
    {
        self.duplicate()
    }
}

/// A configuration file.
#[derive(Debug)]
pub struct Document {
    pub schema_version: u32,
    pub storage: Storage,
    pub providers: Vec<Provider>,
    pub routing: Routing,
    pub runtime: Runtime,
}

/// What a `Document` holds.
#[verifier::ext_equal]
pub ghost struct DocumentModel {
    pub schema_version: u32,
    pub storage: StorageModel,
    pub providers: Seq<ProviderModel>,
    pub routing: RoutingModel,
    pub runtime: RuntimeModel,
}

impl DeepView for Document {
    type V = DocumentModel;

    open spec fn deep_view(&self) -> DocumentModel {
        DocumentModel {
            schema_version: self.schema_version.deep_view(),
            storage: self.storage.deep_view(),
            providers: self.providers.deep_view(),
            routing: self.routing.deep_view(),
            runtime: self.runtime.deep_view(),
        }
    }
}

impl Duplicate for Document {
    fn duplicate(&self) -> (r: Self) {
        Document {
            schema_version: self.schema_version.duplicate(),
            storage: self.storage.duplicate(),
            providers: self.providers.duplicate(),
            routing: self.routing.duplicate(),
            runtime: self.runtime.duplicate(),
        }
    }
}

impl Clone for Document {
    fn clone(&self) -> (r: Self)
        ensures
            r.deep_view() == self.deep_view(),
    {
        self.duplicate()
    }
}

/// A letter of the name of an environment variable.
pub open spec fn name_letter(c: char) -> bool {
    'a' <= c <= 'z' || 'A' <= c <= 'Z' || c == '_'
}

/// The name of an environment variable: letters, digits and `_`, and no digit first.
pub open spec fn variable_name(s: Seq<char>) -> bool {
    &&& s.len() > 0
    &&& name_letter(s[0])
    &&& forall|i: int| 0 <= i < s.len() ==> name_letter(#[trigger] s[i]) || '0' <= s[i] <= '9'
}

fn is_name_letter(c: char) -> (r: bool)
    ensures
        r == name_letter(c),
{
    ('a' <= c && c <= 'z') || ('A' <= c && c <= 'Z') || c == '_'
}

fn is_variable_name(s: &str) -> (r: bool)
    ensures
        r == variable_name(s@),
{
    let chars: Vec<char> = chars_of(s);
    if chars.len() == 0 || !is_name_letter(chars[0]) {
        return false;
    }
    let mut i: usize = 0;
    while i < chars.len()
        invariant
            i <= chars@.len(),
            chars@ == s@,
            forall|j: int|
                0 <= j < i ==> name_letter(#[trigger] chars@[j]) || '0' <= chars@[j] <= '9',
        decreases chars@.len() - i,
    {
        let c: char = chars[i];
        if !(is_name_letter(c) || ('0' <= c && c <= '9')) {
            assert(!(name_letter(s@[i as int]) || '0' <= s@[i as int] <= '9'));
            return false;
        }
        i += 1;
    }
    true
}

/// The path of a provider.
pub open spec fn provider_path(index: nat) -> Seq<char> {
    "providers["@ + decimal(index) + "]"@
}

fn provider_field(index: usize) -> (r: String)
    ensures
        r@ == provider_path(index as nat),
{
    join3("providers[", decimal_text(index).as_str(), "]")
}

/// The path of a model of a provider.
pub open spec fn model_path(provider: nat, index: nat) -> Seq<char> {
    provider_path(provider) + (".models["@ + decimal(index) + "]"@)
}

fn model_field(provider: usize, index: usize) -> (r: String)
    ensures
        r@ == model_path(provider as nat, index as nat),
{
    let last: String = join3(".models[", decimal_text(index).as_str(), "]");
    join(provider_field(provider).as_str(), last.as_str())
}

/// A provider's URL can name a service.
pub open spec fn service_url(u: UrlParts) -> bool {
    u.web && u.host && !u.credentials && !u.query && !u.fragment
}

impl ProviderModel {
    /// The fault of a provider whose URL reads as `url`.
    pub open spec fn fault_at(self, index: nat, url: Option<UrlParts>) -> Option<
        EngineErrorModel,
    > {
        let path = provider_path(index);
        if blank(self.id) || blank(self.region) {
            Some(field_fault(path + ".id"@, "provider identity and region must be nonempty"@))
        } else if !variable_name(self.auth.env) {
            Some(
                field_fault(path + ".auth.env"@, "invalid credential environment variable name"@),
            )
        } else if url is None {
            Some(field_fault(path + ".base_url"@, "invalid service URL"@))
        } else if !service_url(url->0) {
            Some(
                field_fault(
                    path + ".base_url"@,
                    "service URL must be HTTP(S) without credentials, query or fragment"@,
                ),
            )
        } else if self.endpoints.len() == 0 || !self.endpoints.no_duplicates() {
            Some(
                field_fault(path + ".endpoints"@, "service endpoints must be nonempty and unique"@),
            )
        } else {
            None
        }
    }

    /// The fault of a provider.
    pub open spec fn fault(self, index: nat) -> Option<EngineErrorModel> {
        self.fault_at(index, url_parts(self.base_url))
    }

    /// The model that a definition of this provider resolves to.
    pub open spec fn resolved(self, d: ModelDefinitionModel) -> ModelModel {
        ModelModel {
            id: d.id,
            model: d.model,
            version: d.version,
            endpoint: d.endpoint,
            base_url: unslashed(self.base_url),
            api_key_env: self.auth.env,
            provider: self.id,
            region: self.region,
            local: self.local,
            capabilities: d.capabilities,
            context_tokens: d.context_tokens,
            input_price: d.input_price,
            output_price: d.output_price,
            price_version: d.price_version,
            acceptance: d.acceptance,
            reliability: d.reliability,
            latency_ms: d.latency_ms,
            uncertainty: d.uncertainty,
            execution_class: d.execution_class,
        }
    }

    /// The models of this provider.
    pub open spec fn resolved_models(self) -> Seq<ModelModel> {
        Seq::new(self.models.len(), |j: int| self.resolved(self.models[j]))
    }

    /// One of the first `n` models has that name.
    pub open spec fn defines(self, n: int, id: Seq<char>) -> bool {
        exists|j: int| 0 <= j < n && (#[trigger] self.models[j]).id == id
    }

    /// The faults of the models, where `taken` are the names of the providers before.
    pub open spec fn model_faults(self, index: nat, taken: Set<Seq<char>>) -> spec_fn(
        int,
    ) -> Option<EngineErrorModel> {
        |j: int|
            {
                let d = self.models[j];
                let path = model_path(index, j as nat);
                if blank(d.id) || taken.contains(d.id) || self.defines(j, d.id) {
                    Some(field_fault(path + ".id"@, "model IDs must be nonempty and unique"@))
                } else if !self.endpoints.contains(d.endpoint) {
                    Some(
                        field_fault(
                            path + ".endpoint"@,
                            "endpoint is not declared by the provider"@,
                        ),
                    )
                } else {
                    match self.resolved(d).fault() {
                        Some(e) => Some(field_fault(path, e.message)),
                        None => None,
                    }
                }
            }
    }

    /// The fault of the models of a provider.
    pub open spec fn models_fault(self, index: nat, taken: Set<Seq<char>>) -> Option<
        EngineErrorModel,
    > {
        if self.models.len() == 0 {
            Some(field_fault(provider_path(index) + ".models"@, "models must not be empty"@))
        } else {
            first_fault(self.model_faults(index, taken), self.models.len())
        }
    }
}

impl Provider {
    /// Checks a provider; `index` is its place in the file.
    pub fn validate(&self, index: usize) -> (r: Result<(), EngineError>)
        ensures
            answers(r, self.deep_view().fault(index as nat)),
    {
        self.validate_at(index, parse_url(self.base_url.as_str()))
    }

    /// Checks a provider whose URL reads as `url`.
    pub fn validate_at(&self, index: usize, url: Option<UrlParts>) -> (r: Result<(), EngineError>)
        ensures
            answers(r, self.deep_view().fault_at(index as nat, url)),
    {
        let path: String = provider_field(index);
        if is_blank(self.id.as_str()) || is_blank(self.region.as_str()) {
            return Err(
                error(
                    join(path.as_str(), ".id").as_str(),
                    "provider identity and region must be nonempty",
                ),
            );
        }
        if !is_variable_name(self.auth.env.as_str()) {
            return Err(
                error(
                    join(path.as_str(), ".auth.env").as_str(),
                    "invalid credential environment variable name",
                ),
            );
        }
        match url {
            None => {
                return Err(error(join(path.as_str(), ".base_url").as_str(), "invalid service URL"));
            },
            Some(u) => {
                if !(u.web && u.host && !u.credentials && !u.query && !u.fragment) {
                    return Err(
                        error(
                            join(path.as_str(), ".base_url").as_str(),
                            "service URL must be HTTP(S) without credentials, query or fragment",
                        ),
                    );
                }
            },
        }
        if self.endpoints.len() == 0 || !self.endpoints_differ() {
            return Err(
                error(
                    join(path.as_str(), ".endpoints").as_str(),
                    "service endpoints must be nonempty and unique",
                ),
            );
        }
        Ok(())
    }

    fn endpoints_differ(&self) -> (r: bool)
        ensures
            r == self.deep_view().endpoints.no_duplicates(),
    {
        let ghost all = self.deep_view().endpoints;
        let mut i: usize = 0;
        while i < self.endpoints.len()
            invariant
                i <= self.endpoints@.len(),
                all == self.deep_view().endpoints,
                forall|a: int, b: int| 0 <= a < b < i ==> all[a] != all[b],
            decreases self.endpoints@.len() - i,
        {
            if self.declares(i, self.endpoints[i]) {
                let ghost a = choose|a: int| 0 <= a < i && all[a] == self.endpoints@[i as int];
                assert(all[a] == all[i as int]);
                return false;
            }
            proof {
                assert forall|a: int, b: int| 0 <= a < b < i + 1 implies all[a] != all[b] by {
                    if b == i {
                        assert(all[b] == self.endpoints@[i as int]);
                    }
                }
            }
            i += 1;
        }
        true
    }

    /// Whether one of the first `n` endpoints is that one.
    fn declares(&self, n: usize, endpoint: Endpoint) -> (r: bool)
        requires
            n <= self.endpoints@.len(),
        ensures
            r == exists|a: int| 0 <= a < n && self.deep_view().endpoints[a] == endpoint,
    {
        let ghost all = self.deep_view().endpoints;
        let mut i: usize = 0;
        while i < n
            invariant
                i <= n,
                n <= self.endpoints@.len(),
                all == self.deep_view().endpoints,
                forall|a: int| 0 <= a < i ==> all[a] != endpoint,
            decreases n - i,
        {
            assert(all[i as int] == self.endpoints@[i as int]);
            if self.endpoints[i] == endpoint {
                return true;
            }
            i += 1;
        }
        false
    }

    fn resolve_model(&self, d: &ModelDefinition) -> (r: Model)
        ensures
            r.deep_view() == self.deep_view().resolved(d.deep_view()),
    {
        Model {
            id: d.id.clone(),
            model: d.model.clone(),
            version: d.version.clone(),
            endpoint: d.endpoint,
            base_url: trim_slashes(self.base_url.as_str()),
            api_key_env: self.auth.env.clone(),
            provider: self.id.clone(),
            region: self.region.clone(),
            local: self.local,
            capabilities: d.capabilities.duplicate(),
            context_tokens: d.context_tokens,
            input_price: d.input_price,
            output_price: d.output_price,
            price_version: d.price_version.clone(),
            acceptance: d.acceptance,
            reliability: d.reliability,
            latency_ms: d.latency_ms,
            uncertainty: d.uncertainty,
            execution_class: d.execution_class,
        }
    }

    /// Resolves the models of a provider; their names join `ids`.
    pub fn resolve_models(&self, index: usize, ids: &mut TextSet) -> (r: Result<
        Vec<Model>,
        EngineError,
    >)
        ensures
            answers(r, self.deep_view().models_fault(index as nat, old(ids).deep_view())),
            r matches Ok(models) ==> {
                &&& models.deep_view() == self.deep_view().resolved_models()
                &&& forall|t: Seq<char>| #[trigger]
                    final(ids).has(t) <==> old(ids).has(t) || self.deep_view().defines(
                        self.models@.len() as int,
                        t,
                    )
            },
    {
        let ghost p = self.deep_view();
        let ghost start = *ids;
        let ghost faults = p.model_faults(index as nat, start.deep_view());
        if self.models.len() == 0 {
            return Err(
                error(
                    join(provider_field(index).as_str(), ".models").as_str(),
                    "models must not be empty",
                ),
            );
        }
        let mut models: Vec<Model> = Vec::new();
        let mut j: usize = 0;
        while j < self.models.len()
            invariant
                j <= self.models@.len(),
                p == self.deep_view(),
                start == *old(ids),
                faults == p.model_faults(index as nat, start.deep_view()),
                first_fault(faults, j as nat) is None,
                models.deep_view() == p.resolved_models().take(j as int),
                forall|t: Seq<char>| #[trigger]
                    ids.has(t) <==> start.has(t) || p.defines(j as int, t),
            decreases self.models@.len() - j,
        {
            let d: &ModelDefinition = &self.models[j];
            let path: String = model_field(index, j);
            proof {
                assert(p.models[j as int] == d.deep_view());
                if faults(j as int) is Some {
                    lemma_first_fault(faults, j as nat, self.models@.len());
                }
            }
            let ghost known = *ids;
            if is_blank(d.id.as_str()) || !ids.insert(d.id.clone()) {
                return Err(
                    error(
                        join(path.as_str(), ".id").as_str(),
                        "model IDs must be nonempty and unique",
                    ),
                );
            }
            let declared: bool = self.declares(self.endpoints.len(), d.endpoint);
            assert(declared == p.endpoints.contains(d.endpoint));
            if !declared {
                return Err(
                    error(
                        join(path.as_str(), ".endpoint").as_str(),
                        "endpoint is not declared by the provider",
                    ),
                );
            }
            let model: Model = self.resolve_model(d);
            if let Err(e) = model.validate() {
                return Err(error(path.as_str(), e.message.as_str()));
            }
            let ghost before = models.deep_view();
            models.push(model);
            proof {
                assert(models.deep_view() =~= before.push(p.resolved(p.models[j as int])));
                assert(models.deep_view() =~= p.resolved_models().take(j + 1));
                assert forall|t: Seq<char>| #[trigger]
                    ids.has(t) <==> start.has(t) || p.defines(j + 1, t) by {
                    assert(ids.has(t) <==> known.has(t) || t == d.id@);
                    assert(p.models[j as int].id == d.id@);
                }
            }
            j += 1;
        }
        assert(models.deep_view() =~= p.resolved_models());
        Ok(models)
    }
}

/// One of the first `n` providers defines a model of that name.
pub open spec fn defined_before(providers: Seq<ProviderModel>, n: int, id: Seq<char>) -> bool {
    exists|i: int|
        0 <= i < n && (#[trigger] providers[i]).defines(providers[i].models.len() as int, id)
}

/// The names of the models of the first `n` providers.
pub open spec fn names_before(providers: Seq<ProviderModel>, n: int) -> Set<Seq<char>> {
    Set::new(|id: Seq<char>| defined_before(providers, n, id))
}

/// The models of the first `n` providers, in their order.
pub open spec fn models_of(providers: Seq<ProviderModel>, n: nat) -> Seq<ModelModel>
    decreases n,
{
    if n == 0 {
        Seq::empty()
    } else {
        models_of(providers, (n - 1) as nat) + providers[n - 1].resolved_models()
    }
}

impl DocumentModel {
    /// The faults of the providers with their models.
    pub open spec fn provider_faults(self) -> spec_fn(int) -> Option<EngineErrorModel> {
        |i: int|
            or_fault(
                self.providers[i].fault(i as nat),
                if exists|k: int|
                    0 <= k < i && (#[trigger] self.providers[k]).id == self.providers[i].id {
                    Some(field_fault(provider_path(i as nat) + ".id"@, "duplicate provider ID"@))
                } else {
                    self.providers[i].models_fault(i as nat, names_before(self.providers, i))
                },
            )
    }

    /// The configuration with its database at a place.
    pub open spec fn config(self, located: Option<Seq<char>>) -> ConfigModel {
        ConfigModel {
            database_path: located->0,
            models: models_of(self.providers, self.providers.len()),
            planner_models: self.routing.planner_models,
            routing_profiles: self.routing.profiles,
            rankings: self.routing.rankings,
            assessment_rules: self.routing.assessment_rules,
            decision: self.routing.decision,
            weights: self.routing.weights,
            max_concurrency: self.runtime.max_concurrency,
            event_capacity: self.runtime.event_capacity,
            event_max_bytes: self.runtime.event_max_bytes,
            stream_frame_max_bytes: self.runtime.stream_frame_max_bytes,
            context_max_bytes: self.runtime.context_max_bytes,
            close_grace_ms: self.runtime.close_grace_ms,
            cleanup_timeout_ms: self.runtime.cleanup_timeout_ms,
        }
    }

    /// The fault of the document's own parts.
    pub open spec fn shape_fault(self) -> Option<EngineErrorModel> {
        if self.schema_version != 1 {
            Some(
                field_fault(
                    "schema_version"@,
                    "only configuration schema version 1 is supported"@,
                ),
            )
        } else if blank(self.storage.database_path) || self.storage.database_path == ":memory:"@ {
            Some(field_fault("storage.database_path"@, "database path must name a file"@))
        } else if self.providers.len() == 0 {
            Some(field_fault("providers"@, "providers must not be empty"@))
        } else {
            first_fault(self.provider_faults(), self.providers.len())
        }
    }

    /// The fault of a document whose database is at a place.
    pub open spec fn fault(self, located: Option<Seq<char>>) -> Option<EngineErrorModel> {
        or_fault(
            self.shape_fault(),
            if located is None {
                Some(field_fault("storage.database_path"@, "database path must be UTF-8"@))
            } else {
                match (
                    self.config(located).runtime_fault(),
                    self.config(located).fault(true),
                ) {
                    (Some(e), _) => Some(field_fault("runtime"@, e.message)),
                    (None, Some(e)) => Some(field_fault("routing"@, e.message)),
                    (None, None) => None,
                }
            },
        )
    }
}

impl Document {
    fn resolve_providers(&self) -> (r: Result<Vec<Model>, EngineError>)
        ensures
            answers(r, first_fault(self.deep_view().provider_faults(), self.providers@.len())),
            r matches Ok(models) ==> models.deep_view() == models_of(
                self.deep_view().providers,
                self.providers@.len(),
            ),
    {
        let ghost d = self.deep_view();
        let ghost all = d.providers;
        let ghost faults = d.provider_faults();
        let mut names: TextSet = TextSet::new();
        let mut ids: TextSet = TextSet::new();
        let mut models: Vec<Model> = Vec::new();
        let mut i: usize = 0;
        assert(models.deep_view() =~= models_of(all, 0));
        while i < self.providers.len()
            invariant
                i <= self.providers@.len(),
                d == self.deep_view(),
                all == d.providers,
                faults == d.provider_faults(),
                first_fault(faults, i as nat) is None,
                models.deep_view() == models_of(all, i as nat),
                forall|t: Seq<char>| #[trigger]
                    names.has(t) <==> (exists|k: int|
                        0 <= k < i && (#[trigger] all[k]).id == t),
                forall|t: Seq<char>| #[trigger]
                    ids.has(t) <==> defined_before(all, i as int, t),
            decreases self.providers@.len() - i,
        {
            let provider: &Provider = &self.providers[i];
            proof {
                assert(all[i as int] == provider.deep_view());
                if faults(i as int) is Some {
                    lemma_first_fault(faults, i as nat, self.providers@.len());
                }
            }
            if let Err(e) = provider.validate(i) {
                return Err(e);
            }
            let ghost known = names;
            if !names.insert(provider.id.clone()) {
                return Err(
                    error(
                        join(provider_field(i).as_str(), ".id").as_str(),
                        "duplicate provider ID",
                    ),
                );
            }
            let ghost taken = ids;
            assert(taken.deep_view() =~= names_before(all, i as int));
            match provider.resolve_models(i, &mut ids) {
                Err(e) => {
                    return Err(e);
                },
                Ok(resolved) => {
                    let ghost before = models.deep_view();
                    let mut resolved: Vec<Model> = resolved;
                    let ghost added = resolved.deep_view();
                    models.append(&mut resolved);
                    assert(models.deep_view() =~= before + added);
                },
            }
            proof {
                assert forall|t: Seq<char>| #[trigger]
                    names.has(t) <==> (exists|k: int|
                        0 <= k < i + 1 && (#[trigger] all[k]).id == t) by {
                    assert(names.has(t) <==> known.has(t) || t == all[i as int].id);
                }
                assert forall|t: Seq<char>| #[trigger]
                    ids.has(t) <==> defined_before(all, i + 1, t) by {
                    let p = all[i as int];
                    assert(ids.has(t) <==> taken.has(t) || p.defines(p.models.len() as int, t));
                }
            }
            i += 1;
        }
        Ok(models)
    }

    /// Resolves a document. `located` is its database path seen from the base directory, where
    /// that is UTF-8.
    pub fn resolve(self, located: Option<String>) -> (r: Result<Config, EngineError>)
        ensures
            answers(r, self.deep_view().fault(located.deep_view())),
            r matches Ok(config) ==> config.deep_view() == self.deep_view().config(
                located.deep_view(),
            ) && config.deep_view().fault(true) is None,
    {
        if self.schema_version != 1 {
            return Err(
                error("schema_version", "only configuration schema version 1 is supported"),
            );
        }
        if is_blank(self.storage.database_path.as_str()) || same_text(
            self.storage.database_path.as_str(),
            ":memory:",
        ) {
            return Err(error("storage.database_path", "database path must name a file"));
        }
        if self.providers.len() == 0 {
            return Err(error("providers", "providers must not be empty"));
        }
        let models: Vec<Model> = match self.resolve_providers() {
            Ok(models) => models,
            Err(e) => {
                return Err(e);
            },
        };
        let database_path: String = match located {
            Some(path) => path,
            None => {
                return Err(error("storage.database_path", "database path must be UTF-8"));
            },
        };
        let config = Config {
            database_path,
            models,
            planner_models: self.routing.planner_models,
            routing_profiles: self.routing.profiles,
            rankings: self.routing.rankings,
            assessment_rules: self.routing.assessment_rules,
            decision: self.routing.decision,
            weights: self.routing.weights,
            max_concurrency: self.runtime.max_concurrency,
            event_capacity: self.runtime.event_capacity,
            event_max_bytes: self.runtime.event_max_bytes,
            stream_frame_max_bytes: self.runtime.stream_frame_max_bytes,
            context_max_bytes: self.runtime.context_max_bytes,
            close_grace_ms: self.runtime.close_grace_ms,
            cleanup_timeout_ms: self.runtime.cleanup_timeout_ms,
        };
        if let Err(e) = config.validate_runtime() {
            return Err(error("runtime", e.message.as_str()));
        }
        if let Err(e) = config.validate(true) {
            return Err(error("routing", e.message.as_str()));
        }
        Ok(config)
    }
}

/// A model of a provider has what its definition says, and from the provider the place, the
/// credential and where it runs.
pub proof fn lemma_resolved_model(provider: ProviderModel, d: ModelDefinitionModel)
    ensures
        ({
            let m = provider.resolved(d);
            &&& m.id == d.id && m.model == d.model && m.version == d.version
            &&& m.endpoint == d.endpoint && m.capabilities == d.capabilities
            &&& m.context_tokens == d.context_tokens
            &&& m.input_price == d.input_price && m.output_price == d.output_price
            &&& m.price_version == d.price_version
            &&& m.acceptance == d.acceptance && m.reliability == d.reliability
            &&& m.latency_ms == d.latency_ms && m.uncertainty == d.uncertainty
            &&& m.execution_class == d.execution_class
            &&& m.base_url == unslashed(provider.base_url)
            &&& m.api_key_env == provider.auth.env
            &&& m.provider == provider.id && m.region == provider.region
            &&& m.local == provider.local
        }),
{
}

/// The models of a document are those of its providers, all of them, provider by provider and in
/// the order in which each lists them.
pub proof fn lemma_models_stand_in_order(providers: Seq<ProviderModel>, n: nat, k: int)
    requires
        n < providers.len(),
    ensures
        ({
            let before = models_of(providers, n);
            let after = models_of(providers, n + 1);
            let p = providers[n as int];
            &&& models_of(providers, 0).len() == 0
            &&& after.len() == before.len() + p.models.len()
            &&& 0 <= k < before.len() ==> after[k] == before[k]
            &&& 0 <= k < p.models.len() ==> after[before.len() + k] == p.resolved(p.models[k])
        }),
{
    reveal_with_fuel(models_of, 2);
}

/// A configuration has the limits and the routing of its document, and its database where it was
/// found.
pub proof fn lemma_resolved_configuration(document: DocumentModel, path: Seq<char>)
    ensures
        ({
            let c = document.config(Some(path));
            &&& c.database_path == path
            &&& c.models == models_of(document.providers, document.providers.len())
            &&& c.planner_models == document.routing.planner_models
            &&& c.routing_profiles == document.routing.profiles
            &&& c.rankings == document.routing.rankings
            &&& c.assessment_rules == document.routing.assessment_rules
            &&& c.decision == document.routing.decision
            &&& c.weights == document.routing.weights
            &&& c.max_concurrency == document.runtime.max_concurrency
            &&& c.event_capacity == document.runtime.event_capacity
            &&& c.event_max_bytes == document.runtime.event_max_bytes
            &&& c.stream_frame_max_bytes == document.runtime.stream_frame_max_bytes
            &&& c.context_max_bytes == document.runtime.context_max_bytes
            &&& c.close_grace_ms == document.runtime.close_grace_ms
            &&& c.cleanup_timeout_ms == document.runtime.cleanup_timeout_ms
        }),
{
}

/// A provider is accepted exactly where it has a name and a region, its credential is named by a
/// variable, its URL is of the web with a host and tells neither credentials nor a query nor a
/// fragment, and it has endpoints, none of them twice.
pub proof fn lemma_valid_provider(provider: ProviderModel, index: nat, url: Option<UrlParts>)
    ensures
        provider.fault_at(index, url) is None <==> {
            &&& !blank(provider.id) && !blank(provider.region)
            &&& provider.auth.env.len() > 0
            &&& !('0' <= provider.auth.env[0] <= '9')
            &&& forall|i: int|
                0 <= i < provider.auth.env.len() ==> {
                    let c = #[trigger] provider.auth.env[i];
                    'a' <= c <= 'z' || 'A' <= c <= 'Z' || c == '_' || '0' <= c <= '9'
                }
            &&& url is Some && url->0.web && url->0.host
            &&& !url->0.credentials && !url->0.query && !url->0.fragment
            &&& provider.endpoints.len() > 0 && provider.endpoints.no_duplicates()
        },
        provider.fault_at(index, url) is Some ==> provider.fault_at(index, url)->0.kind
            == "configuration"@,
{
    let env = provider.auth.env;
    if env.len() > 0 && !('0' <= env[0] <= '9') && (forall|i: int|
        0 <= i < env.len() ==> {
            let c = #[trigger] env[i];
            'a' <= c <= 'z' || 'A' <= c <= 'Z' || c == '_' || '0' <= c <= '9'
        }) {
        assert(name_letter(env[0]));
        assert(variable_name(env));
    }
    if variable_name(env) {
        assert(name_letter(env[0]));
    }
}

/// A document is accepted only where it is of the version that is read, names a file, and has
/// providers with names of their own, each accepted with models at endpoints that it has.
pub proof fn lemma_valid_document(
    document: DocumentModel,
    located: Option<Seq<char>>,
    i: int,
    j: int,
)
    requires
        document.fault(located) is None,
    ensures
        document.schema_version == 1,
        !blank(document.storage.database_path),
        document.storage.database_path != ":memory:"@,
        document.providers.len() > 0,
        located is Some,
        document.config(located).fault(true) is None,
        0 <= i < document.providers.len() ==> {
            let p = document.providers[i];
            &&& p.fault(i as nat) is None
            &&& p.models.len() > 0
            &&& forall|k: int| 0 <= k < i ==> (#[trigger] document.providers[k]).id != p.id
            &&& 0 <= j < p.models.len() ==> !blank(p.models[j].id) && p.endpoints.contains(
                p.models[j].endpoint,
            ) && p.resolved(p.models[j]).fault() is None
        },
{
    if 0 <= i < document.providers.len() {
        crate::fault::lemma_first_fault_at(
            document.provider_faults(),
            document.providers.len(),
            i,
        );
        let p = document.providers[i];
        if 0 <= j < p.models.len() {
            crate::fault::lemma_first_fault_at(
                p.model_faults(i as nat, names_before(document.providers, i)),
                p.models.len(),
                j,
            );
        }
    }
}

/// A provider that is refused is told by the first of its fields that is wrong, at its place in the
/// document.
pub proof fn lemma_refused_provider_names_its_field(
    provider: ProviderModel,
    index: nat,
    url: Option<UrlParts>,
)
    ensures
        ({
            let fault = provider.fault_at(index, url);
            let place = "providers["@ + decimal(index) + "]"@;
            let named = |field: Seq<char>|
                fault is Some && fault->0.details.at("field"@) == JsonModel::Text(place + field);
            let known = !blank(provider.id) && !blank(provider.region);
            let service = url is Some && url->0.web && url->0.host && !url->0.credentials
                && !url->0.query && !url->0.fragment;
            &&& !known ==> named(".id"@)
            &&& known && !variable_name(provider.auth.env) ==> named(".auth.env"@)
            &&& known && variable_name(provider.auth.env) && !service ==> named(".base_url"@)
            &&& known && variable_name(provider.auth.env) && service && fault is Some ==> named(
                ".endpoints"@,
            )
        }),
{
}

} // verus!
