//! Pure resolution and serializable, fixed per-submission routing inputs.
pub mod evidence;

use super::rankings::{resolved_ranking, ResolvedRanking, ResolvedRankingModel};
use crate::assessment::ExecutionClass;
use crate::binary64::{number, Binary64, TEN};
use crate::contracts::configuration::{Config, ConfigModel, Model, ModelModel, Weights, WeightsModel};
use crate::contracts::feedback::{
    no_metrics, FeedbackKind, MetricsSnapshot, MetricsSnapshotModel, QualityStatistics,
    QualityStatisticsModel,
};
use crate::contracts::planning::{
    EffectivePlan, EffectivePlanModel, RoleProfile, RoleProfileModel, TaskType,
};
use crate::contracts::profiles::{
    default_profiles, find_parent, lemma_types_bounded, parent_of, QualityProfile,
    QualityProfileModel, RoleMapping, RoleMappingModel, RoutingProfiles, RoutingProfilesModel,
    WeightsEntry, WeightsEntryModel,
};
use crate::contracts::rankings::{RankingConfig, RankingConfigModel};
use crate::contracts::selection::{SelectionPolicy, SelectionPolicyModel};
use crate::identity::{digest, hex, sha256};
use crate::model::Duplicate;
use crate::text::{same_text, TextMap};
use vstd::prelude::*;

verus! {

/// How far evidence was looked for.
#[derive(Clone, Copy, Debug, PartialEq, Eq, Structural)]
pub enum FallbackTier {
    Exact,
    Parent,
    General,
    GlobalPrior,
}

impl DeepView for FallbackTier {
    type V = FallbackTier;

    open spec fn deep_view(&self) -> FallbackTier {
        *self
    }
}

impl Duplicate for FallbackTier {
    fn duplicate(&self) -> (r: Self) {
        *self
    }
}

/// The quality of a model in a role, with the evidence for it.
#[derive(Debug)]
pub struct ResolvedQuality {
    pub quality: Binary64,
    pub fallback: FallbackTier,
    pub requested: RoleProfile,
    pub matched_type: Option<TaskType>,
    pub evidence: Option<QualityProfile>,
}

/// What a `ResolvedQuality` holds.
#[verifier::ext_equal]
pub ghost struct ResolvedQualityModel {
    pub quality: Binary64,
    pub fallback: FallbackTier,
    pub requested: RoleProfileModel,
    pub matched_type: Option<TaskType>,
    pub evidence: Option<QualityProfileModel>,
}

impl DeepView for ResolvedQuality {
    type V = ResolvedQualityModel;

    open spec fn deep_view(&self) -> ResolvedQualityModel {
        ResolvedQualityModel {
            quality: self.quality.deep_view(),
            fallback: self.fallback.deep_view(),
            requested: self.requested.deep_view(),
            matched_type: self.matched_type.deep_view(),
            evidence: self.evidence.deep_view(),
        }
    }
}

impl Duplicate for ResolvedQuality {
    fn duplicate(&self) -> (r: Self) {
        ResolvedQuality {
            quality: self.quality.duplicate(),
            fallback: self.fallback.duplicate(),
            requested: self.requested.duplicate(),
            matched_type: self.matched_type.duplicate(),
            evidence: self.evidence.duplicate(),
        }
    }
}

impl Clone for ResolvedQuality {
    fn clone(&self) -> (r: Self)
        ensures
            r.deep_view() == self.deep_view(),
    {
        self.duplicate()
    }
}

/// What a node of a task is routed by.
#[derive(Debug)]
pub struct NodeProfile {
    pub weights: Weights,
    pub weights_task_type: Option<TaskType>,
    pub qualities: TextMap<ResolvedQuality>,
    pub rankings: TextMap<ResolvedRanking>,
}

/// What a `NodeProfile` holds.
#[verifier::ext_equal]
pub ghost struct NodeProfileModel {
    pub weights: WeightsModel,
    pub weights_task_type: Option<TaskType>,
    pub qualities: Map<Seq<char>, ResolvedQualityModel>,
    pub rankings: Map<Seq<char>, ResolvedRankingModel>,
}

impl DeepView for NodeProfile {
    type V = NodeProfileModel;

    open spec fn deep_view(&self) -> NodeProfileModel {
        NodeProfileModel {
            weights: self.weights.deep_view(),
            weights_task_type: self.weights_task_type.deep_view(),
            qualities: self.qualities.deep_view(),
            rankings: self.rankings.deep_view(),
        }
    }
}

impl Duplicate for NodeProfile {
    fn duplicate(&self) -> (r: Self) {
        NodeProfile {
            weights: self.weights.duplicate(),
            weights_task_type: self.weights_task_type.duplicate(),
            qualities: self.qualities.duplicate(),
            rankings: self.rankings.duplicate(),
        }
    }
}

impl Clone for NodeProfile {
    fn clone(&self) -> (r: Self)
        ensures
            r.deep_view() == self.deep_view(),
    {
        self.duplicate()
    }
}

/// Everything that routing reads, fixed for one submission.
#[derive(Debug)]
pub struct RoutingSnapshot {
    pub schema_version: u32,
    pub selection: Option<SelectionPolicy>,
    pub algorithm_version: Option<String>,
    pub ranking_config: Option<RankingConfig>,
    pub ranking_config_hash: Option<String>,
    pub feedback_revision: u64,
    pub feedback_hash: String,
    pub profile_version: String,
    pub profile_config_hash: String,
    pub evaluator_version: String,
    /// Fixes latency normalization. Live deadlines still gate every dispatch.
    pub captured_at_ms: u64,
    pub models: Vec<Model>,
    pub nodes: TextMap<NodeProfile>,
    pub minimum_execution_class: ExecutionClass,
}

/// What a `RoutingSnapshot` holds.
#[verifier::ext_equal]
pub ghost struct RoutingSnapshotModel {
    pub schema_version: u32,
    pub selection: Option<SelectionPolicyModel>,
    pub algorithm_version: Option<Seq<char>>,
    pub ranking_config: Option<RankingConfigModel>,
    pub ranking_config_hash: Option<Seq<char>>,
    pub feedback_revision: u64,
    pub feedback_hash: Seq<char>,
    pub profile_version: Seq<char>,
    pub profile_config_hash: Seq<char>,
    pub evaluator_version: Seq<char>,
    pub captured_at_ms: u64,
    pub models: Seq<ModelModel>,
    pub nodes: Map<Seq<char>, NodeProfileModel>,
    pub minimum_execution_class: ExecutionClass,
}

impl DeepView for RoutingSnapshot {
    type V = RoutingSnapshotModel;

    open spec fn deep_view(&self) -> RoutingSnapshotModel {
        RoutingSnapshotModel {
            schema_version: self.schema_version.deep_view(),
            selection: self.selection.deep_view(),
            algorithm_version: self.algorithm_version.deep_view(),
            ranking_config: self.ranking_config.deep_view(),
            ranking_config_hash: self.ranking_config_hash.deep_view(),
            feedback_revision: self.feedback_revision.deep_view(),
            feedback_hash: self.feedback_hash.deep_view(),
            profile_version: self.profile_version.deep_view(),
            profile_config_hash: self.profile_config_hash.deep_view(),
            evaluator_version: self.evaluator_version.deep_view(),
            captured_at_ms: self.captured_at_ms.deep_view(),
            models: self.models.deep_view(),
            nodes: self.nodes.deep_view(),
            minimum_execution_class: self.minimum_execution_class.deep_view(),
        }
    }
}

impl Duplicate for RoutingSnapshot {
    fn duplicate(&self) -> (r: Self) {
        RoutingSnapshot {
            schema_version: self.schema_version.duplicate(),
            selection: self.selection.duplicate(),
            algorithm_version: self.algorithm_version.duplicate(),
            ranking_config: self.ranking_config.duplicate(),
            ranking_config_hash: self.ranking_config_hash.duplicate(),
            feedback_revision: self.feedback_revision.duplicate(),
            feedback_hash: self.feedback_hash.duplicate(),
            profile_version: self.profile_version.duplicate(),
            profile_config_hash: self.profile_config_hash.duplicate(),
            evaluator_version: self.evaluator_version.duplicate(),
            captured_at_ms: self.captured_at_ms.duplicate(),
            models: self.models.duplicate(),
            nodes: self.nodes.duplicate(),
            minimum_execution_class: self.minimum_execution_class.duplicate(),
        }
    }
}

impl Clone for RoutingSnapshot {
    fn clone(&self) -> (r: Self)
        ensures
            r.deep_view() == self.deep_view(),
    {
        self.duplicate()
    }
}

/// The types on the way from a chain of types through inheritance, up to one passed before.
pub open spec fn chain(
    parents: Seq<crate::contracts::profiles::ParentEntryModel>,
    passed: Seq<TaskType>,
) -> Seq<TaskType>
    decreases 7 - passed.len(),
{
    match parent_of(parents, passed.last()) {
        Some(p) => if passed.contains(p) || passed.len() >= 7 {
            passed
        } else {
            chain(parents, passed.push(p))
        },
        None => passed,
    }
}

/// The types that evidence for a type is looked for by, in order: itself, what it inherits from,
/// and the general type.
pub open spec fn lineage_of(
    parents: Seq<crate::contracts::profiles::ParentEntryModel>,
    kind: TaskType,
) -> Seq<TaskType> {
    let types = chain(parents, seq![kind]);
    if types.contains(TaskType::General) {
        types
    } else {
        types.push(TaskType::General)
    }
}

/// How far a place of a lineage is from the type itself.
pub open spec fn tier_at(lineage: Seq<TaskType>, i: int) -> FallbackTier {
    if i == 0 {
        FallbackTier::Exact
    } else if lineage[i] == TaskType::General {
        FallbackTier::General
    } else {
        FallbackTier::Parent
    }
}

fn lineage(profiles: &RoutingProfiles, kind: TaskType) -> (r: Vec<TaskType>)
    ensures
        r@ == lineage_of(profiles.deep_view().parents, kind),
        r@.len() >= 1,
{
    let ghost parents = profiles.parents.deep_view();
    let mut types: Vec<TaskType> = Vec::new();
    types.push(kind);
    let mut current: TaskType = kind;
    let mut done: bool = false;
    proof {
        assert(types@ =~= seq![kind]);
    }
    while !done
        invariant
            parents == profiles.parents.deep_view(),
            1 <= types@.len() <= 7,
            types@.no_duplicates(),
            current == types@.last(),
            !done ==> chain(parents, types@) == chain(parents, seq![kind]),
            done ==> types@ == chain(parents, seq![kind]),
        decreases (if done { 0int } else { 8 - types@.len() }),
    {
        match find_parent(&profiles.parents, current) {
            None => {
                done = true;
            },
            Some(parent) => {
                if crate::contracts::profiles::has_type(&types, parent) {
                    done = true;
                } else {
                    let ghost before = types@;
                    types.push(parent);
                    current = parent;
                    proof {
                        assert(types@ =~= before.push(parent));
                        assert(types@.no_duplicates());
                        lemma_types_bounded(types@);
                    }
                }
            },
        }
    }
    if !crate::contracts::profiles::has_type(&types, TaskType::General) {
        types.push(TaskType::General);
    }
    types
}

/// The profile is about a model version, type and role, by an evaluation.
pub open spec fn profile_about(
    p: QualityProfileModel,
    model: ModelModel,
    kind: TaskType,
    role: Seq<char>,
    evaluator: Seq<char>,
) -> bool {
    &&& p.model_id == model.id
    &&& p.model_version == model.version
    &&& p.task_type == kind
    &&& p.role == role
    &&& p.evaluator_version == evaluator
}

/// `i` is the first configured profile about them.
pub open spec fn configured_at(
    profiles: Seq<QualityProfileModel>,
    model: ModelModel,
    kind: TaskType,
    role: Seq<char>,
    evaluator: Seq<char>,
    i: int,
) -> bool {
    &&& 0 <= i < profiles.len()
    &&& profile_about(profiles[i], model, kind, role, evaluator)
    &&& forall|j: int|
        0 <= j < i ==> !profile_about(#[trigger] profiles[j], model, kind, role, evaluator)
}

/// The first configured profile about them.
pub open spec fn configured_profile(
    profiles: Seq<QualityProfileModel>,
    model: ModelModel,
    kind: TaskType,
    role: Seq<char>,
    evaluator: Seq<char>,
) -> Option<QualityProfileModel> {
    if exists|i: int| #[trigger] configured_at(profiles, model, kind, role, evaluator, i) {
        Some(profiles[choose|i: int| configured_at(profiles, model, kind, role, evaluator, i)])
    } else {
        None
    }
}

/// The statistics are about a model version, type and role, by an evaluation.
pub open spec fn statistics_about(
    s: QualityStatisticsModel,
    feedback: FeedbackKind,
    model: ModelModel,
    kind: TaskType,
    role: Seq<char>,
    evaluator: Seq<char>,
) -> bool {
    &&& s.kind == feedback
    &&& s.key.model_id == model.id
    &&& s.key.model_version == model.version
    &&& s.key.task_type == kind
    &&& s.key.role == role
    &&& s.key.evaluator_version == evaluator
}

/// `i` are the first statistics about them.
pub open spec fn live_at(
    quality: Seq<QualityStatisticsModel>,
    feedback: FeedbackKind,
    model: ModelModel,
    kind: TaskType,
    role: Seq<char>,
    evaluator: Seq<char>,
    i: int,
) -> bool {
    &&& 0 <= i < quality.len()
    &&& statistics_about(quality[i], feedback, model, kind, role, evaluator)
    &&& forall|j: int|
        0 <= j < i ==> !statistics_about(
            #[trigger] quality[j],
            feedback,
            model,
            kind,
            role,
            evaluator,
        )
}

/// The first statistics about them.
pub open spec fn live_statistics(
    quality: Seq<QualityStatisticsModel>,
    feedback: FeedbackKind,
    model: ModelModel,
    kind: TaskType,
    role: Seq<char>,
    evaluator: Seq<char>,
) -> Option<QualityStatisticsModel> {
    if exists|i: int| #[trigger] live_at(quality, feedback, model, kind, role, evaluator, i) {
        Some(quality[choose|i: int| live_at(quality, feedback, model, kind, role, evaluator, i)])
    } else {
        None
    }
}

/// What evidence is looked for by.
#[verifier::ext_equal]
pub ghost struct Search {
    pub profiles: RoutingProfilesModel,
    pub model: ModelModel,
    pub role: RoleProfileModel,
    pub evaluator: Seq<char>,
    pub quality: Seq<QualityStatisticsModel>,
    pub feedback: FeedbackKind,
}

impl Search {
    /// The evidence for a type: live counts on the configured prior, or the configured profile.
    /// Without a configured profile the prior is the model's own, with weight ten.
    pub open spec fn evidence(self, kind: TaskType) -> Option<QualityProfileModel> {
        let configured = configured_profile(
            self.profiles.profiles,
            self.model,
            kind,
            self.role.role,
            self.evaluator,
        );
        match live_statistics(
            self.quality,
            self.feedback,
            self.model,
            kind,
            self.role.role,
            self.evaluator,
        ) {
            Some(s) => Some(
                QualityProfileModel {
                    model_id: self.model.id,
                    model_version: self.model.version,
                    task_type: kind,
                    role: self.role.role,
                    evaluator_version: self.evaluator,
                    prior: match configured {
                        Some(p) => p.prior,
                        None => self.model.acceptance,
                    },
                    prior_weight: match configured {
                        Some(p) => p.prior_weight,
                        None => number(TEN),
                    },
                    accepted: s.accepted,
                    samples: s.samples,
                },
            ),
            None => configured,
        }
    }

    pub open spec fn types(self) -> Seq<TaskType> {
        lineage_of(self.profiles.parents, self.role.task_type)
    }

    /// `i` is the first place of the lineage with evidence.
    pub open spec fn found_at(self, i: int) -> bool {
        &&& 0 <= i < self.types().len()
        &&& self.evidence(self.types()[i]) is Some
        &&& forall|j: int| 0 <= j < i ==> self.evidence(#[trigger] self.types()[j]) is None
    }

    /// The quality of the model, given the posterior of the evidence. Without evidence it is the
    /// model's own prior.
    pub open spec fn resolved(self, posterior: Binary64) -> ResolvedQualityModel {
        if exists|i: int| #[trigger] self.found_at(i) {
            let i = choose|i: int| self.found_at(i);
            let profile = self.evidence(self.types()[i])->0;
            ResolvedQualityModel {
                quality: profile.quality_of(posterior),
                fallback: tier_at(self.types(), i),
                requested: self.role,
                matched_type: Some(self.types()[i]),
                evidence: Some(profile),
            }
        } else {
            ResolvedQualityModel {
                quality: self.model.acceptance,
                fallback: FallbackTier::GlobalPrior,
                requested: self.role,
                matched_type: None,
                evidence: None,
            }
        }
    }
}

fn find_configured(
    profiles: &RoutingProfiles,
    model: &Model,
    kind: TaskType,
    role: &str,
    evaluator: &str,
) -> (r: Option<usize>)
    ensures
        match r {
            Some(i) => i < profiles.profiles@.len() && configured_profile(
                profiles.deep_view().profiles,
                model.deep_view(),
                kind,
                role@,
                evaluator@,
            ) == Some(profiles.profiles@[i as int].deep_view()),
            None => configured_profile(
                profiles.deep_view().profiles,
                model.deep_view(),
                kind,
                role@,
                evaluator@,
            ) is None,
        },
{
    let ghost all = profiles.deep_view().profiles;
    let ghost m = model.deep_view();
    let mut i: usize = 0;
    while i < profiles.profiles.len()
        invariant
            i <= profiles.profiles@.len(),
            all == profiles.deep_view().profiles,
            m == model.deep_view(),
            forall|j: int|
                0 <= j < i ==> !profile_about(#[trigger] all[j], m, kind, role@, evaluator@),
        decreases profiles.profiles@.len() - i,
    {
        let p: &QualityProfile = &profiles.profiles[i];
        assert(all[i as int] == p.deep_view());
        if same_text(p.model_id.as_str(), model.id.as_str()) && same_text(
            p.model_version.as_str(),
            model.version.as_str(),
        ) && p.task_type == kind && same_text(p.role.as_str(), role) && same_text(
            p.evaluator_version.as_str(),
            evaluator,
        ) {
            proof {
                assert(configured_at(all, m, kind, role@, evaluator@, i as int));
                let k = choose|k: int| configured_at(all, m, kind, role@, evaluator@, k);
                assert(configured_at(all, m, kind, role@, evaluator@, k));
                if k < i {
                    assert(!profile_about(all[k], m, kind, role@, evaluator@));
                }
                if i < k {
                    assert(!profile_about(all[i as int], m, kind, role@, evaluator@));
                }
            }
            return Some(i);
        }
        i += 1;
    }
    None
}

fn find_live(
    metrics: &MetricsSnapshot,
    feedback: FeedbackKind,
    model: &Model,
    kind: TaskType,
    role: &str,
    evaluator: &str,
) -> (r: Option<usize>)
    ensures
        match r {
            Some(i) => i < metrics.quality@.len() && live_statistics(
                metrics.deep_view().quality,
                feedback,
                model.deep_view(),
                kind,
                role@,
                evaluator@,
            ) == Some(metrics.quality@[i as int].deep_view()),
            None => live_statistics(
                metrics.deep_view().quality,
                feedback,
                model.deep_view(),
                kind,
                role@,
                evaluator@,
            ) is None,
        },
{
    let ghost all = metrics.deep_view().quality;
    let ghost m = model.deep_view();
    let mut i: usize = 0;
    while i < metrics.quality.len()
        invariant
            i <= metrics.quality@.len(),
            all == metrics.deep_view().quality,
            m == model.deep_view(),
            forall|j: int|
                0 <= j < i ==> !statistics_about(
                    #[trigger] all[j],
                    feedback,
                    m,
                    kind,
                    role@,
                    evaluator@,
                ),
        decreases metrics.quality@.len() - i,
    {
        let s: &QualityStatistics = &metrics.quality[i];
        assert(all[i as int] == s.deep_view());
        if s.kind == feedback && same_text(s.key.model_id.as_str(), model.id.as_str())
            && same_text(s.key.model_version.as_str(), model.version.as_str()) && s.key.task_type
            == kind && same_text(s.key.role.as_str(), role) && same_text(
            s.key.evaluator_version.as_str(),
            evaluator,
        ) {
            proof {
                assert(live_at(all, feedback, m, kind, role@, evaluator@, i as int));
                let k = choose|k: int| live_at(all, feedback, m, kind, role@, evaluator@, k);
                assert(live_at(all, feedback, m, kind, role@, evaluator@, k));
                if k < i {
                    assert(!statistics_about(all[k], feedback, m, kind, role@, evaluator@));
                }
                if i < k {
                    assert(!statistics_about(
                        all[i as int],
                        feedback,
                        m,
                        kind,
                        role@,
                        evaluator@,
                    ));
                }
            }
            return Some(i);
        }
        i += 1;
    }
    None
}

/// The evidence for a model of a type.
fn evidence_for(
    profiles: &RoutingProfiles,
    model: &Model,
    role: &RoleProfile,
    evaluator: &str,
    metrics: &MetricsSnapshot,
    feedback: FeedbackKind,
    kind: TaskType,
) -> (r: Option<QualityProfile>)
    ensures
        r.deep_view() == (Search {
            profiles: profiles.deep_view(),
            model: model.deep_view(),
            role: role.deep_view(),
            evaluator: evaluator@,
            quality: metrics.deep_view().quality,
            feedback,
        }).evidence(kind),
{
    let configured: Option<usize> = find_configured(
        profiles,
        model,
        kind,
        role.role.as_str(),
        evaluator,
    );
    match find_live(metrics, feedback, model, kind, role.role.as_str(), evaluator) {
        Some(i) => Some(
            QualityProfile {
                model_id: model.id.clone(),
                model_version: model.version.clone(),
                task_type: kind,
                role: role.role.clone(),
                evaluator_version: evaluator.to_owned(),
                prior: match configured {
                    Some(c) => profiles.profiles[c].prior,
                    None => model.acceptance,
                },
                prior_weight: match configured {
                    Some(c) => profiles.profiles[c].prior_weight,
                    None => number(TEN),
                },
                accepted: metrics.quality[i].accepted,
                samples: metrics.quality[i].samples,
            },
        ),
        None => match configured {
            Some(c) => Some(profiles.profiles[c].duplicate()),
            None => None,
        },
    }
}

/// Resolves the quality of a model in a role. `posterior` is the posterior of the evidence
/// found, where that has samples.
pub fn resolve(
    profiles: &RoutingProfiles,
    model: &Model,
    role: &RoleProfile,
    evaluator: &str,
    metrics: &MetricsSnapshot,
    feedback: FeedbackKind,
    posterior: Binary64,
) -> (r: ResolvedQuality)
    ensures
        r.deep_view() == (Search {
            profiles: profiles.deep_view(),
            model: model.deep_view(),
            role: role.deep_view(),
            evaluator: evaluator@,
            quality: metrics.deep_view().quality,
            feedback,
        }).resolved(posterior),
{
    let ghost search = Search {
        profiles: profiles.deep_view(),
        model: model.deep_view(),
        role: role.deep_view(),
        evaluator: evaluator@,
        quality: metrics.deep_view().quality,
        feedback,
    };
    let types: Vec<TaskType> = lineage(profiles, role.task_type);
    let mut i: usize = 0;
    while i < types.len()
        invariant
            i <= types@.len(),
            search == (Search {
                profiles: profiles.deep_view(),
                model: model.deep_view(),
                role: role.deep_view(),
                evaluator: evaluator@,
                quality: metrics.deep_view().quality,
                feedback,
            }),
            types@ == search.types(),
            forall|j: int| 0 <= j < i ==> search.evidence(#[trigger] search.types()[j]) is None,
        decreases types@.len() - i,
    {
        let kind: TaskType = types[i];
        match evidence_for(profiles, model, role, evaluator, metrics, feedback, kind) {
            Some(profile) => {
                proof {
                    assert(search.found_at(i as int));
                    let k = choose|k: int| search.found_at(k);
                    assert(search.found_at(k));
                    if k < i {
                        assert(search.evidence(search.types()[k]) is None);
                    }
                    if i < k {
                        assert(search.evidence(search.types()[i as int]) is None);
                    }
                }
                let fallback: FallbackTier = if i == 0 {
                    FallbackTier::Exact
                } else if kind == TaskType::General {
                    FallbackTier::General
                } else {
                    FallbackTier::Parent
                };
                return ResolvedQuality {
                    quality: profile.quality(posterior),
                    fallback,
                    requested: role.duplicate(),
                    matched_type: Some(kind),
                    evidence: Some(profile),
                };
            },
            None => {},
        }
        i += 1;
    }
    ResolvedQuality {
        quality: model.acceptance,
        fallback: FallbackTier::GlobalPrior,
        requested: role.duplicate(),
        matched_type: None,
        evidence: None,
    }
}

/// The numbers that belong to the evidence for one model at one node: the posterior of its
/// quality evidence, the normalized rank of its ranking entry, and that rank's contribution.
#[derive(Debug)]
pub struct EvidenceNumbers {
    pub posterior: Binary64,
    pub normalized_rank: Binary64,
    pub contribution: Binary64,
}

/// What a `EvidenceNumbers` holds.
#[verifier::ext_equal]
pub ghost struct EvidenceNumbersModel {
    pub posterior: Binary64,
    pub normalized_rank: Binary64,
    pub contribution: Binary64,
}

impl DeepView for EvidenceNumbers {
    type V = EvidenceNumbersModel;

    open spec fn deep_view(&self) -> EvidenceNumbersModel {
        EvidenceNumbersModel {
            posterior: self.posterior.deep_view(),
            normalized_rank: self.normalized_rank.deep_view(),
            contribution: self.contribution.deep_view(),
        }
    }
}

impl Duplicate for EvidenceNumbers {
    fn duplicate(&self) -> (r: Self) {
        EvidenceNumbers {
            posterior: self.posterior.duplicate(),
            normalized_rank: self.normalized_rank.duplicate(),
            contribution: self.contribution.duplicate(),
        }
    }
}

impl Clone for EvidenceNumbers {
    fn clone(&self) -> (r: Self)
        ensures
            r.deep_view() == self.deep_view(),
    {
        self.duplicate()
    }
}

/// The serialized forms of what a snapshot is taken from.
#[derive(Debug)]
pub struct SnapshotEncodings {
    pub rankings: Vec<u8>,
    pub feedback: Vec<u8>,
    pub profiles: Vec<u8>,
}

/// What a `SnapshotEncodings` holds.
#[verifier::ext_equal]
pub ghost struct SnapshotEncodingsModel {
    pub rankings: Seq<u8>,
    pub feedback: Seq<u8>,
    pub profiles: Seq<u8>,
}

impl DeepView for SnapshotEncodings {
    type V = SnapshotEncodingsModel;

    open spec fn deep_view(&self) -> SnapshotEncodingsModel {
        SnapshotEncodingsModel {
            rankings: self.rankings.deep_view(),
            feedback: self.feedback.deep_view(),
            profiles: self.profiles.deep_view(),
        }
    }
}

impl Duplicate for SnapshotEncodings {
    fn duplicate(&self) -> (r: Self) {
        SnapshotEncodings {
            rankings: self.rankings.duplicate(),
            feedback: self.feedback.duplicate(),
            profiles: self.profiles.duplicate(),
        }
    }
}

impl Clone for SnapshotEncodings {
    fn clone(&self) -> (r: Self)
        ensures
            r.deep_view() == self.deep_view(),
    {
        self.duplicate()
    }
}

/// `i` is the first entry of weights for a type.
pub open spec fn weighted_at(entries: Seq<WeightsEntryModel>, t: TaskType, i: int) -> bool {
    &&& 0 <= i < entries.len()
    &&& entries[i].task_type == t
    &&& forall|j: int| 0 <= j < i ==> (#[trigger] entries[j]).task_type != t
}

/// The weights for a type.
pub open spec fn weights_for(entries: Seq<WeightsEntryModel>, t: TaskType) -> Option<WeightsModel> {
    if exists|i: int| #[trigger] weighted_at(entries, t, i) {
        Some(entries[choose|i: int| weighted_at(entries, t, i)].weights)
    } else {
        None
    }
}

/// The first type of a lineage that has weights.
pub open spec fn weighted_type(
    entries: Seq<WeightsEntryModel>,
    types: Seq<TaskType>,
) -> Option<TaskType>
    decreases types.len(),
{
    if types.len() == 0 {
        None
    } else if weights_for(entries, types[0]) is Some {
        Some(types[0])
    } else {
        weighted_type(entries, types.drop_first())
    }
}

fn find_weights(entries: &Vec<WeightsEntry>, t: TaskType) -> (r: Option<&Weights>)
    ensures
        r.deep_view() == weights_for(entries.deep_view(), t),
{
    let ghost all = entries.deep_view();
    let mut i: usize = 0;
    while i < entries.len()
        invariant
            i <= entries@.len(),
            all == entries.deep_view(),
            forall|j: int| 0 <= j < i ==> (#[trigger] all[j]).task_type != t,
        decreases entries@.len() - i,
    {
        assert(all[i as int] == entries@[i as int].deep_view());
        if entries[i].task_type == t {
            proof {
                assert(weighted_at(all, t, i as int));
                let k = choose|k: int| weighted_at(all, t, k);
                assert(weighted_at(all, t, k));
                if k < i {
                    assert(all[k].task_type != t);
                }
                if i < k {
                    assert(all[i as int].task_type != t);
                }
            }
            return Some(&entries[i].weights);
        }
        i += 1;
    }
    None
}

fn find_weighted_type(entries: &Vec<WeightsEntry>, types: &Vec<TaskType>) -> (r: Option<TaskType>)
    ensures
        r == weighted_type(entries.deep_view(), types@),
{
    let ghost all = entries.deep_view();
    let mut i: usize = 0;
    assert(types@.skip(0) =~= types@);
    while i < types.len()
        invariant
            i <= types@.len(),
            all == entries.deep_view(),
            weighted_type(all, types@) == weighted_type(all, types@.skip(i as int)),
        decreases types@.len() - i,
    {
        proof {
            assert(types@.skip(i as int)[0] == types@[i as int]);
            assert(types@.skip(i as int).drop_first() =~= types@.skip(i + 1));
        }
        if find_weights(entries, types[i]).is_some() {
            return Some(types[i]);
        }
        i += 1;
    }
    None
}

/// What a snapshot is taken from, apart from the plan.
#[verifier::ext_equal]
pub ghost struct Sources {
    pub config: ConfigModel,
    pub profiles: RoutingProfilesModel,
    pub evaluator: Seq<char>,
    pub quality: Seq<QualityStatisticsModel>,
    pub at_ms: u64,
}

impl Sources {
    pub open spec fn search(self, node: Seq<char>, role: RoleProfileModel, m: int) -> Search {
        Search {
            profiles: self.profiles,
            model: self.config.models[m],
            role,
            evaluator: self.evaluator,
            quality: self.quality,
            feedback: if node == "critic"@ {
                FeedbackKind::CriticCorrectness
            } else {
                FeedbackKind::BusinessAcceptance
            },
        }
    }

    /// The qualities at a node of the first `n` models.
    pub open spec fn qualities(
        self,
        node: Seq<char>,
        role: RoleProfileModel,
        numbers: Seq<EvidenceNumbersModel>,
        n: nat,
    ) -> Map<Seq<char>, ResolvedQualityModel>
        decreases n,
    {
        if n == 0 {
            Map::empty()
        } else {
            self.qualities(node, role, numbers, (n - 1) as nat).insert(
                self.config.models[n - 1].id,
                self.search(node, role, n - 1).resolved(numbers[n - 1].posterior),
            )
        }
    }

    /// The rankings at a node of the first `n` models.
    pub open spec fn rankings(
        self,
        role: RoleProfileModel,
        numbers: Seq<EvidenceNumbersModel>,
        n: nat,
    ) -> Map<Seq<char>, ResolvedRankingModel>
        decreases n,
    {
        if n == 0 {
            Map::empty()
        } else {
            self.rankings(role, numbers, (n - 1) as nat).insert(
                self.config.models[n - 1].id,
                resolved_ranking(
                    self.config.rankings,
                    self.config.models[n - 1],
                    role,
                    self.at_ms,
                    numbers[n - 1].normalized_rank,
                    numbers[n - 1].contribution,
                ),
            )
        }
    }

    /// What a node is routed by. The weights are those of the first type of the lineage that
    /// has some, else those of the configuration.
    pub open spec fn node(
        self,
        node: Seq<char>,
        role: RoleProfileModel,
        numbers: Seq<EvidenceNumbersModel>,
    ) -> NodeProfileModel {
        let kind = weighted_type(
            self.profiles.weights,
            lineage_of(self.profiles.parents, role.task_type),
        );
        NodeProfileModel {
            weights: match kind {
                Some(t) => weights_for(self.profiles.weights, t)->0,
                None => self.config.weights,
            },
            weights_task_type: kind,
            qualities: self.qualities(node, role, numbers, self.config.models.len()),
            rankings: self.rankings(role, numbers, self.config.models.len()),
        }
    }
}

/// The profiles of a configuration.
pub open spec fn profiles_of(config: ConfigModel) -> RoutingProfilesModel {
    match config.routing_profiles {
        Some(p) => p,
        None => default_profiles(),
    }
}

/// The roles of a plan after the first `n` mappings.
pub open spec fn mapped_roles(
    roles: Map<Seq<char>, RoleProfileModel>,
    mappings: Seq<RoleMappingModel>,
    kind: TaskType,
    n: nat,
) -> Map<Seq<char>, RoleProfileModel>
    decreases n,
{
    if n == 0 {
        roles
    } else {
        let before = mapped_roles(roles, mappings, kind, (n - 1) as nat);
        let mapping = mappings[n - 1];
        if mapping.task_type == kind && before.dom().contains(mapping.node) {
            before.insert(mapping.node, mapping.profile)
        } else {
            before
        }
    }
}

/// A plan under the profiles of a configuration: roles as mapped, and their version.
pub open spec fn profiled_plan(
    config: ConfigModel,
    plan: EffectivePlanModel,
) -> EffectivePlanModel {
    let profiles = profiles_of(config);
    EffectivePlanModel {
        role_profiles: mapped_roles(
            plan.role_profiles,
            profiles.role_mappings,
            plan.task_type,
            profiles.role_mappings.len(),
        ),
        routing_profile_version: profiles.version,
        ..plan
    }
}

fn apply_mappings(profiles: &RoutingProfiles, plan: &mut EffectivePlan)
    ensures
        final(plan).deep_view() == (EffectivePlanModel {
            role_profiles: mapped_roles(
                old(plan).deep_view().role_profiles,
                profiles.deep_view().role_mappings,
                old(plan).task_type,
                profiles.role_mappings@.len(),
            ),
            routing_profile_version: profiles.version@,
            ..old(plan).deep_view()
        }),
{
    let ghost mappings = profiles.deep_view().role_mappings;
    let ghost start = plan.deep_view();
    let mut i: usize = 0;
    while i < profiles.role_mappings.len()
        invariant
            i <= profiles.role_mappings@.len(),
            mappings == profiles.deep_view().role_mappings,
            plan.deep_view() == (EffectivePlanModel {
                role_profiles: mapped_roles(
                    start.role_profiles,
                    mappings,
                    start.task_type,
                    i as nat,
                ),
                ..start
            }),
        decreases profiles.role_mappings@.len() - i,
    {
        let mapping: &RoleMapping = &profiles.role_mappings[i];
        assert(mappings[i as int] == mapping.deep_view());
        let ghost before = plan.deep_view().role_profiles;
        if mapping.task_type == plan.task_type && plan.role_profiles.contains_key(
            mapping.node.as_str(),
        ) {
            plan.role_profiles.insert(mapping.node.clone(), mapping.profile.duplicate());
            assert(plan.deep_view().role_profiles =~= before.insert(
                mapping.node@,
                mapping.profile.deep_view(),
            ));
        }
        i += 1;
    }
    plan.routing_profile_version = profiles.version.clone();
}

/// The roles and the profile version that a configuration gives a plan.
pub fn apply_profiles(config: &Config, plan: &mut EffectivePlan)
    ensures
        final(plan).deep_view() == profiled_plan(config.deep_view(), old(plan).deep_view()),
{
    match &config.routing_profiles {
        Some(profiles) => apply_mappings(profiles, plan),
        None => {
            let profiles: RoutingProfiles = RoutingProfiles::default();
            apply_mappings(&profiles, plan)
        },
    }
}

fn node_profile(
    config: &Config,
    profiles: &RoutingProfiles,
    node: &str,
    role: &RoleProfile,
    evaluator: &str,
    metrics: &MetricsSnapshot,
    at_ms: u64,
    numbers: &Vec<EvidenceNumbers>,
) -> (r: NodeProfile)
    requires
        numbers@.len() == config.models@.len(),
    ensures
        r.deep_view() == (Sources {
            config: config.deep_view(),
            profiles: profiles.deep_view(),
            evaluator: evaluator@,
            quality: metrics.deep_view().quality,
            at_ms,
        }).node(node@, role.deep_view(), numbers.deep_view()),
{
    let ghost sources = Sources {
        config: config.deep_view(),
        profiles: profiles.deep_view(),
        evaluator: evaluator@,
        quality: metrics.deep_view().quality,
        at_ms,
    };
    let types: Vec<TaskType> = lineage(profiles, role.task_type);
    let kind: Option<TaskType> = find_weighted_type(&profiles.weights, &types);
    let weights: Weights = match kind {
        Some(t) => match find_weights(&profiles.weights, t) {
            Some(w) => w.duplicate(),
            None => config.weights.duplicate(),
        },
        None => config.weights.duplicate(),
    };
    proof {
        if kind is Some {
            lemma_weighted_type(profiles.deep_view().weights, types@);
        }
    }
    let feedback: FeedbackKind = if same_text(node, "critic") {
        FeedbackKind::CriticCorrectness
    } else {
        FeedbackKind::BusinessAcceptance
    };
    let rankings_config: Option<&RankingConfig> = match &config.rankings {
        Some(c) => Some(c),
        None => None,
    };
    let mut qualities: TextMap<ResolvedQuality> = TextMap::new();
    let mut rankings: TextMap<ResolvedRanking> = TextMap::new();
    let mut i: usize = 0;
    assert(qualities.deep_view() =~= Map::empty());
    assert(rankings.deep_view() =~= Map::empty());
    while i < config.models.len()
        invariant
            i <= config.models@.len(),
            numbers@.len() == config.models@.len(),
            sources == (Sources {
                config: config.deep_view(),
                profiles: profiles.deep_view(),
                evaluator: evaluator@,
                quality: metrics.deep_view().quality,
                at_ms,
            }),
            feedback == (if node@ == "critic"@ {
                FeedbackKind::CriticCorrectness
            } else {
                FeedbackKind::BusinessAcceptance
            }),
            rankings_config.deep_view() == config.deep_view().rankings,
            qualities.deep_view() == sources.qualities(
                node@,
                role.deep_view(),
                numbers.deep_view(),
                i as nat,
            ),
            rankings.deep_view() == sources.rankings(
                role.deep_view(),
                numbers.deep_view(),
                i as nat,
            ),
        decreases config.models@.len() - i,
    {
        let model: &Model = &config.models[i];
        let given: &EvidenceNumbers = &numbers[i];
        assert(sources.config.models[i as int] == model.deep_view());
        assert(numbers.deep_view()[i as int] == given.deep_view());
        let ghost q = qualities.deep_view();
        let ghost k = rankings.deep_view();
        let quality: ResolvedQuality = resolve(
            profiles,
            model,
            role,
            evaluator,
            metrics,
            feedback,
            given.posterior,
        );
        let ranking: ResolvedRanking = super::rankings::resolve(
            rankings_config,
            model,
            role,
            at_ms,
            given.normalized_rank,
            given.contribution,
        );
        let ghost quality_model = quality.deep_view();
        let ghost ranking_model = ranking.deep_view();
        qualities.insert(model.id.clone(), quality);
        rankings.insert(model.id.clone(), ranking);
        assert(qualities.deep_view() =~= q.insert(model.id@, quality_model));
        assert(rankings.deep_view() =~= k.insert(model.id@, ranking_model));
        i += 1;
    }
    NodeProfile { weights, weights_task_type: kind, qualities, rankings }
}

proof fn lemma_weighted_type(entries: Seq<WeightsEntryModel>, types: Seq<TaskType>)
    requires
        weighted_type(entries, types) is Some,
    ensures
        weights_for(entries, weighted_type(entries, types)->0) is Some,
    decreases types.len(),
{
    if types.len() > 0 && weights_for(entries, types[0]) is None {
        lemma_weighted_type(entries, types.drop_first());
    }
}

impl RoutingSnapshotModel {
    /// This is the snapshot of a profiled plan. Its nodes are the plan's roles.
    pub open spec fn captures(
        self,
        config: ConfigModel,
        plan: EffectivePlanModel,
        at_ms: u64,
        metrics: MetricsSnapshotModel,
        numbers: Map<Seq<char>, Seq<EvidenceNumbersModel>>,
        encodings: SnapshotEncodingsModel,
    ) -> bool {
        let profiles = profiles_of(config);
        let sources = Sources {
            config,
            profiles,
            evaluator: plan.acceptance.version,
            quality: metrics.quality,
            at_ms,
        };
        &&& self.schema_version == 4
        &&& self.selection == plan.selection
        &&& self.algorithm_version == Some("task-fit-v1"@)
        &&& self.ranking_config == config.rankings
        &&& self.ranking_config_hash == (match config.rankings {
            Some(_) => Some(hex(sha256(encodings.rankings))),
            None => None,
        })
        &&& self.feedback_revision == metrics.revision
        &&& self.feedback_hash == hex(sha256(encodings.feedback))
        &&& self.profile_version == profiles.version
        &&& self.profile_config_hash == hex(sha256(encodings.profiles))
        &&& self.evaluator_version == plan.acceptance.version
        &&& self.captured_at_ms == at_ms
        &&& self.models == config.models
        &&& self.nodes.dom() == plan.role_profiles.dom()
        &&& forall|node: Seq<char>| #[trigger]
            self.nodes.dom().contains(node) ==> self.nodes[node] == sources.node(
                node,
                plan.role_profiles[node],
                numbers[node],
            )
        &&& self.minimum_execution_class == (match plan.assessment {
            Some(a) => a.execution_class,
            None => ExecutionClass::Simple,
        })
    }
}

/// There are numbers for every model at every node of a plan.
pub open spec fn numbered(
    plan: EffectivePlanModel,
    numbers: Map<Seq<char>, Seq<EvidenceNumbersModel>>,
    models: nat,
) -> bool {
    forall|node: Seq<char>| #[trigger]
        plan.role_profiles.dom().contains(node) ==> numbers.dom().contains(node)
            && numbers[node].len() == models
}

impl RoutingSnapshot {
    /// Captures a snapshot without feedback.
    pub fn capture(
        config: &Config,
        plan: &mut EffectivePlan,
        at_ms: u64,
        numbers: &TextMap<Vec<EvidenceNumbers>>,
        encodings: &SnapshotEncodings,
    ) -> (r: RoutingSnapshot)
        requires
            numbered(old(plan).deep_view(), numbers.deep_view(), config.models@.len()),
        ensures
            final(plan).deep_view() == profiled_plan(config.deep_view(), old(plan).deep_view()),
            r.deep_view().captures(
                config.deep_view(),
                final(plan).deep_view(),
                at_ms,
                no_metrics(),
                numbers.deep_view(),
                encodings.deep_view(),
            ),
    {
        let metrics: MetricsSnapshot = MetricsSnapshot::default();
        Self::capture_with_metrics(config, plan, at_ms, &metrics, numbers, encodings)
    }

    /// Capture only after configuration and plan were validated. The snapshot is never refreshed
    /// during execution.
    pub fn capture_with_metrics(
        config: &Config,
        plan: &mut EffectivePlan,
        at_ms: u64,
        metrics: &MetricsSnapshot,
        numbers: &TextMap<Vec<EvidenceNumbers>>,
        encodings: &SnapshotEncodings,
    ) -> (r: RoutingSnapshot)
        requires
            numbered(old(plan).deep_view(), numbers.deep_view(), config.models@.len()),
        ensures
            final(plan).deep_view() == profiled_plan(config.deep_view(), old(plan).deep_view()),
            r.deep_view().captures(
                config.deep_view(),
                final(plan).deep_view(),
                at_ms,
                metrics.deep_view(),
                numbers.deep_view(),
                encodings.deep_view(),
            ),
    {
        let ghost before = plan.deep_view();
        apply_profiles(config, plan);
        proof {
            lemma_mapped_dom(
                before.role_profiles,
                profiles_of(config.deep_view()).role_mappings,
                before.task_type,
                profiles_of(config.deep_view()).role_mappings.len(),
            );
        }
        let defaults: RoutingProfiles = RoutingProfiles::default();
        let profiles: &RoutingProfiles = match &config.routing_profiles {
            Some(p) => p,
            None => &defaults,
        };
        let nodes: TextMap<NodeProfile> = capture_nodes(
            config,
            profiles,
            plan,
            at_ms,
            metrics,
            numbers,
        );
        let rankings_hash: Option<String> = match &config.rankings {
            Some(_) => Some(digest(encodings.rankings.as_slice())),
            None => None,
        };
        assert(encodings.rankings.deep_view() =~= encodings.rankings@);
        assert(encodings.feedback.deep_view() =~= encodings.feedback@);
        assert(encodings.profiles.deep_view() =~= encodings.profiles@);
        RoutingSnapshot {
            schema_version: 4,
            selection: plan.selection.duplicate(),
            algorithm_version: Some("task-fit-v1".to_owned()),
            ranking_config: config.rankings.duplicate(),
            ranking_config_hash: rankings_hash,
            feedback_revision: metrics.revision,
            feedback_hash: digest(encodings.feedback.as_slice()),
            profile_version: profiles.version.clone(),
            profile_config_hash: digest(encodings.profiles.as_slice()),
            evaluator_version: plan.acceptance.version.clone(),
            captured_at_ms: at_ms,
            models: config.models.duplicate(),
            nodes,
            minimum_execution_class: match &plan.assessment {
                Some(a) => a.execution_class,
                None => ExecutionClass::Simple,
            },
        }
    }
}

proof fn lemma_mapped_dom(
    roles: Map<Seq<char>, RoleProfileModel>,
    mappings: Seq<RoleMappingModel>,
    kind: TaskType,
    n: nat,
)
    ensures
        mapped_roles(roles, mappings, kind, n).dom() == roles.dom(),
    decreases n,
{
    if n > 0 {
        lemma_mapped_dom(roles, mappings, kind, (n - 1) as nat);
        assert(mapped_roles(roles, mappings, kind, n).dom() =~= roles.dom());
    }
}

fn capture_nodes(
    config: &Config,
    profiles: &RoutingProfiles,
    plan: &EffectivePlan,
    at_ms: u64,
    metrics: &MetricsSnapshot,
    numbers: &TextMap<Vec<EvidenceNumbers>>,
) -> (r: TextMap<NodeProfile>)
    requires
        numbered(plan.deep_view(), numbers.deep_view(), config.models@.len()),
    ensures
        r.deep_view().dom() == plan.deep_view().role_profiles.dom(),
        forall|node: Seq<char>| #[trigger]
            r.deep_view().dom().contains(node) ==> r.deep_view()[node] == (Sources {
                config: config.deep_view(),
                profiles: profiles.deep_view(),
                evaluator: plan.acceptance.version@,
                quality: metrics.deep_view().quality,
                at_ms,
            }).node(node, plan.deep_view().role_profiles[node], numbers.deep_view()[node]),
{
    let ghost sources = Sources {
        config: config.deep_view(),
        profiles: profiles.deep_view(),
        evaluator: plan.acceptance.version@,
        quality: metrics.deep_view().quality,
        at_ms,
    };
    let ghost roles = plan.deep_view().role_profiles;
    let ghost given = numbers.deep_view();
    let n: usize = plan.role_profiles.len();
    let mut nodes: TextMap<NodeProfile> = TextMap::new();
    let mut i: usize = 0;
    while i < n
        invariant
            i <= n,
            n == plan.role_profiles.keys().len(),
            n == plan.role_profiles.values().len(),
            numbered(plan.deep_view(), numbers.deep_view(), config.models@.len()),
            roles == plan.deep_view().role_profiles,
            given == numbers.deep_view(),
            sources == (Sources {
                config: config.deep_view(),
                profiles: profiles.deep_view(),
                evaluator: plan.acceptance.version@,
                quality: metrics.deep_view().quality,
                at_ms,
            }),
            forall|j: int|
                0 <= j < n ==> plan.role_profiles.spec_get(
                    #[trigger] plan.role_profiles.keys()[j],
                ) == Some(plan.role_profiles.values()[j]),
            forall|t: Seq<char>| #[trigger]
                nodes.has(t) <==> (exists|j: int|
                    0 <= j < i && #[trigger] plan.role_profiles.keys()[j] == t),
            forall|t: Seq<char>| #[trigger]
                nodes.has(t) ==> nodes.spec_get(t)->0.deep_view() == sources.node(
                    t,
                    roles[t],
                    given[t],
                ),
        decreases n - i,
    {
        let name: &String = plan.role_profiles.key_at(i);
        let role: &RoleProfile = plan.role_profiles.value_at(i);
        let ghost key = plan.role_profiles.keys()[i as int];
        proof {
            assert(plan.role_profiles.has(key));
            assert(roles.dom().contains(key));
            assert(roles[key] == role.deep_view());
        }
        let ghost before = nodes;
        match numbers.get(name.as_str()) {
            Some(row) => {
                assert(given[key] == row.deep_view());
                let profile: NodeProfile = node_profile(
                    config,
                    profiles,
                    name.as_str(),
                    role,
                    plan.acceptance.version.as_str(),
                    metrics,
                    at_ms,
                    row,
                );
                nodes.insert(name.clone(), profile);
            },
            None => {
                assert(given.dom().contains(key));
            },
        }
        proof {
            assert forall|t: Seq<char>| #[trigger]
                nodes.has(t) <==> (exists|j: int|
                    0 <= j < i + 1 && #[trigger] plan.role_profiles.keys()[j] == t) by {
                assert(nodes.has(t) <==> before.has(t) || t == key);
            }
            assert forall|t: Seq<char>| #[trigger] nodes.has(t) implies nodes.spec_get(
                t,
            )->0.deep_view() == sources.node(t, roles[t], given[t]) by {
                if t != key {
                    assert(before.has(t));
                }
            }
        }
        i += 1;
    }
    proof {
        assert(nodes.deep_view().dom() =~= roles.dom()) by {
            assert forall|t: Seq<char>| nodes.has(t) == plan.role_profiles.has(t) by {
                if plan.role_profiles.has(t) {
                    let j = choose|j: int|
                        0 <= j < plan.role_profiles.keys().len() && plan.role_profiles.keys()[j]
                            == t;
                    assert(plan.role_profiles.keys()[j] == t);
                }
            }
        }
    }
    nodes
}

} // verus!
