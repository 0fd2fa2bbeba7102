//! Where the quality, the weights and the roles of a snapshot come from.
use super::{
    chain, configured_at, configured_profile, lineage_of, live_at, live_statistics, mapped_roles,
    profile_about, profiled_plan, statistics_about, weighted_at, weighted_type, weights_for,
    FallbackTier, RoutingSnapshotModel, Search, SnapshotEncodingsModel, Sources,
};
use crate::assessment::ExecutionClass;
use crate::binary64::{number, Binary64};
use crate::contracts::configuration::{ConfigModel, ModelModel};
use crate::contracts::feedback::{FeedbackKind, MetricsSnapshotModel, QualityStatisticsModel};
use crate::contracts::planning::{EffectivePlanModel, RoleProfileModel, TaskType};
use crate::contracts::profiles::{
    parent_of, ParentEntryModel, QualityProfileModel, RoleMappingModel, WeightsEntryModel,
};
use vstd::prelude::*;

verus! {

/// Each type but the first is what the one before it inherits from.
pub open spec fn is_line(parents: Seq<ParentEntryModel>, types: Seq<TaskType>) -> bool {
    forall|i: int, j: int|
        0 <= i && j == i + 1 && j < types.len() ==> #[trigger] parent_of(parents, types[i]) == Some(
            #[trigger] types[j],
        )
}

proof fn lemma_chain(parents: Seq<ParentEntryModel>, passed: Seq<TaskType>)
    requires
        1 <= passed.len() <= 7,
        is_line(parents, passed),
        passed.no_duplicates(),
    ensures
        ({
            let types = chain(parents, passed);
            &&& passed.len() <= types.len() <= 7
            &&& types[0] == passed[0]
            &&& is_line(parents, types)
            &&& types.no_duplicates()
            &&& match parent_of(parents, types.last()) {
                Some(p) => types.contains(p) || types.len() == 7,
                None => true,
            }
        }),
    decreases 7 - passed.len(),
{
    match parent_of(parents, passed.last()) {
        Some(p) => {
            if !passed.contains(p) && passed.len() < 7 {
                let longer = passed.push(p);
                assert forall|i: int, j: int|
                    0 <= i && j == i + 1 && j < longer.len() implies #[trigger] parent_of(
                    parents,
                    longer[i],
                ) == Some(#[trigger] longer[j]) by {
                    if j < passed.len() {
                        assert(parent_of(parents, passed[i]) == Some(passed[j]));
                    }
                }
                lemma_chain(parents, longer);
            }
        },
        None => {},
    }
}

/// Evidence for a type is looked for by the type itself, then by each type that is inherited from
/// in turn, and at last by the general type; by none of them twice.
pub proof fn lemma_lineage(parents: Seq<ParentEntryModel>, kind: TaskType)
    ensures
        ({
            let types = lineage_of(parents, kind);
            &&& types.len() > 0 && types[0] == kind
            &&& types.contains(TaskType::General)
            &&& types.no_duplicates()
            &&& is_line(parents, types) || types.last() == TaskType::General && is_line(
                parents,
                types.drop_last(),
            ) && types.len() > 1
            &&& kind != TaskType::General && parent_of(parents, kind) is Some && parent_of(
                parents,
                kind,
            )->0 != kind ==> types.len() > 1 && types[1] == parent_of(parents, kind)->0
        }),
{
    let first = seq![kind];
    assert(is_line(parents, first));
    lemma_chain(parents, first);
    let types = chain(parents, first);
    let all = lineage_of(parents, kind);
    if !types.contains(TaskType::General) {
        assert(all.drop_last() =~= types);
        assert(all[all.len() - 1] == TaskType::General);
    }
    match parent_of(parents, kind) {
        Some(p) => {
            if p != kind {
                assert(first.last() == kind);
                assert(!first.contains(p));
                let longer = first.push(p);
                assert forall|i: int, j: int|
                    0 <= i && j == i + 1 && j < longer.len() implies #[trigger] parent_of(
                    parents,
                    longer[i],
                ) == Some(#[trigger] longer[j]) by {}
                lemma_chain(parents, longer);
                assert(chain(parents, first) == chain(parents, longer));
                assert(parent_of(parents, types[0]) == Some(types[1]));
            }
        },
        None => {},
    }
}

/// Whether a configured profile speaks of a model in its version, for a type and a role, by what
/// evaluates it.
pub open spec fn speaks_of(
    p: QualityProfileModel,
    model: ModelModel,
    kind: TaskType,
    role: Seq<char>,
    evaluator: Seq<char>,
) -> bool {
    &&& p.model_id == model.id && p.model_version == model.version
    &&& p.task_type == kind && p.role == role && p.evaluator_version == evaluator
}

/// Whether counts speak of a model in its version, for a type and a role, by what evaluates it, and
/// are of the kind of feedback that is asked for.
pub open spec fn counts_for(
    s: QualityStatisticsModel,
    feedback: FeedbackKind,
    model: ModelModel,
    kind: TaskType,
    role: Seq<char>,
    evaluator: Seq<char>,
) -> bool {
    &&& s.kind == feedback
    &&& s.key.model_id == model.id && s.key.model_version == model.version
    &&& s.key.task_type == kind && s.key.role == role && s.key.evaluator_version == evaluator
}

proof fn lemma_first_configured(
    profiles: Seq<QualityProfileModel>,
    model: ModelModel,
    kind: TaskType,
    role: Seq<char>,
    evaluator: Seq<char>,
    n: int,
)
    requires
        0 <= n < profiles.len(),
        profile_about(profiles[n], model, kind, role, evaluator),
    ensures
        configured_profile(profiles, model, kind, role, evaluator) is Some,
    decreases n,
{
    if exists|j: int|
        0 <= j < n && profile_about(#[trigger] profiles[j], model, kind, role, evaluator) {
        let j = choose|j: int|
            0 <= j < n && profile_about(#[trigger] profiles[j], model, kind, role, evaluator);
        lemma_first_configured(profiles, model, kind, role, evaluator, j);
    } else {
        assert(configured_at(profiles, model, kind, role, evaluator, n));
    }
}

proof fn lemma_first_counts(search: Search, kind: TaskType, n: int)
    requires
        0 <= n < search.quality.len(),
        statistics_about(
            search.quality[n],
            search.feedback,
            search.model,
            kind,
            search.role.role,
            search.evaluator,
        ),
    ensures
        live_statistics(
            search.quality,
            search.feedback,
            search.model,
            kind,
            search.role.role,
            search.evaluator,
        ) is Some,
    decreases n,
{
    if exists|j: int|
        0 <= j < n && statistics_about(
            #[trigger] search.quality[j],
            search.feedback,
            search.model,
            kind,
            search.role.role,
            search.evaluator,
        ) {
        let j = choose|j: int|
            0 <= j < n && statistics_about(
                #[trigger] search.quality[j],
                search.feedback,
                search.model,
                kind,
                search.role.role,
                search.evaluator,
            );
        lemma_first_counts(search, kind, j);
    } else {
        assert(live_at(
            search.quality,
            search.feedback,
            search.model,
            kind,
            search.role.role,
            search.evaluator,
            n,
        ));
    }
}

/// Whether there is a configured profile or a count for a type.
pub open spec fn is_known(search: Search, kind: TaskType) -> bool {
    ||| exists|j: int|
        0 <= j < search.profiles.profiles.len() && speaks_of(
            #[trigger] search.profiles.profiles[j],
            search.model,
            kind,
            search.role.role,
            search.evaluator,
        )
    ||| exists|j: int|
        0 <= j < search.quality.len() && counts_for(
            #[trigger] search.quality[j],
            search.feedback,
            search.model,
            kind,
            search.role.role,
            search.evaluator,
        )
}

/// The evidence for a type is about the model in its version, the type, the role and what evaluates
/// it. Where there are counts, it has them, on the prior of the configured profile, or on the
/// model's own with a weight of ten; without counts it is the configured profile.
pub proof fn lemma_evidence(search: Search, kind: TaskType)
    ensures
        ({
            let e = search.evidence(kind);
            let role = search.role.role;
            let counts = live_statistics(
                search.quality,
                search.feedback,
                search.model,
                kind,
                role,
                search.evaluator,
            );
            let configured = configured_profile(
                search.profiles.profiles,
                search.model,
                kind,
                role,
                search.evaluator,
            );
            &&& e is Some <==> is_known(search, kind)
            &&& e is Some ==> speaks_of(e->0, search.model, kind, role, search.evaluator)
            &&& counts is Some ==> counts_for(
                counts->0,
                search.feedback,
                search.model,
                kind,
                role,
                search.evaluator,
            ) && search.quality.contains(counts->0) && e->0.accepted == counts->0.accepted
                && e->0.samples == counts->0.samples
            &&& configured is Some ==> speaks_of(
                configured->0,
                search.model,
                kind,
                role,
                search.evaluator,
            ) && search.profiles.profiles.contains(configured->0) && e->0.prior
                == configured->0.prior && e->0.prior_weight == configured->0.prior_weight
            &&& configured is None && counts is Some ==> e->0.prior == search.model.acceptance
                && e->0.prior_weight == number(0x4024_0000_0000_0000)
            &&& counts is None ==> e == configured
            &&& counts is Some <==> exists|j: int|
                0 <= j < search.quality.len() && counts_for(
                    #[trigger] search.quality[j],
                    search.feedback,
                    search.model,
                    kind,
                    role,
                    search.evaluator,
                )
        }),
{
    let role = search.role.role;
    let profiles = search.profiles.profiles;
    if exists|j: int|
        0 <= j < profiles.len() && speaks_of(
            #[trigger] profiles[j],
            search.model,
            kind,
            role,
            search.evaluator,
        ) {
        let j = choose|j: int|
            0 <= j < profiles.len() && speaks_of(
                #[trigger] profiles[j],
                search.model,
                kind,
                role,
                search.evaluator,
            );
        lemma_first_configured(profiles, search.model, kind, role, search.evaluator, j);
    }
    if exists|j: int|
        0 <= j < search.quality.len() && counts_for(
            #[trigger] search.quality[j],
            search.feedback,
            search.model,
            kind,
            role,
            search.evaluator,
        ) {
        let j = choose|j: int|
            0 <= j < search.quality.len() && counts_for(
                #[trigger] search.quality[j],
                search.feedback,
                search.model,
                kind,
                role,
                search.evaluator,
            );
        lemma_first_counts(search, kind, j);
    }
    if configured_profile(profiles, search.model, kind, role, search.evaluator) is Some {
        let i = choose|i: int|
            configured_at(profiles, search.model, kind, role, search.evaluator, i);
        assert(configured_at(profiles, search.model, kind, role, search.evaluator, i));
        assert(speaks_of(profiles[i], search.model, kind, role, search.evaluator));
    }
    if live_statistics(
        search.quality,
        search.feedback,
        search.model,
        kind,
        role,
        search.evaluator,
    ) is Some {
        let i = choose|i: int|
            live_at(
                search.quality,
                search.feedback,
                search.model,
                kind,
                role,
                search.evaluator,
                i,
            );
        assert(live_at(
            search.quality,
            search.feedback,
            search.model,
            kind,
            role,
            search.evaluator,
            i,
        ));
        assert(counts_for(
            search.quality[i],
            search.feedback,
            search.model,
            kind,
            role,
            search.evaluator,
        ));
    }
}

/// A model's quality comes from the nearest type of the lineage that anything is known of, and the
/// tier tells how near that is. Where nothing is known of any, it is the model's own.
pub proof fn lemma_quality_comes_from_the_nearest_type(search: Search, posterior: Binary64, i: int)
    ensures
        ({
            let types = lineage_of(search.profiles.parents, search.role.task_type);
            let r = search.resolved(posterior);
            &&& r.requested == search.role
            &&& 0 <= i < types.len() && is_known(search, types[i]) && (forall|j: int|
                0 <= j < i ==> !is_known(search, #[trigger] types[j])) ==> {
                let e = r.evidence->0;
                &&& r.matched_type == Some(types[i])
                &&& r.evidence == search.evidence(types[i]) && r.evidence is Some
                &&& e.samples == 0 ==> r.quality == e.prior
                &&& e.samples > 0 ==> r.quality == posterior
                &&& i == 0 ==> r.fallback == FallbackTier::Exact
                &&& i > 0 && types[i] == TaskType::General ==> r.fallback == FallbackTier::General
                &&& i > 0 && types[i] != TaskType::General ==> r.fallback == FallbackTier::Parent
            }
            &&& (forall|j: int| 0 <= j < types.len() ==> !is_known(search, #[trigger] types[j]))
                ==> {
                &&& r.quality == search.model.acceptance
                &&& r.fallback == FallbackTier::GlobalPrior
                &&& r.matched_type is None && r.evidence is None
            }
        }),
{
    let types = lineage_of(search.profiles.parents, search.role.task_type);
    assert(types == search.types());
    assert forall|j: int| 0 <= j < types.len() implies is_known(search, #[trigger] types[j])
        == search.evidence(types[j]) is Some by {
        lemma_evidence(search, types[j]);
    }
    if 0 <= i < types.len() && is_known(search, types[i]) && (forall|j: int|
        0 <= j < i ==> !is_known(search, #[trigger] types[j])) {
        assert(search.found_at(i)) by {
            assert forall|j: int| 0 <= j < i implies search.evidence(
                #[trigger] search.types()[j],
            ) is None by {
                assert(!is_known(search, types[j]));
            }
        }
        let k = choose|k: int| search.found_at(k);
        assert(search.found_at(k));
        if k < i {
            assert(!is_known(search, types[k]));
        } else if i < k {
            assert(search.evidence(search.types()[i]) is None);
        }
    }
    if forall|j: int| 0 <= j < types.len() ==> !is_known(search, #[trigger] types[j]) {
        assert forall|k: int| !search.found_at(k) by {
            if search.found_at(k) {
                assert(!is_known(search, types[k]));
            }
        }
    }
}

/// A critic is known by whether its verdicts were right, any other node by whether its artifacts
/// were accepted.
pub proof fn lemma_search_of_a_node(
    sources: Sources,
    node: Seq<char>,
    role: RoleProfileModel,
    m: int,
)
    ensures
        ({
            let search = sources.search(node, role, m);
            &&& node == "critic"@ ==> search.feedback == FeedbackKind::CriticCorrectness
            &&& node != "critic"@ ==> search.feedback == FeedbackKind::BusinessAcceptance
            &&& search.model == sources.config.models[m] && search.role == role
            &&& search.evaluator == sources.evaluator && search.quality == sources.quality
            &&& search.profiles == sources.profiles
        }),
{
}

proof fn lemma_first_weighted(entries: Seq<WeightsEntryModel>, t: TaskType, n: int)
    requires
        0 <= n < entries.len(),
        entries[n].task_type == t,
    ensures
        weights_for(entries, t) is Some,
    decreases n,
{
    if exists|j: int| 0 <= j < n && (#[trigger] entries[j]).task_type == t {
        let j = choose|j: int| 0 <= j < n && (#[trigger] entries[j]).task_type == t;
        lemma_first_weighted(entries, t, j);
    } else {
        assert(weighted_at(entries, t, n));
    }
}

/// Whether a type has weights of its own.
pub open spec fn has_weights(entries: Seq<WeightsEntryModel>, t: TaskType) -> bool {
    exists|j: int| 0 <= j < entries.len() && (#[trigger] entries[j]).task_type == t
}

proof fn lemma_has_weights(entries: Seq<WeightsEntryModel>, t: TaskType)
    ensures
        has_weights(entries, t) == weights_for(entries, t) is Some,
{
    if has_weights(entries, t) {
        let j = choose|j: int| 0 <= j < entries.len() && (#[trigger] entries[j]).task_type == t;
        lemma_first_weighted(entries, t, j);
    }
    if weights_for(entries, t) is Some {
        let i = choose|i: int| weighted_at(entries, t, i);
        assert(weighted_at(entries, t, i));
        assert(entries[i].task_type == t);
    }
}

proof fn lemma_nearest_weights(entries: Seq<WeightsEntryModel>, types: Seq<TaskType>, i: int)
    ensures
        0 <= i < types.len() && has_weights(entries, types[i]) && (forall|j: int|
            0 <= j < i ==> !has_weights(entries, #[trigger] types[j])) ==> weighted_type(
            entries,
            types,
        ) == Some(types[i]),
        (forall|j: int| 0 <= j < types.len() ==> !has_weights(entries, #[trigger] types[j]))
            ==> weighted_type(entries, types) is None,
    decreases types.len(),
{
    if types.len() > 0 {
        lemma_has_weights(entries, types[0]);
        let rest = types.drop_first();
        lemma_nearest_weights(entries, rest, i - 1);
        if 0 < i < types.len() && has_weights(entries, types[i]) && (forall|j: int|
            0 <= j < i ==> !has_weights(entries, #[trigger] types[j])) {
            assert(!has_weights(entries, types[0]));
            assert(rest[i - 1] == types[i]);
            assert forall|j: int| 0 <= j < i - 1 implies !has_weights(
                entries,
                #[trigger] rest[j],
            ) by {
                assert(!has_weights(entries, types[j + 1]));
            }
        }
        if forall|j: int| 0 <= j < types.len() ==> !has_weights(entries, #[trigger] types[j]) {
            assert(!has_weights(entries, types[0]));
            assert forall|j: int| 0 <= j < rest.len() implies !has_weights(
                entries,
                #[trigger] rest[j],
            ) by {
                assert(!has_weights(entries, types[j + 1]));
            }
        }
    }
}

/// A node is routed by the weights of the nearest type of its lineage that has some, and by those
/// of the configuration where none has.
pub proof fn lemma_weights_of_a_node(
    sources: Sources,
    node: Seq<char>,
    role: RoleProfileModel,
    numbers: Seq<super::EvidenceNumbersModel>,
    i: int,
    k: int,
)
    ensures
        ({
            let entries = sources.profiles.weights;
            let types = lineage_of(sources.profiles.parents, role.task_type);
            let out = sources.node(node, role, numbers);
            &&& 0 <= i < types.len() && (forall|j: int|
                0 <= j < i ==> !has_weights(entries, #[trigger] types[j])) && 0 <= k < entries.len()
                && entries[k].task_type == types[i] && (forall|j: int|
                0 <= j < k ==> (#[trigger] entries[j]).task_type != types[i]) ==> {
                &&& out.weights_task_type == Some(types[i])
                &&& out.weights == entries[k].weights
            }
            &&& (forall|j: int| 0 <= j < types.len() ==> !has_weights(entries, #[trigger] types[j]))
                ==> {
                &&& out.weights_task_type is None
                &&& out.weights == sources.config.weights
            }
        }),
{
    let entries = sources.profiles.weights;
    let types = lineage_of(sources.profiles.parents, role.task_type);
    lemma_nearest_weights(entries, types, i);
    if 0 <= i < types.len() && 0 <= k < entries.len() && entries[k].task_type == types[i] && (
    forall|j: int| 0 <= j < k ==> (#[trigger] entries[j]).task_type != types[i]) {
        assert(weighted_at(entries, types[i], k));
        let w = choose|w: int| weighted_at(entries, types[i], w);
        assert(weighted_at(entries, types[i], w));
        if w < k {
            assert(entries[w].task_type != types[i]);
        } else if k < w {
            assert(entries[k].task_type != types[i]);
        }
        assert(has_weights(entries, types[i]));
    }
}

/// A role of a plan is the one that its type and node are mapped to, and the plan's own where they
/// are not mapped. No role is added or lost.
pub proof fn lemma_roles_are_mapped(
    roles: Map<Seq<char>, RoleProfileModel>,
    mappings: Seq<RoleMappingModel>,
    kind: TaskType,
    n: nat,
    node: Seq<char>,
    i: int,
)
    requires
        n <= mappings.len(),
        roles.dom().contains(node),
    ensures
        ({
            let out = mapped_roles(roles, mappings, kind, n);
            &&& out.dom() == roles.dom()
            &&& 0 <= i < n && mappings[i].task_type == kind && mappings[i].node == node && (forall|
                j: int,
            |
                i < j < n ==> (#[trigger] mappings[j]).task_type != kind || mappings[j].node != node)
                ==> out[node] == mappings[i].profile
            &&& (forall|j: int|
                0 <= j < n ==> (#[trigger] mappings[j]).task_type != kind || mappings[j].node
                    != node) ==> out[node] == roles[node]
        }),
    decreases n,
{
    if n > 0 {
        lemma_roles_are_mapped(roles, mappings, kind, (n - 1) as nat, node, i);
        assert(mapped_roles(roles, mappings, kind, n).dom() =~= roles.dom());
    }
}

proof fn lemma_models_apart(
    sources: Sources,
    node: Seq<char>,
    role: RoleProfileModel,
    numbers: Seq<super::EvidenceNumbersModel>,
    n: nat,
    m: int,
)
    requires
        n <= sources.config.models.len(),
        0 <= m < n,
        forall|j: int|
            m < j < n ==> (#[trigger] sources.config.models[j]).id != sources.config.models[m].id,
    ensures
        ({
            let id = sources.config.models[m].id;
            let q = sources.qualities(node, role, numbers, n);
            let r = sources.rankings(role, numbers, n);
            &&& q.dom().contains(id) && r.dom().contains(id)
            &&& q[id] == sources.search(node, role, m).resolved(numbers[m].posterior)
            &&& r[id] == crate::router::rankings::resolved_ranking(
                sources.config.rankings,
                sources.config.models[m],
                role,
                sources.at_ms,
                numbers[m].normalized_rank,
                numbers[m].contribution,
            )
        }),
    decreases n,
{
    if m < n - 1 {
        assert(sources.config.models[n - 1].id != sources.config.models[m].id);
        lemma_models_apart(sources, node, role, numbers, (n - 1) as nat, m);
    }
}

/// Each configured model has its own quality and ranking at a node.
pub proof fn lemma_every_model_is_resolved(
    sources: Sources,
    node: Seq<char>,
    role: RoleProfileModel,
    numbers: Seq<super::EvidenceNumbersModel>,
    m: int,
)
    requires
        0 <= m < sources.config.models.len(),
        forall|i: int, j: int|
            0 <= i < j < sources.config.models.len() ==> (#[trigger] sources.config.models[i]).id
                != (#[trigger] sources.config.models[j]).id,
    ensures
        ({
            let id = sources.config.models[m].id;
            let out = sources.node(node, role, numbers);
            &&& out.qualities.dom().contains(id) && out.rankings.dom().contains(id)
            &&& out.qualities[id] == sources.search(node, role, m).resolved(numbers[m].posterior)
            &&& out.rankings[id] == crate::router::rankings::resolved_ranking(
                sources.config.rankings,
                sources.config.models[m],
                role,
                sources.at_ms,
                numbers[m].normalized_rank,
                numbers[m].contribution,
            )
        }),
{
    lemma_models_apart(sources, node, role, numbers, sources.config.models.len(), m);
}

/// A snapshot tells what it was captured from: the plan's preferences and the version of what is
/// accepted, the configured models and rankings, the profiles' version, the revision of the
/// feedback and the time. It has a profile for each node of the plan, and asks for the class of its
/// assessment.
pub proof fn lemma_snapshot_tells_its_sources(
    snapshot: RoutingSnapshotModel,
    config: ConfigModel,
    plan: EffectivePlanModel,
    at_ms: u64,
    metrics: MetricsSnapshotModel,
    numbers: Map<Seq<char>, Seq<super::EvidenceNumbersModel>>,
    encodings: SnapshotEncodingsModel,
    node: Seq<char>,
)
    requires
        snapshot.captures(config, plan, at_ms, metrics, numbers, encodings),
    ensures
        snapshot.schema_version == 4,
        snapshot.algorithm_version == Some("task-fit-v1"@),
        snapshot.selection == plan.selection,
        snapshot.evaluator_version == plan.acceptance.version,
        snapshot.models == config.models,
        snapshot.ranking_config == config.rankings,
        snapshot.feedback_revision == metrics.revision,
        snapshot.captured_at_ms == at_ms,
        config.routing_profiles is Some ==> snapshot.profile_version
            == config.routing_profiles->0.version,
        plan.assessment is Some ==> snapshot.minimum_execution_class
            == plan.assessment->0.execution_class,
        plan.assessment is None ==> snapshot.minimum_execution_class == ExecutionClass::Simple,
        snapshot.nodes.dom().contains(node) <==> plan.role_profiles.dom().contains(node),
        snapshot.nodes.dom().contains(node) && config.routing_profiles is Some
            ==> snapshot.nodes[node] == (Sources {
            config,
            profiles: config.routing_profiles->0,
            evaluator: plan.acceptance.version,
            quality: metrics.quality,
            at_ms,
        }).node(node, plan.role_profiles[node], numbers[node]),
{
}

/// A plan under the configured profiles is the same plan, with their version and the roles that
/// they map to.
pub proof fn lemma_plan_under_profiles(config: ConfigModel, plan: EffectivePlanModel)
    ensures
        ({
            let out = profiled_plan(config, plan);
            &&& out.task_type == plan.task_type && out.strategy == plan.strategy
            &&& out.constraints == plan.constraints && out.acceptance == plan.acceptance
            &&& out.selection == plan.selection && out.submission_hash == plan.submission_hash
            &&& out.proposal_id == plan.proposal_id && out.assessment == plan.assessment
            &&& config.routing_profiles is Some ==> out.routing_profile_version
                == config.routing_profiles->0.version
            &&& config.routing_profiles is None ==> out.routing_profile_version
                == "global-prior-v1"@
        }),
{
}

} // verus!
