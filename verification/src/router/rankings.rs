//! Resolve once at admission; execution never refreshes external ranking evidence.
use crate::binary64::{number, Binary64, ZERO};
use crate::contracts::configuration::{Model, ModelModel};
use crate::contracts::planning::{RoleProfile, RoleProfileModel, TaskType};
use crate::contracts::rankings::{
    RankingConfig, RankingConfigModel, RankingEntry, RankingEntryModel,
};
use crate::model::Duplicate;
use crate::text::same_text;
use vstd::prelude::*;

verus! {

/// Whether a ranking counts for a model, and if not, why.
#[derive(Clone, Copy, Debug, PartialEq, Eq, Structural)]
pub enum RankingStatus {
    Applied,
    Disabled,
    NotYetEffective,
    Expired,
    Missing,
    ModelVersionMismatch,
    TaskTypeMismatch,
    RoleMismatch,
}

impl DeepView for RankingStatus {
    type V = RankingStatus;

    open spec fn deep_view(&self) -> RankingStatus {
        *self
    }
}

impl Duplicate for RankingStatus {
    fn duplicate(&self) -> (r: Self) {
        *self
    }
}

/// The ranking of a model in a role. The normalized rank is there where the ranking counts.
#[derive(Debug)]
pub struct ResolvedRanking {
    pub status: RankingStatus,
    pub entry: Option<RankingEntry>,
    pub normalized_rank: Option<Binary64>,
    pub contribution: Binary64,
}

/// What a `ResolvedRanking` holds.
#[verifier::ext_equal]
pub ghost struct ResolvedRankingModel {
    pub status: RankingStatus,
    pub entry: Option<RankingEntryModel>,
    pub normalized_rank: Option<Binary64>,
    pub contribution: Binary64,
}

impl DeepView for ResolvedRanking {
    type V = ResolvedRankingModel;

    open spec fn deep_view(&self) -> ResolvedRankingModel {
        ResolvedRankingModel {
            status: self.status.deep_view(),
            entry: self.entry.deep_view(),
            normalized_rank: self.normalized_rank.deep_view(),
            contribution: self.contribution.deep_view(),
        }
    }
}

impl Duplicate for ResolvedRanking {
    fn duplicate(&self) -> (r: Self) {
        ResolvedRanking {
            status: self.status.duplicate(),
            entry: self.entry.duplicate(),
            normalized_rank: self.normalized_rank.duplicate(),
            contribution: self.contribution.duplicate(),
        }
    }
}

impl Clone for ResolvedRanking {
    fn clone(&self) -> (r: Self)
        ensures
            r.deep_view() == self.deep_view(),
    {
        self.duplicate()
    }
}

/// The entry is about the model.
pub open spec fn about(entry: RankingEntryModel, model: ModelModel) -> bool {
    entry.model_id == model.id
}

/// The entry is about that version of the model.
pub open spec fn about_version(entry: RankingEntryModel, model: ModelModel) -> bool {
    about(entry, model) && entry.model_version == model.version
}

/// The entry is about that version of the model and the type.
pub open spec fn about_type(
    entry: RankingEntryModel,
    model: ModelModel,
    role: RoleProfileModel,
) -> bool {
    about_version(entry, model) && entry.task_type == role.task_type
}

/// The entry is about that version of the model, the type and the role.
pub open spec fn exact(
    entry: RankingEntryModel,
    model: ModelModel,
    role: RoleProfileModel,
) -> bool {
    about_type(entry, model, role) && entry.role == role.role
}

/// `i` is the first exact entry.
pub open spec fn exact_at(
    entries: Seq<RankingEntryModel>,
    model: ModelModel,
    role: RoleProfileModel,
    i: int,
) -> bool {
    &&& 0 <= i < entries.len()
    &&& exact(entries[i], model, role)
    &&& forall|j: int| 0 <= j < i ==> !exact(#[trigger] entries[j], model, role)
}

/// The first exact entry.
pub open spec fn exact_entry(
    entries: Seq<RankingEntryModel>,
    model: ModelModel,
    role: RoleProfileModel,
) -> Option<RankingEntryModel> {
    if exists|i: int| #[trigger] exact_at(entries, model, role, i) {
        Some(entries[choose|i: int| exact_at(entries, model, role, i)])
    } else {
        None
    }
}

/// Whether a ranking counts at a time. It is off where its weight is zero.
pub open spec fn ranking_status(
    config: RankingConfigModel,
    model: ModelModel,
    role: RoleProfileModel,
    at_ms: u64,
) -> RankingStatus {
    if config.weight.rank() == 0 {
        RankingStatus::Disabled
    } else if at_ms < config.published_at_ms {
        RankingStatus::NotYetEffective
    } else if at_ms >= config.expires_at_ms {
        RankingStatus::Expired
    } else if !exists|i: int|
        0 <= i < config.entries.len() && about(#[trigger] config.entries[i], model) {
        RankingStatus::Missing
    } else if !exists|i: int|
        0 <= i < config.entries.len() && about_version(#[trigger] config.entries[i], model) {
        RankingStatus::ModelVersionMismatch
    } else if !exists|i: int|
        0 <= i < config.entries.len() && about_type(#[trigger] config.entries[i], model, role) {
        RankingStatus::TaskTypeMismatch
    } else if exact_entry(config.entries, model, role) is None {
        RankingStatus::RoleMismatch
    } else {
        RankingStatus::Applied
    }
}

/// The ranking of a model. Where it counts, the normalized rank and its weighted contribution
/// are `normalized` and `contribution`; else it contributes nothing.
pub open spec fn resolved_ranking(
    config: Option<RankingConfigModel>,
    model: ModelModel,
    role: RoleProfileModel,
    at_ms: u64,
    normalized: Binary64,
    contribution: Binary64,
) -> ResolvedRankingModel {
    match config {
        None => ResolvedRankingModel {
            status: RankingStatus::Disabled,
            entry: None,
            normalized_rank: None,
            contribution: number(ZERO),
        },
        Some(c) => {
            let status = ranking_status(c, model, role, at_ms);
            ResolvedRankingModel {
                status,
                entry: exact_entry(c.entries, model, role),
                normalized_rank: if status == RankingStatus::Applied {
                    Some(normalized)
                } else {
                    None
                },
                contribution: if status == RankingStatus::Applied {
                    contribution
                } else {
                    number(ZERO)
                },
            }
        },
    }
}

/// What the entries of a ranking have for a model in a role.
struct Found {
    model: bool,
    version: bool,
    kind: bool,
    exact: Option<usize>,
}

fn search(config: &RankingConfig, model: &Model, role: &RoleProfile) -> (r: Found)
    ensures
        r.model == exists|i: int|
            0 <= i < config.deep_view().entries.len() && about(
                #[trigger] config.deep_view().entries[i],
                model.deep_view(),
            ),
        r.version == exists|i: int|
            0 <= i < config.deep_view().entries.len() && about_version(
                #[trigger] config.deep_view().entries[i],
                model.deep_view(),
            ),
        r.kind == exists|i: int|
            0 <= i < config.deep_view().entries.len() && about_type(
                #[trigger] config.deep_view().entries[i],
                model.deep_view(),
                role.deep_view(),
            ),
        match r.exact {
            Some(i) => i < config.entries@.len() && exact_at(
                config.deep_view().entries,
                model.deep_view(),
                role.deep_view(),
                i as int,
            ),
            None => forall|i: int|
                !#[trigger] exact_at(
                    config.deep_view().entries,
                    model.deep_view(),
                    role.deep_view(),
                    i,
                ),
        },
{
    let ghost all = config.deep_view().entries;
    let ghost m = model.deep_view();
    let ghost p = role.deep_view();
    let mut r = Found { model: false, version: false, kind: false, exact: None };
    let mut i: usize = 0;
    while i < config.entries.len()
        invariant
            i <= config.entries@.len(),
            all == config.deep_view().entries,
            m == model.deep_view(),
            p == role.deep_view(),
            r.model == exists|k: int| 0 <= k < i && about(#[trigger] all[k], m),
            r.version == exists|k: int| 0 <= k < i && about_version(#[trigger] all[k], m),
            r.kind == exists|k: int| 0 <= k < i && about_type(#[trigger] all[k], m, p),
            match r.exact {
                Some(k) => k < i && exact_at(all, m, p, k as int),
                None => forall|k: int| 0 <= k < i ==> !exact(#[trigger] all[k], m, p),
            },
        decreases config.entries@.len() - i,
    {
        let entry: &RankingEntry = &config.entries[i];
        assert(all[i as int] == entry.deep_view());
        if same_text(entry.model_id.as_str(), model.id.as_str()) {
            r.model = true;
            if same_text(entry.model_version.as_str(), model.version.as_str()) {
                r.version = true;
                if entry.task_type == role.task_type {
                    r.kind = true;
                    if same_text(entry.role.as_str(), role.role.as_str()) && r.exact.is_none() {
                        r.exact = Some(i);
                        assert(exact_at(all, m, p, i as int));
                    }
                }
            }
        }
        i += 1;
    }
    r
}

/// Resolves the ranking of a model in a role. `normalized` and `contribution` are the normalized
/// rank of the exact entry and its weighted contribution, where there is such an entry.
pub fn resolve(
    config: Option<&RankingConfig>,
    model: &Model,
    role: &RoleProfile,
    at_ms: u64,
    normalized: Binary64,
    contribution: Binary64,
) -> (r: ResolvedRanking)
    ensures
        r.deep_view() == resolved_ranking(
            config.deep_view(),
            model.deep_view(),
            role.deep_view(),
            at_ms,
            normalized,
            contribution,
        ),
{
    let config: &RankingConfig = match config {
        Some(c) => c,
        None => {
            return ResolvedRanking {
                status: RankingStatus::Disabled,
                entry: None,
                normalized_rank: None,
                contribution: number(ZERO),
            };
        },
    };
    let found: Found = search(config, model, role);
    let ghost all = config.deep_view().entries;
    let ghost m = model.deep_view();
    let ghost p = role.deep_view();
    let entry: Option<RankingEntry> = match found.exact {
        Some(i) => {
            proof {
                let k = choose|k: int| exact_at(all, m, p, k);
                assert(exact_at(all, m, p, k));
                if k < i {
                    assert(!exact(all[k], m, p));
                }
                if i < k {
                    assert(!exact(all[i as int], m, p));
                }
            }
            Some(config.entries[i].duplicate())
        },
        None => None,
    };
    assert(entry.deep_view() == exact_entry(all, m, p));
    let zero: bool = config.weight.bits == 0 || config.weight.bits == crate::binary64::SIGN;
    let status: RankingStatus = if zero {
        RankingStatus::Disabled
    } else if at_ms < config.published_at_ms {
        RankingStatus::NotYetEffective
    } else if at_ms >= config.expires_at_ms {
        RankingStatus::Expired
    } else if !found.model {
        RankingStatus::Missing
    } else if !found.version {
        RankingStatus::ModelVersionMismatch
    } else if !found.kind {
        RankingStatus::TaskTypeMismatch
    } else if entry.is_none() {
        RankingStatus::RoleMismatch
    } else {
        RankingStatus::Applied
    };
    if status == RankingStatus::Applied {
        ResolvedRanking { status, entry, normalized_rank: Some(normalized), contribution }
    } else {
        ResolvedRanking { status, entry, normalized_rank: None, contribution: number(ZERO) }
    }
}

/// Whether a ranking has an entry that agrees with a model so far.
pub open spec fn has_entry(
    entries: Seq<RankingEntryModel>,
    id: Seq<char>,
    version: Option<Seq<char>>,
    kind: Option<TaskType>,
    role: Option<Seq<char>>,
) -> bool {
    exists|i: int|
        0 <= i < entries.len() && (#[trigger] entries[i]).model_id == id && (version is Some
            ==> entries[i].model_version == version->0) && (kind is Some ==> entries[i].task_type
            == kind->0) && (role is Some ==> entries[i].role == role->0)
}

proof fn lemma_first_exact(
    entries: Seq<RankingEntryModel>,
    model: ModelModel,
    role: RoleProfileModel,
    n: int,
)
    requires
        0 <= n < entries.len(),
        exact(entries[n], model, role),
    ensures
        exact_entry(entries, model, role) is Some,
    decreases n,
{
    if exists|j: int| 0 <= j < n && exact(#[trigger] entries[j], model, role) {
        let j = choose|j: int| 0 <= j < n && exact(#[trigger] entries[j], model, role);
        lemma_first_exact(entries, model, role, j);
    } else {
        assert(exact_at(entries, model, role, n));
    }
}

/// A ranking counts for a model in a role exactly where it weighs something, is published and has
/// not expired, and has an entry for that model in that version, for the type and the role.
/// Otherwise the status tells the first of these that fails, and the ranking contributes nothing.
pub proof fn lemma_when_a_ranking_counts(
    config: RankingConfigModel,
    model: ModelModel,
    role: RoleProfileModel,
    at_ms: u64,
    normalized: Binary64,
    contribution: Binary64,
)
    ensures
        ({
            let status = ranking_status(config, model, role, at_ms);
            let off = config.weight.bits == 0 || config.weight.bits == 0x8000_0000_0000_0000;
            let on_time = config.published_at_ms <= at_ms < config.expires_at_ms;
            let v = Some(model.version);
            let k = Some(role.task_type);
            let known = has_entry(config.entries, model.id, None, None, None);
            let version = has_entry(config.entries, model.id, v, None, None);
            let kind = has_entry(config.entries, model.id, v, k, None);
            let exactly = has_entry(config.entries, model.id, v, k, Some(role.role));
            let r = resolved_ranking(Some(config), model, role, at_ms, normalized, contribution);
            &&& r.status == status
            &&& status == RankingStatus::Disabled <==> off
            &&& !off && at_ms < config.published_at_ms ==> status == RankingStatus::NotYetEffective
            &&& !off && at_ms >= config.published_at_ms && at_ms >= config.expires_at_ms ==> status
                == RankingStatus::Expired
            &&& !off && on_time && !known ==> status == RankingStatus::Missing
            &&& !off && on_time && known && !version ==> status
                == RankingStatus::ModelVersionMismatch
            &&& !off && on_time && version && !kind ==> status == RankingStatus::TaskTypeMismatch
            &&& !off && on_time && kind && !exactly ==> status == RankingStatus::RoleMismatch
            &&& status == RankingStatus::Applied <==> !off && on_time && exactly
            &&& status == RankingStatus::Applied ==> r.normalized_rank == Some(normalized)
                && r.contribution == contribution
            &&& status != RankingStatus::Applied ==> r.normalized_rank is None && r.contribution
                == number(0)
            &&& r.entry is Some <==> exactly
            &&& r.entry is Some ==> r.entry->0.model_id == model.id && r.entry->0.model_version
                == model.version && r.entry->0.task_type == role.task_type && r.entry->0.role
                == role.role && config.entries.contains(r.entry->0)
        }),
{
    let entries = config.entries;
    let v = Some(model.version);
    let k = Some(role.task_type);
    assert(has_entry(entries, model.id, None, None, None) == exists|i: int|
        0 <= i < entries.len() && about(#[trigger] entries[i], model)) by {
        if has_entry(entries, model.id, None, None, None) {
            let i = choose|i: int| 0 <= i < entries.len() && (#[trigger] entries[i]).model_id
                == model.id;
            assert(about(entries[i], model));
        }
        if exists|i: int| 0 <= i < entries.len() && about(#[trigger] entries[i], model) {
            let i = choose|i: int| 0 <= i < entries.len() && about(#[trigger] entries[i], model);
            assert(entries[i].model_id == model.id);
        }
    }
    assert(has_entry(entries, model.id, v, None, None) == exists|i: int|
        0 <= i < entries.len() && about_version(#[trigger] entries[i], model)) by {
        if has_entry(entries, model.id, v, None, None) {
            let i = choose|i: int|
                0 <= i < entries.len() && (#[trigger] entries[i]).model_id == model.id
                    && entries[i].model_version == model.version;
            assert(about_version(entries[i], model));
        }
        if exists|i: int| 0 <= i < entries.len() && about_version(#[trigger] entries[i], model) {
            let i = choose|i: int|
                0 <= i < entries.len() && about_version(#[trigger] entries[i], model);
            assert(entries[i].model_id == model.id);
        }
    }
    assert(has_entry(entries, model.id, v, k, None) == exists|i: int|
        0 <= i < entries.len() && about_type(#[trigger] entries[i], model, role)) by {
        if has_entry(entries, model.id, v, k, None) {
            let i = choose|i: int|
                0 <= i < entries.len() && (#[trigger] entries[i]).model_id == model.id
                    && entries[i].model_version == model.version && entries[i].task_type
                    == role.task_type;
            assert(about_type(entries[i], model, role));
        }
        if exists|i: int| 0 <= i < entries.len() && about_type(#[trigger] entries[i], model, role) {
            let i = choose|i: int|
                0 <= i < entries.len() && about_type(#[trigger] entries[i], model, role);
            assert(entries[i].model_id == model.id);
        }
    }
    if has_entry(entries, model.id, v, k, Some(role.role)) {
        let i = choose|i: int|
            0 <= i < entries.len() && (#[trigger] entries[i]).model_id == model.id
                && entries[i].model_version == model.version && entries[i].task_type
                == role.task_type && entries[i].role == role.role;
        assert(exact(entries[i], model, role));
        lemma_first_exact(entries, model, role, i);
        assert(entries[i].model_id == model.id);
    }
    if exact_entry(entries, model, role) is Some {
        let i = choose|i: int| exact_at(entries, model, role, i);
        assert(exact_at(entries, model, role, i));
        assert(entries[i].model_id == model.id);
    }
}

/// Without a ranking there is none.
pub proof fn lemma_no_ranking(
    model: ModelModel,
    role: RoleProfileModel,
    at_ms: u64,
    normalized: Binary64,
    contribution: Binary64,
)
    ensures
        ({
            let r = resolved_ranking(None, model, role, at_ms, normalized, contribution);
            &&& r.status == RankingStatus::Disabled && r.entry is None
            &&& r.normalized_rank is None && r.contribution == number(0)
        }),
{
}

} // verus!
