//! Explicit external ranking references, separate from business quality evidence.
use super::configuration::{Config, ConfigModel};
use super::planning::TaskType;
use crate::binary64::Binary64;
use crate::fault::{
    answers, failure, first_fault, lemma_first_fault, lemma_first_fault_at, lemma_no_fault,
    or_fault, EngineError, EngineErrorModel,
};
use crate::model::Duplicate;
use crate::text::{blank, byte_count, byte_len, is_blank, same_text};
use vstd::prelude::*;

verus! {

/// The place of an external model, as evidence for a configured one.
#[derive(Debug)]
pub struct RankingEntry {
    pub model_id: String,
    pub model_version: String,
    pub source_model: String,
    pub source_model_version: String,
    pub task_type: TaskType,
    pub role: String,
    pub rank: u32,
}

/// What a `RankingEntry` holds.
#[verifier::ext_equal]
pub ghost struct RankingEntryModel {
    pub model_id: Seq<char>,
    pub model_version: Seq<char>,
    pub source_model: Seq<char>,
    pub source_model_version: Seq<char>,
    pub task_type: TaskType,
    pub role: Seq<char>,
    pub rank: u32,
}

impl DeepView for RankingEntry {
    type V = RankingEntryModel;

    open spec fn deep_view(&self) -> RankingEntryModel {
        RankingEntryModel {
            model_id: self.model_id.deep_view(),
            model_version: self.model_version.deep_view(),
            source_model: self.source_model.deep_view(),
            source_model_version: self.source_model_version.deep_view(),
            task_type: self.task_type.deep_view(),
            role: self.role.deep_view(),
            rank: self.rank.deep_view(),
        }
    }
}

impl Duplicate for RankingEntry {
    fn duplicate(&self) -> (r: Self) {
        RankingEntry {
            model_id: self.model_id.duplicate(),
            model_version: self.model_version.duplicate(),
            source_model: self.source_model.duplicate(),
            source_model_version: self.source_model_version.duplicate(),
            task_type: self.task_type.duplicate(),
            role: self.role.duplicate(),
            rank: self.rank.duplicate(),
        }
    }
}

impl Clone for RankingEntry {
    fn clone(&self) -> (r: Self)
        ensures
            r.deep_view() == self.deep_view(),
    {
        self.duplicate()
    }
}

/// A published ranking and its mapping to configured models.
#[derive(Debug)]
pub struct RankingConfig {
    pub schema_version: u32,
    pub version: String,
    pub source: String,
    pub source_version: String,
    pub category: String,
    pub published_at_ms: u64,
    pub expires_at_ms: u64,
    pub population: u32,
    pub weight: Binary64,
    pub entries: Vec<RankingEntry>,
}

/// What a `RankingConfig` holds.
#[verifier::ext_equal]
pub ghost struct RankingConfigModel {
    pub schema_version: u32,
    pub version: Seq<char>,
    pub source: Seq<char>,
    pub source_version: Seq<char>,
    pub category: Seq<char>,
    pub published_at_ms: u64,
    pub expires_at_ms: u64,
    pub population: u32,
    pub weight: Binary64,
    pub entries: Seq<RankingEntryModel>,
}

impl DeepView for RankingConfig {
    type V = RankingConfigModel;

    open spec fn deep_view(&self) -> RankingConfigModel {
        RankingConfigModel {
            schema_version: self.schema_version.deep_view(),
            version: self.version.deep_view(),
            source: self.source.deep_view(),
            source_version: self.source_version.deep_view(),
            category: self.category.deep_view(),
            published_at_ms: self.published_at_ms.deep_view(),
            expires_at_ms: self.expires_at_ms.deep_view(),
            population: self.population.deep_view(),
            weight: self.weight.deep_view(),
            entries: self.entries.deep_view(),
        }
    }
}

impl Duplicate for RankingConfig {
    fn duplicate(&self) -> (r: Self) {
        RankingConfig {
            schema_version: self.schema_version.duplicate(),
            version: self.version.duplicate(),
            source: self.source.duplicate(),
            source_version: self.source_version.duplicate(),
            category: self.category.duplicate(),
            published_at_ms: self.published_at_ms.duplicate(),
            expires_at_ms: self.expires_at_ms.duplicate(),
            population: self.population.duplicate(),
            weight: self.weight.duplicate(),
            entries: self.entries.duplicate(),
        }
    }
}

impl Clone for RankingConfig {
    fn clone(&self) -> (r: Self)
        ensures
            r.deep_view() == self.deep_view(),
    {
        self.duplicate()
    }
}

/// Not blank, and at most `bound` bytes long.
pub open spec fn identity(value: Seq<char>, bound: nat) -> bool {
    !blank(value) && byte_len(value) <= bound
}

fn is_identity(value: &str, bound: usize) -> (r: bool)
    ensures
        r == identity(value@, bound as nat),
{
    !is_blank(value) && byte_count(value) <= bound
}

/// A role that a model can have.
pub open spec fn known_role(role: Seq<char>) -> bool {
    role == "invoke"@ || role == "generator"@ || role == "critic"@
}

/// Whether a role is one that a model can have.
pub fn is_known_role(role: &str) -> (r: bool)
    ensures
        r == known_role(role@),
{
    same_text(role, "invoke") || same_text(role, "generator") || same_text(role, "critic")
}

impl RankingEntryModel {
    /// Both entries are about one model version, task type and role.
    pub open spec fn same_target(self, other: RankingEntryModel) -> bool {
        &&& self.model_id == other.model_id
        &&& self.model_version == other.model_version
        &&& self.task_type == other.task_type
        &&& self.role == other.role
    }

    /// Both entries come from one external model version.
    pub open spec fn same_source(self, other: RankingEntryModel) -> bool {
        &&& self.source_model == other.source_model
        &&& self.source_model_version == other.source_model_version
    }
}

impl RankingConfigModel {
    /// The metadata are in order.
    pub open spec fn described(self) -> bool {
        &&& self.schema_version == 1
        &&& identity(self.version, 256)
        &&& identity(self.source, 2048)
        &&& identity(self.source_version, 256)
        &&& identity(self.category, 256)
        &&& self.published_at_ms < self.expires_at_ms <= i64::MAX
        &&& 1 <= self.population <= 1_000_000
        &&& self.weight.in_unit()
        &&& self.entries.len() <= 100_000
    }

    /// An entry names a configured model and a known role, has a rank of the population, and is
    /// the first for its target.
    pub open spec fn mapped(self, config: ConfigModel, i: int) -> bool {
        let entry = self.entries[i];
        &&& identity(entry.model_id, 256)
        &&& identity(entry.model_version, 256)
        &&& identity(entry.source_model, 256)
        &&& identity(entry.source_model_version, 256)
        &&& identity(entry.role, 256)
        &&& known_role(entry.role)
        &&& config.has_model(entry.model_id)
        &&& 1 <= entry.rank <= self.population
        &&& forall|j: int| 0 <= j < i ==> !(#[trigger] self.entries[j]).same_target(entry)
    }

    pub open spec fn entry_faults(self, config: ConfigModel) -> spec_fn(int) -> Option<
        EngineErrorModel,
    > {
        |i: int|
            if !self.mapped(config, i) {
                Some(
                    failure(
                        "configuration"@,
                        "invalid, unknown or duplicate external ranking mapping"@,
                    ),
                )
            } else if exists|j: int|
                0 <= j < i && (#[trigger] self.entries[j]).same_source(self.entries[i])
                    && self.entries[j].rank != self.entries[i].rank {
                Some(
                    failure(
                        "configuration"@,
                        "conflicting ranks for an external model version"@,
                    ),
                )
            } else {
                None
            }
    }

    /// The entry is the first from its external model version.
    pub open spec fn introduces(self, i: int) -> bool {
        forall|j: int| 0 <= j < i ==> !(#[trigger] self.entries[j]).same_source(self.entries[i])
    }

    /// How many external model versions the first `n` entries come from.
    pub open spec fn sources(self, n: nat) -> nat
        decreases n,
    {
        if n == 0 {
            0
        } else {
            self.sources((n - 1) as nat) + (if self.introduces(n - 1) {
                1nat
            } else {
                0nat
            })
        }
    }

    pub open spec fn fault(self, config: ConfigModel) -> Option<EngineErrorModel> {
        if !self.described() {
            Some(failure("configuration"@, "invalid external ranking metadata or bounds"@))
        } else {
            or_fault(
                first_fault(self.entry_faults(config), self.entries.len()),
                if self.sources(self.entries.len()) > self.population {
                    Some(
                        failure(
                            "configuration"@,
                            "external model count exceeds ranking population"@,
                        ),
                    )
                } else {
                    None
                },
            )
        }
    }
}

impl RankingEntry {
    fn has_target_of(&self, other: &RankingEntry) -> (r: bool)
        ensures
            r == self.deep_view().same_target(other.deep_view()),
    {
        same_text(self.model_id.as_str(), other.model_id.as_str()) && same_text(
            self.model_version.as_str(),
            other.model_version.as_str(),
        ) && self.task_type == other.task_type && same_text(
            self.role.as_str(),
            other.role.as_str(),
        )
    }

    fn has_source_of(&self, other: &RankingEntry) -> (r: bool)
        ensures
            r == self.deep_view().same_source(other.deep_view()),
    {
        same_text(self.source_model.as_str(), other.source_model.as_str()) && same_text(
            self.source_model_version.as_str(),
            other.source_model_version.as_str(),
        )
    }
}

/// How an entry relates to the ones before it.
struct Earlier {
    /// One of them has its target.
    target: bool,
    /// One of them has its source.
    source: bool,
    /// One of them has its source and another rank.
    conflict: bool,
}

impl RankingConfig {
    fn earlier(&self, i: usize) -> (r: Earlier)
        requires
            i < self.entries@.len(),
        ensures
            r.target == exists|j: int|
                0 <= j < i && (#[trigger] self.deep_view().entries[j]).same_target(
                    self.deep_view().entries[i as int],
                ),
            r.source == !self.deep_view().introduces(i as int),
            r.conflict == exists|j: int|
                0 <= j < i && (#[trigger] self.deep_view().entries[j]).same_source(
                    self.deep_view().entries[i as int],
                ) && self.deep_view().entries[j].rank != self.deep_view().entries[i as int].rank,
    {
        let ghost all = self.deep_view().entries;
        let mut r = Earlier { target: false, source: false, conflict: false };
        let mut j: usize = 0;
        while j < i
            invariant
                j <= i < self.entries@.len(),
                all == self.deep_view().entries,
                r.target == exists|k: int|
                    0 <= k < j && (#[trigger] all[k]).same_target(all[i as int]),
                r.source == exists|k: int|
                    0 <= k < j && (#[trigger] all[k]).same_source(all[i as int]),
                r.conflict == exists|k: int|
                    0 <= k < j && (#[trigger] all[k]).same_source(all[i as int]) && all[k].rank
                        != all[i as int].rank,
            decreases i - j,
        {
            let past: &RankingEntry = &self.entries[j];
            let entry: &RankingEntry = &self.entries[i];
            assert(all[j as int] == past.deep_view());
            assert(all[i as int] == entry.deep_view());
            if past.has_target_of(entry) {
                r.target = true;
            }
            if past.has_source_of(entry) {
                r.source = true;
                if past.rank != entry.rank {
                    r.conflict = true;
                }
            }
            j += 1;
        }
        r
    }

    /// Validate imported metadata and explicit local mappings without accessing the source.
    pub fn validate(&self, config: &Config) -> (r: Result<(), EngineError>)
        ensures
            answers(r, self.deep_view().fault(config.deep_view())),
    {
        if self.schema_version != 1 || !is_identity(self.version.as_str(), 256) || !is_identity(
            self.source.as_str(),
            2048,
        ) || !is_identity(self.source_version.as_str(), 256) || !is_identity(
            self.category.as_str(),
            256,
        ) || self.published_at_ms > 0x7fff_ffff_ffff_ffff || self.expires_at_ms
            > 0x7fff_ffff_ffff_ffff || self.expires_at_ms <= self.published_at_ms || self.population
            < 1 || self.population > 1_000_000 || !self.weight.is_unit() || self.entries.len()
            > 100_000 {
            return Err(
                EngineError::new("configuration", "invalid external ranking metadata or bounds"),
            );
        }
        let ghost ranking = self.deep_view();
        let ghost known = config.deep_view();
        let ghost faults = ranking.entry_faults(known);
        let mut sources: usize = 0;
        let mut i: usize = 0;
        while i < self.entries.len()
            invariant
                i <= self.entries@.len(),
                ranking == self.deep_view(),
                known == config.deep_view(),
                ranking.described(),
                faults == ranking.entry_faults(known),
                first_fault(faults, i as nat) is None,
                sources == ranking.sources(i as nat),
                sources <= i,
            decreases self.entries@.len() - i,
        {
            let entry: &RankingEntry = &self.entries[i];
            proof {
                assert(ranking.entries[i as int] == entry.deep_view());
                if faults(i as int) is Some {
                    lemma_first_fault(faults, i as nat, self.entries@.len());
                }
            }
            let earlier: Earlier = self.earlier(i);
            if !is_identity(entry.model_id.as_str(), 256) || !is_identity(
                entry.model_version.as_str(),
                256,
            ) || !is_identity(entry.source_model.as_str(), 256) || !is_identity(
                entry.source_model_version.as_str(),
                256,
            ) || !is_identity(entry.role.as_str(), 256) || !is_known_role(entry.role.as_str())
                || !config.knows_model(entry.model_id.as_str()) || entry.rank < 1 || entry.rank
                > self.population || earlier.target {
                return Err(
                    EngineError::new(
                        "configuration",
                        "invalid, unknown or duplicate external ranking mapping",
                    ),
                );
            }
            if earlier.conflict {
                return Err(
                    EngineError::new(
                        "configuration",
                        "conflicting ranks for an external model version",
                    ),
                );
            }
            if !earlier.source {
                sources += 1;
            }
            i += 1;
        }
        if sources > self.population as usize {
            return Err(
                EngineError::new("configuration", "external model count exceeds ranking population"),
            );
        }
        Ok(())
    }
}

/// Whether a text is not blank and not too long.
pub open spec fn names_something(value: Seq<char>, bound: nat) -> bool {
    !blank(value) && byte_len(value) <= bound
}

/// An external ranking that is accepted is described within its bounds; each entry speaks of a
/// configured model in a role that models have, at a rank of the population; no two entries speak
/// of one target, and an external model has one rank.
pub proof fn lemma_valid_rankings(rankings: RankingConfigModel, config: ConfigModel, i: int, j: int)
    requires
        rankings.fault(config) is None,
    ensures
        rankings.schema_version == 1,
        names_something(rankings.version, 256) && names_something(rankings.source, 2048),
        names_something(rankings.source_version, 256) && names_something(rankings.category, 256),
        rankings.published_at_ms < rankings.expires_at_ms,
        rankings.expires_at_ms <= 9_223_372_036_854_775_807,
        1 <= rankings.population <= 1_000_000,
        rankings.weight.in_unit(),
        rankings.entries.len() <= 100_000,
        0 <= i < rankings.entries.len() ==> {
            let entry = rankings.entries[i];
            &&& names_something(entry.model_id, 256) && names_something(entry.model_version, 256)
            &&& names_something(entry.source_model, 256)
            &&& names_something(entry.source_model_version, 256)
            &&& entry.role == "invoke"@ || entry.role == "generator"@ || entry.role == "critic"@
            &&& exists|m: int|
                0 <= m < config.models.len() && (#[trigger] config.models[m]).id == entry.model_id
            &&& 1 <= entry.rank <= rankings.population
        },
        0 <= j < i < rankings.entries.len() ==> {
            let a = rankings.entries[j];
            let b = rankings.entries[i];
            &&& a.model_id != b.model_id || a.model_version != b.model_version || a.task_type
                != b.task_type || a.role != b.role
            &&& a.source_model == b.source_model && a.source_model_version
                == b.source_model_version ==> a.rank == b.rank
        },
{
    if 0 <= i < rankings.entries.len() {
        lemma_first_fault_at(rankings.entry_faults(config), rankings.entries.len(), i);
    }
}

/// A ranking that has all that is asked of it is accepted, where it speaks of no more external
/// models than it has ranked; each entry adds one of these exactly where no entry before is from
/// it.
pub proof fn lemma_rankings_are_owed(rankings: RankingConfigModel, config: ConfigModel, n: nat)
    requires
        rankings.schema_version == 1,
        names_something(rankings.version, 256),
        names_something(rankings.source, 2048),
        names_something(rankings.source_version, 256),
        names_something(rankings.category, 256),
        rankings.published_at_ms < rankings.expires_at_ms,
        rankings.expires_at_ms <= 9_223_372_036_854_775_807,
        1 <= rankings.population <= 1_000_000,
        rankings.weight.in_unit(),
        rankings.entries.len() <= 100_000,
        forall|i: int|
            #![trigger rankings.entries[i]]
            0 <= i < rankings.entries.len() ==> {
                let entry = rankings.entries[i];
                &&& names_something(entry.model_id, 256)
                &&& names_something(entry.model_version, 256)
                &&& names_something(entry.source_model, 256)
                &&& names_something(entry.source_model_version, 256)
                &&& names_something(entry.role, 256)
                &&& entry.role == "invoke"@ || entry.role == "generator"@ || entry.role
                    == "critic"@
                &&& exists|m: int|
                    0 <= m < config.models.len() && (#[trigger] config.models[m]).id
                        == entry.model_id
                &&& 1 <= entry.rank <= rankings.population
            },
        forall|i: int, j: int|
            #![trigger rankings.entries[i], rankings.entries[j]]
            0 <= j < i < rankings.entries.len() ==> {
                let a = rankings.entries[j];
                let b = rankings.entries[i];
                &&& a.model_id != b.model_id || a.model_version != b.model_version || a.task_type
                    != b.task_type || a.role != b.role
                &&& a.source_model == b.source_model && a.source_model_version
                    == b.source_model_version ==> a.rank == b.rank
            },
    ensures
        rankings.fault(config) is None <==> rankings.sources(rankings.entries.len())
            <= rankings.population,
        rankings.sources(0) == 0,
        n < rankings.entries.len() ==> {
            let known = exists|j: int|
                0 <= j < n && (#[trigger] rankings.entries[j]).source_model
                    == rankings.entries[n as int].source_model
                    && rankings.entries[j].source_model_version
                    == rankings.entries[n as int].source_model_version;
            &&& known ==> rankings.sources(n + 1) == rankings.sources(n)
            &&& !known ==> rankings.sources(n + 1) == rankings.sources(n) + 1
        },
{
    let faults = rankings.entry_faults(config);
    assert forall|i: int| 0 <= i < rankings.entries.len() implies (
    #[trigger] faults(i)) is None by {
        let entry = rankings.entries[i];
        assert(config.has_model(entry.model_id));
        assert forall|j: int| 0 <= j < i implies !(#[trigger] rankings.entries[j]).same_target(
            entry,
        ) by {
            assert(rankings.entries[j].rank == rankings.entries[j].rank);
        }
        assert(rankings.mapped(config, i));
    }
    lemma_no_fault(faults, rankings.entries.len());
    if n < rankings.entries.len() {
        let entry = rankings.entries[n as int];
        if exists|j: int|
            0 <= j < n && (#[trigger] rankings.entries[j]).source_model == entry.source_model
                && rankings.entries[j].source_model_version == entry.source_model_version {
            let j = choose|j: int|
                0 <= j < n && (#[trigger] rankings.entries[j]).source_model == entry.source_model
                    && rankings.entries[j].source_model_version == entry.source_model_version;
            assert(rankings.entries[j].same_source(entry));
            assert(!rankings.introduces(n as int));
        } else {
            assert forall|j: int| 0 <= j < n implies !(#[trigger] rankings.entries[j]).same_source(
                entry,
            ) by {
                assert(rankings.entries[j].source_model == rankings.entries[j].source_model);
            }
            assert(rankings.introduces(n as int));
        }
    }
}

} // verus!
