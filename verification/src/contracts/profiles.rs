//! Host-owned static quality evidence. No feedback collection or I/O lives here.
use super::configuration::{Config, ConfigModel, Weights, WeightsModel};
use super::planning::{RoleProfile, RoleProfileModel, TaskType};
use super::rankings::{is_known_role, known_role};
use crate::binary64::{number, Binary64, EXACT_INTEGERS, ZERO};
use crate::fault::{
    answers, failure, first_fault, lemma_first_fault, lemma_first_fault_at, lemma_no_fault,
    or_fault, EngineError, EngineErrorModel,
};
use crate::model::Duplicate;
use crate::text::{blank, is_blank, same_text};
use vstd::prelude::*;
use vstd::set_lib::{lemma_int_range, lemma_len_subset, set_int_range};

verus! {

/// What is known of a model version in a role, by one evaluation definition.
#[derive(Debug)]
pub struct QualityProfile {
    pub model_id: String,
    pub model_version: String,
    pub task_type: TaskType,
    pub role: String,
    /// Same evaluation definition as the effective acceptance version.
    pub evaluator_version: String,
    pub prior: Binary64,
    pub prior_weight: Binary64,
    pub accepted: u64,
    pub samples: u64,
}

/// What a `QualityProfile` holds.
#[verifier::ext_equal]
pub ghost struct QualityProfileModel {
    pub model_id: Seq<char>,
    pub model_version: Seq<char>,
    pub task_type: TaskType,
    pub role: Seq<char>,
    pub evaluator_version: Seq<char>,
    pub prior: Binary64,
    pub prior_weight: Binary64,
    pub accepted: u64,
    pub samples: u64,
}

impl DeepView for QualityProfile {
    type V = QualityProfileModel;

    open spec fn deep_view(&self) -> QualityProfileModel {
        QualityProfileModel {
            model_id: self.model_id.deep_view(),
            model_version: self.model_version.deep_view(),
            task_type: self.task_type.deep_view(),
            role: self.role.deep_view(),
            evaluator_version: self.evaluator_version.deep_view(),
            prior: self.prior.deep_view(),
            prior_weight: self.prior_weight.deep_view(),
            accepted: self.accepted.deep_view(),
            samples: self.samples.deep_view(),
        }
    }
}

impl Duplicate for QualityProfile {
    fn duplicate(&self) -> (r: Self) {
        QualityProfile {
            model_id: self.model_id.duplicate(),
            model_version: self.model_version.duplicate(),
            task_type: self.task_type.duplicate(),
            role: self.role.duplicate(),
            evaluator_version: self.evaluator_version.duplicate(),
            prior: self.prior.duplicate(),
            prior_weight: self.prior_weight.duplicate(),
            accepted: self.accepted.duplicate(),
            samples: self.samples.duplicate(),
        }
    }
}

impl Clone for QualityProfile {
    fn clone(&self) -> (r: Self)
        ensures
            r.deep_view() == self.deep_view(),
    {
        self.duplicate()
    }
}

/// The profile that a node of a task uses.
#[derive(Debug)]
pub struct RoleMapping {
    pub task_type: TaskType,
    pub node: String,
    pub profile: RoleProfile,
}

/// What a `RoleMapping` holds.
#[verifier::ext_equal]
pub ghost struct RoleMappingModel {
    pub task_type: TaskType,
    pub node: Seq<char>,
    pub profile: RoleProfileModel,
}

impl DeepView for RoleMapping {
    type V = RoleMappingModel;

    open spec fn deep_view(&self) -> RoleMappingModel {
        RoleMappingModel {
            task_type: self.task_type.deep_view(),
            node: self.node.deep_view(),
            profile: self.profile.deep_view(),
        }
    }
}

impl Duplicate for RoleMapping {
    fn duplicate(&self) -> (r: Self) {
        RoleMapping {
            task_type: self.task_type.duplicate(),
            node: self.node.duplicate(),
            profile: self.profile.duplicate(),
        }
    }
}

impl Clone for RoleMapping {
    fn clone(&self) -> (r: Self)
        ensures
            r.deep_view() == self.deep_view(),
    {
        self.duplicate()
    }
}

/// The type that a task type inherits evidence from.
#[derive(Debug)]
pub struct ParentEntry {
    pub child: TaskType,
    pub parent: TaskType,
}

/// What a `ParentEntry` holds.
#[verifier::ext_equal]
pub ghost struct ParentEntryModel {
    pub child: TaskType,
    pub parent: TaskType,
}

impl DeepView for ParentEntry {
    type V = ParentEntryModel;

    open spec fn deep_view(&self) -> ParentEntryModel {
        ParentEntryModel {
            child: self.child.deep_view(),
            parent: self.parent.deep_view(),
        }
    }
}

impl Duplicate for ParentEntry {
    fn duplicate(&self) -> (r: Self) {
        ParentEntry {
            child: self.child.duplicate(),
            parent: self.parent.duplicate(),
        }
    }
}

impl Clone for ParentEntry {
    fn clone(&self) -> (r: Self)
        ensures
            r.deep_view() == self.deep_view(),
    {
        self.duplicate()
    }
}

/// The weights of a task type.
#[derive(Debug)]
pub struct WeightsEntry {
    pub task_type: TaskType,
    pub weights: Weights,
}

/// What a `WeightsEntry` holds.
#[verifier::ext_equal]
pub ghost struct WeightsEntryModel {
    pub task_type: TaskType,
    pub weights: WeightsModel,
}

impl DeepView for WeightsEntry {
    type V = WeightsEntryModel;

    open spec fn deep_view(&self) -> WeightsEntryModel {
        WeightsEntryModel {
            task_type: self.task_type.deep_view(),
            weights: self.weights.deep_view(),
        }
    }
}

impl Duplicate for WeightsEntry {
    fn duplicate(&self) -> (r: Self) {
        WeightsEntry {
            task_type: self.task_type.duplicate(),
            weights: self.weights.duplicate(),
        }
    }
}

impl Clone for WeightsEntry {
    fn clone(&self) -> (r: Self)
        ensures
            r.deep_view() == self.deep_view(),
    {
        self.duplicate()
    }
}

/// Quality profiles, type inheritance, role mappings and weights under one version. Of entries
/// for one type the first counts.
#[derive(Debug)]
pub struct RoutingProfiles {
    pub schema_version: u32,
    pub version: String,
    pub parents: Vec<ParentEntry>,
    pub role_mappings: Vec<RoleMapping>,
    pub weights: Vec<WeightsEntry>,
    pub profiles: Vec<QualityProfile>,
}

/// What a `RoutingProfiles` holds.
#[verifier::ext_equal]
pub ghost struct RoutingProfilesModel {
    pub schema_version: u32,
    pub version: Seq<char>,
    pub parents: Seq<ParentEntryModel>,
    pub role_mappings: Seq<RoleMappingModel>,
    pub weights: Seq<WeightsEntryModel>,
    pub profiles: Seq<QualityProfileModel>,
}

impl DeepView for RoutingProfiles {
    type V = RoutingProfilesModel;

    open spec fn deep_view(&self) -> RoutingProfilesModel {
        RoutingProfilesModel {
            schema_version: self.schema_version.deep_view(),
            version: self.version.deep_view(),
            parents: self.parents.deep_view(),
            role_mappings: self.role_mappings.deep_view(),
            weights: self.weights.deep_view(),
            profiles: self.profiles.deep_view(),
        }
    }
}

impl Duplicate for RoutingProfiles {
    fn duplicate(&self) -> (r: Self) {
        RoutingProfiles {
            schema_version: self.schema_version.duplicate(),
            version: self.version.duplicate(),
            parents: self.parents.duplicate(),
            role_mappings: self.role_mappings.duplicate(),
            weights: self.weights.duplicate(),
            profiles: self.profiles.duplicate(),
        }
    }
}

impl Clone for RoutingProfiles {
    fn clone(&self) -> (r: Self)
        ensures
            r.deep_view() == self.deep_view(),
    {
        self.duplicate()
    }
}

impl QualityProfile {
    /// The quality: the prior itself without samples, else the posterior of prior and samples.
    pub fn quality(&self, posterior: Binary64) -> (r: Binary64)
        ensures
            r == self.deep_view().quality_of(posterior),
    {
        if self.samples == 0 {
            self.prior
        } else {
            posterior
        }
    }
}

impl QualityProfileModel {
    /// The quality, given the posterior of prior and samples.
    pub open spec fn quality_of(self, posterior: Binary64) -> Binary64 {
        if self.samples == 0 {
            self.prior
        } else {
            posterior
        }
    }

    /// Both profiles are about one model version, type, role and evaluation.
    pub open spec fn same_key(self, other: QualityProfileModel) -> bool {
        &&& self.model_id == other.model_id
        &&& self.model_version == other.model_version
        &&& self.task_type == other.task_type
        &&& self.role == other.role
        &&& self.evaluator_version == other.evaluator_version
    }

    /// Counts stay exactly representable and the posterior finite.
    pub open spec fn counted(self) -> bool {
        &&& self.prior.in_unit()
        &&& number(ZERO).less(self.prior_weight)
        &&& self.prior_weight.at_most(number(EXACT_INTEGERS))
        &&& self.accepted <= self.samples <= 0x20_0000_0000_0000
    }
}

impl Default for RoutingProfiles {
    fn default() -> (r: Self)
        ensures
            r.deep_view() == default_profiles(),
    {
        let r = RoutingProfiles {
            schema_version: 1,
            version: "global-prior-v1".to_owned(),
            parents: Vec::new(),
            role_mappings: Vec::new(),
            weights: Vec::new(),
            profiles: Vec::new(),
        };
        assert(r.deep_view().parents =~= Seq::empty());
        assert(r.deep_view().role_mappings =~= Seq::empty());
        assert(r.deep_view().weights =~= Seq::empty());
        assert(r.deep_view().profiles =~= Seq::empty());
        r
    }
}

/// Profiles without any evidence.
pub open spec fn default_profiles() -> RoutingProfilesModel {
    RoutingProfilesModel {
        schema_version: 1,
        version: "global-prior-v1"@,
        parents: Seq::empty(),
        role_mappings: Seq::empty(),
        weights: Seq::empty(),
        profiles: Seq::empty(),
    }
}

/// `i` is the first entry for a type.
pub open spec fn inherits_at(parents: Seq<ParentEntryModel>, t: TaskType, i: int) -> bool {
    &&& 0 <= i < parents.len()
    &&& parents[i].child == t
    &&& forall|j: int| 0 <= j < i ==> (#[trigger] parents[j]).child != t
}

/// The type that a type inherits evidence from.
pub open spec fn parent_of(parents: Seq<ParentEntryModel>, t: TaskType) -> Option<TaskType> {
    if exists|i: int| #[trigger] inherits_at(parents, t, i) {
        Some(parents[choose|i: int| inherits_at(parents, t, i)].parent)
    } else {
        None
    }
}

/// The type reached after `n` steps of inheritance.
pub open spec fn ancestor(parents: Seq<ParentEntryModel>, t: TaskType, n: nat) -> Option<TaskType>
    decreases n,
{
    if n == 0 {
        Some(t)
    } else {
        match ancestor(parents, t, (n - 1) as nat) {
            Some(a) => parent_of(parents, a),
            None => None,
        }
    }
}

/// Inheritance from a type comes back to a type that it has passed.
pub open spec fn cyclic(parents: Seq<ParentEntryModel>, t: TaskType) -> bool {
    exists|i: nat, j: nat|
        i < j && #[trigger] ancestor(parents, t, i) is Some && ancestor(parents, t, i)
            == #[trigger] ancestor(parents, t, j)
}

/// A number for each type.
pub open spec fn type_code(t: TaskType) -> int {
    match t {
        TaskType::General => 0,
        TaskType::CodeGeneration => 1,
        TaskType::CodeReview => 2,
        TaskType::InformationExtraction => 3,
        TaskType::Reasoning => 4,
        TaskType::Writing => 5,
        TaskType::ToolExecution => 6,
    }
}

/// There are no more than seven different types.
pub proof fn lemma_types_bounded(types: Seq<TaskType>)
    requires
        types.no_duplicates(),
    ensures
        types.len() <= 7,
{
    let codes = Seq::new(types.len(), |i: int| type_code(types[i]));
    assert(codes.no_duplicates()) by {
        assert forall|i: int, j: int|
            0 <= i < codes.len() && 0 <= j < codes.len() && i != j implies codes[i] != codes[j] by {
            assert(types[i] != types[j]);
        }
    }
    codes.unique_seq_to_set();
    lemma_int_range(0, 7);
    lemma_len_subset(codes.to_set(), set_int_range(0, 7));
}

proof fn lemma_no_ancestor(parents: Seq<ParentEntryModel>, t: TaskType, n: nat, m: nat)
    requires
        ancestor(parents, t, n) is None,
        n <= m,
    ensures
        ancestor(parents, t, m) is None,
    decreases m,
{
    if n < m {
        lemma_no_ancestor(parents, t, n, (m - 1) as nat);
    }
}

/// The type that a type inherits evidence from.
pub fn find_parent(parents: &Vec<ParentEntry>, t: TaskType) -> (r: Option<TaskType>)
    ensures
        r == parent_of(parents.deep_view(), t),
{
    let ghost all = parents.deep_view();
    let mut i: usize = 0;
    while i < parents.len()
        invariant
            i <= parents@.len(),
            all == parents.deep_view(),
            forall|j: int| 0 <= j < i ==> (#[trigger] all[j]).child != t,
        decreases parents@.len() - i,
    {
        assert(all[i as int] == parents@[i as int].deep_view());
        if parents[i].child == t {
            proof {
                assert(inherits_at(all, t, i as int));
                let k = choose|k: int| inherits_at(all, t, k);
                if k < i {
                    assert(all[k].child != t);
                }
                if i < k {
                    assert(all[i as int].child != t);
                }
            }
            return Some(parents[i].parent);
        }
        i += 1;
    }
    None
}

/// Whether a list of types holds one.
pub fn has_type(types: &Vec<TaskType>, t: TaskType) -> (r: bool)
    ensures
        r == types@.contains(t),
{
    let mut i: usize = 0;
    while i < types.len()
        invariant
            i <= types@.len(),
            forall|j: int| 0 <= j < i ==> types@[j] != t,
        decreases types@.len() - i,
    {
        if types[i] == t {
            return true;
        }
        i += 1;
    }
    false
}

/// Whether inheritance from a type comes back to a type that it has passed.
fn is_cyclic(parents: &Vec<ParentEntry>, start: TaskType) -> (r: bool)
    ensures
        r == cyclic(parents.deep_view(), start),
{
    let ghost all = parents.deep_view();
    let mut seen: Vec<TaskType> = Vec::new();
    seen.push(start);
    let mut current: TaskType = start;
    loop
        invariant
            all == parents.deep_view(),
            seen@.len() > 0,
            seen@.no_duplicates(),
            current == seen@.last(),
            forall|k: int|
                0 <= k < seen@.len() ==> ancestor(all, start, k as nat) == Some(
                    #[trigger] seen@[k],
                ),
        decreases 7 - seen@.len(),
    {
        let ghost n = seen@.len();
        assert(ancestor(all, start, (n - 1) as nat) == Some(seen@[n - 1]));
        match find_parent(parents, current) {
            None => {
                proof {
                    assert(ancestor(all, start, n) is None);
                    assert forall|i: nat, j: nat|
                        i < j && #[trigger] ancestor(all, start, i) is Some implies ancestor(
                        all,
                        start,
                        i,
                    ) != #[trigger] ancestor(all, start, j) by {
                        if j >= n {
                            lemma_no_ancestor(all, start, n, j);
                        } else {
                            assert(ancestor(all, start, i) == Some(seen@[i as int]));
                            assert(ancestor(all, start, j) == Some(seen@[j as int]));
                        }
                    }
                }
                return false;
            },
            Some(parent) => {
                assert(ancestor(all, start, n) == Some(parent));
                if has_type(&seen, parent) {
                    proof {
                        let i = choose|i: int| 0 <= i < seen@.len() && seen@[i] == parent;
                        assert(ancestor(all, start, i as nat) == Some(seen@[i]));
                        assert(i < n);
                        assert(ancestor(all, start, i as nat) == ancestor(all, start, n));
                    }
                    return true;
                }
                let ghost before = seen@;
                seen.push(parent);
                current = parent;
                proof {
                    assert(seen@ =~= before.push(parent));
                    assert(seen@.no_duplicates());
                    lemma_types_bounded(seen@);
                }
            },
        }
    }
}

impl RoutingProfilesModel {
    /// A mapping uses known roles and is the first for its type and node.
    pub open spec fn mapping_valid(self, i: int) -> bool {
        let mapping = self.role_mappings[i];
        &&& known_role(mapping.node)
        &&& known_role(mapping.profile.role)
        &&& forall|j: int|
            0 <= j < i ==> (#[trigger] self.role_mappings[j]).task_type != mapping.task_type
                || self.role_mappings[j].node != mapping.node
    }

    /// A profile is about a configured model and a known role, and is the first of its key.
    pub open spec fn profile_keyed(self, config: ConfigModel, i: int) -> bool {
        let p = self.profiles[i];
        &&& config.has_model(p.model_id)
        &&& !blank(p.model_version)
        &&& !blank(p.evaluator_version)
        &&& known_role(p.role)
        &&& forall|j: int| 0 <= j < i ==> !(#[trigger] self.profiles[j]).same_key(p)
    }

    pub open spec fn profile_faults(self, config: ConfigModel) -> spec_fn(int) -> Option<
        EngineErrorModel,
    > {
        |i: int|
            if !self.profile_keyed(config, i) {
                Some(
                    failure(
                        "configuration"@,
                        "unknown model, invalid key or duplicate quality profile"@,
                    ),
                )
            } else if !self.profiles[i].counted() {
                Some(
                    failure(
                        "configuration"@,
                        "invalid quality prior, prior weight or sample counts"@,
                    ),
                )
            } else {
                None
            }
    }

    pub open spec fn weight_faults(self) -> spec_fn(int) -> Option<EngineErrorModel> {
        |i: int| self.weights[i].weights.fault()
    }

    pub open spec fn fault(self, config: ConfigModel) -> Option<EngineErrorModel> {
        if self.schema_version != 1 || blank(self.version) {
            Some(
                failure(
                    "configuration"@,
                    "routing profiles require schema_version 1 and a version"@,
                ),
            )
        } else if self.profiles.len() > 100_000 || self.role_mappings.len() > 21 {
            Some(failure("configuration"@, "routing profile or mapping count exceeds bounds"@))
        } else if parent_of(self.parents, TaskType::General) is Some {
            Some(failure("configuration"@, "general cannot have a parent"@))
        } else if exists|i: int|
            0 <= i < self.parents.len() && cyclic(
                self.parents,
                (#[trigger] self.parents[i]).child,
            ) {
            Some(failure("configuration"@, "routing parent inheritance contains a cycle"@))
        } else if exists|i: int|
            0 <= i < self.role_mappings.len() && !(#[trigger] self.mapping_valid(i)) {
            Some(failure("configuration"@, "invalid or duplicate routing role mapping"@))
        } else {
            or_fault(
                first_fault(self.weight_faults(), self.weights.len()),
                first_fault(self.profile_faults(config), self.profiles.len()),
            )
        }
    }
}

impl QualityProfile {
    fn has_key_of(&self, other: &QualityProfile) -> (r: bool)
        ensures
            r == self.deep_view().same_key(other.deep_view()),
    {
        same_text(self.model_id.as_str(), other.model_id.as_str()) && same_text(
            self.model_version.as_str(),
            other.model_version.as_str(),
        ) && self.task_type == other.task_type && same_text(
            self.role.as_str(),
            other.role.as_str(),
        ) && same_text(self.evaluator_version.as_str(), other.evaluator_version.as_str())
    }

    fn is_counted(&self) -> (r: bool)
        ensures
            r == self.deep_view().counted(),
    {
        self.prior.is_unit() && number(ZERO).lt(self.prior_weight) && self.prior_weight.le(
            number(EXACT_INTEGERS),
        ) && self.samples <= 0x20_0000_0000_0000 && self.accepted <= self.samples
    }
}

impl RoutingProfiles {
    fn has_cycle(&self) -> (r: bool)
        ensures
            r == exists|i: int|
                0 <= i < self.deep_view().parents.len() && cyclic(
                    self.deep_view().parents,
                    (#[trigger] self.deep_view().parents[i]).child,
                ),
    {
        let ghost all = self.deep_view().parents;
        let mut i: usize = 0;
        while i < self.parents.len()
            invariant
                i <= self.parents@.len(),
                all == self.deep_view().parents,
                forall|j: int| 0 <= j < i ==> !cyclic(all, (#[trigger] all[j]).child),
            decreases self.parents@.len() - i,
        {
            assert(all[i as int] == self.parents@[i as int].deep_view());
            if is_cyclic(&self.parents, self.parents[i].child) {
                return true;
            }
            i += 1;
        }
        false
    }

    fn is_mapping_valid(&self, i: usize) -> (r: bool)
        requires
            i < self.role_mappings@.len(),
        ensures
            r == self.deep_view().mapping_valid(i as int),
    {
        let ghost all = self.deep_view().role_mappings;
        let mapping: &RoleMapping = &self.role_mappings[i];
        assert(all[i as int] == mapping.deep_view());
        if !is_known_role(mapping.node.as_str()) || !is_known_role(mapping.profile.role.as_str()) {
            return false;
        }
        let mut j: usize = 0;
        while j < i
            invariant
                j <= i < self.role_mappings@.len(),
                all == self.deep_view().role_mappings,
                all[i as int] == mapping.deep_view(),
                forall|k: int|
                    0 <= k < j ==> (#[trigger] all[k]).task_type != mapping.task_type
                        || all[k].node != mapping.node@,
            decreases i - j,
        {
            let past: &RoleMapping = &self.role_mappings[j];
            assert(all[j as int] == past.deep_view());
            if past.task_type == mapping.task_type && same_text(
                past.node.as_str(),
                mapping.node.as_str(),
            ) {
                return false;
            }
            j += 1;
        }
        true
    }

    fn has_bad_mapping(&self) -> (r: bool)
        ensures
            r == exists|i: int|
                0 <= i < self.role_mappings@.len() && !(#[trigger] self.deep_view().mapping_valid(
                    i,
                )),
    {
        let mut i: usize = 0;
        while i < self.role_mappings.len()
            invariant
                i <= self.role_mappings@.len(),
                forall|j: int| 0 <= j < i ==> #[trigger] self.deep_view().mapping_valid(j),
            decreases self.role_mappings@.len() - i,
        {
            if !self.is_mapping_valid(i) {
                return true;
            }
            i += 1;
        }
        false
    }

    fn validate_weights(&self) -> (r: Result<(), EngineError>)
        ensures
            answers(r, first_fault(self.deep_view().weight_faults(), self.weights@.len())),
    {
        let ghost all = self.deep_view();
        let ghost faults = all.weight_faults();
        let mut i: usize = 0;
        while i < self.weights.len()
            invariant
                i <= self.weights@.len(),
                all == self.deep_view(),
                faults == all.weight_faults(),
                first_fault(faults, i as nat) is None,
            decreases self.weights@.len() - i,
        {
            proof {
                assert(all.weights[i as int] == self.weights@[i as int].deep_view());
                if faults(i as int) is Some {
                    lemma_first_fault(faults, i as nat, self.weights@.len());
                }
            }
            if let Err(e) = self.weights[i].weights.validate() {
                return Err(e);
            }
            i += 1;
        }
        Ok(())
    }

    fn has_earlier_key(&self, i: usize) -> (r: bool)
        requires
            i < self.profiles@.len(),
        ensures
            r == exists|j: int|
                0 <= j < i && (#[trigger] self.deep_view().profiles[j]).same_key(
                    self.deep_view().profiles[i as int],
                ),
    {
        let ghost all = self.deep_view().profiles;
        let mut j: usize = 0;
        while j < i
            invariant
                j <= i < self.profiles@.len(),
                all == self.deep_view().profiles,
                forall|k: int| 0 <= k < j ==> !(#[trigger] all[k]).same_key(all[i as int]),
            decreases i - j,
        {
            assert(all[j as int] == self.profiles@[j as int].deep_view());
            assert(all[i as int] == self.profiles@[i as int].deep_view());
            if self.profiles[j].has_key_of(&self.profiles[i]) {
                return true;
            }
            j += 1;
        }
        false
    }

    fn validate_profiles(&self, config: &Config) -> (r: Result<(), EngineError>)
        ensures
            answers(
                r,
                first_fault(
                    self.deep_view().profile_faults(config.deep_view()),
                    self.profiles@.len(),
                ),
            ),
    {
        let ghost all = self.deep_view();
        let ghost known = config.deep_view();
        let ghost faults = all.profile_faults(known);
        let mut i: usize = 0;
        while i < self.profiles.len()
            invariant
                i <= self.profiles@.len(),
                all == self.deep_view(),
                known == config.deep_view(),
                faults == all.profile_faults(known),
                first_fault(faults, i as nat) is None,
            decreases self.profiles@.len() - i,
        {
            let p: &QualityProfile = &self.profiles[i];
            proof {
                assert(all.profiles[i as int] == p.deep_view());
                if faults(i as int) is Some {
                    lemma_first_fault(faults, i as nat, self.profiles@.len());
                }
            }
            if !config.knows_model(p.model_id.as_str()) || is_blank(p.model_version.as_str())
                || is_blank(p.evaluator_version.as_str()) || !is_known_role(p.role.as_str())
                || self.has_earlier_key(i) {
                return Err(
                    EngineError::new(
                        "configuration",
                        "unknown model, invalid key or duplicate quality profile",
                    ),
                );
            }
            if !p.is_counted() {
                return Err(
                    EngineError::new(
                        "configuration",
                        "invalid quality prior, prior weight or sample counts",
                    ),
                );
            }
            i += 1;
        }
        Ok(())
    }

    /// Checks the profiles for a configuration.
    pub fn validate(&self, config: &Config) -> (r: Result<(), EngineError>)
        ensures
            answers(r, self.deep_view().fault(config.deep_view())),
    {
        if self.schema_version != 1 || is_blank(self.version.as_str()) {
            return Err(
                EngineError::new(
                    "configuration",
                    "routing profiles require schema_version 1 and a version",
                ),
            );
        }
        if self.profiles.len() > 100_000 || self.role_mappings.len() > 21 {
            return Err(
                EngineError::new("configuration", "routing profile or mapping count exceeds bounds"),
            );
        }
        if find_parent(&self.parents, TaskType::General).is_some() {
            return Err(EngineError::new("configuration", "general cannot have a parent"));
        }
        if self.has_cycle() {
            return Err(
                EngineError::new("configuration", "routing parent inheritance contains a cycle"),
            );
        }
        if self.has_bad_mapping() {
            return Err(
                EngineError::new("configuration", "invalid or duplicate routing role mapping"),
            );
        }
        if let Err(e) = self.validate_weights() {
            return Err(e);
        }
        self.validate_profiles(config)
    }
}

/// Routing profiles that are accepted have their version; general inherits from nothing and nothing
/// inherits from itself; each role is mapped at most once, to a role that models have; and each
/// profile speaks of a configured model in such a role, with a prior from zero to one that weighs
/// something and no more accepted samples than samples.
pub proof fn lemma_valid_profiles(
    profiles: RoutingProfilesModel,
    config: ConfigModel,
    i: int,
    j: int,
)
    requires
        profiles.fault(config) is None,
    ensures
        profiles.schema_version == 1,
        !blank(profiles.version),
        profiles.profiles.len() <= 100_000 && profiles.role_mappings.len() <= 21,
        0 <= i < profiles.parents.len() ==> profiles.parents[i].child != TaskType::General,
        0 <= i < profiles.weights.len() ==> profiles.weights[i].weights.fault() is None,
        0 <= i < profiles.role_mappings.len() ==> {
            let mapping = profiles.role_mappings[i];
            &&& mapping.node == "invoke"@ || mapping.node == "generator"@ || mapping.node
                == "critic"@
            &&& mapping.profile.role == "invoke"@ || mapping.profile.role == "generator"@
                || mapping.profile.role == "critic"@
        },
        0 <= j < i < profiles.role_mappings.len() ==> profiles.role_mappings[j].task_type
            != profiles.role_mappings[i].task_type || profiles.role_mappings[j].node
            != profiles.role_mappings[i].node,
        0 <= i < profiles.profiles.len() ==> {
            let p = profiles.profiles[i];
            &&& exists|m: int|
                0 <= m < config.models.len() && (#[trigger] config.models[m]).id == p.model_id
            &&& !blank(p.model_version) && !blank(p.evaluator_version)
            &&& p.role == "invoke"@ || p.role == "generator"@ || p.role == "critic"@
            &&& p.prior.in_unit() && number(0).less(p.prior_weight)
            &&& p.accepted <= p.samples <= 9_007_199_254_740_992
        },
        0 <= j < i < profiles.profiles.len() ==> {
            let a = profiles.profiles[j];
            let b = profiles.profiles[i];
            a.model_id != b.model_id || a.model_version != b.model_version || a.task_type
                != b.task_type || a.role != b.role || a.evaluator_version != b.evaluator_version
        },
{
    if 0 <= i < profiles.parents.len() && profiles.parents[i].child == TaskType::General {
        lemma_first_entry(profiles.parents, TaskType::General, i);
    }
    if 0 <= i < profiles.weights.len() {
        lemma_first_fault_at(profiles.weight_faults(), profiles.weights.len(), i);
    }
    if 0 <= i < profiles.role_mappings.len() {
        assert(profiles.mapping_valid(i));
    }
    if 0 <= i < profiles.profiles.len() {
        lemma_first_fault_at(profiles.profile_faults(config), profiles.profiles.len(), i);
        assert(profiles.profile_keyed(config, i));
        if 0 <= j < i {
            assert(!profiles.profiles[j].same_key(profiles.profiles[i]));
        }
    }
}

proof fn lemma_first_entry(parents: Seq<ParentEntryModel>, t: TaskType, n: int)
    requires
        0 <= n < parents.len(),
        parents[n].child == t,
    ensures
        parent_of(parents, t) is Some,
    decreases n,
{
    if exists|j: int| 0 <= j < n && (#[trigger] parents[j]).child == t {
        let j = choose|j: int| 0 <= j < n && (#[trigger] parents[j]).child == t;
        lemma_first_entry(parents, t, j);
    } else {
        assert(inherits_at(parents, t, n));
    }
}

/// A type inherits from the parent of its first entry, and from nothing where it has none.
pub proof fn lemma_parent_is_the_entrys(parents: Seq<ParentEntryModel>, t: TaskType, i: int)
    ensures
        (forall|j: int| 0 <= j < parents.len() ==> (#[trigger] parents[j]).child != t)
            ==> parent_of(parents, t) is None,
        0 <= i < parents.len() && parents[i].child == t && (forall|j: int|
            0 <= j < i ==> (#[trigger] parents[j]).child != t) ==> parent_of(parents, t) == Some(
            parents[i].parent,
        ),
{
    if 0 <= i < parents.len() && parents[i].child == t && (forall|j: int|
        0 <= j < i ==> (#[trigger] parents[j]).child != t) {
        assert(inherits_at(parents, t, i));
        let k = choose|k: int| inherits_at(parents, t, k);
        assert(inherits_at(parents, t, k));
        if k < i {
            assert(parents[k].child != t);
        } else if i < k {
            assert(parents[i].child != t);
        }
    }
}

/// A profile's quality is its prior as long as it has no samples, and the posterior after.
pub proof fn lemma_quality_of_a_profile(profile: QualityProfileModel, posterior: Binary64)
    ensures
        profile.samples == 0 ==> profile.quality_of(posterior) == profile.prior,
        profile.samples > 0 ==> profile.quality_of(posterior) == posterior,
{
}

/// Without profiles nothing inherits, nothing is mapped and nothing is known.
pub proof fn lemma_no_profiles()
    ensures
        default_profiles().parents.len() == 0 && default_profiles().role_mappings.len() == 0,
        default_profiles().weights.len() == 0 && default_profiles().profiles.len() == 0,
        default_profiles().schema_version == 1,
        default_profiles().version == "global-prior-v1"@,
{
}

/// In accepted profiles no line of inheritance comes back to where it was.
pub proof fn lemma_no_line_comes_back(
    profiles: RoutingProfilesModel,
    config: ConfigModel,
    e: int,
    i: nat,
    j: nat,
)
    requires
        profiles.fault(config) is None,
        0 <= e < profiles.parents.len(),
        i < j,
    ensures
        ({
            let t = profiles.parents[e].child;
            &&& ancestor(profiles.parents, t, 0) == Some(t)
            &&& ancestor(profiles.parents, t, i) is Some ==> ancestor(profiles.parents, t, i)
                != ancestor(profiles.parents, t, j)
            &&& ancestor(profiles.parents, t, i) is Some ==> ancestor(
                profiles.parents,
                t,
                (i + 1) as nat,
            ) == parent_of(profiles.parents, ancestor(profiles.parents, t, i)->0)
        }),
{
    assert(!cyclic(profiles.parents, profiles.parents[e].child));
}

/// Profiles that have all that is asked of them are accepted.
pub proof fn lemma_profiles_are_owed(profiles: RoutingProfilesModel, config: ConfigModel)
    requires
        profiles.schema_version == 1,
        !blank(profiles.version),
        profiles.profiles.len() <= 100_000,
        profiles.role_mappings.len() <= 21,
        forall|i: int|
            0 <= i < profiles.parents.len() ==> (#[trigger] profiles.parents[i]).child
                != TaskType::General && !cyclic(profiles.parents, profiles.parents[i].child),
        forall|i: int|
            0 <= i < profiles.weights.len() ==> (#[trigger] profiles.weights[i]).weights.fault()
                is None,
        forall|i: int|
            #![trigger profiles.role_mappings[i]]
            0 <= i < profiles.role_mappings.len() ==> {
                let m = profiles.role_mappings[i];
                &&& m.node == "invoke"@ || m.node == "generator"@ || m.node == "critic"@
                &&& m.profile.role == "invoke"@ || m.profile.role == "generator"@ || m.profile.role
                    == "critic"@
            },
        forall|i: int, j: int|
            #![trigger profiles.role_mappings[i], profiles.role_mappings[j]]
            0 <= j < i < profiles.role_mappings.len() ==> profiles.role_mappings[j].task_type
                != profiles.role_mappings[i].task_type || profiles.role_mappings[j].node
                != profiles.role_mappings[i].node,
        forall|i: int|
            #![trigger profiles.profiles[i]]
            0 <= i < profiles.profiles.len() ==> {
                let p = profiles.profiles[i];
                &&& exists|m: int|
                    0 <= m < config.models.len() && (#[trigger] config.models[m]).id == p.model_id
                &&& !blank(p.model_version) && !blank(p.evaluator_version)
                &&& p.role == "invoke"@ || p.role == "generator"@ || p.role == "critic"@
                &&& p.prior.in_unit() && number(0).less(p.prior_weight)
                &&& p.prior_weight.at_most(number(0x4340_0000_0000_0000))
                &&& p.accepted <= p.samples <= 9_007_199_254_740_992
            },
        forall|i: int, j: int|
            #![trigger profiles.profiles[i], profiles.profiles[j]]
            0 <= j < i < profiles.profiles.len() ==> {
                let a = profiles.profiles[j];
                let b = profiles.profiles[i];
                a.model_id != b.model_id || a.model_version != b.model_version || a.task_type
                    != b.task_type || a.role != b.role || a.evaluator_version
                    != b.evaluator_version
            },
    ensures
        profiles.fault(config) is None,
{
    if parent_of(profiles.parents, TaskType::General) is Some {
        let i = choose|i: int| inherits_at(profiles.parents, TaskType::General, i);
        assert(inherits_at(profiles.parents, TaskType::General, i));
        assert(profiles.parents[i].child != TaskType::General);
    }
    assert forall|i: int| 0 <= i < profiles.role_mappings.len() implies #[trigger] profiles.mapping_valid(
        i,
    ) by {
        assert(profiles.role_mappings[i].node == profiles.role_mappings[i].node);
    }
    let weight_faults = profiles.weight_faults();
    assert forall|i: int| 0 <= i < profiles.weights.len() implies (
    #[trigger] weight_faults(i)) is None by {
        assert(profiles.weights[i].weights.fault() is None);
    }
    lemma_no_fault(weight_faults, profiles.weights.len());
    let profile_faults = profiles.profile_faults(config);
    assert forall|i: int| 0 <= i < profiles.profiles.len() implies (
    #[trigger] profile_faults(i)) is None by {
        let p = profiles.profiles[i];
        assert(config.has_model(p.model_id));
        assert forall|j: int| 0 <= j < i implies !(#[trigger] profiles.profiles[j]).same_key(p) by {
            assert(profiles.profiles[j].model_id == profiles.profiles[j].model_id);
        }
        assert(profiles.profile_keyed(config, i));
    }
    lemma_no_fault(profile_faults, profiles.profiles.len());
}

} // verus!
