//! Bounded strategy rounds and artifact evaluation.
use crate::binary64::Binary64;
use crate::contracts::encoding::{option_json, option_of, Encode};
use crate::contracts::feedback::{
    CriticVerdict, CriticVerdictModel, EvaluationRecord, EvaluationRecordModel,
};
use crate::contracts::task::{
    Artifact, ArtifactModel, Evaluation, EvaluationModel, EvaluationStatus, Strategy, TaskResult,
    TaskResultModel, TaskSpec, TaskSpecModel,
};
use crate::fault::{failure, EngineError, EngineErrorModel};
use crate::json::{
    as_array, as_text, count_model, count_value, empty_object, is_text, member, member_names, seen,
    text_value, Json, JsonModel, ObjectBuilder,
};
use crate::model::Duplicate;
use crate::store::feedback::{checksum_of, text_checksum};
use crate::store::Ledger;
use crate::strategy::{lemma_pass_means_accepted, reads_as_object, verdict_of};
use crate::text::{blank, has_part, same_text, TextSet};
use vstd::prelude::*;

verus! {

/// What the next model has to improve on.
#[derive(Debug)]
pub struct UpgradeRequirement {
    pub previous_quality: Binary64,
    pub required_quality: Binary64,
}

/// What a `UpgradeRequirement` holds.
#[verifier::ext_equal]
pub ghost struct UpgradeRequirementModel {
    pub previous_quality: Binary64,
    pub required_quality: Binary64,
}

impl DeepView for UpgradeRequirement {
    type V = UpgradeRequirementModel;

    open spec fn deep_view(&self) -> UpgradeRequirementModel {
        UpgradeRequirementModel {
            previous_quality: self.previous_quality.deep_view(),
            required_quality: self.required_quality.deep_view(),
        }
    }
}

impl Duplicate for UpgradeRequirement {
    fn duplicate(&self) -> (r: Self) {
        UpgradeRequirement {
            previous_quality: self.previous_quality.duplicate(),
            required_quality: self.required_quality.duplicate(),
        }
    }
}

impl Clone for UpgradeRequirement {
    fn clone(&self) -> (r: Self)
        ensures
            r.deep_view() == self.deep_view(),
    {
        self.duplicate()
    }
}

/// The state of a task before a round.
#[derive(Debug)]
pub struct Rounds {
    pub round: u32,
    pub excluded: TextSet,
    pub artifact: Option<Artifact>,
    pub feedback: Vec<String>,
    pub quality_floor: Binary64,
    pub upgrade: Option<UpgradeRequirement>,
}

/// What a `Rounds` holds.
#[verifier::ext_equal]
pub ghost struct RoundsModel {
    pub round: u32,
    pub excluded: Set<Seq<char>>,
    pub artifact: Option<ArtifactModel>,
    pub feedback: Seq<Seq<char>>,
    pub quality_floor: Binary64,
    pub upgrade: Option<UpgradeRequirementModel>,
}

impl DeepView for Rounds {
    type V = RoundsModel;

    open spec fn deep_view(&self) -> RoundsModel {
        RoundsModel {
            round: self.round.deep_view(),
            excluded: self.excluded.deep_view(),
            artifact: self.artifact.deep_view(),
            feedback: self.feedback.deep_view(),
            quality_floor: self.quality_floor.deep_view(),
            upgrade: self.upgrade.deep_view(),
        }
    }
}

impl Duplicate for Rounds {
    fn duplicate(&self) -> (r: Self) {
        Rounds {
            round: self.round.duplicate(),
            excluded: self.excluded.duplicate(),
            artifact: self.artifact.duplicate(),
            feedback: self.feedback.duplicate(),
            quality_floor: self.quality_floor.duplicate(),
            upgrade: self.upgrade.duplicate(),
        }
    }
}

impl Clone for Rounds {
    fn clone(&self) -> (r: Self)
        ensures
            r.deep_view() == self.deep_view(),
    {
        self.duplicate()
    }
}

/// What a round ends with: the artifact is done or left to a human, or there is another round.
pub enum RoundEnd {
    Completed(Artifact),
    HumanRequired(Artifact),
    Again(Rounds),
}

/// What a round ends with.
#[verifier::ext_equal]
pub ghost enum RoundEndModel {
    Completed(ArtifactModel),
    HumanRequired(ArtifactModel),
    Again(RoundsModel),
}

impl DeepView for RoundEnd {
    type V = RoundEndModel;

    open spec fn deep_view(&self) -> RoundEndModel {
        match self {
            RoundEnd::Completed(a) => RoundEndModel::Completed(a.deep_view()),
            RoundEnd::HumanRequired(a) => RoundEndModel::HumanRequired(a.deep_view()),
            RoundEnd::Again(r) => RoundEndModel::Again(r.deep_view()),
        }
    }
}

/// The node that makes candidates.
pub open spec fn work_node(strategy: Strategy) -> Seq<char> {
    match strategy {
        Strategy::GeneratorCritic => "generator"@,
        _ => "invoke"@,
    }
}

/// The node that makes candidates.
pub fn node_of(strategy: Strategy) -> (r: &'static str)
    ensures
        r@ == work_node(strategy),
{
    match strategy {
        Strategy::GeneratorCritic => "generator",
        _ => "invoke",
    }
}

/// A list of reasons holds one.
pub open spec fn has_reason(reasons: JsonModel, reason: Seq<char>) -> bool {
    reasons is Array && exists|i: int|
        0 <= i < reasons->Array_0.len() && #[trigger] reasons->Array_0[i] == JsonModel::Text(
            reason,
        )
}

/// A list of reasons holds no other reason.
pub open spec fn only_reason(reasons: JsonModel, reason: Seq<char>) -> bool {
    forall|i: int|
        0 <= i < reasons->Array_0.len() ==> ((#[trigger] reasons->Array_0[i]) is Text
            ==> reasons->Array_0[i] == JsonModel::Text(reason))
}

/// The model of that name was excluded for reasons, and not because it was tried.
pub open spec fn untried(excluded: JsonModel, name: Seq<char>) -> bool {
    &&& excluded.has(name)
    &&& excluded.at(name) is Array
    &&& !has_reason(excluded.at(name), "attempt_history_or_diversity"@)
}

/// Every untried model was excluded for its quality.
pub open spec fn none_improves(excluded: JsonModel) -> bool {
    forall|name: Seq<char>| #[trigger]
        untried(excluded, name) ==> has_reason(excluded.at(name), "quality_floor"@)
}

/// Some untried model was excluded for the budget alone.
pub open spec fn unaffordable(excluded: JsonModel) -> bool {
    exists|name: Seq<char>| #[trigger]
        untried(excluded, name) && has_reason(excluded.at(name), "budget"@) && only_reason(
            excluded.at(name),
            "budget"@,
        )
}

/// Why a cascade goes no further.
pub open spec fn stop_reason(excluded: JsonModel) -> Seq<char> {
    if none_improves(excluded) {
        "no_quality_improvement"@
    } else if unaffordable(excluded) {
        "budget"@
    } else {
        "constraints"@
    }
}

fn holds_reason(reasons: &Vec<Json>, reason: &str) -> (r: bool)
    ensures
        r == exists|i: int|
            0 <= i < reasons@.len() && (#[trigger] reasons@[i])@ == JsonModel::Text(reason@),
{
    let mut i: usize = 0;
    while i < reasons.len()
        invariant
            i <= reasons@.len(),
            forall|j: int|
                0 <= j < i ==> (#[trigger] reasons@[j])@ != JsonModel::Text(reason@),
        decreases reasons@.len() - i,
    {
        if is_text(Some(&reasons[i]), reason) {
            assert(reasons@[i as int]@ == JsonModel::Text(reason@));
            return true;
        }
        i += 1;
    }
    false
}

fn holds_only(reasons: &Vec<Json>, reason: &str) -> (r: bool)
    ensures
        r == forall|i: int|
            0 <= i < reasons@.len() ==> ((#[trigger] reasons@[i])@ is Text ==> reasons@[i]@
                == JsonModel::Text(reason@)),
{
    let mut i: usize = 0;
    while i < reasons.len()
        invariant
            i <= reasons@.len(),
            forall|j: int|
                0 <= j < i ==> ((#[trigger] reasons@[j])@ is Text ==> reasons@[j]@
                    == JsonModel::Text(reason@)),
        decreases reasons@.len() - i,
    {
        if let Some(text) = as_text(Some(&reasons[i])) {
            if !same_text(text.as_str(), reason) {
                assert(reasons@[i as int]@ is Text);
                return false;
            }
        }
        i += 1;
    }
    true
}

/// Why a cascade goes no further, by the reasons for which models were excluded.
pub fn upgrade_stop_reason(error: &EngineError) -> (r: &'static str)
    ensures
        r@ == stop_reason(error.details@.at("excluded"@)),
{
    let excluded: Option<&Json> = member(Some(&error.details), "excluded");
    let ghost all = seen(excluded);
    let names: Vec<String> = member_names(excluded);
    let mut improves: bool = false;
    let mut affordable: bool = true;
    let mut i: usize = 0;
    while i < names.len()
        invariant
            i <= names@.len(),
            all == seen(excluded),
            improves == exists|j: int|
                0 <= j < i && untried(all, (#[trigger] names@[j])@) && !has_reason(
                    all.at(names@[j]@),
                    "quality_floor"@,
                ),
            affordable == !exists|j: int|
                0 <= j < i && untried(all, (#[trigger] names@[j])@) && has_reason(
                    all.at(names@[j]@),
                    "budget"@,
                ) && only_reason(all.at(names@[j]@), "budget"@),
            forall|k: Seq<char>|
                names.deep_view().contains(k) <==> all is Object && all->Object_0.dom().contains(k),
        decreases names@.len() - i,
    {
        let name: &String = &names[i];
        let listed: Option<&Json> = member(excluded, name.as_str());
        proof {
            assert(names.deep_view()[i as int] == name@);
            assert(names.deep_view().contains(name@));
            assert(all.has(name@));
        }
        if let Some(reasons) = as_array(listed) {
            let ghost given = all.at(name@);
            proof {
                assert(given is Array);
                assert(given->Array_0.len() == reasons@.len());
                assert forall|j: int| 0 <= j < reasons@.len() implies #[trigger] given->Array_0[j]
                    == reasons@[j]@ by {}
                assert forall|s: Seq<char>| #[trigger] has_reason(given, s) <==> (exists|j: int|
                    0 <= j < reasons@.len() && (#[trigger] reasons@[j])@ == JsonModel::Text(
                        s,
                    )) by {
                    if has_reason(given, s) {
                        let j = choose|j: int|
                            0 <= j < given->Array_0.len() && #[trigger] given->Array_0[j]
                                == JsonModel::Text(s);
                        assert(reasons@[j]@ == JsonModel::Text(s));
                    }
                    if exists|j: int|
                        0 <= j < reasons@.len() && (#[trigger] reasons@[j])@ == JsonModel::Text(
                            s,
                        ) {
                        let j = choose|j: int|
                            0 <= j < reasons@.len() && (#[trigger] reasons@[j])@
                                == JsonModel::Text(s);
                        assert(given->Array_0[j] == JsonModel::Text(s));
                    }
                }
                assert forall|s: Seq<char>| #[trigger] only_reason(given, s) <==> (forall|j: int|
                    0 <= j < reasons@.len() ==> ((#[trigger] reasons@[j])@ is Text
                        ==> reasons@[j]@ == JsonModel::Text(s))) by {
                    if only_reason(given, s) {
                        assert forall|j: int|
                            0 <= j < reasons@.len() && (#[trigger] reasons@[j])@ is Text implies
                            reasons@[j]@ == JsonModel::Text(s) by {
                            assert(given->Array_0[j] == reasons@[j]@);
                        }
                    }
                }
            }
            let tried: bool = holds_reason(reasons, "attempt_history_or_diversity");
            assert(tried == has_reason(given, "attempt_history_or_diversity"@));
            if !tried {
                let floor: bool = holds_reason(reasons, "quality_floor");
                assert(floor == has_reason(given, "quality_floor"@));
                let budget: bool = holds_reason(reasons, "budget");
                assert(budget == has_reason(given, "budget"@));
                let alone: bool = holds_only(reasons, "budget");
                assert(alone == only_reason(given, "budget"@));
                if !floor {
                    improves = true;
                }
                if budget && alone {
                    affordable = false;
                }
            }
        }
        i += 1;
    }
    proof {
        assert forall|k: Seq<char>| untried(all, k) implies exists|j: int|
            0 <= j < names@.len() && (#[trigger] names@[j])@ == k by {
            assert(names.deep_view().contains(k));
            let j = choose|j: int| 0 <= j < names.deep_view().len() && names.deep_view()[j] == k;
            assert(names@[j]@ == k);
        }
        assert(improves == !none_improves(all)) by {
            if !none_improves(all) {
                let k = choose|k: Seq<char>| #[trigger]
                    untried(all, k) && !has_reason(all.at(k), "quality_floor"@);
                let j = choose|j: int| 0 <= j < names@.len() && (#[trigger] names@[j])@ == k;
                assert(untried(all, names@[j]@));
            }
        }
        assert(affordable == !unaffordable(all)) by {
            if unaffordable(all) {
                let k = choose|k: Seq<char>| #[trigger]
                    untried(all, k) && has_reason(all.at(k), "budget"@) && only_reason(
                        all.at(k),
                        "budget"@,
                    );
                let j = choose|j: int| 0 <= j < names@.len() && (#[trigger] names@[j])@ == k;
                assert(untried(all, names@[j]@));
            }
        }
    }
    if !improves {
        "no_quality_improvement"
    } else if !affordable {
        "budget"
    } else {
        "constraints"
    }
}

impl RoundsModel {
    /// The state before the first round.
    pub open spec fn first(task: TaskSpecModel) -> RoundsModel {
        RoundsModel {
            round: 1,
            excluded: Set::empty(),
            artifact: None,
            feedback: Seq::empty(),
            quality_floor: task.selection.min_quality,
            upgrade: None,
        }
    }

    /// The text of the artifact so far.
    pub open spec fn prior(self) -> Option<Seq<char>> {
        match self.artifact {
            Some(a) => Some(a.text),
            None => None,
        }
    }

    /// A cascade with an artifact stops where no further candidate can be had.
    pub open spec fn stops(self, task: TaskSpecModel, error: EngineErrorModel) -> bool {
        &&& task.strategy == Strategy::Cascade
        &&& self.artifact is Some
        &&& error.kind == "routing"@
        &&& error.details.at("category"@) == JsonModel::Text("no_candidate"@)
    }

    /// What is saved where a cascade stops.
    pub open spec fn stop_checkpoint(
        self,
        error: EngineErrorModel,
        required: JsonModel,
        requirement: JsonModel,
    ) -> JsonModel {
        empty_object().with("version"@, count_model(1)).with(
            "round"@,
            count_model(self.round as u64),
        ).with("artifact"@, option_of::<Artifact>(self.artifact)).with(
            "upgrade_stop"@,
            empty_object().with(
                "reason"@,
                JsonModel::Text(stop_reason(error.details.at("excluded"@))),
            ).with("required_quality"@, required).with("requirement"@, requirement).with(
                "excluded"@,
                error.details.at("excluded"@),
            ),
        )
    }

    /// The artifact that a call made of this round.
    pub open spec fn made(
        self,
        artifact_id: Seq<char>,
        attempt: Seq<char>,
        text: Seq<char>,
    ) -> ArtifactModel {
        ArtifactModel {
            artifact_id,
            version: self.round,
            attempt_id: attempt,
            text,
            checksum: text_checksum(text),
        }
    }

    /// The state before the next round, after a model of a quality made an artifact with defects.
    pub open spec fn next(
        self,
        task: TaskSpecModel,
        artifact: ArtifactModel,
        defects: Seq<Seq<char>>,
        model: Seq<char>,
        quality: Binary64,
        raised: Binary64,
    ) -> RoundsModel {
        let kept = RoundsModel {
            round: (self.round + 1) as u32,
            artifact: Some(artifact),
            feedback: defects,
            ..self
        };
        if task.strategy == Strategy::Cascade {
            RoundsModel {
                excluded: self.excluded.insert(model),
                quality_floor: raised,
                upgrade: Some(
                    UpgradeRequirementModel { previous_quality: quality, required_quality: raised },
                ),
                ..kept
            }
        } else {
            kept
        }
    }

    /// What the round ends with after its evaluation.
    pub open spec fn judged(
        self,
        task: TaskSpecModel,
        artifact: ArtifactModel,
        evaluation: EvaluationModel,
        model: Seq<char>,
        quality: Binary64,
        raised: Binary64,
    ) -> RoundEndModel {
        match evaluation.status {
            EvaluationStatus::Pass => RoundEndModel::Completed(artifact),
            EvaluationStatus::Revise => if task.strategy == Strategy::Single || self.round
                >= task.max_rounds {
                RoundEndModel::HumanRequired(artifact)
            } else {
                RoundEndModel::Again(
                    self.next(task, artifact, evaluation.defects, model, quality, raised),
                )
            },
            _ => RoundEndModel::HumanRequired(artifact),
        }
    }
}

impl Rounds {
    /// The state before the first round of a task.
    pub fn new(task: &TaskSpec) -> (r: Self)
        requires
            task.max_rounds >= 1,
        ensures
            r.deep_view() == RoundsModel::first(task.deep_view()),
    {
        let r = Rounds {
            round: 1,
            excluded: TextSet::new(),
            artifact: None,
            feedback: Vec::new(),
            quality_floor: task.selection.min_quality,
            upgrade: None,
        };
        assert(r.deep_view() =~= RoundsModel::first(task.deep_view()));
        r
    }

    /// The checkpoint to save where a failed call ends a cascade with its artifact. The required
    /// quality and the requirement come in their JSON form.
    pub fn stop(
        &self,
        task: &TaskSpec,
        error: &EngineError,
        required: Json,
        requirement: Json,
    ) -> (r: Option<Json>)
        ensures
            match r {
                Some(checkpoint) => self.deep_view().stops(task.deep_view(), error.deep_view())
                    && checkpoint@ == self.deep_view().stop_checkpoint(
                    error.deep_view(),
                    required@,
                    requirement@,
                ),
                None => !self.deep_view().stops(task.deep_view(), error.deep_view()),
            },
    {
        let cascade: bool = match task.strategy {
            Strategy::Cascade => true,
            _ => false,
        };
        if !cascade || self.artifact.is_none() || !same_text(error.kind.as_str(), "routing")
            || !is_text(member(Some(&error.details), "category"), "no_candidate") {
            return None;
        }
        let reason: &str = upgrade_stop_reason(error);
        let excluded: Json = match member(Some(&error.details), "excluded") {
            Some(v) => v.duplicate(),
            None => Json::Null,
        };
        let stopped: Json = ObjectBuilder::new().with("reason", text_value(reason)).with(
            "required_quality",
            required,
        ).with("requirement", requirement).with("excluded", excluded).build();
        Some(
            ObjectBuilder::new().with("version", count_value(1)).with(
                "round",
                count_value(self.round as u64),
            ).with("artifact", option_json(&self.artifact)).with("upgrade_stop", stopped).build(),
        )
    }

    /// The artifact that a call made of this round.
    pub fn make(&self, artifact_id: &str, attempt: &str, text: String) -> (r: Artifact)
        ensures
            r.deep_view() == self.deep_view().made(artifact_id@, attempt@, text@),
    {
        Artifact {
            artifact_id: artifact_id.to_owned(),
            version: self.round,
            attempt_id: attempt.to_owned(),
            checksum: checksum_of(text.as_str()),
            text,
        }
    }

    /// Ends the round after its evaluation. `raised` is the quality of the model that made the
    /// artifact with the least gain of an upgrade added.
    pub fn judge(
        self,
        task: &TaskSpec,
        artifact: Artifact,
        evaluation: Evaluation,
        model: &str,
        quality: Binary64,
        raised: Binary64,
    ) -> (r: RoundEnd)
        ensures
            r.deep_view() == self.deep_view().judged(
                task.deep_view(),
                artifact.deep_view(),
                evaluation.deep_view(),
                model@,
                quality,
                raised,
            ),
    {
        let ghost before = self.deep_view();
        match evaluation.status {
            EvaluationStatus::Pass => {
                return RoundEnd::Completed(artifact);
            },
            EvaluationStatus::Revise => {},
            _ => {
                return RoundEnd::HumanRequired(artifact);
            },
        }
        if self.round >= task.max_rounds {
            return RoundEnd::HumanRequired(artifact);
        }
        let mut excluded: TextSet = self.excluded;
        let mut quality_floor: Binary64 = self.quality_floor;
        let mut upgrade: Option<UpgradeRequirement> = self.upgrade;
        match task.strategy {
            Strategy::Single => {
                return RoundEnd::HumanRequired(artifact);
            },
            Strategy::Cascade => {
                let ghost tried = excluded;
                let _added: bool = excluded.insert(model.to_owned());
                proof {
                    assert forall|t: Seq<char>| #[trigger]
                        excluded.deep_view().contains(t) == before.excluded.insert(
                            model@,
                        ).contains(t) by {
                        assert(excluded.has(t) <==> tried.has(t) || t == model@);
                    }
                    assert(excluded.deep_view() =~= before.excluded.insert(model@));
                }
                quality_floor = raised;
                upgrade = Some(
                    UpgradeRequirement { previous_quality: quality, required_quality: raised },
                );
            },
            Strategy::GeneratorCritic => {},
        }
        RoundEnd::Again(
            Rounds {
                round: self.round + 1,
                excluded,
                artifact: Some(artifact),
                feedback: evaluation.defects,
                quality_floor,
                upgrade,
            },
        )
    }
}

/// A candidate that passes its checks still goes to the critic.
pub open spec fn critic_due(strategy: Strategy, evaluation: EvaluationModel) -> bool {
    strategy == Strategy::GeneratorCritic && evaluation.status == EvaluationStatus::Pass
}

/// Whether a candidate goes to the critic.
pub fn needs_critic(task: &TaskSpec, evaluation: &Evaluation) -> (r: bool)
    ensures
        r == critic_due(task.strategy, evaluation.deep_view()),
{
    match (task.strategy, evaluation.status) {
        (Strategy::GeneratorCritic, EvaluationStatus::Pass) => true,
        _ => false,
    }
}

/// The models barred from the critic's role: the one that made the candidate, where a different
/// critic is asked for.
pub fn critic_excluded(task: &TaskSpec, model: &str) -> (r: TextSet)
    ensures
        r.deep_view() == (if task.constraints.different_critic {
            set![model@]
        } else {
            Set::empty()
        }),
{
    let mut r: TextSet = TextSet::new();
    let ghost none = r;
    if task.constraints.different_critic {
        let _added: bool = r.insert(model.to_owned());
        assert forall|t: Seq<char>| #[trigger]
            r.deep_view().contains(t) == set![model@].contains(t) by {
            assert(r.has(t) <==> none.has(t) || t == model@);
        }
        assert(r.deep_view() =~= set![model@]);
    } else {
        assert(r.deep_view() =~= Set::empty());
    }
    r
}

/// The fault of a critic's answer: it is no evaluation, or it passes what has defects.
pub open spec fn critic_fault(evaluation: Option<EvaluationModel>) -> Option<EngineErrorModel> {
    match evaluation {
        None => Some(failure("protocol"@, "critic returned an invalid Evaluation object"@)),
        Some(e) => if e.status == EvaluationStatus::Pass && e.defects.len() > 0 {
            Some(failure("protocol"@, "critic passed an artifact with unresolved defects"@))
        } else {
            None
        },
    }
}

/// Takes a critic's answer, as far as it reads as an evaluation.
pub fn critic_verdict(attempt: &str, evaluation: Option<Evaluation>) -> (r: Result<
    CriticVerdict,
    EngineError,
>)
    ensures
        crate::fault::answers(r, critic_fault(evaluation.deep_view())),
        r matches Ok(v) ==> v.deep_view() == (CriticVerdictModel {
            attempt_id: attempt@,
            evaluation: evaluation.deep_view()->0,
        }),
{
    match evaluation {
        None => Err(
            EngineError::new("protocol", "critic returned an invalid Evaluation object"),
        ),
        Some(e) => {
            let passed: bool = match e.status {
                EvaluationStatus::Pass => true,
                _ => false,
            };
            if passed && e.defects.len() > 0 {
                return Err(
                    EngineError::new("protocol", "critic passed an artifact with unresolved defects"),
                );
            }
            Ok(CriticVerdict { attempt_id: attempt.to_owned(), evaluation: e })
        },
    }
}

/// The evaluation that decides: the critic's where there is one.
pub open spec fn deciding(
    deterministic: EvaluationModel,
    critic: Option<CriticVerdictModel>,
) -> EvaluationModel {
    match critic {
        Some(c) => c.evaluation,
        None => deterministic,
    }
}

/// The record of an evaluation.
pub fn evaluation_record(
    task: &TaskSpec,
    artifact: &Artifact,
    deterministic: &Evaluation,
    critic: Option<CriticVerdict>,
) -> (r: EvaluationRecord)
    ensures
        r.deep_view() == (EvaluationRecordModel {
            task_id: task.task_id@,
            artifact: artifact.deep_view(),
            deterministic: deterministic.deep_view(),
            critic: critic.deep_view(),
        }),
{
    EvaluationRecord {
        task_id: task.task_id.clone(),
        artifact: artifact.duplicate(),
        deterministic: deterministic.duplicate(),
        critic,
    }
}

impl EvaluationRecordModel {
    /// The evaluation that decides.
    pub open spec fn decided(self) -> EvaluationModel {
        deciding(self.deterministic, self.critic)
    }
}

/// The evaluation of a record that decides.
pub fn decided(record: &EvaluationRecord) -> (r: Evaluation)
    ensures
        r.deep_view() == record.deep_view().decided(),
{
    match &record.critic {
        Some(c) => c.evaluation.duplicate(),
        None => record.deterministic.duplicate(),
    }
}

/// What is saved after an evaluation.
pub fn evaluation_checkpoint(round: u32, artifact: &Artifact, evaluation: &Evaluation) -> (r: Json)
    ensures
        r@ == empty_object().with("version"@, count_model(1)).with(
            "round"@,
            count_model(round as u64),
        ).with("artifact"@, Artifact::json_of(artifact.deep_view())).with(
            "evaluation"@,
            Evaluation::json_of(evaluation.deep_view()),
        ),
{
    ObjectBuilder::new().with("version", count_value(1)).with(
        "round",
        count_value(round as u64),
    ).with("artifact", artifact.to_json()).with("evaluation", evaluation.to_json()).build()
}

/// What the event of an evaluation tells.
pub fn evaluation_event(round: u32, evaluation: &Evaluation) -> (r: Json)
    ensures
        r@ == empty_object().with("round"@, count_model(round as u64)).with(
            "status"@,
            EvaluationStatus::json_of(evaluation.status),
        ).with("defect_count"@, count_model(evaluation.defects@.len() as u64)),
{
    ObjectBuilder::new().with("round", count_value(round as u64)).with(
        "status",
        evaluation.status.to_json(),
    ).with("defect_count", count_value(evaluation.defects.len() as u64)).build()
}

/// The result of a task.
pub fn task_result(task: &TaskSpec, status: &str, artifact: Artifact, ledger: &Ledger) -> (r:
    TaskResult)
    ensures
        r.deep_view() == (TaskResultModel {
            task_id: task.task_id@,
            status: status@,
            artifact: artifact.deep_view(),
            settled_cost: ledger.settled,
            reserved_cost: ledger.reserved,
        }),
{
    TaskResult {
        task_id: task.task_id.clone(),
        status: status.to_owned(),
        artifact,
        settled_cost: ledger.settled,
        reserved_cost: ledger.reserved,
    }
}

/// Rounds that follow each other: round `i` made an artifact with a model and was not the last.
pub open spec fn round_chain(
    states: Seq<RoundsModel>,
    models: Seq<Seq<char>>,
    task: TaskSpecModel,
) -> bool {
    &&& states.len() == models.len() + 1
    &&& states[0] == RoundsModel::first(task)
    &&& forall|i: int| 0 <= i < models.len() ==> #[trigger] follows(states, models, task, i)
}

/// The state after round `i` comes of the state before it.
pub open spec fn follows(
    states: Seq<RoundsModel>,
    models: Seq<Seq<char>>,
    task: TaskSpecModel,
    i: int,
) -> bool {
    exists|artifact: ArtifactModel, evaluation: EvaluationModel, quality: Binary64, raised: Binary64|
        #[trigger] states[i].judged(task, artifact, evaluation, models[i], quality, raised)
            == RoundEndModel::Again(states[i + 1])
}

/// Rounds are bounded: there are at most `max_rounds` of them, and a cascade bars the models of
/// all rounds before.
pub proof fn lemma_rounds_bounded(
    states: Seq<RoundsModel>,
    models: Seq<Seq<char>>,
    task: TaskSpecModel,
)
    requires
        task.max_rounds >= 1,
        round_chain(states, models, task),
    ensures
        states.len() <= task.max_rounds,
        states.last().round == states.len(),
        task.strategy == Strategy::Single ==> states.len() == 1,
        task.strategy == Strategy::Cascade ==> forall|j: int|
            0 <= j < models.len() ==> states.last().excluded.contains(#[trigger] models[j]),
    decreases states.len(),
{
    if models.len() > 0 {
        let n = models.len() - 1;
        let s = states.drop_last();
        let m = models.drop_last();
        assert(round_chain(s, m, task)) by {
            assert forall|i: int| 0 <= i < m.len() implies #[trigger] follows(s, m, task, i) by {
                assert(follows(states, models, task, i));
                let (artifact, evaluation, quality, raised) = choose|
                    artifact: ArtifactModel,
                    evaluation: EvaluationModel,
                    quality: Binary64,
                    raised: Binary64,
                | #[trigger]
                    states[i].judged(task, artifact, evaluation, models[i], quality, raised)
                        == RoundEndModel::Again(states[i + 1]);
                assert(s[i].judged(task, artifact, evaluation, m[i], quality, raised)
                    == RoundEndModel::Again(s[i + 1]));
            }
        }
        lemma_rounds_bounded(s, m, task);
        assert(follows(states, models, task, n));
        assert(s.last() == states[n]);
        if task.strategy == Strategy::Cascade {
            assert forall|j: int| 0 <= j < models.len() implies states.last().excluded.contains(
                #[trigger] models[j],
            ) by {
                if j < n {
                    assert(m[j] == models[j]);
                }
            }
        }
    }
}

/// A completed artifact is accepted: where a round ends a task as completed, the deterministic
/// checks of its text passed, and under generation with a critic the critic passed it too, with
/// no defect left.
pub proof fn lemma_completed_is_accepted(
    state: RoundsModel,
    task: TaskSpecModel,
    record: EvaluationRecordModel,
    model: Seq<char>,
    quality: Binary64,
    raised: Binary64,
)
    requires
        record.deterministic == verdict_of(
            record.artifact.text,
            task.acceptance,
            reads_as_object(record.artifact.text),
        ),
        record.critic is Some <==> critic_due(task.strategy, record.deterministic),
        record.critic matches Some(c) ==> critic_fault(Some(c.evaluation)) is None,
        state.judged(task, record.artifact, record.decided(), model, quality, raised)
            is Completed,
    ensures
        task.acceptance.nonempty ==> !blank(record.artifact.text),
        forall|i: int|
            0 <= i < task.acceptance.required_substrings.len() ==> has_part(
                record.artifact.text,
                #[trigger] task.acceptance.required_substrings[i],
            ),
        task.acceptance.json_object ==> reads_as_object(record.artifact.text),
        task.strategy == Strategy::GeneratorCritic ==> {
            &&& record.critic is Some
            &&& record.critic->0.evaluation.status == EvaluationStatus::Pass
            &&& record.critic->0.evaluation.defects.len() == 0
        },
{
    lemma_pass_means_accepted(
        record.artifact.text,
        task.acceptance,
        reads_as_object(record.artifact.text),
    );
}

/// A round that passed completes the task with its artifact. One that has to be revised is followed
/// by another, unless the task is made in one go or has had all its rounds; then, and in every
/// other case, a human has to look at the artifact.
pub proof fn lemma_how_a_round_ends(
    state: RoundsModel,
    task: TaskSpecModel,
    artifact: ArtifactModel,
    evaluation: EvaluationModel,
    model: Seq<char>,
    quality: Binary64,
    raised: Binary64,
)
    requires
        state.round < u32::MAX,
    ensures
        ({
            let end = state.judged(task, artifact, evaluation, model, quality, raised);
            let again = evaluation.status == EvaluationStatus::Revise && task.strategy
                != Strategy::Single && state.round < task.max_rounds;
            &&& evaluation.status == EvaluationStatus::Pass <==> end is Completed
            &&& again <==> end is Again
            &&& end is Completed || end is Again || end is HumanRequired
            &&& end is Completed ==> end->Completed_0 == artifact
            &&& end is HumanRequired ==> end->HumanRequired_0 == artifact
            &&& end is Again ==> {
                let next = end->Again_0;
                &&& next.round == state.round + 1
                &&& next.artifact == Some(artifact)
                &&& next.feedback == evaluation.defects
                &&& task.strategy == Strategy::Cascade ==> {
                    &&& forall|m: Seq<char>|
                        next.excluded.contains(m) <==> state.excluded.contains(m) || m == model
                    &&& next.quality_floor == raised
                    &&& next.upgrade is Some && next.upgrade->0.previous_quality == quality
                    &&& next.upgrade->0.required_quality == raised
                }
                &&& task.strategy != Strategy::Cascade ==> next.excluded == state.excluded
                    && next.quality_floor == state.quality_floor && next.upgrade == state.upgrade
            }
        }),
{
}

/// The first round has nothing to go on: no artifact, no defects, no model barred, and the least
/// quality that the task asks for.
pub proof fn lemma_first_round(task: TaskSpecModel)
    ensures
        ({
            let first = RoundsModel::first(task);
            &&& first.round == 1
            &&& first.artifact is None && first.prior() is None
            &&& first.feedback.len() == 0
            &&& forall|m: Seq<char>| !first.excluded.contains(m)
            &&& first.quality_floor == task.selection.min_quality
            &&& first.upgrade is None
        }),
{
}

/// A cascade ends early exactly where it has an artifact and no candidate can be had for another.
pub proof fn lemma_when_a_cascade_stops(
    state: RoundsModel,
    task: TaskSpecModel,
    error: EngineErrorModel,
)
    ensures
        state.stops(task, error) <==> {
            &&& task.strategy == Strategy::Cascade
            &&& state.artifact is Some
            &&& error.kind == "routing"@
            &&& error.details.at("category"@) == JsonModel::Text("no_candidate"@)
        },
{
}

/// An artifact has the round as its version, the call that made it, the text and its checksum.
pub proof fn lemma_artifact_of_a_round(
    state: RoundsModel,
    artifact_id: Seq<char>,
    attempt: Seq<char>,
    text: Seq<char>,
)
    ensures
        ({
            let a = state.made(artifact_id, attempt, text);
            &&& a.artifact_id == artifact_id && a.version == state.round
            &&& a.attempt_id == attempt && a.text == text && a.checksum == text_checksum(text)
        }),
{
}

/// A candidate goes to the critic exactly where there is one and the checks passed it. A critic's
/// answer counts where it reads as an evaluation and passes nothing that it finds defects in; it
/// then decides, and otherwise the checks do.
pub proof fn lemma_what_a_critic_decides(
    strategy: Strategy,
    checks: EvaluationModel,
    answer: Option<EvaluationModel>,
    verdict: Option<CriticVerdictModel>,
)
    ensures
        critic_due(strategy, checks) <==> strategy == Strategy::GeneratorCritic && checks.status
            == EvaluationStatus::Pass,
        critic_fault(answer) is None <==> answer is Some && (answer->0.status
            == EvaluationStatus::Pass ==> answer->0.defects.len() == 0),
        critic_fault(answer) is Some ==> critic_fault(answer)->0.kind == "protocol"@,
        verdict is Some ==> deciding(checks, verdict) == verdict->0.evaluation,
        verdict is None ==> deciding(checks, verdict) == checks,
        strategy == Strategy::GeneratorCritic ==> work_node(strategy) == "generator"@,
        strategy != Strategy::GeneratorCritic ==> work_node(strategy) == "invoke"@,
{
}

/// Why a cascade goes no further: no model that was not tried is better; or else some such model is
/// lacking nothing but the money; or else none is permitted.
pub proof fn lemma_why_a_cascade_stops(excluded: JsonModel, name: Seq<char>)
    ensures
        ({
            let reason = stop_reason(excluded);
            let list = excluded.at(name);
            let untried_here = excluded.has(name) && list is Array && (forall|i: int|
                0 <= i < list->Array_0.len() ==> #[trigger] list->Array_0[i] != JsonModel::Text(
                    "attempt_history_or_diversity"@,
                ));
            let below = exists|i: int|
                0 <= i < list->Array_0.len() && #[trigger] list->Array_0[i] == JsonModel::Text(
                    "quality_floor"@,
                );
            let dear = (exists|i: int|
                0 <= i < list->Array_0.len() && #[trigger] list->Array_0[i] == JsonModel::Text(
                    "budget"@,
                )) && (forall|i: int|
                0 <= i < list->Array_0.len() && (#[trigger] list->Array_0[i]) is Text
                    ==> list->Array_0[i] == JsonModel::Text("budget"@));
            &&& untried_here && !below ==> reason != "no_quality_improvement"@
            &&& untried_here && !below && dear ==> reason == "budget"@
            &&& (forall|n: Seq<char>| !excluded.has(n)) ==> reason == "no_quality_improvement"@
            &&& reason == "no_quality_improvement"@ || reason == "budget"@ || reason
                == "constraints"@
        }),
{
    lemma_stop_names();
    let list = excluded.at(name);
    if excluded.has(name) && list is Array && (forall|i: int|
        0 <= i < list->Array_0.len() ==> #[trigger] list->Array_0[i] != JsonModel::Text(
            "attempt_history_or_diversity"@,
        )) {
        assert(untried(excluded, name));
    }
}

proof fn lemma_stop_names()
    ensures
        "no_quality_improvement"@ != "budget"@,
        "no_quality_improvement"@ != "constraints"@,
        "budget"@ != "constraints"@,
{
    reveal_strlit("no_quality_improvement");
    reveal_strlit("budget");
    reveal_strlit("constraints");
    assert("no_quality_improvement"@.len() == 22);
    assert("budget"@.len() == 6);
    assert("constraints"@.len() == 11);
}

} // verus!
