//! The rounds of a task as a machine: what to do next after each thing that happened.
pub mod history;
pub mod steps;

use super::execution::{
    critic_due, critic_excluded, critic_fault, critic_verdict, evaluation_checkpoint,
    evaluation_event, evaluation_record, needs_critic, node_of, task_result, work_node, RoundEnd,
    RoundEndModel, Rounds, RoundsModel, UpgradeRequirement, UpgradeRequirementModel,
};
use crate::binary64::{number, Binary64, ZERO};
use crate::contracts::encoding::Encode;
use crate::contracts::feedback::{
    CriticVerdict, CriticVerdictModel, EvaluationRecord, EvaluationRecordModel,
};
use crate::contracts::task::{
    AcceptanceModel, Artifact, ArtifactModel, Evaluation, EvaluationModel, EvaluationStatus,
    Strategy, TaskResult, TaskResultModel, TaskSpec, TaskSpecModel,
};
use crate::fault::{EngineError, EngineErrorModel};
use crate::json::{count_model, empty_object, Json, JsonModel};
use crate::model::Duplicate;
use crate::store::{Ledger, LedgerModel};
use crate::strategy::{evaluate, lemma_pass_means_accepted, reads_as_object, verdict_of};
use crate::text::{blank, has_part, TextSet};
use vstd::prelude::*;

verus! {

/// What a model made in a round: the artifact with its checks, the model, its quality, and that
/// quality with the least gain of an upgrade added.
#[derive(Debug)]
pub struct Candidate {
    pub artifact: Artifact,
    pub checks: Evaluation,
    pub model: String,
    pub quality: Binary64,
    pub raised: Binary64,
}

/// What a `Candidate` holds.
#[verifier::ext_equal]
pub ghost struct CandidateModel {
    pub artifact: ArtifactModel,
    pub checks: EvaluationModel,
    pub model: Seq<char>,
    pub quality: Binary64,
    pub raised: Binary64,
}

impl DeepView for Candidate {
    type V = CandidateModel;

    open spec fn deep_view(&self) -> CandidateModel {
        CandidateModel {
            artifact: self.artifact.deep_view(),
            checks: self.checks.deep_view(),
            model: self.model.deep_view(),
            quality: self.quality.deep_view(),
            raised: self.raised.deep_view(),
        }
    }
}

impl Duplicate for Candidate {
    fn duplicate(&self) -> (r: Self) {
        Candidate {
            artifact: self.artifact.duplicate(),
            checks: self.checks.duplicate(),
            model: self.model.duplicate(),
            quality: self.quality.duplicate(),
            raised: self.raised.duplicate(),
        }
    }
}

impl Clone for Candidate {
    fn clone(&self) -> (r: Self)
        ensures
            r.deep_view() == self.deep_view(),
    {
        self.duplicate()
    }
}

/// What a task waits for.
pub enum ExecutionPhase {
    Ready { rounds: Rounds },
    Working { rounds: Rounds },
    Stopping { artifact: Artifact },
    Recording { rounds: Rounds, candidate: Candidate },
    Criticizing { rounds: Rounds, candidate: Candidate },
    Judging { rounds: Rounds, candidate: Candidate, verdict: CriticVerdict },
    Saving { rounds: Rounds, candidate: Candidate, evaluation: Evaluation },
    Reporting { rounds: Rounds, candidate: Candidate, evaluation: Evaluation },
    Closing { completed: bool, artifact: Artifact },
    Over,
}

/// What a `ExecutionPhase` holds.
#[verifier::ext_equal]
pub ghost enum ExecutionPhaseModel {
    Ready { rounds: RoundsModel },
    Working { rounds: RoundsModel },
    Stopping { artifact: ArtifactModel },
    Recording { rounds: RoundsModel, candidate: CandidateModel },
    Criticizing { rounds: RoundsModel, candidate: CandidateModel },
    Judging { rounds: RoundsModel, candidate: CandidateModel, verdict: CriticVerdictModel },
    Saving { rounds: RoundsModel, candidate: CandidateModel, evaluation: EvaluationModel },
    Reporting { rounds: RoundsModel, candidate: CandidateModel, evaluation: EvaluationModel },
    Closing { completed: bool, artifact: ArtifactModel },
    Over,
}

impl DeepView for ExecutionPhase {
    type V = ExecutionPhaseModel;

    open spec fn deep_view(&self) -> ExecutionPhaseModel {
        match self {
            ExecutionPhase::Ready { rounds } => ExecutionPhaseModel::Ready {
                rounds: rounds.deep_view(),
            },
            ExecutionPhase::Working { rounds } => ExecutionPhaseModel::Working {
                rounds: rounds.deep_view(),
            },
            ExecutionPhase::Stopping { artifact } => ExecutionPhaseModel::Stopping {
                artifact: artifact.deep_view(),
            },
            ExecutionPhase::Recording { rounds, candidate } => ExecutionPhaseModel::Recording {
                rounds: rounds.deep_view(),
                candidate: candidate.deep_view(),
            },
            ExecutionPhase::Criticizing { rounds, candidate } => ExecutionPhaseModel::Criticizing {
                rounds: rounds.deep_view(),
                candidate: candidate.deep_view(),
            },
            ExecutionPhase::Judging { rounds, candidate, verdict } => ExecutionPhaseModel::Judging {
                rounds: rounds.deep_view(),
                candidate: candidate.deep_view(),
                verdict: verdict.deep_view(),
            },
            ExecutionPhase::Saving { rounds, candidate, evaluation } => ExecutionPhaseModel::Saving {
                rounds: rounds.deep_view(),
                candidate: candidate.deep_view(),
                evaluation: evaluation.deep_view(),
            },
            ExecutionPhase::Reporting { rounds, candidate, evaluation } => ExecutionPhaseModel::Reporting {
                rounds: rounds.deep_view(),
                candidate: candidate.deep_view(),
                evaluation: evaluation.deep_view(),
            },
            ExecutionPhase::Closing { completed, artifact } => ExecutionPhaseModel::Closing {
                completed: completed.deep_view(),
                artifact: artifact.deep_view(),
            },
            ExecutionPhase::Over => ExecutionPhaseModel::Over,
        }
    }
}

/// What happened.
pub enum ExecutionEvent {
    /// The task's work begins, or what was asked for is done.
    Done,
    /// A model finished; the artifact gets the given identity.
    Produced {
        artifact_id: String,
        attempt: String,
        text: String,
        model: String,
        quality: Binary64,
        raised: Binary64,
    },
    /// A model could not be called, with the quality that was asked of it in its JSON form.
    Refused { error: EngineError, required: Json, requirement: Json },
    /// A critic finished; its answer is given as far as it reads as an evaluation.
    Judged { attempt: String, evaluation: Option<Evaluation> },
    /// The ledger was read.
    Read { ledger: Ledger },
    /// What was asked for could not be done.
    Broken { error: EngineError },
}

/// What a `ExecutionEvent` holds.
#[verifier::ext_equal]
pub ghost enum ExecutionEventModel {
    Done,
    Produced {
        artifact_id: Seq<char>,
        attempt: Seq<char>,
        text: Seq<char>,
        model: Seq<char>,
        quality: Binary64,
        raised: Binary64,
    },
    Refused { error: EngineErrorModel, required: JsonModel, requirement: JsonModel },
    Judged { attempt: Seq<char>, evaluation: Option<EvaluationModel> },
    Read { ledger: LedgerModel },
    Broken { error: EngineErrorModel },
}

impl DeepView for ExecutionEvent {
    type V = ExecutionEventModel;

    open spec fn deep_view(&self) -> ExecutionEventModel {
        match self {
            ExecutionEvent::Done => ExecutionEventModel::Done,
            ExecutionEvent::Produced { artifact_id, attempt, text, model, quality, raised } => ExecutionEventModel::Produced {
                artifact_id: artifact_id.deep_view(),
                attempt: attempt.deep_view(),
                text: text.deep_view(),
                model: model.deep_view(),
                quality: quality.deep_view(),
                raised: raised.deep_view(),
            },
            ExecutionEvent::Refused { error, required, requirement } => ExecutionEventModel::Refused {
                error: error.deep_view(),
                required: required.deep_view(),
                requirement: requirement.deep_view(),
            },
            ExecutionEvent::Judged { attempt, evaluation } => ExecutionEventModel::Judged {
                attempt: attempt.deep_view(),
                evaluation: evaluation.deep_view(),
            },
            ExecutionEvent::Read { ledger } => ExecutionEventModel::Read {
                ledger: ledger.deep_view(),
            },
            ExecutionEvent::Broken { error } => ExecutionEventModel::Broken {
                error: error.deep_view(),
            },
        }
    }
}

/// What to do next.
pub enum ExecutionAction {
    /// Run a node in a role.
    Invoke {
        role: String,
        prior: Option<String>,
        feedback: Vec<String>,
        round: u32,
        excluded: TextSet,
        quality_floor: Binary64,
        upgrade: Option<UpgradeRequirement>,
    },
    Record { record: EvaluationRecord },
    Checkpoint { value: Json },
    Emit { node: String, data: Json },
    ReadLedger,
    Finish { result: TaskResult },
    Fail { error: EngineError },
    /// Nothing: what happened is not what the task waits for.
    Wait,
}

/// What a `ExecutionAction` holds.
#[verifier::ext_equal]
pub ghost enum ExecutionActionModel {
    Invoke {
        role: Seq<char>,
        prior: Option<Seq<char>>,
        feedback: Seq<Seq<char>>,
        round: u32,
        excluded: Set<Seq<char>>,
        quality_floor: Binary64,
        upgrade: Option<UpgradeRequirementModel>,
    },
    Record { record: EvaluationRecordModel },
    Checkpoint { value: JsonModel },
    Emit { node: Seq<char>, data: JsonModel },
    ReadLedger,
    Finish { result: TaskResultModel },
    Fail { error: EngineErrorModel },
    Wait,
}

impl DeepView for ExecutionAction {
    type V = ExecutionActionModel;

    open spec fn deep_view(&self) -> ExecutionActionModel {
        match self {
            ExecutionAction::Invoke { role, prior, feedback, round, excluded, quality_floor, upgrade } => ExecutionActionModel::Invoke {
                role: role.deep_view(),
                prior: prior.deep_view(),
                feedback: feedback.deep_view(),
                round: round.deep_view(),
                excluded: excluded.deep_view(),
                quality_floor: quality_floor.deep_view(),
                upgrade: upgrade.deep_view(),
            },
            ExecutionAction::Record { record } => ExecutionActionModel::Record {
                record: record.deep_view(),
            },
            ExecutionAction::Checkpoint { value } => ExecutionActionModel::Checkpoint {
                value: value.deep_view(),
            },
            ExecutionAction::Emit { node, data } => ExecutionActionModel::Emit {
                node: node.deep_view(),
                data: data.deep_view(),
            },
            ExecutionAction::ReadLedger => ExecutionActionModel::ReadLedger,
            ExecutionAction::Finish { result } => ExecutionActionModel::Finish {
                result: result.deep_view(),
            },
            ExecutionAction::Fail { error } => ExecutionActionModel::Fail {
                error: error.deep_view(),
            },
            ExecutionAction::Wait => ExecutionActionModel::Wait,
        }
    }
}

/// The execution of a task.
pub struct Execution {
    task: TaskSpec,
    phase: ExecutionPhase,
}

/// The state of the execution of a task.
#[verifier::ext_equal]
pub ghost struct ExecutionModel {
    pub task: TaskSpecModel,
    pub phase: ExecutionPhaseModel,
}

impl DeepView for Execution {
    type V = ExecutionModel;

    closed spec fn deep_view(&self) -> ExecutionModel {
        ExecutionModel { task: self.task.deep_view(), phase: self.phase.deep_view() }
    }
}

/// The call of the node that makes candidates.
pub open spec fn work_call(task: TaskSpecModel, rounds: RoundsModel) -> ExecutionActionModel {
    ExecutionActionModel::Invoke {
        role: work_node(task.strategy),
        prior: rounds.prior(),
        feedback: rounds.feedback,
        round: rounds.round,
        excluded: rounds.excluded,
        quality_floor: rounds.quality_floor,
        upgrade: rounds.upgrade,
    }
}

/// The call of the critic.
pub open spec fn critic_call(
    task: TaskSpecModel,
    rounds: RoundsModel,
    candidate: CandidateModel,
) -> ExecutionActionModel {
    ExecutionActionModel::Invoke {
        role: "critic"@,
        prior: Some(candidate.artifact.text),
        feedback: Seq::empty(),
        round: rounds.round,
        excluded: if task.constraints.different_critic {
            set![candidate.model]
        } else {
            Set::empty()
        },
        quality_floor: number(ZERO),
        upgrade: None,
    }
}

/// What is saved after an evaluation.
pub open spec fn saved_evaluation(
    round: u32,
    artifact: ArtifactModel,
    evaluation: EvaluationModel,
) -> JsonModel {
    empty_object().with("version"@, count_model(1)).with(
        "round"@,
        count_model(round as u64),
    ).with("artifact"@, Artifact::json_of(artifact)).with(
        "evaluation"@,
        Evaluation::json_of(evaluation),
    )
}

/// What the event of an evaluation tells.
pub open spec fn told_evaluation(round: u32, evaluation: EvaluationModel) -> JsonModel {
    empty_object().with("round"@, count_model(round as u64)).with(
        "status"@,
        EvaluationStatus::json_of(evaluation.status),
    ).with("defect_count"@, count_model(evaluation.defects.len() as u64))
}

impl ExecutionModel {
    pub open spec fn to(self, phase: ExecutionPhaseModel, action: ExecutionActionModel) -> (
        ExecutionModel,
        ExecutionActionModel,
    ) {
        (ExecutionModel { phase, ..self }, action)
    }

    /// The end of the task with an error.
    pub open spec fn fails(self, error: EngineErrorModel) -> (
        ExecutionModel,
        ExecutionActionModel,
    ) {
        self.to(ExecutionPhaseModel::Over, ExecutionActionModel::Fail { error })
    }

    /// The end of the task with an artifact: the ledger is read for its result.
    pub open spec fn closes(self, completed: bool, artifact: ArtifactModel) -> (
        ExecutionModel,
        ExecutionActionModel,
    ) {
        self.to(
            ExecutionPhaseModel::Closing { completed, artifact },
            ExecutionActionModel::ReadLedger,
        )
    }

    /// A candidate is checked, and what was found is recorded.
    pub open spec fn records(
        self,
        rounds: RoundsModel,
        artifact: ArtifactModel,
        model: Seq<char>,
        quality: Binary64,
        raised: Binary64,
    ) -> (ExecutionModel, ExecutionActionModel) {
        let checks = verdict_of(
            artifact.text,
            self.task.acceptance,
            reads_as_object(artifact.text),
        );
        self.to(
            ExecutionPhaseModel::Recording {
                rounds,
                candidate: CandidateModel { artifact, checks, model, quality, raised },
            },
            ExecutionActionModel::Record {
                record: EvaluationRecordModel {
                    task_id: self.task.task_id,
                    artifact,
                    deterministic: checks,
                    critic: None,
                },
            },
        )
    }

    /// The evaluation that decides is saved.
    pub open spec fn saves(
        self,
        rounds: RoundsModel,
        candidate: CandidateModel,
        evaluation: EvaluationModel,
    ) -> (ExecutionModel, ExecutionActionModel) {
        self.to(
            ExecutionPhaseModel::Saving { rounds, candidate, evaluation },
            ExecutionActionModel::Checkpoint {
                value: saved_evaluation(rounds.round, candidate.artifact, evaluation),
            },
        )
    }

    /// What follows an evaluation: the task ends, or another round begins.
    pub open spec fn goes_on(
        self,
        rounds: RoundsModel,
        candidate: CandidateModel,
        evaluation: EvaluationModel,
    ) -> (ExecutionModel, ExecutionActionModel) {
        match rounds.judged(
            self.task,
            candidate.artifact,
            evaluation,
            candidate.model,
            candidate.quality,
            candidate.raised,
        ) {
            RoundEndModel::Completed(artifact) => self.closes(true, artifact),
            RoundEndModel::HumanRequired(artifact) => self.closes(false, artifact),
            RoundEndModel::Again(next) => self.to(
                ExecutionPhaseModel::Working { rounds: next },
                work_call(self.task, next),
            ),
        }
    }

    /// The state after an event, and what to do.
    pub open spec fn after(self, event: ExecutionEventModel) -> (
        ExecutionModel,
        ExecutionActionModel,
    ) {
        match (self.phase, event) {
            (ExecutionPhaseModel::Over, _) => (self, ExecutionActionModel::Wait),
            (_, ExecutionEventModel::Broken { error }) => self.fails(error),
            (ExecutionPhaseModel::Ready { rounds }, ExecutionEventModel::Done) => self.to(
                ExecutionPhaseModel::Working { rounds },
                work_call(self.task, rounds),
            ),
            (
                ExecutionPhaseModel::Working { rounds },
                ExecutionEventModel::Produced {
                    artifact_id,
                    attempt,
                    text,
                    model,
                    quality,
                    raised,
                },
            ) => self.records(
                rounds,
                rounds.made(artifact_id, attempt, text),
                model,
                quality,
                raised,
            ),
            (
                ExecutionPhaseModel::Working { rounds },
                ExecutionEventModel::Refused { error, required, requirement },
            ) => if rounds.stops(self.task, error) {
                self.to(
                    ExecutionPhaseModel::Stopping { artifact: rounds.artifact->0 },
                    ExecutionActionModel::Checkpoint {
                        value: rounds.stop_checkpoint(error, required, requirement),
                    },
                )
            } else {
                self.fails(error)
            },
            (ExecutionPhaseModel::Stopping { artifact }, ExecutionEventModel::Done) => self.closes(
                false,
                artifact,
            ),
            (
                ExecutionPhaseModel::Recording { rounds, candidate },
                ExecutionEventModel::Done,
            ) => if critic_due(self.task.strategy, candidate.checks) {
                self.to(
                    ExecutionPhaseModel::Criticizing { rounds, candidate },
                    critic_call(self.task, rounds, candidate),
                )
            } else {
                self.saves(rounds, candidate, candidate.checks)
            },
            (
                ExecutionPhaseModel::Criticizing { rounds, candidate },
                ExecutionEventModel::Judged { attempt, evaluation },
            ) => match critic_fault(evaluation) {
                Some(e) => self.fails(e),
                None => {
                    let verdict = CriticVerdictModel {
                        attempt_id: attempt,
                        evaluation: evaluation->0,
                    };
                    self.to(
                        ExecutionPhaseModel::Judging { rounds, candidate, verdict },
                        ExecutionActionModel::Record {
                            record: EvaluationRecordModel {
                                task_id: self.task.task_id,
                                artifact: candidate.artifact,
                                deterministic: candidate.checks,
                                critic: Some(verdict),
                            },
                        },
                    )
                },
            },
            (
                ExecutionPhaseModel::Criticizing { .. },
                ExecutionEventModel::Refused { error, .. },
            ) => self.fails(error),
            (
                ExecutionPhaseModel::Judging { rounds, candidate, verdict },
                ExecutionEventModel::Done,
            ) => self.saves(rounds, candidate, verdict.evaluation),
            (
                ExecutionPhaseModel::Saving { rounds, candidate, evaluation },
                ExecutionEventModel::Done,
            ) => self.to(
                ExecutionPhaseModel::Reporting { rounds, candidate, evaluation },
                ExecutionActionModel::Emit {
                    node: work_node(self.task.strategy),
                    data: told_evaluation(rounds.round, evaluation),
                },
            ),
            (
                ExecutionPhaseModel::Reporting { rounds, candidate, evaluation },
                ExecutionEventModel::Done,
            ) => self.goes_on(rounds, candidate, evaluation),
            (
                ExecutionPhaseModel::Closing { completed, artifact },
                ExecutionEventModel::Read { ledger },
            ) => self.to(
                ExecutionPhaseModel::Over,
                ExecutionActionModel::Finish {
                    result: TaskResultModel {
                        task_id: self.task.task_id,
                        status: if completed {
                            "completed"@
                        } else {
                            "human_required"@
                        },
                        artifact,
                        settled_cost: ledger.settled,
                        reserved_cost: ledger.reserved,
                    },
                },
            ),
            _ => (self, ExecutionActionModel::Wait),
        }
    }
}

fn invoke_work(task: &TaskSpec, rounds: &Rounds) -> (r: ExecutionAction)
    ensures
        r.deep_view() == work_call(task.deep_view(), rounds.deep_view()),
{
    let prior: Option<String> = match &rounds.artifact {
        Some(a) => Some(a.text.clone()),
        None => None,
    };
    ExecutionAction::Invoke {
        role: node_of(task.strategy).to_owned(),
        prior,
        feedback: rounds.feedback.duplicate(),
        round: rounds.round,
        excluded: rounds.excluded.duplicate(),
        quality_floor: rounds.quality_floor,
        upgrade: rounds.upgrade.duplicate(),
    }
}

fn invoke_critic(task: &TaskSpec, rounds: &Rounds, candidate: &Candidate) -> (r: ExecutionAction)
    ensures
        r.deep_view() == critic_call(task.deep_view(), rounds.deep_view(), candidate.deep_view()),
{
    let feedback: Vec<String> = Vec::new();
    assert(feedback.deep_view() =~= Seq::empty());
    ExecutionAction::Invoke {
        role: "critic".to_owned(),
        prior: Some(candidate.artifact.text.clone()),
        feedback,
        round: rounds.round,
        excluded: critic_excluded(task, candidate.model.as_str()),
        quality_floor: number(ZERO),
        upgrade: None,
    }
}

impl Execution {
    /// The execution of a task that has not begun.
    pub fn new(task: &TaskSpec) -> (r: Self)
        requires
            task.max_rounds >= 1,
        ensures
            r.deep_view() == (ExecutionModel {
                task: task.deep_view(),
                phase: ExecutionPhaseModel::Ready { rounds: RoundsModel::first(task.deep_view()) },
            }),
    {
        Execution {
            task: task.duplicate(),
            phase: ExecutionPhase::Ready { rounds: Rounds::new(task) },
        }
    }

    fn go(task: TaskSpec, phase: ExecutionPhase, action: ExecutionAction) -> (r: (
        Execution,
        ExecutionAction,
    ))
        ensures
            r.0.deep_view() == (ExecutionModel {
                task: task.deep_view(),
                phase: phase.deep_view(),
            }),
            r.1 == action,
    {
        (Execution { task, phase }, action)
    }

    fn fail(task: TaskSpec, error: EngineError) -> (r: (Execution, ExecutionAction))
        ensures
            r.0.deep_view() == (ExecutionModel {
                task: task.deep_view(),
                phase: ExecutionPhaseModel::Over,
            }),
            r.1.deep_view() == (ExecutionActionModel::Fail { error: error.deep_view() }),
    {
        Execution::go(task, ExecutionPhase::Over, ExecutionAction::Fail { error })
    }

    /// Takes what happened, and tells what to do next.
    pub fn step(self, event: ExecutionEvent) -> (r: (Execution, ExecutionAction))
        ensures
            (r.0.deep_view(), r.1.deep_view()) == self.deep_view().after(event.deep_view()),
    {
        let task: TaskSpec = self.task;
        match (self.phase, event) {
            (ExecutionPhase::Over, _) => Execution::go(
                task,
                ExecutionPhase::Over,
                ExecutionAction::Wait,
            ),
            (_, ExecutionEvent::Broken { error }) => Execution::fail(task, error),
            (ExecutionPhase::Ready { rounds }, ExecutionEvent::Done) => {
                let action: ExecutionAction = invoke_work(&task, &rounds);
                Execution::go(task, ExecutionPhase::Working { rounds }, action)
            },
            (
                ExecutionPhase::Working { rounds },
                ExecutionEvent::Produced { artifact_id, attempt, text, model, quality, raised },
            ) => {
                let checks: Evaluation = evaluate(text.as_str(), &task.acceptance);
                let artifact: Artifact = rounds.make(
                    artifact_id.as_str(),
                    attempt.as_str(),
                    text,
                );
                let record: EvaluationRecord = evaluation_record(&task, &artifact, &checks, None);
                let candidate = Candidate { artifact, checks, model, quality, raised };
                Execution::go(
                    task,
                    ExecutionPhase::Recording { rounds, candidate },
                    ExecutionAction::Record { record },
                )
            },
            (
                ExecutionPhase::Working { rounds },
                ExecutionEvent::Refused { error, required, requirement },
            ) => match rounds.stop(&task, &error, required, requirement) {
                None => Execution::fail(task, error),
                Some(value) => match rounds.artifact {
                    Some(artifact) => Execution::go(
                        task,
                        ExecutionPhase::Stopping { artifact },
                        ExecutionAction::Checkpoint { value },
                    ),
                    None => Execution::fail(task, error),
                },
            },
            (ExecutionPhase::Stopping { artifact }, ExecutionEvent::Done) => Execution::go(
                task,
                ExecutionPhase::Closing { completed: false, artifact },
                ExecutionAction::ReadLedger,
            ),
            (ExecutionPhase::Recording { rounds, candidate }, ExecutionEvent::Done) => {
                if needs_critic(&task, &candidate.checks) {
                    let action: ExecutionAction = invoke_critic(&task, &rounds, &candidate);
                    Execution::go(task, ExecutionPhase::Criticizing { rounds, candidate }, action)
                } else {
                    let evaluation: Evaluation = candidate.checks.duplicate();
                    let value: Json = evaluation_checkpoint(
                        rounds.round,
                        &candidate.artifact,
                        &evaluation,
                    );
                    Execution::go(
                        task,
                        ExecutionPhase::Saving { rounds, candidate, evaluation },
                        ExecutionAction::Checkpoint { value },
                    )
                }
            },
            (
                ExecutionPhase::Criticizing { rounds, candidate },
                ExecutionEvent::Judged { attempt, evaluation },
            ) => match critic_verdict(attempt.as_str(), evaluation) {
                Err(e) => Execution::fail(task, e),
                Ok(verdict) => {
                    let record: EvaluationRecord = evaluation_record(
                        &task,
                        &candidate.artifact,
                        &candidate.checks,
                        Some(verdict.duplicate()),
                    );
                    Execution::go(
                        task,
                        ExecutionPhase::Judging { rounds, candidate, verdict },
                        ExecutionAction::Record { record },
                    )
                },
            },
            (ExecutionPhase::Criticizing { .. }, ExecutionEvent::Refused { error, .. }) => {
                Execution::fail(task, error)
            },
            (ExecutionPhase::Judging { rounds, candidate, verdict }, ExecutionEvent::Done) => {
                let evaluation: Evaluation = verdict.evaluation;
                let value: Json = evaluation_checkpoint(
                    rounds.round,
                    &candidate.artifact,
                    &evaluation,
                );
                Execution::go(
                    task,
                    ExecutionPhase::Saving { rounds, candidate, evaluation },
                    ExecutionAction::Checkpoint { value },
                )
            },
            (ExecutionPhase::Saving { rounds, candidate, evaluation }, ExecutionEvent::Done) => {
                let data: Json = evaluation_event(rounds.round, &evaluation);
                let node: String = node_of(task.strategy).to_owned();
                Execution::go(
                    task,
                    ExecutionPhase::Reporting { rounds, candidate, evaluation },
                    ExecutionAction::Emit { node, data },
                )
            },
            (
                ExecutionPhase::Reporting { rounds, candidate, evaluation },
                ExecutionEvent::Done,
            ) => match rounds.judge(
                &task,
                candidate.artifact,
                evaluation,
                candidate.model.as_str(),
                candidate.quality,
                candidate.raised,
            ) {
                RoundEnd::Completed(artifact) => Execution::go(
                    task,
                    ExecutionPhase::Closing { completed: true, artifact },
                    ExecutionAction::ReadLedger,
                ),
                RoundEnd::HumanRequired(artifact) => Execution::go(
                    task,
                    ExecutionPhase::Closing { completed: false, artifact },
                    ExecutionAction::ReadLedger,
                ),
                RoundEnd::Again(next) => {
                    let action: ExecutionAction = invoke_work(&task, &next);
                    Execution::go(task, ExecutionPhase::Working { rounds: next }, action)
                },
            },
            (
                ExecutionPhase::Closing { completed, artifact },
                ExecutionEvent::Read { ledger },
            ) => {
                let status: &str = if completed {
                    "completed"
                } else {
                    "human_required"
                };
                let result: TaskResult = task_result(&task, status, artifact, &ledger);
                Execution::go(task, ExecutionPhase::Over, ExecutionAction::Finish { result })
            },
            (phase, _) => Execution::go(task, phase, ExecutionAction::Wait),
        }
    }
}

impl ExecutionModel {
    /// The state after the first `n` events.
    pub open spec fn state_after(self, events: Seq<ExecutionEventModel>, n: nat) -> ExecutionModel
        decreases n,
    {
        if n == 0 {
            self
        } else {
            self.state_after(events, (n - 1) as nat).after(events[n - 1]).0
        }
    }

    /// What is done after the event with number `i`.
    pub open spec fn action_at(self, events: Seq<ExecutionEventModel>, i: nat) ->
        ExecutionActionModel {
        self.state_after(events, i).after(events[i as int]).1
    }

    /// How many of the first `n` actions make candidates.
    pub open spec fn works(self, events: Seq<ExecutionEventModel>, n: nat) -> nat
        decreases n,
    {
        if n == 0 {
            0
        } else {
            let before = self.works(events, (n - 1) as nat);
            if makes_candidate(self.action_at(events, (n - 1) as nat)) {
                before + 1
            } else {
                before
            }
        }
    }
}

/// An action runs a node that makes candidates.
pub open spec fn makes_candidate(action: ExecutionActionModel) -> bool {
    action matches ExecutionActionModel::Invoke { role, .. } && role != "critic"@
}

/// The rounds that a phase holds.
spec fn rounds_in(phase: ExecutionPhaseModel) -> Option<RoundsModel> {
    match phase {
        ExecutionPhaseModel::Ready { rounds } => Some(rounds),
        ExecutionPhaseModel::Working { rounds } => Some(rounds),
        ExecutionPhaseModel::Recording { rounds, .. } => Some(rounds),
        ExecutionPhaseModel::Criticizing { rounds, .. } => Some(rounds),
        ExecutionPhaseModel::Judging { rounds, .. } => Some(rounds),
        ExecutionPhaseModel::Saving { rounds, .. } => Some(rounds),
        ExecutionPhaseModel::Reporting { rounds, .. } => Some(rounds),
        _ => None,
    }
}

spec fn bounded(state: ExecutionModel, works: nat) -> bool {
    &&& works <= state.task.max_rounds
    &&& match rounds_in(state.phase) {
        Some(rounds) => {
            &&& 1 <= rounds.round <= state.task.max_rounds
            &&& works == (if state.phase is Ready {
                rounds.round - 1
            } else {
                rounds.round as int
            })
        },
        None => true,
    }
}

proof fn lemma_roles()
    ensures
        "critic"@ != "generator"@,
        "critic"@ != "invoke"@,
{
    reveal_strlit("critic");
    reveal_strlit("generator");
    reveal_strlit("invoke");
    assert("critic"@.len() == 6 && "generator"@.len() == 9);
    assert("critic"@[0] != "invoke"@[0]);
}

proof fn lemma_step_bounded(state: ExecutionModel, event: ExecutionEventModel, works: nat)
    requires
        bounded(state, works),
        state.task.max_rounds >= 1,
    ensures
        bounded(
            state.after(event).0,
            if makes_candidate(state.after(event).1) {
                works + 1
            } else {
                works
            },
        ),
        state.after(event).0.task == state.task,
{
    lemma_roles();
}

proof fn lemma_bounded(start: ExecutionModel, events: Seq<ExecutionEventModel>, n: nat)
    requires
        start.task.max_rounds >= 1,
        start.phase == (ExecutionPhaseModel::Ready { rounds: RoundsModel::first(start.task) }),
    ensures
        bounded(start.state_after(events, n), start.works(events, n)),
        start.state_after(events, n).task == start.task,
    decreases n,
{
    if n > 0 {
        let k = (n - 1) as nat;
        lemma_bounded(start, events, k);
        lemma_step_bounded(
            start.state_after(events, k),
            events[n - 1],
            start.works(events, k),
        );
    }
}

/// A task is bounded, whatever happens: at most `max_rounds` times a model is asked for a
/// candidate.
pub proof fn lemma_task_bounded(start: ExecutionModel, events: Seq<ExecutionEventModel>, n: nat)
    requires
        start.task.max_rounds >= 1,
        start.phase == (ExecutionPhaseModel::Ready { rounds: RoundsModel::first(start.task) }),
    ensures
        start.works(events, n) <= start.task.max_rounds,
{
    lemma_bounded(start, events, n);
}

/// A text meets the deterministic conditions of acceptance.
pub open spec fn accepted(text: Seq<char>, acceptance: AcceptanceModel) -> bool {
    &&& acceptance.nonempty ==> !blank(text)
    &&& forall|i: int|
        0 <= i < acceptance.required_substrings.len() ==> has_part(
            text,
            #[trigger] acceptance.required_substrings[i],
        )
    &&& acceptance.json_object ==> reads_as_object(text)
}

/// What was found of a candidate is what its text gives, and a decision to accept rests on it.
spec fn founded(state: ExecutionModel) -> bool {
    let found = |c: CandidateModel|
        c.checks == verdict_of(
            c.artifact.text,
            state.task.acceptance,
            reads_as_object(c.artifact.text),
        );
    match state.phase {
        ExecutionPhaseModel::Recording { candidate, .. } => found(candidate),
        ExecutionPhaseModel::Criticizing { candidate, .. } => found(candidate)
            && candidate.checks.status == EvaluationStatus::Pass,
        ExecutionPhaseModel::Judging { candidate, .. } => found(candidate)
            && candidate.checks.status == EvaluationStatus::Pass,
        ExecutionPhaseModel::Saving { candidate, evaluation, .. } => found(candidate) && (
        evaluation.status == EvaluationStatus::Pass ==> candidate.checks.status
            == EvaluationStatus::Pass),
        ExecutionPhaseModel::Reporting { candidate, evaluation, .. } => found(candidate) && (
        evaluation.status == EvaluationStatus::Pass ==> candidate.checks.status
            == EvaluationStatus::Pass),
        ExecutionPhaseModel::Closing { completed, artifact } => completed ==> accepted(
            artifact.text,
            state.task.acceptance,
        ),
        _ => true,
    }
}

proof fn lemma_founded(start: ExecutionModel, events: Seq<ExecutionEventModel>, n: nat)
    requires
        start.phase is Ready,
    ensures
        founded(start.state_after(events, n)),
        start.state_after(events, n).task == start.task,
    decreases n,
{
    if n > 0 {
        let k = (n - 1) as nat;
        lemma_founded(start, events, k);
        let state = start.state_after(events, k);
        match state.phase {
            ExecutionPhaseModel::Reporting { candidate, .. } => {
                let text = candidate.artifact.text;
                lemma_pass_means_accepted(text, start.task.acceptance, reads_as_object(text));
            },
            _ => {},
        }
    }
}

/// Completion means acceptance, whatever happens: a task whose result says `completed` has an
/// artifact that meets the deterministic conditions of its acceptance.
pub proof fn lemma_completed_means_accepted(
    start: ExecutionModel,
    events: Seq<ExecutionEventModel>,
    n: nat,
)
    requires
        start.phase is Ready,
    ensures
        start.action_at(events, n) matches ExecutionActionModel::Finish { result } ==> (
        result.status == "completed"@ ==> accepted(result.artifact.text, start.task.acceptance)),
{
    lemma_founded(start, events, n);
    reveal_strlit("completed");
    reveal_strlit("human_required");
    assert("completed"@.len() != "human_required"@.len());
}

/// A candidate that a model made: the model, its quality, and that quality with the least gain of
/// an upgrade added.
pub ghost struct Made {
    pub model: Seq<char>,
    pub quality: Binary64,
    pub raised: Binary64,
}

impl ExecutionModel {
    /// The candidates that were made within the first `n` events, in order.
    pub open spec fn made(self, events: Seq<ExecutionEventModel>, n: nat) -> Seq<Made>
        decreases n,
    {
        if n == 0 {
            Seq::empty()
        } else {
            let k = (n - 1) as nat;
            match (self.state_after(events, k).phase, events[k as int]) {
                (
                    ExecutionPhaseModel::Working { .. },
                    ExecutionEventModel::Produced { model, quality, raised, .. },
                ) => self.made(events, k).push(Made { model, quality, raised }),
                _ => self.made(events, k),
            }
        }
    }
}

/// Of a cascade: what the next call asks for, after the candidates made so far.
pub open spec fn upgrades(
    task: TaskSpecModel,
    made: Seq<Made>,
    excluded: Set<Seq<char>>,
    quality_floor: Binary64,
    upgrade: Option<UpgradeRequirementModel>,
) -> bool {
    &&& forall|i: int| 0 <= i < made.len() ==> excluded.contains(#[trigger] made[i].model)
    &&& quality_floor == (if made.len() == 0 {
        task.selection.min_quality
    } else {
        made.last().raised
    })
    &&& upgrade == (if made.len() == 0 {
        None
    } else {
        Some(
            UpgradeRequirementModel {
                previous_quality: made.last().quality,
                required_quality: made.last().raised,
            },
        )
    })
}

/// The candidate is the last that was made, and the models of the others are excluded.
spec fn latest(made: Seq<Made>, rounds: RoundsModel, candidate: CandidateModel) -> bool {
    &&& made.len() > 0
    &&& made.last() == (Made {
        model: candidate.model,
        quality: candidate.quality,
        raised: candidate.raised,
    })
    &&& forall|i: int|
        0 <= i < made.len() - 1 ==> rounds.excluded.contains(#[trigger] made[i].model)
}

spec fn climbing(state: ExecutionModel, made: Seq<Made>) -> bool {
    let asks = |r: RoundsModel|
        upgrades(state.task, made, r.excluded, r.quality_floor, r.upgrade);
    match state.phase {
        ExecutionPhaseModel::Ready { rounds } => asks(rounds),
        ExecutionPhaseModel::Working { rounds } => asks(rounds),
        ExecutionPhaseModel::Recording { rounds, candidate } => latest(made, rounds, candidate),
        ExecutionPhaseModel::Saving { rounds, candidate, .. } => latest(made, rounds, candidate),
        ExecutionPhaseModel::Reporting { rounds, candidate, .. } => latest(made, rounds, candidate),
        ExecutionPhaseModel::Criticizing { .. } => false,
        ExecutionPhaseModel::Judging { .. } => false,
        _ => true,
    }
}

proof fn lemma_climbing(start: ExecutionModel, events: Seq<ExecutionEventModel>, n: nat)
    requires
        start.task.strategy == Strategy::Cascade,
        start.phase == (ExecutionPhaseModel::Ready { rounds: RoundsModel::first(start.task) }),
    ensures
        climbing(start.state_after(events, n), start.made(events, n)),
        start.state_after(events, n).task == start.task,
    decreases n,
{
    if n > 0 {
        let k = (n - 1) as nat;
        lemma_climbing(start, events, k);
        let made = start.made(events, k);
        match (start.state_after(events, k).phase, events[k as int]) {
            (
                ExecutionPhaseModel::Working { .. },
                ExecutionEventModel::Produced { model, quality, raised, .. },
            ) => {
                let more = made.push(Made { model, quality, raised });
                assert forall|i: int| 0 <= i < more.len() - 1 implies more[i] == made[i] by {}
            },
            _ => {},
        }
    }
}

/// A cascade only goes upwards, whatever happens: a model that made a candidate is not asked
/// again, and each call after the first asks for the quality of the candidate before it with the
/// least gain added.
pub proof fn lemma_cascade_goes_up(start: ExecutionModel, events: Seq<ExecutionEventModel>, n: nat)
    requires
        start.task.strategy == Strategy::Cascade,
        start.phase == (ExecutionPhaseModel::Ready { rounds: RoundsModel::first(start.task) }),
    ensures
        start.action_at(events, n) matches ExecutionActionModel::Invoke {
            excluded,
            quality_floor,
            upgrade,
            ..
        } ==> upgrades(
            start.task,
            start.made(events, n),
            excluded,
            quality_floor,
            upgrade,
        ),
{
    lemma_climbing(start, events, n);
    lemma_climbing(start, events, n + 1);
}

/// A cascade that finds no further candidate keeps what it has: where routing refuses and an
/// artifact is there, that artifact is the task's result, for a human to judge.
pub proof fn lemma_cascade_keeps_artifact(
    state: ExecutionModel,
    error: EngineErrorModel,
    required: JsonModel,
    requirement: JsonModel,
    ledger: LedgerModel,
)
    requires
        state.phase matches ExecutionPhaseModel::Working { rounds } && rounds.stops(
            state.task,
            error,
        ),
    ensures
        ({
            let refusal = ExecutionEventModel::Refused { error, required, requirement };
            let stopped = state.after(refusal).0;
            let closed = stopped.after(ExecutionEventModel::Done).0;
            closed.after(ExecutionEventModel::Read { ledger }).1 == (ExecutionActionModel::Finish {
                result: TaskResultModel {
                    task_id: state.task.task_id,
                    status: "human_required"@,
                    artifact: state.phase->Working_rounds.artifact->0,
                    settled_cost: ledger.settled,
                    reserved_cost: ledger.reserved,
                },
            })
        }),
{
}

} // verus!
