//! What each step of a task's rounds does with what happened.
use super::{
    critic_call, saved_evaluation, told_evaluation, work_call, CandidateModel, ExecutionEventModel,
    ExecutionModel,
};
use crate::binary64::number;
use crate::contracts::encoding::{option_of, Encode};
use crate::contracts::task::{
    Artifact, ArtifactModel, Evaluation, EvaluationModel, EvaluationStatus, Strategy,
    TaskSpecModel,
};
use crate::engine::execution::RoundsModel;
use crate::fault::EngineErrorModel;
use crate::json::{JsonModel, NumberModel};
use crate::store::LedgerModel;
use vstd::prelude::*;

verus! {

/// A candidate is asked of the node that makes them, with everything that the round goes on.
pub proof fn lemma_call_for_a_candidate(task: TaskSpecModel, rounds: RoundsModel)
    ensures
        ({
            let call = work_call(task, rounds);
            &&& call is Invoke
            &&& task.strategy == Strategy::GeneratorCritic ==> call->Invoke_role == "generator"@
            &&& task.strategy != Strategy::GeneratorCritic ==> call->Invoke_role == "invoke"@
            &&& rounds.artifact is Some ==> call->Invoke_prior == Some(rounds.artifact->0.text)
            &&& rounds.artifact is None ==> call->Invoke_prior is None
            &&& call->Invoke_feedback == rounds.feedback
            &&& call->Invoke_round == rounds.round
            &&& call->Invoke_excluded == rounds.excluded
            &&& call->Invoke_quality_floor == rounds.quality_floor
            &&& call->Invoke_upgrade == rounds.upgrade
        }),
{
}

/// The critic is shown the candidate and nothing else. Where another model has to judge, the one
/// that made the candidate is barred, and it alone.
pub proof fn lemma_call_for_a_verdict(
    task: TaskSpecModel,
    rounds: RoundsModel,
    candidate: CandidateModel,
)
    ensures
        ({
            let call = critic_call(task, rounds, candidate);
            &&& call is Invoke && call->Invoke_role == "critic"@
            &&& call->Invoke_prior == Some(candidate.artifact.text)
            &&& call->Invoke_feedback.len() == 0
            &&& call->Invoke_round == rounds.round
            &&& forall|m: Seq<char>|
                call->Invoke_excluded.contains(m) <==> task.constraints.different_critic && m
                    == candidate.model
            &&& call->Invoke_quality_floor == number(0)
            &&& call->Invoke_upgrade is None
        }),
{
}

/// What is saved and told of an evaluation: the round and the artifact with the evaluation, and the
/// round with the status and how many defects there are.
pub proof fn lemma_what_is_told_of_an_evaluation(
    round: u32,
    artifact: ArtifactModel,
    evaluation: EvaluationModel,
)
    ensures
        ({
            let saved = saved_evaluation(round, artifact, evaluation);
            let told = told_evaluation(round, evaluation);
            &&& saved.at("round"@) == JsonModel::Number(NumberModel::PosInt(round as u64))
            &&& saved.at("artifact"@) == Artifact::json_of(artifact)
            &&& saved.at("evaluation"@) == Evaluation::json_of(evaluation)
            &&& told.at("round"@) == JsonModel::Number(NumberModel::PosInt(round as u64))
            &&& told.at("status"@) == EvaluationStatus::json_of(evaluation.status)
            &&& told.at("defect_count"@) == JsonModel::Number(
                NumberModel::PosInt(evaluation.defects.len() as u64),
            )
        }),
{
    lemma_saved_names();
}

/// A cascade that goes no further saves its round, the artifact that it has, and why it stopped.
pub proof fn lemma_what_is_told_of_a_stop(
    rounds: RoundsModel,
    error: EngineErrorModel,
    required: JsonModel,
    requirement: JsonModel,
)
    ensures
        ({
            let saved = rounds.stop_checkpoint(error, required, requirement);
            let stop = saved.at("upgrade_stop"@);
            &&& saved.at("round"@) == JsonModel::Number(NumberModel::PosInt(rounds.round as u64))
            &&& saved.at("artifact"@) == option_of::<Artifact>(rounds.artifact)
            &&& stop.at("reason"@) == JsonModel::Text(
                crate::engine::execution::stop_reason(error.details.at("excluded"@)),
            )
            &&& stop.at("required_quality"@) == required
            &&& stop.at("requirement"@) == requirement
            &&& stop.at("excluded"@) == error.details.at("excluded"@)
        }),
{
    lemma_saved_names();
    lemma_stop_names();
}

/// A task that ends tells its artifact, whether it is completed or waits for a human, and what the
/// ledger says was spent and is set aside.
pub proof fn lemma_result_of_a_task(state: ExecutionModel, ledger: LedgerModel)
    requires
        state.phase is Closing,
    ensures
        ({
            let (next, action) = state.after(ExecutionEventModel::Read { ledger });
            let result = action->Finish_result;
            &&& action is Finish && next.phase is Over
            &&& result.task_id == state.task.task_id
            &&& result.artifact == state.phase->Closing_artifact
            &&& state.phase->Closing_completed ==> result.status == "completed"@
            &&& !state.phase->Closing_completed ==> result.status == "human_required"@
            &&& result.settled_cost == ledger.settled
            &&& result.reserved_cost == ledger.reserved
        }),
{
}

/// A refusal of a candidate ends the task with its error, unless a cascade keeps what it has; a
/// refusal of a verdict always does.
pub proof fn lemma_refusal_ends_the_task(
    state: ExecutionModel,
    error: EngineErrorModel,
    required: JsonModel,
    requirement: JsonModel,
)
    ensures
        ({
            let (next, action) = state.after(
                ExecutionEventModel::Refused { error, required, requirement },
            );
            let kept = state.phase is Working && state.task.strategy == Strategy::Cascade
                && state.phase->Working_rounds.artifact is Some && error.kind == "routing"@
                && error.details.at("category"@) == JsonModel::Text("no_candidate"@);
            &&& (state.phase is Working || state.phase is Criticizing) && !kept ==> action is Fail
                && action->Fail_error == error && next.phase is Over
            &&& kept ==> action is Checkpoint && next.phase is Stopping
                && next.phase->Stopping_artifact == state.phase->Working_rounds.artifact->0
        }),
{
}

proof fn lemma_saved_names()
    ensures
        "version"@ != "round"@,
        "version"@ != "artifact"@,
        "version"@ != "evaluation"@,
        "version"@ != "status"@,
        "version"@ != "defect_count"@,
        "version"@ != "upgrade_stop"@,
        "round"@ != "artifact"@,
        "round"@ != "evaluation"@,
        "round"@ != "status"@,
        "round"@ != "defect_count"@,
        "round"@ != "upgrade_stop"@,
        "artifact"@ != "evaluation"@,
        "artifact"@ != "status"@,
        "artifact"@ != "defect_count"@,
        "artifact"@ != "upgrade_stop"@,
        "evaluation"@ != "status"@,
        "evaluation"@ != "defect_count"@,
        "evaluation"@ != "upgrade_stop"@,
        "status"@ != "defect_count"@,
        "status"@ != "upgrade_stop"@,
        "defect_count"@ != "upgrade_stop"@,
{
    reveal_strlit("version");
    reveal_strlit("round");
    reveal_strlit("artifact");
    reveal_strlit("evaluation");
    reveal_strlit("status");
    reveal_strlit("defect_count");
    reveal_strlit("upgrade_stop");
    assert("version"@.len() == 7);
    assert("round"@.len() == 5);
    assert("artifact"@.len() == 8);
    assert("evaluation"@.len() == 10);
    assert("status"@.len() == 6);
    assert("defect_count"@.len() == 12);
    assert("upgrade_stop"@.len() == 12);
    assert("defect_count"@[0] != "upgrade_stop"@[0]);
}

proof fn lemma_stop_names()
    ensures
        "reason"@ != "required_quality"@,
        "reason"@ != "requirement"@,
        "reason"@ != "excluded"@,
        "required_quality"@ != "requirement"@,
        "required_quality"@ != "excluded"@,
        "requirement"@ != "excluded"@,
{
    reveal_strlit("reason");
    reveal_strlit("required_quality");
    reveal_strlit("requirement");
    reveal_strlit("excluded");
    assert("reason"@.len() == 6);
    assert("required_quality"@.len() == 16);
    assert("requirement"@.len() == 11);
    assert("excluded"@.len() == 8);
}

} // verus!
