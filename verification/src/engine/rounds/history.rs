//! What the rounds of a task make of each other: laws on whole runs, told by what happened.
use super::{
    ExecutionActionModel, ExecutionEventModel, ExecutionModel, ExecutionPhaseModel,
};
use crate::contracts::feedback::CriticVerdictModel;
use crate::contracts::task::{
    ArtifactModel, EvaluationModel, EvaluationStatus, Strategy, TaskSpecModel,
};
use crate::engine::execution::RoundsModel;
use crate::store::feedback::text_checksum;
use crate::strategy::{reads_as_object, verdict_of};
use vstd::prelude::*;

verus! {

/// The latest candidate of a run: what was produced, and what was found of it, by the critic where
/// one has judged it.
#[verifier::ext_equal]
pub ghost struct Latest {
    pub artifact_id: Seq<char>,
    pub attempt: Seq<char>,
    pub text: Seq<char>,
    pub model: Seq<char>,
    pub found: EvaluationModel,
    /// The critic's call, where one has judged it.
    pub critic: Option<Seq<char>>,
}

/// What happened in a run so far.
#[verifier::ext_equal]
pub ghost struct History {
    /// How many candidates were produced.
    pub produced: nat,
    pub latest: Option<Latest>,
}

impl History {
    /// Nothing has happened.
    pub open spec fn none() -> History {
        History { produced: 0, latest: None }
    }

    /// What happened, with one more event that came while the run waited for it.
    pub open spec fn with(self, state: ExecutionModel, event: ExecutionEventModel) -> History {
        match (state.phase, event) {
            (
                ExecutionPhaseModel::Working { .. },
                ExecutionEventModel::Produced { artifact_id, attempt, text, model, .. },
            ) => History {
                produced: self.produced + 1,
                latest: Some(
                    Latest {
                        artifact_id,
                        attempt,
                        text,
                        model,
                        found: verdict_of(text, state.task.acceptance, reads_as_object(text)),
                        critic: None,
                    },
                ),
            },
            (
                ExecutionPhaseModel::Criticizing { .. },
                ExecutionEventModel::Judged { attempt, evaluation: Some(found) },
            ) => History {
                latest: Some(Latest { found, critic: Some(attempt), ..self.latest->0 }),
                ..self
            },
            _ => self,
        }
    }
}

impl ExecutionModel {
    /// What happened within the first `n` events.
    pub open spec fn history(self, events: Seq<ExecutionEventModel>, n: nat) -> History
        decreases n,
    {
        if n == 0 {
            History::none()
        } else {
            self.history(events, (n - 1) as nat).with(
                self.state_after(events, (n - 1) as nat),
                events[n - 1],
            )
        }
    }

    /// A task that has not begun.
    pub open spec fn fresh(self) -> bool {
        self.phase == (ExecutionPhaseModel::Ready { rounds: RoundsModel::first(self.task) })
            && self.task.max_rounds >= 1
    }
}

/// The artifact is the latest candidate.
pub open spec fn is_latest(artifact: ArtifactModel, past: History) -> bool {
    &&& past.latest is Some
    &&& artifact.artifact_id == past.latest->0.artifact_id
    &&& artifact.attempt_id == past.latest->0.attempt
    &&& artifact.text == past.latest->0.text
    &&& artifact.checksum == text_checksum(artifact.text)
    &&& artifact.version == past.produced
}

/// What a call for a candidate tells of the past.
pub open spec fn continues(
    prior: Option<Seq<char>>,
    feedback: Seq<Seq<char>>,
    past: History,
) -> bool {
    match past.latest {
        Some(latest) => prior == Some(latest.text) && feedback == latest.found.defects,
        None => prior is None && feedback == Seq::<Seq<char>>::empty(),
    }
}

spec fn recounted(rounds: RoundsModel, past: History) -> bool {
    &&& rounds.round == past.produced + 1
    &&& continues(rounds.prior(), rounds.feedback, past)
    &&& match rounds.artifact {
        Some(a) => is_latest(a, past),
        None => past.latest is None,
    }
}

spec fn checked(
    task: TaskSpecModel,
    rounds: RoundsModel,
    candidate: super::CandidateModel,
    past: History,
) -> bool {
    &&& rounds.round == past.produced
    &&& is_latest(candidate.artifact, past)
    &&& candidate.model == past.latest->0.model
    &&& candidate.checks == verdict_of(
        past.latest->0.text,
        task.acceptance,
        reads_as_object(past.latest->0.text),
    )
}

spec fn told(state: ExecutionModel, past: History) -> bool {
    let task = state.task;
    &&& (past.produced == 0) == (past.latest is None)
    &&& match state.phase {
        ExecutionPhaseModel::Ready { rounds } => recounted(rounds, past) && past.produced == 0,
        ExecutionPhaseModel::Working { rounds } => recounted(rounds, past) && past.produced
            < task.max_rounds && (past.latest is Some ==> past.latest->0.found.status
            == EvaluationStatus::Revise && task.strategy != Strategy::Single),
        ExecutionPhaseModel::Recording { rounds, candidate } => checked(
            task,
            rounds,
            candidate,
            past,
        ) && candidate.checks == past.latest->0.found && past.latest->0.critic is None,
        ExecutionPhaseModel::Criticizing { rounds, candidate } => checked(
            task,
            rounds,
            candidate,
            past,
        ) && candidate.checks == past.latest->0.found && past.latest->0.critic is None
            && candidate.checks.status == EvaluationStatus::Pass && task.strategy
            == Strategy::GeneratorCritic,
        ExecutionPhaseModel::Judging { rounds, candidate, verdict } => checked(
            task,
            rounds,
            candidate,
            past,
        ) && verdict == (CriticVerdictModel {
            attempt_id: past.latest->0.critic->0,
            evaluation: past.latest->0.found,
        }) && past.latest->0.critic is Some && candidate.checks.status == EvaluationStatus::Pass
            && task.strategy == Strategy::GeneratorCritic,
        ExecutionPhaseModel::Saving { rounds, candidate, evaluation } => checked(
            task,
            rounds,
            candidate,
            past,
        ) && evaluation == past.latest->0.found && (past.latest->0.critic is None ==> evaluation
            == candidate.checks) && (past.latest->0.critic is Some
            <==> task.strategy == Strategy::GeneratorCritic && candidate.checks.status
            == EvaluationStatus::Pass),
        ExecutionPhaseModel::Reporting { rounds, candidate, evaluation } => checked(
            task,
            rounds,
            candidate,
            past,
        ) && evaluation == past.latest->0.found && (past.latest->0.critic is None ==> evaluation
            == candidate.checks) && (past.latest->0.critic is Some
            <==> task.strategy == Strategy::GeneratorCritic && candidate.checks.status
            == EvaluationStatus::Pass),
        ExecutionPhaseModel::Stopping { artifact } => is_latest(artifact, past)
            && past.latest->0.found.status == EvaluationStatus::Revise && task.strategy
            == Strategy::Cascade,
        ExecutionPhaseModel::Closing { completed, artifact } => is_latest(artifact, past)
            && completed == (past.latest->0.found.status == EvaluationStatus::Pass) && (completed
            && task.strategy == Strategy::GeneratorCritic ==> past.latest->0.critic is Some),
        ExecutionPhaseModel::Over => true,
    }
}

proof fn lemma_told_by_step(state: ExecutionModel, event: ExecutionEventModel, past: History)
    requires
        told(state, past),
        state.task.max_rounds >= 1,
    ensures
        told(state.after(event).0, past.with(state, event)),
        state.after(event).0.task == state.task,
{
}

proof fn lemma_told(start: ExecutionModel, events: Seq<ExecutionEventModel>, n: nat)
    requires
        start.fresh(),
    ensures
        told(start.state_after(events, n), start.history(events, n)),
        start.state_after(events, n).task == start.task,
    decreases n,
{
    if n > 0 {
        let k = (n - 1) as nat;
        lemma_told(start, events, k);
        lemma_told_by_step(
            start.state_after(events, k),
            events[k as int],
            start.history(events, k),
        );
    }
}

/// A revision is told what to fix, whatever happens: each call for a candidate after the first
/// hands over the text of the candidate before it and exactly the defects found by the evaluation
/// that decided on it, the critic's where there was one. The first call hands over neither. It is
/// made only where that evaluation asks for a revision, rounds are left and the strategy revises.
pub proof fn lemma_revision_is_told_the_defects(
    start: ExecutionModel,
    events: Seq<ExecutionEventModel>,
    n: nat,
)
    requires
        start.fresh(),
    ensures
        start.action_at(events, n) matches ExecutionActionModel::Invoke {
            role,
            prior,
            feedback,
            round,
            ..
        } ==> (role != "critic"@ ==> {
            let past = start.history(events, n);
            &&& round == past.produced + 1
            &&& round <= start.task.max_rounds
            &&& role == (if start.task.strategy == Strategy::GeneratorCritic {
                "generator"@
            } else {
                "invoke"@
            })
            &&& match past.latest {
                None => prior is None && feedback == Seq::<Seq<char>>::empty(),
                Some(latest) => {
                    &&& prior == Some(latest.text)
                    &&& feedback == latest.found.defects
                    &&& latest.found.status == EvaluationStatus::Revise
                    &&& start.task.strategy != Strategy::Single
                },
            }
        }),
{
    lemma_told(start, events, n);
    lemma_told(start, events, n + 1);
}

/// A critic judges the latest candidate, whatever happens: it is asked only under the strategy that
/// has one, only for a candidate that passed its checks, and is shown its text. Where a different
/// critic is asked for, the model that made the candidate is excluded, and else none is.
pub proof fn lemma_critic_judges_the_candidate(
    start: ExecutionModel,
    events: Seq<ExecutionEventModel>,
    n: nat,
)
    requires
        start.fresh(),
    ensures
        start.action_at(events, n) matches ExecutionActionModel::Invoke {
            role,
            prior,
            feedback,
            round,
            excluded,
            upgrade,
            ..
        } ==> (role == "critic"@ ==> {
            let past = start.history(events, n);
            &&& past.latest is Some
            &&& start.task.strategy == Strategy::GeneratorCritic
            &&& past.latest->0.critic is None
            &&& past.latest->0.found.status == EvaluationStatus::Pass
            &&& round == past.produced
            &&& prior == Some(past.latest->0.text)
            &&& feedback == Seq::<Seq<char>>::empty()
            &&& upgrade is None
            &&& forall|t: Seq<char>| #[trigger]
                excluded.contains(t) <==> start.task.constraints.different_critic && t
                    == past.latest->0.model
        }),
{
    lemma_told(start, events, n);
    lemma_names();
}

proof fn lemma_names()
    ensures
        "critic"@ != "generator"@,
        "critic"@ != "invoke"@,
        "completed"@ != "human_required"@,
{
    reveal_strlit("critic");
    reveal_strlit("generator");
    reveal_strlit("invoke");
    reveal_strlit("completed");
    reveal_strlit("human_required");
    assert("critic"@.len() == 6 && "generator"@.len() == 9);
    assert("critic"@[0] != "invoke"@[0]);
    assert("completed"@.len() != "human_required"@.len());
}

/// A result is that of the latest candidate, whatever happens: it holds that candidate's artifact
/// and what the ledger says, and is complete exactly where the evaluation that decided passed it.
/// Under a critic, a complete result was judged by one.
pub proof fn lemma_result_is_the_latest(
    start: ExecutionModel,
    events: Seq<ExecutionEventModel>,
    n: nat,
)
    requires
        start.fresh(),
    ensures
        start.action_at(events, n) matches ExecutionActionModel::Finish { result } ==> {
            let past = start.history(events, n);
            &&& past.latest is Some
            &&& result.task_id == start.task.task_id
            &&& result.artifact.text == past.latest->0.text
            &&& result.artifact.artifact_id == past.latest->0.artifact_id
            &&& result.artifact.attempt_id == past.latest->0.attempt
            &&& result.artifact.version == past.produced
            &&& past.latest->0.found.status == EvaluationStatus::Pass ==> result.status
                == "completed"@
            &&& past.latest->0.found.status != EvaluationStatus::Pass ==> result.status
                == "human_required"@
            &&& result.status == "completed"@ && start.task.strategy == Strategy::GeneratorCritic
                ==> past.latest->0.critic is Some
            &&& events[n as int] matches ExecutionEventModel::Read { ledger }
                && result.settled_cost == ledger.settled && result.reserved_cost
                == ledger.reserved
        },
{
    lemma_told(start, events, n);
    lemma_names();
}

/// What is recorded is what was found, whatever happens: the latest candidate, what the
/// deterministic checks found of it, and the critic's verdict once there is one.
pub proof fn lemma_record_is_what_was_found(
    start: ExecutionModel,
    events: Seq<ExecutionEventModel>,
    n: nat,
)
    requires
        start.fresh(),
    ensures
        start.action_at(events, n) matches ExecutionActionModel::Record { record } ==> {
            let past = start.history(events, n + 1);
            &&& record.task_id == start.task.task_id
            &&& is_latest(record.artifact, past)
            &&& record.deterministic == verdict_of(
                past.latest->0.text,
                start.task.acceptance,
                reads_as_object(past.latest->0.text),
            )
            &&& match record.critic {
                None => past.latest->0.critic is None && past.latest->0.found
                    == record.deterministic,
                Some(verdict) => past.latest->0.critic == Some(verdict.attempt_id)
                    && past.latest->0.found == verdict.evaluation,
            }
        },
{
    lemma_told(start, events, n);
    lemma_told(start, events, n + 1);
}

/// How a round goes on once its evaluation was reported: a pass and whatever a model cannot mend
/// end the task; a revision is asked for where the strategy revises and rounds are left, and ends
/// the task else.
pub proof fn lemma_round_goes_on(state: ExecutionModel)
    requires
        state.phase is Reporting,
    ensures
        ({
            let status = state.phase->Reporting_evaluation.status;
            let revises = status == EvaluationStatus::Revise && state.task.strategy
                != Strategy::Single && state.phase->Reporting_rounds.round
                < state.task.max_rounds;
            let (next, action) = state.after(ExecutionEventModel::Done);
            &&& revises ==> action is Invoke && next.phase is Working
            &&& !revises ==> action is ReadLedger && next.phase is Closing
        }),
{
}

/// After its checks a candidate goes to the critic exactly where the strategy has one and the
/// checks passed; else the checks decide.
pub proof fn lemma_checks_go_on(state: ExecutionModel)
    requires
        state.phase is Recording,
    ensures
        ({
            let passed = state.phase->Recording_candidate.checks.status == EvaluationStatus::Pass;
            let (next, action) = state.after(ExecutionEventModel::Done);
            if passed && state.task.strategy == Strategy::GeneratorCritic {
                action matches ExecutionActionModel::Invoke { role, .. } && role == "critic"@
            } else {
                next.phase is Saving && next.phase->Saving_evaluation
                    == state.phase->Recording_candidate.checks
            }
        }),
{
}

/// A critic's answer that is no evaluation, or that passes what has defects, fails the task; every
/// other answer decides.
pub proof fn lemma_critic_answers(
    state: ExecutionModel,
    attempt: Seq<char>,
    answer: Option<EvaluationModel>,
)
    requires
        state.phase is Criticizing,
    ensures
        ({
            let (next, action) = state.after(
                ExecutionEventModel::Judged { attempt, evaluation: answer },
            );
            let sound = answer is Some && !(answer->0.status == EvaluationStatus::Pass
                && answer->0.defects.len() > 0);
            &&& !sound ==> next.phase is Over && action is Fail && action->error.kind
                == "protocol"@
            &&& sound ==> next.phase is Judging && next.phase->Judging_verdict.evaluation
                == answer->0 && next.phase->Judging_verdict.attempt_id == attempt
        }),
{
}

} // verus!
