//! Host acceptance is distinct from execution and critic verdicts.
use super::planning::TaskType;
use super::task::{Artifact, ArtifactModel, Evaluation, EvaluationModel};
use crate::binary64::Binary64;
use crate::fault::{answers, failure, EngineError, EngineErrorModel};
use crate::model::{Comparable, Duplicate};
use crate::text::{blank, byte_count, byte_len, is_blank};
use vstd::prelude::*;

verus! {

/// What feedback is about: the artifact itself, or the critic's verdict on it.
#[derive(Clone, Copy, Debug, PartialEq, Eq, Structural)]
pub enum FeedbackKind {
    BusinessAcceptance,
    CriticCorrectness,
}

impl DeepView for FeedbackKind {
    type V = FeedbackKind;

    open spec fn deep_view(&self) -> FeedbackKind {
        *self
    }
}

impl Duplicate for FeedbackKind {
    fn duplicate(&self) -> (r: Self) {
        *self
    }
}

/// The host's verdict on an artifact.
#[derive(Debug)]
pub struct Feedback {
    pub feedback_id: String,
    pub task_id: String,
    pub artifact_id: String,
    pub kind: FeedbackKind,
    pub evaluator_version: String,
    pub accepted: bool,
    pub reason: String,
}

/// What a `Feedback` holds.
#[verifier::ext_equal]
pub ghost struct FeedbackModel {
    pub feedback_id: Seq<char>,
    pub task_id: Seq<char>,
    pub artifact_id: Seq<char>,
    pub kind: FeedbackKind,
    pub evaluator_version: Seq<char>,
    pub accepted: bool,
    pub reason: Seq<char>,
}

impl DeepView for Feedback {
    type V = FeedbackModel;

    open spec fn deep_view(&self) -> FeedbackModel {
        FeedbackModel {
            feedback_id: self.feedback_id.deep_view(),
            task_id: self.task_id.deep_view(),
            artifact_id: self.artifact_id.deep_view(),
            kind: self.kind.deep_view(),
            evaluator_version: self.evaluator_version.deep_view(),
            accepted: self.accepted.deep_view(),
            reason: self.reason.deep_view(),
        }
    }
}

impl Duplicate for Feedback {
    fn duplicate(&self) -> (r: Self) {
        Feedback {
            feedback_id: self.feedback_id.duplicate(),
            task_id: self.task_id.duplicate(),
            artifact_id: self.artifact_id.duplicate(),
            kind: self.kind.duplicate(),
            evaluator_version: self.evaluator_version.duplicate(),
            accepted: self.accepted.duplicate(),
            reason: self.reason.duplicate(),
        }
    }
}

impl Clone for Feedback {
    fn clone(&self) -> (r: Self)
        ensures
            r.deep_view() == self.deep_view(),
    {
        self.duplicate()
    }
}

/// A critic's verdict, with the attempt that gave it.
#[derive(Debug)]
pub struct CriticVerdict {
    pub attempt_id: String,
    pub evaluation: Evaluation,
}

/// What a `CriticVerdict` holds.
#[verifier::ext_equal]
pub ghost struct CriticVerdictModel {
    pub attempt_id: Seq<char>,
    pub evaluation: EvaluationModel,
}

impl DeepView for CriticVerdict {
    type V = CriticVerdictModel;

    open spec fn deep_view(&self) -> CriticVerdictModel {
        CriticVerdictModel {
            attempt_id: self.attempt_id.deep_view(),
            evaluation: self.evaluation.deep_view(),
        }
    }
}

impl Duplicate for CriticVerdict {
    fn duplicate(&self) -> (r: Self) {
        CriticVerdict {
            attempt_id: self.attempt_id.duplicate(),
            evaluation: self.evaluation.duplicate(),
        }
    }
}

impl Clone for CriticVerdict {
    fn clone(&self) -> (r: Self)
        ensures
            r.deep_view() == self.deep_view(),
    {
        self.duplicate()
    }
}

/// An artifact with the verdicts on it.
#[derive(Debug)]
pub struct EvaluationRecord {
    pub task_id: String,
    pub artifact: Artifact,
    pub deterministic: Evaluation,
    pub critic: Option<CriticVerdict>,
}

/// What a `EvaluationRecord` holds.
#[verifier::ext_equal]
pub ghost struct EvaluationRecordModel {
    pub task_id: Seq<char>,
    pub artifact: ArtifactModel,
    pub deterministic: EvaluationModel,
    pub critic: Option<CriticVerdictModel>,
}

impl DeepView for EvaluationRecord {
    type V = EvaluationRecordModel;

    open spec fn deep_view(&self) -> EvaluationRecordModel {
        EvaluationRecordModel {
            task_id: self.task_id.deep_view(),
            artifact: self.artifact.deep_view(),
            deterministic: self.deterministic.deep_view(),
            critic: self.critic.deep_view(),
        }
    }
}

impl Duplicate for EvaluationRecord {
    fn duplicate(&self) -> (r: Self) {
        EvaluationRecord {
            task_id: self.task_id.duplicate(),
            artifact: self.artifact.duplicate(),
            deterministic: self.deterministic.duplicate(),
            critic: self.critic.duplicate(),
        }
    }
}

impl Clone for EvaluationRecord {
    fn clone(&self) -> (r: Self)
        ensures
            r.deep_view() == self.deep_view(),
    {
        self.duplicate()
    }
}

/// What quality is counted by.
#[derive(Debug)]
pub struct ProfileKey {
    pub model_id: String,
    pub model_version: String,
    pub task_type: TaskType,
    pub role: String,
    pub evaluator_version: String,
}

/// What a `ProfileKey` holds.
#[verifier::ext_equal]
pub ghost struct ProfileKeyModel {
    pub model_id: Seq<char>,
    pub model_version: Seq<char>,
    pub task_type: TaskType,
    pub role: Seq<char>,
    pub evaluator_version: Seq<char>,
}

impl DeepView for ProfileKey {
    type V = ProfileKeyModel;

    open spec fn deep_view(&self) -> ProfileKeyModel {
        ProfileKeyModel {
            model_id: self.model_id.deep_view(),
            model_version: self.model_version.deep_view(),
            task_type: self.task_type.deep_view(),
            role: self.role.deep_view(),
            evaluator_version: self.evaluator_version.deep_view(),
        }
    }
}

impl Duplicate for ProfileKey {
    fn duplicate(&self) -> (r: Self) {
        ProfileKey {
            model_id: self.model_id.duplicate(),
            model_version: self.model_version.duplicate(),
            task_type: self.task_type.duplicate(),
            role: self.role.duplicate(),
            evaluator_version: self.evaluator_version.duplicate(),
        }
    }
}

impl Clone for ProfileKey {
    fn clone(&self) -> (r: Self)
        ensures
            r.deep_view() == self.deep_view(),
    {
        self.duplicate()
    }
}

/// Accepted among all verdicts of a key.
#[derive(Debug)]
pub struct QualityStatistics {
    pub key: ProfileKey,
    pub kind: FeedbackKind,
    pub accepted: u64,
    pub samples: u64,
}

/// What a `QualityStatistics` holds.
#[verifier::ext_equal]
pub ghost struct QualityStatisticsModel {
    pub key: ProfileKeyModel,
    pub kind: FeedbackKind,
    pub accepted: u64,
    pub samples: u64,
}

impl DeepView for QualityStatistics {
    type V = QualityStatisticsModel;

    open spec fn deep_view(&self) -> QualityStatisticsModel {
        QualityStatisticsModel {
            key: self.key.deep_view(),
            kind: self.kind.deep_view(),
            accepted: self.accepted.deep_view(),
            samples: self.samples.deep_view(),
        }
    }
}

impl Duplicate for QualityStatistics {
    fn duplicate(&self) -> (r: Self) {
        QualityStatistics {
            key: self.key.duplicate(),
            kind: self.kind.duplicate(),
            accepted: self.accepted.duplicate(),
            samples: self.samples.duplicate(),
        }
    }
}

impl Clone for QualityStatistics {
    fn clone(&self) -> (r: Self)
        ensures
            r.deep_view() == self.deep_view(),
    {
        self.duplicate()
    }
}

/// How calls of one kind went.
#[derive(Debug)]
pub struct CallStatistics {
    /// `model`, `tool`, or `unknown` for historical evidence without attribution.
    pub attempt_kind: String,
    pub tool_name: Option<String>,
    pub model_id: String,
    pub model_version: String,
    pub config_hash: String,
    pub node: String,
    pub attempts: u64,
    pub succeeded: u64,
    pub failed: u64,
    pub cancelled: u64,
    pub timed_out: u64,
    pub not_dispatched: u64,
    pub unknown_status: u64,
    pub known_cost: u64,
    pub unresolved_reserved: u64,
    pub unknown_cost_attempts: u64,
    pub latency_samples: u64,
    pub mean_latency_ms: Option<Binary64>,
}

/// What a `CallStatistics` holds.
#[verifier::ext_equal]
pub ghost struct CallStatisticsModel {
    pub attempt_kind: Seq<char>,
    pub tool_name: Option<Seq<char>>,
    pub model_id: Seq<char>,
    pub model_version: Seq<char>,
    pub config_hash: Seq<char>,
    pub node: Seq<char>,
    pub attempts: u64,
    pub succeeded: u64,
    pub failed: u64,
    pub cancelled: u64,
    pub timed_out: u64,
    pub not_dispatched: u64,
    pub unknown_status: u64,
    pub known_cost: u64,
    pub unresolved_reserved: u64,
    pub unknown_cost_attempts: u64,
    pub latency_samples: u64,
    pub mean_latency_ms: Option<Binary64>,
}

impl DeepView for CallStatistics {
    type V = CallStatisticsModel;

    open spec fn deep_view(&self) -> CallStatisticsModel {
        CallStatisticsModel {
            attempt_kind: self.attempt_kind.deep_view(),
            tool_name: self.tool_name.deep_view(),
            model_id: self.model_id.deep_view(),
            model_version: self.model_version.deep_view(),
            config_hash: self.config_hash.deep_view(),
            node: self.node.deep_view(),
            attempts: self.attempts.deep_view(),
            succeeded: self.succeeded.deep_view(),
            failed: self.failed.deep_view(),
            cancelled: self.cancelled.deep_view(),
            timed_out: self.timed_out.deep_view(),
            not_dispatched: self.not_dispatched.deep_view(),
            unknown_status: self.unknown_status.deep_view(),
            known_cost: self.known_cost.deep_view(),
            unresolved_reserved: self.unresolved_reserved.deep_view(),
            unknown_cost_attempts: self.unknown_cost_attempts.deep_view(),
            latency_samples: self.latency_samples.deep_view(),
            mean_latency_ms: self.mean_latency_ms.deep_view(),
        }
    }
}

impl Duplicate for CallStatistics {
    fn duplicate(&self) -> (r: Self) {
        CallStatistics {
            attempt_kind: self.attempt_kind.duplicate(),
            tool_name: self.tool_name.duplicate(),
            model_id: self.model_id.duplicate(),
            model_version: self.model_version.duplicate(),
            config_hash: self.config_hash.duplicate(),
            node: self.node.duplicate(),
            attempts: self.attempts.duplicate(),
            succeeded: self.succeeded.duplicate(),
            failed: self.failed.duplicate(),
            cancelled: self.cancelled.duplicate(),
            timed_out: self.timed_out.duplicate(),
            not_dispatched: self.not_dispatched.duplicate(),
            unknown_status: self.unknown_status.duplicate(),
            known_cost: self.known_cost.duplicate(),
            unresolved_reserved: self.unresolved_reserved.duplicate(),
            unknown_cost_attempts: self.unknown_cost_attempts.duplicate(),
            latency_samples: self.latency_samples.duplicate(),
            mean_latency_ms: self.mean_latency_ms.duplicate(),
        }
    }
}

impl Clone for CallStatistics {
    fn clone(&self) -> (r: Self)
        ensures
            r.deep_view() == self.deep_view(),
    {
        self.duplicate()
    }
}

/// How tasks went.
#[derive(Debug)]
pub struct TaskStatistics {
    pub total: u64,
    pub completed: u64,
    pub human_required: u64,
    pub failed: u64,
    pub cancelled: u64,
    pub running: u64,
}

/// What a `TaskStatistics` holds.
#[verifier::ext_equal]
pub ghost struct TaskStatisticsModel {
    pub total: u64,
    pub completed: u64,
    pub human_required: u64,
    pub failed: u64,
    pub cancelled: u64,
    pub running: u64,
}

impl DeepView for TaskStatistics {
    type V = TaskStatisticsModel;

    open spec fn deep_view(&self) -> TaskStatisticsModel {
        TaskStatisticsModel {
            total: self.total.deep_view(),
            completed: self.completed.deep_view(),
            human_required: self.human_required.deep_view(),
            failed: self.failed.deep_view(),
            cancelled: self.cancelled.deep_view(),
            running: self.running.deep_view(),
        }
    }
}

impl Duplicate for TaskStatistics {
    fn duplicate(&self) -> (r: Self) {
        TaskStatistics {
            total: self.total.duplicate(),
            completed: self.completed.duplicate(),
            human_required: self.human_required.duplicate(),
            failed: self.failed.duplicate(),
            cancelled: self.cancelled.duplicate(),
            running: self.running.duplicate(),
        }
    }
}

impl Clone for TaskStatistics {
    fn clone(&self) -> (r: Self)
        ensures
            r.deep_view() == self.deep_view(),
    {
        self.duplicate()
    }
}

/// All statistics at one time.
#[derive(Debug)]
pub struct MetricsSnapshot {
    pub revision: u64,
    pub captured_at_ms: u64,
    pub quality: Vec<QualityStatistics>,
    pub calls: Vec<CallStatistics>,
    pub tasks: TaskStatistics,
}

/// What a `MetricsSnapshot` holds.
#[verifier::ext_equal]
pub ghost struct MetricsSnapshotModel {
    pub revision: u64,
    pub captured_at_ms: u64,
    pub quality: Seq<QualityStatisticsModel>,
    pub calls: Seq<CallStatisticsModel>,
    pub tasks: TaskStatisticsModel,
}

impl DeepView for MetricsSnapshot {
    type V = MetricsSnapshotModel;

    open spec fn deep_view(&self) -> MetricsSnapshotModel {
        MetricsSnapshotModel {
            revision: self.revision.deep_view(),
            captured_at_ms: self.captured_at_ms.deep_view(),
            quality: self.quality.deep_view(),
            calls: self.calls.deep_view(),
            tasks: self.tasks.deep_view(),
        }
    }
}

impl Duplicate for MetricsSnapshot {
    fn duplicate(&self) -> (r: Self) {
        MetricsSnapshot {
            revision: self.revision.duplicate(),
            captured_at_ms: self.captured_at_ms.duplicate(),
            quality: self.quality.duplicate(),
            calls: self.calls.duplicate(),
            tasks: self.tasks.duplicate(),
        }
    }
}

impl Clone for MetricsSnapshot {
    fn clone(&self) -> (r: Self)
        ensures
            r.deep_view() == self.deep_view(),
    {
        self.duplicate()
    }
}

/// An identifier of feedback: not blank, at most 256 bytes.
pub open spec fn feedback_name(value: Seq<char>) -> bool {
    !blank(value) && byte_len(value) <= 256
}

fn is_feedback_name(value: &str) -> (r: bool)
    ensures
        r == feedback_name(value@),
{
    !is_blank(value) && byte_count(value) <= 256
}

impl FeedbackModel {
    pub open spec fn valid(self) -> bool {
        &&& feedback_name(self.feedback_id)
        &&& feedback_name(self.task_id)
        &&& feedback_name(self.artifact_id)
        &&& feedback_name(self.evaluator_version)
        &&& byte_len(self.reason) <= 4096
    }

    pub open spec fn fault(self) -> Option<EngineErrorModel> {
        if self.valid() {
            None
        } else {
            Some(failure("feedback"@, "invalid feedback identifiers or reason size"@))
        }
    }
}

impl Feedback {
    pub fn validate(&self) -> (r: Result<(), EngineError>)
        ensures
            answers(r, self.deep_view().fault()),
    {
        if !is_feedback_name(self.feedback_id.as_str()) || !is_feedback_name(self.task_id.as_str())
            || !is_feedback_name(self.artifact_id.as_str()) || !is_feedback_name(
            self.evaluator_version.as_str(),
        ) || byte_count(self.reason.as_str()) > 4096 {
            return Err(
                EngineError::new("feedback", "invalid feedback identifiers or reason size"),
            );
        }
        Ok(())
    }
}

impl Default for TaskStatistics {
    fn default() -> (r: Self)
        ensures
            r.deep_view() == no_tasks(),
    {
        TaskStatistics {
            total: 0,
            completed: 0,
            human_required: 0,
            failed: 0,
            cancelled: 0,
            running: 0,
        }
    }
}

/// The statistics of no task.
pub open spec fn no_tasks() -> TaskStatisticsModel {
    TaskStatisticsModel {
        total: 0,
        completed: 0,
        human_required: 0,
        failed: 0,
        cancelled: 0,
        running: 0,
    }
}

impl Default for MetricsSnapshot {
    fn default() -> (r: Self)
        ensures
            r.deep_view() == no_metrics(),
    {
        let r = MetricsSnapshot {
            revision: 0,
            captured_at_ms: 0,
            quality: Vec::new(),
            calls: Vec::new(),
            tasks: TaskStatistics::default(),
        };
        assert(r.deep_view().quality =~= Seq::empty());
        assert(r.deep_view().calls =~= Seq::empty());
        r
    }
}

/// No statistics at all.
pub open spec fn no_metrics() -> MetricsSnapshotModel {
    MetricsSnapshotModel {
        revision: 0,
        captured_at_ms: 0,
        quality: Seq::empty(),
        calls: Seq::empty(),
        tasks: no_tasks(),
    }
}

impl Comparable for CriticVerdict {
    fn same(&self, other: &Self) -> (r: bool) {
        self.attempt_id.same(&other.attempt_id) && self.evaluation.same(&other.evaluation)
    }
}

impl Comparable for EvaluationRecord {
    fn same(&self, other: &Self) -> (r: bool) {
        self.task_id.same(&other.task_id) && self.artifact.same(&other.artifact)
            && self.deterministic.same(&other.deterministic) && self.critic.same(&other.critic)
    }
}

/// Feedback is accepted exactly where each of its four names is not blank and not too long, and its
/// reason is not too long.
pub proof fn lemma_valid_feedback(feedback: FeedbackModel)
    ensures
        feedback.fault() is None <==> {
            &&& !blank(feedback.feedback_id) && byte_len(feedback.feedback_id) <= 256
            &&& !blank(feedback.task_id) && byte_len(feedback.task_id) <= 256
            &&& !blank(feedback.artifact_id) && byte_len(feedback.artifact_id) <= 256
            &&& !blank(feedback.evaluator_version) && byte_len(feedback.evaluator_version) <= 256
            &&& byte_len(feedback.reason) <= 4096
        },
        feedback.fault() is Some ==> feedback.fault()->0.kind == "feedback"@,
{
}

} // verus!
