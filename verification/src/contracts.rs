//! The contracts between host, engine, models and storage.
pub mod configuration;
pub mod encoding;
pub mod feedback;
pub mod planning;
pub mod profiles;
pub mod rankings;
pub mod selection;
pub mod task;
pub mod url;

pub use crate::fault::EngineError;
pub use crate::identity::{digest, id, now_ms};
pub use configuration::{Config, Model, Weights};
pub use feedback::{
    CallStatistics, CriticVerdict, EvaluationRecord, Feedback, FeedbackKind, MetricsSnapshot,
    ProfileKey, QualityStatistics, TaskStatistics,
};
pub use planning::{
    EffectivePlan, PlanChoice, PlannerProposal, PlanningConfig, PlanningMode, RoleProfile,
    SubmissionSpec, TaskType,
};
pub use profiles::{ParentEntry, QualityProfile, RoleMapping, RoutingProfiles, WeightsEntry};
pub use rankings::{RankingConfig, RankingEntry};
pub use selection::SelectionPolicy;
pub use task::{
    Acceptance, Artifact, Constraints, Endpoint, Evaluation, EvaluationStatus, Evidence, Snapshot,
    Strategy, TaskResult, TaskSpec, ToolCall, ToolResult, ToolSpec, Usage,
};
