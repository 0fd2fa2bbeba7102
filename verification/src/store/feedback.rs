//! Evidence of evaluations and host feedback. No inferred business success.
use crate::contracts::feedback::{
    EvaluationRecord, EvaluationRecordModel, Feedback, FeedbackKind, FeedbackModel, ProfileKey,
    ProfileKeyModel,
};
use crate::contracts::planning::TaskType;
use crate::fault::{answers, failure, or_fault, EngineError, EngineErrorModel};
use crate::identity::{digest, hex, sha256};
use crate::json::{as_text, is_text, json_text, member, parse, parsed_json, Json, JsonModel};
use crate::model::Comparable;
use crate::text::same_text;
use vstd::prelude::*;
use vstd::utf8::encode_utf8;

verus! {

/// The checksum of a text: that of its JSON form.
pub open spec fn text_checksum(text: Seq<char>) -> Seq<char> {
    hex(sha256(encode_utf8(json_text(JsonModel::Text(text)))))
}

/// The checksum of a text.
pub fn checksum_of(text: &str) -> (r: String)
    ensures
        r@ == text_checksum(text@),
{
    let encoded: String = Json::Text(text.to_owned()).to_text();
    digest(encoded.as_str().as_bytes())
}

/// The type of a name.
pub open spec fn task_type_of(name: Seq<char>) -> Option<TaskType> {
    if name == "general"@ {
        Some(TaskType::General)
    } else if name == "code_generation"@ {
        Some(TaskType::CodeGeneration)
    } else if name == "code_review"@ {
        Some(TaskType::CodeReview)
    } else if name == "information_extraction"@ {
        Some(TaskType::InformationExtraction)
    } else if name == "reasoning"@ {
        Some(TaskType::Reasoning)
    } else if name == "writing"@ {
        Some(TaskType::Writing)
    } else if name == "tool_execution"@ {
        Some(TaskType::ToolExecution)
    } else {
        None
    }
}

/// The type of a name.
pub fn read_task_type(name: &str) -> (r: Option<TaskType>)
    ensures
        r == task_type_of(name@),
{
    if same_text(name, "general") {
        Some(TaskType::General)
    } else if same_text(name, "code_generation") {
        Some(TaskType::CodeGeneration)
    } else if same_text(name, "code_review") {
        Some(TaskType::CodeReview)
    } else if same_text(name, "information_extraction") {
        Some(TaskType::InformationExtraction)
    } else if same_text(name, "reasoning") {
        Some(TaskType::Reasoning)
    } else if same_text(name, "writing") {
        Some(TaskType::Writing)
    } else if same_text(name, "tool_execution") {
        Some(TaskType::ToolExecution)
    } else {
        None
    }
}

/// The name of the node that a call was routed for.
pub open spec fn routed_node(metadata: JsonModel) -> Seq<char> {
    match metadata.at("route"@).at("node_id"@).text() {
        Some(s) => s,
        None => Seq::empty(),
    }
}

/// A call of the role that feedback is about: a critic, or one that makes artifacts.
pub open spec fn has_role(metadata: JsonModel, critic: bool) -> bool {
    let node = routed_node(metadata);
    if critic {
        node == "critic"@
    } else {
        node == "invoke"@ || node == "generator"@
    }
}

/// What quality is counted by for a call, where its metadata hold all of it.
pub open spec fn routed_key(metadata: JsonModel, evaluator: Seq<char>) -> Option<ProfileKeyModel> {
    let route = metadata.at("route"@);
    let requested = route.at("quality"@).at("requested"@);
    match (
        route.at("model_id"@).text(),
        route.at("model_version"@).text(),
        requested.at("task_type"@).text(),
        requested.at("role"@).text(),
    ) {
        (Some(model_id), Some(model_version), Some(kind), Some(role)) => match task_type_of(kind) {
            Some(task_type) => Some(
                ProfileKeyModel {
                    model_id,
                    model_version,
                    task_type,
                    role,
                    evaluator_version: evaluator,
                },
            ),
            None => None,
        },
        _ => None,
    }
}

/// The fault of a call as what feedback is about. The outer value is absent where the call is
/// unknown, the inner where its metadata are no JSON.
pub open spec fn key_fault(metadata: Option<Option<JsonModel>>, critic: bool) -> Option<
    EngineErrorModel,
> {
    match metadata {
        None => Some(failure("evaluation"@, "unknown attempt"@)),
        Some(None) => Some(failure("storage"@, "invalid attempt metadata"@)),
        Some(Some(m)) => if !has_role(m, critic) {
            Some(failure("evaluation"@, "attempt role does not match feedback target"@))
        } else if routed_key(m, Seq::empty()) is None {
            Some(failure("evaluation"@, "attempt lacks versioned routing evidence"@))
        } else {
            None
        },
    }
}

/// The metadata of a call, as saved.
pub open spec fn read_metadata(text: Option<Seq<char>>) -> Option<Option<JsonModel>> {
    match text {
        Some(t) => Some(parsed_json(t)),
        None => None,
    }
}

fn find_key(metadata: &Json, evaluator: &str) -> (r: Option<ProfileKey>)
    ensures
        r.deep_view() == routed_key(metadata@, evaluator@),
        r is None == routed_key(metadata@, Seq::empty()) is None,
{
    let route: Option<&Json> = member(Some(metadata), "route");
    let requested: Option<&Json> = member(member(route, "quality"), "requested");
    let model_id: Option<&String> = as_text(member(route, "model_id"));
    let model_version: Option<&String> = as_text(member(route, "model_version"));
    let kind: Option<&String> = as_text(member(requested, "task_type"));
    let role: Option<&String> = as_text(member(requested, "role"));
    match (model_id, model_version, kind, role) {
        (Some(id), Some(version), Some(name), Some(role)) => match read_task_type(name.as_str()) {
            Some(task_type) => Some(
                ProfileKey {
                    model_id: id.clone(),
                    model_version: version.clone(),
                    task_type,
                    role: role.clone(),
                    evaluator_version: evaluator.to_owned(),
                },
            ),
            None => None,
        },
        _ => None,
    }
}

/// What quality is counted by for a call, by its metadata read as a value.
pub fn key_of(metadata: Option<Option<Json>>, critic: bool, evaluator: &str) -> (r: Result<
    ProfileKey,
    EngineError,
>)
    ensures
        ({
            let given = match metadata {
                Some(Some(m)) => Some(Some(m@)),
                Some(None) => Some(None),
                None => None,
            };
            &&& answers(r, key_fault(given, critic))
            &&& r is Ok ==> Some(r->Ok_0.deep_view()) == routed_key(
                metadata->0->0@,
                evaluator@,
            )
        }),
{
    let metadata: Json = match metadata {
        None => {
            return Err(EngineError::new("evaluation", "unknown attempt"));
        },
        Some(None) => {
            return Err(EngineError::new("storage", "invalid attempt metadata"));
        },
        Some(Some(m)) => m,
    };
    let node: Option<&Json> = member(member(Some(&metadata), "route"), "node_id");
    let fits: bool = if critic {
        is_text(node, "critic")
    } else {
        is_text(node, "invoke") || is_text(node, "generator")
    };
    proof {
        reveal_strlit("critic");
        reveal_strlit("invoke");
        reveal_strlit("generator");
        assert("critic"@.len() == 6 && "invoke"@.len() == 6 && "generator"@.len() == 9);
        assert(fits == has_role(metadata@, critic));
    }
    if !fits {
        return Err(
            EngineError::new("evaluation", "attempt role does not match feedback target"),
        );
    }
    match find_key(&metadata, evaluator) {
        Some(key) => Ok(key),
        None => Err(EngineError::new("evaluation", "attempt lacks versioned routing evidence")),
    }
}

/// What quality is counted by for a call, by its saved metadata.
pub fn profile_key(metadata: Option<&str>, critic: bool, evaluator: &str) -> (r: Result<
    ProfileKey,
    EngineError,
>)
    ensures
        ({
            let given = read_metadata(
                match metadata {
                    Some(t) => Some(t@),
                    None => None,
                },
            );
            &&& answers(r, key_fault(given, critic))
            &&& r is Ok ==> Some(r->Ok_0.deep_view()) == routed_key(given->0->0, evaluator@)
        }),
{
    let read: Option<Option<Json>> = match metadata {
        Some(text) => Some(parse(text)),
        None => None,
    };
    key_of(read, critic, evaluator)
}

/// What is saved that an evaluation is held against: the task's status, the metadata of the
/// artifact's and the critic's call, and the record saved for the artifact, which is unreadable
/// where the inner value is absent.
pub struct SavedEvidence<'a> {
    pub status: &'a str,
    pub artifact_call: Option<&'a str>,
    pub critic_call: Option<&'a str>,
    pub record: Option<Option<&'a EvaluationRecord>>,
}

/// A later record keeps an earlier one: the same, or only the absent critic's verdict added.
pub open spec fn keeps(later: EvaluationRecordModel, earlier: EvaluationRecordModel) -> bool {
    ||| later == earlier
    ||| {
        &&& later.task_id == earlier.task_id
        &&& later.artifact == earlier.artifact
        &&& later.deterministic == earlier.deterministic
        &&& earlier.critic is None
    }
}

/// The fault of a record against the one saved for its artifact.
pub open spec fn record_fault(
    record: EvaluationRecordModel,
    saved: Option<Option<EvaluationRecordModel>>,
) -> Option<EngineErrorModel> {
    match saved {
        None => None,
        Some(None) => Some(failure("storage"@, "invalid evaluation record"@)),
        Some(Some(earlier)) => if keeps(record, earlier) {
            None
        } else {
            Some(failure("evaluation"@, "conflicting evaluation evidence"@))
        },
    }
}

/// The fault of an evaluation against what is saved.
pub open spec fn evaluation_fault(
    record: EvaluationRecordModel,
    status: Seq<char>,
    artifact_call: Option<Option<JsonModel>>,
    critic_call: Option<Option<JsonModel>>,
    saved: Option<Option<EvaluationRecordModel>>,
) -> Option<EngineErrorModel> {
    if text_checksum(record.artifact.text) != record.artifact.checksum {
        Some(failure("evaluation"@, "artifact checksum mismatch"@))
    } else if status != "running"@ {
        Some(failure("evaluation"@, "evaluation requires a running task"@))
    } else {
        or_fault(
            key_fault(artifact_call, false),
            or_fault(
                if record.critic is Some {
                    key_fault(critic_call, true)
                } else {
                    None
                },
                record_fault(record, saved),
            ),
        )
    }
}

fn check_record(record: &EvaluationRecord, saved: Option<Option<&EvaluationRecord>>) -> (r: Result<
    (),
    EngineError,
>)
    ensures
        answers(
            r,
            record_fault(
                record.deep_view(),
                match saved {
                    Some(Some(e)) => Some(Some(e.deep_view())),
                    Some(None) => Some(None),
                    None => None,
                },
            ),
        ),
{
    match saved {
        None => Ok(()),
        Some(None) => Err(EngineError::new("storage", "invalid evaluation record")),
        Some(Some(earlier)) => {
            if record.same(earlier) {
                return Ok(());
            }
            if !record.task_id.same(&earlier.task_id) || !record.artifact.same(&earlier.artifact)
                || !record.deterministic.same(&earlier.deterministic)
                || earlier.critic.is_some() {
                return Err(EngineError::new("evaluation", "conflicting evaluation evidence"));
            }
            Ok(())
        },
    }
}

/// Checks an evaluation against what is saved. A saved candidate is immutable; only its absent
/// critic verdict may be added.
pub fn validate_evaluation(record: &EvaluationRecord, saved: &SavedEvidence<'_>) -> (r: Result<
    (),
    EngineError,
>)
    ensures
        answers(
            r,
            evaluation_fault(
                record.deep_view(),
                saved.status@,
                read_metadata(
                    match saved.artifact_call {
                        Some(t) => Some(t@),
                        None => None,
                    },
                ),
                read_metadata(
                    match saved.critic_call {
                        Some(t) => Some(t@),
                        None => None,
                    },
                ),
                match saved.record {
                    Some(Some(e)) => Some(Some(e.deep_view())),
                    Some(None) => Some(None),
                    None => None,
                },
            ),
        ),
{
    let checksum: String = checksum_of(record.artifact.text.as_str());
    if !same_text(checksum.as_str(), record.artifact.checksum.as_str()) {
        return Err(EngineError::new("evaluation", "artifact checksum mismatch"));
    }
    if !same_text(saved.status, "running") {
        return Err(EngineError::new("evaluation", "evaluation requires a running task"));
    }
    if let Err(e) = profile_key(saved.artifact_call, false, "") {
        return Err(e);
    }
    if record.critic.is_some() {
        if let Err(e) = profile_key(saved.critic_call, true, "") {
            return Err(e);
        }
    }
    check_record(record, saved.record)
}

/// A task that has ended.
pub open spec fn terminal(status: Seq<char>) -> bool {
    status == "completed"@ || status == "human_required"@ || status == "failed"@ || status
        == "cancelled"@
}

/// Whether a task has ended.
pub fn is_terminal(status: &str) -> (r: bool)
    ensures
        r == terminal(status@),
{
    same_text(status, "completed") || same_text(status, "human_required") || same_text(
        status,
        "failed",
    ) || same_text(status, "cancelled")
}

/// What is saved of the artifact that feedback is about: its task's status and plan, and its
/// record, which is unreadable where absent.
pub struct SavedArtifact<'a> {
    pub status: &'a str,
    pub plan: &'a str,
    pub record: Option<&'a EvaluationRecord>,
}

/// What is saved of an artifact, read.
#[verifier::ext_equal]
pub ghost struct SavedArtifactModel {
    pub status: Seq<char>,
    pub plan: Option<JsonModel>,
    pub record: Option<EvaluationRecordModel>,
}

impl<'a> SavedArtifact<'a> {
    pub open spec fn read(&self) -> SavedArtifactModel {
        SavedArtifactModel {
            status: self.status@,
            plan: parsed_json(self.plan@),
            record: match self.record {
                Some(r) => Some(r.deep_view()),
                None => None,
            },
        }
    }
}

/// The fault of feedback on a saved artifact.
pub open spec fn target_fault(feedback: FeedbackModel, saved: Option<SavedArtifactModel>) -> Option<
    EngineErrorModel,
> {
    match saved {
        None => Some(failure("feedback"@, "unknown artifact or wrong task"@)),
        Some(s) => if !terminal(s.status) {
            Some(failure("feedback"@, "feedback requires a terminal task"@))
        } else if s.plan is None {
            Some(failure("storage"@, "invalid saved plan"@))
        } else if s.plan->0.at("effective_plan"@).at("acceptance"@).at("version"@)
            != JsonModel::Text(feedback.evaluator_version) {
            Some(failure("feedback"@, "evaluator version does not match the task"@))
        } else if s.record is None {
            Some(failure("storage"@, "invalid saved evaluation"@))
        } else if feedback.kind == FeedbackKind::CriticCorrectness && s.record->0.critic is None {
            Some(failure("feedback"@, "artifact has no valid critic verdict"@))
        } else {
            None
        },
    }
}

/// The call that feedback is about: the critic's, or the one that made the artifact.
pub open spec fn target_call(feedback: FeedbackModel, record: EvaluationRecordModel) -> Seq<char> {
    if feedback.kind == FeedbackKind::CriticCorrectness {
        record.critic->0.attempt_id
    } else {
        record.artifact.attempt_id
    }
}

/// The call that feedback is about, by what is saved of its artifact.
pub fn feedback_target(feedback: &Feedback, saved: Option<&SavedArtifact<'_>>) -> (r: Result<
    String,
    EngineError,
>)
    ensures
        answers(
            r,
            target_fault(
                feedback.deep_view(),
                match saved {
                    Some(s) => Some(s.read()),
                    None => None,
                },
            ),
        ),
        r is Ok ==> r->Ok_0@ == target_call(
            feedback.deep_view(),
            saved->0.record->0.deep_view(),
        ),
{
    let plan: Option<Json> = match saved {
        Some(s) => parse(s.plan),
        None => None,
    };
    feedback_target_in(feedback, saved, plan)
}

/// The call that feedback is about, with the plan read as a value.
pub fn feedback_target_in(
    feedback: &Feedback,
    saved: Option<&SavedArtifact<'_>>,
    plan: Option<Json>,
) -> (r: Result<String, EngineError>)
    ensures
        answers(
            r,
            target_fault(
                feedback.deep_view(),
                match saved {
                    Some(s) => Some(
                        SavedArtifactModel {
                            plan: match plan {
                                Some(p) => Some(p@),
                                None => None,
                            },
                            ..s.read()
                        },
                    ),
                    None => None,
                },
            ),
        ),
        r is Ok ==> r->Ok_0@ == target_call(
            feedback.deep_view(),
            saved->0.record->0.deep_view(),
        ),
{
    let saved: &SavedArtifact<'_> = match saved {
        Some(s) => s,
        None => {
            return Err(EngineError::new("feedback", "unknown artifact or wrong task"));
        },
    };
    if !is_terminal(saved.status) {
        return Err(EngineError::new("feedback", "feedback requires a terminal task"));
    }
    let plan: Json = match plan {
        Some(p) => p,
        None => {
            return Err(EngineError::new("storage", "invalid saved plan"));
        },
    };
    let acceptance: Option<&Json> = member(member(Some(&plan), "effective_plan"), "acceptance");
    if !is_text(member(acceptance, "version"), feedback.evaluator_version.as_str()) {
        return Err(EngineError::new("feedback", "evaluator version does not match the task"));
    }
    let record: &EvaluationRecord = match saved.record {
        Some(r) => r,
        None => {
            return Err(EngineError::new("storage", "invalid saved evaluation"));
        },
    };
    if feedback.kind == FeedbackKind::CriticCorrectness {
        match &record.critic {
            Some(verdict) => Ok(verdict.attempt_id.clone()),
            None => Err(EngineError::new("feedback", "artifact has no valid critic verdict")),
        }
    } else {
        Ok(record.artifact.attempt_id.clone())
    }
}

/// What is done with feedback.
#[derive(Clone, Copy, Debug, PartialEq, Eq, Structural)]
pub enum FeedbackAction {
    /// It was saved before; nothing changes.
    AlreadySaved,
    /// It is to be held against its artifact and saved.
    Examine,
}

/// The fault of feedback under an ID that was used before.
pub open spec fn identity_fault(saved: Option<Seq<char>>, payload: Seq<char>) -> Option<
    EngineErrorModel,
> {
    if saved is Some && saved->0 != payload {
        Some(failure("feedback"@, "feedback ID conflicts with saved evidence"@))
    } else {
        None
    }
}

/// What is done with feedback whose serialized form is `payload`, by the form saved under its ID.
pub fn admit_feedback(feedback: &Feedback, saved: Option<&str>, payload: &str) -> (r: Result<
    FeedbackAction,
    EngineError,
>)
    ensures
        answers(
            r,
            or_fault(
                feedback.deep_view().fault(),
                identity_fault(
                    match saved {
                        Some(s) => Some(s@),
                        None => None,
                    },
                    payload@,
                ),
            ),
        ),
        r is Ok ==> r->Ok_0 == (if saved is Some {
            FeedbackAction::AlreadySaved
        } else {
            FeedbackAction::Examine
        }),
{
    if let Err(e) = feedback.validate() {
        return Err(e);
    }
    match saved {
        Some(s) => if same_text(s, payload) {
            Ok(FeedbackAction::AlreadySaved)
        } else {
            Err(EngineError::new("feedback", "feedback ID conflicts with saved evidence"))
        },
        None => Ok(FeedbackAction::Examine),
    }
}

/// The fault of a second feedback of one kind on an artifact.
pub open spec fn duplicate_fault(duplicate: bool) -> Option<EngineErrorModel> {
    if duplicate {
        Some(failure("feedback"@, "artifact already has feedback of this kind"@))
    } else {
        None
    }
}

/// Checks that an artifact has no feedback of the kind yet.
pub fn check_duplicate(duplicate: bool) -> (r: Result<(), EngineError>)
    ensures
        answers(r, duplicate_fault(duplicate)),
{
    if duplicate {
        return Err(EngineError::new("feedback", "artifact already has feedback of this kind"));
    }
    Ok(())
}

/// Why feedback is refused: by the form saved under its ID, what is saved of its artifact and of
/// the call that it is about, and whether the artifact has feedback of the kind.
pub open spec fn feedback_fault(
    feedback: FeedbackModel,
    payload: Seq<char>,
    saved: Option<Seq<char>>,
    artifact: Option<SavedArtifactModel>,
    call: Option<Option<JsonModel>>,
    duplicate: bool,
) -> Option<EngineErrorModel> {
    let identity = or_fault(feedback.fault(), identity_fault(saved, payload));
    if identity is Some || saved is Some {
        identity
    } else {
        or_fault(
            target_fault(feedback, artifact),
            or_fault(
                key_fault(call, feedback.kind == FeedbackKind::CriticCorrectness),
                duplicate_fault(duplicate),
            ),
        )
    }
}

/// Decides on feedback whose serialized form is `payload`: the key under which it is to be saved,
/// nothing where it was saved before. `call` holds the metadata of the call that it is about.
pub fn decide_feedback(
    feedback: &Feedback,
    payload: &str,
    saved: Option<&str>,
    artifact: Option<&SavedArtifact<'_>>,
    call: Option<&str>,
    duplicate: bool,
) -> (r: Result<Option<ProfileKey>, EngineError>)
    ensures
        answers(
            r,
            feedback_fault(
                feedback.deep_view(),
                payload@,
                match saved {
                    Some(s) => Some(s@),
                    None => None,
                },
                match artifact {
                    Some(a) => Some(a.read()),
                    None => None,
                },
                read_metadata(
                    match call {
                        Some(t) => Some(t@),
                        None => None,
                    },
                ),
                duplicate,
            ),
        ),
        r is Ok ==> r->Ok_0.deep_view() == (if saved is Some {
            None
        } else {
            routed_key(parsed_json(call->0@)->0, feedback.evaluator_version@)
        }),
{
    match admit_feedback(feedback, saved, payload) {
        Err(e) => {
            return Err(e);
        },
        Ok(FeedbackAction::AlreadySaved) => {
            return Ok(None);
        },
        Ok(FeedbackAction::Examine) => {},
    }
    if let Err(e) = feedback_target(feedback, artifact) {
        return Err(e);
    }
    let critic: bool = feedback.kind == FeedbackKind::CriticCorrectness;
    match profile_key(call, critic, feedback.evaluator_version.as_str()) {
        Err(e) => Err(e),
        Ok(key) => match check_duplicate(duplicate) {
            Err(e) => Err(e),
            Ok(()) => Ok(Some(key)),
        },
    }
}

/// A record that was accepted over an earlier one has the earlier artifact and deterministic
/// verdict, and the earlier critic's verdict where there was one.
pub proof fn lemma_evaluation_immutable(
    later: EvaluationRecordModel,
    earlier: EvaluationRecordModel,
)
    requires
        record_fault(later, Some(Some(earlier))) is None,
    ensures
        later.artifact == earlier.artifact,
        later.deterministic == earlier.deterministic,
        later.task_id == earlier.task_id,
        earlier.critic is Some ==> later.critic == earlier.critic,
{
}

/// Saved feedback.
#[verifier::ext_equal]
pub ghost struct FeedbackRow {
    pub artifact_id: Seq<char>,
    pub kind: FeedbackKind,
    pub payload: Seq<char>,
}

/// The feedback that is saved, by its IDs.
#[verifier::ext_equal]
pub ghost struct FeedbackBook {
    pub rows: Map<Seq<char>, FeedbackRow>,
}

impl FeedbackBook {
    /// The artifact has feedback of the kind.
    pub open spec fn has(self, artifact_id: Seq<char>, kind: FeedbackKind) -> bool {
        exists|id: Seq<char>| #[trigger]
            self.rows.contains_key(id) && self.rows[id].artifact_id == artifact_id
                && self.rows[id].kind == kind
    }

    /// The form saved under an ID.
    pub open spec fn saved(self, id: Seq<char>) -> Option<Seq<char>> {
        if self.rows.contains_key(id) {
            Some(self.rows[id].payload)
        } else {
            None
        }
    }

    /// Why feedback is refused, by what is saved of its artifact and of the call that it is about.
    pub open spec fn fault(
        self,
        feedback: FeedbackModel,
        payload: Seq<char>,
        artifact: Option<SavedArtifactModel>,
        call: Option<Option<JsonModel>>,
    ) -> Option<EngineErrorModel> {
        feedback_fault(
            feedback,
            payload,
            self.saved(feedback.feedback_id),
            artifact,
            call,
            self.has(feedback.artifact_id, feedback.kind),
        )
    }

    /// What is saved after feedback came.
    pub open spec fn after(
        self,
        feedback: FeedbackModel,
        payload: Seq<char>,
        artifact: Option<SavedArtifactModel>,
        call: Option<Option<JsonModel>>,
    ) -> FeedbackBook {
        if self.fault(feedback, payload, artifact, call) is Some || self.rows.contains_key(
            feedback.feedback_id,
        ) {
            self
        } else {
            FeedbackBook {
                rows: self.rows.insert(
                    feedback.feedback_id,
                    FeedbackRow {
                        artifact_id: feedback.artifact_id,
                        kind: feedback.kind,
                        payload,
                    },
                ),
            }
        }
    }

    /// No artifact has two feedbacks of one kind.
    pub open spec fn single(self) -> bool {
        forall|a: Seq<char>, b: Seq<char>| #[trigger]
            self.rows.contains_key(a) && #[trigger] self.rows.contains_key(b)
                && self.rows[a].artifact_id == self.rows[b].artifact_id && self.rows[a].kind
                == self.rows[b].kind ==> a == b
    }
}

/// Feedback is idempotent: feedback that was accepted is accepted again in the same form, whatever
/// became of its task since, and nothing changes by it.
pub proof fn lemma_feedback_idempotent(
    book: FeedbackBook,
    feedback: FeedbackModel,
    payload: Seq<char>,
    artifact: Option<SavedArtifactModel>,
    call: Option<Option<JsonModel>>,
    later_artifact: Option<SavedArtifactModel>,
    later_call: Option<Option<JsonModel>>,
)
    requires
        book.fault(feedback, payload, artifact, call) is None,
    ensures
        ({
            let once = book.after(feedback, payload, artifact, call);
            &&& once.saved(feedback.feedback_id) == Some(payload)
            &&& once.fault(feedback, payload, later_artifact, later_call) is None
            &&& once.after(feedback, payload, later_artifact, later_call) == once
        }),
{
}

/// Saved feedback stays as it is: no later feedback changes it, or joins it as a second of its
/// kind on one artifact.
pub proof fn lemma_feedback_kept(
    book: FeedbackBook,
    feedback: FeedbackModel,
    payload: Seq<char>,
    artifact: Option<SavedArtifactModel>,
    call: Option<Option<JsonModel>>,
)
    requires
        book.single(),
    ensures
        ({
            let next = book.after(feedback, payload, artifact, call);
            &&& next.single()
            &&& forall|id: Seq<char>| #[trigger]
                book.rows.contains_key(id) ==> next.rows.contains_key(id) && next.rows[id]
                    == book.rows[id]
        }),
{
}

/// Each type of task has a name, and no other name is a type's.
pub proof fn lemma_names_of_types(name: Seq<char>)
    ensures
        task_type_of("general"@) == Some(TaskType::General),
        task_type_of("code_generation"@) == Some(TaskType::CodeGeneration),
        task_type_of("code_review"@) == Some(TaskType::CodeReview),
        task_type_of("information_extraction"@) == Some(TaskType::InformationExtraction),
        task_type_of("reasoning"@) == Some(TaskType::Reasoning),
        task_type_of("writing"@) == Some(TaskType::Writing),
        task_type_of("tool_execution"@) == Some(TaskType::ToolExecution),
        task_type_of(name) is Some ==> {
            ||| name == "general"@
            ||| name == "code_generation"@
            ||| name == "code_review"@
            ||| name == "information_extraction"@
            ||| name == "reasoning"@
            ||| name == "writing"@
            ||| name == "tool_execution"@
        },
{
    lemma_type_names();
}

/// What a call's metadata must tell for its quality to be counted: which model in which version was
/// called, for which type of task and in which role.
pub open spec fn tells_its_route(metadata: JsonModel) -> bool {
    let route = metadata.at("route"@);
    let requested = route.at("quality"@).at("requested"@);
    &&& route.at("model_id"@) is Text && route.at("model_version"@) is Text
    &&& requested.at("role"@) is Text
    &&& requested.at("task_type"@) is Text && task_type_of(requested.at("task_type"@)->Text_0)
        is Some
}

/// A call is counted under the model, version, type and role that its metadata tell, and under the
/// version of what evaluates it.
pub proof fn lemma_call_is_counted_by_its_route(metadata: JsonModel, evaluator: Seq<char>)
    ensures
        routed_key(metadata, evaluator) is Some <==> tells_its_route(metadata),
        tells_its_route(metadata) ==> {
            let key = routed_key(metadata, evaluator)->0;
            let route = metadata.at("route"@);
            let requested = route.at("quality"@).at("requested"@);
            &&& route.at("model_id"@) == JsonModel::Text(key.model_id)
            &&& route.at("model_version"@) == JsonModel::Text(key.model_version)
            &&& requested.at("role"@) == JsonModel::Text(key.role)
            &&& task_type_of(requested.at("task_type"@)->Text_0) == Some(key.task_type)
            &&& key.evaluator_version == evaluator
        },
{
}

/// Whether a saved call is one of the role: a critic's call, or a call that makes artifacts.
pub open spec fn is_call_of_role(call: Option<Option<JsonModel>>, critic: bool) -> bool {
    &&& call is Some && call->0 is Some
    &&& tells_its_route(call->0->0)
    &&& if critic {
        call->0->0.at("route"@).at("node_id"@) == JsonModel::Text("critic"@)
    } else {
        call->0->0.at("route"@).at("node_id"@) == JsonModel::Text("invoke"@)
            || call->0->0.at("route"@).at("node_id"@) == JsonModel::Text("generator"@)
    }
}

proof fn lemma_call_of_role(call: Option<Option<JsonModel>>, critic: bool)
    ensures
        key_fault(call, critic) is None <==> is_call_of_role(call, critic),
{
    if call is Some && call->0 is Some {
        lemma_call_is_counted_by_its_route(call->0->0, Seq::empty());
        reveal_strlit("critic");
        reveal_strlit("invoke");
        reveal_strlit("generator");
        assert("critic"@.len() == 6 && "invoke"@.len() == 6 && "generator"@.len() == 9);
    }
}

/// An evaluation is accepted exactly where the artifact has the checksum of its text, the task
/// runs, the artifact comes of a call that makes artifacts, a critic's verdict comes of a critic's
/// call, and what was saved for the artifact before is the same, or lacked only the critic's
/// verdict.
pub proof fn lemma_evaluation_is_owed(
    record: EvaluationRecordModel,
    status: Seq<char>,
    artifact_call: Option<Option<JsonModel>>,
    critic_call: Option<Option<JsonModel>>,
    saved: Option<Option<EvaluationRecordModel>>,
)
    ensures
        evaluation_fault(record, status, artifact_call, critic_call, saved) is None <==> {
            &&& text_checksum(record.artifact.text) == record.artifact.checksum
            &&& status == "running"@
            &&& is_call_of_role(artifact_call, false)
            &&& record.critic is Some ==> is_call_of_role(critic_call, true)
            &&& saved is None || saved->0 is Some && ({
                let earlier = saved->0->0;
                ||| record == earlier
                ||| record.task_id == earlier.task_id && record.artifact == earlier.artifact
                    && record.deterministic == earlier.deterministic && earlier.critic is None
            })
        },
{
    lemma_call_of_role(artifact_call, false);
    lemma_call_of_role(critic_call, true);
}

/// New feedback is accepted exactly where it is valid, its artifact is one of its task, the task
/// has ended, what is accepted had the version that the feedback speaks of, there is a critic's
/// verdict where the feedback is about one, the call is one of that role, and the artifact has no
/// feedback of the kind. Feedback that came before is accepted in the form it had, and in no other.
pub proof fn lemma_feedback_is_owed(
    feedback: FeedbackModel,
    payload: Seq<char>,
    saved: Option<Seq<char>>,
    artifact: Option<SavedArtifactModel>,
    call: Option<Option<JsonModel>>,
    duplicate: bool,
)
    ensures
        ({
            let fault = feedback_fault(feedback, payload, saved, artifact, call, duplicate);
            let critic = feedback.kind == FeedbackKind::CriticCorrectness;
            &&& saved is Some ==> (fault is None <==> feedback.fault() is None && saved == Some(
                payload,
            ))
            &&& saved is None ==> (fault is None <==> {
                &&& feedback.fault() is None
                &&& artifact is Some
                &&& ({
                    ||| artifact->0.status == "completed"@
                    ||| artifact->0.status == "human_required"@
                    ||| artifact->0.status == "failed"@
                    ||| artifact->0.status == "cancelled"@
                })
                &&& artifact->0.plan is Some
                &&& artifact->0.plan->0.at("effective_plan"@).at("acceptance"@).at("version"@)
                    == JsonModel::Text(feedback.evaluator_version)
                &&& artifact->0.record is Some
                &&& critic ==> artifact->0.record->0.critic is Some
                &&& is_call_of_role(call, critic)
                &&& !duplicate
            })
        }),
{
    lemma_call_of_role(call, feedback.kind == FeedbackKind::CriticCorrectness);
}

/// Feedback on a critic is about the critic's call, other feedback about the artifact's.
pub proof fn lemma_feedback_is_about_its_call(
    feedback: FeedbackModel,
    record: EvaluationRecordModel,
)
    ensures
        feedback.kind == FeedbackKind::CriticCorrectness ==> target_call(feedback, record)
            == record.critic->0.attempt_id,
        feedback.kind != FeedbackKind::CriticCorrectness ==> target_call(feedback, record)
            == record.artifact.attempt_id,
{
}

proof fn lemma_type_names()
    ensures
        "general"@ != "code_generation"@,
        "general"@ != "code_review"@,
        "general"@ != "information_extraction"@,
        "general"@ != "reasoning"@,
        "general"@ != "writing"@,
        "general"@ != "tool_execution"@,
        "code_generation"@ != "code_review"@,
        "code_generation"@ != "information_extraction"@,
        "code_generation"@ != "reasoning"@,
        "code_generation"@ != "writing"@,
        "code_generation"@ != "tool_execution"@,
        "code_review"@ != "information_extraction"@,
        "code_review"@ != "reasoning"@,
        "code_review"@ != "writing"@,
        "code_review"@ != "tool_execution"@,
        "information_extraction"@ != "reasoning"@,
        "information_extraction"@ != "writing"@,
        "information_extraction"@ != "tool_execution"@,
        "reasoning"@ != "writing"@,
        "reasoning"@ != "tool_execution"@,
        "writing"@ != "tool_execution"@,
{
    reveal_strlit("general");
    reveal_strlit("code_generation");
    reveal_strlit("code_review");
    reveal_strlit("information_extraction");
    reveal_strlit("reasoning");
    reveal_strlit("writing");
    reveal_strlit("tool_execution");
    assert("general"@.len() == 7);
    assert("code_generation"@.len() == 15);
    assert("code_review"@.len() == 11);
    assert("information_extraction"@.len() == 22);
    assert("reasoning"@.len() == 9);
    assert("writing"@.len() == 7);
    assert("tool_execution"@.len() == 14);
    assert("general"@[0] != "writing"@[0]);
}

/// The checksum of a text is that of its JSON form, in hexadecimal digits. Saved metadata are read as
/// JSON, where there are any.
pub proof fn lemma_what_is_read_of_a_call(text: Seq<char>)
    ensures
        text_checksum(text) == hex(sha256(encode_utf8(json_text(JsonModel::Text(text))))),
        read_metadata(Some(text)) == Some(parsed_json(text)),
        read_metadata(None) is None,
{
}

} // verus!
