//! Vendor-neutral typed decision assessment contracts.
use crate::assessment::{ExecutionClass, TaskFactValue, TaskFactValueModel};
use crate::binary64::{number, Binary64, NEAR_ONE_HIGH, NEAR_ONE_LOW};
use crate::fault::{
    answers, field_error, field_failure, first_fault, lemma_first_fault, lemma_first_fault_is_one,
    or_fault, EngineError, EngineErrorModel,
};
use crate::model::Duplicate;
use crate::text::{blank, has_text, is_blank, join3, same_text, texts, TextMap, TextSet};
use vstd::prelude::*;
use vstd::set_lib::lemma_subset_equality;

verus! {

/// How many questions a request may ask.
pub const MAX_QUESTIONS: usize = 32;

/// How many options a choice may offer.
pub const MAX_OPTIONS: usize = 32;

/// How many values a state may hold.
pub const MAX_STATE_VALUES: usize = 64;

/// The greatest cost that the ledger holds.
pub const LEDGER_MAX: u64 = 0x7fff_ffff_ffff_ffff;

/// What a question asks for.
#[derive(Debug)]
pub enum DecisionQuestionKind {
    Choice { options: Vec<String> },
    Score { minimum: Binary64, maximum: Binary64 },
    BooleanProbability,
}

/// What a question asks for.
#[verifier::ext_equal]
pub ghost enum DecisionQuestionKindModel {
    Choice { options: Seq<Seq<char>> },
    Score { minimum: Binary64, maximum: Binary64 },
    BooleanProbability,
}

impl DeepView for DecisionQuestionKind {
    type V = DecisionQuestionKindModel;

    open spec fn deep_view(&self) -> DecisionQuestionKindModel {
        match self {
            DecisionQuestionKind::Choice { options } => DecisionQuestionKindModel::Choice {
                options: options.deep_view(),
            },
            DecisionQuestionKind::Score { minimum, maximum } => DecisionQuestionKindModel::Score {
                minimum: *minimum,
                maximum: *maximum,
            },
            DecisionQuestionKind::BooleanProbability => {
                DecisionQuestionKindModel::BooleanProbability
            },
        }
    }
}

impl Duplicate for DecisionQuestionKind {
    fn duplicate(&self) -> (r: Self) {
        match self {
            DecisionQuestionKind::Choice { options } => DecisionQuestionKind::Choice {
                options: options.duplicate(),
            },
            DecisionQuestionKind::Score { minimum, maximum } => DecisionQuestionKind::Score {
                minimum: *minimum,
                maximum: *maximum,
            },
            DecisionQuestionKind::BooleanProbability => DecisionQuestionKind::BooleanProbability,
        }
    }
}

impl Clone for DecisionQuestionKind {
    fn clone(&self) -> (r: Self)
        ensures
            r.deep_view() == self.deep_view(),
    {
        self.duplicate()
    }
}

/// An answer.
#[derive(Debug)]
pub enum DecisionValue {
    Choice(String),
    Score(Binary64),
    Boolean(bool),
}

/// What an answer is.
#[verifier::ext_equal]
pub ghost enum DecisionValueModel {
    Choice(Seq<char>),
    Score(Binary64),
    Boolean(bool),
}

impl DeepView for DecisionValue {
    type V = DecisionValueModel;

    open spec fn deep_view(&self) -> DecisionValueModel {
        match self {
            DecisionValue::Choice(s) => DecisionValueModel::Choice(s@),
            DecisionValue::Score(x) => DecisionValueModel::Score(*x),
            DecisionValue::Boolean(b) => DecisionValueModel::Boolean(*b),
        }
    }
}

impl Duplicate for DecisionValue {
    fn duplicate(&self) -> (r: Self) {
        match self {
            DecisionValue::Choice(s) => DecisionValue::Choice(s.clone()),
            DecisionValue::Score(x) => DecisionValue::Score(*x),
            DecisionValue::Boolean(b) => DecisionValue::Boolean(*b),
        }
    }
}

impl Clone for DecisionValue {
    fn clone(&self) -> (r: Self)
        ensures
            r.deep_view() == self.deep_view(),
    {
        self.duplicate()
    }
}

/// What is known when the questions are asked.
#[derive(Debug)]
pub struct DecisionState {
    pub version: String,
    pub values: TextMap<TaskFactValue>,
}

/// What a `DecisionState` holds.
#[verifier::ext_equal]
pub ghost struct DecisionStateModel {
    pub version: Seq<char>,
    pub values: Map<Seq<char>, TaskFactValueModel>,
}

impl DeepView for DecisionState {
    type V = DecisionStateModel;

    open spec fn deep_view(&self) -> DecisionStateModel {
        DecisionStateModel {
            version: self.version.deep_view(),
            values: self.values.deep_view(),
        }
    }
}

impl Duplicate for DecisionState {
    fn duplicate(&self) -> (r: Self) {
        DecisionState {
            version: self.version.duplicate(),
            values: self.values.duplicate(),
        }
    }
}

impl Clone for DecisionState {
    fn clone(&self) -> (r: Self)
        ensures
            r.deep_view() == self.deep_view(),
    {
        self.duplicate()
    }
}

#[derive(Debug)]
pub struct DecisionQuestion {
    pub id: String,
    pub kind: DecisionQuestionKind,
}

/// What a `DecisionQuestion` holds.
#[verifier::ext_equal]
pub ghost struct DecisionQuestionModel {
    pub id: Seq<char>,
    pub kind: DecisionQuestionKindModel,
}

impl DeepView for DecisionQuestion {
    type V = DecisionQuestionModel;

    open spec fn deep_view(&self) -> DecisionQuestionModel {
        DecisionQuestionModel {
            id: self.id.deep_view(),
            kind: self.kind.deep_view(),
        }
    }
}

impl Duplicate for DecisionQuestion {
    fn duplicate(&self) -> (r: Self) {
        DecisionQuestion {
            id: self.id.duplicate(),
            kind: self.kind.duplicate(),
        }
    }
}

impl Clone for DecisionQuestion {
    fn clone(&self) -> (r: Self)
        ensures
            r.deep_view() == self.deep_view(),
    {
        self.duplicate()
    }
}

/// Questions to a decision model.
#[derive(Debug)]
pub struct DecisionRequest {
    pub question_set_version: String,
    pub state: DecisionState,
    pub questions: Vec<DecisionQuestion>,
}

/// What a `DecisionRequest` holds.
#[verifier::ext_equal]
pub ghost struct DecisionRequestModel {
    pub question_set_version: Seq<char>,
    pub state: DecisionStateModel,
    pub questions: Seq<DecisionQuestionModel>,
}

impl DeepView for DecisionRequest {
    type V = DecisionRequestModel;

    open spec fn deep_view(&self) -> DecisionRequestModel {
        DecisionRequestModel {
            question_set_version: self.question_set_version.deep_view(),
            state: self.state.deep_view(),
            questions: self.questions.deep_view(),
        }
    }
}

impl Duplicate for DecisionRequest {
    fn duplicate(&self) -> (r: Self) {
        DecisionRequest {
            question_set_version: self.question_set_version.duplicate(),
            state: self.state.duplicate(),
            questions: self.questions.duplicate(),
        }
    }
}

impl Clone for DecisionRequest {
    fn clone(&self) -> (r: Self)
        ensures
            r.deep_view() == self.deep_view(),
    {
        self.duplicate()
    }
}

/// An answer with the probability of each outcome.
#[derive(Debug)]
pub struct DecisionSignal {
    pub question_id: String,
    pub value: DecisionValue,
    pub probabilities: TextMap<Binary64>,
    /// The sum of `probabilities`, added in binary64 in the order of their names.
    pub probability_total: Binary64,
    pub confidence: Option<Binary64>,
}

/// What a `DecisionSignal` holds.
#[verifier::ext_equal]
pub ghost struct DecisionSignalModel {
    pub question_id: Seq<char>,
    pub value: DecisionValueModel,
    pub probabilities: Map<Seq<char>, Binary64>,
    pub probability_total: Binary64,
    pub confidence: Option<Binary64>,
}

impl DeepView for DecisionSignal {
    type V = DecisionSignalModel;

    open spec fn deep_view(&self) -> DecisionSignalModel {
        DecisionSignalModel {
            question_id: self.question_id.deep_view(),
            value: self.value.deep_view(),
            probabilities: self.probabilities.deep_view(),
            probability_total: self.probability_total.deep_view(),
            confidence: self.confidence.deep_view(),
        }
    }
}

impl Duplicate for DecisionSignal {
    fn duplicate(&self) -> (r: Self) {
        DecisionSignal {
            question_id: self.question_id.duplicate(),
            value: self.value.duplicate(),
            probabilities: self.probabilities.duplicate(),
            probability_total: self.probability_total.duplicate(),
            confidence: self.confidence.duplicate(),
        }
    }
}

impl Clone for DecisionSignal {
    fn clone(&self) -> (r: Self)
        ensures
            r.deep_view() == self.deep_view(),
    {
        self.duplicate()
    }
}

/// The answers of a decision model.
#[derive(Debug)]
pub struct DecisionAssessment {
    pub question_set_version: String,
    pub adapter_id: String,
    pub actual_model: String,
    pub signals: Vec<DecisionSignal>,
    pub actual_cost: Option<u64>,
}

/// What a `DecisionAssessment` holds.
#[verifier::ext_equal]
pub ghost struct DecisionAssessmentModel {
    pub question_set_version: Seq<char>,
    pub adapter_id: Seq<char>,
    pub actual_model: Seq<char>,
    pub signals: Seq<DecisionSignalModel>,
    pub actual_cost: Option<u64>,
}

impl DeepView for DecisionAssessment {
    type V = DecisionAssessmentModel;

    open spec fn deep_view(&self) -> DecisionAssessmentModel {
        DecisionAssessmentModel {
            question_set_version: self.question_set_version.deep_view(),
            adapter_id: self.adapter_id.deep_view(),
            actual_model: self.actual_model.deep_view(),
            signals: self.signals.deep_view(),
            actual_cost: self.actual_cost.deep_view(),
        }
    }
}

impl Duplicate for DecisionAssessment {
    fn duplicate(&self) -> (r: Self) {
        DecisionAssessment {
            question_set_version: self.question_set_version.duplicate(),
            adapter_id: self.adapter_id.duplicate(),
            actual_model: self.actual_model.duplicate(),
            signals: self.signals.duplicate(),
            actual_cost: self.actual_cost.duplicate(),
        }
    }
}

impl Clone for DecisionAssessment {
    fn clone(&self) -> (r: Self)
        ensures
            r.deep_view() == self.deep_view(),
    {
        self.duplicate()
    }
}

/// Asks for a class where an outcome is probable enough.
#[derive(Debug)]
pub struct DecisionPolicyRule {
    pub question_id: String,
    pub outcome: String,
    /// `outcome` read as a binary64 number, where it is one.
    pub outcome_score: Option<Binary64>,
    pub minimum_probability: Binary64,
    /// `minimum_probability` with three decimals.
    pub threshold_text: String,
    pub execution_class: ExecutionClass,
    pub needs_clarification: bool,
}

/// What a `DecisionPolicyRule` holds.
#[verifier::ext_equal]
pub ghost struct DecisionPolicyRuleModel {
    pub question_id: Seq<char>,
    pub outcome: Seq<char>,
    pub outcome_score: Option<Binary64>,
    pub minimum_probability: Binary64,
    pub threshold_text: Seq<char>,
    pub execution_class: ExecutionClass,
    pub needs_clarification: bool,
}

impl DeepView for DecisionPolicyRule {
    type V = DecisionPolicyRuleModel;

    open spec fn deep_view(&self) -> DecisionPolicyRuleModel {
        DecisionPolicyRuleModel {
            question_id: self.question_id.deep_view(),
            outcome: self.outcome.deep_view(),
            outcome_score: self.outcome_score.deep_view(),
            minimum_probability: self.minimum_probability.deep_view(),
            threshold_text: self.threshold_text.deep_view(),
            execution_class: self.execution_class.deep_view(),
            needs_clarification: self.needs_clarification.deep_view(),
        }
    }
}

impl Duplicate for DecisionPolicyRule {
    fn duplicate(&self) -> (r: Self) {
        DecisionPolicyRule {
            question_id: self.question_id.duplicate(),
            outcome: self.outcome.duplicate(),
            outcome_score: self.outcome_score.duplicate(),
            minimum_probability: self.minimum_probability.duplicate(),
            threshold_text: self.threshold_text.duplicate(),
            execution_class: self.execution_class.duplicate(),
            needs_clarification: self.needs_clarification.duplicate(),
        }
    }
}

impl Clone for DecisionPolicyRule {
    fn clone(&self) -> (r: Self)
        ensures
            r.deep_view() == self.deep_view(),
    {
        self.duplicate()
    }
}

/// A versioned list of policy rules.
#[derive(Debug)]
pub struct DecisionPolicy {
    pub version: String,
    pub rules: Vec<DecisionPolicyRule>,
}

/// What a `DecisionPolicy` holds.
#[verifier::ext_equal]
pub ghost struct DecisionPolicyModel {
    pub version: Seq<char>,
    pub rules: Seq<DecisionPolicyRuleModel>,
}

impl DeepView for DecisionPolicy {
    type V = DecisionPolicyModel;

    open spec fn deep_view(&self) -> DecisionPolicyModel {
        DecisionPolicyModel {
            version: self.version.deep_view(),
            rules: self.rules.deep_view(),
        }
    }
}

impl Duplicate for DecisionPolicy {
    fn duplicate(&self) -> (r: Self) {
        DecisionPolicy {
            version: self.version.duplicate(),
            rules: self.rules.duplicate(),
        }
    }
}

impl Clone for DecisionPolicy {
    fn clone(&self) -> (r: Self)
        ensures
            r.deep_view() == self.deep_view(),
    {
        self.duplicate()
    }
}

/// Questions and policy of an engine.
#[derive(Debug)]
pub struct DecisionConfig {
    pub question_set_version: String,
    pub questions: Vec<DecisionQuestion>,
    pub policy: DecisionPolicy,
    pub max_cost: u64,
}

/// What a `DecisionConfig` holds.
#[verifier::ext_equal]
pub ghost struct DecisionConfigModel {
    pub question_set_version: Seq<char>,
    pub questions: Seq<DecisionQuestionModel>,
    pub policy: DecisionPolicyModel,
    pub max_cost: u64,
}

impl DeepView for DecisionConfig {
    type V = DecisionConfigModel;

    open spec fn deep_view(&self) -> DecisionConfigModel {
        DecisionConfigModel {
            question_set_version: self.question_set_version.deep_view(),
            questions: self.questions.deep_view(),
            policy: self.policy.deep_view(),
            max_cost: self.max_cost.deep_view(),
        }
    }
}

impl Duplicate for DecisionConfig {
    fn duplicate(&self) -> (r: Self) {
        DecisionConfig {
            question_set_version: self.question_set_version.duplicate(),
            questions: self.questions.duplicate(),
            policy: self.policy.duplicate(),
            max_cost: self.max_cost.duplicate(),
        }
    }
}

impl Clone for DecisionConfig {
    fn clone(&self) -> (r: Self)
        ensures
            r.deep_view() == self.deep_view(),
    {
        self.duplicate()
    }
}

/// What a policy makes of an assessment.
#[derive(Debug)]
pub struct DecisionRecommendation {
    pub policy_version: String,
    pub execution_class: ExecutionClass,
    pub needs_clarification: bool,
    pub reasons: Vec<String>,
}

/// What a `DecisionRecommendation` holds.
#[verifier::ext_equal]
pub ghost struct DecisionRecommendationModel {
    pub policy_version: Seq<char>,
    pub execution_class: ExecutionClass,
    pub needs_clarification: bool,
    pub reasons: Seq<Seq<char>>,
}

impl DeepView for DecisionRecommendation {
    type V = DecisionRecommendationModel;

    open spec fn deep_view(&self) -> DecisionRecommendationModel {
        DecisionRecommendationModel {
            policy_version: self.policy_version.deep_view(),
            execution_class: self.execution_class.deep_view(),
            needs_clarification: self.needs_clarification.deep_view(),
            reasons: self.reasons.deep_view(),
        }
    }
}

impl Duplicate for DecisionRecommendation {
    fn duplicate(&self) -> (r: Self) {
        DecisionRecommendation {
            policy_version: self.policy_version.duplicate(),
            execution_class: self.execution_class.duplicate(),
            needs_clarification: self.needs_clarification.duplicate(),
            reasons: self.reasons.duplicate(),
        }
    }
}

impl Clone for DecisionRecommendation {
    fn clone(&self) -> (r: Self)
        ensures
            r.deep_view() == self.deep_view(),
    {
        self.duplicate()
    }
}

/// The fault of a text in a field.
pub open spec fn nonempty_fault(field: Seq<char>, value: Seq<char>) -> Option<EngineErrorModel> {
    if blank(value) {
        Some(invalid_model(field, "value must be nonempty"@))
    } else {
        None
    }
}

/// An error of this module that names a field.
pub open spec fn invalid_model(field: Seq<char>, message: Seq<char>) -> EngineErrorModel {
    field_failure("decision"@, field, message)
}

fn invalid(field: &str, message: &str) -> (r: EngineError)
    ensures
        r.deep_view() == invalid_model(field@, message@),
{
    field_error("decision", field, message)
}

fn validate_nonempty(field: &str, value: &str) -> (r: Result<(), EngineError>)
    ensures
        answers(r, nonempty_fault(field@, value@)),
{
    if is_blank(value) {
        Err(invalid(field, "value must be nonempty"))
    } else {
        Ok(())
    }
}

/// The faults of the options of a choice.
pub open spec fn option_faults(options: Seq<Seq<char>>) -> spec_fn(int) -> Option<
    EngineErrorModel,
> {
    |i: int|
        or_fault(
            nonempty_fault("question.options"@, options[i]),
            if exists|j: int| 0 <= j < i && #[trigger] options[j] == options[i] {
                Some(invalid_model("question.options"@, "duplicate option"@))
            } else {
                None
            },
        )
}

impl DecisionQuestionKindModel {
    pub open spec fn fault(self) -> Option<EngineErrorModel> {
        match self {
            DecisionQuestionKindModel::Choice { options } => if options.len() == 0 || options.len()
                > MAX_OPTIONS {
                Some(invalid_model("question.options"@, "invalid option count"@))
            } else {
                first_fault(option_faults(options), options.len())
            },
            DecisionQuestionKindModel::Score { minimum, maximum } => if minimum.finite()
                && maximum.finite() && minimum.less(maximum) {
                None
            } else {
                Some(invalid_model("question.range"@, "invalid score range"@))
            },
            DecisionQuestionKindModel::BooleanProbability => None,
        }
    }
}

fn validate_options(options: &Vec<String>) -> (r: Result<(), EngineError>)
    ensures
        answers(r, first_fault(option_faults(options.deep_view()), options@.len())),
{
    let ghost all = options.deep_view();
    let ghost faults = option_faults(all);
    let mut unique: TextSet = TextSet::new();
    let mut i: usize = 0;
    while i < options.len()
        invariant
            i <= options@.len(),
            all == options.deep_view(),
            faults == option_faults(all),
            first_fault(faults, i as nat) is None,
            forall|t: Seq<char>| #[trigger]
                unique.has(t) <==> (exists|j: int| 0 <= j < i && #[trigger] all[j] == t),
        decreases options@.len() - i,
    {
        proof {
            assert(all[i as int] == options@[i as int]@);
            if faults(i as int) is Some {
                lemma_first_fault(faults, i as nat, options@.len());
            }
        }
        if let Err(e) = validate_nonempty("question.options", options[i].as_str()) {
            return Err(e);
        }
        let ghost known = unique;
        if !unique.insert(options[i].clone()) {
            return Err(invalid("question.options", "duplicate option"));
        }
        proof {
            assert forall|t: Seq<char>| #[trigger]
                unique.has(t) <==> (exists|j: int| 0 <= j < i + 1 && #[trigger] all[j] == t) by {
                assert(unique.has(t) <==> known.has(t) || t == all[i as int]);
            }
        }
        i += 1;
    }
    Ok(())
}

fn validate_question_kind(kind: &DecisionQuestionKind) -> (r: Result<(), EngineError>)
    ensures
        answers(r, kind.deep_view().fault()),
{
    match kind {
        DecisionQuestionKind::Choice { options } => {
            if options.len() == 0 || options.len() > MAX_OPTIONS {
                return Err(invalid("question.options", "invalid option count"));
            }
            validate_options(options)
        },
        DecisionQuestionKind::Score { minimum, maximum } => {
            if !minimum.is_finite() || !maximum.is_finite() || !minimum.lt(*maximum) {
                return Err(invalid("question.range", "invalid score range"));
            }
            Ok(())
        },
        DecisionQuestionKind::BooleanProbability => Ok(()),
    }
}

impl DecisionRequestModel {
    pub open spec fn question_faults(self) -> spec_fn(int) -> Option<EngineErrorModel> {
        |i: int|
            {
                let question = self.questions[i];
                or_fault(
                    nonempty_fault("question.id"@, question.id),
                    or_fault(
                        if exists|j: int|
                            0 <= j < i && (#[trigger] self.questions[j]).id == question.id {
                            Some(invalid_model("question.id"@, "duplicate question ID"@))
                        } else {
                            None
                        },
                        question.kind.fault(),
                    ),
                )
            }
    }

    pub open spec fn fault(self) -> Option<EngineErrorModel> {
        or_fault(
            nonempty_fault("question_set_version"@, self.question_set_version),
            or_fault(
                nonempty_fault("state.version"@, self.state.version),
                if self.state.values.dom().len() > MAX_STATE_VALUES {
                    Some(invalid_model("state.values"@, "too many state values"@))
                } else if self.questions.len() == 0 || self.questions.len() > MAX_QUESTIONS {
                    Some(invalid_model("questions"@, "invalid question count"@))
                } else {
                    first_fault(self.question_faults(), self.questions.len())
                },
            ),
        )
    }

    /// `i` is the last question of that name.
    pub open spec fn asked_at(self, id: Seq<char>, i: int) -> bool {
        &&& 0 <= i < self.questions.len()
        &&& self.questions[i].id == id
        &&& forall|j: int| i < j < self.questions.len() ==> (#[trigger] self.questions[j]).id != id
    }

    /// Some question has that name.
    pub open spec fn asks(self, id: Seq<char>) -> bool {
        exists|i: int| #[trigger] self.asked_at(id, i)
    }

    /// What the question of that name asks for.
    pub open spec fn kind_of(self, id: Seq<char>) -> DecisionQuestionKindModel {
        self.questions[choose|i: int| self.asked_at(id, i)].kind
    }
}

impl DecisionRequest {
    pub fn validate(&self) -> (r: Result<(), EngineError>)
        ensures
            answers(r, self.deep_view().fault()),
    {
        if let Err(e) = validate_nonempty(
            "question_set_version",
            self.question_set_version.as_str(),
        ) {
            return Err(e);
        }
        if let Err(e) = validate_nonempty("state.version", self.state.version.as_str()) {
            return Err(e);
        }
        assert(self.state.values.deep_view().dom() =~= self.state.values.key_set());
        if self.state.values.len() > MAX_STATE_VALUES {
            return Err(invalid("state.values", "too many state values"));
        }
        if self.questions.len() == 0 || self.questions.len() > MAX_QUESTIONS {
            return Err(invalid("questions", "invalid question count"));
        }
        self.validate_questions()
    }

    fn validate_questions(&self) -> (r: Result<(), EngineError>)
        ensures
            answers(r, first_fault(self.deep_view().question_faults(), self.questions@.len())),
    {
        let ghost request = self.deep_view();
        let ghost faults = request.question_faults();
        let mut ids: TextSet = TextSet::new();
        let mut i: usize = 0;
        while i < self.questions.len()
            invariant
                i <= self.questions@.len(),
                request == self.deep_view(),
                faults == request.question_faults(),
                first_fault(faults, i as nat) is None,
                forall|t: Seq<char>| #[trigger]
                    ids.has(t) <==> (exists|j: int|
                        0 <= j < i && (#[trigger] request.questions[j]).id == t),
            decreases self.questions@.len() - i,
        {
            let question: &DecisionQuestion = &self.questions[i];
            proof {
                assert(request.questions[i as int] == question.deep_view());
                if faults(i as int) is Some {
                    lemma_first_fault(faults, i as nat, self.questions@.len());
                }
            }
            if let Err(e) = validate_nonempty("question.id", question.id.as_str()) {
                return Err(e);
            }
            let ghost known = ids;
            if !ids.insert(question.id.clone()) {
                return Err(invalid("question.id", "duplicate question ID"));
            }
            if let Err(e) = validate_question_kind(&question.kind) {
                return Err(e);
            }
            proof {
                assert forall|t: Seq<char>| #[trigger]
                    ids.has(t) <==> (exists|j: int|
                        0 <= j < i + 1 && (#[trigger] request.questions[j]).id == t) by {
                    assert(ids.has(t) <==> known.has(t) || t == request.questions[i as int].id);
                }
            }
            i += 1;
        }
        Ok(())
    }

    /// The question of a name.
    fn find(&self, id: &str) -> (r: Option<&DecisionQuestionKind>)
        ensures
            r is Some == self.deep_view().asks(id@),
            r is Some ==> r->0.deep_view() == self.deep_view().kind_of(id@),
    {
        let ghost request = self.deep_view();
        let mut i: usize = self.questions.len();
        while i > 0
            invariant
                i <= self.questions@.len(),
                request == self.deep_view(),
                forall|j: int|
                    i <= j < self.questions@.len() ==> (#[trigger] request.questions[j]).id != id@,
            decreases i,
        {
            i -= 1;
            assert(request.questions[i as int] == self.questions@[i as int].deep_view());
            if same_text(self.questions[i].id.as_str(), id) {
                proof {
                    assert(request.asked_at(id@, i as int));
                    let k = choose|k: int| request.asked_at(id@, k);
                    assert(request.asked_at(id@, k));
                    if k < i {
                        assert(request.questions[i as int].id != id@);
                    }
                    if i < k {
                        assert(request.questions[k].id != id@);
                    }
                }
                return Some(&self.questions[i].kind);
            }
        }
        None
    }
}

/// The outcomes that a question of a kind has, where they are fixed.
pub open spec fn outcomes(kind: DecisionQuestionKindModel) -> Option<Set<Seq<char>>> {
    match kind {
        DecisionQuestionKindModel::Choice { options } => if options.len() == 0 {
            None
        } else {
            Some(options.to_set())
        },
        DecisionQuestionKindModel::BooleanProbability => Some(set!["false"@, "true"@]),
        DecisionQuestionKindModel::Score { minimum: _, maximum: _ } => None,
    }
}

/// The name of a truth value.
pub open spec fn truth(b: bool) -> Seq<char> {
    if b {
        "true"@
    } else {
        "false"@
    }
}

impl DecisionSignalModel {
    /// Every probability is from zero to one, and they sum to one within a billionth.
    pub open spec fn distributed(self) -> bool {
        &&& exists|t: Seq<char>| #[trigger] self.probabilities.dom().contains(t)
        &&& forall|t: Seq<char>| #[trigger]
            self.probabilities.dom().contains(t) ==> self.probabilities[t].in_unit()
        &&& number(NEAR_ONE_LOW).at_most(self.probability_total)
        &&& self.probability_total.at_most(number(NEAR_ONE_HIGH))
    }

    /// The answer is one that the question allows.
    pub open spec fn value_fits(self, kind: DecisionQuestionKindModel) -> bool {
        match (kind, self.value) {
            (
                DecisionQuestionKindModel::Choice { options },
                DecisionValueModel::Choice(value),
            ) => options.contains(value) && self.probabilities.dom().contains(value),
            (
                DecisionQuestionKindModel::Score { minimum, maximum },
                DecisionValueModel::Score(value),
            ) => value.finite() && minimum.at_most(value) && value.at_most(maximum),
            (
                DecisionQuestionKindModel::BooleanProbability,
                DecisionValueModel::Boolean(value),
            ) => self.probabilities.dom().contains(truth(value)),
            _ => false,
        }
    }

    pub open spec fn fault(self, kind: DecisionQuestionKindModel) -> Option<EngineErrorModel> {
        if !self.distributed() {
            Some(invalid_model("signal.probabilities"@, "probabilities must sum to one"@))
        } else if outcomes(kind) is Some && self.probabilities.dom() != outcomes(kind)->0 {
            Some(
                invalid_model(
                    "signal.probabilities"@,
                    "probability outcomes do not match the question domain"@,
                ),
            )
        } else if self.confidence is Some && !self.confidence->0.in_unit() {
            Some(
                invalid_model("signal.confidence"@, "confidence must be between zero and one"@),
            )
        } else if !self.value_fits(kind) {
            Some(
                invalid_model("signal.value"@, "value does not match question kind or domain"@),
            )
        } else {
            None
        }
    }
}

/// Whether a map has exactly the listed names as keys.
fn has_exactly(map: &TextMap<Binary64>, names: &Vec<String>) -> (r: bool)
    ensures
        r == (map.deep_view().dom() == names.deep_view().to_set()),
{
    let ghost all = names.deep_view();
    let ghost dom = map.deep_view().dom();
    let n: usize = map.len();
    let mut i: usize = 0;
    while i < n
        invariant
            i <= n,
            n == map.keys().len(),
            all == names.deep_view(),
            dom == map.deep_view().dom(),
            forall|j: int| 0 <= j < i ==> all.contains(#[trigger] map.keys()[j]),
        decreases n - i,
    {
        assert(texts(names@) =~= all);
        if !has_text(names, map.key_at(i).as_str()) {
            proof {
                let k = map.keys()[i as int];
                assert(map.has(k));
                assert(dom.contains(k) && !all.to_set().contains(k));
            }
            return false;
        }
        i += 1;
    }
    let mut j: usize = 0;
    while j < names.len()
        invariant
            j <= names@.len(),
            all == names.deep_view(),
            dom == map.deep_view().dom(),
            forall|k: int| 0 <= k < j ==> dom.contains(#[trigger] all[k]),
        decreases names@.len() - j,
    {
        if !map.contains_key(names[j].as_str()) {
            proof {
                let k = all[j as int];
                assert(all.to_set().contains(k) && !dom.contains(k));
            }
            return false;
        }
        assert(all[j as int] == names@[j as int]@);
        j += 1;
    }
    assert(dom =~= all.to_set()) by {
        assert forall|t: Seq<char>| dom.contains(t) implies all.to_set().contains(t) by {
            let k = choose|k: int| 0 <= k < map.keys().len() && map.keys()[k] == t;
            assert(all.contains(map.keys()[k]));
        }
    }
    true
}

/// Whether a map has the keys `false` and `true` and no other.
fn has_truths(map: &TextMap<Binary64>) -> (r: bool)
    ensures
        r == (map.deep_view().dom() == set!["false"@, "true"@]),
{
    let ghost dom = map.deep_view().dom();
    let ghost truths = set!["false"@, "true"@];
    let n: usize = map.len();
    let mut i: usize = 0;
    while i < n
        invariant
            i <= n,
            n == map.keys().len(),
            truths == set!["false"@, "true"@],
            dom == map.deep_view().dom(),
            forall|j: int| 0 <= j < i ==> truths.contains(#[trigger] map.keys()[j]),
        decreases n - i,
    {
        let key: &str = map.key_at(i).as_str();
        if !same_text(key, "false") && !same_text(key, "true") {
            proof {
                assert(map.has(map.keys()[i as int]));
                assert(dom.contains(key@) && !truths.contains(key@));
            }
            return false;
        }
        i += 1;
    }
    if !map.contains_key("false") || !map.contains_key("true") {
        proof {
            assert(truths.contains("false"@) && truths.contains("true"@));
            assert(!dom.contains("false"@) || !dom.contains("true"@));
        }
        return false;
    }
    assert(dom =~= truths) by {
        assert forall|t: Seq<char>| dom.contains(t) implies truths.contains(t) by {
            let k = choose|k: int| 0 <= k < map.keys().len() && map.keys()[k] == t;
            assert(truths.contains(map.keys()[k]));
        }
    }
    true
}

impl DecisionSignal {
    fn is_distributed(&self) -> (r: bool)
        ensures
            r == self.deep_view().distributed(),
    {
        let ghost map = self.probabilities.deep_view();
        let n: usize = self.probabilities.len();
        if n == 0 {
            return false;
        }
        let mut i: usize = 0;
        while i < n
            invariant
                i <= n,
                n == self.probabilities.keys().len(),
                n == self.probabilities.values().len(),
                map == self.probabilities.deep_view(),
                forall|j: int|
                    0 <= j < n ==> self.probabilities.spec_get(
                        #[trigger] self.probabilities.keys()[j],
                    ) == Some(self.probabilities.values()[j]),
                forall|j: int|
                    0 <= j < i ==> map[#[trigger] self.probabilities.keys()[j]].in_unit(),
            decreases n - i,
        {
            let p: Binary64 = *self.probabilities.value_at(i);
            let ghost key = self.probabilities.keys()[i as int];
            assert(map.dom().contains(key) && map[key] == p) by {
                assert(self.probabilities.has(key));
            }
            if !p.is_unit() {
                return false;
            }
            i += 1;
        }
        proof {
            assert forall|t: Seq<char>| #[trigger] map.dom().contains(t) implies map[t].in_unit() by {
                let k = choose|k: int|
                    0 <= k < self.probabilities.keys().len() && self.probabilities.keys()[k] == t;
                assert(map[self.probabilities.keys()[k]].in_unit());
            }
            let first = self.probabilities.keys()[0];
            assert(self.probabilities.has(first));
            assert(self.deep_view().probabilities == map);
            assert(self.deep_view().probabilities.dom().contains(first));
        }
        number(NEAR_ONE_LOW).le(self.probability_total) && self.probability_total.le(
            number(NEAR_ONE_HIGH),
        )
    }

    fn is_fitting(&self, kind: &DecisionQuestionKind) -> (r: bool)
        ensures
            r == self.deep_view().value_fits(kind.deep_view()),
    {
        match (kind, &self.value) {
            (DecisionQuestionKind::Choice { options }, DecisionValue::Choice(value)) => {
                assert(texts(options@) =~= options.deep_view());
                has_text(options, value.as_str()) && self.probabilities.contains_key(
                    value.as_str(),
                )
            },
            (DecisionQuestionKind::Score { minimum, maximum }, DecisionValue::Score(value)) => {
                value.is_finite() && minimum.le(*value) && value.le(*maximum)
            },
            (DecisionQuestionKind::BooleanProbability, DecisionValue::Boolean(value)) => {
                self.probabilities.contains_key(
                    if *value {
                        "true"
                    } else {
                        "false"
                    },
                )
            },
            _ => false,
        }
    }

    /// Checks an answer against what its question asks for.
    fn validate(&self, kind: &DecisionQuestionKind) -> (r: Result<(), EngineError>)
        ensures
            answers(r, self.deep_view().fault(kind.deep_view())),
    {
        if !self.is_distributed() {
            return Err(invalid("signal.probabilities", "probabilities must sum to one"));
        }
        let matching: bool = match kind {
            DecisionQuestionKind::Choice { options } => options.len() == 0 || has_exactly(
                &self.probabilities,
                options,
            ),
            DecisionQuestionKind::BooleanProbability => has_truths(&self.probabilities),
            DecisionQuestionKind::Score { minimum: _, maximum: _ } => true,
        };
        if !matching {
            return Err(
                invalid(
                    "signal.probabilities",
                    "probability outcomes do not match the question domain",
                ),
            );
        }
        if let Some(confidence) = self.confidence {
            if !confidence.is_unit() {
                return Err(
                    invalid("signal.confidence", "confidence must be between zero and one"),
                );
            }
        }
        if !self.is_fitting(kind) {
            return Err(invalid("signal.value", "value does not match question kind or domain"));
        }
        Ok(())
    }
}

impl DecisionAssessmentModel {
    pub open spec fn signal_faults(self, request: DecisionRequestModel) -> spec_fn(int) -> Option<
        EngineErrorModel,
    > {
        |i: int|
            {
                let signal = self.signals[i];
                if exists|j: int|
                    0 <= j < i && (#[trigger] self.signals[j]).question_id == signal.question_id {
                    Some(
                        invalid_model("signals.question_id"@, "duplicate signal question ID"@),
                    )
                } else if !request.asks(signal.question_id) {
                    Some(
                        invalid_model(
                            "signals.question_id"@,
                            "signal references an unknown question"@,
                        ),
                    )
                } else {
                    signal.fault(request.kind_of(signal.question_id))
                }
            }
    }

    /// The fault of an assessment as the answer to a request.
    pub open spec fn fault_for(self, request: DecisionRequestModel) -> Option<EngineErrorModel> {
        or_fault(
            request.fault(),
            or_fault(
                nonempty_fault("adapter_id"@, self.adapter_id),
                or_fault(
                    nonempty_fault("actual_model"@, self.actual_model),
                    if self.actual_cost is Some && self.actual_cost->0 > LEDGER_MAX {
                        Some(invalid_model("actual_cost"@, "cost exceeds ledger range"@))
                    } else if self.question_set_version != request.question_set_version {
                        Some(
                            invalid_model(
                                "question_set_version"@,
                                "assessment version does not match request"@,
                            ),
                        )
                    } else if self.signals.len() != request.questions.len() {
                        Some(
                            invalid_model(
                                "signals"@,
                                "assessment must answer every question exactly once"@,
                            ),
                        )
                    } else {
                        first_fault(self.signal_faults(request), self.signals.len())
                    },
                ),
            ),
        )
    }
}

impl DecisionAssessment {
    /// Checks an assessment as the answer to a request.
    pub fn validate_for(&self, request: &DecisionRequest) -> (r: Result<(), EngineError>)
        ensures
            answers(r, self.deep_view().fault_for(request.deep_view())),
    {
        if let Err(e) = request.validate() {
            return Err(e);
        }
        if let Err(e) = validate_nonempty("adapter_id", self.adapter_id.as_str()) {
            return Err(e);
        }
        if let Err(e) = validate_nonempty("actual_model", self.actual_model.as_str()) {
            return Err(e);
        }
        if let Some(cost) = self.actual_cost {
            if cost > LEDGER_MAX {
                return Err(invalid("actual_cost", "cost exceeds ledger range"));
            }
        }
        if !same_text(
            self.question_set_version.as_str(),
            request.question_set_version.as_str(),
        ) {
            return Err(
                invalid("question_set_version", "assessment version does not match request"),
            );
        }
        if self.signals.len() != request.questions.len() {
            return Err(
                invalid("signals", "assessment must answer every question exactly once"),
            );
        }
        self.validate_signals(request)
    }

    fn validate_signals(&self, request: &DecisionRequest) -> (r: Result<(), EngineError>)
        ensures
            answers(
                r,
                first_fault(
                    self.deep_view().signal_faults(request.deep_view()),
                    self.signals@.len(),
                ),
            ),
    {
        let ghost all = self.deep_view();
        let ghost asked = request.deep_view();
        let ghost faults = all.signal_faults(asked);
        let mut seen: TextSet = TextSet::new();
        let mut i: usize = 0;
        while i < self.signals.len()
            invariant
                i <= self.signals@.len(),
                all == self.deep_view(),
                asked == request.deep_view(),
                faults == all.signal_faults(asked),
                first_fault(faults, i as nat) is None,
                forall|t: Seq<char>| #[trigger]
                    seen.has(t) <==> (exists|j: int|
                        0 <= j < i && (#[trigger] all.signals[j]).question_id == t),
            decreases self.signals@.len() - i,
        {
            let signal: &DecisionSignal = &self.signals[i];
            proof {
                assert(all.signals[i as int] == signal.deep_view());
                if faults(i as int) is Some {
                    lemma_first_fault(faults, i as nat, self.signals@.len());
                }
            }
            let ghost known = seen;
            if !seen.insert(signal.question_id.clone()) {
                return Err(invalid("signals.question_id", "duplicate signal question ID"));
            }
            match request.find(signal.question_id.as_str()) {
                None => {
                    return Err(
                        invalid("signals.question_id", "signal references an unknown question"),
                    );
                },
                Some(kind) => {
                    if let Err(e) = signal.validate(kind) {
                        return Err(e);
                    }
                },
            }
            proof {
                assert forall|t: Seq<char>| #[trigger]
                    seen.has(t) <==> (exists|j: int|
                        0 <= j < i + 1 && (#[trigger] all.signals[j]).question_id == t) by {
                    assert(seen.has(t) <==> known.has(t) || t
                        == all.signals[i as int].question_id);
                }
            }
            i += 1;
        }
        Ok(())
    }
}

impl DecisionPolicyModel {
    pub open spec fn rule_faults(self) -> spec_fn(int) -> Option<EngineErrorModel> {
        |i: int|
            {
                let rule = self.rules[i];
                or_fault(
                    nonempty_fault("policy.rule.question_id"@, rule.question_id),
                    or_fault(
                        nonempty_fault("policy.rule.outcome"@, rule.outcome),
                        if !rule.minimum_probability.in_unit() {
                            Some(
                                invalid_model(
                                    "policy.rule.minimum_probability"@,
                                    "threshold must be between zero and one"@,
                                ),
                            )
                        } else if exists|j: int|
                            0 <= j < i && (#[trigger] self.rules[j]).question_id
                                == rule.question_id && self.rules[j].outcome == rule.outcome {
                            Some(
                                invalid_model(
                                    "policy.rules"@,
                                    "duplicate question and outcome rule"@,
                                ),
                            )
                        } else {
                            None
                        },
                    ),
                )
            }
    }

    pub open spec fn fault(self) -> Option<EngineErrorModel> {
        or_fault(
            nonempty_fault("policy.version"@, self.version),
            first_fault(self.rule_faults(), self.rules.len()),
        )
    }

    pub open spec fn target_faults(self, request: DecisionRequestModel) -> spec_fn(int) -> Option<
        EngineErrorModel,
    > {
        |i: int|
            {
                let rule = self.rules[i];
                if !request.asks(rule.question_id) {
                    Some(
                        invalid_model(
                            "policy.rule.question_id"@,
                            "policy references an unknown question"@,
                        ),
                    )
                } else if !rule.targets(request.kind_of(rule.question_id)) {
                    Some(
                        invalid_model(
                            "policy.rule.outcome"@,
                            "policy outcome is outside the question domain"@,
                        ),
                    )
                } else {
                    None
                }
            }
    }

    /// The fault of a policy for the questions of a request.
    pub open spec fn fault_for(self, request: DecisionRequestModel) -> Option<EngineErrorModel> {
        or_fault(self.fault(), first_fault(self.target_faults(request), self.rules.len()))
    }

    /// The rules that an assessment triggers, among the first `n`.
    pub open spec fn triggered(self, assessment: DecisionAssessmentModel, n: nat) -> Seq<
        DecisionPolicyRuleModel,
    >
        decreases n,
    {
        if n == 0 {
            Seq::empty()
        } else {
            let before = self.triggered(assessment, (n - 1) as nat);
            if self.rules[n - 1].met_by(assessment) {
                before.push(self.rules[n - 1])
            } else {
                before
            }
        }
    }
}

impl DecisionPolicyRuleModel {
    /// The outcome is one of a question of that kind.
    pub open spec fn targets(self, kind: DecisionQuestionKindModel) -> bool {
        match kind {
            DecisionQuestionKindModel::Choice { options } => options.contains(self.outcome),
            DecisionQuestionKindModel::BooleanProbability => self.outcome == "true"@
                || self.outcome == "false"@,
            DecisionQuestionKindModel::Score { minimum, maximum } => {
                &&& self.outcome_score is Some
                &&& self.outcome_score->0.finite()
                &&& minimum.at_most(self.outcome_score->0)
                &&& self.outcome_score->0.at_most(maximum)
            },
        }
    }

    /// `i` is the first answer to the rule's question.
    pub open spec fn answered_at(self, assessment: DecisionAssessmentModel, i: int) -> bool {
        &&& 0 <= i < assessment.signals.len()
        &&& assessment.signals[i].question_id == self.question_id
        &&& forall|j: int|
            0 <= j < i ==> (#[trigger] assessment.signals[j]).question_id != self.question_id
    }

    /// The answer gives the outcome at least the probability that the rule asks for.
    pub open spec fn met_by(self, assessment: DecisionAssessmentModel) -> bool {
        exists|i: int|
            {
                &&& #[trigger] self.answered_at(assessment, i)
                &&& assessment.signals[i].probabilities.dom().contains(self.outcome)
                &&& self.minimum_probability.at_most(
                    assessment.signals[i].probabilities[self.outcome],
                )
            }
    }

    /// The reason that the rule gives.
    pub open spec fn reason(self) -> Seq<char> {
        self.question_id + ":"@ + self.outcome + ">="@ + self.threshold_text
    }
}

/// The most demanding class of a list of rules.
pub open spec fn highest_class(rules: Seq<DecisionPolicyRuleModel>) -> ExecutionClass
    decreases rules.len(),
{
    if rules.len() == 0 {
        ExecutionClass::Simple
    } else {
        highest_class(rules.drop_last()).higher(rules.last().execution_class)
    }
}

/// What a policy recommends where the given rules are triggered.
pub open spec fn recommendation_of(
    version: Seq<char>,
    rules: Seq<DecisionPolicyRuleModel>,
) -> DecisionRecommendationModel {
    DecisionRecommendationModel {
        policy_version: version,
        execution_class: highest_class(rules),
        needs_clarification: exists|i: int|
            0 <= i < rules.len() && (#[trigger] rules[i]).needs_clarification,
        reasons: Seq::new(rules.len(), |i: int| rules[i].reason()),
    }
}

impl DecisionPolicyRule {
    fn is_duplicate(rules: &Vec<DecisionPolicyRule>, i: usize) -> (r: bool)
        requires
            i < rules@.len(),
        ensures
            r == exists|j: int|
                0 <= j < i && (#[trigger] rules.deep_view()[j]).question_id
                    == rules.deep_view()[i as int].question_id && rules.deep_view()[j].outcome
                    == rules.deep_view()[i as int].outcome,
    {
        let ghost all = rules.deep_view();
        let mut j: usize = 0;
        while j < i
            invariant
                j <= i < rules@.len(),
                all == rules.deep_view(),
                forall|k: int|
                    0 <= k < j ==> (#[trigger] all[k]).question_id != all[i as int].question_id
                        || all[k].outcome != all[i as int].outcome,
            decreases i - j,
        {
            assert(all[j as int] == rules@[j as int].deep_view());
            assert(all[i as int] == rules@[i as int].deep_view());
            if same_text(rules[j].question_id.as_str(), rules[i].question_id.as_str())
                && same_text(rules[j].outcome.as_str(), rules[i].outcome.as_str()) {
                return true;
            }
            j += 1;
        }
        false
    }

    fn is_targeting(&self, kind: &DecisionQuestionKind) -> (r: bool)
        ensures
            r == self.deep_view().targets(kind.deep_view()),
    {
        match kind {
            DecisionQuestionKind::Choice { options } => {
                assert(texts(options@) =~= options.deep_view());
                has_text(options, self.outcome.as_str())
            },
            DecisionQuestionKind::BooleanProbability => same_text(self.outcome.as_str(), "true")
                || same_text(self.outcome.as_str(), "false"),
            DecisionQuestionKind::Score { minimum, maximum } => match self.outcome_score {
                Some(value) => value.is_finite() && minimum.le(value) && value.le(*maximum),
                None => false,
            },
        }
    }

    fn is_met(&self, assessment: &DecisionAssessment) -> (r: bool)
        ensures
            r == self.deep_view().met_by(assessment.deep_view()),
    {
        let ghost all = assessment.deep_view();
        let ghost rule = self.deep_view();
        let mut i: usize = 0;
        while i < assessment.signals.len()
            invariant
                i <= assessment.signals@.len(),
                all == assessment.deep_view(),
                rule == self.deep_view(),
                forall|j: int|
                    0 <= j < i ==> (#[trigger] all.signals[j]).question_id != rule.question_id,
            decreases assessment.signals@.len() - i,
        {
            let signal: &DecisionSignal = &assessment.signals[i];
            assert(all.signals[i as int] == signal.deep_view());
            if same_text(signal.question_id.as_str(), self.question_id.as_str()) {
                assert(rule.answered_at(all, i as int));
                assert forall|k: int| #[trigger] rule.answered_at(all, k) implies k == i by {
                    if k < i {
                        assert(all.signals[k].question_id != rule.question_id);
                    }
                    if i < k {
                        assert(all.signals[i as int].question_id != rule.question_id);
                    }
                }
                return match signal.probabilities.get(self.outcome.as_str()) {
                    Some(p) => self.minimum_probability.le(*p),
                    None => false,
                };
            }
            i += 1;
        }
        false
    }

    fn reason_text(&self) -> (r: String)
        ensures
            r@ == self.deep_view().reason(),
    {
        let front: String = join3(self.question_id.as_str(), ":", self.outcome.as_str());
        join3(front.as_str(), ">=", self.threshold_text.as_str())
    }
}

impl DecisionPolicy {
    pub fn validate(&self) -> (r: Result<(), EngineError>)
        ensures
            answers(r, self.deep_view().fault()),
    {
        if let Err(e) = validate_nonempty("policy.version", self.version.as_str()) {
            return Err(e);
        }
        let ghost policy = self.deep_view();
        let ghost faults = policy.rule_faults();
        let mut i: usize = 0;
        while i < self.rules.len()
            invariant
                i <= self.rules@.len(),
                policy == self.deep_view(),
                faults == policy.rule_faults(),
                nonempty_fault("policy.version"@, policy.version) is None,
                first_fault(faults, i as nat) is None,
            decreases self.rules@.len() - i,
        {
            let rule: &DecisionPolicyRule = &self.rules[i];
            proof {
                assert(policy.rules[i as int] == rule.deep_view());
                assert(policy.rules == self.rules.deep_view());
                if faults(i as int) is Some {
                    lemma_first_fault(faults, i as nat, self.rules@.len());
                }
            }
            if let Err(e) = validate_nonempty("policy.rule.question_id", rule.question_id.as_str()) {
                return Err(e);
            }
            if let Err(e) = validate_nonempty("policy.rule.outcome", rule.outcome.as_str()) {
                return Err(e);
            }
            if !rule.minimum_probability.is_unit() {
                return Err(
                    invalid(
                        "policy.rule.minimum_probability",
                        "threshold must be between zero and one",
                    ),
                );
            }
            if DecisionPolicyRule::is_duplicate(&self.rules, i) {
                return Err(invalid("policy.rules", "duplicate question and outcome rule"));
            }
            i += 1;
        }
        Ok(())
    }

    /// Checks the policy for the questions of a request.
    pub fn validate_for(&self, request: &DecisionRequest) -> (r: Result<(), EngineError>)
        ensures
            answers(r, self.deep_view().fault_for(request.deep_view())),
    {
        if let Err(e) = self.validate() {
            return Err(e);
        }
        let ghost policy = self.deep_view();
        let ghost asked = request.deep_view();
        let ghost faults = policy.target_faults(asked);
        let mut i: usize = 0;
        while i < self.rules.len()
            invariant
                i <= self.rules@.len(),
                policy == self.deep_view(),
                asked == request.deep_view(),
                faults == policy.target_faults(asked),
                policy.fault() is None,
                first_fault(faults, i as nat) is None,
            decreases self.rules@.len() - i,
        {
            let rule: &DecisionPolicyRule = &self.rules[i];
            proof {
                assert(policy.rules[i as int] == rule.deep_view());
                if faults(i as int) is Some {
                    lemma_first_fault(faults, i as nat, self.rules@.len());
                }
            }
            match request.find(rule.question_id.as_str()) {
                None => {
                    return Err(
                        invalid("policy.rule.question_id", "policy references an unknown question"),
                    );
                },
                Some(kind) => {
                    if !rule.is_targeting(kind) {
                        return Err(
                            invalid(
                                "policy.rule.outcome",
                                "policy outcome is outside the question domain",
                            ),
                        );
                    }
                },
            }
            i += 1;
        }
        Ok(())
    }

    /// What the policy recommends on an assessment of a request.
    pub fn apply(&self, request: &DecisionRequest, assessment: &DecisionAssessment) -> (r: Result<
        DecisionRecommendation,
        EngineError,
    >)
        ensures
            answers(
                r,
                or_fault(
                    assessment.deep_view().fault_for(request.deep_view()),
                    self.deep_view().fault_for(request.deep_view()),
                ),
            ),
            r is Ok ==> r->Ok_0.deep_view() == recommendation_of(
                self.version@,
                self.deep_view().triggered(assessment.deep_view(), self.rules@.len()),
            ),
    {
        if let Err(e) = assessment.validate_for(request) {
            return Err(e);
        }
        if let Err(e) = self.validate_for(request) {
            return Err(e);
        }
        Ok(self.recommend(assessment))
    }

    fn recommend(&self, assessment: &DecisionAssessment) -> (r: DecisionRecommendation)
        ensures
            r.deep_view() == recommendation_of(
                self.version@,
                self.deep_view().triggered(assessment.deep_view(), self.rules@.len()),
            ),
    {
        let ghost policy = self.deep_view();
        let ghost given = assessment.deep_view();
        let mut execution_class: ExecutionClass = ExecutionClass::Simple;
        let mut needs_clarification: bool = false;
        let mut reasons: Vec<String> = Vec::new();
        let mut i: usize = 0;
        while i < self.rules.len()
            invariant
                i <= self.rules@.len(),
                policy == self.deep_view(),
                given == assessment.deep_view(),
                execution_class == highest_class(policy.triggered(given, i as nat)),
                needs_clarification == exists|j: int|
                    0 <= j < policy.triggered(given, i as nat).len() && (
                    #[trigger] policy.triggered(given, i as nat)[j]).needs_clarification,
                reasons@.len() == policy.triggered(given, i as nat).len(),
                forall|j: int|
                    0 <= j < reasons@.len() ==> (#[trigger] reasons@[j])@ == policy.triggered(
                        given,
                        i as nat,
                    )[j].reason(),
            decreases self.rules@.len() - i,
        {
            let rule: &DecisionPolicyRule = &self.rules[i];
            let ghost before = policy.triggered(given, i as nat);
            let ghost after = policy.triggered(given, (i + 1) as nat);
            assert(policy.rules[i as int] == rule.deep_view());
            if rule.is_met(assessment) {
                proof {
                    assert(after == before.push(rule.deep_view()));
                    assert(after.drop_last() =~= before);
                    assert forall|j: int| 0 <= j < before.len() implies #[trigger] after[j]
                        == before[j] by {}
                    assert(after[before.len() as int] == rule.deep_view());
                }
                execution_class = execution_class.max(rule.execution_class);
                needs_clarification = needs_clarification || rule.needs_clarification;
                reasons.push(rule.reason_text());
                proof {
                    if needs_clarification {
                        if rule.needs_clarification {
                            assert(after[before.len() as int].needs_clarification);
                        } else {
                            let j = choose|j: int|
                                0 <= j < before.len() && (
                                #[trigger] before[j]).needs_clarification;
                            assert(after[j].needs_clarification);
                        }
                    }
                }
            }
            i += 1;
        }
        let r = DecisionRecommendation {
            policy_version: self.version.clone(),
            execution_class,
            needs_clarification,
            reasons,
        };
        assert(r.deep_view().reasons =~= recommendation_of(
            self.version@,
            policy.triggered(given, self.rules@.len()),
        ).reasons);
        r
    }
}

impl DecisionConfigModel {
    /// The request that stands for the questions of a configuration.
    pub open spec fn probe(self) -> DecisionRequestModel {
        DecisionRequestModel {
            question_set_version: self.question_set_version,
            state: DecisionStateModel {
                version: "config-validation-v1"@,
                values: Map::empty(),
            },
            questions: self.questions,
        }
    }

    pub open spec fn fault(self) -> Option<EngineErrorModel> {
        or_fault(
            self.probe().fault(),
            or_fault(
                self.policy.fault_for(self.probe()),
                if self.max_cost > LEDGER_MAX {
                    Some(invalid_model("decision.max_cost"@, "cost exceeds ledger range"@))
                } else {
                    None
                },
            ),
        )
    }
}

impl DecisionConfig {
    pub fn validate(&self) -> (r: Result<(), EngineError>)
        ensures
            answers(r, self.deep_view().fault()),
    {
        let request = DecisionRequest {
            question_set_version: self.question_set_version.clone(),
            state: DecisionState {
                version: "config-validation-v1".to_owned(),
                values: TextMap::new(),
            },
            questions: self.questions.duplicate(),
        };
        assert(request.deep_view().state.values =~= Map::empty());
        assert(request.deep_view() == self.deep_view().probe());
        if let Err(e) = request.validate() {
            return Err(e);
        }
        if let Err(e) = self.policy.validate_for(&request) {
            return Err(e);
        }
        if self.max_cost > LEDGER_MAX {
            return Err(invalid("decision.max_cost", "cost exceeds ledger range"));
        }
        Ok(())
    }
}

/// A decision model with one prepared answer.
pub struct FakeDecisionModel {
    assessment: DecisionAssessment,
}

impl FakeDecisionModel {
    /// The answer that the model has prepared.
    pub closed spec fn prepared(&self) -> DecisionAssessmentModel {
        self.assessment.deep_view()
    }

    pub fn new(assessment: DecisionAssessment) -> (r: Self)
        ensures
            r.prepared() == assessment.deep_view(),
    {
        FakeDecisionModel { assessment }
    }

    /// The prepared answer, where it is a valid answer to the request.
    pub fn assess(&self, request: &DecisionRequest) -> (r: Result<DecisionAssessment, EngineError>)
        ensures
            answers(r, self.prepared().fault_for(request.deep_view())),
            r is Ok ==> r->Ok_0.deep_view() == self.prepared(),
    {
        if let Err(e) = self.assessment.validate_for(request) {
            return Err(e);
        }
        Ok(self.assessment.duplicate())
    }
}

proof fn lemma_faultless(faults: spec_fn(int) -> Option<EngineErrorModel>, n: nat, i: int)
    requires
        first_fault(faults, n) is None,
        0 <= i < n,
    ensures
        faults(i) is None,
    decreases n,
{
    if i < n - 1 {
        lemma_faultless(faults, (n - 1) as nat, i);
    }
}

/// A valid assessment answers every question of its request exactly once.
pub proof fn lemma_every_question_answered_once(
    assessment: DecisionAssessmentModel,
    request: DecisionRequestModel,
    q: int,
)
    requires
        assessment.fault_for(request) is None,
        0 <= q < request.questions.len(),
    ensures
        exists|i: int|
            0 <= i < assessment.signals.len() && (#[trigger] assessment.signals[i]).question_id
                == request.questions[q].id,
        forall|i: int, j: int|
            0 <= i < assessment.signals.len() && 0 <= j < assessment.signals.len() && (
            #[trigger] assessment.signals[i]).question_id == (
            #[trigger] assessment.signals[j]).question_id ==> i == j,
{
    let n = assessment.signals.len();
    let given = Seq::new(n, |i: int| assessment.signals[i].question_id);
    let asked = Seq::new(n, |i: int| request.questions[i].id);
    let signal_faults = assessment.signal_faults(request);
    let question_faults = request.question_faults();
    assert forall|i: int, j: int| 0 <= i < n && 0 <= j < n && i < j implies given[i]
        != given[j] by {
        lemma_faultless(signal_faults, n, j);
        assert(assessment.signals[i].question_id == given[i]);
    }
    assert forall|i: int, j: int| 0 <= i < n && 0 <= j < n && i < j implies asked[i]
        != asked[j] by {
        lemma_faultless(question_faults, n, j);
        assert(request.questions[i].id == asked[i]);
    }
    assert(given.no_duplicates());
    assert(asked.no_duplicates());
    given.unique_seq_to_set();
    asked.unique_seq_to_set();
    assert(given.to_set().subset_of(asked.to_set())) by {
        assert forall|t: Seq<char>| given.to_set().contains(t) implies asked.to_set().contains(
            t,
        ) by {
            let i = choose|i: int| 0 <= i < given.len() && given[i] == t;
            lemma_faultless(signal_faults, n, i);
            assert(request.asks(t));
            let k = choose|k: int| request.asked_at(t, k);
            assert(asked[k] == t);
        }
    }
    lemma_subset_equality(given.to_set(), asked.to_set());
    assert(asked[q] == request.questions[q].id);
    assert(asked.to_set().contains(asked[q]));
    assert(given.to_set().contains(asked[q]));
    let i = choose|i: int| 0 <= i < given.len() && given[i] == asked[q];
    assert(assessment.signals[i].question_id == request.questions[q].id);
    assert forall|i: int, j: int|
        0 <= i < n && 0 <= j < n && (#[trigger] assessment.signals[i]).question_id == (
        #[trigger] assessment.signals[j]).question_id implies i == j by {
        assert(given[i] == given[j]);
    }
}

/// A question that asks for a choice has at least one option and not too many, none of them blank
/// and no two alike. One that asks for a score has a range of finite numbers, the lower below the
/// upper. One that asks for a probability asks for nothing more.
pub open spec fn can_be_asked(kind: DecisionQuestionKindModel) -> bool {
    match kind {
        DecisionQuestionKindModel::Choice { options } => {
            &&& 1 <= options.len() <= 32
            &&& forall|i: int| 0 <= i < options.len() ==> !blank(#[trigger] options[i])
            &&& options.no_duplicates()
        },
        DecisionQuestionKindModel::Score { minimum, maximum } => minimum.finite()
            && maximum.finite() && minimum.less(maximum),
        DecisionQuestionKindModel::BooleanProbability => true,
    }
}

/// What a question may ask for.
pub proof fn lemma_valid_question_kind(kind: DecisionQuestionKindModel)
    ensures
        kind.fault() is None <==> can_be_asked(kind),
        kind.fault() is Some ==> kind.fault()->0.kind == "decision"@,
{
    match kind {
        DecisionQuestionKindModel::Choice { options } => {
            let faults = option_faults(options);
            let n = options.len();
            if first_fault(faults, n) is Some {
                let i = lemma_first_fault_is_one(faults, n);
                if !blank(options[i]) {
                    let j = choose|j: int| 0 <= j < i && #[trigger] options[j] == options[i];
                    assert(!options.no_duplicates());
                }
            } else {
                assert forall|i: int| 0 <= i < n implies !blank(#[trigger] options[i]) by {
                    lemma_faultless(faults, n, i);
                }
                assert forall|i: int, j: int| 0 <= j < i < n implies options[i] != options[j] by {
                    lemma_faultless(faults, n, i);
                }
            }
        },
        _ => {},
    }
}

/// A request is accepted exactly where its versions are not blank, its state is small, and it asks
/// some questions, not too many, each with a name of its own that is not blank.
pub proof fn lemma_valid_request(request: DecisionRequestModel)
    ensures
        request.fault() is None <==> {
            &&& !blank(request.question_set_version)
            &&& !blank(request.state.version)
            &&& request.state.values.dom().len() <= 64
            &&& 1 <= request.questions.len() <= 32
            &&& forall|i: int|
                0 <= i < request.questions.len() ==> !blank((#[trigger] request.questions[i]).id)
                    && can_be_asked(request.questions[i].kind)
            &&& forall|i: int, j: int|
                0 <= j < i < request.questions.len() ==> (#[trigger] request.questions[j]).id != (
                #[trigger] request.questions[i]).id
        },
        request.fault() is Some ==> request.fault()->0.kind == "decision"@,
{
    let faults = request.question_faults();
    let n = request.questions.len();
    if first_fault(faults, n) is Some {
        let i = lemma_first_fault_is_one(faults, n);
        lemma_valid_question_kind(request.questions[i].kind);
        assert(faults(i) is Some);
        assert(blank(request.questions[i].id) || !blank(request.questions[i].id));
    } else {
        assert forall|i: int| 0 <= i < n implies !blank((#[trigger] request.questions[i]).id)
            && can_be_asked(request.questions[i].kind) by {
            lemma_faultless(faults, n, i);
            lemma_valid_question_kind(request.questions[i].kind);
        }
        assert forall|i: int, j: int| 0 <= j < i < n implies (#[trigger] request.questions[j]).id
            != (#[trigger] request.questions[i]).id by {
            lemma_faultless(faults, n, i);
        }
    }
}

/// An answer that is accepted has probabilities from zero to one, at least one of them, that sum to
/// one but for a billionth; for exactly the outcomes of its question, where these are fixed; a
/// confidence from zero to one, if any; and a value of its question's kind and range.
pub proof fn lemma_valid_signal(signal: DecisionSignalModel, kind: DecisionQuestionKindModel)
    ensures
        signal.fault(kind) is None ==> {
            &&& exists|t: Seq<char>| #[trigger] signal.probabilities.dom().contains(t)
            &&& forall|t: Seq<char>| #[trigger]
                signal.probabilities.dom().contains(t) ==> signal.probabilities[t].in_unit()
            &&& number(0x3fef_ffff_ff76_8fa1).at_most(signal.probability_total)
            &&& signal.probability_total.at_most(number(0x3ff0_0000_0044_b82f))
            &&& signal.confidence is Some ==> signal.confidence->0.in_unit()
            &&& match kind {
                DecisionQuestionKindModel::Choice { options } => {
                    &&& signal.value is Choice && options.contains(signal.value->Choice_0)
                    &&& forall|t: Seq<char>|
                        signal.probabilities.dom().contains(t) <==> options.contains(t)
                },
                DecisionQuestionKindModel::Score { minimum, maximum } => {
                    &&& signal.value is Score && signal.value->Score_0.finite()
                    &&& minimum.at_most(signal.value->Score_0)
                    &&& signal.value->Score_0.at_most(maximum)
                },
                DecisionQuestionKindModel::BooleanProbability => {
                    &&& signal.value is Boolean
                    &&& forall|t: Seq<char>|
                        signal.probabilities.dom().contains(t) <==> t == "true"@ || t == "false"@
                },
            }
        },
        signal.fault(kind) is Some ==> signal.fault(kind)->0.kind == "decision"@,
{
    match kind {
        DecisionQuestionKindModel::Choice { options } => {
            if signal.fault(kind) is None {
                assert forall|t: Seq<char>|
                    signal.probabilities.dom().contains(t) <==> options.contains(t) by {
                    assert(options.to_set().contains(t) <==> options.contains(t));
                }
            }
        },
        _ => {},
    }
}

/// An answer that has all this is accepted.
pub proof fn lemma_signal_is_owed(signal: DecisionSignalModel, kind: DecisionQuestionKindModel)
    requires
        exists|t: Seq<char>| #[trigger] signal.probabilities.dom().contains(t),
        forall|t: Seq<char>| #[trigger]
            signal.probabilities.dom().contains(t) ==> signal.probabilities[t].in_unit(),
        number(0x3fef_ffff_ff76_8fa1).at_most(signal.probability_total),
        signal.probability_total.at_most(number(0x3ff0_0000_0044_b82f)),
        signal.confidence is Some ==> signal.confidence->0.in_unit(),
        match kind {
            DecisionQuestionKindModel::Choice { options } => {
                &&& signal.value is Choice && options.contains(signal.value->Choice_0)
                &&& forall|t: Seq<char>|
                    signal.probabilities.dom().contains(t) <==> options.contains(t)
            },
            DecisionQuestionKindModel::Score { minimum, maximum } => {
                &&& signal.value is Score && signal.value->Score_0.finite()
                &&& minimum.at_most(signal.value->Score_0)
                &&& signal.value->Score_0.at_most(maximum)
            },
            DecisionQuestionKindModel::BooleanProbability => {
                &&& signal.value is Boolean
                &&& forall|t: Seq<char>|
                    signal.probabilities.dom().contains(t) <==> t == "true"@ || t == "false"@
            },
        },
    ensures
        signal.fault(kind) is None,
{
    match kind {
        DecisionQuestionKindModel::Choice { options } => {
            assert forall|t: Seq<char>|
                options.to_set().contains(t) <==> options.contains(t) by {}
            assert(signal.probabilities.dom() =~= options.to_set());
        },
        DecisionQuestionKindModel::BooleanProbability => {
            assert(signal.probabilities.dom() =~= set!["false"@, "true"@]);
        },
        _ => {},
    }
}

/// An assessment that is accepted answers the request's set of questions, names who gave it, tells
/// a cost that the ledger can hold, and gives each question an answer of its kind.
pub proof fn lemma_valid_assessment(
    assessment: DecisionAssessmentModel,
    request: DecisionRequestModel,
    i: int,
)
    requires
        assessment.fault_for(request) is None,
    ensures
        request.fault() is None,
        !blank(assessment.adapter_id) && !blank(assessment.actual_model),
        assessment.actual_cost is Some ==> assessment.actual_cost->0 <= 9_223_372_036_854_775_807,
        assessment.question_set_version == request.question_set_version,
        assessment.signals.len() == request.questions.len(),
        0 <= i < assessment.signals.len() ==> exists|q: int|
            0 <= q < request.questions.len() && (#[trigger] request.questions[q]).id
                == assessment.signals[i].question_id && assessment.signals[i].fault(
                request.questions[q].kind,
            ) is None,
{
    if 0 <= i < assessment.signals.len() {
        lemma_faultless(assessment.signal_faults(request), assessment.signals.len(), i);
        let id = assessment.signals[i].question_id;
        assert(request.asks(id));
        let q = choose|q: int| request.asked_at(id, q);
        assert(request.asked_at(id, q));
        assert(request.questions[q].id == id);
    }
}

proof fn lemma_highest_class(rules: Seq<DecisionPolicyRuleModel>)
    ensures
        forall|i: int|
            0 <= i < rules.len() ==> (#[trigger] rules[i]).execution_class.level()
                <= highest_class(rules).level(),
        highest_class(rules) == ExecutionClass::Simple || exists|i: int|
            0 <= i < rules.len() && (#[trigger] rules[i]).execution_class == highest_class(rules),
    decreases rules.len(),
{
    if rules.len() > 0 {
        let rest = rules.drop_last();
        lemma_highest_class(rest);
        assert forall|i: int| 0 <= i < rules.len() implies (
        #[trigger] rules[i]).execution_class.level() <= highest_class(rules).level() by {
            if i < rest.len() {
                assert(rest[i] == rules[i]);
            }
        }
        if highest_class(rules) == highest_class(rest) && highest_class(rest)
            != ExecutionClass::Simple {
            let i = choose|i: int|
                0 <= i < rest.len() && (#[trigger] rest[i]).execution_class == highest_class(rest);
            assert(rules[i].execution_class == highest_class(rules));
        } else if highest_class(rules) != highest_class(rest) {
            assert(rules[rules.len() - 1].execution_class == highest_class(rules));
        }
    }
}

/// Whether an assessment gives a rule's outcome at least the probability that the rule asks for, in
/// its answer to the rule's question.
pub open spec fn is_probable_enough(
    rule: DecisionPolicyRuleModel,
    assessment: DecisionAssessmentModel,
    i: int,
) -> bool {
    &&& 0 <= i < assessment.signals.len()
    &&& assessment.signals[i].question_id == rule.question_id
    &&& forall|j: int|
        0 <= j < i ==> (#[trigger] assessment.signals[j]).question_id != rule.question_id
    &&& assessment.signals[i].probabilities.dom().contains(rule.outcome)
    &&& rule.minimum_probability.at_most(assessment.signals[i].probabilities[rule.outcome])
}

/// Whether a rule's outcome is probable enough.
pub open spec fn is_met(rule: DecisionPolicyRuleModel, assessment: DecisionAssessmentModel) -> bool {
    exists|k: int| is_probable_enough(rule, assessment, k)
}

proof fn lemma_met(rule: DecisionPolicyRuleModel, assessment: DecisionAssessmentModel)
    ensures
        is_met(rule, assessment) == rule.met_by(assessment),
{
    if is_met(rule, assessment) {
        let k = choose|k: int| is_probable_enough(rule, assessment, k);
        assert(rule.answered_at(assessment, k));
    }
    if rule.met_by(assessment) {
        let k = choose|k: int|
            {
                &&& #[trigger] rule.answered_at(assessment, k)
                &&& assessment.signals[k].probabilities.dom().contains(rule.outcome)
                &&& rule.minimum_probability.at_most(
                    assessment.signals[k].probabilities[rule.outcome],
                )
            };
        assert(is_probable_enough(rule, assessment, k));
    }
}

proof fn lemma_triggered_are_met(
    policy: DecisionPolicyModel,
    assessment: DecisionAssessmentModel,
    n: nat,
)
    requires
        n <= policy.rules.len(),
    ensures
        forall|i: int|
            0 <= i < n && is_met(#[trigger] policy.rules[i], assessment) ==> policy.triggered(
                assessment,
                n,
            ).contains(policy.rules[i]),
        forall|m: int|
            0 <= m < policy.triggered(assessment, n).len() ==> is_met(
                #[trigger] policy.triggered(assessment, n)[m],
                assessment,
            ) && exists|i: int|
                0 <= i < n && #[trigger] policy.rules[i] == policy.triggered(assessment, n)[m],
    decreases n,
{
    if n > 0 {
        let before = policy.triggered(assessment, (n - 1) as nat);
        let after = policy.triggered(assessment, n);
        lemma_triggered_are_met(policy, assessment, (n - 1) as nat);
        lemma_met(policy.rules[n - 1], assessment);
        assert forall|i: int| 0 <= i < n && is_met(
            #[trigger] policy.rules[i],
            assessment,
        ) implies after.contains(policy.rules[i]) by {
            if i < n - 1 {
                let k = choose|k: int| 0 <= k < before.len() && before[k] == policy.rules[i];
                assert(after[k] == policy.rules[i]);
            } else {
                assert(after[after.len() - 1] == policy.rules[i]);
            }
        }
        assert forall|m: int| 0 <= m < after.len() implies is_met(#[trigger] after[m], assessment)
            && exists|i: int| 0 <= i < n && #[trigger] policy.rules[i] == after[m] by {
            if m < before.len() {
                assert(after[m] == before[m]);
                let i = choose|i: int| 0 <= i < n - 1 && #[trigger] policy.rules[i] == before[m];
                assert(policy.rules[i] == after[m]);
            } else {
                assert(policy.rules[n - 1] == after[m]);
            }
        }
    }
}

/// What a policy recommends for an assessment: the highest class of the rules whose outcome is
/// probable enough, simple where there is none. Somebody has to clarify exactly where one of these
/// rules says so, and each of them gives a reason that names its question, outcome and threshold.
pub proof fn lemma_recommendation_follows_the_rules(
    policy: DecisionPolicyModel,
    assessment: DecisionAssessmentModel,
)
    ensures
        ({
            let rules = policy.rules;
            let given = policy.triggered(assessment, rules.len());
            let out = recommendation_of(policy.version, given);
            &&& out.policy_version == policy.version
            &&& forall|i: int|
                0 <= i < rules.len() && is_met(#[trigger] rules[i], assessment)
                    ==> rules[i].execution_class.level() <= out.execution_class.level()
            &&& out.execution_class == ExecutionClass::Simple || exists|i: int|
                0 <= i < rules.len() && is_met(#[trigger] rules[i], assessment)
                    && rules[i].execution_class == out.execution_class
            &&& out.needs_clarification <==> exists|i: int|
                0 <= i < rules.len() && is_met(#[trigger] rules[i], assessment)
                    && rules[i].needs_clarification
            &&& out.reasons.len() == given.len()
            &&& forall|i: int|
                0 <= i < given.len() ==> #[trigger] out.reasons[i] == given[i].question_id + ":"@
                    + given[i].outcome + ">="@ + given[i].threshold_text
        }),
{
    let rules = policy.rules;
    let n = rules.len();
    let given = policy.triggered(assessment, n);
    let out = recommendation_of(policy.version, given);
    lemma_highest_class(given);
    lemma_triggered_are_met(policy, assessment, n);
    assert forall|i: int| 0 <= i < n && is_met(
        #[trigger] rules[i],
        assessment,
    ) implies rules[i].execution_class.level() <= out.execution_class.level() by {
        assert(given.contains(rules[i]));
        let m = choose|m: int| 0 <= m < given.len() && given[m] == rules[i];
        assert(given[m].execution_class.level() <= highest_class(given).level());
    }
    if out.execution_class != ExecutionClass::Simple {
        let m = choose|m: int|
            0 <= m < given.len() && (#[trigger] given[m]).execution_class == highest_class(given);
        let i = choose|i: int| 0 <= i < n && #[trigger] rules[i] == given[m];
        assert(is_met(rules[i], assessment));
    }
    if out.needs_clarification {
        let m = choose|m: int| 0 <= m < given.len() && (#[trigger] given[m]).needs_clarification;
        let i = choose|i: int| 0 <= i < n && #[trigger] rules[i] == given[m];
        assert(is_met(rules[i], assessment));
    }
    if exists|i: int|
        0 <= i < n && is_met(#[trigger] rules[i], assessment) && rules[i].needs_clarification {
        let i = choose|i: int|
            0 <= i < n && is_met(#[trigger] rules[i], assessment) && rules[i].needs_clarification;
        assert(given.contains(rules[i]));
        let m = choose|m: int| 0 <= m < given.len() && given[m] == rules[i];
        assert(given[m].needs_clarification);
    }
}

/// A policy is accepted for a request only where each rule asks for a probability from zero to one
/// of an outcome that its question can have, and no two rules speak of the same outcome.
pub proof fn lemma_valid_policy(
    policy: DecisionPolicyModel,
    request: DecisionRequestModel,
    i: int,
    j: int,
)
    requires
        policy.fault_for(request) is None,
        0 <= j < i < policy.rules.len() || 0 <= i < policy.rules.len() && j == i,
    ensures
        !blank(policy.version),
        !blank(policy.rules[i].question_id) && !blank(policy.rules[i].outcome),
        policy.rules[i].minimum_probability.in_unit(),
        j < i ==> policy.rules[j].question_id != policy.rules[i].question_id
            || policy.rules[j].outcome != policy.rules[i].outcome,
        exists|q: int|
            0 <= q < request.questions.len() && (#[trigger] request.questions[q]).id
                == policy.rules[i].question_id && match request.questions[q].kind {
                DecisionQuestionKindModel::Choice { options } => options.contains(
                    policy.rules[i].outcome,
                ),
                DecisionQuestionKindModel::BooleanProbability => policy.rules[i].outcome == "true"@
                    || policy.rules[i].outcome == "false"@,
                DecisionQuestionKindModel::Score { minimum, maximum } => {
                    &&& policy.rules[i].outcome_score is Some
                    &&& policy.rules[i].outcome_score->0.finite()
                    &&& minimum.at_most(policy.rules[i].outcome_score->0)
                    &&& policy.rules[i].outcome_score->0.at_most(maximum)
                },
            },
{
    lemma_faultless(policy.rule_faults(), policy.rules.len(), i);
    lemma_faultless(policy.target_faults(request), policy.rules.len(), i);
    let id = policy.rules[i].question_id;
    let q = choose|q: int| request.asked_at(id, q);
    assert(request.asked_at(id, q));
    assert(request.questions[q].id == id);
}

/// An assessment that has all that is asked of it is accepted.
pub proof fn lemma_assessment_is_owed(
    assessment: DecisionAssessmentModel,
    request: DecisionRequestModel,
)
    requires
        request.fault() is None,
        !blank(assessment.adapter_id),
        !blank(assessment.actual_model),
        assessment.actual_cost is Some ==> assessment.actual_cost->0 <= 9_223_372_036_854_775_807,
        assessment.question_set_version == request.question_set_version,
        assessment.signals.len() == request.questions.len(),
        forall|i: int|
            0 <= i < assessment.signals.len() ==> (#[trigger] assessment.signals[i]).question_id
                == request.questions[i].id && assessment.signals[i].fault(
                request.questions[i].kind,
            ) is None,
    ensures
        assessment.fault_for(request) is None,
{
    let n = assessment.signals.len();
    let faults = assessment.signal_faults(request);
    lemma_valid_request(request);
    assert forall|i: int| 0 <= i < n implies (#[trigger] faults(i)) is None by {
        let id = assessment.signals[i].question_id;
        assert(id == request.questions[i].id);
        assert forall|j: int| 0 <= j < i implies (#[trigger] assessment.signals[j]).question_id
            != id by {
            assert(request.questions[j].id != request.questions[i].id);
        }
        assert(request.asked_at(id, i)) by {
            assert forall|j: int| i < j < n implies (#[trigger] request.questions[j]).id != id by {
                assert(request.questions[i].id != request.questions[j].id);
            }
        }
        let q = choose|q: int| request.asked_at(id, q);
        assert(request.asked_at(id, q));
        if q < i {
            assert(request.questions[q].id != request.questions[i].id);
        } else if i < q {
            assert(request.questions[i].id != request.questions[q].id);
        }
    }
    crate::fault::lemma_no_fault(faults, n);
}

/// A policy that has all that is asked of it is accepted.
pub proof fn lemma_policy_is_owed(policy: DecisionPolicyModel)
    requires
        !blank(policy.version),
        forall|i: int|
            0 <= i < policy.rules.len() ==> !blank((#[trigger] policy.rules[i]).question_id)
                && !blank(policy.rules[i].outcome) && policy.rules[i].minimum_probability.in_unit(),
        forall|i: int, j: int|
            #![trigger policy.rules[i], policy.rules[j]]
            0 <= j < i < policy.rules.len() ==> policy.rules[j].question_id
                != policy.rules[i].question_id || policy.rules[j].outcome
                != policy.rules[i].outcome,
    ensures
        policy.fault() is None,
{
    let faults = policy.rule_faults();
    assert forall|i: int| 0 <= i < policy.rules.len() implies (#[trigger] faults(i)) is None by {
        assert(!blank(policy.rules[i].question_id));
        assert forall|j: int|
            0 <= j < i && (#[trigger] policy.rules[j]).question_id
                == policy.rules[i].question_id implies policy.rules[j].outcome
            != policy.rules[i].outcome by {}
    }
    crate::fault::lemma_no_fault(faults, policy.rules.len());
}

} // verus!
