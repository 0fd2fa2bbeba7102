//! Deterministic task facts and execution-class assessment.
use crate::decision::{
    DecisionAssessment, DecisionAssessmentModel, DecisionRecommendation,
    DecisionRecommendationModel,
};
use crate::fault::{
    answers, field_error, field_failure, first_fault, first_key_fault, lemma_first_fault,
    lemma_first_fault_at, lemma_first_fault_is_one, lemma_first_key_fault, lemma_no_key_fault,
    lemma_some_key_fault, or_fault, EngineError, EngineErrorModel,
};
use crate::model::Duplicate;
use crate::text::{
    ascending, byte_count, byte_len, decimal, decimal_text, join, join3, lemma_list_unique, list_of,
    lists, same_text, TextMap, TextSet,
};
use vstd::prelude::*;

verus! {

/// How many facts a task may have.
pub const MAX_FACTS: usize = 64;

/// How many rules a set may have.
pub const MAX_RULES: usize = 128;

/// How many bytes a string may take.
pub const MAX_STRING_BYTES: usize = 256;

/// How many strings a fact may hold.
pub const MAX_SET_ITEMS: usize = 64;

/// How demanding a task is, in rising order.
#[derive(Clone, Copy, Debug, PartialEq, Eq, Structural)]
pub enum ExecutionClass {
    Simple,
    Medium,
    Hard,
}

impl DeepView for ExecutionClass {
    type V = ExecutionClass;

    open spec fn deep_view(&self) -> ExecutionClass {
        *self
    }
}

impl Duplicate for ExecutionClass {
    fn duplicate(&self) -> (r: Self) {
        *self
    }
}

/// How a rule compares a fact with its value.
#[derive(Clone, Copy, Debug, PartialEq, Eq, Structural)]
pub enum RuleOperator {
    Eq,
    Gte,
    Gt,
    Contains,
}

impl DeepView for RuleOperator {
    type V = RuleOperator;

    open spec fn deep_view(&self) -> RuleOperator {
        *self
    }
}

impl Duplicate for RuleOperator {
    fn duplicate(&self) -> (r: Self) {
        *self
    }
}

/// What came of a rule.
#[derive(Clone, Copy, Debug, PartialEq, Eq, Structural)]
pub enum RuleStatus {
    Matched,
    NotMatched,
    NotObserved,
}

impl DeepView for RuleStatus {
    type V = RuleStatus;

    open spec fn deep_view(&self) -> RuleStatus {
        *self
    }
}

impl Duplicate for RuleStatus {
    fn duplicate(&self) -> (r: Self) {
        *self
    }
}

impl ExecutionClass {
    /// The place in the order of classes.
    pub open spec fn level(self) -> int {
        match self {
            ExecutionClass::Simple => 0,
            ExecutionClass::Medium => 1,
            ExecutionClass::Hard => 2,
        }
    }

    /// The more demanding of two classes.
    pub open spec fn higher(self, other: ExecutionClass) -> ExecutionClass {
        if self.level() < other.level() {
            other
        } else {
            self
        }
    }

    /// Whether `self` is less demanding than `other`.
    pub fn below(self, other: ExecutionClass) -> (r: bool)
        ensures
            r == (self.level() < other.level()),
    {
        match (self, other) {
            (ExecutionClass::Simple, ExecutionClass::Medium) => true,
            (ExecutionClass::Simple, ExecutionClass::Hard) => true,
            (ExecutionClass::Medium, ExecutionClass::Hard) => true,
            _ => false,
        }
    }

    /// The more demanding of two classes.
    pub fn max(self, other: ExecutionClass) -> (r: ExecutionClass)
        ensures
            r == self.higher(other),
    {
        if self.below(other) {
            other
        } else {
            self
        }
    }

    /// The name of a class.
    pub open spec fn name(self) -> Seq<char> {
        match self {
            ExecutionClass::Simple => "Simple"@,
            ExecutionClass::Medium => "Medium"@,
            ExecutionClass::Hard => "Hard"@,
        }
    }

    /// The name of a class.
    pub fn label(self) -> (r: &'static str)
        ensures
            r@ == self.name(),
    {
        match self {
            ExecutionClass::Simple => "Simple",
            ExecutionClass::Medium => "Medium",
            ExecutionClass::Hard => "Hard",
        }
    }
}

/// The value of a fact.
#[derive(Debug)]
pub enum TaskFactValue {
    Boolean(bool),
    Integer(u64),
    String(String),
    StringSet(TextSet),
}

/// What a fact's value is.
#[verifier::ext_equal]
pub ghost enum TaskFactValueModel {
    Boolean(bool),
    Integer(u64),
    Text(Seq<char>),
    Texts(Set<Seq<char>>),
}

impl DeepView for TaskFactValue {
    type V = TaskFactValueModel;

    open spec fn deep_view(&self) -> TaskFactValueModel {
        match self {
            TaskFactValue::Boolean(b) => TaskFactValueModel::Boolean(*b),
            TaskFactValue::Integer(n) => TaskFactValueModel::Integer(*n),
            TaskFactValue::String(s) => TaskFactValueModel::Text(s@),
            TaskFactValue::StringSet(s) => TaskFactValueModel::Texts(s.deep_view()),
        }
    }
}

impl Duplicate for TaskFactValue {
    fn duplicate(&self) -> (r: Self) {
        match self {
            TaskFactValue::Boolean(b) => TaskFactValue::Boolean(*b),
            TaskFactValue::Integer(n) => TaskFactValue::Integer(*n),
            TaskFactValue::String(s) => TaskFactValue::String(s.clone()),
            TaskFactValue::StringSet(s) => TaskFactValue::StringSet(s.duplicate()),
        }
    }
}

impl Clone for TaskFactValue {
    fn clone(&self) -> (r: Self)
        ensures
            r.deep_view() == self.deep_view(),
    {
        self.duplicate()
    }
}

/// A string takes at least one byte and at most `MAX_STRING_BYTES`.
pub open spec fn string_valid(value: Seq<char>) -> bool {
    value.len() > 0 && byte_len(value) <= MAX_STRING_BYTES
}

/// The fault of a string in a field.
pub open spec fn string_fault(field: Seq<char>, value: Seq<char>) -> Option<EngineErrorModel> {
    if string_valid(value) {
        None
    } else {
        Some(
            field_failure(
                "configuration"@,
                field,
                "string is empty or exceeds the byte limit"@,
            ),
        )
    }
}

fn validate_string(field: &str, value: &str) -> (r: Result<(), EngineError>)
    ensures
        answers(r, string_fault(field@, value@)),
{
    if value.is_empty() || byte_count(value) > MAX_STRING_BYTES {
        return Err(
            field_error("configuration", field, "string is empty or exceeds the byte limit"),
        );
    }
    Ok(())
}

impl TaskFactValueModel {
    /// The fault of a value in a field.
    pub open spec fn fault(self, field: Seq<char>) -> Option<EngineErrorModel> {
        match self {
            TaskFactValueModel::Boolean(_) => None,
            TaskFactValueModel::Integer(_) => None,
            TaskFactValueModel::Text(s) => string_fault(field, s),
            TaskFactValueModel::Texts(items) => if items.len() > MAX_SET_ITEMS {
                Some(field_failure("configuration"@, field, "fact string set is too large"@))
            } else if forall|t: Seq<char>| #[trigger] items.contains(t) ==> string_valid(t) {
                None
            } else {
                string_fault(field, Seq::empty())
            },
        }
    }
}

impl TaskFactValue {
    fn validate(&self, field: &str) -> (r: Result<(), EngineError>)
        ensures
            answers(r, self.deep_view().fault(field@)),
    {
        match self {
            TaskFactValue::Boolean(_) => Ok(()),
            TaskFactValue::Integer(_) => Ok(()),
            TaskFactValue::String(value) => validate_string(field, value.as_str()),
            TaskFactValue::StringSet(values) => {
                let n: usize = values.len();
                if n > MAX_SET_ITEMS {
                    return Err(
                        field_error("configuration", field, "fact string set is too large"),
                    );
                }
                let mut i: usize = 0;
                while i < n
                    invariant
                        i <= n,
                        n == values.listed().len(),
                        n == values.deep_view().len(),
                        n <= MAX_SET_ITEMS,
                        self == TaskFactValue::StringSet(*values),
                        forall|j: int| 0 <= j < i ==> string_valid(#[trigger] values.listed()[j]),
                    decreases n - i,
                {
                    let item: &str = values.at(i).as_str();
                    if let Err(e) = validate_string(field, item) {
                        proof {
                            assert(values.deep_view().contains(values.listed()[i as int]));
                        }
                        return Err(e);
                    }
                    i += 1;
                }
                proof {
                    assert forall|t: Seq<char>| #[trigger]
                        values.deep_view().contains(t) implies string_valid(t) by {
                        let j = choose|j: int|
                            0 <= j < values.listed().len() && values.listed()[j] == t;
                        assert(string_valid(values.listed()[j]));
                    }
                }
                Ok(())
            },
        }
    }

    /// Whether two values are the same.
    pub fn same(&self, other: &TaskFactValue) -> (r: bool)
        ensures
            r == (self.deep_view() == other.deep_view()),
    {
        match (self, other) {
            (TaskFactValue::Boolean(a), TaskFactValue::Boolean(b)) => *a == *b,
            (TaskFactValue::Integer(a), TaskFactValue::Integer(b)) => *a == *b,
            (TaskFactValue::String(a), TaskFactValue::String(b)) => same_text(
                a.as_str(),
                b.as_str(),
            ),
            (TaskFactValue::StringSet(a), TaskFactValue::StringSet(b)) => a.same_members(b),
            _ => false,
        }
    }
}

/// Facts that the host observed of a task.
#[derive(Debug)]
pub struct TaskFacts {
    pub version: String,
    pub values: TextMap<TaskFactValue>,
}

/// What a `TaskFacts` holds.
#[verifier::ext_equal]
pub ghost struct TaskFactsModel {
    pub version: Seq<char>,
    pub values: Map<Seq<char>, TaskFactValueModel>,
}

impl DeepView for TaskFacts {
    type V = TaskFactsModel;

    open spec fn deep_view(&self) -> TaskFactsModel {
        TaskFactsModel {
            version: self.version.deep_view(),
            values: self.values.deep_view(),
        }
    }
}

impl Duplicate for TaskFacts {
    fn duplicate(&self) -> (r: Self) {
        TaskFacts {
            version: self.version.duplicate(),
            values: self.values.duplicate(),
        }
    }
}

impl Clone for TaskFacts {
    fn clone(&self) -> (r: Self)
        ensures
            r.deep_view() == self.deep_view(),
    {
        self.duplicate()
    }
}

impl TaskFactsModel {
    pub open spec fn value_faults(self) -> spec_fn(Seq<char>) -> Option<EngineErrorModel> {
        |name: Seq<char>|
            or_fault(
                string_fault("facts.values key"@, name),
                self.values[name].fault("facts.values."@ + name),
            )
    }

    pub open spec fn fault(self) -> Option<EngineErrorModel> {
        or_fault(
            string_fault("facts.version"@, self.version),
            if self.values.dom().len() > MAX_FACTS {
                Some(field_failure("configuration"@, "facts.values"@, "too many task facts"@))
            } else {
                first_key_fault(self.values.dom(), self.value_faults())
            },
        )
    }
}

impl TaskFacts {
    pub fn validate(&self) -> (r: Result<(), EngineError>)
        ensures
            answers(r, self.deep_view().fault()),
    {
        if let Err(e) = validate_string("facts.version", self.version.as_str()) {
            return Err(e);
        }
        let n: usize = self.values.len();
        let ghost facts = self.deep_view();
        let ghost faults = facts.value_faults();
        let ghost listed = self.values.keys();
        assert(facts.values.dom() =~= self.values.key_set());
        if n > MAX_FACTS {
            return Err(field_error("configuration", "facts.values", "too many task facts"));
        }
        let mut i: usize = 0;
        while i < n
            invariant
                i <= n,
                n == listed.len(),
                n == facts.values.dom().len(),
                n <= MAX_FACTS,
                string_fault("facts.version"@, facts.version) is None,
                facts == self.deep_view(),
                faults == facts.value_faults(),
                listed == self.values.keys(),
                n == self.values.values().len(),
                ascending(listed),
                facts.values.dom() == self.values.key_set(),
                forall|j: int|
                    0 <= j < n ==> self.values.spec_get(#[trigger] listed[j]) == Some(
                        self.values.values()[j],
                    ),
                forall|j: int| 0 <= j < i ==> faults(#[trigger] listed[j]) is None,
            decreases n - i,
        {
            let name: &str = self.values.key_at(i).as_str();
            let value: &TaskFactValue = self.values.value_at(i);
            proof {
                assert(self.values.has(listed[i as int]));
                assert(facts.values[name@] == value.deep_view());
            }
            if let Err(e) = validate_string("facts.values key", name) {
                proof {
                    lemma_first_key_fault(listed, facts.values.dom(), faults, i as int);
                }
                return Err(e);
            }
            let field: String = join("facts.values.", name);
            if let Err(e) = value.validate(field.as_str()) {
                proof {
                    lemma_first_key_fault(listed, facts.values.dom(), faults, i as int);
                }
                return Err(e);
            }
            i += 1;
        }
        proof {
            lemma_no_key_fault(listed, facts.values.dom(), faults);
        }
        Ok(())
    }
}

/// A rule that asks for an execution class where a fact compares with a value.
#[derive(Debug)]
pub struct AssessmentRule {
    pub id: String,
    pub fact: String,
    pub op: RuleOperator,
    pub value: TaskFactValue,
    pub minimum_execution_class: ExecutionClass,
}

/// What a `AssessmentRule` holds.
#[verifier::ext_equal]
pub ghost struct AssessmentRuleModel {
    pub id: Seq<char>,
    pub fact: Seq<char>,
    pub op: RuleOperator,
    pub value: TaskFactValueModel,
    pub minimum_execution_class: ExecutionClass,
}

impl DeepView for AssessmentRule {
    type V = AssessmentRuleModel;

    open spec fn deep_view(&self) -> AssessmentRuleModel {
        AssessmentRuleModel {
            id: self.id.deep_view(),
            fact: self.fact.deep_view(),
            op: self.op.deep_view(),
            value: self.value.deep_view(),
            minimum_execution_class: self.minimum_execution_class.deep_view(),
        }
    }
}

impl Duplicate for AssessmentRule {
    fn duplicate(&self) -> (r: Self) {
        AssessmentRule {
            id: self.id.duplicate(),
            fact: self.fact.duplicate(),
            op: self.op.duplicate(),
            value: self.value.duplicate(),
            minimum_execution_class: self.minimum_execution_class.duplicate(),
        }
    }
}

impl Clone for AssessmentRule {
    fn clone(&self) -> (r: Self)
        ensures
            r.deep_view() == self.deep_view(),
    {
        self.duplicate()
    }
}

/// A versioned set of rules.
#[derive(Debug)]
pub struct RuleSet {
    pub version: String,
    pub rules: Vec<AssessmentRule>,
}

/// What a `RuleSet` holds.
#[verifier::ext_equal]
pub ghost struct RuleSetModel {
    pub version: Seq<char>,
    pub rules: Seq<AssessmentRuleModel>,
}

impl DeepView for RuleSet {
    type V = RuleSetModel;

    open spec fn deep_view(&self) -> RuleSetModel {
        RuleSetModel {
            version: self.version.deep_view(),
            rules: self.rules.deep_view(),
        }
    }
}

impl Duplicate for RuleSet {
    fn duplicate(&self) -> (r: Self) {
        RuleSet {
            version: self.version.duplicate(),
            rules: self.rules.duplicate(),
        }
    }
}

impl Clone for RuleSet {
    fn clone(&self) -> (r: Self)
        ensures
            r.deep_view() == self.deep_view(),
    {
        self.duplicate()
    }
}

/// What came of one rule.
#[derive(Debug)]
pub struct RuleResult {
    pub rule_id: String,
    pub fact: String,
    pub status: RuleStatus,
    pub observed: Option<TaskFactValue>,
    pub minimum_execution_class: ExecutionClass,
}

/// What a `RuleResult` holds.
#[verifier::ext_equal]
pub ghost struct RuleResultModel {
    pub rule_id: Seq<char>,
    pub fact: Seq<char>,
    pub status: RuleStatus,
    pub observed: Option<TaskFactValueModel>,
    pub minimum_execution_class: ExecutionClass,
}

impl DeepView for RuleResult {
    type V = RuleResultModel;

    open spec fn deep_view(&self) -> RuleResultModel {
        RuleResultModel {
            rule_id: self.rule_id.deep_view(),
            fact: self.fact.deep_view(),
            status: self.status.deep_view(),
            observed: self.observed.deep_view(),
            minimum_execution_class: self.minimum_execution_class.deep_view(),
        }
    }
}

impl Duplicate for RuleResult {
    fn duplicate(&self) -> (r: Self) {
        RuleResult {
            rule_id: self.rule_id.duplicate(),
            fact: self.fact.duplicate(),
            status: self.status.duplicate(),
            observed: self.observed.duplicate(),
            minimum_execution_class: self.minimum_execution_class.duplicate(),
        }
    }
}

impl Clone for RuleResult {
    fn clone(&self) -> (r: Self)
        ensures
            r.deep_view() == self.deep_view(),
    {
        self.duplicate()
    }
}

/// What came of all rules.
#[derive(Debug)]
pub struct RuleAssessment {
    pub facts_version: String,
    pub rule_set_version: String,
    pub results: Vec<RuleResult>,
}

/// What a `RuleAssessment` holds.
#[verifier::ext_equal]
pub ghost struct RuleAssessmentModel {
    pub facts_version: Seq<char>,
    pub rule_set_version: Seq<char>,
    pub results: Seq<RuleResultModel>,
}

impl DeepView for RuleAssessment {
    type V = RuleAssessmentModel;

    open spec fn deep_view(&self) -> RuleAssessmentModel {
        RuleAssessmentModel {
            facts_version: self.facts_version.deep_view(),
            rule_set_version: self.rule_set_version.deep_view(),
            results: self.results.deep_view(),
        }
    }
}

impl Duplicate for RuleAssessment {
    fn duplicate(&self) -> (r: Self) {
        RuleAssessment {
            facts_version: self.facts_version.duplicate(),
            rule_set_version: self.rule_set_version.duplicate(),
            results: self.results.duplicate(),
        }
    }
}

impl Clone for RuleAssessment {
    fn clone(&self) -> (r: Self)
        ensures
            r.deep_view() == self.deep_view(),
    {
        self.duplicate()
    }
}

/// The demand of a task, with the evidence for it.
#[derive(Debug)]
pub struct TaskAssessment {
    pub execution_class: ExecutionClass,
    pub facts_version: String,
    pub rule_set_version: String,
    pub matched_rule_ids: Vec<String>,
    pub not_observed_facts: Vec<String>,
    pub reasons: Vec<String>,
    pub decision_policy_version: Option<String>,
    pub needs_clarification: bool,
    pub decision: Option<DecisionAssessment>,
}

/// What a `TaskAssessment` holds.
#[verifier::ext_equal]
pub ghost struct TaskAssessmentModel {
    pub execution_class: ExecutionClass,
    pub facts_version: Seq<char>,
    pub rule_set_version: Seq<char>,
    pub matched_rule_ids: Seq<Seq<char>>,
    pub not_observed_facts: Seq<Seq<char>>,
    pub reasons: Seq<Seq<char>>,
    pub decision_policy_version: Option<Seq<char>>,
    pub needs_clarification: bool,
    pub decision: Option<DecisionAssessmentModel>,
}

impl DeepView for TaskAssessment {
    type V = TaskAssessmentModel;

    open spec fn deep_view(&self) -> TaskAssessmentModel {
        TaskAssessmentModel {
            execution_class: self.execution_class.deep_view(),
            facts_version: self.facts_version.deep_view(),
            rule_set_version: self.rule_set_version.deep_view(),
            matched_rule_ids: self.matched_rule_ids.deep_view(),
            not_observed_facts: self.not_observed_facts.deep_view(),
            reasons: self.reasons.deep_view(),
            decision_policy_version: self.decision_policy_version.deep_view(),
            needs_clarification: self.needs_clarification.deep_view(),
            decision: self.decision.deep_view(),
        }
    }
}

impl Duplicate for TaskAssessment {
    fn duplicate(&self) -> (r: Self) {
        TaskAssessment {
            execution_class: self.execution_class.duplicate(),
            facts_version: self.facts_version.duplicate(),
            rule_set_version: self.rule_set_version.duplicate(),
            matched_rule_ids: self.matched_rule_ids.duplicate(),
            not_observed_facts: self.not_observed_facts.duplicate(),
            reasons: self.reasons.duplicate(),
            decision_policy_version: self.decision_policy_version.duplicate(),
            needs_clarification: self.needs_clarification.duplicate(),
            decision: self.decision.duplicate(),
        }
    }
}

impl Clone for TaskAssessment {
    fn clone(&self) -> (r: Self)
        ensures
            r.deep_view() == self.deep_view(),
    {
        self.duplicate()
    }
}

/// The field of a rule by its place.
pub open spec fn rule_field(index: int) -> Seq<char> {
    "rules["@ + decimal(index as nat) + "]"@
}

/// An operator takes a value of its type.
pub open spec fn operator_fits(op: RuleOperator, value: TaskFactValueModel) -> bool {
    match op {
        RuleOperator::Eq => true,
        RuleOperator::Gte => value is Integer,
        RuleOperator::Gt => value is Integer,
        RuleOperator::Contains => value is Text,
    }
}

impl RuleSetModel {
    pub open spec fn rule_faults(self) -> spec_fn(int) -> Option<EngineErrorModel> {
        |i: int|
            {
                let rule = self.rules[i];
                let field = rule_field(i);
                or_fault(
                    string_fault(field + ".id"@, rule.id),
                    or_fault(
                        string_fault(field + ".fact"@, rule.fact),
                        or_fault(
                            if exists|j: int| 0 <= j < i && (#[trigger] self.rules[j]).id == rule.id {
                                Some(
                                    field_failure(
                                        "configuration"@,
                                        field + ".id"@,
                                        "duplicate rule ID"@,
                                    ),
                                )
                            } else {
                                None
                            },
                            or_fault(
                                rule.value.fault(field + ".value"@),
                                if operator_fits(rule.op, rule.value) {
                                    None
                                } else {
                                    Some(
                                        field_failure(
                                            "configuration"@,
                                            field,
                                            "rule operator and value type do not match"@,
                                        ),
                                    )
                                },
                            ),
                        ),
                    ),
                )
            }
    }

    pub open spec fn fault(self) -> Option<EngineErrorModel> {
        or_fault(
            string_fault("rules.version"@, self.version),
            if self.rules.len() > MAX_RULES {
                Some(field_failure("configuration"@, "rules"@, "too many assessment rules"@))
            } else {
                first_fault(self.rule_faults(), self.rules.len())
            },
        )
    }
}

fn validate_operator(field: &str, op: RuleOperator, value: &TaskFactValue) -> (r: Result<
    (),
    EngineError,
>)
    ensures
        answers(
            r,
            if operator_fits(op, value.deep_view()) {
                None
            } else {
                Some(
                    field_failure(
                        "configuration"@,
                        field@,
                        "rule operator and value type do not match"@,
                    ),
                )
            },
        ),
{
    let valid: bool = match op {
        RuleOperator::Eq => true,
        RuleOperator::Gte => matches!(value, TaskFactValue::Integer(_)),
        RuleOperator::Gt => matches!(value, TaskFactValue::Integer(_)),
        RuleOperator::Contains => matches!(value, TaskFactValue::String(_)),
    };
    if valid {
        Ok(())
    } else {
        Err(field_error("configuration", field, "rule operator and value type do not match"))
    }
}

impl RuleSet {
    pub fn validate(&self) -> (r: Result<(), EngineError>)
        ensures
            answers(r, self.deep_view().fault()),
    {
        if let Err(e) = validate_string("rules.version", self.version.as_str()) {
            return Err(e);
        }
        if self.rules.len() > MAX_RULES {
            return Err(field_error("configuration", "rules", "too many assessment rules"));
        }
        let ghost set = self.deep_view();
        let ghost faults = set.rule_faults();
        let mut ids: TextSet = TextSet::new();
        let mut i: usize = 0;
        while i < self.rules.len()
            invariant
                i <= self.rules@.len(),
                self.rules@.len() <= MAX_RULES,
                string_fault("rules.version"@, set.version) is None,
                set == self.deep_view(),
                faults == set.rule_faults(),
                first_fault(faults, i as nat) is None,
                forall|t: Seq<char>| #[trigger]
                    ids.has(t) <==> (exists|j: int|
                        0 <= j < i && (#[trigger] set.rules[j]).id == t),
            decreases self.rules@.len() - i,
        {
            let rule: &AssessmentRule = &self.rules[i];
            assert(set.rules[i as int] == rule.deep_view());
            proof {
                if faults(i as int) is Some {
                    lemma_first_fault(faults, i as nat, self.rules@.len());
                }
            }
            let digits: String = decimal_text(i);
            let field: String = join3("rules[", digits.as_str(), "]");
            let id_field: String = join(field.as_str(), ".id");
            if let Err(e) = validate_string(id_field.as_str(), rule.id.as_str()) {
                return Err(e);
            }
            let fact_field: String = join(field.as_str(), ".fact");
            if let Err(e) = validate_string(fact_field.as_str(), rule.fact.as_str()) {
                return Err(e);
            }
            let ghost known = ids;
            if !ids.insert(rule.id.clone()) {
                return Err(field_error("configuration", id_field.as_str(), "duplicate rule ID"));
            }
            let value_field: String = join(field.as_str(), ".value");
            if let Err(e) = rule.value.validate(value_field.as_str()) {
                return Err(e);
            }
            if let Err(e) = validate_operator(field.as_str(), rule.op, &rule.value) {
                return Err(e);
            }
            proof {
                assert forall|t: Seq<char>| #[trigger]
                    ids.has(t) <==> (exists|j: int|
                        0 <= j < i + 1 && (#[trigger] set.rules[j]).id == t) by {
                    assert(ids.has(t) <==> known.has(t) || t == set.rules[i as int].id);
                }
            }
            i += 1;
        }
        Ok(())
    }
}

/// An observed value meets a rule's operator and value.
pub open spec fn meets(
    observed: TaskFactValueModel,
    op: RuleOperator,
    expected: TaskFactValueModel,
) -> bool {
    match op {
        RuleOperator::Eq => observed == expected,
        RuleOperator::Gte => observed is Integer && expected is Integer && observed->Integer_0
            >= expected->Integer_0,
        RuleOperator::Gt => observed is Integer && expected is Integer && observed->Integer_0
            > expected->Integer_0,
        RuleOperator::Contains => observed is Texts && expected is Text
            && observed->Texts_0.contains(expected->Text_0),
    }
}

/// Whether an observed value meets a rule's operator and value.
pub fn matches_rule(observed: &TaskFactValue, op: RuleOperator, expected: &TaskFactValue) -> (r: bool)
    ensures
        r == meets(observed.deep_view(), op, expected.deep_view()),
{
    match op {
        RuleOperator::Eq => observed.same(expected),
        RuleOperator::Gte => match (observed, expected) {
            (TaskFactValue::Integer(a), TaskFactValue::Integer(b)) => *a >= *b,
            _ => false,
        },
        RuleOperator::Gt => match (observed, expected) {
            (TaskFactValue::Integer(a), TaskFactValue::Integer(b)) => *a > *b,
            _ => false,
        },
        RuleOperator::Contains => match (observed, expected) {
            (TaskFactValue::StringSet(values), TaskFactValue::String(value)) => values.contains(
                value.as_str(),
            ),
            _ => false,
        },
    }
}

/// The operators of rules: at least is more or equal; both compare integers alone; a set of texts
/// contains its members and nothing else contains anything; equal means the same kind and value.
pub proof fn lemma_rule_operators(
    observed: TaskFactValueModel,
    expected: TaskFactValueModel,
    a: u64,
    b: u64,
)
    ensures
        ({
            let x = TaskFactValueModel::Integer(a);
            let y = TaskFactValueModel::Integer(b);
            meets(x, RuleOperator::Gte, y) == (meets(x, RuleOperator::Gt, y) || meets(
                x,
                RuleOperator::Eq,
                y,
            ))
        }),
        !(observed is Integer && expected is Integer) ==> !meets(
            observed,
            RuleOperator::Gte,
            expected,
        ) && !meets(observed, RuleOperator::Gt, expected),
        meets(observed, RuleOperator::Contains, expected) <==> match (observed, expected) {
            (TaskFactValueModel::Texts(s), TaskFactValueModel::Text(x)) => s.contains(x),
            _ => false,
        },
        meets(observed, RuleOperator::Eq, expected) <==> observed == expected,
{
}

/// What comes of a rule: a fact that was not observed is neither a match nor a mismatch.
pub open spec fn rule_outcome(facts: TaskFactsModel, rule: AssessmentRuleModel) -> RuleResultModel {
    RuleResultModel {
        rule_id: rule.id,
        fact: rule.fact,
        status: if !facts.values.dom().contains(rule.fact) {
            RuleStatus::NotObserved
        } else if meets(facts.values[rule.fact], rule.op, rule.value) {
            RuleStatus::Matched
        } else {
            RuleStatus::NotMatched
        },
        observed: if facts.values.dom().contains(rule.fact) {
            Some(facts.values[rule.fact])
        } else {
            None
        },
        minimum_execution_class: rule.minimum_execution_class,
    }
}

/// What comes of all rules.
pub open spec fn rules_outcome(facts: TaskFactsModel, rules: RuleSetModel) -> RuleAssessmentModel {
    RuleAssessmentModel {
        facts_version: facts.version,
        rule_set_version: rules.version,
        results: Seq::new(rules.rules.len(), |i: int| rule_outcome(facts, rules.rules[i])),
    }
}

/// Applies every rule to the facts.
pub fn evaluate_rules(facts: &TaskFacts, rules: &RuleSet) -> (r: Result<
    RuleAssessment,
    EngineError,
>)
    ensures
        answers(r, or_fault(facts.deep_view().fault(), rules.deep_view().fault())),
        r is Ok ==> r->Ok_0.deep_view() == rules_outcome(facts.deep_view(), rules.deep_view()),
{
    if let Err(e) = facts.validate() {
        return Err(e);
    }
    if let Err(e) = rules.validate() {
        return Err(e);
    }
    let mut results: Vec<RuleResult> = Vec::new();
    let mut i: usize = 0;
    while i < rules.rules.len()
        invariant
            i <= rules.rules@.len(),
            results@.len() == i,
            forall|j: int|
                0 <= j < i ==> (#[trigger] results@[j]).deep_view() == rule_outcome(
                    facts.deep_view(),
                    rules.deep_view().rules[j],
                ),
        decreases rules.rules@.len() - i,
    {
        let rule: &AssessmentRule = &rules.rules[i];
        let mut status: RuleStatus = RuleStatus::NotObserved;
        let mut observed: Option<TaskFactValue> = None;
        if let Some(value) = facts.values.get(rule.fact.as_str()) {
            status = if matches_rule(value, rule.op, &rule.value) {
                RuleStatus::Matched
            } else {
                RuleStatus::NotMatched
            };
            observed = Some(value.duplicate());
        }
        let result = RuleResult {
            rule_id: rule.id.clone(),
            fact: rule.fact.clone(),
            status,
            observed,
            minimum_execution_class: rule.minimum_execution_class,
        };
        assert(result.deep_view() == rule_outcome(
            facts.deep_view(),
            rules.deep_view().rules[i as int],
        ));
        results.push(result);
        i += 1;
    }
    let out = RuleAssessment {
        facts_version: facts.version.clone(),
        rule_set_version: rules.version.clone(),
        results,
    };
    assert(out.deep_view().results =~= rules_outcome(facts.deep_view(), rules.deep_view()).results);
    Ok(out)
}

/// The most demanding of a class and those of the matched results.
pub open spec fn matched_class(
    start: ExecutionClass,
    results: Seq<RuleResultModel>,
) -> ExecutionClass
    decreases results.len(),
{
    if results.len() == 0 {
        start
    } else {
        let before = matched_class(start, results.drop_last());
        if results.last().status == RuleStatus::Matched {
            before.higher(results.last().minimum_execution_class)
        } else {
            before
        }
    }
}

/// The matched results, in order.
pub open spec fn matched(results: Seq<RuleResultModel>) -> Seq<RuleResultModel> {
    results.filter(|x: RuleResultModel| x.status == RuleStatus::Matched)
}

/// The class that an optional minimum or recommendation asks for on top of another.
pub open spec fn raised(class: ExecutionClass, by: Option<ExecutionClass>) -> ExecutionClass {
    match by {
        Some(c) => class.higher(c),
        None => class,
    }
}

/// The class of a recommendation.
pub open spec fn recommended(decision: Option<DecisionRecommendationModel>) -> Option<
    ExecutionClass,
> {
    match decision {
        Some(d) => Some(d.execution_class),
        None => None,
    }
}

/// Texts with a prefix each.
pub open spec fn prefixed(prefix: Seq<char>, items: Seq<Seq<char>>) -> Seq<Seq<char>> {
    Seq::new(items.len(), |i: int| prefix + items[i])
}

/// The class that host, rules, minimum and recommendation ask for together.
pub open spec fn merged_class(
    host_minimum: ExecutionClass,
    results: Seq<RuleResultModel>,
    additional_minimum: Option<ExecutionClass>,
    decision: Option<DecisionRecommendationModel>,
) -> ExecutionClass {
    raised(
        raised(matched_class(host_minimum, results), additional_minimum),
        recommended(decision),
    )
}

/// The reasons for a class, in order: rules, minimum, recommendation.
pub open spec fn merged_reasons(
    results: Seq<RuleResultModel>,
    additional_minimum: Option<ExecutionClass>,
    decision: Option<DecisionRecommendationModel>,
) -> Seq<Seq<char>> {
    prefixed("rule:"@, matched_ids(results)) + (match additional_minimum {
        Some(c) => seq!["additional:"@ + c.name()],
        None => Seq::empty(),
    }) + (match decision {
        Some(d) => prefixed("decision:"@, d.reasons),
        None => Seq::empty(),
    })
}

/// The names of the matched rules, in order.
pub open spec fn matched_ids(results: Seq<RuleResultModel>) -> Seq<Seq<char>> {
    Seq::new(matched(results).len(), |i: int| matched(results)[i].rule_id)
}

/// `listed` are the facts that were not observed, each once in ascending order.
pub open spec fn lists_unobserved(
    listed: Seq<Seq<char>>,
    results: Seq<RuleResultModel>,
) -> bool {
    &&& ascending(listed)
    &&& forall|t: Seq<char>| #[trigger]
        listed.contains(t) <==> (exists|j: int|
            0 <= j < results.len() && (#[trigger] results[j]).status == RuleStatus::NotObserved
                && results[j].fact == t)
}

proof fn lemma_matched_step(results: Seq<RuleResultModel>, i: int)
    requires
        0 <= i < results.len(),
    ensures
        matched_ids(results.take(i + 1)) == (if results[i].status == RuleStatus::Matched {
            matched_ids(results.take(i)).push(results[i].rule_id)
        } else {
            matched_ids(results.take(i))
        }),
{
    let front = results.take(i + 1);
    assert(front.drop_last() =~= results.take(i));
    reveal(Seq::filter);
    let a = matched_ids(front);
    if results[i].status == RuleStatus::Matched {
        assert(matched(front) =~= matched(results.take(i)).push(results[i]));
        assert(a =~= matched_ids(results.take(i)).push(results[i].rule_id));
    } else {
        assert(matched(front) =~= matched(results.take(i)));
    }
}

/// Merges what host, rules and an optional minimum ask for.
pub fn merge_assessment(
    host_minimum: ExecutionClass,
    rules: &RuleAssessment,
    additional_minimum: Option<ExecutionClass>,
) -> (r: TaskAssessment)
    ensures
        merges(
            r.deep_view(),
            host_minimum,
            rules.deep_view(),
            additional_minimum,
            None,
            None,
        ),
{
    merge_assessment_with_evidence(host_minimum, rules, additional_minimum, None, None)
}

/// Merges what host, rules, an optional minimum and a recommendation ask for.
pub fn merge_assessment_with_decision(
    host_minimum: ExecutionClass,
    rules: &RuleAssessment,
    additional_minimum: Option<ExecutionClass>,
    decision: Option<&DecisionRecommendation>,
) -> (r: TaskAssessment)
    ensures
        merges(
            r.deep_view(),
            host_minimum,
            rules.deep_view(),
            additional_minimum,
            decision.deep_view(),
            None,
        ),
{
    merge_assessment_with_evidence(host_minimum, rules, additional_minimum, decision, None)
}

/// `out` is what comes of merging.
pub open spec fn merges(
    out: TaskAssessmentModel,
    host_minimum: ExecutionClass,
    rules: RuleAssessmentModel,
    additional_minimum: Option<ExecutionClass>,
    decision: Option<DecisionRecommendationModel>,
    evidence: Option<DecisionAssessmentModel>,
) -> bool {
    &&& out.execution_class == merged_class(
        host_minimum,
        rules.results,
        additional_minimum,
        decision,
    )
    &&& out.facts_version == rules.facts_version
    &&& out.rule_set_version == rules.rule_set_version
    &&& out.matched_rule_ids == matched_ids(rules.results)
    &&& lists_unobserved(out.not_observed_facts, rules.results)
    &&& out.reasons == merged_reasons(rules.results, additional_minimum, decision)
    &&& out.decision_policy_version == (match decision {
        Some(d) => Some(d.policy_version),
        None => None,
    })
    &&& out.needs_clarification == (decision is Some && decision->0.needs_clarification)
    &&& out.decision == evidence
}

/// The facts that were not observed.
pub open spec fn unobserved_facts(results: Seq<RuleResultModel>) -> Set<Seq<char>> {
    Set::new(
        |t: Seq<char>|
            exists|j: int|
                0 <= j < results.len() && (#[trigger] results[j]).status == RuleStatus::NotObserved
                    && results[j].fact == t,
    )
}

/// What comes of merging.
pub open spec fn merged(
    host_minimum: ExecutionClass,
    rules: RuleAssessmentModel,
    additional_minimum: Option<ExecutionClass>,
    decision: Option<DecisionRecommendationModel>,
    evidence: Option<DecisionAssessmentModel>,
) -> TaskAssessmentModel {
    TaskAssessmentModel {
        execution_class: merged_class(host_minimum, rules.results, additional_minimum, decision),
        facts_version: rules.facts_version,
        rule_set_version: rules.rule_set_version,
        matched_rule_ids: matched_ids(rules.results),
        not_observed_facts: list_of(unobserved_facts(rules.results)),
        reasons: merged_reasons(rules.results, additional_minimum, decision),
        decision_policy_version: match decision {
            Some(d) => Some(d.policy_version),
            None => None,
        },
        needs_clarification: decision is Some && decision->0.needs_clarification,
        decision: evidence,
    }
}

/// Merging has one outcome.
pub proof fn lemma_merged(
    out: TaskAssessmentModel,
    host_minimum: ExecutionClass,
    rules: RuleAssessmentModel,
    additional_minimum: Option<ExecutionClass>,
    decision: Option<DecisionRecommendationModel>,
    evidence: Option<DecisionAssessmentModel>,
)
    requires
        merges(out, host_minimum, rules, additional_minimum, decision, evidence),
    ensures
        out == merged(host_minimum, rules, additional_minimum, decision, evidence),
{
    let set = unobserved_facts(rules.results);
    assert(lists(set, out.not_observed_facts)) by {
        assert forall|t: Seq<char>|
            set.contains(t) <==> out.not_observed_facts.contains(t) by {}
    }
    lemma_list_unique(set, out.not_observed_facts);
}

/// Merges what host, rules, an optional minimum and a recommendation ask for, and keeps the
/// evidence of the recommendation.
pub fn merge_assessment_with_evidence(
    host_minimum: ExecutionClass,
    rules: &RuleAssessment,
    additional_minimum: Option<ExecutionClass>,
    decision: Option<&DecisionRecommendation>,
    decision_evidence: Option<&DecisionAssessment>,
) -> (r: TaskAssessment)
    ensures
        merges(
            r.deep_view(),
            host_minimum,
            rules.deep_view(),
            additional_minimum,
            decision.deep_view(),
            decision_evidence.deep_view(),
        ),
{
    let ghost results = rules.deep_view().results;
    let mut execution_class: ExecutionClass = host_minimum;
    let mut matched_rule_ids: Vec<String> = Vec::new();
    let mut unobserved: TextSet = TextSet::new();
    let mut reasons: Vec<String> = Vec::new();
    let mut i: usize = 0;
    proof {
        assert(results.take(0) =~= Seq::empty());
        reveal(Seq::filter);
        assert(matched_ids(results.take(0)) =~= Seq::empty());
        assert(matched_rule_ids.deep_view() =~= Seq::empty());
        assert(prefixed("rule:"@, matched_ids(results.take(0))) =~= Seq::empty());
        assert(reasons.deep_view() =~= Seq::empty());
    }
    while i < rules.results.len()
        invariant
            i <= rules.results@.len(),
            results == rules.deep_view().results,
            execution_class == matched_class(host_minimum, results.take(i as int)),
            matched_rule_ids.deep_view() == matched_ids(results.take(i as int)),
            reasons.deep_view() == prefixed("rule:"@, matched_ids(results.take(i as int))),
            forall|t: Seq<char>| #[trigger]
                unobserved.has(t) <==> (exists|j: int|
                    0 <= j < i && (#[trigger] results[j]).status == RuleStatus::NotObserved
                        && results[j].fact == t),
        decreases rules.results@.len() - i,
    {
        let result: &RuleResult = &rules.results[i];
        let ghost known = unobserved;
        let ghost ids = matched_rule_ids.deep_view();
        let ghost why = reasons.deep_view();
        assert(results[i as int] == result.deep_view());
        proof {
            lemma_matched_step(results, i as int);
            assert(results.take(i + 1).drop_last() =~= results.take(i as int));
        }
        match result.status {
            RuleStatus::Matched => {
                execution_class = execution_class.max(result.minimum_execution_class);
                matched_rule_ids.push(result.rule_id.clone());
                reasons.push(join("rule:", result.rule_id.as_str()));
                proof {
                    assert(matched_rule_ids.deep_view() =~= ids.push(result.rule_id@));
                    assert(reasons.deep_view() =~= why.push("rule:"@ + result.rule_id@));
                    assert(reasons.deep_view() =~= prefixed(
                        "rule:"@,
                        matched_ids(results.take(i + 1)),
                    ));
                }
            },
            RuleStatus::NotObserved => {
                unobserved.insert(result.fact.clone());
            },
            RuleStatus::NotMatched => {},
        }
        proof {
            assert forall|t: Seq<char>| #[trigger]
                unobserved.has(t) <==> (exists|j: int|
                    0 <= j < i + 1 && (#[trigger] results[j]).status == RuleStatus::NotObserved
                        && results[j].fact == t) by {
                assert(known.has(t) <==> (exists|j: int|
                    0 <= j < i && (#[trigger] results[j]).status == RuleStatus::NotObserved
                        && results[j].fact == t));
                if results[i as int].status == RuleStatus::NotObserved {
                    assert(unobserved.has(t) <==> known.has(t) || t == results[i as int].fact);
                }
            }
        }
        i += 1;
    }
    assert(results.take(results.len() as int) =~= results);
    let ghost rule_reasons = reasons.deep_view();
    if let Some(minimum) = additional_minimum {
        execution_class = execution_class.max(minimum);
        reasons.push(join("additional:", minimum.label()));
        assert(reasons.deep_view() =~= rule_reasons.push("additional:"@ + minimum.name()));
    }
    let ghost two = rule_reasons + (match additional_minimum {
        Some(c) => seq!["additional:"@ + c.name()],
        None => Seq::empty(),
    });
    assert(reasons.deep_view() =~= two);
    let mut decision_policy_version: Option<String> = None;
    let mut needs_clarification: bool = false;
    if let Some(recommendation) = decision {
        execution_class = execution_class.max(recommendation.execution_class);
        append_prefixed(&mut reasons, "decision:", &recommendation.reasons);
        decision_policy_version = Some(recommendation.policy_version.clone());
        needs_clarification = recommendation.needs_clarification;
    }
    let evidence: Option<DecisionAssessment> = match decision_evidence {
        Some(e) => Some(e.duplicate()),
        None => None,
    };
    let not_observed_facts: Vec<String> = unobserved.to_list();
    proof {
        assert(reasons.deep_view() =~= merged_reasons(
            results,
            additional_minimum,
            decision.deep_view(),
        ));
        assert forall|t: Seq<char>| #[trigger]
            not_observed_facts.deep_view().contains(t) <==> (exists|j: int|
                0 <= j < results.len() && (#[trigger] results[j]).status == RuleStatus::NotObserved
                    && results[j].fact == t) by {
            assert(unobserved.has(t) == not_observed_facts.deep_view().contains(t));
        }
    }
    TaskAssessment {
        execution_class,
        facts_version: rules.facts_version.clone(),
        rule_set_version: rules.rule_set_version.clone(),
        matched_rule_ids,
        not_observed_facts,
        reasons,
        decision_policy_version,
        needs_clarification,
        decision: evidence,
    }
}

/// Appends each text with a prefix.
fn append_prefixed(out: &mut Vec<String>, prefix: &str, items: &Vec<String>)
    ensures
        final(out).deep_view() == old(out).deep_view() + prefixed(prefix@, items.deep_view()),
{
    let ghost before = out.deep_view();
    let mut i: usize = 0;
    assert(out.deep_view() =~= before + prefixed(prefix@, items.deep_view()).take(0));
    while i < items.len()
        invariant
            i <= items@.len(),
            out.deep_view() == before + prefixed(prefix@, items.deep_view()).take(i as int),
        decreases items@.len() - i,
    {
        let ghost here = out.deep_view();
        out.push(join(prefix, items[i].as_str()));
        proof {
            let all = prefixed(prefix@, items.deep_view());
            assert(out.deep_view() =~= here.push(all[i as int]));
            assert(all.take(i + 1) =~= all.take(i as int).push(all[i as int]));
            assert(out.deep_view() =~= before + all.take(i + 1));
        }
        i += 1;
    }
    let ghost all = prefixed(prefix@, items.deep_view());
    assert(all.take(all.len() as int) =~= all);
}

proof fn lemma_matched_class_floor(start: ExecutionClass, results: Seq<RuleResultModel>)
    ensures
        matched_class(start, results).level() >= start.level(),
        forall|i: int|
            0 <= i < results.len() && (#[trigger] results[i]).status == RuleStatus::Matched
                ==> matched_class(start, results).level()
                >= results[i].minimum_execution_class.level(),
        matched_class(start, results) == start || exists|i: int|
            0 <= i < results.len() && (#[trigger] results[i]).status == RuleStatus::Matched
                && results[i].minimum_execution_class == matched_class(start, results),
    decreases results.len(),
{
    if results.len() > 0 {
        let front = results.drop_last();
        lemma_matched_class_floor(start, front);
        assert forall|i: int|
            0 <= i < results.len() && (#[trigger] results[i]).status
                == RuleStatus::Matched implies matched_class(start, results).level()
            >= results[i].minimum_execution_class.level() by {
            if i < front.len() {
                assert(front[i] == results[i]);
            }
        }
        if matched_class(start, results) != start {
            if results.last().status == RuleStatus::Matched
                && results.last().minimum_execution_class == matched_class(start, results) {
                assert(results[results.len() - 1] == results.last());
            } else {
                let i = choose|i: int|
                    0 <= i < front.len() && (#[trigger] front[i]).status == RuleStatus::Matched
                        && front[i].minimum_execution_class == matched_class(start, front);
                assert(results[i] == front[i]);
            }
        }
    }
}

/// A merged class is never below what the host, a matched rule, the additional minimum or the
/// recommendation asks for, and one of them asks for exactly it.
pub proof fn lemma_merge_never_lowers(
    host_minimum: ExecutionClass,
    results: Seq<RuleResultModel>,
    additional_minimum: Option<ExecutionClass>,
    decision: Option<DecisionRecommendationModel>,
)
    ensures
        ({
            let class = merged_class(host_minimum, results, additional_minimum, decision);
            &&& class.level() >= host_minimum.level()
            &&& forall|i: int|
                0 <= i < results.len() && (#[trigger] results[i]).status == RuleStatus::Matched
                    ==> class.level() >= results[i].minimum_execution_class.level()
            &&& additional_minimum is Some ==> class.level() >= additional_minimum->0.level()
            &&& decision is Some ==> class.level() >= decision->0.execution_class.level()
            &&& ({
                ||| class == host_minimum
                ||| additional_minimum == Some(class)
                ||| recommended(decision) == Some(class)
                ||| exists|i: int|
                    0 <= i < results.len() && (#[trigger] results[i]).status
                        == RuleStatus::Matched && results[i].minimum_execution_class == class
            })
        }),
{
    lemma_matched_class_floor(host_minimum, results);
}

/// Classes are ordered: simple is below medium, and medium below hard.
pub proof fn lemma_class_order(class: ExecutionClass)
    ensures
        ExecutionClass::Simple.level() < ExecutionClass::Medium.level(),
        ExecutionClass::Medium.level() < ExecutionClass::Hard.level(),
        class.higher(ExecutionClass::Hard) == ExecutionClass::Hard,
        ExecutionClass::Hard.higher(class) == ExecutionClass::Hard,
        class.higher(ExecutionClass::Simple) == class,
        ExecutionClass::Simple.higher(class) == class,
        class.higher(class) == class,
        ExecutionClass::Simple.name() == "Simple"@,
        ExecutionClass::Medium.name() == "Medium"@,
        ExecutionClass::Hard.name() == "Hard"@,
{
}

/// Rules compare integers as integers: the observed one with the expected one.
pub proof fn lemma_integers_are_compared(a: u64, b: u64)
    ensures
        meets(
            TaskFactValueModel::Integer(a),
            RuleOperator::Gte,
            TaskFactValueModel::Integer(b),
        ) <==> a >= b,
        meets(
            TaskFactValueModel::Integer(a),
            RuleOperator::Gt,
            TaskFactValueModel::Integer(b),
        ) <==> a > b,
        meets(
            TaskFactValueModel::Integer(a),
            RuleOperator::Eq,
            TaskFactValueModel::Integer(b),
        ) <==> a == b,
{
}

/// Every rule has a result in its place, with its name, its fact and its class. It is matched where
/// the fact was observed and meets it, not matched where the fact was observed and does not, and
/// not observed where the fact is missing.
pub proof fn lemma_every_rule_has_its_result(facts: TaskFactsModel, rules: RuleSetModel, i: int)
    requires
        0 <= i < rules.rules.len(),
    ensures
        ({
            let out = rules_outcome(facts, rules);
            let rule = rules.rules[i];
            let result = out.results[i];
            let known = facts.values.dom().contains(rule.fact);
            &&& out.facts_version == facts.version && out.rule_set_version == rules.version
            &&& out.results.len() == rules.rules.len()
            &&& result.rule_id == rule.id && result.fact == rule.fact
            &&& result.minimum_execution_class == rule.minimum_execution_class
            &&& result.status == RuleStatus::NotObserved <==> !known
            &&& known ==> result.observed == Some(facts.values[rule.fact])
            &&& !known ==> result.observed is None
            &&& known ==> (result.status == RuleStatus::Matched <==> meets(
                facts.values[rule.fact],
                rule.op,
                rule.value,
            ))
        }),
{
}

/// What is merged tells the rules that matched and the facts that were missing, all of them and no
/// others, and keeps the versions and the evidence. Somebody has to clarify exactly where the
/// recommendation says so.
pub proof fn lemma_merge_tells_what_it_rests_on(
    out: TaskAssessmentModel,
    host_minimum: ExecutionClass,
    rules: RuleAssessmentModel,
    additional_minimum: Option<ExecutionClass>,
    decision: Option<DecisionRecommendationModel>,
    evidence: Option<DecisionAssessmentModel>,
)
    requires
        merges(out, host_minimum, rules, additional_minimum, decision, evidence),
    ensures
        forall|id: Seq<char>|
            out.matched_rule_ids.contains(id) <==> exists|j: int|
                0 <= j < rules.results.len() && (#[trigger] rules.results[j]).rule_id == id
                    && rules.results[j].status == RuleStatus::Matched,
        forall|fact: Seq<char>|
            out.not_observed_facts.contains(fact) <==> exists|j: int|
                0 <= j < rules.results.len() && (#[trigger] rules.results[j]).fact == fact
                    && rules.results[j].status == RuleStatus::NotObserved,
        out.facts_version == rules.facts_version,
        out.rule_set_version == rules.rule_set_version,
        out.needs_clarification <==> decision is Some && decision->0.needs_clarification,
        decision is Some ==> out.decision_policy_version == Some(decision->0.policy_version),
        decision is None ==> out.decision_policy_version is None,
        out.decision == evidence,
{
    let results = rules.results;
    let pred = |x: RuleResultModel| x.status == RuleStatus::Matched;
    let kept = matched(results);
    assert forall|id: Seq<char>| out.matched_rule_ids.contains(id) <==> exists|j: int|
        0 <= j < results.len() && (#[trigger] results[j]).rule_id == id && results[j].status
            == RuleStatus::Matched by {
        if out.matched_rule_ids.contains(id) {
            let k = choose|k: int|
                0 <= k < out.matched_rule_ids.len() && out.matched_rule_ids[k] == id;
            results.lemma_filter_pred(pred, k);
            assert(kept.contains(kept[k]));
            results.lemma_filter_contains_rev(pred, kept[k]);
            let j = choose|j: int| 0 <= j < results.len() && results[j] == kept[k];
            assert(results[j].rule_id == id);
        }
        if exists|j: int|
            0 <= j < results.len() && (#[trigger] results[j]).rule_id == id && results[j].status
                == RuleStatus::Matched {
            let j = choose|j: int|
                0 <= j < results.len() && (#[trigger] results[j]).rule_id == id
                    && results[j].status == RuleStatus::Matched;
            assert(pred(results[j]));
            results.lemma_filter_contains(pred, j);
            let k = choose|k: int| 0 <= k < kept.len() && kept[k] == results[j];
            assert(out.matched_rule_ids[k] == id);
        }
    }
    assert forall|fact: Seq<char>| out.not_observed_facts.contains(fact) <==> exists|j: int|
        0 <= j < results.len() && (#[trigger] results[j]).fact == fact && results[j].status
            == RuleStatus::NotObserved by {}
}

/// The reasons of a merge name the matched rules, then the additional minimum, then the reasons of
/// the recommendation, each marked with where it comes from.
pub proof fn lemma_merge_gives_its_reasons(
    out: TaskAssessmentModel,
    host_minimum: ExecutionClass,
    rules: RuleAssessmentModel,
    additional_minimum: Option<ExecutionClass>,
    decision: Option<DecisionRecommendationModel>,
    evidence: Option<DecisionAssessmentModel>,
    i: int,
)
    requires
        merges(out, host_minimum, rules, additional_minimum, decision, evidence),
    ensures
        ({
            let ids = out.matched_rule_ids;
            let extra: int = if additional_minimum is Some {
                1
            } else {
                0
            };
            let given: nat = if decision is Some {
                decision->0.reasons.len()
            } else {
                0
            };
            &&& out.reasons.len() == ids.len() + extra + given
            &&& 0 <= i < ids.len() ==> out.reasons[i] == "rule:"@ + ids[i]
            &&& additional_minimum is Some ==> out.reasons[ids.len() as int] == "additional:"@
                + additional_minimum->0.name()
            &&& decision is Some && 0 <= i < given ==> out.reasons[ids.len() + extra + i]
                == "decision:"@ + decision->0.reasons[i]
        }),
{
}

/// Whether a text is neither empty nor longer than the bytes it may take.
pub open spec fn is_short_text(value: Seq<char>) -> bool {
    0 < value.len() && byte_len(value) <= 256
}

/// Whether a fact's value is one that may be told: texts are short, and a set holds few of them.
pub open spec fn is_fact(value: TaskFactValueModel) -> bool {
    match value {
        TaskFactValueModel::Boolean(_) => true,
        TaskFactValueModel::Integer(_) => true,
        TaskFactValueModel::Text(s) => is_short_text(s),
        TaskFactValueModel::Texts(items) => items.len() <= 64 && forall|t: Seq<char>| #[trigger]
            items.contains(t) ==> is_short_text(t),
    }
}

/// Facts are accepted exactly where the version is a short text and there are few of them, each
/// with a short name and a value that may be told.
pub proof fn lemma_valid_facts(facts: TaskFactsModel)
    requires
        facts.values.dom().finite(),
    ensures
        facts.fault() is None <==> {
            &&& is_short_text(facts.version)
            &&& facts.values.dom().len() <= 64
            &&& forall|name: Seq<char>| #[trigger]
                facts.values.dom().contains(name) ==> is_short_text(name) && is_fact(
                    facts.values[name],
                )
        },
        facts.fault() is Some ==> facts.fault()->0.kind == "configuration"@,
{
    let keys = facts.values.dom();
    let faults = facts.value_faults();
    lemma_some_key_fault(keys, faults);
    assert forall|name: Seq<char>| #[trigger] keys.contains(name) implies faults(name) is None == (
    is_short_text(name) && is_fact(facts.values[name])) by {
        lemma_value_fault(facts.values[name], "facts.values."@ + name);
    }
    if first_key_fault(keys, faults) is Some {
        let key = choose|key: Seq<char>|
            #[trigger] keys.contains(key) && faults(key) == first_key_fault(keys, faults);
        assert(faults(key) is Some);
        lemma_value_fault(facts.values[key], "facts.values."@ + key);
    }
}

proof fn lemma_value_fault(value: TaskFactValueModel, field: Seq<char>)
    ensures
        value.fault(field) is None <==> is_fact(value),
        value.fault(field) is Some ==> value.fault(field)->0.kind == "configuration"@,
{
    match value {
        TaskFactValueModel::Texts(items) => {
            assert forall|t: Seq<char>| #[trigger] items.contains(t) implies string_valid(t)
                == is_short_text(t) by {}
        },
        _ => {},
    }
}

/// Rules are accepted exactly where the version is a short text and there are few of them, each
/// with a short name of its own, a short fact, and a value that may be told and that its operator
/// takes.
pub proof fn lemma_valid_rules(rules: RuleSetModel)
    ensures
        rules.fault() is None <==> {
            &&& is_short_text(rules.version)
            &&& rules.rules.len() <= 128
            &&& forall|i: int|
                0 <= i < rules.rules.len() ==> is_short_text((#[trigger] rules.rules[i]).id)
                    && is_short_text(rules.rules[i].fact) && is_fact(rules.rules[i].value) && (
                match rules.rules[i].op {
                    RuleOperator::Eq => true,
                    RuleOperator::Gte => rules.rules[i].value is Integer,
                    RuleOperator::Gt => rules.rules[i].value is Integer,
                    RuleOperator::Contains => rules.rules[i].value is Text,
                })
            &&& forall|i: int, j: int|
                0 <= j < i < rules.rules.len() ==> (#[trigger] rules.rules[j]).id != (
                #[trigger] rules.rules[i]).id
        },
        rules.fault() is Some ==> rules.fault()->0.kind == "configuration"@,
{
    let faults = rules.rule_faults();
    let n = rules.rules.len();
    assert forall|i: int| 0 <= i < n implies (#[trigger] faults(i)) is None == {
        &&& is_short_text(rules.rules[i].id)
        &&& is_short_text(rules.rules[i].fact)
        &&& is_fact(rules.rules[i].value)
        &&& operator_fits(rules.rules[i].op, rules.rules[i].value)
        &&& forall|j: int| 0 <= j < i ==> (#[trigger] rules.rules[j]).id != rules.rules[i].id
    } by {
        lemma_value_fault(rules.rules[i].value, rule_field(i) + ".value"@);
    }
    if first_fault(faults, n) is Some {
        let i = lemma_first_fault_is_one(faults, n);
        assert(faults(i) is Some);
        lemma_value_fault(rules.rules[i].value, rule_field(i) + ".value"@);
        assert(is_short_text(rules.rules[i].id) || !is_short_text(rules.rules[i].id));
    } else {
        assert forall|i: int| 0 <= i < n implies (#[trigger] faults(i)) is None by {
            lemma_first_fault_at(faults, n, i);
        }
        assert forall|i: int| 0 <= i < n implies is_short_text((#[trigger] rules.rules[i]).id)
            && is_short_text(rules.rules[i].fact) && is_fact(rules.rules[i].value)
            && operator_fits(rules.rules[i].op, rules.rules[i].value) by {
            assert(faults(i) is None);
        }
        assert forall|i: int, j: int| 0 <= j < i < n implies (#[trigger] rules.rules[j]).id != (
        #[trigger] rules.rules[i]).id by {
            assert(faults(i) is None);
        }
    }
}

} // verus!
