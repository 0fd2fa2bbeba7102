use model_collaboration_engine::assessment::ExecutionClass;
use model_collaboration_engine::binary64::{number, Binary64};
use model_collaboration_engine::decision::{
    DecisionAssessment, DecisionConfig, DecisionPolicy, DecisionPolicyRule, DecisionQuestion,
    DecisionQuestionKind, DecisionRequest, DecisionSignal, DecisionState, DecisionValue,
    FakeDecisionModel,
};
use model_collaboration_engine::text::TextMap;

fn float(x: f64) -> Binary64 {
    number(x.to_bits())
}

fn request() -> DecisionRequest {
    DecisionRequest {
        question_set_version: "demand-v1".into(),
        state: DecisionState {
            version: "facts-v1".into(),
            values: TextMap::new(),
        },
        questions: vec![DecisionQuestion {
            id: "reasoning_need".into(),
            kind: DecisionQuestionKind::Choice {
                options: vec!["direct".into(), "multi_step".into()],
            },
        }],
    }
}

fn assessment(probabilities: &[(&str, f64)]) -> DecisionAssessment {
    let mut map = TextMap::new();
    let mut sorted = probabilities.to_vec();
    sorted.sort_by(|a, b| a.0.cmp(b.0));
    for (name, value) in probabilities {
        map.insert((*name).to_owned(), float(*value));
    }
    DecisionAssessment {
        question_set_version: "demand-v1".into(),
        adapter_id: "fake-v1".into(),
        actual_model: "fake-model-v1".into(),
        signals: vec![DecisionSignal {
            question_id: "reasoning_need".into(),
            value: DecisionValue::Choice("multi_step".into()),
            probabilities: map,
            probability_total: float(sorted.iter().map(|p| p.1).sum()),
            confidence: Some(float(0.9)),
        }],
        actual_cost: None,
    }
}

fn rule(minimum: f64, class: ExecutionClass, clarify: bool) -> DecisionPolicyRule {
    DecisionPolicyRule {
        question_id: "reasoning_need".into(),
        outcome: "multi_step".into(),
        outcome_score: None,
        minimum_probability: float(minimum),
        threshold_text: format!("{minimum:.3}"),
        execution_class: class,
        needs_clarification: clarify,
    }
}

#[test]
fn fake_adapter_returns_only_a_validated_assessment() {
    let model = FakeDecisionModel::new(assessment(&[("direct", 0.2), ("multi_step", 0.8)]));
    let result = model.assess(&request()).unwrap();
    assert_eq!(result.signals[0].question_id, "reasoning_need");
    let model = FakeDecisionModel::new(assessment(&[("multi_step", 0.8)]));
    assert!(model.assess(&request()).is_err());
}

#[test]
fn probabilities_must_be_complete_and_bounded() {
    let error = assessment(&[("multi_step", 0.8)])
        .validate_for(&request())
        .unwrap_err();
    assert_eq!(error.kind, "decision");
}

#[test]
fn choice_value_must_be_declared_by_question() {
    let mut invalid = assessment(&[("direct", 0.2), ("multi_step", 0.8)]);
    invalid.signals[0].value = DecisionValue::Choice("unsupported".into());
    assert!(invalid.validate_for(&request()).is_err());
}

#[test]
fn probability_outcomes_must_match_the_declared_choice_domain() {
    let invalid = assessment(&[("direct", 0.1), ("multi_step", 0.8), ("unsupported", 0.1)]);
    assert!(invalid.validate_for(&request()).is_err());
}

#[test]
fn policy_maps_probability_to_the_highest_class_deterministically() {
    let assessment = assessment(&[("direct", 0.2), ("multi_step", 0.8)]);
    let policy = DecisionPolicy {
        version: "demand-policy-v1".into(),
        rules: vec![rule(0.75, ExecutionClass::Hard, false)],
    };
    let recommendation = policy.apply(&request(), &assessment).unwrap();
    assert_eq!(recommendation.execution_class, ExecutionClass::Hard);
    assert_eq!(
        recommendation.reasons,
        vec!["reasoning_need:multi_step>=0.750"]
    );
}

#[test]
fn policy_rejects_duplicate_rules_and_invalid_thresholds() {
    let policy = DecisionPolicy {
        version: "policy-v1".into(),
        rules: vec![rule(1.1, ExecutionClass::Medium, true)],
    };
    assert!(policy.validate().is_err());
    let policy = DecisionPolicy {
        version: "policy-v1".into(),
        rules: vec![
            rule(0.5, ExecutionClass::Medium, true),
            rule(0.5, ExecutionClass::Medium, true),
        ],
    };
    assert!(policy.validate().is_err());
}

#[test]
fn rules_below_their_threshold_recommend_nothing() {
    let policy = DecisionPolicy {
        version: "demand-policy-v1".into(),
        rules: vec![rule(0.9, ExecutionClass::Hard, true)],
    };
    let given = assessment(&[("direct", 0.2), ("multi_step", 0.8)]);
    let recommendation = policy.apply(&request(), &given).unwrap();
    assert_eq!(recommendation.execution_class, ExecutionClass::Simple);
    assert!(!recommendation.needs_clarification);
    assert!(recommendation.reasons.is_empty());
}

#[test]
fn every_question_needs_one_answer() {
    let mut twice = assessment(&[("direct", 0.2), ("multi_step", 0.8)]);
    let again = twice.signals[0].clone();
    twice.signals.push(again);
    assert!(twice.validate_for(&request()).is_err());
    let mut none = assessment(&[("direct", 0.2), ("multi_step", 0.8)]);
    none.signals.clear();
    assert!(none.validate_for(&request()).is_err());
}

#[test]
fn configured_questions_and_policy_have_to_fit() {
    let config = |rules: Vec<DecisionPolicyRule>| DecisionConfig {
        question_set_version: "demand-v1".into(),
        questions: request().questions,
        policy: DecisionPolicy {
            version: "policy-v1".into(),
            rules,
        },
        max_cost: 10,
    };
    assert!(config(vec![rule(0.5, ExecutionClass::Hard, false)])
        .validate()
        .is_ok());
    let mut other = rule(0.5, ExecutionClass::Hard, false);
    other.question_id = "unknown".into();
    assert!(config(vec![other]).validate().is_err());
}
