use model_collaboration_engine::assessment::{
    evaluate_rules, matches_rule, merge_assessment, merge_assessment_with_decision,
    merge_assessment_with_evidence, AssessmentRule, ExecutionClass, RuleOperator, RuleSet,
    RuleStatus, TaskFactValue, TaskFacts,
};
use model_collaboration_engine::decision::{DecisionAssessment, DecisionRecommendation};
use model_collaboration_engine::text::{TextMap, TextSet};

fn facts(values: Vec<(&str, TaskFactValue)>) -> TaskFacts {
    let mut map = TextMap::new();
    for (name, value) in values {
        map.insert(name.to_owned(), value);
    }
    TaskFacts {
        version: "host-facts-v1".into(),
        values: map,
    }
}

fn set(items: &[&str]) -> TextSet {
    let mut out = TextSet::new();
    for item in items {
        out.insert((*item).to_owned());
    }
    out
}

fn rule(
    id: &str,
    fact: &str,
    op: RuleOperator,
    value: TaskFactValue,
    class: ExecutionClass,
) -> AssessmentRule {
    AssessmentRule {
        id: id.into(),
        fact: fact.into(),
        op,
        value,
        minimum_execution_class: class,
    }
}

fn rules(rules: Vec<AssessmentRule>) -> RuleSet {
    RuleSet {
        version: "coding-demand-v1".into(),
        rules,
    }
}

#[test]
fn missing_fact_is_not_a_negative_match() {
    let assessment = evaluate_rules(
        &facts(vec![]),
        &rules(vec![rule(
            "many-files",
            "file_count",
            RuleOperator::Gt,
            TaskFactValue::Integer(5),
            ExecutionClass::Hard,
        )]),
    )
    .unwrap();
    assert_eq!(assessment.results[0].status, RuleStatus::NotObserved);
}

#[test]
fn rules_take_the_highest_class_and_host_floor() {
    let assessment = evaluate_rules(
        &facts(vec![
            ("file_count", TaskFactValue::Integer(8)),
            (
                "change_kinds",
                TaskFactValue::StringSet(set(&["migration"])),
            ),
        ]),
        &rules(vec![
            rule(
                "many-files",
                "file_count",
                RuleOperator::Gt,
                TaskFactValue::Integer(5),
                ExecutionClass::Medium,
            ),
            rule(
                "migration",
                "change_kinds",
                RuleOperator::Contains,
                TaskFactValue::String("migration".into()),
                ExecutionClass::Hard,
            ),
        ]),
    )
    .unwrap();
    let merged = merge_assessment(ExecutionClass::Simple, &assessment, None);
    assert_eq!(merged.execution_class, ExecutionClass::Hard);
    assert_eq!(merged.matched_rule_ids, vec!["many-files", "migration"]);
}

#[test]
fn invalid_operator_types_are_rejected() {
    let result = evaluate_rules(
        &facts(vec![]),
        &rules(vec![rule(
            "bad",
            "file_count",
            RuleOperator::Gt,
            TaskFactValue::String("5".into()),
            ExecutionClass::Medium,
        )]),
    );
    assert_eq!(result.unwrap_err().kind, "configuration");
}

#[test]
fn decision_recommendation_cannot_lower_hard_rule_floor() {
    let rules = evaluate_rules(
        &facts(vec![("file_count", TaskFactValue::Integer(8))]),
        &rules(vec![rule(
            "many-files",
            "file_count",
            RuleOperator::Gt,
            TaskFactValue::Integer(5),
            ExecutionClass::Hard,
        )]),
    )
    .unwrap();
    let recommendation = DecisionRecommendation {
        policy_version: "demand-policy-v1".into(),
        execution_class: ExecutionClass::Simple,
        needs_clarification: true,
        reasons: vec!["low-confidence".into()],
    };
    let evidence = DecisionAssessment {
        question_set_version: "demand-v1".into(),
        adapter_id: "fake-v1".into(),
        actual_model: "fake-model-v1".into(),
        signals: vec![],
        actual_cost: None,
    };
    let merged = merge_assessment_with_evidence(
        ExecutionClass::Simple,
        &rules,
        None,
        Some(&recommendation),
        Some(&evidence),
    );
    assert_eq!(merged.execution_class, ExecutionClass::Hard);
    assert_eq!(
        merged.decision_policy_version.as_deref(),
        Some("demand-policy-v1")
    );
    assert!(merged.needs_clarification);
    assert_eq!(merged.decision.as_ref().unwrap().adapter_id, "fake-v1");
}

#[test]
fn every_floor_raises_the_class_and_none_lowers_it() {
    let none = evaluate_rules(&facts(vec![]), &rules(vec![])).unwrap();
    for host in [
        ExecutionClass::Simple,
        ExecutionClass::Medium,
        ExecutionClass::Hard,
    ] {
        let merged = merge_assessment(host, &none, Some(ExecutionClass::Medium));
        let expected = if host == ExecutionClass::Hard {
            ExecutionClass::Hard
        } else {
            ExecutionClass::Medium
        };
        assert_eq!(merged.execution_class, expected);
        assert!(!merged.needs_clarification);
        assert!(merged.decision.is_none());
    }
    let recommendation = DecisionRecommendation {
        policy_version: "p".into(),
        execution_class: ExecutionClass::Hard,
        needs_clarification: false,
        reasons: vec![],
    };
    let merged =
        merge_assessment_with_decision(ExecutionClass::Simple, &none, None, Some(&recommendation));
    assert_eq!(merged.execution_class, ExecutionClass::Hard);
}

#[test]
fn operators_compare_as_they_say() {
    let given = facts(vec![
        ("count", TaskFactValue::Integer(5)),
        ("flag", TaskFactValue::Boolean(true)),
        ("kinds", TaskFactValue::StringSet(set(&["a", "b"]))),
        ("name", TaskFactValue::String("x".into())),
    ]);
    let checks = vec![
        ("count", RuleOperator::Gt, TaskFactValue::Integer(5), false),
        ("count", RuleOperator::Gte, TaskFactValue::Integer(5), true),
        ("count", RuleOperator::Eq, TaskFactValue::Integer(4), false),
        ("flag", RuleOperator::Eq, TaskFactValue::Boolean(true), true),
        (
            "name",
            RuleOperator::Eq,
            TaskFactValue::String("x".into()),
            true,
        ),
        (
            "kinds",
            RuleOperator::Contains,
            TaskFactValue::String("c".into()),
            false,
        ),
        (
            "kinds",
            RuleOperator::Contains,
            TaskFactValue::String("b".into()),
            true,
        ),
    ];
    for (fact, op, value, matched) in checks {
        let result = evaluate_rules(
            &given,
            &rules(vec![rule("r", fact, op, value, ExecutionClass::Medium)]),
        )
        .unwrap();
        assert_eq!(
            result.results[0].status,
            if matched {
                RuleStatus::Matched
            } else {
                RuleStatus::NotMatched
            }
        );
    }
}

#[test]
fn duplicate_rules_and_blank_versions_are_refused() {
    let twice = rules(vec![
        rule(
            "r",
            "count",
            RuleOperator::Gt,
            TaskFactValue::Integer(1),
            ExecutionClass::Medium,
        ),
        rule(
            "r",
            "count",
            RuleOperator::Gt,
            TaskFactValue::Integer(2),
            ExecutionClass::Medium,
        ),
    ]);
    assert!(twice.validate().is_err());
    let mut blank = facts(vec![]);
    blank.version = "".into();
    assert!(blank.validate().is_err());
    assert!(facts(vec![]).validate().is_ok());
}

#[test]
fn operators_compare_values_of_their_kind() {
    let int = TaskFactValue::Integer;
    let text = |s: &str| TaskFactValue::String(s.into());
    let mut set = TextSet::new();
    set.insert("rust".to_owned());
    let set = TaskFactValue::StringSet(set);
    for (a, b) in [(4, 5), (5, 5), (6, 5)] {
        let gte = matches_rule(&int(a), RuleOperator::Gte, &int(b));
        let gt = matches_rule(&int(a), RuleOperator::Gt, &int(b));
        let eq = matches_rule(&int(a), RuleOperator::Eq, &int(b));
        assert_eq!((gte, gt, eq), (a >= b, a > b, a == b));
        assert_eq!(gte, gt || eq);
    }
    assert!(!matches_rule(&text("6"), RuleOperator::Gte, &int(5)));
    assert!(!matches_rule(&int(6), RuleOperator::Gt, &text("5")));
    assert!(matches_rule(&set, RuleOperator::Contains, &text("rust")));
    assert!(!matches_rule(&set, RuleOperator::Contains, &text("go")));
    assert!(!matches_rule(&text("rust"), RuleOperator::Contains, &text("rust")));
    assert!(matches_rule(&set, RuleOperator::Eq, &set));
    assert!(!matches_rule(&int(1), RuleOperator::Eq, &TaskFactValue::Boolean(true)));
}
