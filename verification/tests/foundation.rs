use model_collaboration_engine::binary64::number;
use model_collaboration_engine::contracts::task::Acceptance;
use model_collaboration_engine::contracts::url::parse_url;
use model_collaboration_engine::contracts::{
    digest, id, now_ms, Constraints, EvaluationStatus, SelectionPolicy, Strategy, TaskSpec,
};
use model_collaboration_engine::cut::{
    char_size, clip, decode, rest_of, split, trim, trim_end, trim_slashes,
};
use model_collaboration_engine::fault::EngineError;
use model_collaboration_engine::identity::{millis, to_hex};
use model_collaboration_engine::json::{
    as_array, as_count, as_text, count_value, is_null, is_object, is_text, member, member_names,
    parse, text_value, Json, ObjectBuilder, MAX_DEPTH,
};
use model_collaboration_engine::router::cost_of;
use model_collaboration_engine::strategy::{compile, evaluate, evaluate_as};
use model_collaboration_engine::text::{
    contains_text, decimal_text, has_text, is_blank, same_text, starts_with_text, text_less,
    TextMap, TextSet,
};

#[test]
fn texts_are_compared_searched_and_ordered() {
    assert!(same_text("aé", "aé"));
    assert!(!same_text("a", "ab"));
    assert!(contains_text("hello", "ell"));
    assert!(contains_text("hello", ""));
    assert!(!contains_text("hello", "elo"));
    assert!(starts_with_text("data: x", "data:"));
    assert!(!starts_with_text("dat", "data:"));
    assert!(text_less("a", "b"));
    assert!(text_less("a", "ab"));
    assert!(text_less("Z", "a"));
    assert!(text_less("z", "é"));
    assert!(!text_less("a", "a"));
    assert!(is_blank(" \t\u{2003}\u{85}"));
    assert!(!is_blank(" x "));
    assert!(has_text(&vec!["a".into(), "b".into()], "b"));
    assert_eq!(decimal_text(0), "0");
    assert_eq!(decimal_text(1_048_576), "1048576");
}

#[test]
fn sets_and_maps_of_texts_are_sorted_and_hold_each_once() {
    let mut set = TextSet::new();
    assert!(set.insert("b".into()));
    assert!(set.insert("a".into()));
    assert!(!set.insert("b".into()));
    assert_eq!(set.len(), 2);
    assert_eq!(set.to_list(), vec!["a", "b"]);
    let mut more = set.clone();
    more.insert("c".into());
    assert!(set.is_subset(&more));
    assert!(!more.is_subset(&set));
    assert!(!more.same_members(&set));
    more.remove("c");
    more.remove("never");
    assert!(more.same_members(&set));
    let mut map = TextMap::new();
    assert_eq!(map.insert("k".to_owned(), 1u64), None);
    assert_eq!(map.insert("k".to_owned(), 2u64), Some(1));
    assert_eq!(map.get("k"), Some(&2));
    assert_eq!(map.get("x"), None);
    assert!(map.contains_key("k"));
    assert_eq!(map.len(), 1);
}

#[test]
fn texts_are_cut_on_character_boundaries() {
    assert_eq!(char_size('a'), 1);
    assert_eq!(char_size('é'), 2);
    assert_eq!(char_size('€'), 3);
    assert_eq!(char_size('😀'), 4);
    assert_eq!(clip("aé€", 2), "a");
    assert_eq!(clip("aé€", 3), "aé");
    assert_eq!(clip("aé€", 100), "aé€");
    assert_eq!(split("aé€b", 3), vec!["aé", "€", "b"]);
    assert_eq!(split("€€", 1), vec!["€", "€"]);
    assert!(split("", 4).is_empty());
    assert_eq!(split("hello world", 4).concat(), "hello world");
    assert_eq!(trim("\u{a0} x y \n"), "x y");
    assert_eq!(trim_end(" x \n"), " x");
    assert_eq!(trim_slashes("http://h//"), "http://h");
    assert_eq!(trim_slashes("///"), "");
    assert_eq!(rest_of(&vec!['a', 'b', 'c'], 1), "bc");
    assert_eq!(decode("é".as_bytes()).as_deref(), Some("é"));
    assert_eq!(decode(&[0xff]), None);
}

#[test]
fn json_is_read_and_written() {
    let value = parse(r#" {"b":[1,-2,0.5,null,true,"x"],"a":{"n":18446744073709551615}} "#).unwrap();
    assert_eq!(
        value.to_text(),
        r#"{"a":{"n":18446744073709551615},"b":[1,-2,0.5,null,true,"x"]}"#
    );
    let list = as_array(member(Some(&value), "b")).unwrap();
    assert_eq!(list.len(), 6);
    assert_eq!(as_count(Some(&list[0])), Some(1));
    assert_eq!(as_count(Some(&list[1])), None);
    assert_eq!(as_count(Some(&list[2])), None);
    assert!(is_null(Some(&list[3])));
    assert!(is_null(None));
    assert!(is_text(Some(&list[5]), "x"));
    assert_eq!(as_text(Some(&list[5])).map(String::as_str), Some("x"));
    assert!(is_object(member(Some(&value), "a")));
    assert!(member(member(Some(&value), "b"), "n").is_none());
    assert_eq!(member_names(Some(&value)), vec!["a", "b"]);
    assert!(parse("{").is_none());
    assert!(parse("").is_none());
    assert!(parse("1 2").is_none());
    let last = parse(r#"{"k":1,"k":2}"#).unwrap();
    assert_eq!(as_count(member(Some(&last), "k")), Some(2));
    let built = ObjectBuilder::new().with("k", count_value(1)).with("k", text_value("é\n")).build();
    assert_eq!(built.to_text(), "{\"k\":\"é\\n\"}");
    assert_eq!(Json::Null.to_text(), "null");
}

#[test]
fn what_was_written_as_json_is_read_again() {
    let mut state = 42_u64;
    for _ in 0..256 {
        state = state.wrapping_mul(6364136223846793005).wrapping_add(1);
        let number = state as f64 / u64::MAX as f64 * 1e3;
        let value = parse(&format!("[{number},-0.0,5.0,1e300,-7,\"\\u0000é\"]")).unwrap();
        let text = value.to_text();
        assert_eq!(parse(&text).unwrap().to_text(), text);
        assert_eq!(text.split(',').next().unwrap()[1..].parse::<f64>(), Ok(number));
    }
    let nested = |depth: usize| {
        let mut value = Json::Null;
        for _ in 0..depth {
            value = Json::Array(vec![value]);
        }
        value.to_text()
    };
    let most = usize::from(MAX_DEPTH);
    assert_eq!(parse(&nested(most)).unwrap().to_text(), nested(most));
    assert!(parse(&nested(most + 1)).is_none());
}

#[test]
fn digests_are_sha256_in_hexadecimal() {
    assert_eq!(
        digest(b"abc"),
        "ba7816bf8f01cfea414140de5dae2223b00361a396177a9cb410ff61f20015ad"
    );
    assert_eq!(
        digest(b""),
        "e3b0c44298fc1c149afbf4c8996fb92427ae41e4649b934ca495991b7852b855"
    );
    assert_eq!(to_hex(&vec![0, 15, 255]), "000fff");
}

#[test]
fn identities_are_random_and_the_clock_runs() {
    let (a, b) = (id(), id());
    assert_ne!(a, b);
    assert_eq!(a.len(), 36);
    assert_eq!(a.as_bytes()[14], b'4');
    assert!(b"89ab".contains(&a.as_bytes()[19]));
    assert_eq!(millis(Some((2, 3_999_999))), 2003);
    assert_eq!(millis(None), 0);
    assert!(now_ms() > 1_600_000_000_000);
}

#[test]
fn urls_are_taken_apart() {
    let plain = parse_url("https://relay.example/v1").unwrap();
    assert!(plain.web && plain.host);
    assert!(!plain.credentials && !plain.query && !plain.fragment);
    assert!(!parse_url("ftp://relay.example").unwrap().web);
    assert!(parse_url("https://user@relay.example").unwrap().credentials);
    assert!(parse_url("https://relay.example/?k").unwrap().query);
    assert!(parse_url("https://relay.example/#f").unwrap().fragment);
    assert!(parse_url("relay").is_none());
    assert!(!parse_url("mailto:x").unwrap().host);
}

#[test]
fn binary64_numbers_compare_as_floats_do() {
    let values = [
        0.0,
        -0.0,
        1.0,
        -1.0,
        0.5,
        f64::MIN_POSITIVE / 4.0,
        f64::INFINITY,
        f64::NEG_INFINITY,
        f64::NAN,
    ];
    for a in values {
        let x = number(a.to_bits());
        assert_eq!(x.is_nan(), a.is_nan());
        assert_eq!(x.is_finite(), a.is_finite());
        assert_eq!(x.is_unit(), (0.0..=1.0).contains(&a));
        for b in values {
            let y = number(b.to_bits());
            assert_eq!(x.lt(y), a < b);
            assert_eq!(x.le(y), a <= b);
            assert_eq!(x.total_lt(y), a.total_cmp(&b).is_lt());
        }
    }
}

#[test]
fn token_costs_saturate() {
    assert_eq!(cost_of(10, 1, 5, 2), 20);
    assert_eq!(cost_of(u64::MAX, 2, 1, 1), u64::MAX);
    assert_eq!(cost_of(u64::MAX, 1, 1, 1), u64::MAX);
    assert_eq!(cost_of(0, u64::MAX, 0, u64::MAX), 0);
}

#[test]
fn errors_carry_their_task_and_details() {
    let error = EngineError::new("budget", "spent").task("t").details(count_value(3));
    assert_eq!(error.task_id.as_deref(), Some("t"));
    assert_eq!(error.details.to_text(), "3");
    assert_eq!(error.to_text(), "budget: spent");
}

fn acceptance() -> Acceptance {
    Acceptance {
        version: "1".into(),
        nonempty: true,
        required_substrings: vec!["needed".into()],
        json_object: true,
    }
}

#[test]
fn deterministic_checks_name_each_defect() {
    let good = evaluate(r#"{"k":"needed"}"#, &acceptance());
    assert_eq!(good.status, EvaluationStatus::Pass);
    assert!(good.defects.is_empty());
    let bad = evaluate("  ", &acceptance());
    assert_eq!(bad.status, EvaluationStatus::Revise);
    assert_eq!(bad.defects.len(), 3);
    assert_eq!(bad.defects[0], "empty output");
    let listed = evaluate(r#"["needed"]"#, &acceptance());
    assert_eq!(listed.defects.len(), 1);
    let claimed = evaluate_as("needed", &acceptance(), true);
    assert_eq!(claimed.status, EvaluationStatus::Pass);
}

fn half() -> model_collaboration_engine::binary64::Binary64 {
    number(0.5f64.to_bits())
}

#[test]
fn strategies_compile_to_their_nodes() {
    let mut task = TaskSpec {
        task_id: "t".into(),
        goal: "g".into(),
        evidence: vec![],
        strategy: Strategy::Single,
        acceptance: acceptance(),
        selection: SelectionPolicy {
            version: "v".into(),
            min_quality: half(),
            target_quality: half(),
            above_target_factor: half(),
            cost_reference: 1,
            latency_reference_ms: 1,
            min_upgrade_gain: half(),
        },
        constraints: Constraints {
            allowed_models: TextSet::new(),
            allowed_providers: TextSet::new(),
            allowed_regions: TextSet::new(),
            local_only: false,
            required_capabilities: TextSet::new(),
            preferred_capabilities: TextSet::new(),
            different_critic: false,
        },
        budget: 1,
        deadline_ms: 1,
        output_tokens: 1,
        max_calls: 1,
        max_rounds: 4,
        max_attempts: 1,
        max_call_cost: 1,
        finalization_ms: 1,
        tools: vec![],
    };
    let plan = compile(&task);
    assert_eq!(plan.version, 1);
    assert_eq!(plan.max_rounds, 4);
    assert_eq!(plan.nodes, vec!["invoke", "evaluate", "finish"]);
    task.strategy = Strategy::GeneratorCritic;
    let nodes = compile(&task).nodes;
    assert!(nodes.contains(&"critic".to_owned()));
    task.strategy = Strategy::Cascade;
    assert_ne!(compile(&task).nodes, nodes);
}
