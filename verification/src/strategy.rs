//! Strategy is deliberately independent of provider identities and transport.
use crate::contracts::task::{
    Acceptance, AcceptanceModel, Evaluation, EvaluationModel, EvaluationStatus, Strategy, TaskSpec,
};
use crate::identity::{id, identity_shape};
use crate::json::{is_object, parse, parsed_json, JsonModel};
use crate::model::Duplicate;
use crate::text::{blank, contains_text, has_part, is_blank, join};
use vstd::prelude::*;

verus! {

/// The nodes that a strategy goes through.
#[derive(Debug)]
pub struct Plan {
    pub plan_id: String,
    pub version: u32,
    pub strategy: Strategy,
    pub nodes: Vec<String>,
    pub max_rounds: u32,
}

/// What a `Plan` holds.
#[verifier::ext_equal]
pub ghost struct PlanModel {
    pub plan_id: Seq<char>,
    pub version: u32,
    pub strategy: Strategy,
    pub nodes: Seq<Seq<char>>,
    pub max_rounds: u32,
}

impl DeepView for Plan {
    type V = PlanModel;

    open spec fn deep_view(&self) -> PlanModel {
        PlanModel {
            plan_id: self.plan_id.deep_view(),
            version: self.version.deep_view(),
            strategy: self.strategy.deep_view(),
            nodes: self.nodes.deep_view(),
            max_rounds: self.max_rounds.deep_view(),
        }
    }
}

impl Duplicate for Plan {
    fn duplicate(&self) -> (r: Self) {
        Plan {
            plan_id: self.plan_id.duplicate(),
            version: self.version.duplicate(),
            strategy: self.strategy.duplicate(),
            nodes: self.nodes.duplicate(),
            max_rounds: self.max_rounds.duplicate(),
        }
    }
}

impl Clone for Plan {
    fn clone(&self) -> (r: Self)
        ensures
            r.deep_view() == self.deep_view(),
    {
        self.duplicate()
    }
}

/// The nodes of a strategy, in order.
pub open spec fn nodes_of(strategy: Strategy) -> Seq<Seq<char>> {
    match strategy {
        Strategy::Single => seq!["invoke"@, "evaluate"@, "finish"@],
        Strategy::Cascade => seq!["invoke"@, "evaluate"@, "bounded_upgrade"@, "finish"@],
        Strategy::GeneratorCritic => seq![
            "generator"@,
            "evaluate"@,
            "critic"@,
            "bounded_revision"@,
            "final_evaluate"@,
            "finish"@,
        ],
    }
}

/// The plan of a task.
pub fn compile(task: &TaskSpec) -> (r: Plan)
    ensures
        identity_shape(r.plan_id@),
        r.deep_view() == (PlanModel {
            plan_id: r.plan_id@,
            version: 1,
            strategy: task.strategy,
            nodes: nodes_of(task.strategy),
            max_rounds: task.max_rounds,
        }),
{
    let nodes: Vec<String> = match task.strategy {
        Strategy::Single => vec![
            "invoke".to_owned(),
            "evaluate".to_owned(),
            "finish".to_owned(),
        ],
        Strategy::Cascade => vec![
            "invoke".to_owned(),
            "evaluate".to_owned(),
            "bounded_upgrade".to_owned(),
            "finish".to_owned(),
        ],
        Strategy::GeneratorCritic => vec![
            "generator".to_owned(),
            "evaluate".to_owned(),
            "critic".to_owned(),
            "bounded_revision".to_owned(),
            "final_evaluate".to_owned(),
            "finish".to_owned(),
        ],
    };
    assert(nodes.deep_view() =~= nodes_of(task.strategy));
    Plan { plan_id: id(), version: 1, strategy: task.strategy, nodes, max_rounds: task.max_rounds }
}

/// The first `n` required texts that are missing, each as a defect.
pub open spec fn missing_texts(text: Seq<char>, required: Seq<Seq<char>>, n: nat) -> Seq<Seq<char>>
    decreases n,
{
    if n == 0 {
        Seq::empty()
    } else {
        let before = missing_texts(text, required, (n - 1) as nat);
        if has_part(text, required[n - 1]) {
            before
        } else {
            before.push("missing required text: "@ + required[n - 1])
        }
    }
}

/// What a text lacks of an acceptance, given whether it is a JSON object.
pub open spec fn defects_of(
    text: Seq<char>,
    acceptance: AcceptanceModel,
    json_object: bool,
) -> Seq<Seq<char>> {
    (if acceptance.nonempty && blank(text) {
        seq!["empty output"@]
    } else {
        Seq::empty()
    }) + missing_texts(
        text,
        acceptance.required_substrings,
        acceptance.required_substrings.len(),
    ) + (if acceptance.json_object && !json_object {
        seq!["output is not a JSON object"@]
    } else {
        Seq::empty()
    })
}

/// The verdict on a text, given whether it is a JSON object.
pub open spec fn verdict_of(
    text: Seq<char>,
    acceptance: AcceptanceModel,
    json_object: bool,
) -> EvaluationModel {
    let defects = defects_of(text, acceptance, json_object);
    EvaluationModel {
        status: if defects.len() == 0 {
            EvaluationStatus::Pass
        } else {
            EvaluationStatus::Revise
        },
        checks: seq!["deterministic acceptance checks"@],
        evidence: Seq::empty(),
        defects,
        action: if defects.len() == 0 {
            "accept"@
        } else {
            "revise"@
        },
    }
}

/// The text reads as a JSON object.
pub open spec fn reads_as_object(text: Seq<char>) -> bool {
    parsed_json(text) is Some && parsed_json(text)->0 is Object
}

/// Checks a text deterministically.
pub fn evaluate(text: &str, acceptance: &Acceptance) -> (r: Evaluation)
    ensures
        r.deep_view() == verdict_of(text@, acceptance.deep_view(), reads_as_object(text@)),
{
    let json_object: bool = match parse(text) {
        Some(value) => is_object(Some(&value)),
        None => false,
    };
    evaluate_as(text, acceptance, json_object)
}

/// Checks a text of which it is known whether it is a JSON object.
pub fn evaluate_as(text: &str, acceptance: &Acceptance, json_object: bool) -> (r: Evaluation)
    ensures
        r.deep_view() == verdict_of(text@, acceptance.deep_view(), json_object),
{
    let ghost required = acceptance.required_substrings.deep_view();
    let mut defects: Vec<String> = Vec::new();
    assert(defects.deep_view() =~= Seq::empty());
    if acceptance.nonempty && is_blank(text) {
        defects.push("empty output".to_owned());
        assert(defects.deep_view() =~= seq!["empty output"@]);
    }
    let ghost first = defects.deep_view();
    let mut i: usize = 0;
    assert(defects.deep_view() =~= first + missing_texts(text@, required, 0));
    while i < acceptance.required_substrings.len()
        invariant
            i <= acceptance.required_substrings@.len(),
            required == acceptance.required_substrings.deep_view(),
            defects.deep_view() == first + missing_texts(text@, required, i as nat),
        decreases acceptance.required_substrings@.len() - i,
    {
        let part: &str = acceptance.required_substrings[i].as_str();
        assert(required[i as int] == part@);
        let ghost before = defects.deep_view();
        if !contains_text(text, part) {
            defects.push(join("missing required text: ", part));
            assert(defects.deep_view() =~= before.push("missing required text: "@ + part@));
        }
        assert(defects.deep_view() =~= first + missing_texts(text@, required, (i + 1) as nat));
        i += 1;
    }
    let ghost two = defects.deep_view();
    if acceptance.json_object && !json_object {
        defects.push("output is not a JSON object".to_owned());
        assert(defects.deep_view() =~= two.push("output is not a JSON object"@));
    }
    assert(defects.deep_view() =~= defects_of(text@, acceptance.deep_view(), json_object));
    let clean: bool = defects.len() == 0;
    let r = Evaluation {
        status: if clean {
            EvaluationStatus::Pass
        } else {
            EvaluationStatus::Revise
        },
        checks: vec!["deterministic acceptance checks".to_owned()],
        evidence: Vec::new(),
        defects,
        action: if clean {
            "accept".to_owned()
        } else {
            "revise".to_owned()
        },
    };
    assert(r.deep_view().checks =~= seq!["deterministic acceptance checks"@]);
    assert(r.deep_view().evidence =~= Seq::empty());
    r
}

/// A text passes exactly when it meets every check of the acceptance.
pub proof fn lemma_pass_means_accepted(
    text: Seq<char>,
    acceptance: AcceptanceModel,
    json_object: bool,
)
    ensures
        verdict_of(text, acceptance, json_object).status == EvaluationStatus::Pass <==> {
            &&& acceptance.nonempty ==> !blank(text)
            &&& forall|i: int|
                0 <= i < acceptance.required_substrings.len() ==> has_part(
                    text,
                    #[trigger] acceptance.required_substrings[i],
                )
            &&& acceptance.json_object ==> json_object
        },
{
    lemma_missing_texts(
        text,
        acceptance.required_substrings,
        acceptance.required_substrings.len(),
    );
}

proof fn lemma_missing_texts(text: Seq<char>, required: Seq<Seq<char>>, n: nat)
    requires
        n <= required.len(),
    ensures
        missing_texts(text, required, n).len() == 0 <==> forall|i: int|
            0 <= i < n ==> has_part(text, #[trigger] required[i]),
    decreases n,
{
    if n > 0 {
        lemma_missing_texts(text, required, (n - 1) as nat);
    }
}

proof fn lemma_missing_text_is_told(text: Seq<char>, required: Seq<Seq<char>>, n: nat, d: Seq<char>)
    requires
        n <= required.len(),
    ensures
        missing_texts(text, required, n).contains(d) <==> exists|i: int|
            0 <= i < n && !has_part(text, #[trigger] required[i]) && d
                == "missing required text: "@ + required[i],
    decreases n,
{
    if n > 0 {
        let before = missing_texts(text, required, (n - 1) as nat);
        let now = missing_texts(text, required, n);
        lemma_missing_text_is_told(text, required, (n - 1) as nat, d);
        if before.contains(d) {
            let k = before.index_of(d);
            assert(now[k] == d);
        }
        if !has_part(text, required[n - 1]) {
            assert(now.last() == "missing required text: "@ + required[n - 1]);
            if now.contains(d) && !before.contains(d) {
                let k = now.index_of(d);
                if k < before.len() {
                    assert(before[k] == d);
                }
            }
        }
    }
}

/// The deterministic verdict tells what is missing and nothing else: each required text that is not
/// there by its name, an empty output where one is not accepted, and a text that is no JSON object
/// where one is asked for. It passes a text with nothing to tell, and asks else for a revision.
pub proof fn lemma_verdict_tells_what_is_missing(
    text: Seq<char>,
    acceptance: AcceptanceModel,
    json_object: bool,
    d: Seq<char>,
)
    ensures
        ({
            let v = verdict_of(text, acceptance, json_object);
            &&& v.defects.contains(d) <==> {
                ||| d == "empty output"@ && acceptance.nonempty && blank(text)
                ||| d == "output is not a JSON object"@ && acceptance.json_object && !json_object
                ||| exists|i: int|
                    0 <= i < acceptance.required_substrings.len() && !has_part(
                        text,
                        #[trigger] acceptance.required_substrings[i],
                    ) && d == "missing required text: "@ + acceptance.required_substrings[i]
            }
            &&& v.status == EvaluationStatus::Pass <==> v.defects.len() == 0
            &&& v.status == EvaluationStatus::Pass || v.status == EvaluationStatus::Revise
        }),
{
    let required = acceptance.required_substrings;
    let v = verdict_of(text, acceptance, json_object);
    lemma_missing_text_is_told(text, required, required.len(), d);
    let a = if acceptance.nonempty && blank(text) {
        seq!["empty output"@]
    } else {
        Seq::empty()
    };
    let b = missing_texts(text, required, required.len());
    let c = if acceptance.json_object && !json_object {
        seq!["output is not a JSON object"@]
    } else {
        Seq::empty()
    };
    assert(v.defects == a + b + c);
    if a.contains(d) {
        assert(v.defects[a.index_of(d)] == d);
    }
    if b.contains(d) {
        assert(v.defects[a.len() + b.index_of(d)] == d);
    }
    if c.contains(d) {
        assert(v.defects[a.len() + b.len() + c.index_of(d)] == d);
    }
    assert(acceptance.nonempty && blank(text) ==> a[0] == "empty output"@);
    assert(acceptance.json_object && !json_object ==> c[0] == "output is not a JSON object"@);
    if v.defects.contains(d) {
        let k = v.defects.index_of(d);
        if k < a.len() {
            assert(a[k] == d);
        } else if k < a.len() + b.len() {
            assert(b[k - a.len()] == d);
        } else {
            assert(c[k - a.len() - b.len()] == d);
        }
    }
}

/// The steps of each strategy, in order.
pub proof fn lemma_steps_of_a_strategy()
    ensures
        nodes_of(Strategy::Single) == seq!["invoke"@, "evaluate"@, "finish"@],
        nodes_of(Strategy::Cascade) == seq![
            "invoke"@,
            "evaluate"@,
            "bounded_upgrade"@,
            "finish"@,
        ],
        nodes_of(Strategy::GeneratorCritic) == seq![
            "generator"@,
            "evaluate"@,
            "critic"@,
            "bounded_revision"@,
            "final_evaluate"@,
            "finish"@,
        ],
{
}

/// A verdict says what to do: to accept what passes, and to revise what has defects. A text reads
/// as an object exactly where it is the JSON of one.
pub proof fn lemma_what_a_verdict_asks_for(
    text: Seq<char>,
    acceptance: AcceptanceModel,
    json_object: bool,
)
    ensures
        ({
            let v = verdict_of(text, acceptance, json_object);
            &&& v.defects.len() == 0 ==> v.action == "accept"@
            &&& v.defects.len() > 0 ==> v.action == "revise"@
            &&& v.evidence.len() == 0
            &&& reads_as_object(text) <==> match parsed_json(text) {
                Some(JsonModel::Object(_)) => true,
                _ => false,
            }
        }),
{
}

} // verus!
