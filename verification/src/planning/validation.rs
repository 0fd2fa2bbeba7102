//! Plans may strengthen what the host asked for, and change none of its choices.
use crate::contracts::configuration::{all_known, all_known_capabilities};
use crate::contracts::planning::{
    EffectivePlan, EffectivePlanModel, PlanChoice, PlanChoiceModel, PlannerProposal,
    PlannerProposalModel, RoleProfile, RoleProfileModel, SubmissionSpec, SubmissionSpecModel,
    TaskType,
};
use crate::contracts::task::{
    Acceptance, AcceptanceModel, Constraints, ConstraintsModel, Strategy,
};
use crate::fault::{answers, failure, EngineError, EngineErrorModel};
use crate::identity::{digest, hex, sha256};
use crate::model::Duplicate;
use crate::text::{byte_count, byte_len, has_text, same_text, texts, TextMap};
use vstd::prelude::*;

verus! {

impl PlannerProposalModel {
    /// Version, confidence, reason and capabilities are in order.
    pub open spec fn formed(self) -> bool {
        &&& self.proposal_version == 1
        &&& self.classification_confidence.in_unit()
        &&& byte_len(self.reason) <= 4096
        &&& all_known(self.required_capabilities)
    }
}

/// Texts with those of the first `n` others that they lack.
pub open spec fn with_missing(base: Seq<Seq<char>>, others: Seq<Seq<char>>, n: nat) -> Seq<
    Seq<char>,
>
    decreases n,
{
    if n == 0 {
        base
    } else {
        let before = with_missing(base, others, (n - 1) as nat);
        if before.contains(others[n - 1]) {
            before
        } else {
            before.push(others[n - 1])
        }
    }
}

/// An acceptance with the checks of a suggestion added.
pub open spec fn strengthened(host: AcceptanceModel, suggested: AcceptanceModel) -> AcceptanceModel {
    AcceptanceModel {
        version: host.version,
        nonempty: host.nonempty || suggested.nonempty,
        required_substrings: with_missing(
            host.required_substrings,
            suggested.required_substrings,
            suggested.required_substrings.len(),
        ),
        json_object: host.json_object || suggested.json_object,
    }
}

/// What a plan is made from.
#[verifier::ext_equal]
pub ghost struct PlanInputs {
    pub submission: SubmissionSpecModel,
    pub proposal: Option<(Seq<char>, PlannerProposalModel)>,
    pub fallback: Option<PlanChoiceModel>,
    pub submission_hash: Seq<char>,
}

impl PlanInputs {
    /// The acceptance of the plan.
    pub open spec fn acceptance(self) -> AcceptanceModel {
        match self.proposal {
            Some((_, p)) => strengthened(self.submission.acceptance, p.suggested_acceptance),
            None => self.submission.acceptance,
        }
    }

    /// The constraints of the plan.
    pub open spec fn constraints(self) -> ConstraintsModel {
        match self.proposal {
            Some((_, p)) => ConstraintsModel {
                required_capabilities: self.submission.constraints.required_capabilities.union(
                    p.required_capabilities,
                ),
                ..self.submission.constraints
            },
            None => self.submission.constraints,
        }
    }

    /// The choice of the proposal, else of the fallback, else of the host.
    pub open spec fn choice(self) -> PlanChoiceModel {
        match self.proposal {
            Some((_, p)) => PlanChoiceModel { task_type: p.task_type, strategy: p.strategy },
            None => match self.fallback {
                Some(choice) => choice,
                None => PlanChoiceModel {
                    task_type: match self.submission.task_type {
                        Some(t) => t,
                        None => TaskType::General,
                    },
                    strategy: self.submission.strategy->0,
                },
            },
        }
    }

    /// A plan conflicts with what the host chose.
    pub open spec fn conflicting(self) -> bool {
        ||| self.submission.task_type is Some && self.submission.task_type->0
            != self.choice().task_type
        ||| self.submission.strategy is Some && self.submission.strategy->0
            != self.choice().strategy
    }

    pub open spec fn fault(self) -> Option<EngineErrorModel> {
        if self.proposal is Some && !(self.proposal->0).1.formed() {
            Some(
                failure(
                    "plan_validation"@,
                    "invalid proposal version, confidence, reason or capabilities"@,
                ),
            )
        } else if self.proposal is Some && (self.proposal->0).1.suggested_acceptance.version
            != self.submission.acceptance.version {
            Some(
                failure(
                    "plan_validation"@,
                    "planner cannot change the host acceptance version"@,
                ),
            )
        } else if self.proposal is None && self.fallback is None && self.submission.strategy
            is None {
            Some(
                failure("plan_validation"@, "explicit strategy required without a proposal"@),
            )
        } else if self.conflicting() {
            Some(
                failure(
                    "plan_validation"@,
                    "plan conflicts with explicit host task type or strategy"@,
                ),
            )
        } else if self.constraints().required_capabilities.contains("tools"@)
            && self.submission.tools.len() == 0 {
            Some(
                failure("plan_validation"@, "tools capability requires host-declared tools"@),
            )
        } else {
            None
        }
    }

    /// The plan.
    pub open spec fn plan(self) -> EffectivePlanModel {
        let choice = self.choice();
        EffectivePlanModel {
            plan_version: 1,
            task_type: choice.task_type,
            strategy: choice.strategy,
            role_profiles: roles_of(choice),
            constraints: self.constraints(),
            acceptance: self.acceptance(),
            selection: self.submission.selection,
            submission_hash: self.submission_hash,
            proposal_id: match self.proposal {
                Some((id, _)) => Some(id),
                None => None,
            },
            validator_version: "1"@,
            routing_profile_version: "legacy-global-v1"@,
            assessment: None,
        }
    }
}

/// The roles of a choice. Generated code is reviewed as code review.
pub open spec fn roles_of(choice: PlanChoiceModel) -> Map<Seq<char>, RoleProfileModel> {
    if choice.strategy == Strategy::GeneratorCritic {
        map![
            "generator"@ => RoleProfileModel {
                task_type: choice.task_type,
                role: "generator"@,
            },
            "critic"@ => RoleProfileModel {
                task_type: if choice.task_type == TaskType::CodeGeneration {
                    TaskType::CodeReview
                } else {
                    choice.task_type
                },
                role: "critic"@,
            },
        ]
    } else {
        map![
            "invoke"@ => RoleProfileModel { task_type: choice.task_type, role: "invoke"@ },
        ]
    }
}

fn add_missing(base: &mut Vec<String>, others: &Vec<String>)
    ensures
        final(base).deep_view() == with_missing(
            old(base).deep_view(),
            others.deep_view(),
            others@.len(),
        ),
{
    let ghost start = base.deep_view();
    let ghost all = others.deep_view();
    let mut i: usize = 0;
    while i < others.len()
        invariant
            i <= others@.len(),
            all == others.deep_view(),
            base.deep_view() == with_missing(start, all, i as nat),
        decreases others@.len() - i,
    {
        assert(all[i as int] == others@[i as int]@);
        assert(texts(base@) =~= base.deep_view());
        let ghost before = base.deep_view();
        if !has_text(base, others[i].as_str()) {
            base.push(others[i].clone());
            assert(base.deep_view() =~= before.push(all[i as int]));
        }
        i += 1;
    }
}

fn strengthen(host: &Acceptance, suggested: &Acceptance) -> (r: Acceptance)
    ensures
        r.deep_view() == strengthened(host.deep_view(), suggested.deep_view()),
{
    let mut required_substrings: Vec<String> = host.required_substrings.duplicate();
    add_missing(&mut required_substrings, &suggested.required_substrings);
    Acceptance {
        version: host.version.clone(),
        nonempty: host.nonempty || suggested.nonempty,
        required_substrings,
        json_object: host.json_object || suggested.json_object,
    }
}

fn role_profiles(task_type: TaskType, strategy: Strategy) -> (r: TextMap<RoleProfile>)
    ensures
        r.deep_view() == roles_of(PlanChoiceModel { task_type, strategy }),
{
    let ghost want = roles_of(PlanChoiceModel { task_type, strategy });
    let mut roles: TextMap<RoleProfile> = TextMap::new();
    if strategy == Strategy::GeneratorCritic {
        roles.insert(
            "generator".to_owned(),
            RoleProfile { task_type, role: "generator".to_owned() },
        );
        proof {
            reveal_strlit("generator");
            reveal_strlit("critic");
            assert("generator"@.len() != "critic"@.len());
        }
        roles.insert(
            "critic".to_owned(),
            RoleProfile {
                task_type: if task_type == TaskType::CodeGeneration {
                    TaskType::CodeReview
                } else {
                    task_type
                },
                role: "critic".to_owned(),
            },
        );
    } else {
        roles.insert("invoke".to_owned(), RoleProfile { task_type, role: "invoke".to_owned() });
    }
    assert(roles.deep_view() =~= want);
    roles
}

/// Makes the plan of a submission from a proposal with its name, from a fallback, or from the
/// host's own choices. `encoded` is the serialized submission.
pub fn validate_plan(
    submission: &SubmissionSpec,
    proposal: Option<(&str, &PlannerProposal)>,
    fallback: Option<&PlanChoice>,
    encoded: &[u8],
) -> (r: Result<EffectivePlan, EngineError>)
    ensures
        ({
            let inputs = PlanInputs {
                submission: submission.deep_view(),
                proposal: match proposal {
                    Some((id, p)) => Some((id@, p.deep_view())),
                    None => None,
                },
                fallback: fallback.deep_view(),
                submission_hash: hex(sha256(encoded@)),
            };
            &&& answers(r, inputs.fault())
            &&& r is Ok ==> r->Ok_0.deep_view() == inputs.plan()
        }),
{
    let mut acceptance: Acceptance = submission.acceptance.duplicate();
    let mut constraints: Constraints = submission.constraints.duplicate();
    let mut proposal_id: Option<String> = None;
    let task_type: TaskType;
    let strategy: Strategy;
    match proposal {
        Some((name, p)) => {
            if p.proposal_version != 1 || !p.classification_confidence.is_unit() || byte_count(
                p.reason.as_str(),
            ) > 4096 || !all_known_capabilities(&p.required_capabilities) {
                return Err(
                    EngineError::new(
                        "plan_validation",
                        "invalid proposal version, confidence, reason or capabilities",
                    ),
                );
            }
            if !same_text(
                p.suggested_acceptance.version.as_str(),
                submission.acceptance.version.as_str(),
            ) {
                return Err(
                    EngineError::new(
                        "plan_validation",
                        "planner cannot change the host acceptance version",
                    ),
                );
            }
            acceptance = strengthen(&submission.acceptance, &p.suggested_acceptance);
            constraints.required_capabilities.extend(&p.required_capabilities);
            proposal_id = Some(name.to_owned());
            task_type = p.task_type;
            strategy = p.strategy;
        },
        None => match fallback {
            Some(choice) => {
                task_type = choice.task_type;
                strategy = choice.strategy;
            },
            None => {
                task_type = match submission.task_type {
                    Some(t) => t,
                    None => TaskType::General,
                };
                strategy = match submission.strategy {
                    Some(s) => s,
                    None => {
                        return Err(
                            EngineError::new(
                                "plan_validation",
                                "explicit strategy required without a proposal",
                            ),
                        );
                    },
                };
            },
        },
    }
    let other_type: bool = match submission.task_type {
        Some(t) => t != task_type,
        None => false,
    };
    let other_strategy: bool = match submission.strategy {
        Some(s) => s != strategy,
        None => false,
    };
    if other_type || other_strategy {
        return Err(
            EngineError::new(
                "plan_validation",
                "plan conflicts with explicit host task type or strategy",
            ),
        );
    }
    if constraints.required_capabilities.contains("tools") && submission.tools.len() == 0 {
        return Err(
            EngineError::new("plan_validation", "tools capability requires host-declared tools"),
        );
    }
    Ok(
        EffectivePlan {
            plan_version: 1,
            task_type,
            strategy,
            role_profiles: role_profiles(task_type, strategy),
            constraints,
            acceptance,
            selection: submission.selection.duplicate(),
            submission_hash: digest(encoded),
            proposal_id,
            validator_version: "1".to_owned(),
            routing_profile_version: "legacy-global-v1".to_owned(),
            assessment: None,
        },
    )
}

proof fn lemma_with_missing(base: Seq<Seq<char>>, others: Seq<Seq<char>>, n: nat)
    requires
        n <= others.len(),
    ensures
        forall|t: Seq<char>| #[trigger]
            with_missing(base, others, n).contains(t) <==> base.contains(t) || exists|i: int|
                0 <= i < n && #[trigger] others[i] == t,
    decreases n,
{
    if n > 0 {
        lemma_with_missing(base, others, (n - 1) as nat);
        let before = with_missing(base, others, (n - 1) as nat);
        let now = with_missing(base, others, n);
        assert forall|t: Seq<char>| #[trigger]
            now.contains(t) <==> base.contains(t) || exists|i: int|
                0 <= i < n && #[trigger] others[i] == t by {
            if now.contains(t) && !before.contains(t) {
                let k = choose|k: int| 0 <= k < now.len() && now[k] == t;
                if k < before.len() {
                    assert(before[k] == t);
                }
                assert(others[n - 1] == t);
            }
            if before.contains(t) {
                let k = choose|k: int| 0 <= k < before.len() && before[k] == t;
                assert(now[k] == t);
            }
            if t == others[n - 1] && !before.contains(t) {
                assert(now[before.len() as int] == t);
            }
        }
    }
}

/// A plan keeps every choice of the host: its type, strategy and acceptance version, every check,
/// every required capability and every other constraint. It can only add checks and required
/// capabilities.
pub proof fn lemma_plan_only_strengthens(inputs: PlanInputs)
    requires
        inputs.fault() is None,
    ensures
        ({
            let plan = inputs.plan();
            let host = inputs.submission;
            &&& host.task_type is Some ==> plan.task_type == host.task_type->0
            &&& host.strategy is Some ==> plan.strategy == host.strategy->0
            &&& plan.selection == host.selection
            &&& plan.acceptance.version == host.acceptance.version
            &&& host.acceptance.nonempty ==> plan.acceptance.nonempty
            &&& host.acceptance.json_object ==> plan.acceptance.json_object
            &&& forall|t: Seq<char>| #[trigger]
                host.acceptance.required_substrings.contains(t)
                    ==> plan.acceptance.required_substrings.contains(t)
            &&& host.constraints.required_capabilities.subset_of(
                plan.constraints.required_capabilities,
            )
            &&& plan.constraints == (ConstraintsModel {
                required_capabilities: plan.constraints.required_capabilities,
                ..host.constraints
            })
        }),
{
    if inputs.proposal is Some {
        let p = (inputs.proposal->0).1;
        lemma_with_missing(
            inputs.submission.acceptance.required_substrings,
            p.suggested_acceptance.required_substrings,
            p.suggested_acceptance.required_substrings.len(),
        );
    }
}

/// A plan made from a proposal has the least acceptance with every check of the host and every
/// check of the suggestion, and asks for the capabilities of both: a check or a capability is there
/// exactly where one of the two asks for it. The rest is the proposal's choice and the host's
/// constraints.
pub proof fn lemma_plan_is_the_least_of_both(
    inputs: PlanInputs,
    id: Seq<char>,
    p: PlannerProposalModel,
    t: Seq<char>,
)
    requires
        inputs.fault() is None,
        inputs.proposal == Some((id, p)),
    ensures
        ({
            let plan = inputs.plan();
            let host = inputs.submission;
            let suggested = p.suggested_acceptance;
            &&& plan.acceptance.json_object <==> host.acceptance.json_object
                || suggested.json_object
            &&& plan.acceptance.nonempty <==> host.acceptance.nonempty || suggested.nonempty
            &&& plan.acceptance.required_substrings.contains(t)
                <==> host.acceptance.required_substrings.contains(t)
                || suggested.required_substrings.contains(t)
            &&& plan.acceptance.version == host.acceptance.version
            &&& plan.acceptance.version == suggested.version
            &&& plan.constraints.required_capabilities.contains(t)
                <==> host.constraints.required_capabilities.contains(t)
                || p.required_capabilities.contains(t)
            &&& plan.task_type == p.task_type && plan.strategy == p.strategy
            &&& plan.proposal_id == Some(id)
            &&& plan.selection == host.selection
            &&& plan.assessment is None
        }),
{
    let others = p.suggested_acceptance.required_substrings;
    lemma_with_missing(
        inputs.submission.acceptance.required_substrings,
        others,
        others.len(),
    );
    if others.contains(t) {
        let k = others.index_of(t);
        assert(others[k] == t);
    }
}

/// A plan made without a proposal asks for exactly what the host asks for. Its type and strategy
/// are those of the fallback where there is one, else the host's, and a type that the host leaves
/// open is the general one.
pub proof fn lemma_plan_without_proposal_is_the_hosts(inputs: PlanInputs)
    requires
        inputs.fault() is None,
        inputs.proposal is None,
    ensures
        ({
            let plan = inputs.plan();
            let host = inputs.submission;
            &&& plan.acceptance == host.acceptance
            &&& plan.constraints == host.constraints
            &&& plan.selection == host.selection
            &&& plan.proposal_id is None
            &&& match inputs.fallback {
                Some(choice) => plan.task_type == choice.task_type && plan.strategy
                    == choice.strategy,
                None => Some(plan.strategy) == host.strategy && (match host.task_type {
                    Some(t) => plan.task_type == t,
                    None => plan.task_type == TaskType::General,
                }),
            }
        }),
{
}

/// A plan is refused exactly where its proposal is malformed or of another acceptance version,
/// where nothing chooses a strategy, where it differs from a type or strategy that the host chose,
/// or where it needs tools and the host declares none.
pub proof fn lemma_plan_refusals(inputs: PlanInputs)
    ensures
        ({
            let host = inputs.submission;
            let well_formed = match inputs.proposal {
                Some((_, p)) => {
                    &&& p.proposal_version == 1
                    &&& p.classification_confidence.in_unit()
                    &&& byte_len(p.reason) <= 4096
                    &&& all_known(p.required_capabilities)
                    &&& p.suggested_acceptance.version == host.acceptance.version
                },
                None => inputs.fallback is Some || host.strategy is Some,
            };
            let plan = inputs.plan();
            let kept = (host.task_type is Some ==> plan.task_type == host.task_type->0) && (
            host.strategy is Some ==> plan.strategy == host.strategy->0);
            let tools = host.constraints.required_capabilities.contains("tools"@) || (
            inputs.proposal is Some && (inputs.proposal->0).1.required_capabilities.contains(
                "tools"@,
            ));
            &&& inputs.fault() is None <==> well_formed && kept && (tools ==> host.tools.len() > 0)
            &&& inputs.fault() is Some ==> inputs.fault()->0.kind == "plan_validation"@
        }),
{
}

/// The roles of a plan: one that makes candidates, and under a critic one that makes and one that
/// judges, each for the plan's type of task; what judges generated code is told to review code.
pub proof fn lemma_plan_roles(inputs: PlanInputs, node: Seq<char>)
    requires
        inputs.fault() is None,
    ensures
        ({
            let plan = inputs.plan();
            let roles = plan.role_profiles;
            if plan.strategy == Strategy::GeneratorCritic {
                &&& roles.contains_key(node) <==> node == "generator"@ || node == "critic"@
                &&& roles["generator"@].role == "generator"@
                &&& roles["generator"@].task_type == plan.task_type
                &&& roles["critic"@].role == "critic"@
                &&& plan.task_type == TaskType::CodeGeneration ==> roles["critic"@].task_type
                    == TaskType::CodeReview
                &&& plan.task_type != TaskType::CodeGeneration ==> roles["critic"@].task_type
                    == plan.task_type
            } else {
                &&& roles.contains_key(node) <==> node == "invoke"@
                &&& roles["invoke"@].role == "invoke"@
                &&& roles["invoke"@].task_type == plan.task_type
            }
        }),
{
    reveal_strlit("generator");
    reveal_strlit("critic");
    assert("generator"@.len() != "critic"@.len());
}

/// A plan tells the proposal that it was made from, the submission that it belongs to and the
/// host's preferences; it is assessed later.
pub proof fn lemma_plan_tells_where_it_comes_from(inputs: PlanInputs)
    ensures
        ({
            let plan = inputs.plan();
            &&& inputs.proposal is Some ==> plan.proposal_id == Some((inputs.proposal->0).0)
            &&& inputs.proposal is None ==> plan.proposal_id is None
            &&& plan.submission_hash == inputs.submission_hash
            &&& plan.selection == inputs.submission.selection
            &&& plan.plan_version == 1 && plan.assessment is None
        }),
{
}

/// A proposal is well formed exactly where it is of the version that is read, its confidence is
/// from zero to one, its reason is not too long, and it asks for no capability but text, tools and
/// JSON.
pub proof fn lemma_well_formed_proposal(proposal: PlannerProposalModel)
    ensures
        proposal.formed() <==> {
            &&& proposal.proposal_version == 1
            &&& proposal.classification_confidence.in_unit()
            &&& byte_len(proposal.reason) <= 4096
            &&& forall|c: Seq<char>| #[trigger]
                proposal.required_capabilities.contains(c) ==> c == "text"@ || c == "tools"@ || c
                    == "json"@
        },
{
}

} // verus!
