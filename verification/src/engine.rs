//! Bounded execution; the host retains ownership of cancellation and tool permissions.
pub mod discipline;
pub mod execution;
pub mod invocation;
pub mod node;
pub mod planning;
pub mod preparation;
pub mod rounds;
pub mod run;
pub mod shutdown;
pub mod tools;

use crate::contracts::configuration::{Config, ConfigModel};
use crate::contracts::encoding::{option_json, option_of, Encode};
use crate::contracts::planning::SubmissionSpec;
use crate::contracts::task::{
    minus_floored, Strategy, TaskResult, TaskResultModel, TaskSpec, TaskSpecModel,
};
use crate::events::{Event, EventModel};
use crate::fault::{answers, failure, or_fault, EngineError, EngineErrorModel};
use crate::json::{
    count_model, count_value, empty_object, text_value, Json, JsonModel, ObjectBuilder,
};
use crate::text::{same_text, TextSet};
use vstd::prelude::*;

verus! {

/// What came of work that was waited for: the run was cancelled, the time was up, or an answer.
pub enum Reply<T> {
    Cancelled,
    TimedOut,
    Answered(Result<T, EngineError>),
}

/// What a result holds.
pub open spec fn viewed<T: DeepView>(r: Result<T, EngineError>) -> Result<
    T::V,
    EngineErrorModel,
> {
    match r {
        Ok(x) => Ok(x.deep_view()),
        Err(e) => Err(e.deep_view()),
    }
}

/// What a reply holds.
pub ghost enum ReplyModel<M> {
    Cancelled,
    TimedOut,
    Answered(Result<M, EngineErrorModel>),
}

impl<T: DeepView> DeepView for Reply<T> {
    type V = ReplyModel<T::V>;

    open spec fn deep_view(&self) -> ReplyModel<T::V> {
        match self {
            Reply::Cancelled => ReplyModel::Cancelled,
            Reply::TimedOut => ReplyModel::TimedOut,
            Reply::Answered(r) => ReplyModel::Answered(viewed(*r)),
        }
    }
}

/// The result that a reply stands for, with the messages of its two errors.
pub open spec fn result_of<M>(
    reply: ReplyModel<M>,
    cancelled: Seq<char>,
    timed_out: Seq<char>,
) -> Result<M, EngineErrorModel> {
    match reply {
        ReplyModel::Cancelled => Err(failure("cancelled"@, cancelled)),
        ReplyModel::TimedOut => Err(failure("deadline"@, timed_out)),
        ReplyModel::Answered(r) => r,
    }
}

/// The result that a reply stands for, with the messages of its two errors.
pub fn into_result<T: DeepView>(reply: Reply<T>, cancelled: &str, timed_out: &str) -> (r: Result<
    T,
    EngineError,
>)
    ensures
        viewed(r) == result_of(reply.deep_view(), cancelled@, timed_out@),
{
    match reply {
        Reply::Cancelled => Err(EngineError::new("cancelled", cancelled)),
        Reply::TimedOut => Err(EngineError::new("deadline", timed_out)),
        Reply::Answered(r) => r,
    }
}

impl TaskSpecModel {
    /// When execution ends.
    pub open spec fn cutoff(self) -> int {
        minus_floored(self.deadline_ms as int, self.finalization_ms as int)
    }

    /// What is left of the time to execute.
    pub open spec fn time_left(self, now: u64) -> int {
        minus_floored(self.cutoff(), now as int)
    }
}

/// When the execution of a task ends.
pub fn cutoff_ms(task: &TaskSpec) -> (r: u64)
    ensures
        r == task.deep_view().cutoff(),
{
    task.deadline_ms.saturating_sub(task.finalization_ms)
}

/// What is left of the time to execute a task.
pub fn remaining_ms(task: &TaskSpec, now: u64) -> (r: u64)
    ensures
        r == task.deep_view().time_left(now),
{
    cutoff_ms(task).saturating_sub(now)
}

/// The outcome of a call that was not made.
pub open spec fn undispatched() -> JsonModel {
    empty_object().with("not_dispatched"@, JsonModel::Bool(true)).with(
        "call_metrics"@,
        empty_object().with("status"@, JsonModel::Text("not_dispatched"@)),
    )
}

/// The outcome of a call that was not made.
pub fn undispatched_outcome() -> (r: Json)
    ensures
        r@ == undispatched(),
{
    let metrics: Json = ObjectBuilder::new().with("status", text_value("not_dispatched")).build();
    ObjectBuilder::new().with("not_dispatched", Json::Bool(true)).with(
        "call_metrics",
        metrics,
    ).build()
}

/// The status of a call that failed, by the kind of its error.
pub open spec fn failed_status(kind: Seq<char>) -> Seq<char> {
    if kind == "cancelled"@ {
        "cancelled"@
    } else if kind == "deadline"@ {
        "timed_out"@
    } else {
        "failed"@
    }
}

/// The metrics of a call.
pub open spec fn call_metrics(status: Seq<char>, latency_ms: u64) -> JsonModel {
    empty_object().with("status"@, JsonModel::Text(status)).with(
        "latency_ms"@,
        count_model(latency_ms),
    )
}

pub fn metrics_value(status: &str, latency_ms: u64) -> (r: Json)
    ensures
        r@ == call_metrics(status@, latency_ms),
{
    ObjectBuilder::new().with("status", text_value(status)).with(
        "latency_ms",
        count_value(latency_ms),
    ).build()
}

/// The metrics of a call that failed.
pub fn failed_metrics(kind: &str, latency_ms: u64) -> (r: Json)
    ensures
        r@ == call_metrics(failed_status(kind@), latency_ms),
{
    if same_text(kind, "cancelled") {
        metrics_value("cancelled", latency_ms)
    } else if same_text(kind, "deadline") {
        metrics_value("timed_out", latency_ms)
    } else {
        metrics_value("failed", latency_ms)
    }
}

/// The fault of assembling an engine: an invalid configuration, or one that asks for decisions
/// without a model that makes them.
pub open spec fn assembly_fault(config: ConfigModel, decides: bool) -> Option<EngineErrorModel> {
    or_fault(
        config.fault(false),
        if config.decision is Some && !decides {
            Some(failure("decision"@, "decision configuration requires a decision model"@))
        } else {
            None
        },
    )
}

/// Checks what an engine is assembled from; `decides` where a decision model is given.
pub fn check_assembly(config: &Config, decides: bool) -> (r: Result<(), EngineError>)
    ensures
        answers(r, assembly_fault(config.deep_view(), decides)),
{
    if let Err(e) = config.validate(false) {
        return Err(e);
    }
    if config.decision.is_some() && !decides {
        return Err(
            EngineError::new("decision", "decision configuration requires a decision model"),
        );
    }
    Ok(())
}

/// The fault of a task with tools that nobody executes.
pub open spec fn executor_fault(task: TaskSpecModel, given: bool) -> Option<EngineErrorModel> {
    if task.tools.len() > 0 && !given {
        Some(failure("configuration"@, "tool declarations require an explicit host executor"@))
    } else {
        None
    }
}

/// Checks that a task with tools has a host to execute them.
pub fn check_executor(task: &TaskSpec, given: bool) -> (r: Result<(), EngineError>)
    ensures
        answers(r, executor_fault(task.deep_view(), given)),
{
    if task.tools.len() > 0 && !given {
        return Err(
            EngineError::new("configuration", "tool declarations require an explicit host executor"),
        );
    }
    Ok(())
}

/// What came of waiting for a slot.
#[derive(Debug, Clone, Copy, PartialEq, Eq, Structural)]
pub enum Queued {
    Granted,
    Cancelled,
    TimedOut,
    Closed,
}

impl DeepView for Queued {
    type V = Queued;

    open spec fn deep_view(&self) -> Queued {
        *self
    }
}

/// The fault of a task that waited for a slot.
pub open spec fn queue_fault(queued: Queued, task_id: Seq<char>) -> Option<EngineErrorModel> {
    match queued {
        Queued::Granted => None,
        Queued::Cancelled => Some(
            EngineErrorModel {
                task_id: Some(task_id),
                ..failure("cancelled"@, "task cancelled while queued"@)
            },
        ),
        Queued::TimedOut => Some(failure("deadline"@, "deadline reached while queued"@)),
        Queued::Closed => Some(failure("closed"@, "engine is closed"@)),
    }
}

/// Takes what came of waiting for a slot.
pub fn check_queue(queued: Queued, task_id: &str) -> (r: Result<(), EngineError>)
    ensures
        answers(r, queue_fault(queued, task_id@)),
{
    match queued {
        Queued::Granted => Ok(()),
        Queued::Cancelled => Err(
            EngineError::new("cancelled", "task cancelled while queued").task(task_id),
        ),
        Queued::TimedOut => Err(EngineError::new("deadline", "deadline reached while queued")),
        Queued::Closed => Err(EngineError::new("closed", "engine is closed")),
    }
}

/// What the event at the start of a task tells.
pub fn task_started(submission: &SubmissionSpec) -> (r: Json)
    ensures
        r@ == empty_object().with("strategy"@, option_of::<Strategy>(submission.strategy.deep_view())),
{
    ObjectBuilder::new().with("strategy", option_json(&submission.strategy)).build()
}

/// An event of a task.
pub fn task_event(
    task: &TaskSpec,
    node: Option<String>,
    attempt: Option<String>,
    sequence: u64,
    now: u64,
    kind: &str,
    data: Json,
) -> (r: Event)
    ensures
        r.deep_view() == (EventModel {
            task_id: task.task_id@,
            node_id: node.deep_view(),
            attempt_id: attempt.deep_view(),
            sequence,
            timestamp_ms: now,
            kind: kind@,
            data: data@,
        }),
{
    Event {
        task_id: task.task_id.clone(),
        node_id: node,
        attempt_id: attempt,
        sequence,
        timestamp_ms: now,
        kind: kind.to_owned(),
        data,
    }
}

/// How a task ends: what is saved of it, and what its caller gets.
pub struct Ending {
    pub status: String,
    pub saved: Json,
    pub result: Result<TaskResult, EngineError>,
}

/// The result of a task, with its errors marked as its own.
pub open spec fn final_result(
    result: Result<TaskResultModel, EngineErrorModel>,
    task_id: Seq<char>,
) -> Result<TaskResultModel, EngineErrorModel> {
    match result {
        Ok(r) => Ok(r),
        Err(e) => Err(EngineErrorModel { task_id: Some(task_id), ..e }),
    }
}

/// The status of a task after its result.
pub open spec fn final_status(result: Result<TaskResultModel, EngineErrorModel>) -> Seq<char> {
    match result {
        Ok(r) => r.status,
        Err(e) => if e.kind == "cancelled"@ {
            "cancelled"@
        } else {
            "failed"@
        },
    }
}

/// What is saved of a task's result.
pub open spec fn final_json(result: Result<TaskResultModel, EngineErrorModel>) -> JsonModel {
    match result {
        Ok(r) => TaskResult::json_of(r),
        Err(e) => EngineError::json_of(e),
    }
}

/// Ends a task.
pub fn conclude(task: &TaskSpec, result: Result<TaskResult, EngineError>) -> (r: Ending)
    ensures
        viewed(r.result) == final_result(viewed(result), task.task_id@),
        r.status@ == final_status(viewed(result)),
        r.saved@ == final_json(viewed(r.result)),
{
    match result {
        Ok(done) => Ending { status: done.status.clone(), saved: done.to_json(), result: Ok(done) },
        Err(e) => {
            let error: EngineError = e.task(task.task_id.as_str());
            let status: String = if same_text(error.kind.as_str(), "cancelled") {
                "cancelled".to_owned()
            } else {
                "failed".to_owned()
            };
            Ending { status, saved: error.to_json(), result: Err(error) }
        },
    }
}

/// Admission and shutdown of an engine: the runs that are registered, and whether it is closing
/// or closed. A closed engine has no run.
#[derive(Debug)]
pub struct Lifecycle {
    closing: bool,
    closed: bool,
    active: TextSet,
}

/// What a lifecycle holds.
#[verifier::ext_equal]
pub ghost struct LifecycleModel {
    pub closing: bool,
    pub closed: bool,
    pub active: Set<Seq<char>>,
}

/// The error of an engine that admits nothing.
pub open spec fn closed_fault() -> EngineErrorModel {
    failure("closed"@, "engine is closing or closed"@)
}

impl LifecycleModel {
    /// A closed engine is closing, and has no run.
    pub open spec fn valid(self) -> bool {
        self.closed ==> self.closing && self.active == Set::<Seq<char>>::empty()
    }

    /// The fault of reading what is saved.
    pub open spec fn read_fault(self) -> Option<EngineErrorModel> {
        if self.closing {
            Some(closed_fault())
        } else {
            None
        }
    }

    /// The fault of a run of a task that asks to be admitted.
    pub open spec fn entry_fault(self, task_id: Seq<char>) -> Option<EngineErrorModel> {
        if self.closing {
            Some(EngineErrorModel { task_id: Some(task_id), ..closed_fault() })
        } else {
            None
        }
    }
}

impl View for Lifecycle {
    type V = LifecycleModel;

    closed spec fn view(&self) -> LifecycleModel {
        LifecycleModel {
            closing: self.closing,
            closed: self.closed,
            active: self.active.deep_view(),
        }
    }
}

impl Lifecycle {
    #[verifier::type_invariant]
    spec fn kept(self) -> bool {
        self.closed ==> self.closing && self.active.deep_view() == Set::<Seq<char>>::empty()
    }

    /// An engine that was just opened.
    pub fn new() -> (r: Self)
        ensures
            r@ == (LifecycleModel { closing: false, closed: false, active: Set::empty() }),
    {
        let active: TextSet = TextSet::new();
        assert(active.deep_view() =~= Set::empty());
        Lifecycle { closing: false, closed: false, active }
    }

    /// Registers a run. Registration and closing are decided on one state, and count tasks that
    /// wait for a slot.
    pub fn enter(&mut self, registration: &str, task_id: &str) -> (r: Result<(), EngineError>)
        ensures
            old(self)@.valid(),
            answers(r, old(self)@.entry_fault(task_id@)),
            final(self)@ == old(self)@.after(LifecycleStep::Enter(registration@)),
    {
        proof {
            use_type_invariant(&*self);
        }
        if self.closing {
            return Err(EngineError::new("closed", "engine is closing or closed").task(task_id));
        }
        let ghost before = self.active;
        let mut active: TextSet = self.active.clone();
        let ghost same = active;
        let _added: bool = active.insert(registration.to_owned());
        proof {
            assert forall|t: Seq<char>| #[trigger]
                active.deep_view().contains(t) == before.deep_view().insert(
                    registration@,
                ).contains(t) by {
                assert(active.has(t) <==> same.has(t) || t == registration@);
            }
            assert(active.deep_view() =~= before.deep_view().insert(registration@));
        }
        self.active = active;
        Ok(())
    }

    /// Takes a run out that has ended.
    pub fn leave(&mut self, registration: &str)
        ensures
            final(self)@ == old(self)@.after(LifecycleStep::Leave(registration@)),
    {
        proof {
            use_type_invariant(&*self);
        }
        let ghost before = self.active;
        let mut active: TextSet = self.active.clone();
        let ghost same = active;
        active.remove(registration);
        proof {
            assert forall|t: Seq<char>| #[trigger]
                active.deep_view().contains(t) == before.deep_view().remove(
                    registration@,
                ).contains(t) by {
                assert(active.has(t) <==> same.has(t) && t != registration@);
                assert(same.has(t) == before.has(t));
            }
            assert(active.deep_view() =~= before.deep_view().remove(registration@));
            if self.closed {
                assert(active.deep_view() =~= Set::empty());
            }
        }
        self.active = active;
    }

    /// Whether no run is left.
    pub fn is_drained(&self) -> (r: bool)
        ensures
            r == (self@.active == Set::<Seq<char>>::empty()),
    {
        let r: bool = self.active.is_empty();
        proof {
            if r {
                assert(self.active.deep_view() =~= Set::empty());
            } else {
                assert(self.active.has(self.active.listed()[0]));
                assert(self.active.deep_view().contains(self.active.listed()[0]));
            }
        }
        r
    }

    /// The runs that are left.
    pub fn runs(&self) -> (r: Vec<String>)
        ensures
            forall|t: Seq<char>| r.deep_view().contains(t) <==> self@.active.contains(t),
    {
        let r: Vec<String> = self.active.to_list();
        assert forall|t: Seq<char>| r.deep_view().contains(t) <==> self@.active.contains(t) by {
            assert(self.active.deep_view().contains(t) == self.active.has(t));
        }
        r
    }

    /// Stops admission; tells whether there is anything to close.
    pub fn begin_close(&mut self) -> (r: bool)
        ensures
            r == !old(self)@.closed,
            final(self)@ == old(self)@.after(LifecycleStep::BeginClose),
    {
        proof {
            use_type_invariant(&*self);
        }
        if self.closed {
            return false;
        }
        self.closing = true;
        true
    }

    /// Closes an engine whose admission was stopped and whose runs have ended; tells whether it
    /// is closed.
    pub fn finish_close(&mut self) -> (r: bool)
        ensures
            r == (old(self)@.closing && old(self)@.active == Set::<Seq<char>>::empty()),
            final(self)@ == old(self)@.after(LifecycleStep::FinishClose),
    {
        proof {
            use_type_invariant(&*self);
        }
        if self.closing && self.is_drained() {
            self.closed = true;
            return true;
        }
        false
    }

    /// Checks that saved records can still be read.
    pub fn check_open(&self) -> (r: Result<(), EngineError>)
        ensures
            answers(r, self@.read_fault()),
    {
        if self.closing {
            return Err(EngineError::new("closed", "engine is closing or closed"));
        }
        Ok(())
    }
}

/// The error where runs do not end in time.
pub open spec fn cleanup_fault() -> EngineErrorModel {
    failure(
        "cleanup_timeout"@,
        "active tasks have not finished accounting; database ownership retained"@,
    )
}

/// The error where runs do not end in time: the store stays owned, and closing can be tried again.
pub fn cleanup_timeout() -> (r: EngineError)
    ensures
        r.deep_view() == cleanup_fault(),
{
    EngineError::new(
        "cleanup_timeout",
        "active tasks have not finished accounting; database ownership retained",
    )
}

/// What can happen to a lifecycle.
pub ghost enum LifecycleStep {
    Enter(Seq<char>),
    Leave(Seq<char>),
    BeginClose,
    FinishClose,
}

impl LifecycleModel {
    /// The state after a step.
    pub open spec fn after(self, step: LifecycleStep) -> LifecycleModel {
        match step {
            LifecycleStep::Enter(run) => if self.closing {
                self
            } else {
                LifecycleModel { active: self.active.insert(run), ..self }
            },
            LifecycleStep::Leave(run) => LifecycleModel { active: self.active.remove(run), ..self },
            LifecycleStep::BeginClose => LifecycleModel { closing: true, ..self },
            LifecycleStep::FinishClose => LifecycleModel {
                closed: self.closed || (self.closing && self.active == Set::<Seq<char>>::empty()),
                ..self
            },
        }
    }

    /// The state after the first `n` steps.
    pub open spec fn run(self, steps: Seq<LifecycleStep>, n: nat) -> LifecycleModel
        decreases n,
    {
        if n == 0 {
            self
        } else {
            self.run(steps, (n - 1) as nat).after(steps[n - 1])
        }
    }
}

/// Shutdown is final: whatever happens after admission was stopped, no run is added, admission
/// stays stopped, and an engine that is closed stays closed without any run.
pub proof fn lemma_closing_is_final(state: LifecycleModel, steps: Seq<LifecycleStep>, n: nat)
    requires
        state.valid(),
        state.closing,
    ensures
        state.run(steps, n).valid(),
        state.run(steps, n).closing,
        state.closed ==> state.run(steps, n).closed,
        state.run(steps, n).active.subset_of(state.active),
    decreases n,
{
    if n > 0 {
        lemma_closing_is_final(state, steps, (n - 1) as nat);
        let before = state.run(steps, (n - 1) as nat);
        let after = before.after(steps[n - 1]);
        if before.closed {
            assert(after.active =~= Set::empty());
        }
    }
}

/// What a reply stands for: an answer is itself; a cancellation and the end of time are errors of
/// these kinds.
pub proof fn lemma_result_of_a_reply<M>(
    reply: ReplyModel<M>,
    cancelled: Seq<char>,
    timed_out: Seq<char>,
)
    ensures
        ({
            let r = result_of(reply, cancelled, timed_out);
            match reply {
                ReplyModel::Answered(a) => r == a,
                ReplyModel::Cancelled => r is Err && r->Err_0.kind == "cancelled"@
                    && r->Err_0.message == cancelled,
                ReplyModel::TimedOut => r is Err && r->Err_0.kind == "deadline"@
                    && r->Err_0.message == timed_out,
            }
        }),
{
}

/// When the execution of a task ends and what is left of its time: what is kept for the end does
/// not count.
pub proof fn lemma_time_of_a_task(task: TaskSpecModel, now: u64)
    ensures
        task.finalization_ms <= task.deadline_ms ==> task.cutoff() == task.deadline_ms
            - task.finalization_ms,
        task.finalization_ms > task.deadline_ms ==> task.cutoff() == 0,
        now + task.finalization_ms < task.deadline_ms ==> task.time_left(now) == task.deadline_ms
            - task.finalization_ms - now,
        now + task.finalization_ms >= task.deadline_ms ==> task.time_left(now) == 0,
{
}

/// The metrics of a call tell its status and its latency; a failed one was cancelled or timed out
/// where its error says so.
pub proof fn lemma_metrics_of_a_call(status: Seq<char>, kind: Seq<char>, latency_ms: u64)
    ensures
        call_metrics(status, latency_ms).at("status"@) == JsonModel::Text(status),
        call_metrics(status, latency_ms).at("latency_ms"@) == count_model(latency_ms),
        kind == "cancelled"@ ==> failed_status(kind) == "cancelled"@,
        kind == "deadline"@ ==> failed_status(kind) == "timed_out"@,
        kind != "cancelled"@ && kind != "deadline"@ ==> failed_status(kind) == "failed"@,
{
    lemma_metric_names();
    reveal_strlit("cancelled");
    reveal_strlit("deadline");
    assert("cancelled"@.len() == 9 && "deadline"@.len() == 8);
}

/// An engine is assembled exactly from a valid configuration that asks for decisions only where a
/// model makes them; a task with tools needs a host that executes them.
pub proof fn lemma_what_can_be_assembled(
    config: ConfigModel,
    decides: bool,
    task: TaskSpecModel,
    given: bool,
)
    ensures
        assembly_fault(config, decides) is None <==> config.fault(false) is None && (config.decision
            is Some ==> decides),
        executor_fault(task, given) is None <==> task.tools.len() == 0 || given,
{
}

/// Runs are registered only while the engine admits them, and only what has left is gone: entering
/// and leaving change nothing else, and an engine closes once it is closing and has no run.
pub proof fn lemma_steps_of_a_lifecycle(state: LifecycleModel, run: Seq<char>, other: Seq<char>)
    ensures
        ({
            let entered = state.after(LifecycleStep::Enter(run));
            let left = state.after(LifecycleStep::Leave(run));
            let closing = state.after(LifecycleStep::BeginClose);
            let done = state.after(LifecycleStep::FinishClose);
            &&& entered.active.contains(run) <==> !state.closing || state.active.contains(run)
            &&& !left.active.contains(run)
            &&& other != run ==> entered.active.contains(other) == state.active.contains(other)
                && left.active.contains(other) == state.active.contains(other)
            &&& entered.closing == state.closing && entered.closed == state.closed
            &&& left.closing == state.closing && left.closed == state.closed
            &&& closing.closing && closing.closed == state.closed && closing.active == state.active
            &&& done.closing == state.closing && done.active == state.active
            &&& done.closed <==> state.closed || state.closing && (forall|r: Seq<char>|
                !state.active.contains(r))
            &&& state.entry_fault(run) is Some <==> state.closing
            &&& state.read_fault() is Some <==> state.closing
        }),
{
    if forall|r: Seq<char>| !state.active.contains(r) {
        assert(state.active =~= Set::<Seq<char>>::empty());
    }
}

proof fn lemma_metric_names()
    ensures
        "status"@ != "latency_ms"@,
{
    reveal_strlit("status");
    reveal_strlit("latency_ms");
    assert("status"@.len() == 6);
    assert("latency_ms"@.len() == 10);
}

} // verus!
