//! The run of a submission as a machine: admission, the wait for a slot, preparation, execution
//! and the saved end.
use super::{
    check_executor, check_queue, conclude, executor_fault, final_json, final_result, final_status,
    queue_fault, remaining_ms, task_started, viewed, Ending, Queued,
};
use crate::contracts::configuration::Config;
use crate::contracts::encoding::{option_of, Encode};
use crate::contracts::planning::{SubmissionSpec, SubmissionSpecModel};
use crate::contracts::task::{Strategy, TaskResult, TaskResultModel, TaskSpec, TaskSpecModel};
use crate::fault::{or_fault, EngineError, EngineErrorModel};
use crate::json::{empty_object, Json, JsonModel};
use vstd::prelude::*;

verus! {

/// What a run waits for.
pub enum RunPhase {
    Ready,
    Registering,
    Queueing,
    Creating,
    Starting,
    Preparing,
    Executing,
    Finishing { result: Result<TaskResult, EngineError> },
    Over,
}

/// What a `RunPhase` holds.
#[verifier::ext_equal]
pub ghost enum RunPhaseModel {
    Ready,
    Registering,
    Queueing,
    Creating,
    Starting,
    Preparing,
    Executing,
    Finishing { result: Result<TaskResultModel, EngineErrorModel> },
    Over,
}

impl DeepView for RunPhase {
    type V = RunPhaseModel;

    open spec fn deep_view(&self) -> RunPhaseModel {
        match self {
            RunPhase::Ready => RunPhaseModel::Ready,
            RunPhase::Registering => RunPhaseModel::Registering,
            RunPhase::Queueing => RunPhaseModel::Queueing,
            RunPhase::Creating => RunPhaseModel::Creating,
            RunPhase::Starting => RunPhaseModel::Starting,
            RunPhase::Preparing => RunPhaseModel::Preparing,
            RunPhase::Executing => RunPhaseModel::Executing,
            RunPhase::Finishing { result } => RunPhaseModel::Finishing {
                result: viewed(*result),
            },
            RunPhase::Over => RunPhaseModel::Over,
        }
    }
}

/// What happened.
pub enum RunEvent {
    /// The run begins. The submission takes so many bytes, and so does its task; `given` where the
    /// host executes tools.
    Asked { bytes: usize, task_bytes: usize, given: bool, now: u64 },
    /// What was asked for is done.
    Done { now: u64 },
    /// What came of waiting for a slot.
    Waited { queued: Queued, task_bytes: usize, now: u64 },
    /// The submission is prepared as a task.
    Prepared { task: TaskSpec },
    /// What came of the task.
    Executed { result: Result<TaskResult, EngineError> },
    /// What was asked for could not be done.
    Broken { error: EngineError },
}

/// What a `RunEvent` holds.
#[verifier::ext_equal]
pub ghost enum RunEventModel {
    Asked { bytes: usize, task_bytes: usize, given: bool, now: u64 },
    Done { now: u64 },
    Waited { queued: Queued, task_bytes: usize, now: u64 },
    Prepared { task: TaskSpecModel },
    Executed { result: Result<TaskResultModel, EngineErrorModel> },
    Broken { error: EngineErrorModel },
}

impl DeepView for RunEvent {
    type V = RunEventModel;

    open spec fn deep_view(&self) -> RunEventModel {
        match self {
            RunEvent::Asked { bytes, task_bytes, given, now } => RunEventModel::Asked {
                bytes: bytes.deep_view(),
                task_bytes: task_bytes.deep_view(),
                given: given.deep_view(),
                now: now.deep_view(),
            },
            RunEvent::Done { now } => RunEventModel::Done {
                now: now.deep_view(),
            },
            RunEvent::Waited { queued, task_bytes, now } => RunEventModel::Waited {
                queued: queued.deep_view(),
                task_bytes: task_bytes.deep_view(),
                now: now.deep_view(),
            },
            RunEvent::Prepared { task } => RunEventModel::Prepared {
                task: task.deep_view(),
            },
            RunEvent::Executed { result } => RunEventModel::Executed {
                result: viewed(*result),
            },
            RunEvent::Broken { error } => RunEventModel::Broken {
                error: error.deep_view(),
            },
        }
    }
}

/// What to do next.
pub enum RunAction {
    /// Register the run, where the engine is open.
    Register,
    /// Wait for a slot.
    Queue { timeout_ms: u64 },
    /// Save the submission and its first ledger.
    Create,
    /// Tell the host that the task began.
    Emit { data: Json },
    Prepare,
    Execute { task: TaskSpec },
    /// Save how the task ended.
    Finish { status: String, saved: Json },
    /// Leave with a result.
    Return { result: Result<TaskResult, EngineError> },
    /// Nothing: what happened is not what the run waits for.
    Wait,
}

/// What a `RunAction` holds.
#[verifier::ext_equal]
pub ghost enum RunActionModel {
    Register,
    Queue { timeout_ms: u64 },
    Create,
    Emit { data: JsonModel },
    Prepare,
    Execute { task: TaskSpecModel },
    Finish { status: Seq<char>, saved: JsonModel },
    Return { result: Result<TaskResultModel, EngineErrorModel> },
    Wait,
}

impl DeepView for RunAction {
    type V = RunActionModel;

    open spec fn deep_view(&self) -> RunActionModel {
        match self {
            RunAction::Register => RunActionModel::Register,
            RunAction::Queue { timeout_ms } => RunActionModel::Queue {
                timeout_ms: timeout_ms.deep_view(),
            },
            RunAction::Create => RunActionModel::Create,
            RunAction::Emit { data } => RunActionModel::Emit {
                data: data.deep_view(),
            },
            RunAction::Prepare => RunActionModel::Prepare,
            RunAction::Execute { task } => RunActionModel::Execute {
                task: task.deep_view(),
            },
            RunAction::Finish { status, saved } => RunActionModel::Finish {
                status: status.deep_view(),
                saved: saved.deep_view(),
            },
            RunAction::Return { result } => RunActionModel::Return {
                result: viewed(*result),
            },
            RunAction::Wait => RunActionModel::Wait,
        }
    }
}

/// The run of a submission.
pub struct Run {
    submission: SubmissionSpec,
    phase: RunPhase,
}

/// The state of a run.
#[verifier::ext_equal]
pub ghost struct RunModel {
    pub submission: SubmissionSpecModel,
    pub phase: RunPhaseModel,
}

impl DeepView for Run {
    type V = RunModel;

    closed spec fn deep_view(&self) -> RunModel {
        RunModel { submission: self.submission.deep_view(), phase: self.phase.deep_view() }
    }
}

impl RunModel {
    /// The task of the submission before it is planned.
    pub open spec fn task(self) -> TaskSpecModel {
        self.submission.task_of(self.submission.provisional_strategy())
    }

    pub open spec fn to(self, phase: RunPhaseModel, action: RunActionModel) -> (
        RunModel,
        RunActionModel,
    ) {
        (RunModel { phase, ..self }, action)
    }

    /// The end of the run.
    pub open spec fn leaves_with(self, result: Result<TaskResultModel, EngineErrorModel>) -> (
        RunModel,
        RunActionModel,
    ) {
        self.to(RunPhaseModel::Over, RunActionModel::Return { result })
    }

    /// The end of a task that was saved: its end is saved before the run is left.
    pub open spec fn concludes(self, result: Result<TaskResultModel, EngineErrorModel>) -> (
        RunModel,
        RunActionModel,
    ) {
        let named = final_result(result, self.submission.task_id);
        self.to(
            RunPhaseModel::Finishing { result: named },
            RunActionModel::Finish { status: final_status(result), saved: final_json(named) },
        )
    }

    /// The state after an event, and what to do. `limit` is the most bytes of a task.
    pub open spec fn after(self, limit: usize, event: RunEventModel) -> (RunModel, RunActionModel) {
        match (self.phase, event) {
            (RunPhaseModel::Ready, RunEventModel::Asked { bytes, task_bytes, given, now }) => {
                match or_fault(
                    self.submission.fault(limit, bytes, task_bytes, now),
                    executor_fault(self.task(), given),
                ) {
                    Some(e) => self.leaves_with(Err(e)),
                    None => self.to(RunPhaseModel::Registering, RunActionModel::Register),
                }
            },
            (RunPhaseModel::Registering, RunEventModel::Done { now }) => self.to(
                RunPhaseModel::Queueing,
                RunActionModel::Queue { timeout_ms: self.task().time_left(now) as u64 },
            ),
            (RunPhaseModel::Registering, RunEventModel::Broken { error }) => self.leaves_with(
                Err(error),
            ),
            (RunPhaseModel::Queueing, RunEventModel::Waited { queued, task_bytes, now }) => {
                match or_fault(
                    queue_fault(queued, self.submission.task_id),
                    self.task().fault(limit, task_bytes, now),
                ) {
                    Some(e) => self.leaves_with(Err(e)),
                    None => self.to(RunPhaseModel::Creating, RunActionModel::Create),
                }
            },
            (RunPhaseModel::Creating, RunEventModel::Done { .. }) => self.to(
                RunPhaseModel::Starting,
                RunActionModel::Emit {
                    data: empty_object().with(
                        "strategy"@,
                        option_of::<Strategy>(self.submission.strategy),
                    ),
                },
            ),
            (RunPhaseModel::Creating, RunEventModel::Broken { error }) => self.leaves_with(Err(error)),
            (RunPhaseModel::Starting, RunEventModel::Done { .. }) => self.to(
                RunPhaseModel::Preparing,
                RunActionModel::Prepare,
            ),
            (RunPhaseModel::Starting, RunEventModel::Broken { error }) => self.concludes(
                Err(error),
            ),
            (RunPhaseModel::Preparing, RunEventModel::Prepared { task }) => self.to(
                RunPhaseModel::Executing,
                RunActionModel::Execute { task },
            ),
            (RunPhaseModel::Preparing, RunEventModel::Broken { error }) => self.concludes(
                Err(error),
            ),
            (RunPhaseModel::Executing, RunEventModel::Executed { result }) => self.concludes(
                result,
            ),
            (RunPhaseModel::Executing, RunEventModel::Broken { error }) => self.concludes(
                Err(error),
            ),
            (RunPhaseModel::Finishing { result }, RunEventModel::Done { .. }) => self.leaves_with(
                result,
            ),
            (RunPhaseModel::Finishing { .. }, RunEventModel::Broken { error }) => self.leaves_with(
                Err(error),
            ),
            _ => (self, RunActionModel::Wait),
        }
    }

    /// The state after the first `n` events.
    pub open spec fn state_after(self, limit: usize, events: Seq<RunEventModel>, n: nat) -> RunModel
        decreases n,
    {
        if n == 0 {
            self
        } else {
            self.state_after(limit, events, (n - 1) as nat).after(limit, events[n - 1]).0
        }
    }

    /// What is done after the event at `k`.
    pub open spec fn action_at(self, limit: usize, events: Seq<RunEventModel>, k: int) -> RunActionModel {
        self.state_after(limit, events, k as nat).after(limit, events[k]).1
    }
}

impl Run {
    /// The run of a submission that has not begun.
    pub fn new(submission: SubmissionSpec) -> (r: Self)
        ensures
            r.deep_view() == (RunModel {
                submission: submission.deep_view(),
                phase: RunPhaseModel::Ready,
            }),
    {
        Run { submission, phase: RunPhase::Ready }
    }

    fn leave(submission: SubmissionSpec, result: Result<TaskResult, EngineError>) -> (r: (
        Run,
        RunAction,
    ))
        ensures
            forall|phase: RunPhaseModel|
                (r.0.deep_view(), r.1.deep_view()) == #[trigger] (RunModel {
                    submission: submission.deep_view(),
                    phase,
                }).leaves_with(viewed(result)),
    {
        (Run { submission, phase: RunPhase::Over }, RunAction::Return { result })
    }

    fn end(submission: SubmissionSpec, result: Result<TaskResult, EngineError>) -> (r: (
        Run,
        RunAction,
    ))
        ensures
            forall|phase: RunPhaseModel|
                (r.0.deep_view(), r.1.deep_view()) == #[trigger] (RunModel {
                    submission: submission.deep_view(),
                    phase,
                }).concludes(viewed(result)),
    {
        let task: TaskSpec = submission.provisional_task();
        let ending: Ending = conclude(&task, result);
        (
            Run { submission, phase: RunPhase::Finishing { result: ending.result } },
            RunAction::Finish { status: ending.status, saved: ending.saved },
        )
    }

    fn ask(
        submission: SubmissionSpec,
        config: &Config,
        bytes: usize,
        task_bytes: usize,
        given: bool,
        now: u64,
    ) -> (r: (Run, RunAction))
        ensures
            (r.0.deep_view(), r.1.deep_view()) == (RunModel {
                submission: submission.deep_view(),
                phase: RunPhaseModel::Ready,
            }).after(
                config.context_max_bytes,
                RunEventModel::Asked { bytes, task_bytes, given, now },
            ),
    {
        if let Err(e) = submission.validate(config, bytes, task_bytes, now) {
            return Run::leave(submission, Err(e));
        }
        let task: TaskSpec = submission.provisional_task();
        match check_executor(&task, given) {
            Err(e) => Run::leave(submission, Err(e)),
            Ok(_) => (Run { submission, phase: RunPhase::Registering }, RunAction::Register),
        }
    }

    fn wait(
        submission: SubmissionSpec,
        config: &Config,
        queued: Queued,
        task_bytes: usize,
        now: u64,
    ) -> (r: (Run, RunAction))
        ensures
            (r.0.deep_view(), r.1.deep_view()) == (RunModel {
                submission: submission.deep_view(),
                phase: RunPhaseModel::Queueing,
            }).after(
                config.context_max_bytes,
                RunEventModel::Waited { queued, task_bytes, now },
            ),
    {
        let task: TaskSpec = submission.provisional_task();
        if let Err(e) = check_queue(queued, task.task_id.as_str()) {
            return Run::leave(submission, Err(e));
        }
        match task.validate(config, task_bytes, now) {
            Err(e) => Run::leave(submission, Err(e)),
            Ok(_) => (Run { submission, phase: RunPhase::Creating }, RunAction::Create),
        }
    }

    /// Takes what happened, and tells what to do next.
    pub fn step(self, config: &Config, event: RunEvent) -> (r: (Run, RunAction))
        ensures
            (r.0.deep_view(), r.1.deep_view()) == self.deep_view().after(
                config.context_max_bytes,
                event.deep_view(),
            ),
    {
        let submission: SubmissionSpec = self.submission;
        match (self.phase, event) {
            (RunPhase::Ready, RunEvent::Asked { bytes, task_bytes, given, now }) => Run::ask(
                submission,
                config,
                bytes,
                task_bytes,
                given,
                now,
            ),
            (RunPhase::Registering, RunEvent::Done { now }) => {
                let task: TaskSpec = submission.provisional_task();
                let timeout_ms: u64 = remaining_ms(&task, now);
                (Run { submission, phase: RunPhase::Queueing }, RunAction::Queue { timeout_ms })
            },
            (RunPhase::Registering, RunEvent::Broken { error }) => Run::leave(
                submission,
                Err(error),
            ),
            (RunPhase::Queueing, RunEvent::Waited { queued, task_bytes, now }) => Run::wait(
                submission,
                config,
                queued,
                task_bytes,
                now,
            ),
            (RunPhase::Creating, RunEvent::Done { .. }) => {
                let data: Json = task_started(&submission);
                (Run { submission, phase: RunPhase::Starting }, RunAction::Emit { data })
            },
            (RunPhase::Creating, RunEvent::Broken { error }) => Run::leave(
                submission,
                Err(error),
            ),
            (RunPhase::Starting, RunEvent::Done { .. }) => (
                Run { submission, phase: RunPhase::Preparing },
                RunAction::Prepare,
            ),
            (RunPhase::Starting, RunEvent::Broken { error }) => Run::end(submission, Err(error)),
            (RunPhase::Preparing, RunEvent::Prepared { task }) => (
                Run { submission, phase: RunPhase::Executing },
                RunAction::Execute { task },
            ),
            (RunPhase::Preparing, RunEvent::Broken { error }) => Run::end(submission, Err(error)),
            (RunPhase::Executing, RunEvent::Executed { result }) => Run::end(submission, result),
            (RunPhase::Executing, RunEvent::Broken { error }) => Run::end(submission, Err(error)),
            (RunPhase::Finishing { result }, RunEvent::Done { .. }) => Run::leave(
                submission,
                result,
            ),
            (RunPhase::Finishing { .. }, RunEvent::Broken { error }) => Run::leave(
                submission,
                Err(error),
            ),
            (phase, _) => (Run { submission, phase }, RunAction::Wait),
        }
    }
}

/// How far a run has come.
spec fn progress(phase: RunPhaseModel) -> int {
    match phase {
        RunPhaseModel::Ready => 0,
        RunPhaseModel::Registering => 1,
        RunPhaseModel::Queueing => 2,
        RunPhaseModel::Creating => 3,
        RunPhaseModel::Starting => 4,
        RunPhaseModel::Preparing => 5,
        RunPhaseModel::Executing => 6,
        RunPhaseModel::Finishing { .. } => 7,
        RunPhaseModel::Over => 8,
    }
}

proof fn lemma_forward(run: RunModel, limit: usize, event: RunEventModel)
    ensures
        progress(run.phase) <= progress(run.after(limit, event).0.phase),
{
}

proof fn lemma_ahead(start: RunModel, limit: usize, events: Seq<RunEventModel>, i: nat, j: nat)
    requires
        i <= j,
    ensures
        progress(start.state_after(limit, events, i).phase) <= progress(
            start.state_after(limit, events, j).phase,
        ),
    decreases j - i,
{
    if i < j {
        lemma_ahead(start, limit, events, i, (j - 1) as nat);
        lemma_forward(start.state_after(limit, events, (j - 1) as nat), limit, events[j - 1]);
    }
}

proof fn lemma_finished(start: RunModel, limit: usize, events: Seq<RunEventModel>, n: nat) -> (k: int)
    requires
        start.phase is Ready,
        start.state_after(limit, events, n).phase is Finishing,
    ensures
        0 <= k < n,
        start.action_at(limit, events, k) is Finish,
    decreases n,
{
    let before = start.state_after(limit, events, (n - 1) as nat);
    if before.phase is Finishing {
        lemma_finished(start, limit, events, (n - 1) as nat)
    } else {
        n - 1
    }
}

/// A task that was saved is left only after its end was saved: between the event that tells of
/// its start and the return, whatever happens, the way it ended goes to the store.
pub proof fn lemma_started_is_finished(
    start: RunModel,
    limit: usize,
    events: Seq<RunEventModel>,
    i: int,
    j: int,
) -> (k: int)
    requires
        start.phase is Ready,
        0 <= i < j,
        start.action_at(limit, events, i) is Emit,
        start.action_at(limit, events, j) is Return,
    ensures
        i < k < j,
        start.action_at(limit, events, k) is Finish,
{
    lemma_ahead(start, limit, events, (i + 1) as nat, j as nat);
    let k = lemma_finished(start, limit, events, j as nat);
    if k <= i {
        lemma_ahead(start, limit, events, (k + 1) as nat, (i + 1) as nat);
    }
    k
}

/// Nothing is saved of a run that was not admitted or got no slot.
pub proof fn lemma_refused_is_not_created(
    start: RunModel,
    limit: usize,
    events: Seq<RunEventModel>,
    i: int,
    j: int,
)
    requires
        start.phase is Ready,
        0 <= i < j,
        start.action_at(limit, events, i) is Return,
    ensures
        !(start.action_at(limit, events, j) is Create),
{
    lemma_ahead(start, limit, events, (i + 1) as nat, j as nat);
}

/// A run is registered exactly where its submission is valid and a host executes its tools, if it
/// has any; it waits for a slot no longer than its task has.
pub proof fn lemma_run_is_admitted(
    run: RunModel,
    limit: usize,
    bytes: usize,
    task_bytes: usize,
    given: bool,
    now: u64,
)
    ensures
        run.phase is Ready ==> {
            let (next, action) = run.after(
                limit,
                RunEventModel::Asked { bytes, task_bytes, given, now },
            );
            let fault = run.submission.fault(limit, bytes, task_bytes, now);
            &&& action is Register <==> fault is None && (run.submission.tools.len() == 0 || given)
            &&& action is Register || action is Return
            &&& fault is Some ==> action->Return_result is Err && action->Return_result->Err_0
                == fault->0
            &&& fault is None && action is Return ==> action->Return_result is Err
                && action->Return_result->Err_0.kind == "configuration"@
        },
        run.phase is Registering ==> {
            let (next, action) = run.after(limit, RunEventModel::Done { now });
            let task = run.submission;
            &&& action is Queue && next.phase is Queueing
            &&& now + task.finalization_ms < task.deadline_ms ==> action->Queue_timeout_ms
                == task.deadline_ms - task.finalization_ms - now
            &&& now + task.finalization_ms >= task.deadline_ms ==> action->Queue_timeout_ms == 0
        },
{
}

/// A run that got its slot is created, unless its task became invalid while it waited; one that got
/// none ends, and says why.
pub proof fn lemma_run_gets_its_slot(
    run: RunModel,
    limit: usize,
    queued: Queued,
    task_bytes: usize,
    now: u64,
)
    requires
        run.phase is Queueing,
    ensures
        ({
            let (next, action) = run.after(
                limit,
                RunEventModel::Waited { queued, task_bytes, now },
            );
            let strategy = match run.submission.strategy {
                Some(s) => s,
                None => Strategy::Single,
            };
            let fault = run.submission.task_of(strategy).fault(limit, task_bytes, now);
            &&& action is Create <==> queued == Queued::Granted && fault is None
            &&& queued == Queued::Cancelled ==> action is Return && action->Return_result is Err
                && action->Return_result->Err_0.kind == "cancelled"@
                && action->Return_result->Err_0.task_id == Some(run.submission.task_id)
            &&& queued == Queued::TimedOut ==> action is Return && action->Return_result is Err
                && action->Return_result->Err_0.kind == "deadline"@
            &&& queued == Queued::Closed ==> action is Return && action->Return_result is Err
                && action->Return_result->Err_0.kind == "closed"@
            &&& queued == Queued::Granted && fault is Some ==> action is Return
                && action->Return_result is Err && action->Return_result->Err_0 == fault->0
        }),
{
}

/// What was prepared is executed, as it was prepared. What came of it is saved under the status it
/// has, and returned: a result as it is, an error marked with its task.
pub proof fn lemma_run_returns_what_came(
    run: RunModel,
    limit: usize,
    task: TaskSpecModel,
    result: Result<TaskResultModel, EngineErrorModel>,
    error: EngineErrorModel,
    now: u64,
)
    ensures
        run.phase is Preparing ==> {
            let (next, action) = run.after(limit, RunEventModel::Prepared { task });
            action is Execute && action->Execute_task == task && next.phase is Executing
        },
        run.phase is Executing ==> {
            let (next, action) = run.after(limit, RunEventModel::Executed { result });
            &&& action is Finish && next.phase is Finishing
            &&& match result {
                Ok(r) => {
                    &&& next.phase->Finishing_result == result
                    &&& action->Finish_status == r.status
                    &&& action->Finish_saved == TaskResult::json_of(r)
                },
                Err(e) => {
                    let named = next.phase->Finishing_result->Err_0;
                    &&& next.phase->Finishing_result is Err
                    &&& named.kind == e.kind && named.message == e.message && named.details
                        == e.details
                    &&& named.task_id == Some(run.submission.task_id)
                    &&& e.kind == "cancelled"@ ==> action->Finish_status == "cancelled"@
                    &&& e.kind != "cancelled"@ ==> action->Finish_status == "failed"@
                    &&& action->Finish_saved == EngineError::json_of(named)
                },
            }
        },
        run.phase is Starting || run.phase is Preparing || run.phase is Executing ==> {
            let (next, action) = run.after(limit, RunEventModel::Broken { error });
            &&& action is Finish && next.phase is Finishing
            &&& next.phase->Finishing_result is Err
            &&& next.phase->Finishing_result->Err_0.kind == error.kind
        },
        run.phase is Finishing ==> {
            let (next, action) = run.after(limit, RunEventModel::Done { now });
            action is Return && action->Return_result == run.phase->Finishing_result && next.phase
                is Over
        },
{
}

} // verus!
