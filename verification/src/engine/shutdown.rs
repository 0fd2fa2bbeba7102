//! The shutdown of an engine as a machine over its lifecycle: admission stops, runs get a grace
//! period, then they are cancelled and their accounting is waited for, and the store is closed last.
use super::{
    cleanup_fault, cleanup_timeout, closed_fault, Lifecycle, LifecycleModel, LifecycleStep,
};
use crate::contracts::configuration::Config;
use crate::fault::{EngineError, EngineErrorModel};
use vstd::prelude::*;

verus! {

/// What a shutdown waits for.
pub enum ShutdownPhase {
    Ready,
    Draining,
    Cancelling,
    Cleaning,
    Closing,
    Over,
}

/// What a `ShutdownPhase` holds.
#[verifier::ext_equal]
pub ghost enum ShutdownPhaseModel {
    Ready,
    Draining,
    Cancelling,
    Cleaning,
    Closing,
    Over,
}

impl DeepView for ShutdownPhase {
    type V = ShutdownPhaseModel;

    open spec fn deep_view(&self) -> ShutdownPhaseModel {
        match self {
            ShutdownPhase::Ready => ShutdownPhaseModel::Ready,
            ShutdownPhase::Draining => ShutdownPhaseModel::Draining,
            ShutdownPhase::Cancelling => ShutdownPhaseModel::Cancelling,
            ShutdownPhase::Cleaning => ShutdownPhaseModel::Cleaning,
            ShutdownPhase::Closing => ShutdownPhaseModel::Closing,
            ShutdownPhase::Over => ShutdownPhaseModel::Over,
        }
    }
}

/// What happened.
pub enum ShutdownEvent {
    /// The shutdown begins, or what was asked for is done.
    Done,
    /// No run is left.
    Drained,
    /// The time for runs to end is over.
    TimedOut,
    /// What was asked for could not be done.
    Broken { error: EngineError },
}

/// What a `ShutdownEvent` holds.
#[verifier::ext_equal]
pub ghost enum ShutdownEventModel {
    Done,
    Drained,
    TimedOut,
    Broken { error: EngineErrorModel },
}

impl DeepView for ShutdownEvent {
    type V = ShutdownEventModel;

    open spec fn deep_view(&self) -> ShutdownEventModel {
        match self {
            ShutdownEvent::Done => ShutdownEventModel::Done,
            ShutdownEvent::Drained => ShutdownEventModel::Drained,
            ShutdownEvent::TimedOut => ShutdownEventModel::TimedOut,
            ShutdownEvent::Broken { error } => ShutdownEventModel::Broken {
                error: error.deep_view(),
            },
        }
    }
}

/// What to do next.
pub enum ShutdownAction {
    /// Wait for the runs to end.
    Drain { timeout_ms: u64 },
    /// Cancel these runs.
    Cancel { runs: Vec<String> },
    CloseStore,
    /// Leave, with an error where there is one.
    Return { failed: Option<EngineError> },
    /// Nothing: what happened is not what the shutdown waits for.
    Wait,
}

/// What a `ShutdownAction` holds.
#[verifier::ext_equal]
pub ghost enum ShutdownActionModel {
    Drain { timeout_ms: u64 },
    Cancel { runs: Set<Seq<char>> },
    CloseStore,
    Return { failed: Option<EngineErrorModel> },
    Wait,
}

impl DeepView for ShutdownAction {
    type V = ShutdownActionModel;

    open spec fn deep_view(&self) -> ShutdownActionModel {
        match self {
            ShutdownAction::Drain { timeout_ms } => ShutdownActionModel::Drain {
                timeout_ms: timeout_ms.deep_view(),
            },
            ShutdownAction::Cancel { runs } => ShutdownActionModel::Cancel {
                runs: runs.deep_view().to_set(),
            },
            ShutdownAction::CloseStore => ShutdownActionModel::CloseStore,
            ShutdownAction::Return { failed } => ShutdownActionModel::Return {
                failed: failed.deep_view(),
            },
            ShutdownAction::Wait => ShutdownActionModel::Wait,
        }
    }
}

/// A shutdown.
pub struct Shutdown {
    phase: ShutdownPhase,
}

impl DeepView for Shutdown {
    type V = ShutdownPhaseModel;

    closed spec fn deep_view(&self) -> ShutdownPhaseModel {
        self.phase.deep_view()
    }
}

/// What comes of a step: the shutdown, the lifecycle, and what to do.
#[verifier::ext_equal]
pub ghost struct ShutdownStep {
    pub phase: ShutdownPhaseModel,
    pub lifecycle: LifecycleModel,
    pub action: ShutdownActionModel,
}

impl ShutdownPhaseModel {
    /// What comes of an event, with the two times that runs get.
    pub open spec fn after(
        self,
        lifecycle: LifecycleModel,
        grace: u64,
        cleanup: u64,
        event: ShutdownEventModel,
    ) -> ShutdownStep {
        let to = |phase: ShutdownPhaseModel, action: ShutdownActionModel|
            ShutdownStep { phase, lifecycle, action };
        match (self, event) {
            (ShutdownPhaseModel::Ready, ShutdownEventModel::Done) => {
                let stopped = lifecycle.after(LifecycleStep::BeginClose);
                if lifecycle.closed {
                    ShutdownStep {
                        phase: ShutdownPhaseModel::Over,
                        lifecycle: stopped,
                        action: ShutdownActionModel::Return { failed: None },
                    }
                } else {
                    ShutdownStep {
                        phase: ShutdownPhaseModel::Draining,
                        lifecycle: stopped,
                        action: ShutdownActionModel::Drain { timeout_ms: grace },
                    }
                }
            },
            (ShutdownPhaseModel::Draining, ShutdownEventModel::TimedOut) => to(
                ShutdownPhaseModel::Cancelling,
                ShutdownActionModel::Cancel { runs: lifecycle.active },
            ),
            (ShutdownPhaseModel::Cancelling, ShutdownEventModel::Done) => to(
                ShutdownPhaseModel::Cleaning,
                ShutdownActionModel::Drain { timeout_ms: cleanup },
            ),
            (ShutdownPhaseModel::Cleaning, ShutdownEventModel::TimedOut) => to(
                ShutdownPhaseModel::Over,
                ShutdownActionModel::Return { failed: Some(cleanup_fault()) },
            ),
            (
                ShutdownPhaseModel::Draining | ShutdownPhaseModel::Cleaning,
                ShutdownEventModel::Drained,
            ) => if lifecycle.active == Set::<Seq<char>>::empty() {
                to(ShutdownPhaseModel::Closing, ShutdownActionModel::CloseStore)
            } else {
                to(self, ShutdownActionModel::Wait)
            },
            (ShutdownPhaseModel::Closing, ShutdownEventModel::Done) => ShutdownStep {
                phase: ShutdownPhaseModel::Over,
                lifecycle: lifecycle.after(LifecycleStep::FinishClose),
                action: ShutdownActionModel::Return { failed: None },
            },
            (ShutdownPhaseModel::Closing, ShutdownEventModel::Broken { error }) => to(
                ShutdownPhaseModel::Over,
                ShutdownActionModel::Return { failed: Some(error) },
            ),
            _ => to(self, ShutdownActionModel::Wait),
        }
    }
}

impl Shutdown {
    /// A shutdown that has not begun.
    pub fn new() -> (r: Self)
        ensures
            r.deep_view() == ShutdownPhaseModel::Ready,
    {
        Shutdown { phase: ShutdownPhase::Ready }
    }

    /// Takes what happened, and tells what to do next.
    pub fn step(self, config: &Config, lifecycle: &mut Lifecycle, event: ShutdownEvent) -> (r: (
        Shutdown,
        ShutdownAction,
    ))
        ensures
            ({
                let after = self.deep_view().after(
                    old(lifecycle)@,
                    config.close_grace_ms,
                    config.cleanup_timeout_ms,
                    event.deep_view(),
                );
                &&& r.0.deep_view() == after.phase
                &&& r.1.deep_view() == after.action
                &&& final(lifecycle)@ == after.lifecycle
            }),
    {
        let (phase, action): (ShutdownPhase, ShutdownAction) = match (self.phase, event) {
            (ShutdownPhase::Ready, ShutdownEvent::Done) => if lifecycle.begin_close() {
                let timeout_ms: u64 = config.close_grace_ms;
                (ShutdownPhase::Draining, ShutdownAction::Drain { timeout_ms })
            } else {
                (ShutdownPhase::Over, ShutdownAction::Return { failed: None })
            },
            (ShutdownPhase::Draining, ShutdownEvent::TimedOut) => {
                let runs: Vec<String> = lifecycle.runs();
                assert(runs.deep_view().to_set() =~= lifecycle@.active);
                (ShutdownPhase::Cancelling, ShutdownAction::Cancel { runs })
            },
            (ShutdownPhase::Cancelling, ShutdownEvent::Done) => {
                let timeout_ms: u64 = config.cleanup_timeout_ms;
                (ShutdownPhase::Cleaning, ShutdownAction::Drain { timeout_ms })
            },
            (ShutdownPhase::Cleaning, ShutdownEvent::TimedOut) => (
                ShutdownPhase::Over,
                ShutdownAction::Return { failed: Some(cleanup_timeout()) },
            ),
            (ShutdownPhase::Draining, ShutdownEvent::Drained) => if lifecycle.is_drained() {
                (ShutdownPhase::Closing, ShutdownAction::CloseStore)
            } else {
                (ShutdownPhase::Draining, ShutdownAction::Wait)
            },
            (ShutdownPhase::Cleaning, ShutdownEvent::Drained) => if lifecycle.is_drained() {
                (ShutdownPhase::Closing, ShutdownAction::CloseStore)
            } else {
                (ShutdownPhase::Cleaning, ShutdownAction::Wait)
            },
            (ShutdownPhase::Closing, ShutdownEvent::Done) => {
                let _closed: bool = lifecycle.finish_close();
                (ShutdownPhase::Over, ShutdownAction::Return { failed: None })
            },
            (ShutdownPhase::Closing, ShutdownEvent::Broken { error }) => (
                ShutdownPhase::Over,
                ShutdownAction::Return { failed: Some(error) },
            ),
            (phase, _) => (phase, ShutdownAction::Wait),
        };
        (Shutdown { phase }, action)
    }
}

/// An engine with its runs and its store, and the shutdown that is under way, if any.
#[verifier::ext_equal]
pub ghost struct EngineModel {
    pub lifecycle: LifecycleModel,
    pub store_open: bool,
    /// How often the store was closed.
    pub closings: nat,
    pub phase: ShutdownPhaseModel,
    /// What the shutdown asked for last; nothing before the first.
    pub asked: Option<ShutdownActionModel>,
}

/// What can happen to an engine.
pub ghost enum EngineStep {
    /// A run asks to be admitted.
    Enter(Seq<char>),
    /// A run ends.
    Leave(Seq<char>),
    /// A shutdown is asked for. One waits for the one before it.
    Close,
    /// What the shutdown asked for came out like this.
    Answer(ShutdownEventModel),
}

impl EngineModel {
    /// An engine that was just opened.
    pub open spec fn opened() -> EngineModel {
        EngineModel {
            lifecycle: LifecycleModel { closing: false, closed: false, active: Set::empty() },
            store_open: true,
            closings: 0,
            phase: ShutdownPhaseModel::Ready,
            asked: None,
        }
    }

    /// A shutdown has ended well.
    pub open spec fn succeeded(self) -> bool {
        self.asked == Some(ShutdownActionModel::Return { failed: None })
    }

    /// A shutdown has ended with an error.
    pub open spec fn failed(self) -> bool {
        self.asked matches Some(ShutdownActionModel::Return { failed }) && failed is Some
    }

    /// What was asked for can have come out like this. Whether runs have really ended is not taken
    /// on trust.
    pub open spec fn can_answer(self, event: ShutdownEventModel) -> bool {
        match (self.asked, event) {
            (Some(ShutdownActionModel::Drain { .. }), ShutdownEventModel::Drained) => true,
            (Some(ShutdownActionModel::Drain { .. }), ShutdownEventModel::TimedOut) => true,
            (Some(ShutdownActionModel::Cancel { .. }), ShutdownEventModel::Done) => true,
            (Some(ShutdownActionModel::CloseStore), ShutdownEventModel::Done) => true,
            (Some(ShutdownActionModel::CloseStore), ShutdownEventModel::Broken { .. }) => true,
            _ => false,
        }
    }

    /// The engine after a step of the shutdown in a phase.
    pub open spec fn stepped(
        self,
        phase: ShutdownPhaseModel,
        grace: u64,
        cleanup: u64,
        event: ShutdownEventModel,
    ) -> EngineModel {
        let step = phase.after(self.lifecycle, grace, cleanup, event);
        EngineModel {
            lifecycle: step.lifecycle,
            phase: step.phase,
            asked: if step.action is Wait {
                self.asked
            } else {
                Some(step.action)
            },
            ..self
        }
    }

    /// The engine after a step, with the two times that runs get. What cannot happen changes
    /// nothing.
    pub open spec fn after(self, grace: u64, cleanup: u64, step: EngineStep) -> EngineModel {
        match step {
            EngineStep::Enter(run) => EngineModel {
                lifecycle: self.lifecycle.after(LifecycleStep::Enter(run)),
                ..self
            },
            EngineStep::Leave(run) => EngineModel {
                lifecycle: self.lifecycle.after(LifecycleStep::Leave(run)),
                ..self
            },
            EngineStep::Close => if self.asked is None || self.succeeded() || self.failed() {
                self.stepped(ShutdownPhaseModel::Ready, grace, cleanup, ShutdownEventModel::Done)
            } else {
                self
            },
            EngineStep::Answer(event) => if !self.can_answer(event) {
                self
            } else if self.asked == Some(ShutdownActionModel::CloseStore) && event is Done {
                (EngineModel { store_open: false, closings: self.closings + 1, ..self }).stepped(
                    self.phase,
                    grace,
                    cleanup,
                    event,
                )
            } else {
                self.stepped(self.phase, grace, cleanup, event)
            },
        }
    }

    /// The engine after the first `n` steps.
    pub open spec fn run(
        self,
        grace: u64,
        cleanup: u64,
        steps: Seq<EngineStep>,
        n: nat,
    ) -> EngineModel
        decreases n,
    {
        if n == 0 {
            self
        } else {
            self.run(grace, cleanup, steps, (n - 1) as nat).after(grace, cleanup, steps[n - 1])
        }
    }

    /// The engine after another shutdown in which the runs and the store end as they should.
    pub open spec fn retried(self, grace: u64, cleanup: u64) -> EngineModel {
        self.after(grace, cleanup, EngineStep::Close).after(
            grace,
            cleanup,
            EngineStep::Answer(ShutdownEventModel::Drained),
        ).after(grace, cleanup, EngineStep::Answer(ShutdownEventModel::Done))
    }

    /// Whether the engine was closed for good is known by its store, and what a shutdown asked for
    /// by its phase.
    spec fn kept(self) -> bool {
        let life = self.lifecycle;
        let idle = life.active == Set::<Seq<char>>::empty();
        let owned = life.closing && !life.closed && self.store_open;
        &&& life.valid()
        &&& self.store_open == !life.closed
        &&& self.closings == (if self.store_open { 0nat } else { 1nat })
        &&& match self.asked {
            None => self.phase is Ready,
            Some(ShutdownActionModel::Drain { .. }) => owned && (self.phase is Draining
                || self.phase is Cleaning),
            Some(ShutdownActionModel::Cancel { runs }) => owned && self.phase is Cancelling
                && life.active.subset_of(runs),
            Some(ShutdownActionModel::CloseStore) => owned && idle && self.phase is Closing,
            Some(ShutdownActionModel::Return { failed }) => self.phase is Over && (if failed is Some {
                owned
            } else {
                life.closed
            }),
            Some(ShutdownActionModel::Wait) => false,
        }
    }
}

proof fn lemma_kept_by_step(engine: EngineModel, grace: u64, cleanup: u64, step: EngineStep)
    requires
        engine.kept(),
    ensures
        engine.after(grace, cleanup, step).kept(),
        engine.lifecycle.closed ==> engine.after(grace, cleanup, step).lifecycle.closed,
{
    let next = engine.after(grace, cleanup, step);
    match step {
        EngineStep::Leave(run) => {
            if engine.lifecycle.active == Set::<Seq<char>>::empty() {
                assert(next.lifecycle.active =~= Set::empty());
            }
        },
        _ => {},
    }
}

proof fn lemma_kept(grace: u64, cleanup: u64, steps: Seq<EngineStep>, n: nat)
    ensures
        EngineModel::opened().run(grace, cleanup, steps, n).kept(),
    decreases n,
{
    if n > 0 {
        lemma_kept(grace, cleanup, steps, (n - 1) as nat);
        lemma_kept_by_step(
            EngineModel::opened().run(grace, cleanup, steps, (n - 1) as nat),
            grace,
            cleanup,
            steps[n - 1],
        );
    }
}

proof fn lemma_stays_closed(grace: u64, cleanup: u64, steps: Seq<EngineStep>, n: nat, later: nat)
    requires
        n <= later,
        EngineModel::opened().run(grace, cleanup, steps, n).lifecycle.closed,
    ensures
        EngineModel::opened().run(grace, cleanup, steps, later).lifecycle.closed,
    decreases later,
{
    if n < later {
        lemma_stays_closed(grace, cleanup, steps, n, (later - 1) as nat);
        lemma_kept(grace, cleanup, steps, (later - 1) as nat);
        lemma_kept_by_step(
            EngineModel::opened().run(grace, cleanup, steps, (later - 1) as nat),
            grace,
            cleanup,
            steps[later - 1],
        );
    }
}

/// Closing an engine, whatever runs and shutdowns there are and however they come out. The store is
/// closed only once no run is left. A shutdown that succeeded leaves no run and a closed store, and
/// later runs and reads are refused as closed; whatever follows, the store is not closed again, and
/// a further shutdown succeeds. A shutdown that failed, as at the end of the time for cleaning up,
/// leaves the store open and refuses runs and reads; once the runs have ended, trying again
/// succeeds. What is cancelled are registered runs, and no run that is left is spared.
pub proof fn lemma_close(
    grace: u64,
    cleanup: u64,
    steps: Seq<EngineStep>,
    n: nat,
    later: nat,
    run: Seq<char>,
    task_id: Seq<char>,
)
    requires
        n <= later,
    ensures
        ({
            let now = EngineModel::opened().run(grace, cleanup, steps, n);
            let then = EngineModel::opened().run(grace, cleanup, steps, later);
            let refused = EngineErrorModel { task_id: Some(task_id), ..closed_fault() };
            &&& now.asked == Some(ShutdownActionModel::CloseStore) ==> now.lifecycle.active
                == Set::<Seq<char>>::empty()
            &&& now.asked matches Some(ShutdownActionModel::Cancel { runs })
                ==> now.lifecycle.active.subset_of(runs)
            &&& now.succeeded() ==> {
                &&& now.lifecycle.active == Set::<Seq<char>>::empty()
                &&& !now.store_open && now.closings == 1
                &&& now.lifecycle.entry_fault(task_id) == Some(refused)
                &&& now.lifecycle.after(LifecycleStep::Enter(run)) == now.lifecycle
                &&& now.lifecycle.read_fault() == Some(closed_fault())
                &&& then.closings == 1 && !then.store_open
                &&& then.asked != Some(ShutdownActionModel::CloseStore)
                &&& !then.failed()
                &&& now.after(grace, cleanup, EngineStep::Close) == now
            }
            &&& now.failed() ==> {
                &&& now.store_open && now.closings == 0
                &&& now.lifecycle.entry_fault(task_id) == Some(refused)
                &&& now.lifecycle.after(LifecycleStep::Enter(run)) == now.lifecycle
                &&& now.lifecycle.read_fault() == Some(closed_fault())
                &&& now.lifecycle.active == Set::<Seq<char>>::empty() ==> now.retried(
                    grace,
                    cleanup,
                ).succeeded()
            }
        }),
{
    lemma_kept(grace, cleanup, steps, n);
    lemma_kept(grace, cleanup, steps, later);
    if EngineModel::opened().run(grace, cleanup, steps, n).succeeded() {
        lemma_stays_closed(grace, cleanup, steps, n, later);
    }
}

/// The steps of a shutdown: admission stops and runs get their grace; where they do not end, all
/// that are there are cancelled and get the time to clean up; where they still do not end, the
/// shutdown fails and the store stays owned. Once there is no run, the store is closed, and then
/// the engine is.
pub proof fn lemma_steps_of_a_shutdown(
    lifecycle: LifecycleModel,
    grace: u64,
    cleanup: u64,
    error: EngineErrorModel,
)
    ensures
        ({
            let begun = ShutdownPhaseModel::Ready.after(
                lifecycle,
                grace,
                cleanup,
                ShutdownEventModel::Done,
            );
            &&& begun.lifecycle.closing && begun.lifecycle.active == lifecycle.active
            &&& lifecycle.closed ==> begun.phase is Over && begun.action is Return
                && begun.action->Return_failed is None
            &&& !lifecycle.closed ==> begun.phase is Draining && begun.action is Drain
                && begun.action->Drain_timeout_ms == grace
        }),
        ({
            let late = ShutdownPhaseModel::Draining.after(
                lifecycle,
                grace,
                cleanup,
                ShutdownEventModel::TimedOut,
            );
            &&& late.phase is Cancelling && late.action is Cancel
            &&& late.action->Cancel_runs == lifecycle.active && late.lifecycle == lifecycle
        }),
        ({
            let cancelled = ShutdownPhaseModel::Cancelling.after(
                lifecycle,
                grace,
                cleanup,
                ShutdownEventModel::Done,
            );
            &&& cancelled.phase is Cleaning && cancelled.action is Drain
            &&& cancelled.action->Drain_timeout_ms == cleanup
        }),
        ({
            let stuck = ShutdownPhaseModel::Cleaning.after(
                lifecycle,
                grace,
                cleanup,
                ShutdownEventModel::TimedOut,
            );
            &&& stuck.phase is Over && stuck.action is Return && stuck.lifecycle == lifecycle
            &&& stuck.action->Return_failed is Some
            &&& stuck.action->Return_failed->0.kind == "cleanup_timeout"@
        }),
        ({
            let a = ShutdownPhaseModel::Draining.after(
                lifecycle,
                grace,
                cleanup,
                ShutdownEventModel::Drained,
            );
            let b = ShutdownPhaseModel::Cleaning.after(
                lifecycle,
                grace,
                cleanup,
                ShutdownEventModel::Drained,
            );
            let idle = forall|run: Seq<char>| !lifecycle.active.contains(run);
            &&& idle ==> a.action is CloseStore && b.action is CloseStore && a.phase is Closing
                && b.phase is Closing
            &&& !idle ==> a.action is Wait && b.action is Wait
        }),
        ({
            let closed = ShutdownPhaseModel::Closing.after(
                lifecycle,
                grace,
                cleanup,
                ShutdownEventModel::Done,
            );
            let broken = ShutdownPhaseModel::Closing.after(
                lifecycle,
                grace,
                cleanup,
                ShutdownEventModel::Broken { error },
            );
            &&& closed.action is Return && closed.action->Return_failed is None && closed.phase
                is Over
            &&& lifecycle.closing && (forall|run: Seq<char>| !lifecycle.active.contains(run))
                ==> closed.lifecycle.closed
            &&& broken.action is Return && broken.action->Return_failed == Some(error)
            &&& broken.lifecycle == lifecycle
        }),
{
    if forall|run: Seq<char>| !lifecycle.active.contains(run) {
        assert(lifecycle.active =~= Set::<Seq<char>>::empty());
    }
}

} // verus!
