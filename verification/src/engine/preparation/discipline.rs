//! What holds of a preparation whatever happens to it.
use super::super::planning::recoverable;
use super::{
    PreparationActionModel, PreparationEventModel, PreparationModel, PreparationPhaseModel,
};
use vstd::prelude::*;

verus! {

impl PreparationModel {
    /// The state after the first `n` events.
    pub open spec fn state_after(self, events: Seq<PreparationEventModel>, n: nat) -> PreparationModel
        decreases n,
    {
        if n == 0 {
            self
        } else {
            self.state_after(events, (n - 1) as nat).after(events[n - 1]).0
        }
    }

    /// What is done after the event at `k`.
    pub open spec fn action_at(self, events: Seq<PreparationEventModel>, k: int) -> PreparationActionModel {
        self.state_after(events, k as nat).after(events[k]).1
    }
}

/// How a preparation stands with the ledger: nothing is set aside, an amount is set aside for a
/// call, the call was made, or the order was not kept.
pub ghost enum Purse {
    Free,
    Held(Seq<char>),
    Out(Seq<char>),
    Violated,
}

impl Purse {
    /// The state after an action. An amount is set aside for one call at a time, only that call
    /// is made, once, and it is settled before anything else; the task is handed out only when
    /// nothing is left to settle. A decision belongs to the amount that is held.
    pub open spec fn after(self, action: PreparationActionModel) -> Purse {
        match action {
            PreparationActionModel::Reserve { attempt, .. } => if self == Purse::Free {
                Purse::Held(attempt)
            } else {
                Purse::Violated
            },
            PreparationActionModel::CallModel { request, .. } => if self == Purse::Held(
                request.attempt_id,
            ) {
                Purse::Out(request.attempt_id)
            } else {
                Purse::Violated
            },
            PreparationActionModel::Decide { .. } => match self {
                Purse::Held(attempt) => Purse::Out(attempt),
                _ => Purse::Violated,
            },
            PreparationActionModel::Settle { attempt, .. } => if self == Purse::Held(attempt)
                || self == Purse::Out(attempt) {
                Purse::Free
            } else {
                Purse::Violated
            },
            PreparationActionModel::Finish { .. } => if self == Purse::Free {
                Purse::Free
            } else {
                Purse::Violated
            },
            _ => self,
        }
    }

    /// The state after what a preparation did on the first `n` events.
    pub open spec fn run(
        start: PreparationModel,
        events: Seq<PreparationEventModel>,
        n: nat,
    ) -> Purse
        decreases n,
    {
        if n == 0 {
            Purse::Free
        } else {
            Purse::run(start, events, (n - 1) as nat).after(start.action_at(events, n - 1))
        }
    }
}

/// The ledger stands as the phase says.
spec fn in_step(phase: PreparationPhaseModel, purse: Purse) -> bool {
    match phase {
        PreparationPhaseModel::Reserving { call, .. } => purse == Purse::Held(call.attempt),
        PreparationPhaseModel::Waiting { call, .. } => purse == Purse::Out(call.attempt),
        PreparationPhaseModel::Holding { attempt, .. } => purse == Purse::Held(attempt),
        PreparationPhaseModel::Assessing { attempt, .. } => purse == Purse::Out(attempt),
        PreparationPhaseModel::Over => purse != Purse::Violated,
        _ => purse == Purse::Free,
    }
}

/// How far a preparation has come.
spec fn progress(phase: PreparationPhaseModel) -> int {
    match phase {
        PreparationPhaseModel::Ready => 0,
        PreparationPhaseModel::Opening => 1,
        PreparationPhaseModel::Marking { .. } => 2,
        PreparationPhaseModel::Announcing { .. } => 3,
        PreparationPhaseModel::Asking { .. } => 4,
        PreparationPhaseModel::Selecting { .. } => 5,
        PreparationPhaseModel::Starting { .. } => 6,
        PreparationPhaseModel::Reserving { .. } => 7,
        PreparationPhaseModel::Waiting { .. } => 8,
        PreparationPhaseModel::Refusing { .. } => 9,
        PreparationPhaseModel::Settling { .. } => 10,
        PreparationPhaseModel::Completing { .. } => 11,
        PreparationPhaseModel::Measuring { .. } => 12,
        PreparationPhaseModel::Failing { .. } => 13,
        PreparationPhaseModel::Recounting { .. } => 14,
        PreparationPhaseModel::Telling { .. } => 15,
        PreparationPhaseModel::Falling { .. } => 16,
        PreparationPhaseModel::Checking { .. } => 17,
        PreparationPhaseModel::Deciding { .. } => 18,
        PreparationPhaseModel::Holding { .. } => 19,
        PreparationPhaseModel::Assessing { .. } => 20,
        PreparationPhaseModel::Concluding { .. } => 21,
        PreparationPhaseModel::Capturing { .. } => 22,
        PreparationPhaseModel::Saving { .. } => 23,
        PreparationPhaseModel::Reporting { .. } => 24,
        PreparationPhaseModel::Closing { .. } => 25,
        PreparationPhaseModel::Ending { .. } => 26,
        PreparationPhaseModel::Over => 27,
    }
}

/// The failure that a fallback would follow may be followed by one.
spec fn excusable(state: PreparationModel) -> bool {
    match state.phase {
        PreparationPhaseModel::Failing { findings, error } => findings.error == Some(error),
        PreparationPhaseModel::Recounting { findings, error } => findings.error == Some(error)
            && recoverable(error.kind),
        PreparationPhaseModel::Telling { findings, error } => findings.error == Some(error)
            && recoverable(error.kind),
        PreparationPhaseModel::Falling { findings, .. } => {
            &&& findings.error is Some
            &&& recoverable(findings.error->0.kind)
            &&& findings.fallback is Some
            &&& findings.fallback == state.submission.planning.fallback
        },
        _ => true,
    }
}

/// A step goes forward, calls a planner only on the way to waiting for it, and asks for a
/// decision only on the way to waiting for that.
spec fn forward(before: PreparationModel, after: (PreparationModel, PreparationActionModel)) -> bool {
    let action = after.1;
    &&& action is Wait ==> after.0 == before
    &&& action !is Wait ==> progress(before.phase) < progress(after.0.phase)
    &&& action is CallModel ==> after.0.phase is Waiting
    &&& action is Decide ==> after.0.phase is Assessing
}

spec fn kept(
    before: PreparationModel,
    after: (PreparationModel, PreparationActionModel),
    purse: Purse,
) -> bool {
    &&& forward(before, after)
    &&& in_step(after.0.phase, purse.after(after.1))
    &&& excusable(after.0)
    &&& after.0.submission == before.submission
}

proof fn lemma_done(state: PreparationModel, cancelled: bool, now: u64, purse: Purse)
    requires
        in_step(state.phase, purse),
        excusable(state),
    ensures
        kept(state, state.after_done(cancelled, now), purse),
{
    reveal(PreparationModel::after_done);
    reveal(PreparationModel::announces);
    reveal(PreparationModel::asks);
    reveal(PreparationModel::reserves);
    reveal(PreparationModel::dispatches);
    reveal(PreparationModel::proposes);
    reveal(PreparationModel::plans);
    reveal(PreparationModel::stumbles);
    reveal(PreparationModel::falls_back);
    reveal(PreparationModel::checks);
    reveal(PreparationModel::decides);
    reveal(PreparationModel::assesses);
    reveal(PreparationModel::reports);
    reveal(PreparationModel::ends);
}

proof fn lemma_other(state: PreparationModel, event: PreparationEventModel, purse: Purse)
    requires
        in_step(state.phase, purse),
        excusable(state),
        event !is Done,
    ensures
        kept(state, state.after(event), purse),
{
    reveal(PreparationModel::after_read);
    reveal(PreparationModel::after_measured);
    reveal(PreparationModel::after_routed);
    reveal(PreparationModel::after_unrouted);
    reveal(PreparationModel::after_replied);
    reveal(PreparationModel::after_assessed);
    reveal(PreparationModel::after_captured);
    reveal(PreparationModel::opens);
    reveal(PreparationModel::holds);
    reveal(PreparationModel::stumbles);
    reveal(PreparationModel::checks);
    reveal(PreparationModel::assesses);
    reveal(PreparationModel::settles_decision);
}

proof fn lemma_kept(start: PreparationModel, events: Seq<PreparationEventModel>, n: nat)
    requires
        start.phase is Ready,
    ensures
        in_step(start.state_after(events, n).phase, Purse::run(start, events, n)),
        excusable(start.state_after(events, n)),
        start.state_after(events, n).submission == start.submission,
    decreases n,
{
    if n > 0 {
        lemma_kept(start, events, (n - 1) as nat);
        lemma_next(start, events, (n - 1) as nat);
    }
}

proof fn lemma_next(start: PreparationModel, events: Seq<PreparationEventModel>, k: nat)
    requires
        in_step(start.state_after(events, k).phase, Purse::run(start, events, k)),
        excusable(start.state_after(events, k)),
    ensures
        kept(
            start.state_after(events, k),
            start.state_after(events, k).after(events[k as int]),
            Purse::run(start, events, k),
        ),
{
    let state = start.state_after(events, k);
    let purse = Purse::run(start, events, k);
    match events[k as int] {
        PreparationEventModel::Done { cancelled, now } => {
            if !(state.phase is Over) {
                lemma_done(state, cancelled, now, purse);
            }
        },
        event => {
            lemma_other(state, event, purse);
        },
    }
}

proof fn lemma_ahead(start: PreparationModel, events: Seq<PreparationEventModel>, i: nat, j: nat)
    requires
        start.phase is Ready,
        i <= j,
    ensures
        progress(start.state_after(events, i).phase) <= progress(
            start.state_after(events, j).phase,
        ),
    decreases j - i,
{
    if i < j {
        lemma_ahead(start, events, i, (j - 1) as nat);
        lemma_kept(start, events, (j - 1) as nat);
        lemma_next(start, events, (j - 1) as nat);
    }
}

/// Whatever happens, planning and deciding are paid for in order: each call is made after an
/// amount was set aside for it, is settled before an amount is set aside for another, and no
/// task is handed out before everything is settled.
pub proof fn lemma_preparation_metered(
    start: PreparationModel,
    events: Seq<PreparationEventModel>,
    n: nat,
)
    requires
        start.phase is Ready,
    ensures
        Purse::run(start, events, n) != Purse::Violated,
{
    lemma_kept(start, events, n);
}

/// Whatever happens, a planner is called at most once for a submission.
pub proof fn lemma_planner_called_once(
    start: PreparationModel,
    events: Seq<PreparationEventModel>,
    i: int,
    j: int,
)
    requires
        start.phase is Ready,
        0 <= i < j,
        start.action_at(events, i) is CallModel,
    ensures
        !(start.action_at(events, j) is CallModel),
{
    lemma_kept(start, events, i as nat);
    lemma_next(start, events, i as nat);
    lemma_ahead(start, events, (i + 1) as nat, j as nat);
    lemma_kept(start, events, j as nat);
    lemma_next(start, events, j as nat);
}

/// Whatever happens, a decision is asked for at most once for a submission.
pub proof fn lemma_decided_once(
    start: PreparationModel,
    events: Seq<PreparationEventModel>,
    i: int,
    j: int,
)
    requires
        start.phase is Ready,
        0 <= i < j,
        start.action_at(events, i) is Decide,
    ensures
        !(start.action_at(events, j) is Decide),
{
    lemma_kept(start, events, i as nat);
    lemma_next(start, events, i as nat);
    lemma_ahead(start, events, (i + 1) as nat, j as nat);
    lemma_kept(start, events, j as nat);
    lemma_next(start, events, j as nat);
}

/// Whatever happens, the plan of a fallback is taken only where the host gave one, and only
/// after a failure of planning that allows for it: never after a cancellation, the end of the
/// task's time, an exhausted budget or a failure of the store.
pub proof fn lemma_fallback_only_when_allowed(
    start: PreparationModel,
    events: Seq<PreparationEventModel>,
    n: nat,
)
    requires
        start.phase is Ready,
        start.state_after(events, n).phase is Falling,
    ensures
        start.submission.planning.fallback is Some,
        start.state_after(events, n).phase->Falling_findings.error is Some,
        recoverable(start.state_after(events, n).phase->Falling_findings.error->0.kind),
{
    lemma_kept(start, events, n);
}

} // verus!
