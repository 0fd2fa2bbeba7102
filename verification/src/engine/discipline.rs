//! What holds of a node's work whatever happens to it.
use super::node::{NodeActionModel, NodeEventModel, NodeModel, NodePhaseModel, ToolTurnModel};
use super::tools::{batch_fault, call_valid, MAX_BATCH};
use vstd::prelude::*;

verus! {

impl NodeModel {
    /// The state after the first `n` events.
    pub open spec fn state_after(self, events: Seq<NodeEventModel>, n: nat) -> NodeModel
        decreases n,
    {
        if n == 0 {
            self
        } else {
            self.state_after(events, (n - 1) as nat).after(events[n - 1]).0
        }
    }

    /// What was done after the first `n` events.
    pub open spec fn actions_after(self, events: Seq<NodeEventModel>, n: nat) -> Seq<
        NodeActionModel,
    >
        decreases n,
    {
        if n == 0 {
            Seq::empty()
        } else {
            self.actions_after(events, (n - 1) as nat).push(
                self.state_after(events, (n - 1) as nat).after(events[n - 1]).1,
            )
        }
    }
}

/// How a node stands with the ledger: nothing is set aside, an amount is set aside for a call,
/// the call was made, or the order was not kept.
pub ghost enum Meter {
    Free,
    Held(Seq<char>),
    Out(Seq<char>),
    Violated,
}

impl Meter {
    /// The state after an action. An amount is set aside for one call at a time, only that call
    /// is made, once, and it is settled before anything else; nothing is finished before.
    pub open spec fn after(self, action: NodeActionModel) -> Meter {
        match action {
            NodeActionModel::Reserve { attempt, .. } => if self == Meter::Free {
                Meter::Held(attempt)
            } else {
                Meter::Violated
            },
            NodeActionModel::CallModel { request, .. } => if self == Meter::Held(
                request.attempt_id,
            ) {
                Meter::Out(request.attempt_id)
            } else {
                Meter::Violated
            },
            NodeActionModel::CallTool { tool, .. } => if self == Meter::Held(tool.execution_id) {
                Meter::Out(tool.execution_id)
            } else {
                Meter::Violated
            },
            NodeActionModel::Settle { attempt, .. } => if self == Meter::Held(attempt) || self
                == Meter::Out(attempt) {
                Meter::Free
            } else {
                Meter::Violated
            },
            NodeActionModel::Finish { .. } => if self == Meter::Free {
                Meter::Free
            } else {
                Meter::Violated
            },
            _ => self,
        }
    }

    /// The state after the first `n` actions.
    pub open spec fn run(actions: Seq<NodeActionModel>, n: nat) -> Meter
        decreases n,
    {
        if n == 0 {
            Meter::Free
        } else {
            Meter::run(actions, (n - 1) as nat).after(actions[n - 1])
        }
    }
}

/// The ledger stands as the phase says.
spec fn in_step(phase: NodePhaseModel, meter: Meter) -> bool {
    match phase {
        NodePhaseModel::Reserving { call } => meter == Meter::Held(call.attempt),
        NodePhaseModel::Waiting { call } => meter == Meter::Out(call.attempt),
        NodePhaseModel::ToolReserving { request, .. } => meter == Meter::Held(
            request.execution_id,
        ),
        NodePhaseModel::ToolWaiting { request, .. } => meter == Meter::Out(request.execution_id),
        NodePhaseModel::Over => meter != Meter::Violated,
        _ => meter == Meter::Free,
    }
}

proof fn lemma_step_metered(node: NodeModel, event: NodeEventModel, meter: Meter)
    requires
        in_step(node.phase, meter),
    ensures
        in_step(node.after(event).0.phase, meter.after(node.after(event).1)),
{
}

proof fn lemma_run_prefix(actions: Seq<NodeActionModel>, action: NodeActionModel, n: nat)
    requires
        n <= actions.len(),
    ensures
        Meter::run(actions.push(action), n) == Meter::run(actions, n),
    decreases n,
{
    if n > 0 {
        lemma_run_prefix(actions, action, (n - 1) as nat);
    }
}

proof fn lemma_metered(node: NodeModel, events: Seq<NodeEventModel>, n: nat)
    requires
        node.phase is Ready,
    ensures
        node.actions_after(events, n).len() == n,
        in_step(
            node.state_after(events, n).phase,
            Meter::run(node.actions_after(events, n), n),
        ),
    decreases n,
{
    if n > 0 {
        let k = (n - 1) as nat;
        lemma_metered(node, events, k);
        let state = node.state_after(events, k);
        let actions = node.actions_after(events, k);
        let action = state.after(events[n - 1]).1;
        lemma_step_metered(state, events[n - 1], Meter::run(actions, k));
        lemma_run_prefix(actions, action, k);
        assert(actions.push(action)[n - 1] == action);
    }
}

/// Every call is paid for in order, whatever happens: each model or tool call is made at most
/// once, after an amount was set aside for it; it is settled before an amount is set aside for
/// another; and a node finishes only when nothing is left to settle.
pub proof fn lemma_every_call_metered(node: NodeModel, events: Seq<NodeEventModel>, n: nat)
    requires
        node.phase is Ready,
    ensures
        Meter::run(node.actions_after(events, n), n) != Meter::Violated,
{
    lemma_metered(node, events, n);
}

/// The tool call that an action makes has that name.
pub open spec fn calls_tool(action: NodeActionModel, id: Seq<char>) -> bool {
    action matches NodeActionModel::CallTool { tool, .. } && tool.call.id == id
}

/// A turn's calls from `from` on were not made, all of them are marked as made, and no two have
/// one name.
spec fn turn_kept(
    node: NodeModel,
    turn: ToolTurnModel,
    from: int,
    actions: Seq<NodeActionModel>,
) -> bool {
    &&& turn.next < turn.calls.len() <= MAX_BATCH
    &&& forall|k: int|
        0 <= k < turn.calls.len() ==> node.work.made.contains((#[trigger] turn.calls[k]).id)
    &&& forall|j: int, k: int|
        0 <= j < k < turn.calls.len() ==> (#[trigger] turn.calls[j]).id != (
        #[trigger] turn.calls[k]).id
    &&& forall|i: int, k: int|
        0 <= i < actions.len() && from <= k < turn.calls.len() ==> !calls_tool(
            #[trigger] actions[i],
            (#[trigger] turn.calls[k]).id,
        )
}

/// No tool call was made twice, and those that are due were not made.
spec fn made_once(node: NodeModel, actions: Seq<NodeActionModel>) -> bool {
    &&& forall|i: int|
        0 <= i < actions.len() ==> ((#[trigger] actions[i]) matches NodeActionModel::CallTool {
            tool,
            ..
        } ==> node.work.made.contains(tool.call.id))
    &&& forall|i: int, j: int, id: Seq<char>|
        0 <= i < j < actions.len() && #[trigger] calls_tool(actions[i], id) ==> !#[trigger] calls_tool(
            actions[j],
            id,
        )
    &&& match node.phase {
        NodePhaseModel::ToolAnnouncing { turn, request } => turn_kept(
            node,
            turn,
            turn.next as int,
            actions,
        ) && request.call == turn.calls[turn.next as int],
        NodePhaseModel::ToolReserving { turn, request } => turn_kept(
            node,
            turn,
            turn.next as int,
            actions,
        ) && request.call == turn.calls[turn.next as int],
        NodePhaseModel::ToolWaiting { turn, .. } => turn_kept(node, turn, turn.next + 1, actions),
        NodePhaseModel::ToolSettling { turn, .. } => turn_kept(node, turn, turn.next + 1, actions),
        NodePhaseModel::ToolReporting { turn, .. } => turn_kept(node, turn, turn.next + 1, actions),
        _ => true,
    }
}

proof fn lemma_step_made_once(
    node: NodeModel,
    event: NodeEventModel,
    actions: Seq<NodeActionModel>,
)
    requires
        made_once(node, actions),
    ensures
        made_once(node.after(event).0, actions.push(node.after(event).1)),
{
    let next = node.after(event).0;
    let action = node.after(event).1;
    let all = actions.push(action);
    match (node.phase, event) {
        (NodePhaseModel::Settling { call, result }, NodeEventModel::Done { fresh, .. }) => {
            match result {
                Ok(output) => {
                    let calls = output.tool_calls;
                    if batch_fault(calls, node.work.tools, node.work.made) is None {
                        assert forall|i: int| 0 <= i < calls.len() implies #[trigger] call_valid(
                            calls,
                            node.work.tools,
                            node.work.made,
                            i,
                        ) by {}
                        assert forall|j: int, k: int| 0 <= j < k < calls.len() implies (
                        #[trigger] calls[j]).id != (#[trigger] calls[k]).id by {
                            assert(call_valid(calls, node.work.tools, node.work.made, k));
                        }
                        assert forall|i: int, k: int|
                            0 <= i < actions.len() && 0 <= k < calls.len() implies !calls_tool(
                            #[trigger] actions[i],
                            (#[trigger] calls[k]).id,
                        ) by {
                            assert(call_valid(calls, node.work.tools, node.work.made, k));
                        }
                        let turn = ToolTurnModel {
                            calls,
                            next: 0,
                            model_attempt: call.attempt,
                        };
                        if next.phase is ToolAnnouncing {
                            assert(next.phase->ToolAnnouncing_turn == turn);
                            assert forall|i: int, k: int|
                                0 <= i < all.len() && 0 <= k < calls.len() implies !calls_tool(
                                #[trigger] all[i],
                                (#[trigger] calls[k]).id,
                            ) by {
                                if i < actions.len() {
                                    assert(!calls_tool(actions[i], calls[k].id));
                                }
                            }
                            assert forall|k: int| 0 <= k < calls.len() implies next.work.made.contains(
                                (#[trigger] calls[k]).id,
                            ) by {}
                            assert(turn_kept(next, turn, 0, all));
                        }
                    }
                },
                Err(_) => {},
            }
        },
        (NodePhaseModel::ToolReserving { turn, request }, NodeEventModel::Done { .. }) => {
            if action is CallTool {
                let id = request.call.id;
                assert(turn.calls[turn.next as int].id == id);
                assert forall|i: int, j: int, t: Seq<char>|
                    0 <= i < j < all.len() && #[trigger] calls_tool(all[i], t) implies !#[trigger]
                calls_tool(all[j], t) by {
                    if j == actions.len() {
                        assert(calls_tool(actions[i], t));
                    } else {
                        assert(calls_tool(actions[i], t));
                        assert(!calls_tool(actions[j], t));
                    }
                }
                assert(turn_kept(next, turn, turn.next + 1, all));
            }
        },
        (NodePhaseModel::ToolReporting { turn, .. }, NodeEventModel::Done { .. }) => {
            if next.phase is ToolAnnouncing {
                let moved = next.phase->ToolAnnouncing_turn;
                assert(moved.calls == turn.calls && moved.next == turn.next + 1);
                assert forall|i: int, k: int|
                    0 <= i < all.len() && turn.next + 1 <= k < turn.calls.len() implies !calls_tool(
                    #[trigger] all[i],
                    (#[trigger] turn.calls[k]).id,
                ) by {
                    if i < actions.len() {
                        assert(!calls_tool(actions[i], turn.calls[k].id));
                    }
                }
                assert(turn_kept(next, moved, moved.next as int, all));
            }
        },
        _ => {},
    }
    assert forall|i: int, j: int, t: Seq<char>|
        0 <= i < j < all.len() && #[trigger] calls_tool(all[i], t) implies !#[trigger] calls_tool(
        all[j],
        t,
    ) by {
        if j < actions.len() {
            assert(calls_tool(actions[i], t));
            assert(!calls_tool(actions[j], t));
        }
    }
}

/// No tool call is executed twice, whatever happens: the calls that a node makes have different
/// names.
pub proof fn lemma_tool_calls_made_once(
    node: NodeModel,
    events: Seq<NodeEventModel>,
    n: nat,
    i: int,
    j: int,
    id: Seq<char>,
)
    requires
        node.phase is Ready,
        0 <= i < j < n,
        calls_tool(node.actions_after(events, n)[i], id),
    ensures
        !calls_tool(node.actions_after(events, n)[j], id),
{
    lemma_made_once(node, events, n);
    lemma_metered(node, events, n);
}

proof fn lemma_made_once(node: NodeModel, events: Seq<NodeEventModel>, n: nat)
    requires
        node.phase is Ready,
    ensures
        made_once(node.state_after(events, n), node.actions_after(events, n)),
    decreases n,
{
    if n > 0 {
        lemma_made_once(node, events, (n - 1) as nat);
        lemma_step_made_once(
            node.state_after(events, (n - 1) as nat),
            events[n - 1],
            node.actions_after(events, (n - 1) as nat),
        );
    }
}

} // verus!
