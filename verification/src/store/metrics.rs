//! Aggregate statistics; ledger costs remain authoritative.
use crate::binary64::Binary64;
use crate::contracts::feedback::{
    CallStatistics, CallStatisticsModel, TaskStatistics, TaskStatisticsModel,
};
use crate::fault::{failure, EngineError};
use crate::json::{
    as_count, as_text, is_object, is_text, member, seen, Json, JsonModel, NumberModel,
};
use crate::model::Duplicate;
use crate::text::{same_text, text_less, text_lt};
use vstd::prelude::*;

verus! {

/// How many tasks are in a status.
#[derive(Debug)]
pub struct StatusCount {
    pub status: String,
    pub count: u64,
}

/// What a `StatusCount` holds.
#[verifier::ext_equal]
pub ghost struct StatusCountModel {
    pub status: Seq<char>,
    pub count: u64,
}

impl DeepView for StatusCount {
    type V = StatusCountModel;

    open spec fn deep_view(&self) -> StatusCountModel {
        StatusCountModel {
            status: self.status.deep_view(),
            count: self.count.deep_view(),
        }
    }
}

impl Duplicate for StatusCount {
    fn duplicate(&self) -> (r: Self) {
        StatusCount {
            status: self.status.duplicate(),
            count: self.count.duplicate(),
        }
    }
}

impl Clone for StatusCount {
    fn clone(&self) -> (r: Self)
        ensures
            r.deep_view() == self.deep_view(),
    {
        self.duplicate()
    }
}

/// What is saved of a call: its metadata and outcome, its cost where known, the amount set aside
/// for it, and the configuration it was made under.
#[derive(Debug)]
pub struct CallRow {
    pub metadata: Json,
    pub outcome: Json,
    pub cost: Option<u64>,
    pub amount: u64,
    pub config_hash: String,
}

/// What a `CallRow` holds.
#[verifier::ext_equal]
pub ghost struct CallRowModel {
    pub metadata: JsonModel,
    pub outcome: JsonModel,
    pub cost: Option<u64>,
    pub amount: u64,
    pub config_hash: Seq<char>,
}

impl DeepView for CallRow {
    type V = CallRowModel;

    open spec fn deep_view(&self) -> CallRowModel {
        CallRowModel {
            metadata: self.metadata.deep_view(),
            outcome: self.outcome.deep_view(),
            cost: self.cost.deep_view(),
            amount: self.amount.deep_view(),
            config_hash: self.config_hash.deep_view(),
        }
    }
}

impl Duplicate for CallRow {
    fn duplicate(&self) -> (r: Self) {
        CallRow {
            metadata: self.metadata.duplicate(),
            outcome: self.outcome.duplicate(),
            cost: self.cost.duplicate(),
            amount: self.amount.duplicate(),
            config_hash: self.config_hash.duplicate(),
        }
    }
}

impl Clone for CallRow {
    fn clone(&self) -> (r: Self)
        ensures
            r.deep_view() == self.deep_view(),
    {
        self.duplicate()
    }
}

/// What calls are grouped by.
#[derive(Debug)]
pub struct CallKey {
    pub attempt_kind: String,
    pub model_id: String,
    pub model_version: String,
    pub config_hash: String,
    pub node: String,
    pub tool_name: Option<String>,
}

/// What a `CallKey` holds.
#[verifier::ext_equal]
pub ghost struct CallKeyModel {
    pub attempt_kind: Seq<char>,
    pub model_id: Seq<char>,
    pub model_version: Seq<char>,
    pub config_hash: Seq<char>,
    pub node: Seq<char>,
    pub tool_name: Option<Seq<char>>,
}

impl DeepView for CallKey {
    type V = CallKeyModel;

    open spec fn deep_view(&self) -> CallKeyModel {
        CallKeyModel {
            attempt_kind: self.attempt_kind.deep_view(),
            model_id: self.model_id.deep_view(),
            model_version: self.model_version.deep_view(),
            config_hash: self.config_hash.deep_view(),
            node: self.node.deep_view(),
            tool_name: self.tool_name.deep_view(),
        }
    }
}

impl Duplicate for CallKey {
    fn duplicate(&self) -> (r: Self) {
        CallKey {
            attempt_kind: self.attempt_kind.duplicate(),
            model_id: self.model_id.duplicate(),
            model_version: self.model_version.duplicate(),
            config_hash: self.config_hash.duplicate(),
            node: self.node.duplicate(),
            tool_name: self.tool_name.duplicate(),
        }
    }
}

impl Clone for CallKey {
    fn clone(&self) -> (r: Self)
        ensures
            r.deep_view() == self.deep_view(),
    {
        self.duplicate()
    }
}

/// Calls of one key, with the sum of their latencies.
#[derive(Debug)]
pub struct CallGroup {
    pub key: CallKey,
    pub statistics: CallStatistics,
    pub latency_total: u128,
}

/// What a `CallGroup` holds.
#[verifier::ext_equal]
pub ghost struct CallGroupModel {
    pub key: CallKeyModel,
    pub statistics: CallStatisticsModel,
    pub latency_total: u128,
}

impl DeepView for CallGroup {
    type V = CallGroupModel;

    open spec fn deep_view(&self) -> CallGroupModel {
        CallGroupModel {
            key: self.key.deep_view(),
            statistics: self.statistics.deep_view(),
            latency_total: self.latency_total.deep_view(),
        }
    }
}

impl Duplicate for CallGroup {
    fn duplicate(&self) -> (r: Self) {
        CallGroup {
            key: self.key.duplicate(),
            statistics: self.statistics.duplicate(),
            latency_total: self.latency_total.duplicate(),
        }
    }
}

impl Clone for CallGroup {
    fn clone(&self) -> (r: Self)
        ensures
            r.deep_view() == self.deep_view(),
    {
        self.duplicate()
    }
}

/// The tasks of the first `n` counts.
pub open spec fn total_of(rows: Seq<StatusCountModel>, n: nat) -> int
    decreases n,
{
    if n == 0 {
        0
    } else {
        total_of(rows, (n - 1) as nat) + rows[n - 1].count
    }
}

/// The tasks of the first `n` counts that are in a status.
pub open spec fn total_in(rows: Seq<StatusCountModel>, status: Seq<char>, n: nat) -> int
    decreases n,
{
    if n == 0 {
        0
    } else {
        total_in(rows, status, (n - 1) as nat) + (if rows[n - 1].status == status {
            rows[n - 1].count as int
        } else {
            0
        })
    }
}

/// The statistics are those of the first `n` counts. Every status that is not named counts as
/// failed.
pub open spec fn tallies(stats: TaskStatisticsModel, rows: Seq<StatusCountModel>, n: nat) -> bool {
    &&& stats.total == total_of(rows, n)
    &&& stats.completed == total_in(rows, "completed"@, n)
    &&& stats.human_required == total_in(rows, "human_required"@, n)
    &&& stats.cancelled == total_in(rows, "cancelled"@, n)
    &&& stats.running == total_in(rows, "running"@, n)
    &&& stats.total == stats.completed + stats.human_required + stats.cancelled + stats.running
        + stats.failed
}

/// The statistics of tasks by status.
pub fn tasks(rows: &Vec<StatusCount>) -> (r: TaskStatistics)
    requires
        total_of(rows.deep_view(), rows@.len()) <= u64::MAX,
    ensures
        tallies(r.deep_view(), rows.deep_view(), rows@.len()),
{
    let ghost all = rows.deep_view();
    let mut result: TaskStatistics = TaskStatistics::default();
    let mut i: usize = 0;
    proof {
        reveal_strlit("completed");
        reveal_strlit("human_required");
        reveal_strlit("cancelled");
        reveal_strlit("running");
        assert("completed"@.len() == 9 && "human_required"@.len() == 14 && "cancelled"@.len() == 9
            && "running"@.len() == 7);
        assert("completed"@[1] != "cancelled"@[1]);
    }
    while i < rows.len()
        invariant
            i <= rows@.len(),
            all == rows.deep_view(),
            total_of(all, rows@.len()) <= u64::MAX,
            tallies(result.deep_view(), all, i as nat),
            "completed"@ != "cancelled"@,
            "completed"@ != "human_required"@,
            "completed"@ != "running"@,
            "human_required"@ != "cancelled"@,
            "human_required"@ != "running"@,
            "cancelled"@ != "running"@,
        decreases rows@.len() - i,
    {
        let row: &StatusCount = &rows[i];
        proof {
            assert(all[i as int] == row.deep_view());
            lemma_total_grows(all, (i + 1) as nat, rows@.len());
        }
        result.total = result.total + row.count;
        if same_text(row.status.as_str(), "completed") {
            result.completed = result.completed + row.count;
        } else if same_text(row.status.as_str(), "human_required") {
            result.human_required = result.human_required + row.count;
        } else if same_text(row.status.as_str(), "cancelled") {
            result.cancelled = result.cancelled + row.count;
        } else if same_text(row.status.as_str(), "running") {
            result.running = result.running + row.count;
        } else {
            result.failed = result.failed + row.count;
        }
        i += 1;
    }
    result
}

proof fn lemma_total_grows(rows: Seq<StatusCountModel>, i: nat, n: nat)
    requires
        i <= n,
    ensures
        total_of(rows, i) <= total_of(rows, n),
    decreases n,
{
    if i < n {
        lemma_total_grows(rows, i, (n - 1) as nat);
    }
}

/// A text, or `unknown` where the value is none.
pub open spec fn text_or_unknown(v: JsonModel) -> Seq<char> {
    match v.text() {
        Some(s) => s,
        None => "unknown"@,
    }
}

fn known_text(v: Option<&Json>) -> (r: String)
    ensures
        r@ == text_or_unknown(seen(v)),
{
    match as_text(v) {
        Some(s) => s.clone(),
        None => "unknown".to_owned(),
    }
}

/// What a call is grouped by: tool calls by their tool, model calls by their route.
pub open spec fn key_of_call(metadata: JsonModel, config_hash: Seq<char>) -> CallKeyModel {
    let route = metadata.at("route"@);
    let tool = metadata.at("kind"@) == JsonModel::Text("tool"@);
    CallKeyModel {
        attempt_kind: if tool {
            "tool"@
        } else if route is Object {
            "model"@
        } else {
            "unknown"@
        },
        model_id: text_or_unknown(route.at("model_id"@)),
        model_version: text_or_unknown(route.at("model_version"@)),
        config_hash,
        node: if tool {
            "tool"@
        } else {
            text_or_unknown(route.at("node_id"@))
        },
        tool_name: metadata.at("request"@).at("call"@).at("name"@).text(),
    }
}

impl CallKey {
    /// What a call is grouped by.
    pub fn from_metadata(metadata: &Json, config_hash: &str) -> (r: Self)
        ensures
            r.deep_view() == key_of_call(metadata@, config_hash@),
    {
        let value: Option<&Json> = Some(metadata);
        let route: Option<&Json> = member(value, "route");
        let tool: bool = is_text(member(value, "kind"), "tool");
        let call: Option<&Json> = member(member(value, "request"), "call");
        CallKey {
            attempt_kind: if tool {
                "tool".to_owned()
            } else if is_object(route) {
                "model".to_owned()
            } else {
                "unknown".to_owned()
            },
            model_id: known_text(member(route, "model_id")),
            model_version: known_text(member(route, "model_version")),
            config_hash: config_hash.to_owned(),
            node: if tool {
                "tool".to_owned()
            } else {
                known_text(member(route, "node_id"))
            },
            tool_name: match as_text(member(call, "name")) {
                Some(s) => Some(s.clone()),
                None => None,
            },
        }
    }

    /// Statistics of no call.
    pub fn empty_statistics(&self) -> (r: CallStatistics)
        ensures
            r.deep_view() == self.deep_view().no_calls(),
    {
        CallStatistics {
            attempt_kind: self.attempt_kind.clone(),
            tool_name: self.tool_name.duplicate(),
            model_id: self.model_id.clone(),
            model_version: self.model_version.clone(),
            config_hash: self.config_hash.clone(),
            node: self.node.clone(),
            attempts: 0,
            succeeded: 0,
            failed: 0,
            cancelled: 0,
            timed_out: 0,
            not_dispatched: 0,
            unknown_status: 0,
            known_cost: 0,
            unresolved_reserved: 0,
            unknown_cost_attempts: 0,
            latency_samples: 0,
            mean_latency_ms: None,
        }
    }

    /// Whether two keys are the same.
    pub fn equals(&self, other: &CallKey) -> (r: bool)
        ensures
            r == (self.deep_view() == other.deep_view()),
    {
        same_text(self.attempt_kind.as_str(), other.attempt_kind.as_str()) && same_text(
            self.model_id.as_str(),
            other.model_id.as_str(),
        ) && same_text(self.model_version.as_str(), other.model_version.as_str()) && same_text(
            self.config_hash.as_str(),
            other.config_hash.as_str(),
        ) && same_text(self.node.as_str(), other.node.as_str()) && match (
            &self.tool_name,
            &other.tool_name,
        ) {
            (Some(a), Some(b)) => same_text(a.as_str(), b.as_str()),
            (None, None) => true,
            _ => false,
        }
    }

    /// Whether this key comes before another.
    pub fn less(&self, other: &CallKey) -> (r: bool)
        ensures
            r == self.deep_view().before(other.deep_view()),
    {
        if !same_text(self.attempt_kind.as_str(), other.attempt_kind.as_str()) {
            text_less(self.attempt_kind.as_str(), other.attempt_kind.as_str())
        } else if !same_text(self.model_id.as_str(), other.model_id.as_str()) {
            text_less(self.model_id.as_str(), other.model_id.as_str())
        } else if !same_text(self.model_version.as_str(), other.model_version.as_str()) {
            text_less(self.model_version.as_str(), other.model_version.as_str())
        } else if !same_text(self.config_hash.as_str(), other.config_hash.as_str()) {
            text_less(self.config_hash.as_str(), other.config_hash.as_str())
        } else if !same_text(self.node.as_str(), other.node.as_str()) {
            text_less(self.node.as_str(), other.node.as_str())
        } else {
            match (&self.tool_name, &other.tool_name) {
                (None, Some(_)) => true,
                (Some(a), Some(b)) => text_less(a.as_str(), b.as_str()),
                _ => false,
            }
        }
    }
}

impl CallKeyModel {
    /// The order of keys: by their fields in turn; without a tool name first.
    pub open spec fn before(self, other: CallKeyModel) -> bool {
        if self.attempt_kind != other.attempt_kind {
            text_lt(self.attempt_kind, other.attempt_kind)
        } else if self.model_id != other.model_id {
            text_lt(self.model_id, other.model_id)
        } else if self.model_version != other.model_version {
            text_lt(self.model_version, other.model_version)
        } else if self.config_hash != other.config_hash {
            text_lt(self.config_hash, other.config_hash)
        } else if self.node != other.node {
            text_lt(self.node, other.node)
        } else {
            match (self.tool_name, other.tool_name) {
                (None, Some(_)) => true,
                (Some(a), Some(b)) => text_lt(a, b),
                _ => false,
            }
        }
    }

    /// Statistics of no call.
    pub open spec fn no_calls(self) -> CallStatisticsModel {
        CallStatisticsModel {
            attempt_kind: self.attempt_kind,
            tool_name: self.tool_name,
            model_id: self.model_id,
            model_version: self.model_version,
            config_hash: self.config_hash,
            node: self.node,
            attempts: 0,
            succeeded: 0,
            failed: 0,
            cancelled: 0,
            timed_out: 0,
            not_dispatched: 0,
            unknown_status: 0,
            known_cost: 0,
            unresolved_reserved: 0,
            unknown_cost_attempts: 0,
            latency_samples: 0,
            mean_latency_ms: None,
        }
    }
}

/// One more where it applies.
pub open spec fn plus(n: u64, applies: bool) -> u64 {
    if applies {
        (n + 1) as u64
    } else {
        n
    }
}

/// The status that an outcome gives.
pub open spec fn status_in(outcome: JsonModel) -> Option<Seq<char>> {
    outcome.at("call_metrics"@).at("status"@).text()
}

/// A status that calls are counted by.
pub open spec fn known_status(status: Option<Seq<char>>) -> bool {
    &&& status is Some
    &&& {
        ||| status->0 == "succeeded"@
        ||| status->0 == "failed"@
        ||| status->0 == "cancelled"@
        ||| status->0 == "timed_out"@
        ||| status->0 == "not_dispatched"@
    }
}

/// The group with one more call: nothing where a sum of costs would not fit. A call of unknown
/// cost counts with the amount set aside for it.
pub open spec fn counted(
    group: CallGroupModel,
    outcome: JsonModel,
    cost: Option<u64>,
    amount: u64,
) -> Option<CallGroupModel> {
    let s = group.statistics;
    let status = status_in(outcome);
    let latency = outcome.at("call_metrics"@).at("latency_ms"@).count();
    if (cost is Some && s.known_cost + cost->0 > u64::MAX) || (cost is None
        && s.unresolved_reserved + amount > u64::MAX) {
        None
    } else {
        Some(
            CallGroupModel {
                key: group.key,
                statistics: CallStatisticsModel {
                    attempts: plus(s.attempts, true),
                    succeeded: plus(s.succeeded, status == Some("succeeded"@)),
                    failed: plus(s.failed, status == Some("failed"@)),
                    cancelled: plus(s.cancelled, status == Some("cancelled"@)),
                    timed_out: plus(s.timed_out, status == Some("timed_out"@)),
                    not_dispatched: plus(s.not_dispatched, status == Some("not_dispatched"@)),
                    unknown_status: plus(s.unknown_status, !known_status(status)),
                    known_cost: match cost {
                        Some(c) => (s.known_cost + c) as u64,
                        None => s.known_cost,
                    },
                    unresolved_reserved: match cost {
                        Some(_) => s.unresolved_reserved,
                        None => (s.unresolved_reserved + amount) as u64,
                    },
                    unknown_cost_attempts: plus(s.unknown_cost_attempts, cost is None),
                    latency_samples: plus(s.latency_samples, latency is Some),
                    ..s
                },
                latency_total: match latency {
                    Some(ms) => (group.latency_total + ms) as u128,
                    None => group.latency_total,
                },
            },
        )
    }
}

impl CallGroupModel {
    /// No counter is above `n`.
    pub open spec fn within(self, n: nat) -> bool {
        let s = self.statistics;
        &&& s.attempts <= n
        &&& s.succeeded <= n
        &&& s.failed <= n
        &&& s.cancelled <= n
        &&& s.timed_out <= n
        &&& s.not_dispatched <= n
        &&& s.unknown_status <= n
        &&& s.unknown_cost_attempts <= n
        &&& s.latency_samples <= n
        &&& self.latency_total <= n * 0xffff_ffff_ffff_ffff
    }
}

impl CallGroup {
    /// Counts one more call.
    pub fn accumulate(&mut self, outcome: &Json, cost: Option<u64>, amount: u64) -> (r: Result<
        (),
        EngineError,
    >)
        requires
            old(self).deep_view().within((u64::MAX - 1) as nat),
        ensures
            match (r, counted(old(self).deep_view(), outcome@, cost, amount)) {
                (Ok(_), Some(g)) => final(self).deep_view() == g,
                (Err(e), None) => e.deep_view() == failure(
                    "metrics"@,
                    "aggregate cost overflow"@,
                ),
                _ => false,
            },
    {
        let metrics: Option<&Json> = member(Some(outcome), "call_metrics");
        let status: Option<&Json> = member(metrics, "status");
        proof {
            reveal_strlit("succeeded");
            reveal_strlit("failed");
            reveal_strlit("cancelled");
            reveal_strlit("timed_out");
            reveal_strlit("not_dispatched");
            assert("succeeded"@.len() == 9 && "failed"@.len() == 6 && "cancelled"@.len() == 9
                && "timed_out"@.len() == 9 && "not_dispatched"@.len() == 14);
            assert("succeeded"@[0] != "cancelled"@[0] && "succeeded"@[0] != "timed_out"@[0]
                && "cancelled"@[0] != "timed_out"@[0]);
            assert(self.latency_total <= 0xffff_ffff_ffff_fffe * 0xffff_ffff_ffff_ffff);
        }
        self.statistics.attempts = self.statistics.attempts + 1;
        if is_text(status, "succeeded") {
            self.statistics.succeeded = self.statistics.succeeded + 1;
        } else if is_text(status, "failed") {
            self.statistics.failed = self.statistics.failed + 1;
        } else if is_text(status, "cancelled") {
            self.statistics.cancelled = self.statistics.cancelled + 1;
        } else if is_text(status, "timed_out") {
            self.statistics.timed_out = self.statistics.timed_out + 1;
        } else if is_text(status, "not_dispatched") {
            self.statistics.not_dispatched = self.statistics.not_dispatched + 1;
        } else {
            self.statistics.unknown_status = self.statistics.unknown_status + 1;
        }
        match cost {
            Some(c) => match self.statistics.known_cost.checked_add(c) {
                Some(sum) => {
                    self.statistics.known_cost = sum;
                },
                None => {
                    return Err(EngineError::new("metrics", "aggregate cost overflow"));
                },
            },
            None => {
                self.statistics.unknown_cost_attempts = self.statistics.unknown_cost_attempts + 1;
                match self.statistics.unresolved_reserved.checked_add(amount) {
                    Some(sum) => {
                        self.statistics.unresolved_reserved = sum;
                    },
                    None => {
                        return Err(EngineError::new("metrics", "aggregate cost overflow"));
                    },
                }
            },
        }
        if let Some(ms) = as_count(member(metrics, "latency_ms")) {
            self.latency_total = self.latency_total + ms as u128;
            self.statistics.latency_samples = self.statistics.latency_samples + 1;
        }
        Ok(())
    }

    /// The statistics of the group, with the mean of its latencies where there are any.
    pub fn summarize(self, mean: Binary64) -> (r: CallStatistics)
        ensures
            r.deep_view() == (CallStatisticsModel {
                mean_latency_ms: if self.statistics.latency_samples > 0 {
                    Some(mean)
                } else {
                    None
                },
                ..self.deep_view().statistics
            }),
    {
        let mut statistics: CallStatistics = self.statistics;
        statistics.mean_latency_ms = if statistics.latency_samples > 0 {
            Some(mean)
        } else {
            None
        };
        statistics
    }
}

/// Where a key stands, or would be put, among groups.
pub open spec fn group_slot(groups: Seq<CallGroupModel>, key: CallKeyModel) -> nat
    decreases groups.len(),
{
    if groups.len() == 0 || !groups[0].key.before(key) {
        0
    } else {
        1 + group_slot(groups.drop_first(), key)
    }
}

/// The group of a row's key before the row is counted.
pub open spec fn group_before(groups: Seq<CallGroupModel>, key: CallKeyModel) -> CallGroupModel {
    let k = group_slot(groups, key) as int;
    if k < groups.len() && groups[k].key == key {
        groups[k]
    } else {
        CallGroupModel { key, statistics: key.no_calls(), latency_total: 0 }
    }
}

/// The groups with one more row.
pub open spec fn with_row(groups: Seq<CallGroupModel>, row: CallRowModel) -> Option<
    Seq<CallGroupModel>,
> {
    let key = key_of_call(row.metadata, row.config_hash);
    let k = group_slot(groups, key) as int;
    match counted(group_before(groups, key), row.outcome, row.cost, row.amount) {
        Some(g) => Some(
            if k < groups.len() && groups[k].key == key {
                groups.update(k, g)
            } else {
                groups.insert(k, g)
            },
        ),
        None => None,
    }
}

/// The groups of the first `n` rows, in the order of their keys.
pub open spec fn grouped(rows: Seq<CallRowModel>, n: nat) -> Option<Seq<CallGroupModel>>
    decreases n,
{
    if n == 0 {
        Some(Seq::empty())
    } else {
        match grouped(rows, (n - 1) as nat) {
            Some(groups) => with_row(groups, rows[n - 1]),
            None => None,
        }
    }
}

fn find_group(groups: &Vec<CallGroup>, key: &CallKey) -> (r: usize)
    ensures
        r == group_slot(groups.deep_view(), key.deep_view()),
        r <= groups@.len(),
{
    let ghost all = groups.deep_view();
    let mut k: usize = 0;
    assert(all.skip(0) =~= all);
    while k < groups.len() && groups[k].key.less(key)
        invariant
            k <= groups@.len(),
            all == groups.deep_view(),
            group_slot(all, key.deep_view()) == k + group_slot(
                all.skip(k as int),
                key.deep_view(),
            ),
        decreases groups@.len() - k,
    {
        proof {
            assert(all.skip(k as int)[0] == all[k as int]);
            assert(all.skip(k as int).drop_first() =~= all.skip(k + 1));
        }
        k += 1;
    }
    proof {
        if k < groups@.len() {
            assert(all.skip(k as int)[0] == all[k as int]);
        }
    }
    k
}

fn add_row(groups: &mut Vec<CallGroup>, row: &CallRow) -> (r: Result<(), EngineError>)
    requires
        forall|i: int|
            0 <= i < old(groups)@.len() ==> (#[trigger] old(groups).deep_view()[i]).within(
                (u64::MAX - 1) as nat,
            ),
    ensures
        match (r, with_row(old(groups).deep_view(), row.deep_view())) {
            (Ok(_), Some(g)) => final(groups).deep_view() == g,
            (Err(e), None) => e.deep_view() == failure("metrics"@, "aggregate cost overflow"@),
            _ => false,
        },
{
    let ghost before = groups.deep_view();
    let key: CallKey = CallKey::from_metadata(&row.metadata, row.config_hash.as_str());
    let k: usize = find_group(groups, &key);
    if k < groups.len() && groups[k].key.equals(&key) {
        let mut group: CallGroup = groups[k].duplicate();
        assert(before[k as int] == group.deep_view());
        if let Err(e) = group.accumulate(&row.outcome, row.cost, row.amount) {
            return Err(e);
        }
        let ghost now = group.deep_view();
        groups.set(k, group);
        assert(groups.deep_view() =~= before.update(k as int, now));
    } else {
        proof {
            if k < groups@.len() {
                assert(before[k as int] == groups@[k as int].deep_view());
            }
        }
        let statistics: CallStatistics = key.empty_statistics();
        let mut group = CallGroup { key, statistics, latency_total: 0 };
        if let Err(e) = group.accumulate(&row.outcome, row.cost, row.amount) {
            return Err(e);
        }
        let ghost now = group.deep_view();
        groups.insert(k, group);
        assert(groups.deep_view() =~= before.insert(k as int, now));
    }
    Ok(())
}

/// Groups calls by model, configuration and node, in the order of their keys.
pub fn calls(rows: &Vec<CallRow>) -> (r: Result<Vec<CallGroup>, EngineError>)
    requires
        rows@.len() < u64::MAX,
    ensures
        match (r, grouped(rows.deep_view(), rows@.len())) {
            (Ok(v), Some(g)) => v.deep_view() == g,
            (Err(e), None) => e.deep_view() == failure("metrics"@, "aggregate cost overflow"@),
            _ => false,
        },
{
    let ghost all = rows.deep_view();
    let mut groups: Vec<CallGroup> = Vec::new();
    let mut i: usize = 0;
    assert(groups.deep_view() =~= Seq::empty());
    while i < rows.len()
        invariant
            i <= rows@.len(),
            rows@.len() < u64::MAX,
            all == rows.deep_view(),
            grouped(all, i as nat) == Some(groups.deep_view()),
        decreases rows@.len() - i,
    {
        assert(all[i as int] == rows@[i as int].deep_view());
        proof {
            lemma_grouped_within(all, i as nat);
            let now = groups.deep_view();
            assert(grouped(all, i as nat)->0 == now);
            assert(forall|k: int| 0 <= k < now.len() ==> (#[trigger] now[k]).within(i as nat));
            assert(now.len() == groups@.len());
            assert forall|k: int| 0 <= k < groups@.len() implies (
            #[trigger] groups.deep_view()[k]).within((u64::MAX - 1) as nat) by {
                assert(now[k].within(i as nat));
                lemma_within_more(groups.deep_view()[k], i as nat, (u64::MAX - 1) as nat);
            }
        }
        if let Err(e) = add_row(&mut groups, &rows[i]) {
            proof {
                lemma_grouped_none(all, (i + 1) as nat, rows@.len());
            }
            return Err(e);
        }
        i += 1;
    }
    Ok(groups)
}

proof fn lemma_within_more(g: CallGroupModel, n: nat, m: nat)
    requires
        g.within(n),
        n <= m,
    ensures
        g.within(m),
{
    assert(n * 0xffff_ffff_ffff_ffff <= m * 0xffff_ffff_ffff_ffff) by (nonlinear_arith)
        requires
            n <= m,
    ;
}

proof fn lemma_counted_within(
    g: CallGroupModel,
    outcome: JsonModel,
    cost: Option<u64>,
    amount: u64,
    n: nat,
)
    requires
        g.within(n),
        n < u64::MAX,
    ensures
        counted(g, outcome, cost, amount) matches Some(h) ==> h.within(n + 1),
{
    assert((n + 1) * 0xffff_ffff_ffff_ffff == n * 0xffff_ffff_ffff_ffff + 0xffff_ffff_ffff_ffff)
        by (nonlinear_arith);
    assert(n * 0xffff_ffff_ffff_ffff <= 0xffff_ffff_ffff_fffe * 0xffff_ffff_ffff_ffff)
        by (nonlinear_arith)
        requires
            n <= 0xffff_ffff_ffff_fffe,
    ;
}

proof fn lemma_grouped_within(rows: Seq<CallRowModel>, n: nat)
    requires
        n < u64::MAX,
    ensures
        grouped(rows, n) matches Some(groups) ==> forall|k: int|
            0 <= k < groups.len() ==> (#[trigger] groups[k]).within(n),
    decreases n,
{
    if n > 0 {
        lemma_grouped_within(rows, (n - 1) as nat);
        match (grouped(rows, (n - 1) as nat), grouped(rows, n)) {
            (Some(before), Some(groups)) => {
                let row = rows[n - 1];
                let key = key_of_call(row.metadata, row.config_hash);
                let k = group_slot(before, key) as int;
                let g = group_before(before, key);
                assert(g.within((n - 1) as nat));
                lemma_counted_within(g, row.outcome, row.cost, row.amount, (n - 1) as nat);
                assert forall|j: int| 0 <= j < groups.len() implies (
                #[trigger] groups[j]).within(n) by {
                    if k < before.len() && before[k].key == key {
                        if j != k {
                            lemma_within_more(before[j], (n - 1) as nat, n);
                        }
                    } else {
                        lemma_group_slot(before, key);
                        if j < k {
                            assert(groups[j] == before[j]);
                            lemma_within_more(before[j], (n - 1) as nat, n);
                        } else if j > k {
                            assert(groups[j] == before[j - 1]);
                            lemma_within_more(before[j - 1], (n - 1) as nat, n);
                        }
                    }
                }
            },
            _ => {},
        }
    }
}

proof fn lemma_group_slot(groups: Seq<CallGroupModel>, key: CallKeyModel)
    ensures
        group_slot(groups, key) <= groups.len(),
    decreases groups.len(),
{
    if groups.len() > 0 && groups[0].key.before(key) {
        lemma_group_slot(groups.drop_first(), key);
    }
}

proof fn lemma_grouped_none(rows: Seq<CallRowModel>, i: nat, n: nat)
    requires
        i <= n,
        grouped(rows, i) is None,
    ensures
        grouped(rows, n) is None,
    decreases n,
{
    if i < n {
        lemma_grouped_none(rows, i, (n - 1) as nat);
    }
}

/// The calls counted in the first `n` groups.
pub open spec fn attempts_in(groups: Seq<CallGroupModel>, n: nat) -> int
    decreases n,
{
    if n == 0 {
        0
    } else {
        attempts_in(groups, (n - 1) as nat) + groups[n - 1].statistics.attempts
    }
}

proof fn lemma_attempts_update(groups: Seq<CallGroupModel>, k: int, g: CallGroupModel, n: nat)
    requires
        0 <= k < groups.len(),
        n <= groups.len(),
    ensures
        attempts_in(groups.update(k, g), n) == attempts_in(groups, n) + (if k < n {
            g.statistics.attempts - groups[k].statistics.attempts
        } else {
            0
        }),
    decreases n,
{
    if n > 0 {
        lemma_attempts_update(groups, k, g, (n - 1) as nat);
    }
}

proof fn lemma_attempts_insert(groups: Seq<CallGroupModel>, k: int, g: CallGroupModel, n: nat)
    requires
        0 <= k <= groups.len(),
        n <= groups.len(),
    ensures
        attempts_in(groups.insert(k, g), n) == (if k < n {
            attempts_in(groups, (n - 1) as nat) + g.statistics.attempts
        } else {
            attempts_in(groups, n)
        }),
        k <= n ==> attempts_in(groups.insert(k, g), n + 1) == attempts_in(groups, n)
            + g.statistics.attempts,
    decreases n,
{
    let after = groups.insert(k, g);
    if n > 0 {
        lemma_attempts_insert(groups, k, g, (n - 1) as nat);
        if k < n {
            if k < n - 1 {
                assert(after[n - 1] == groups[n - 2]);
            } else {
                assert(after[n - 1] == g);
            }
            assert(after[n as int] == groups[n - 1]);
            assert(attempts_in(after, n + 1) == attempts_in(after, n)
                + after[n as int].statistics.attempts);
        } else {
            assert(after[n - 1] == groups[n - 1]);
        }
    }
    if k == n {
        assert(after[n as int] == g);
        assert(attempts_in(after, n + 1) == attempts_in(after, n)
            + after[n as int].statistics.attempts);
    }
}

/// Every saved call is counted in exactly one group: the groups' calls add up to the rows.
pub proof fn lemma_every_call_counted(rows: Seq<CallRowModel>, n: nat)
    requires
        n < u64::MAX,
    ensures
        grouped(rows, n) matches Some(groups) ==> attempts_in(groups, groups.len()) == n,
    decreases n,
{
    if n > 0 {
        lemma_every_call_counted(rows, (n - 1) as nat);
        match (grouped(rows, (n - 1) as nat), grouped(rows, n)) {
            (Some(before), Some(groups)) => {
                lemma_grouped_within(rows, (n - 1) as nat);
                let row = rows[n - 1];
                let key = key_of_call(row.metadata, row.config_hash);
                let k = group_slot(before, key) as int;
                let g = counted(
                    group_before(before, key),
                    row.outcome,
                    row.cost,
                    row.amount,
                )->0;
                lemma_group_slot(before, key);
                if k < before.len() && before[k].key == key {
                    assert(before[k].within((n - 1) as nat));
                    lemma_attempts_update(before, k, g, before.len());
                } else {
                    lemma_attempts_insert(before, k, g, before.len());
                }
            },
            _ => {},
        }
    }
}

/// One more count of tasks adds to the total and to the counter of its status; a status without a
/// counter of its own counts as failed.
pub proof fn lemma_tasks_are_counted_by_status(
    before: TaskStatisticsModel,
    after: TaskStatisticsModel,
    rows: Seq<StatusCountModel>,
    n: nat,
)
    requires
        n < rows.len(),
        tallies(before, rows, n),
        tallies(after, rows, n + 1),
    ensures
        ({
            let row = rows[n as int];
            let named = row.status == "completed"@ || row.status == "human_required"@ || row.status
                == "cancelled"@ || row.status == "running"@;
            &&& after.total == before.total + row.count
            &&& after.completed == before.completed + (if row.status == "completed"@ {
                row.count as int
            } else {
                0
            })
            &&& after.human_required == before.human_required + (if row.status
                == "human_required"@ {
                row.count as int
            } else {
                0
            })
            &&& after.cancelled == before.cancelled + (if row.status == "cancelled"@ {
                row.count as int
            } else {
                0
            })
            &&& after.running == before.running + (if row.status == "running"@ {
                row.count as int
            } else {
                0
            })
            &&& after.failed == before.failed + (if named {
                0
            } else {
                row.count as int
            })
        }),
{
    lemma_status_names();
    reveal_with_fuel(total_of, 2);
    reveal_with_fuel(total_in, 2);
}

/// No counts of tasks add up to nothing.
pub proof fn lemma_no_tasks_to_count(stats: TaskStatisticsModel, rows: Seq<StatusCountModel>)
    requires
        tallies(stats, rows, 0),
    ensures
        stats.total == 0 && stats.completed == 0 && stats.human_required == 0,
        stats.cancelled == 0 && stats.running == 0 && stats.failed == 0,
{
}

/// One where something holds.
pub open spec fn one_if(holds: bool) -> int {
    if holds {
        1
    } else {
        0
    }
}

/// One more call adds one to the attempts and to the counter of its status, one without a known
/// status to the unknown ones. A known cost is added to the costs; for an unknown one the amount
/// set aside is added to what is unresolved. A latency is added to the latencies.
pub proof fn lemma_call_is_counted_once(
    group: CallGroupModel,
    outcome: JsonModel,
    cost: Option<u64>,
    amount: u64,
)
    requires
        group.statistics.attempts < u64::MAX,
        group.statistics.succeeded < u64::MAX,
        group.statistics.failed < u64::MAX,
        group.statistics.cancelled < u64::MAX,
        group.statistics.timed_out < u64::MAX,
        group.statistics.not_dispatched < u64::MAX,
        group.statistics.unknown_status < u64::MAX,
        group.statistics.unknown_cost_attempts < u64::MAX,
        group.statistics.latency_samples < u64::MAX,
        group.latency_total <= u128::MAX - u64::MAX,
    ensures
        ({
            let s = group.statistics;
            let overflows = match cost {
                Some(c) => s.known_cost + c > u64::MAX,
                None => s.unresolved_reserved + amount > u64::MAX,
            };
            let status = outcome.at("call_metrics"@).at("status"@);
            let latency = outcome.at("call_metrics"@).at("latency_ms"@);
            let r = counted(group, outcome, cost, amount);
            &&& r is None <==> overflows
            &&& r is Some ==> {
                let t = r->0.statistics;
                let succeeded = status == JsonModel::Text("succeeded"@);
                let failed = status == JsonModel::Text("failed"@);
                let cancelled = status == JsonModel::Text("cancelled"@);
                let timed_out = status == JsonModel::Text("timed_out"@);
                let not_dispatched = status == JsonModel::Text("not_dispatched"@);
                &&& r->0.key == group.key
                &&& t.attempts == s.attempts + 1
                &&& t.succeeded == s.succeeded + one_if(succeeded)
                &&& t.failed == s.failed + one_if(failed)
                &&& t.cancelled == s.cancelled + one_if(cancelled)
                &&& t.timed_out == s.timed_out + one_if(timed_out)
                &&& t.not_dispatched == s.not_dispatched + one_if(not_dispatched)
                &&& t.unknown_status == s.unknown_status + one_if(!succeeded && !failed && !cancelled
                    && !timed_out && !not_dispatched)
                &&& cost is Some ==> t.known_cost == s.known_cost + cost->0
                    && t.unresolved_reserved == s.unresolved_reserved && t.unknown_cost_attempts
                    == s.unknown_cost_attempts
                &&& cost is None ==> t.known_cost == s.known_cost && t.unresolved_reserved
                    == s.unresolved_reserved + amount && t.unknown_cost_attempts
                    == s.unknown_cost_attempts + 1
                &&& match latency {
                    JsonModel::Number(NumberModel::PosInt(ms)) => t.latency_samples
                        == s.latency_samples + 1 && r->0.latency_total == group.latency_total + ms,
                    _ => t.latency_samples == s.latency_samples && r->0.latency_total
                        == group.latency_total,
                }
            }
        }),
{
}

/// A call is grouped with others of its kind, model, version, configuration, node and tool. What
/// the metadata do not tell is unknown.
pub proof fn lemma_call_is_grouped_by_what_it_tells(metadata: JsonModel, config_hash: Seq<char>)
    ensures
        ({
            let key = key_of_call(metadata, config_hash);
            let route = metadata.at("route"@);
            let tool = metadata.at("kind"@) == JsonModel::Text("tool"@);
            &&& key.config_hash == config_hash
            &&& tool ==> key.attempt_kind == "tool"@ && key.node == "tool"@
            &&& !tool && route is Object ==> key.attempt_kind == "model"@
            &&& !tool && !(route is Object) ==> key.attempt_kind == "unknown"@
            &&& match route.at("model_id"@) {
                JsonModel::Text(s) => key.model_id == s,
                _ => key.model_id == "unknown"@,
            }
            &&& match route.at("model_version"@) {
                JsonModel::Text(s) => key.model_version == s,
                _ => key.model_version == "unknown"@,
            }
            &&& !tool ==> match route.at("node_id"@) {
                JsonModel::Text(s) => key.node == s,
                _ => key.node == "unknown"@,
            }
            &&& match metadata.at("request"@).at("call"@).at("name"@) {
                JsonModel::Text(s) => key.tool_name == Some(s),
                _ => key.tool_name is None,
            }
        }),
{
}

/// A group starts with nothing counted, and tells what it is grouped by.
pub proof fn lemma_group_starts_empty(key: CallKeyModel)
    ensures
        ({
            let s = key.no_calls();
            &&& s.attempt_kind == key.attempt_kind && s.tool_name == key.tool_name
            &&& s.model_id == key.model_id && s.model_version == key.model_version
            &&& s.config_hash == key.config_hash && s.node == key.node
            &&& s.attempts == 0 && s.succeeded == 0 && s.failed == 0 && s.cancelled == 0
            &&& s.timed_out == 0 && s.not_dispatched == 0 && s.unknown_status == 0
            &&& s.known_cost == 0 && s.unresolved_reserved == 0 && s.unknown_cost_attempts == 0
            &&& s.latency_samples == 0 && s.mean_latency_ms is None
        }),
{
}

/// Groups stand in the order of their kinds, then of their models, versions, configurations, nodes
/// and tools; a call without a tool stands before those with one.
pub proof fn lemma_order_of_groups(a: CallKeyModel, b: CallKeyModel)
    ensures
        a.attempt_kind != b.attempt_kind ==> (a.before(b) <==> text_lt(
            a.attempt_kind,
            b.attempt_kind,
        )),
        a.attempt_kind == b.attempt_kind && a.model_id != b.model_id ==> (a.before(b)
            <==> text_lt(a.model_id, b.model_id)),
        a.attempt_kind == b.attempt_kind && a.model_id == b.model_id && a.model_version
            != b.model_version ==> (a.before(b) <==> text_lt(a.model_version, b.model_version)),
        a == (CallKeyModel { tool_name: None, ..b }) && b.tool_name is Some ==> a.before(b)
            && !b.before(a),
        !a.before(a),
{
    if a.tool_name is Some {
        crate::text::lemma_text_irreflexive(a.tool_name->0);
    }
}

proof fn lemma_status_names()
    ensures
        "completed"@ != "human_required"@,
        "completed"@ != "cancelled"@,
        "completed"@ != "running"@,
        "human_required"@ != "cancelled"@,
        "human_required"@ != "running"@,
        "cancelled"@ != "running"@,
{
    reveal_strlit("completed");
    reveal_strlit("human_required");
    reveal_strlit("cancelled");
    reveal_strlit("running");
    assert("completed"@.len() == 9);
    assert("human_required"@.len() == 14);
    assert("cancelled"@.len() == 9);
    assert("running"@.len() == 7);
    assert("completed"@[1] != "cancelled"@[1]);
}

proof fn lemma_before_transitive(a: CallKeyModel, b: CallKeyModel, c: CallKeyModel)
    requires
        a.before(b),
        b.before(c),
    ensures
        a.before(c),
{
    lemma_text_three(a.attempt_kind, b.attempt_kind, c.attempt_kind);
    lemma_text_three(a.model_id, b.model_id, c.model_id);
    lemma_text_three(a.model_version, b.model_version, c.model_version);
    lemma_text_three(a.config_hash, b.config_hash, c.config_hash);
    lemma_text_three(a.node, b.node, c.node);
    if a.tool_name is Some && b.tool_name is Some && c.tool_name is Some {
        lemma_text_three(a.tool_name->0, b.tool_name->0, c.tool_name->0);
    }
}

proof fn lemma_text_three(a: Seq<char>, b: Seq<char>, c: Seq<char>)
    ensures
        text_lt(a, b) && text_lt(b, c) ==> text_lt(a, c),
        !text_lt(a, a),
        text_lt(a, b) ==> !text_lt(b, a) && a != b,
{
    crate::text::lemma_text_irreflexive(a);
    if text_lt(a, b) && text_lt(b, c) {
        crate::text::lemma_text_transitive(a, b, c);
    }
    if text_lt(a, b) && text_lt(b, a) {
        crate::text::lemma_text_transitive(a, b, a);
    }
}

proof fn lemma_before_total(a: CallKeyModel, b: CallKeyModel)
    ensures
        a.before(b) || b.before(a) || a == b,
{
    crate::text::lemma_text_total(a.attempt_kind, b.attempt_kind);
    crate::text::lemma_text_total(a.model_id, b.model_id);
    crate::text::lemma_text_total(a.model_version, b.model_version);
    crate::text::lemma_text_total(a.config_hash, b.config_hash);
    crate::text::lemma_text_total(a.node, b.node);
    if a.tool_name is Some && b.tool_name is Some {
        crate::text::lemma_text_total(a.tool_name->0, b.tool_name->0);
    }
}

/// Groups stand in the order of what they are grouped by, none of it twice.
pub open spec fn in_order(groups: Seq<CallGroupModel>) -> bool {
    forall|i: int, j: int|
        0 <= i < j < groups.len() ==> (#[trigger] groups[i]).key.before((#[trigger] groups[j]).key)
}

proof fn lemma_slot_of_a_group(groups: Seq<CallGroupModel>, key: CallKeyModel)
    ensures
        group_slot(groups, key) <= groups.len(),
        forall|i: int|
            0 <= i < group_slot(groups, key) ==> (#[trigger] groups[i]).key.before(key),
        group_slot(groups, key) < groups.len() ==> !groups[group_slot(
            groups,
            key,
        ) as int].key.before(key),
    decreases groups.len(),
{
    if groups.len() > 0 && groups[0].key.before(key) {
        let rest = groups.drop_first();
        lemma_slot_of_a_group(rest, key);
        assert forall|i: int| 0 <= i < group_slot(groups, key) implies (
        #[trigger] groups[i]).key.before(key) by {
            if i > 0 {
                assert(rest[i - 1] == groups[i]);
            }
        }
    }
}

/// One more call changes the group that it belongs to, and no other: that group is counted on from
/// where it was, or from nothing where there was none. The order of the groups stays.
pub proof fn lemma_call_goes_to_its_group(groups: Seq<CallGroupModel>, row: CallRowModel, m: int)
    requires
        in_order(groups),
        with_row(groups, row) is Some,
    ensures
        ({
            let after = with_row(groups, row)->0;
            let key = key_of_call(row.metadata, row.config_hash);
            &&& in_order(after)
            &&& 0 <= m < groups.len() && groups[m].key != key ==> after.contains(groups[m])
            &&& 0 <= m < groups.len() && groups[m].key == key ==> counted(
                groups[m],
                row.outcome,
                row.cost,
                row.amount,
            ) is Some && after.contains(
                counted(groups[m], row.outcome, row.cost, row.amount)->0,
            ) && after.len() == groups.len()
            &&& (forall|i: int| 0 <= i < groups.len() ==> (#[trigger] groups[i]).key != key) ==> {
                let fresh = CallGroupModel { key, statistics: key.no_calls(), latency_total: 0 };
                &&& counted(fresh, row.outcome, row.cost, row.amount) is Some
                &&& after.contains(counted(fresh, row.outcome, row.cost, row.amount)->0)
                &&& after.len() == groups.len() + 1
            }
        }),
{
    let key = key_of_call(row.metadata, row.config_hash);
    let k = group_slot(groups, key) as int;
    let after = with_row(groups, row)->0;
    lemma_slot_of_a_group(groups, key);
    let there = k < groups.len() && groups[k].key == key;
    let g = counted(group_before(groups, key), row.outcome, row.cost, row.amount)->0;
    assert(g.key == key);
    assert(after[k] == g);
    if k < groups.len() && !there {
        lemma_before_total(groups[k].key, key);
    }
    assert forall|i: int| k < i < groups.len() implies key.before(
        (#[trigger] groups[i]).key,
    ) by {
        assert(groups[k].key.before(groups[i].key));
        if !there {
            lemma_before_transitive(key, groups[k].key, groups[i].key);
        }
    }
    assert forall|i: int, j: int| 0 <= i < j < after.len() implies (
    #[trigger] after[i]).key.before((#[trigger] after[j]).key) by {
        if there {
            if i != k && j != k {
                assert(groups[i].key.before(groups[j].key));
            }
        } else {
            let from = |x: int|
                if x < k {
                    x
                } else {
                    x - 1
                };
            if i != k && j != k {
                assert(groups[from(i)].key.before(groups[from(j)].key));
            } else if i == k {
                assert(after[j] == groups[j - 1]);
            } else {
                assert(after[i] == groups[i]);
            }
        }
    }
    if 0 <= m < groups.len() {
        lemma_text_three(key.attempt_kind, key.attempt_kind, key.attempt_kind);
        lemma_order_of_groups(key, key);
        if groups[m].key == key {
            if m < k {
                assert(groups[m].key.before(key));
            } else if m > k {
                assert(key.before(groups[m].key));
            }
            assert(m == k);
        } else {
            let at = if there || m < k {
                m
            } else {
                m + 1
            };
            assert(after[at] == groups[m]);
        }
    }
}

/// However many calls there are, the groups stand in order, and no two are of the same calls.
pub proof fn lemma_groups_stand_in_order(rows: Seq<CallRowModel>, n: nat)
    ensures
        grouped(rows, n) matches Some(groups) ==> in_order(groups),
    decreases n,
{
    if n > 0 {
        lemma_groups_stand_in_order(rows, (n - 1) as nat);
        match grouped(rows, (n - 1) as nat) {
            Some(before) => {
                if with_row(before, rows[n - 1]) is Some {
                    lemma_call_goes_to_its_group(before, rows[n - 1], 0);
                }
            },
            None => {},
        }
    }
}

} // verus!
