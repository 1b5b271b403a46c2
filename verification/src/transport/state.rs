//! What a worker knows of the nodes on its transport.

use std::collections::HashMap;
use std::sync::mpsc::SyncSender;

use vstd::prelude::*;

use crate::clock::{self, SystemClock};
use crate::transport;

verus! {

/// A node observed on the network via heartbeat.
#[derive(Debug, Clone, Copy)]
pub struct NodeEntry {
    /// Cyphal node ID.
    pub node_id: u16,
    /// Node uptime in seconds (from the Heartbeat message).
    pub uptime: u32,
    /// Raw health value from the Heartbeat message.
    pub health: u8,
    /// Raw mode value from the Heartbeat message.
    pub mode: u8,
}

/// Information returned by a successful GetInfo request.
#[derive(Debug)]
pub struct GetInfoResult {
    pub node_id: u16,
    pub name: String,
    pub hardware_version: (u8, u8),
    pub software_version: (u8, u8),
    pub unique_id: [u8; 16],
}

impl Clone for GetInfoResult {
    fn clone(&self) -> (copy: Self)
        ensures
            copy.node_id == self.node_id,
            copy.name@ == self.name@,
            copy.hardware_version == self.hardware_version,
            copy.software_version == self.software_version,
            copy.unique_id == self.unique_id,
    {
        GetInfoResult {
            node_id: self.node_id,
            name: self.name.clone(),
            hardware_version: self.hardware_version,
            software_version: self.software_version,
            unique_id: self.unique_id,
        }
    }
}

/// Counters and times that tell how a worker is doing. Ages are in nanoseconds.
#[derive(Debug, Clone)]
pub struct TransportDiagnostics {
    pub local_node_id: Option<u16>,
    pub observed_node_count: usize,
    pub total_messages_received: u64,
    pub heartbeat_messages_received: u64,
    pub get_info_requests_sent: u64,
    pub get_info_responses_received: u64,
    pub last_message_age: Option<u128>,
    pub last_heartbeat_age: Option<u128>,
    /// Sources of the latest heartbeats, latest first.
    pub recent_heartbeat_sources: Vec<u16>,
    pub last_error: Option<String>,
    pub pnp_enabled: bool,
    pub pnp_allocations: u64,
}

/// An in-progress GetInfo request.
pub struct PendingGetInfo {
    /// Target node ID.
    pub node_id: u16,
    /// Channel to send the result back on.
    pub reply: SyncSender<Result<GetInfoResult, String>>,
    /// Request deadline.
    pub deadline: u128,
}

/// An in-progress GetInfo request of the node-ID allocator.
pub struct PnpGetInfoPending {
    /// Target node ID.
    pub node_id: u16,
    /// Request deadline.
    pub deadline: u128,
}

/// Per-transport state shared between the poll loop and the command handler.
///
/// Times are in nanoseconds since the start of `clock`.
pub struct WorkerState {
    /// Nodes observed via heartbeat messages, keyed by node ID.
    pub observed_nodes: HashMap<u16, NodeEntry>,
    /// Pending GetInfo request, if any.
    pub pending_get_info: Option<PendingGetInfo>,
    /// Pending GetInfo request of the node-ID allocator, if any.
    pub pnp_pending_get_info: Option<PnpGetInfoPending>,
    pub total_messages_received: u64,
    pub heartbeat_messages_received: u64,
    pub get_info_requests_sent: u64,
    pub get_info_responses_received: u64,
    pub pnp_allocations: u64,
    /// When the last message came.
    pub last_message: Option<u128>,
    /// When the last heartbeat came.
    pub last_heartbeat: Option<u128>,
    /// Sources of the latest heartbeats, latest first, each once.
    pub recent_heartbeat_sources: Vec<u16>,
    pub last_error: Option<String>,
    pub clock: SystemClock,
}

/// How many heartbeat sources are remembered.
pub const RECENT_HEARTBEATS: usize = 8;

/// Tells the sources other than `node_id`.
pub open spec fn other_than(node_id: u16) -> spec_fn(u16) -> bool {
    |id: u16| id != node_id
}

/// The remembered sources after a heartbeat from `node_id`: it comes first, the
/// others follow in their order, and the oldest is forgotten when there are too
/// many.
pub open spec fn remembered(recent: Seq<u16>, node_id: u16) -> Seq<u16> {
    let all = seq![node_id] + recent.filter(other_than(node_id));
    if all.len() > RECENT_HEARTBEATS {
        all.take(RECENT_HEARTBEATS as int)
    } else {
        all
    }
}

/// Whether the list shows every node once.
pub open spec fn is_snapshot(list: Seq<NodeEntry>, nodes: Map<u16, NodeEntry>) -> bool {
    exists|ids: Seq<u16>| #[trigger] shows_each(list, ids, nodes)
}

/// Whether the list shows the nodes with the given IDs, which are those of all the
/// nodes, each once.
pub open spec fn shows_each(
    list: Seq<NodeEntry>,
    ids: Seq<u16>,
    nodes: Map<u16, NodeEntry>,
) -> bool {
    &&& ids.no_duplicates()
    &&& ids.to_set() == nodes.dom()
    &&& list == Seq::new(ids.len(), |i: int| nodes[ids[i]])
}

/// One more, unless the counter is at its end.
pub open spec fn one_more(count: u64) -> u64 {
    if count < u64::MAX {
        (count + 1) as u64
    } else {
        u64::MAX
    }
}

/// How long ago `then` is at time `now`.
pub open spec fn age_of(then: Option<u128>, now: u128) -> Option<u128> {
    match then {
        Some(t) => Some(
            if now >= t {
                (now - t) as u128
            } else {
                0
            },
        ),
        None => None,
    }
}

fn age(then: Option<u128>, now: u128) -> (age: Option<u128>)
    ensures
        age == age_of(then, now),
{
    match then {
        Some(t) => Some(now.saturating_sub(t)),
        None => None,
    }
}

fn count_up(count: u64) -> (more: u64)
    ensures
        more == one_more(count),
{
    count.saturating_add(1)
}

/// A result to be sent back on the channel of the request it answers.
pub struct GetInfoAnswer {
    pub reply: SyncSender<Result<GetInfoResult, String>>,
    pub result: Result<GetInfoResult, String>,
}

impl GetInfoAnswer {
    /// Send the result. Nobody may be waiting for it any more.
    pub fn deliver(self)
        ensures
            transport::was_sent(self.reply, self.result),
    {
        let _ = self.reply.send(self.result);
    }
}

/// The state after a heartbeat from `node_id` at time `now`.
pub open spec fn after_heartbeat(
    before: WorkerState,
    after: WorkerState,
    node: NodeEntry,
    now: u128,
) -> bool {
    &&& after.observed_nodes@ == before.observed_nodes@.insert(node.node_id, node)
    &&& after.recent_heartbeat_sources@ == remembered(
        before.recent_heartbeat_sources@,
        node.node_id,
    )
    &&& after == (WorkerState {
        observed_nodes: after.observed_nodes,
        recent_heartbeat_sources: after.recent_heartbeat_sources,
        heartbeat_messages_received: one_more(before.heartbeat_messages_received),
        last_heartbeat: Some(now),
        total_messages_received: one_more(before.total_messages_received),
        last_message: Some(now),
        ..before
    })
}

/// The nodes after `node_id`, if it is among them, has grown older by a second.
pub open spec fn ticked(nodes: Map<u16, NodeEntry>, node_id: u16) -> Map<u16, NodeEntry> {
    if nodes.contains_key(node_id) {
        let node = nodes[node_id];
        nodes.insert(
            node_id,
            NodeEntry {
                uptime: if node.uptime < u32::MAX {
                    (node.uptime + 1) as u32
                } else {
                    u32::MAX
                },
                ..node
            },
        )
    } else {
        nodes
    }
}

/// Whether the diagnostics describe the state at time `now`.
pub open spec fn describes(
    state: WorkerState,
    diagnostics: TransportDiagnostics,
    local_node_id: Option<u16>,
    now: u128,
    pnp_enabled: bool,
) -> bool {
    &&& diagnostics.local_node_id == local_node_id
    &&& diagnostics.observed_node_count == state.observed_nodes@.len()
    &&& diagnostics.total_messages_received == state.total_messages_received
    &&& diagnostics.heartbeat_messages_received == state.heartbeat_messages_received
    &&& diagnostics.get_info_requests_sent == state.get_info_requests_sent
    &&& diagnostics.get_info_responses_received == state.get_info_responses_received
    &&& diagnostics.last_message_age == age_of(state.last_message, now)
    &&& diagnostics.last_heartbeat_age == age_of(state.last_heartbeat, now)
    &&& diagnostics.recent_heartbeat_sources@ == state.recent_heartbeat_sources@
    &&& match state.last_error {
        Some(e) => diagnostics.last_error matches Some(d) && d@ == e@,
        None => diagnostics.last_error is None,
    }
    &&& diagnostics.pnp_enabled == pnp_enabled
    &&& diagnostics.pnp_allocations == state.pnp_allocations
}

/// What answering the waiting request with `result` does: the answer goes back on
/// the request's channel, and no request waits any more. Without a waiting request
/// there is no answer.
pub open spec fn answers(
    before: WorkerState,
    after: WorkerState,
    result: Result<GetInfoResult, String>,
    answer: Option<GetInfoAnswer>,
) -> bool {
    match before.pending_get_info {
        Some(pending) => {
            &&& answer == Some(GetInfoAnswer { reply: pending.reply, result })
            &&& after == (WorkerState { pending_get_info: None, ..before })
        },
        None => answer is None && after == before,
    }
}

/// What looking for a timeout at time `now` does: a request whose deadline has
/// passed is answered with an error.
pub open spec fn times_out(
    before: WorkerState,
    after: WorkerState,
    now: u128,
    answer: Option<GetInfoAnswer>,
) -> bool {
    match before.pending_get_info {
        Some(pending) if now > pending.deadline => {
            &&& answer matches Some(a)
            &&& a.reply == pending.reply
            &&& a.result matches Err(e)
            &&& e@ == "GetInfo request timed out"@
            &&& after == (WorkerState { pending_get_info: None, ..before })
        },
        _ => answer is None && after == before,
    }
}

/// The state with its clock in another state.
pub open spec fn with_clock(state: WorkerState, clock: SystemClock) -> WorkerState {
    WorkerState { clock, ..state }
}

/// Whether the clock of `after` is that of `before`, read once more.
pub open spec fn read_clock(before: WorkerState, after: WorkerState) -> bool {
    &&& after.clock.origin() == before.clock.origin()
    &&& after.clock.latest() >= before.clock.latest()
    &&& exists|reading: u128| #[trigger]
        clock::is_reading(before.clock.origin(), reading) && clock::is_time(
            before.clock.latest(),
            reading,
            after.clock.latest(),
        )
}

/// Whether nothing has been observed, asked or counted yet.
pub open spec fn is_new(state: WorkerState) -> bool {
    &&& state.observed_nodes@ == Map::<u16, NodeEntry>::empty()
    &&& state.pending_get_info is None
    &&& state.pnp_pending_get_info is None
    &&& state.total_messages_received == 0
    &&& state.heartbeat_messages_received == 0
    &&& state.get_info_requests_sent == 0
    &&& state.get_info_responses_received == 0
    &&& state.pnp_allocations == 0
    &&& state.last_message is None
    &&& state.last_heartbeat is None
    &&& state.recent_heartbeat_sources@ == Seq::<u16>::empty()
    &&& state.last_error is None
}

impl Default for WorkerState {
    fn default() -> (state: Self)
        ensures
            is_new(state),
            state.clock.latest() == 0,
            clock::is_moment(state.clock.origin()),
    {
        WorkerState {
            observed_nodes: HashMap::new(),
            pending_get_info: None,
            pnp_pending_get_info: None,
            total_messages_received: 0,
            heartbeat_messages_received: 0,
            get_info_requests_sent: 0,
            get_info_responses_received: 0,
            pnp_allocations: 0,
            last_message: None,
            last_heartbeat: None,
            recent_heartbeat_sources: Vec::new(),
            last_error: None,
            clock: SystemClock::new(),
        }
    }
}

impl WorkerState {
    /// Process a heartbeat that comes from `node_id` now.
    pub fn on_heartbeat(&mut self, node_id: u16, uptime: u32, health: u8, mode: u8)
        ensures
            read_clock(*old(self), *final(self)),
            after_heartbeat(
                with_clock(*old(self), final(self).clock),
                *final(self),
                NodeEntry { node_id, uptime, health, mode },
                final(self).clock.latest(),
            ),
    {
        let now: u128 = self.clock.nanos();
        self.on_heartbeat_at(NodeEntry { node_id, uptime, health, mode }, now);
    }

    /// Process a heartbeat that came at time `now`.
    pub fn on_heartbeat_at(&mut self, node: NodeEntry, now: u128)
        ensures
            after_heartbeat(*old(self), *final(self), node, now),
    {
        self.observed_nodes.insert(node.node_id, node);
        self.heartbeat_messages_received = count_up(self.heartbeat_messages_received);
        self.last_heartbeat = Some(now);
        self.recent_heartbeat_sources = remember(&self.recent_heartbeat_sources, node.node_id);
        self.on_message_received_at(now);
    }

    /// Count a message that came at time `now`.
    pub fn on_message_received_at(&mut self, now: u128)
        ensures
            *final(self) == (WorkerState {
                total_messages_received: one_more(old(self).total_messages_received),
                last_message: Some(now),
                ..*old(self)
            }),
    {
        self.total_messages_received = count_up(self.total_messages_received);
        self.last_message = Some(now);
    }

    /// Count a GetInfo request that was sent.
    pub fn on_get_info_request_sent(&mut self)
        ensures
            *final(self) == (WorkerState {
                get_info_requests_sent: one_more(old(self).get_info_requests_sent),
                ..*old(self)
            }),
    {
        self.get_info_requests_sent = count_up(self.get_info_requests_sent);
    }

    /// Count a GetInfo response that was received.
    pub fn on_get_info_response_received(&mut self)
        ensures
            *final(self) == (WorkerState {
                get_info_responses_received: one_more(old(self).get_info_responses_received),
                ..*old(self)
            }),
    {
        self.get_info_responses_received = count_up(self.get_info_responses_received);
    }

    /// Count a node ID that was assigned.
    pub fn on_pnp_allocated(&mut self)
        ensures
            *final(self) == (WorkerState {
                pnp_allocations: one_more(old(self).pnp_allocations),
                ..*old(self)
            }),
    {
        self.pnp_allocations = count_up(self.pnp_allocations);
    }

    /// Remember an error.
    pub fn record_error(&mut self, error: String)
        ensures
            *final(self) == (WorkerState { last_error: Some(error), ..*old(self) }),
    {
        self.last_error = Some(error);
    }

    /// Show the worker's own node among the observed ones.
    pub fn register_local_node(&mut self, node_id: u16)
        ensures
            final(self).observed_nodes@ == old(self).observed_nodes@.insert(
                node_id,
                NodeEntry { node_id, uptime: 0, health: 0, mode: 0 },
            ),
            *final(self) == (WorkerState {
                observed_nodes: final(self).observed_nodes,
                ..*old(self)
            }),
    {
        self.observed_nodes.insert(node_id, NodeEntry { node_id, uptime: 0, health: 0, mode: 0 });
    }

    /// Let the worker's own node grow older by a second.
    pub fn tick_local_node(&mut self, node_id: u16)
        ensures
            final(self).observed_nodes@ == ticked(old(self).observed_nodes@, node_id),
            *final(self) == (WorkerState {
                observed_nodes: final(self).observed_nodes,
                ..*old(self)
            }),
    {
        let found: Option<NodeEntry> = match self.observed_nodes.get(&node_id) {
            Some(node) => Some(*node),
            None => None,
        };
        if let Some(node) = found {
            let uptime: u32 = node.uptime.saturating_add(1);
            self.observed_nodes.insert(node_id, NodeEntry { uptime, ..node });
        }
    }

    /// The request that waits for an answer is answered with `result`.
    ///
    /// The answer is handed back to be delivered. There is none, and nothing
    /// changes, when no request is waiting.
    pub fn take_get_info_answer(&mut self, result: Result<GetInfoResult, String>) -> (answer:
        Option<GetInfoAnswer>)
        ensures
            answers(*old(self), *final(self), result, answer),
    {
        match self.pending_get_info.take() {
            Some(pending) => Some(GetInfoAnswer { reply: pending.reply, result }),
            None => None,
        }
    }

    /// Provide a completed GetInfo result.
    pub fn on_get_info_response(&mut self, result: Result<GetInfoResult, String>)
        ensures
            *final(self) == (WorkerState { pending_get_info: None, ..*old(self) }),
            old(self).pending_get_info matches Some(pending) ==> transport::was_sent(
                pending.reply,
                result,
            ),
    {
        if let Some(answer) = self.take_get_info_answer(result) {
            answer.deliver();
        }
    }

    /// Time out the pending GetInfo if its deadline has passed now.
    pub fn check_get_info_timeout(&mut self)
        ensures
            read_clock(*old(self), *final(self)),
            exists|answer: Option<GetInfoAnswer>| #[trigger]
                times_out(
                    with_clock(*old(self), final(self).clock),
                    *final(self),
                    final(self).clock.latest(),
                    answer,
                ) && (answer matches Some(a) ==> transport::was_sent(a.reply, a.result)),
    {
        let now: u128 = self.clock.nanos();
        let ghost read = *self;
        let taken = self.take_get_info_timeout(now);
        assert(times_out(read, *self, now, taken));
        if let Some(answer) = taken {
            answer.deliver();
        }
    }

    /// Time out the pending GetInfo if its deadline has passed at time `now`.
    ///
    /// The answer is handed back to be delivered.
    pub fn take_get_info_timeout(&mut self, now: u128) -> (answer: Option<GetInfoAnswer>)
        ensures
            times_out(*old(self), *final(self), now, answer),
    {
        let expired: bool = match &self.pending_get_info {
            Some(pending) => now > pending.deadline,
            None => false,
        };
        if expired {
            self.take_get_info_answer(Err("GetInfo request timed out".to_owned()))
        } else {
            None
        }
    }

    /// Time out the pending GetInfo of the allocator if its deadline has passed at
    /// time `now`, and tell which node did not answer.
    pub fn check_pnp_get_info_timeout(&mut self, now: u128) -> (timed_out: Option<u16>)
        ensures
            match old(self).pnp_pending_get_info {
                Some(pending) if now > pending.deadline => {
                    &&& timed_out == Some(pending.node_id)
                    &&& *final(self) == (WorkerState { pnp_pending_get_info: None, ..*old(self) })
                },
                _ => timed_out is None && *final(self) == *old(self),
            },
    {
        let expired: Option<u16> = match &self.pnp_pending_get_info {
            Some(pending) => if now > pending.deadline {
                Some(pending.node_id)
            } else {
                None
            },
            None => None,
        };
        if expired.is_some() {
            self.pnp_pending_get_info = None;
        }
        expired
    }

    /// Return a snapshot of the current node list, in no particular order.
    pub fn node_list(&self) -> (list: Vec<NodeEntry>)
        ensures
            is_snapshot(list@, self.observed_nodes@),
    {
        let mut list: Vec<NodeEntry> = Vec::new();
        let keys = self.observed_nodes.keys();
        let ghost ids: Seq<u16> = vstd::std_specs::iter::IteratorSpec::remaining(&keys).unref();
        for id in it: keys
            invariant
                it.seq().unref() == ids,
                ids.to_set() == self.observed_nodes@.dom(),
                list@ == Seq::new(it.index() as nat, |i: int| self.observed_nodes@[ids[i]]),
        {
            assert(*id == ids[it.index()]);
            assert(ids.to_set().contains(*id));
            if let Some(node) = self.observed_nodes.get(id) {
                list.push(*node);
            }
        }
        assert(shows_each(list@, ids, self.observed_nodes@));
        list
    }

    /// Return the diagnostics as they are at time `now`.
    pub fn diagnostics_at(&self, local_node_id: Option<u16>, now: u128) -> (diagnostics:
        TransportDiagnostics)
        ensures
            describes(*self, diagnostics, local_node_id, now, false),
    {
        let last_error: Option<String> = match &self.last_error {
            Some(e) => Some(e.clone()),
            None => None,
        };
        TransportDiagnostics {
            local_node_id,
            observed_node_count: self.observed_nodes.len(),
            total_messages_received: self.total_messages_received,
            heartbeat_messages_received: self.heartbeat_messages_received,
            get_info_requests_sent: self.get_info_requests_sent,
            get_info_responses_received: self.get_info_responses_received,
            last_message_age: age(self.last_message, now),
            last_heartbeat_age: age(self.last_heartbeat, now),
            recent_heartbeat_sources: self.recent_heartbeat_sources.clone(),
            last_error,
            pnp_enabled: false,
            pnp_allocations: self.pnp_allocations,
        }
    }
}

fn remember(recent: &Vec<u16>, node_id: u16) -> (sources: Vec<u16>)
    ensures
        sources@ == remembered(recent@, node_id),
{
    let mut sources: Vec<u16> = Vec::new();
    sources.push(node_id);
    let ghost others = other_than(node_id);
    assert(recent@.take(0).filter(others) =~= Seq::<u16>::empty());
    let mut i: usize = 0;
    while i < recent.len()
        invariant
            i <= recent@.len(),
            others == other_than(node_id),
            sources@ =~= seq![node_id] + recent@.take(i as int).filter(others),
        decreases recent@.len() - i,
    {
        assert(recent@.take(i + 1).drop_last() =~= recent@.take(i as int));
        assert(recent@.take(i + 1).last() == recent@[i as int]);
        reveal_with_fuel(Seq::filter, 2);
        if recent[i] != node_id {
            sources.push(recent[i]);
        }
        i = i + 1;
    }
    assert(recent@.take(i as int) =~= recent@);
    sources.truncate(RECENT_HEARTBEATS);
    sources
}

// ─── laws ────────────────────────────────────────────────────────────────────

/// Whether every node is stored under its own ID.
pub open spec fn is_keyed(nodes: Map<u16, NodeEntry>) -> bool {
    forall|id: u16| #[trigger] nodes.contains_key(id) ==> nodes[id].node_id == id
}

/// A request is answered at most once, whether by a response or by its timeout.
pub proof fn requests_are_answered_once(
    before: WorkerState,
    between: WorkerState,
    after: WorkerState,
    result: Result<GetInfoResult, String>,
    other: Result<GetInfoResult, String>,
    now: u128,
    later: u128,
    first: Option<GetInfoAnswer>,
    second: Option<GetInfoAnswer>,
)
    requires
        first is Some,
        answers(before, between, result, first) || times_out(before, between, now, first),
        answers(between, after, other, second) || times_out(between, after, later, second),
    ensures
        second is None,
        after == between,
{
}

/// A request is not timed out before its deadline.
pub proof fn deadlines_are_kept(
    before: WorkerState,
    after: WorkerState,
    now: u128,
    answer: Option<GetInfoAnswer>,
)
    requires
        times_out(before, after, now, answer),
        before.pending_get_info matches Some(pending) ==> now <= pending.deadline,
    ensures
        answer is None,
        after == before,
{
}

/// Heartbeats keep every node under its own ID, and the node that was heard last
/// is the first of the remembered sources, of which there are at most eight, each
/// once.
pub proof fn heartbeats_are_remembered(
    before: WorkerState,
    after: WorkerState,
    node: NodeEntry,
    now: u128,
)
    requires
        after_heartbeat(before, after, node, now),
        is_keyed(before.observed_nodes@),
        before.recent_heartbeat_sources@.no_duplicates(),
    ensures
        is_keyed(after.observed_nodes@),
        after.observed_nodes@[node.node_id] == node,
        after.recent_heartbeat_sources@.len() <= RECENT_HEARTBEATS,
        after.recent_heartbeat_sources@.no_duplicates(),
        after.recent_heartbeat_sources@[0] == node.node_id,
{
    let recent = before.recent_heartbeat_sources@;
    let others = recent.filter(other_than(node.node_id));
    filtered_is_distinct(recent, node.node_id);
    let all = seq![node.node_id] + others;
    assert(all.no_duplicates()) by {
        assert forall|i: int, j: int| 0 <= i < j < all.len() implies all[i] != all[j] by {
            assert(all[j] == others[j - 1]);
            if i > 0 {
                assert(all[i] == others[i - 1]);
            }
        }
    }
    assert(all[0] == node.node_id);
}

proof fn filtered_is_distinct(recent: Seq<u16>, node_id: u16)
    requires
        recent.no_duplicates(),
    ensures
        recent.filter(other_than(node_id)).no_duplicates(),
        forall|i: int|
            0 <= i < recent.filter(other_than(node_id)).len() ==> #[trigger] recent.filter(
                other_than(node_id),
            )[i] != node_id && recent.contains(recent.filter(other_than(node_id))[i]),
    decreases recent.len(),
{
    reveal_with_fuel(Seq::filter, 1);
    if recent.len() > 0 {
        let shorter = recent.drop_last();
        assert(shorter.no_duplicates()) by {
            assert forall|i: int, j: int| 0 <= i < j < shorter.len() implies shorter[i]
                != shorter[j] by {
                assert(recent[i] != recent[j]);
            }
        }
        filtered_is_distinct(shorter, node_id);
        let kept = shorter.filter(other_than(node_id));
        let all = recent.filter(other_than(node_id));
        assert forall|i: int| 0 <= i < kept.len() implies #[trigger] kept[i] != recent.last()
            && recent.contains(kept[i]) by {
            let j = choose|j: int| 0 <= j < shorter.len() && shorter[j] == kept[i];
            assert(recent[j] == kept[i]);
        }
        assert(recent[recent.len() - 1] == recent.last());
        assert forall|i: int| 0 <= i < all.len() implies #[trigger] all[i] != node_id
            && recent.contains(all[i]) by {
            if i < kept.len() {
                assert(all[i] == kept[i]);
            }
        }
    }
}

/// A snapshot shows no node ID twice.
pub proof fn snapshots_show_nodes_once(
    list: Seq<NodeEntry>,
    nodes: Map<u16, NodeEntry>,
    i: int,
    j: int,
)
    requires
        is_snapshot(list, nodes),
        is_keyed(nodes),
        0 <= i < j < list.len(),
    ensures
        list[i].node_id != list[j].node_id,
{
    let ids = choose|ids: Seq<u16>| #[trigger] shows_each(list, ids, nodes);
    assert(ids.to_set().contains(ids[i]));
    assert(ids.to_set().contains(ids[j]));
    assert(nodes.contains_key(ids[i]) && nodes.contains_key(ids[j]));
}

/// A heartbeat shows in the list of nodes: the node as it was heard, once, and every
/// other node as before.
pub proof fn heard_nodes_are_listed(
    before: WorkerState,
    after: WorkerState,
    node: NodeEntry,
    now: u128,
    old_list: Seq<NodeEntry>,
    new_list: Seq<NodeEntry>,
    other: NodeEntry,
)
    requires
        after_heartbeat(before, after, node, now),
        is_keyed(before.observed_nodes@),
        is_snapshot(old_list, before.observed_nodes@),
        is_snapshot(new_list, after.observed_nodes@),
    ensures
        new_list.contains(node),
        other.node_id == node.node_id && new_list.contains(other) ==> other == node,
        other.node_id != node.node_id ==> (new_list.contains(other) <==> old_list.contains(other)),
{
    listed_nodes_are_known(old_list, before.observed_nodes@, other);
    listed_nodes_are_known(new_list, after.observed_nodes@, other);
    listed_nodes_are_known(new_list, after.observed_nodes@, node);
}

/// A node is listed where it is stored under its ID, and nowhere else.
proof fn listed_nodes_are_known(list: Seq<NodeEntry>, nodes: Map<u16, NodeEntry>, node: NodeEntry)
    requires
        is_snapshot(list, nodes),
        is_keyed(nodes),
    ensures
        list.contains(node) <==> nodes.contains_key(node.node_id) && nodes[node.node_id] == node,
{
    let ids = choose|ids: Seq<u16>| #[trigger] shows_each(list, ids, nodes);
    if list.contains(node) {
        let i = choose|i: int| 0 <= i < list.len() && list[i] == node;
        assert(ids.to_set().contains(ids[i]));
        assert(nodes.contains_key(ids[i]));
    }
    if nodes.contains_key(node.node_id) && nodes[node.node_id] == node {
        assert(ids.to_set().contains(node.node_id));
        let i = choose|i: int| 0 <= i < ids.len() && ids[i] == node.node_id;
        assert(list[i] == node);
    }
}

/// What the diagnostics say after a heartbeat: one message and one heartbeat more, the
/// node counted among the observed and named as the latest source, and the time since
/// then; all else as before.
pub proof fn heartbeats_show_in_diagnostics(
    before: WorkerState,
    after: WorkerState,
    node: NodeEntry,
    now: u128,
    later: u128,
    local_node_id: Option<u16>,
    enabled: bool,
    first: TransportDiagnostics,
    second: TransportDiagnostics,
)
    requires
        after_heartbeat(before, after, node, now),
        describes(before, first, local_node_id, now, enabled),
        describes(after, second, local_node_id, later, enabled),
        now <= later,
    ensures
        first.total_messages_received < u64::MAX ==> second.total_messages_received
            == first.total_messages_received + 1,
        first.heartbeat_messages_received < u64::MAX ==> second.heartbeat_messages_received
            == first.heartbeat_messages_received + 1,
        before.observed_nodes@.contains_key(node.node_id) ==> second.observed_node_count
            == first.observed_node_count,
        !before.observed_nodes@.contains_key(node.node_id) ==> second.observed_node_count
            == first.observed_node_count + 1,
        second.last_message_age == Some((later - now) as u128),
        second.last_heartbeat_age == Some((later - now) as u128),
        second.recent_heartbeat_sources@.len() > 0,
        second.recent_heartbeat_sources@[0] == node.node_id,
        second.local_node_id == first.local_node_id,
        second.get_info_requests_sent == first.get_info_requests_sent,
        second.get_info_responses_received == first.get_info_responses_received,
        second.pnp_enabled == first.pnp_enabled,
        second.pnp_allocations == first.pnp_allocations,
{
    let others = before.recent_heartbeat_sources@.filter(other_than(node.node_id));
    assert((seq![node.node_id] + others)[0] == node.node_id);
    assert(before.observed_nodes@.dom().finite());
}

/// Of the sources that were remembered, those other than the one heard now are still
/// remembered as long as there are fewer than eight of them.
pub proof fn few_sources_are_all_remembered(recent: Seq<u16>, node_id: u16, other: u16)
    requires
        recent.len() < 8,
        recent.contains(other),
    ensures
        remembered(recent, node_id).contains(other),
        remembered(recent, node_id).contains(node_id),
{
    let others = recent.filter(other_than(node_id));
    let all = seq![node_id] + others;
    assert(all[0] == node_id);
    broadcast use vstd::seq_lib::group_filter_ensures;
    filtered_is_no_longer(recent, node_id);
    if other != node_id {
        let i = choose|i: int| 0 <= i < recent.len() && recent[i] == other;
        assert(other_than(node_id)(recent[i]));
        assert(others.contains(recent[i]));
        let j = choose|j: int| 0 <= j < others.len() && others[j] == other;
        assert(all[j + 1] == other);
    }
}

proof fn filtered_is_no_longer(recent: Seq<u16>, node_id: u16)
    ensures
        recent.filter(other_than(node_id)).len() <= recent.len(),
    decreases recent.len(),
{
    reveal_with_fuel(Seq::filter, 1);
    if recent.len() > 0 {
        filtered_is_no_longer(recent.drop_last(), node_id);
    }
}

/// A message that is no heartbeat counts as a message only, and is the latest.
pub proof fn messages_are_counted(
    before: WorkerState,
    now: u128,
    local_node_id: Option<u16>,
    enabled: bool,
    first: TransportDiagnostics,
    second: TransportDiagnostics,
)
    requires
        describes(before, first, local_node_id, now, enabled),
        describes(
            (WorkerState {
                total_messages_received: one_more(before.total_messages_received),
                last_message: Some(now),
                ..before
            }),
            second,
            local_node_id,
            now,
            enabled,
        ),
    ensures
        first.total_messages_received < u64::MAX ==> second.total_messages_received
            == first.total_messages_received + 1,
        second.heartbeat_messages_received == first.heartbeat_messages_received,
        second.get_info_requests_sent == first.get_info_requests_sent,
        second.get_info_responses_received == first.get_info_responses_received,
        second.pnp_allocations == first.pnp_allocations,
        second.observed_node_count == first.observed_node_count,
        second.last_heartbeat_age == first.last_heartbeat_age,
        second.last_message_age == Some(0u128),
{
}

/// A GetInfo request that was sent is counted as such.
pub proof fn requests_are_counted(
    before: WorkerState,
    now: u128,
    local_node_id: Option<u16>,
    enabled: bool,
    first: TransportDiagnostics,
    second: TransportDiagnostics,
)
    requires
        describes(before, first, local_node_id, now, enabled),
        describes(
            (WorkerState {
                get_info_requests_sent: one_more(before.get_info_requests_sent),
                ..before
            }),
            second,
            local_node_id,
            now,
            enabled,
        ),
    ensures
        first.get_info_requests_sent < u64::MAX ==> second.get_info_requests_sent
            == first.get_info_requests_sent + 1,
        second.total_messages_received == first.total_messages_received,
        second.heartbeat_messages_received == first.heartbeat_messages_received,
        second.get_info_responses_received == first.get_info_responses_received,
        second.pnp_allocations == first.pnp_allocations,
        second.observed_node_count == first.observed_node_count,
        second.last_heartbeat_age == first.last_heartbeat_age,
        second.last_message_age == first.last_message_age,
{
}

/// A GetInfo response that was received is counted as such.
pub proof fn responses_are_counted(
    before: WorkerState,
    now: u128,
    local_node_id: Option<u16>,
    enabled: bool,
    first: TransportDiagnostics,
    second: TransportDiagnostics,
)
    requires
        describes(before, first, local_node_id, now, enabled),
        describes(
            (WorkerState {
                get_info_responses_received: one_more(before.get_info_responses_received),
                ..before
            }),
            second,
            local_node_id,
            now,
            enabled,
        ),
    ensures
        first.get_info_responses_received < u64::MAX ==> second.get_info_responses_received
            == first.get_info_responses_received + 1,
        second.total_messages_received == first.total_messages_received,
        second.heartbeat_messages_received == first.heartbeat_messages_received,
        second.get_info_requests_sent == first.get_info_requests_sent,
        second.pnp_allocations == first.pnp_allocations,
        second.observed_node_count == first.observed_node_count,
        second.last_heartbeat_age == first.last_heartbeat_age,
        second.last_message_age == first.last_message_age,
{
}

/// A node ID that was assigned is counted as such.
pub proof fn allocations_are_counted(
    before: WorkerState,
    now: u128,
    local_node_id: Option<u16>,
    enabled: bool,
    first: TransportDiagnostics,
    second: TransportDiagnostics,
)
    requires
        describes(before, first, local_node_id, now, enabled),
        describes(
            (WorkerState {
                pnp_allocations: one_more(before.pnp_allocations),
                ..before
            }),
            second,
            local_node_id,
            now,
            enabled,
        ),
    ensures
        first.pnp_allocations < u64::MAX ==> second.pnp_allocations
            == first.pnp_allocations + 1,
        second.total_messages_received == first.total_messages_received,
        second.heartbeat_messages_received == first.heartbeat_messages_received,
        second.get_info_requests_sent == first.get_info_requests_sent,
        second.get_info_responses_received == first.get_info_responses_received,
        second.observed_node_count == first.observed_node_count,
        second.last_heartbeat_age == first.last_heartbeat_age,
        second.last_message_age == first.last_message_age,
{
}

} // verus!
