//! Cyphal/UDP transport.

use std::sync::mpsc::SyncSender;

use vstd::prelude::*;

use crate::clock;
use crate::pnp::allocator::{self, PnpAllocator};
use crate::pnp::db;
use crate::text;
use crate::transport::handler::{
    self, CommandAction, GetInfoOrder, MessageOutcome, Publication, ResponseOutcome, Step,
    WorkerAction,
};
use crate::transport::messages;
use crate::transport::state::{
    self, GetInfoAnswer, GetInfoResult, NodeEntry, PnpGetInfoPending, WorkerState,
};
use crate::transport::TransportCommand;

verus! {

/// The highest node ID that is assigned to nodes on a UDP transport.
pub const MAX_NODE_ID: u16 = 65534;

/// The standard Cyphal/UDP port.
pub const DEFAULT_PORT: u16 = 9382;

/// `UdpNodeId::try_from` accepts every 16-bit node ID but the highest.
#[verifier::external_body]
pub(crate) fn udp_node_id_accepts(node_id: u16) -> (accepted: bool)
    ensures
        accepted == (node_id != 0xFFFF),
{
    canadensis_udp::UdpNodeId::try_from(node_id).is_ok()
}

/// Whether a UDP transport can have the node ID.
pub fn is_node_id(node_id: u16) -> (valid: bool)
    ensures
        valid == (node_id != 0xFFFF),
{
    udp_node_id_accepts(node_id)
}

/// The port to use.
pub fn effective_port(port: Option<u16>) -> (effective: u16)
    ensures
        effective == (match port {
            Some(p) => p,
            None => 9382,
        }),
{
    match port {
        Some(p) => p,
        None => DEFAULT_PORT,
    }
}

/// Why a UDP worker refuses a command, if it does.
pub open spec fn refusal_of(cmd: TransportCommand) -> Option<Seq<char>> {
    match cmd {
        TransportCommand::GetInfo { node_id, .. } if node_id == 0xFFFF => Some(
            "Invalid UDP node ID: "@ + text::decimal(node_id as nat),
        ),
        _ => None,
    }
}

/// What a UDP worker does with commands and transfers.
pub struct UdpHandler {
    pub state: WorkerState,
    /// The node-ID allocator, where it is enabled.
    pub pnp: Option<PnpAllocator>,
    pub local_node_id: u16,
    /// When the per-second tasks were run last.
    pub last_second: u128,
}

/// Whether two allocators are both there and related, or both absent.
pub open spec fn both_or_none(
    before: Option<PnpAllocator>,
    after: Option<PnpAllocator>,
    related: spec_fn(PnpAllocator, PnpAllocator) -> bool,
) -> bool {
    match (before, after) {
        (Some(b), Some(a)) => related(b, a),
        (None, None) => true,
        _ => false,
    }
}

/// What a message on the allocation subject 2.0 does.
pub open spec fn v2_handled(
    before: UdpHandler,
    after: UdpHandler,
    source: Option<u16>,
    payload: Seq<u8>,
    publish: Option<Publication>,
) -> bool {
    &&& before.pnp matches Some(b)
    &&& after.pnp matches Some(a)
    &&& match publish {
        Some(Publication::V2(response)) => {
            &&& allocator::served_v2(
                &b,
                &a,
                messages::octets(payload, 2, 16),
                source,
                Some(response),
            )
            &&& after.state == (WorkerState {
                pnp_allocations: state::one_more(before.state.pnp_allocations),
                ..before.state
            })
        },
        Some(_) => false,
        None => {
            &&& allocator::served_v2(&b, &a, messages::octets(payload, 2, 16), source, None)
            &&& after.state == before.state
        },
    }
}

/// What a message on the allocation subject 1.0 does. One that cannot be read does
/// nothing.
pub open spec fn v1_handled(
    before: UdpHandler,
    after: UdpHandler,
    source: Option<u16>,
    payload: Seq<u8>,
    publish: Option<Publication>,
) -> bool {
    let hash = messages::hash_of(payload);
    let is_request = messages::octet(payload, 6) == 0;
    &&& before.pnp matches Some(b)
    &&& after.pnp matches Some(a)
    &&& match publish {
        Some(Publication::V1(response)) => {
            &&& allocator::served_v1(&b, &a, hash, is_request, source, Some(response))
            &&& after.state == (WorkerState {
                pnp_allocations: state::one_more(before.state.pnp_allocations),
                ..before.state
            })
        },
        Some(_) => false,
        None => {
            &&& after.state == before.state
            &&& if messages::octet(payload, 6) <= 1 {
                allocator::served_v1(&b, &a, hash, is_request, source, None)
            } else {
                a == b
            }
        },
    }
}

/// Whether the response comes from the node that a command asked.
pub open spec fn answers_command(state: WorkerState, source: u16) -> bool {
    state.pending_get_info matches Some(pending) && pending.node_id == source
}

/// Whether the response comes from the node that the allocator asked.
pub open spec fn answers_allocator(state: WorkerState, source: u16) -> bool {
    state.pnp_pending_get_info matches Some(pending) && pending.node_id == source
}

/// The state after a GetInfo response from `source` at time `now`.
pub open spec fn after_response(state: WorkerState, source: u16, now: u128) -> WorkerState {
    let command = answers_command(state, source);
    let allocator = answers_allocator(state, source);
    let responses = state.get_info_responses_received;
    let counted = if command {
        state::one_more(responses)
    } else {
        responses
    };
    WorkerState {
        pending_get_info: if command {
            None
        } else {
            state.pending_get_info
        },
        pnp_pending_get_info: if allocator {
            None
        } else {
            state.pnp_pending_get_info
        },
        get_info_responses_received: if allocator {
            state::one_more(counted)
        } else {
            counted
        },
        total_messages_received: state::one_more(state.total_messages_received),
        last_message: Some(now),
        ..state
    }
}

/// What a command does at time `now`, and what has to be done about it.
pub open spec fn command_handled(
    before: UdpHandler,
    after: UdpHandler,
    cmd: TransportCommand,
    has_requester: bool,
    now: u128,
    action: CommandAction,
) -> bool {
    &&& after.same_worker(&before)
    &&& match cmd {
        TransportCommand::ListNodes { reply } => {
            &&& after == before
            &&& action matches CommandAction::Nodes { reply: r, nodes }
            &&& r == reply
            &&& state::is_snapshot(nodes@, before.state.observed_nodes@)
        },
        TransportCommand::Diagnostics { reply } => {
            &&& after == before
            &&& action matches CommandAction::Diagnostics { reply: r, diagnostics }
            &&& r == reply
            &&& state::describes(
                before.state,
                diagnostics,
                Some(before.local_node_id),
                now,
                before.pnp is Some,
            )
        },
        TransportCommand::GetInfo { node_id, reply } => {
            &&& after.pnp == before.pnp
            &&& handler::is_plan(
                GetInfoOrder { node_id, reply },
                refusal_of(cmd),
                has_requester,
                action,
            )
            &&& if has_requester || refusal_of(cmd) is Some {
                after.state == before.state
            } else {
                &&& after.state.last_error matches Some(e)
                &&& e@ == "GetInfo requester not available"@
                &&& after.state == (WorkerState {
                    last_error: after.state.last_error,
                    ..before.state
                })
            }
        },
        TransportCommand::ListAllocations { reply } => {
            &&& after.state == before.state
            &&& action matches CommandAction::Allocations { reply: r, entries }
            &&& r == reply
            &&& match (before.pnp, after.pnp) {
                (Some(b), Some(a)) => allocator::listed(&b, &a, entries@),
                (None, None) => entries@.len() == 0,
                _ => false,
            }
        },
    }
}

/// What looking for the next node to ask for the allocator does: the first in the
/// queue is taken, unless an answer is still awaited. One that cannot be asked may
/// be queued again at once.
pub open spec fn pnp_dispatched(
    before: UdpHandler,
    after: UdpHandler,
    has_requester: bool,
    node_id: Option<u16>,
) -> bool {
    &&& after.same_worker(&before)
    &&& after.state == before.state
    &&& match before.pnp {
        Some(b) if before.state.pnp_pending_get_info is None && b.queue().len() > 0 => {
            let first = b.queue()[0];
            let askable = has_requester && first != 0xFFFF;
            &&& node_id == (if askable {
                Some(first)
            } else {
                None
            })
            &&& after.pnp matches Some(a)
            &&& a.database() == b.database()
            &&& a.local() == b.local()
            &&& a.max() == b.max()
            &&& a.reading() == b.reading()
            &&& a.started() == b.started()
            &&& a.queue() == b.queue().skip(1)
            &&& a.queried() == (if askable {
                b.queried()
            } else {
                b.queried().remove(first)
            })
        },
        _ => node_id is None && both_or_none(
            before.pnp,
            after.pnp,
            |b: PnpAllocator, a: PnpAllocator|
                a.database() == b.database() && a.local() == b.local() && a.max() == b.max()
                    && a.started() == b.started() && a.same_queries(&b),
        ),
    }
}

/// What looking for a timeout of the allocator's request at time `now` does.
pub open spec fn pnp_timed_out(before: UdpHandler, after: UdpHandler, now: u128) -> bool {
    match before.state.pnp_pending_get_info {
        Some(pending) if now > pending.deadline => {
            &&& after.same_worker(&before)
            &&& after.state == (WorkerState { pnp_pending_get_info: None, ..before.state })
            &&& both_or_none(
                before.pnp,
                after.pnp,
                |b: PnpAllocator, a: PnpAllocator|
                    allocator::result_reported(&b, &a, pending.node_id, None),
            )
        },
        _ => after == before,
    }
}

/// What having tried to send a GetInfo request of the allocator does: its answer is
/// awaited, or the node may be queued again at once.
pub open spec fn pnp_request_settled(
    before: UdpHandler,
    after: UdpHandler,
    node_id: u16,
    sent: bool,
    now: u128,
) -> bool {
    &&& after.same_worker(&before)
    &&& if sent {
        &&& after.pnp == before.pnp
        &&& after.state == (WorkerState {
            pnp_pending_get_info: Some(
                PnpGetInfoPending {
                    node_id,
                    deadline: clock::later(now, handler::PNP_GET_INFO_TIMEOUT),
                },
            ),
            get_info_requests_sent: state::one_more(before.state.get_info_requests_sent),
            ..before.state
        })
    } else {
        &&& after.state == before.state
        &&& both_or_none(
            before.pnp,
            after.pnp,
            |b: PnpAllocator, a: PnpAllocator| allocator::result_reported(&b, &a, node_id, None),
        )
    }
}

/// What a worker does once there are no more commands at time `now`: a request that
/// has timed out is answered, and then the allocator's next request is sent; or,
/// without one, the allocator learns of a timeout and transfers are received.
pub open spec fn commands_done(
    before: UdpHandler,
    after: UdpHandler,
    has_requester: bool,
    now: u128,
    step: Step,
    answered: UdpHandler,
    dispatched: UdpHandler,
    answer: Option<GetInfoAnswer>,
    node_id: Option<u16>,
) -> bool {
    &&& answered == (UdpHandler { state: answered.state, ..before })
    &&& state::times_out(before.state, answered.state, now, answer)
    &&& handler::delivers(answer, step.deliver)
    &&& pnp_dispatched(answered, dispatched, has_requester, node_id)
    &&& match node_id {
        Some(id) => step.next == WorkerAction::SendPnpGetInfo(id) && after == dispatched,
        None => step.next is Receive && pnp_timed_out(dispatched, after, now),
    }
}

impl UdpHandler {
    /// Whether it is the handler of the same worker, between the same per-second
    /// tasks.
    pub open spec fn same_worker(&self, other: &UdpHandler) -> bool {
        self.local_node_id == other.local_node_id && self.last_second == other.last_second
    }

    /// The handler of a worker whose own node is `local_node_id`, and which starts at
    /// time `now`.
    pub fn new(local_node_id: u16, pnp: Option<PnpAllocator>, now: u128) -> (handler: Self)
        ensures
            handler.local_node_id == local_node_id,
            handler.last_second == now,
            handler.pnp == pnp,
            handler.state.observed_nodes@ == map![
                local_node_id => NodeEntry { node_id: local_node_id, uptime: 0, health: 0, mode: 0 }
            ],
            exists|new: WorkerState| #[trigger]
                state::is_new(new) && handler.state == (WorkerState {
                    observed_nodes: handler.state.observed_nodes,
                    ..new
                }),
    {
        let mut state = WorkerState::default();
        let ghost new = state;
        state.register_local_node(local_node_id);
        assert(state::is_new(new));
        UdpHandler { state, pnp, local_node_id, last_second: now }
    }

    /// Decide what to do about a command at time `now`.
    pub fn handle_command(
        &mut self,
        cmd: TransportCommand,
        has_requester: bool,
        now: u128,
    ) -> (action: CommandAction)
        ensures
            command_handled(*old(self), *final(self), cmd, has_requester, now, action),
    {
        match cmd {
            TransportCommand::ListNodes { reply } => CommandAction::Nodes {
                reply,
                nodes: self.state.node_list(),
            },
            TransportCommand::Diagnostics { reply } => {
                let mut diagnostics = self.state.diagnostics_at(Some(self.local_node_id), now);
                diagnostics.pnp_enabled = self.pnp.is_some();
                CommandAction::Diagnostics { reply, diagnostics }
            },
            TransportCommand::GetInfo { node_id, reply } => {
                let refusal: Option<String> = if udp_node_id_accepts(node_id) {
                    None
                } else {
                    Some(handler::number_text("Invalid UDP node ID: ", node_id))
                };
                if !has_requester && refusal.is_none() {
                    self.state.record_error("GetInfo requester not available".to_owned());
                }
                handler::plan_get_info(GetInfoOrder { node_id, reply }, refusal, has_requester)
            },
            TransportCommand::ListAllocations { reply } => {
                let entries = match &mut self.pnp {
                    Some(pnp) => pnp.list_allocations(),
                    None => Vec::new(),
                };
                CommandAction::Allocations { reply, entries }
            },
        }
    }

    /// A GetInfo request for a command could not be sent.
    pub fn on_request_failed(&mut self, order: GetInfoOrder, error: &str) -> (answer: GetInfoAnswer)
        ensures
            final(self).same_worker(old(self)),
            final(self).pnp == old(self).pnp,
            final(self).state.last_error matches Some(e) && e@ == "GetInfo request send failed: "@
                + error@,
            final(self).state == (WorkerState {
                last_error: final(self).state.last_error,
                ..old(self).state
            }),
            answer.reply == order.reply,
            handler::is_error(answer.result, "Failed to send GetInfo request: "@ + error@),
    {
        self.state.record_error(handler::detail_text("GetInfo request send failed: ", error));
        handler::send_failure(order, error)
    }

    /// Remember that receiving failed.
    pub fn on_receive_failed(&mut self, error: &str)
        ensures
            final(self).same_worker(old(self)),
            final(self).pnp == old(self).pnp,
            final(self).state.last_error matches Some(e) && e@ == "Receive error: "@ + error@,
            final(self).state == (WorkerState {
                last_error: final(self).state.last_error,
                ..old(self).state
            }),
    {
        self.state.record_error(handler::detail_text("Receive error: ", error));
    }

    /// Process a message at time `now`.
    ///
    /// Heartbeats are recorded. Allocation requests are served where the allocator
    /// is enabled, and the response is handed back to be published.
    pub fn handle_message(
        &mut self,
        subject: u16,
        source: Option<u16>,
        payload: &[u8],
        now: u128,
    ) -> (outcome: MessageOutcome)
        ensures
            final(self).same_worker(old(self)),
            outcome.handled == (subject == messages::HEARTBEAT_SUBJECT || (old(self).pnp is Some && (
            subject == messages::PNP_V2_SUBJECT || subject == messages::PNP_V1_SUBJECT))),
            if subject == messages::HEARTBEAT_SUBJECT {
                &&& outcome.publish is None
                &&& state::after_heartbeat(
                    old(self).state,
                    final(self).state,
                    handler::heard_node(source, payload@),
                    now,
                )
                &&& both_or_none(
                    old(self).pnp,
                    final(self).pnp,
                    |b: PnpAllocator, a: PnpAllocator|
                        a.reading() == b.reading() && allocator::heard_at(
                            &b,
                            &a,
                            handler::heard_node(source, payload@).node_id,
                            now,
                        ),
                )
            } else if subject == messages::PNP_V2_SUBJECT && old(self).pnp is Some {
                v2_handled(*old(self), *final(self), source, payload@, outcome.publish)
            } else if subject == messages::PNP_V1_SUBJECT && old(self).pnp is Some {
                v1_handled(*old(self), *final(self), source, payload@, outcome.publish)
            } else {
                outcome.publish is None && *final(self) == *old(self)
            },
    {
        if subject == messages::HEARTBEAT_SUBJECT {
            let handled: bool = handler::plain_message(
                &mut self.state,
                subject,
                source,
                payload,
                now,
            );
            let node_id: u16 = match source {
                Some(id) => id,
                None => handler::ANONYMOUS,
            };
            if let Some(pnp) = &mut self.pnp {
                pnp.on_heartbeat_at(node_id, now);
            }
            return MessageOutcome { handled, publish: None };
        }
        if let Some(pnp) = &mut self.pnp {
            if subject == messages::PNP_V2_SUBJECT {
                if let Some(message) = messages::read_allocation_v2(payload) {
                    if let Some(response) = pnp.on_allocation_v2(&message, source) {
                        self.state.on_pnp_allocated();
                        return MessageOutcome {
                            handled: true,
                            publish: Some(Publication::V2(response)),
                        };
                    }
                }
                return MessageOutcome { handled: true, publish: None };
            }
            if subject == messages::PNP_V1_SUBJECT {
                if let Some(message) = messages::read_allocation_v1(payload) {
                    if let Some(response) = pnp.on_allocation_v1(&message, source) {
                        self.state.on_pnp_allocated();
                        return MessageOutcome {
                            handled: true,
                            publish: Some(Publication::V1(response)),
                        };
                    }
                }
                return MessageOutcome { handled: true, publish: None };
            }
        }
        MessageOutcome { handled: false, publish: None }
    }

    /// Process a response at time `now`.
    ///
    /// A GetInfo response answers the command that asked its source, and tells the
    /// allocator the unique ID it asked for.
    pub fn handle_response(&mut self, service: u16, source: u16, payload: &[u8], now: u128) -> (
        outcome: ResponseOutcome)
        ensures
            final(self).same_worker(old(self)),
            outcome.handled == (service == messages::GET_INFO_SERVICE && (answers_command(
                old(self).state,
                source,
            ) || answers_allocator(old(self).state, source))),
            if outcome.handled {
                &&& final(self).state == after_response(old(self).state, source, now)
                &&& if answers_command(old(self).state, source) {
                    &&& outcome.answer matches Some(answer)
                    &&& answer.reply == old(self).state.pending_get_info->0.reply
                    &&& handler::reports(source, payload@, answer.result)
                } else {
                    outcome.answer is None
                }
                &&& if answers_allocator(old(self).state, source) {
                    both_or_none(
                        old(self).pnp,
                        final(self).pnp,
                        |b: PnpAllocator, a: PnpAllocator|
                            allocator::result_reported(
                                &b,
                                &a,
                                source,
                                handler::reported_unique_id(payload@),
                            ),
                    )
                } else {
                    final(self).pnp == old(self).pnp
                }
            } else {
                outcome.answer is None && *final(self) == *old(self)
            },
    {
        if service != messages::GET_INFO_SERVICE {
            return ResponseOutcome { handled: false, answer: None };
        }
        let matches_command: bool = match &self.state.pending_get_info {
            Some(pending) => pending.node_id == source,
            None => false,
        };
        let matches_allocator: bool = match &self.state.pnp_pending_get_info {
            Some(pending) => pending.node_id == source,
            None => false,
        };
        if !matches_command && !matches_allocator {
            return ResponseOutcome { handled: false, answer: None };
        }
        let data = messages::read_get_info(payload);
        let mut answer: Option<GetInfoAnswer> = None;
        if matches_command {
            let result: Result<GetInfoResult, String> = handler::get_info_result(source, &data);
            assert(handler::reports(source, payload@, result));
            answer = self.state.take_get_info_answer(result);
            self.state.on_get_info_response_received();
        }
        if matches_allocator {
            self.state.pnp_pending_get_info = None;
            self.state.on_get_info_response_received();
            let uid: Option<[u8; 16]> = match &data {
                Some(d) => Some(d.unique_id),
                None => None,
            };
            if let Some(pnp) = &mut self.pnp {
                pnp.on_get_info_result(source, uid);
            }
        }
        self.state.on_message_received_at(now);
        ResponseOutcome { handled: true, answer }
    }

    /// The node that the allocator wants to ask next, unless an answer to it is
    /// still awaited.
    ///
    /// A node that cannot be asked is dropped; its next heartbeat may queue it
    /// again.
    pub fn next_pnp_request(&mut self, has_requester: bool) -> (node_id: Option<u16>)
        ensures
            pnp_dispatched(*old(self), *final(self), has_requester, node_id),
    {
        if self.state.pnp_pending_get_info.is_some() {
            return None;
        }
        if let Some(pnp) = &mut self.pnp {
            if let Some(node_id) = pnp.pop_get_info_request() {
                if has_requester && udp_node_id_accepts(node_id) {
                    return Some(node_id);
                }
                pnp.on_get_info_result(node_id, None);
            }
        }
        None
    }

    /// A GetInfo request of the allocator could not be sent.
    pub fn on_pnp_request_failed(&mut self, node_id: u16)
        ensures
            final(self).same_worker(old(self)),
            final(self).state == old(self).state,
            both_or_none(
                old(self).pnp,
                final(self).pnp,
                |b: PnpAllocator, a: PnpAllocator|
                    allocator::result_reported(&b, &a, node_id, None),
            ),
    {
        if let Some(pnp) = &mut self.pnp {
            pnp.on_get_info_result(node_id, None);
        }
    }

    /// Report a timed-out GetInfo request back to the allocator at time `now`.
    pub fn check_pnp_timeout(&mut self, now: u128)
        ensures
            pnp_timed_out(*old(self), *final(self), now),
    {
        if let Some(node_id) = self.state.check_pnp_get_info_timeout(now) {
            if let Some(pnp) = &mut self.pnp {
                pnp.on_get_info_result(node_id, None);
            }
        }
    }

    /// What to do about a command at time `now`.
    pub fn on_command(&mut self, cmd: TransportCommand, has_requester: bool, now: u128) -> (step:
        Step)
        ensures
            exists|action: CommandAction| #[trigger]
                command_handled(*old(self), *final(self), cmd, has_requester, now, action)
                    && handler::follows(action, step),
    {
        let action = self.handle_command(cmd, has_requester, now);
        assert(command_handled(*old(self), *self, cmd, has_requester, now, action));
        handler::step_for(action)
    }

    /// What to do once there are no more commands at time `now`.
    pub fn on_commands_done(&mut self, has_requester: bool, now: u128) -> (step: Step)
        ensures
            exists|
                answered: UdpHandler,
                dispatched: UdpHandler,
                answer: Option<GetInfoAnswer>,
                node_id: Option<u16>,
            | #[trigger]
                commands_done(
                    *old(self),
                    *final(self),
                    has_requester,
                    now,
                    step,
                    answered,
                    dispatched,
                    answer,
                    node_id,
                ),
    {
        let answer = self.state.take_get_info_timeout(now);
        let ghost answered = *self;
        let ghost taken = answer;
        let deliver = match answer {
            Some(a) => Some(CommandAction::Answer(a)),
            None => None,
        };
        let node_id = self.next_pnp_request(has_requester);
        let ghost dispatched = *self;
        let step = match node_id {
            Some(id) => Step { deliver, next: WorkerAction::SendPnpGetInfo(id) },
            None => {
                self.check_pnp_timeout(now);
                Step { deliver, next: WorkerAction::Receive }
            },
        };
        assert(commands_done(
            *old(self),
            *self,
            has_requester,
            now,
            step,
            answered,
            dispatched,
            taken,
            node_id,
        ));
        step
    }

    /// What to do once a GetInfo request for a command has been sent, or could not
    /// be.
    pub fn on_request_settled(&mut self, order: GetInfoOrder, error: Option<String>, now: u128) -> (
        step: Step)
        ensures
            final(self).same_worker(old(self)),
            final(self).pnp == old(self).pnp,
            step.next is NextCommand,
            match error {
                None => {
                    &&& step.deliver is None
                    &&& handler::awaits(old(self).state, final(self).state, order, now)
                },
                Some(e) => {
                    &&& step.deliver matches Some(CommandAction::Answer(a))
                    &&& a.reply == order.reply
                    &&& handler::is_error(a.result, "Failed to send GetInfo request: "@ + e@)
                    &&& final(self).state.last_error matches Some(l)
                    &&& l@ == "GetInfo request send failed: "@ + e@
                    &&& final(self).state == (WorkerState {
                        last_error: final(self).state.last_error,
                        ..old(self).state
                    })
                },
            },
    {
        match error {
            None => {
                self.state.on_request_sent(order, now);
                Step { deliver: None, next: WorkerAction::NextCommand }
            },
            Some(e) => {
                let answer = self.on_request_failed(order, e.as_str());
                Step {
                    deliver: Some(CommandAction::Answer(answer)),
                    next: WorkerAction::NextCommand,
                }
            },
        }
    }

    /// What to do once a GetInfo request of the allocator has been sent, or could not
    /// be: the allocator learns of a timeout, and transfers are received.
    pub fn on_pnp_request_settled(&mut self, node_id: u16, sent: bool, now: u128) -> (next:
        WorkerAction)
        ensures
            next is Receive,
            exists|settled: UdpHandler| #[trigger]
                pnp_request_settled(*old(self), settled, node_id, sent, now) && pnp_timed_out(
                    settled,
                    *final(self),
                    now,
                ),
    {
        if sent {
            self.state.on_pnp_request_sent(node_id, now);
        } else {
            self.on_pnp_request_failed(node_id);
        }
        let ghost settled = *self;
        assert(pnp_request_settled(*old(self), settled, node_id, sent, now));
        self.check_pnp_timeout(now);
        WorkerAction::Receive
    }

    /// What to do once transfers have been received at time `now`: an error is
    /// remembered, and when a second has gone by the worker's own node grows older.
    pub fn on_received(&mut self, error: Option<String>, now: u128) -> (next: WorkerAction)
        ensures
            final(self).local_node_id == old(self).local_node_id,
            final(self).pnp == old(self).pnp,
            match error {
                Some(e) => final(self).state.last_error matches Some(l) && l@ == "Receive error: "@
                    + e@,
                None => final(self).state.last_error == old(self).state.last_error,
            },
            final(self).state == (WorkerState {
                last_error: final(self).state.last_error,
                observed_nodes: final(self).state.observed_nodes,
                ..old(self).state
            }),
            if handler::is_second_due(old(self).last_second, now) {
                &&& next is RunPerSecondTasks
                &&& final(self).last_second == now
                &&& final(self).state.observed_nodes@ == state::ticked(
                    old(self).state.observed_nodes@,
                    old(self).local_node_id,
                )
            } else {
                &&& next is Continue
                &&& final(self).last_second == old(self).last_second
                &&& final(self).state.observed_nodes == old(self).state.observed_nodes
            },
    {
        if let Some(e) = error {
            self.on_receive_failed(e.as_str());
        }
        let next = handler::after_receiving(&mut self.last_second, now);
        if let WorkerAction::RunPerSecondTasks = next {
            self.state.tick_local_node(self.local_node_id);
        }
        next
    }
}

// ─── laws ────────────────────────────────────────────────────────────────────

/// The allocator has at most one request under way.
pub proof fn one_allocator_request_at_a_time(
    before: UdpHandler,
    after: UdpHandler,
    has_requester: bool,
    now: u128,
    step: Step,
    answered: UdpHandler,
    dispatched: UdpHandler,
    answer: Option<GetInfoAnswer>,
    node_id: Option<u16>,
)
    requires
        before.state.pnp_pending_get_info is Some,
        commands_done(
            before,
            after,
            has_requester,
            now,
            step,
            answered,
            dispatched,
            answer,
            node_id,
        ),
    ensures
        step.next is Receive,
{
}

/// A response settles all requests to its source: another one from there is not
/// handled, and requests to other nodes are still awaited.
pub proof fn responses_settle_requests(state: WorkerState, source: u16, other: u16, now: u128)
    ensures
        !answers_command(after_response(state, source, now), source),
        !answers_allocator(after_response(state, source, now), source),
        other != source ==> answers_command(after_response(state, source, now), other)
            == answers_command(state, other),
        other != source ==> answers_allocator(after_response(state, source, now), other)
            == answers_allocator(state, other),
{
}

/// The answer to a GetInfo command goes back on the channel that came with the command,
/// once a response comes from the very node that it named, and tells of that node.
pub proof fn answers_are_of_the_node_that_was_asked(
    start: UdpHandler,
    planned: UdpHandler,
    sent: WorkerState,
    before: WorkerState,
    node_id: u16,
    source: u16,
    reply: SyncSender<Result<GetInfoResult, String>>,
    now: u128,
    action: CommandAction,
    order: GetInfoOrder,
    step: Step,
)
    requires
        command_handled(
            start,
            planned,
            TransportCommand::GetInfo { node_id, reply },
            true,
            now,
            action,
        ),
        action == CommandAction::Request(order),
        handler::request_settled(planned.state, sent, order, None, now, step),
        before.pending_get_info == sent.pending_get_info,
    ensures
        answers_command(before, source) <==> source == node_id,
        before.pending_get_info->0.reply == reply,
        node_id != 0xFFFF,
{
}

/// A request that the allocator sent at one time is given up once more than five seconds
/// have gone by, and not before. The node may then be asked again at once.
pub proof fn allocator_requests_wait_five_seconds(
    start: UdpHandler,
    sent: UdpHandler,
    before: UdpHandler,
    after: UdpHandler,
    node_id: u16,
    sent_at: u128,
    now: u128,
)
    requires
        pnp_request_settled(start, sent, node_id, true, sent_at),
        before.state.pnp_pending_get_info == sent.state.pnp_pending_get_info,
        pnp_timed_out(before, after, now),
        sent_at + 5_000_000_000 < u128::MAX,
    ensures
        now - sent_at <= 5_000_000_000 ==> after == before,
        now - sent_at > 5_000_000_000 ==> {
            &&& after.state.pnp_pending_get_info is None
            &&& before.pnp matches Some(b) ==> (after.pnp matches Some(a)
                && !a.queried().contains_key(node_id))
        },
{
}

/// An anonymous request on an undisturbed table is published with a node ID exactly when
/// the allocator assigns or knows one, and each one published is counted.
pub proof fn answered_requests_are_published(
    before: UdpHandler,
    after: UdpHandler,
    payload: Seq<u8>,
    publish: Option<Publication>,
    id: u16,
)
    requires
        v2_handled(before, after, None, payload, publish),
        before.pnp matches Some(b) && after.pnp matches Some(a) && a.is_undisturbed_since(&b),
        exists|i: int| 2 <= i < 18 && i < payload.len() && #[trigger] payload[i] != 0,
        1 <= id <= before.pnp->0.max(),
        id != before.pnp->0.local(),
        !before.pnp->0.rows().contains_key(id as i64),
    ensures
        publish matches Some(Publication::V2(response)) && response.unique_id@
            == messages::octets(payload, 2, 16) && response.node_id.value
            != before.pnp->0.local(),
        before.state.pnp_allocations < u64::MAX ==> after.state.pnp_allocations
            == before.state.pnp_allocations + 1,
{
    let b = before.pnp->0;
    let a = after.pnp->0;
    let uid = messages::octets(payload, 2, 16);
    let i = choose|i: int| 2 <= i < 18 && i < payload.len() && #[trigger] payload[i] != 0;
    assert(uid[i - 2] != 0);
    let answered = match publish {
        Some(Publication::V2(response)) => Some(response.node_id.value),
        _ => None,
    };
    if text::hex(uid) == db::zero_hex() {
        let zeros = Seq::new(16, |i: int| 0u8);
        assert(text::hex(zeros) =~= db::zero_hex());
        text::hex_is_injective(uid, zeros);
    }
    allocator::free_ids_are_assigned(b.table(), a.table(), b.local(), b.max(), uid, 0, answered, id);
}

} // verus!
