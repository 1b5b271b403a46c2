//! What the workers of all transports do with commands and transfers.
//!
//! The functions here decide; the worker that calls them sends what they hand
//! back.

use std::sync::mpsc::SyncSender;

use vstd::prelude::*;

use crate::clock;
use crate::pnp::allocator::{AllocationDataV1, AllocationDataV2};
use crate::pnp::AllocationEntry;
use crate::text;
use crate::transport::messages::{self, GetInfoData};
use crate::transport::state::{
    self, GetInfoAnswer, GetInfoResult, NodeEntry, PendingGetInfo, PnpGetInfoPending,
    TransportDiagnostics, WorkerState,
};
use crate::transport::{self, TransportCommand};

verus! {

/// How long a node has to answer a GetInfo request, in nanoseconds.
pub const GET_INFO_TIMEOUT: u128 = 3_000_000_000;

/// How long a node has to answer a GetInfo request of the allocator, in
/// nanoseconds.
pub const PNP_GET_INFO_TIMEOUT: u128 = 5_000_000_000;

/// The node ID shown for a heartbeat from an anonymous source.
pub const ANONYMOUS: u16 = 0xFFFF;

/// A GetInfo request to be sent to a node, and the channel for its result.
pub struct GetInfoOrder {
    pub node_id: u16,
    pub reply: SyncSender<Result<GetInfoResult, String>>,
}

/// What a worker has to do about a command.
#[allow(inconsistent_fields)]
pub enum CommandAction {
    /// Reply with the node list.
    Nodes { reply: SyncSender<Vec<NodeEntry>>, nodes: Vec<NodeEntry> },
    /// Reply with the diagnostics.
    Diagnostics { reply: SyncSender<TransportDiagnostics>, diagnostics: TransportDiagnostics },
    /// Reply with the allocation table.
    Allocations { reply: SyncSender<Vec<AllocationEntry>>, entries: Vec<AllocationEntry> },
    /// Answer a GetInfo command at once.
    Answer(GetInfoAnswer),
    /// Send a GetInfo request.
    Request(GetInfoOrder),
}

impl CommandAction {
    /// Send the reply, or hand back the request that has to be sent.
    pub fn perform(self) -> (order: Option<GetInfoOrder>)
        ensures
            order == (match self {
                CommandAction::Request(order) => Some(order),
                _ => None,
            }),
            match self {
                CommandAction::Nodes { reply, nodes } => transport::was_sent(reply, nodes),
                CommandAction::Diagnostics { reply, diagnostics } => transport::was_sent(
                    reply,
                    diagnostics,
                ),
                CommandAction::Allocations { reply, entries } => transport::was_sent(
                    reply,
                    entries,
                ),
                CommandAction::Answer(answer) => transport::was_sent(answer.reply, answer.result),
                CommandAction::Request(_) => true,
            },
    {
        match self {
            CommandAction::Nodes { reply, nodes } => {
                let _ = reply.send(nodes);
                None
            },
            CommandAction::Diagnostics { reply, diagnostics } => {
                let _ = reply.send(diagnostics);
                None
            },
            CommandAction::Allocations { reply, entries } => {
                let _ = reply.send(entries);
                None
            },
            CommandAction::Answer(answer) => {
                answer.deliver();
                None
            },
            CommandAction::Request(order) => Some(order),
        }
    }
}

/// What a worker does next.
pub enum WorkerAction {
    /// Stop.
    Stop,
    /// Take the next command.
    NextCommand,
    /// Send a GetInfo request for a command.
    SendGetInfo(GetInfoOrder),
    /// Send a GetInfo request for the allocator.
    SendPnpGetInfo(u16),
    /// Receive transfers.
    Receive,
    /// Run the tasks that are due every second.
    RunPerSecondTasks,
    /// Look for the next shutdown signal, command and transfer.
    Continue,
}

/// What comes of an event in a worker's loop: first a reply that has to be
/// performed, where there is one, and then what to do next.
pub struct Step {
    pub deliver: Option<CommandAction>,
    pub next: WorkerAction,
}

/// A message to be published.
pub enum Publication {
    V1(AllocationDataV1),
    V2(AllocationDataV2),
}

/// What came of a message: whether it was handled, and what has to be published.
pub struct MessageOutcome {
    pub handled: bool,
    pub publish: Option<Publication>,
}

/// What came of a response: whether it was handled, and the answer that has to be
/// delivered.
pub struct ResponseOutcome {
    pub handled: bool,
    pub answer: Option<GetInfoAnswer>,
}

// ─── texts ───────────────────────────────────────────────────────────────────

/// `prefix` and the number `n`.
pub fn number_text(prefix: &str, n: u16) -> (s: String)
    ensures
        s@ == prefix@ + text::decimal(n as nat),
{
    let mut s = String::new();
    s.append(prefix);
    let digits = text::decimal_string(n as u128);
    s.append(digits.as_str());
    s
}

/// `prefix` and `detail`.
pub fn detail_text(prefix: &str, detail: &str) -> (s: String)
    ensures
        s@ == prefix@ + detail@,
{
    let mut s = String::new();
    s.append(prefix);
    s.append(detail);
    s
}

// ─── GetInfo ─────────────────────────────────────────────────────────────────

/// Whether `result` is what a node tells in a GetInfo response.
pub open spec fn reports(
    node_id: u16,
    payload: Seq<u8>,
    result: Result<GetInfoResult, String>,
) -> bool {
    match result {
        Ok(r) => {
            &&& messages::is_get_info(payload)
            &&& r.node_id == node_id
            &&& r.name@ == messages::lossy_text(
                messages::octets(payload, 31, messages::octet(payload, 30) as nat),
            )
            &&& r.hardware_version == (messages::octet(payload, 2), messages::octet(payload, 3))
            &&& r.software_version == (messages::octet(payload, 4), messages::octet(payload, 5))
            &&& r.unique_id@ == messages::octets(payload, 14, 16)
        },
        Err(e) => !messages::is_get_info(payload) && e@ == "Failed to parse GetInfo response"@,
    }
}

/// The unique ID in a GetInfo response, if it is one.
pub open spec fn reported_unique_id(payload: Seq<u8>) -> Option<Seq<u8>> {
    if messages::is_get_info(payload) {
        Some(messages::octets(payload, 14, 16))
    } else {
        None
    }
}

/// The result that a node's answer gives.
pub fn get_info_result(node_id: u16, data: &Option<GetInfoData>) -> (result: Result<
    GetInfoResult,
    String,
>)
    ensures
        match *data {
            Some(d) => {
                &&& result matches Ok(r)
                &&& r.node_id == node_id
                &&& r.name@ == messages::lossy_text(d.name@)
                &&& r.hardware_version == d.hardware_version
                &&& r.software_version == d.software_version
                &&& r.unique_id == d.unique_id
            },
            None => result matches Err(e) && e@ == "Failed to parse GetInfo response"@,
        },
{
    match data {
        Some(d) => Ok(
            GetInfoResult {
                node_id,
                name: messages::text_from(&d.name),
                hardware_version: d.hardware_version,
                software_version: d.software_version,
                unique_id: d.unique_id,
            },
        ),
        None => Err("Failed to parse GetInfo response".to_owned()),
    }
}

/// Whether `result` is an error with the given text.
pub open spec fn is_error(result: Result<GetInfoResult, String>, message: Seq<char>) -> bool {
    result matches Err(e) && e@ == message
}

/// What a worker does about a GetInfo command: it refuses with `refusal`, or has
/// no requester, or sends a request.
pub open spec fn is_plan(
    order: GetInfoOrder,
    refusal: Option<Seq<char>>,
    has_requester: bool,
    action: CommandAction,
) -> bool {
    match refusal {
        Some(message) => {
            &&& action matches CommandAction::Answer(a)
            &&& a.reply == order.reply
            &&& is_error(a.result, message)
        },
        None => if has_requester {
            action == CommandAction::Request(order)
        } else {
            &&& action matches CommandAction::Answer(a)
            &&& a.reply == order.reply
            &&& is_error(a.result, "GetInfo requester not available"@)
        },
    }
}

/// Decide what to do about a GetInfo command.
pub fn plan_get_info(order: GetInfoOrder, refusal: Option<String>, has_requester: bool) -> (action:
    CommandAction)
    ensures
        is_plan(
            order,
            match refusal {
                Some(message) => Some(message@),
                None => None,
            },
            has_requester,
            action,
        ),
{
    match refusal {
        Some(message) => CommandAction::Answer(
            GetInfoAnswer { reply: order.reply, result: Err(message) },
        ),
        None => if has_requester {
            CommandAction::Request(order)
        } else {
            CommandAction::Answer(
                GetInfoAnswer {
                    reply: order.reply,
                    result: Err("GetInfo requester not available".to_owned()),
                },
            )
        },
    }
}

/// The answer to a GetInfo command whose request could not be sent.
pub fn send_failure(order: GetInfoOrder, error: &str) -> (answer: GetInfoAnswer)
    ensures
        answer.reply == order.reply,
        is_error(answer.result, "Failed to send GetInfo request: "@ + error@),
{
    GetInfoAnswer {
        reply: order.reply,
        result: Err(detail_text("Failed to send GetInfo request: ", error)),
    }
}

/// What sending a GetInfo request for a command at time `now` does: the answer is
/// awaited until its deadline.
pub open spec fn awaits(
    before: WorkerState,
    after: WorkerState,
    order: GetInfoOrder,
    now: u128,
) -> bool {
    &&& after.pending_get_info matches Some(pending)
    &&& pending.node_id == order.node_id
    &&& pending.reply == order.reply
    &&& pending.deadline == clock::later(now, GET_INFO_TIMEOUT)
    &&& after == (WorkerState {
        pending_get_info: after.pending_get_info,
        get_info_requests_sent: state::one_more(before.get_info_requests_sent),
        ..before
    })
}

impl WorkerState {
    /// A GetInfo request was sent at time `now`; its answer is awaited.
    pub fn on_request_sent(&mut self, order: GetInfoOrder, now: u128)
        ensures
            awaits(*old(self), *final(self), order, now),
    {
        self.on_get_info_request_sent();
        self.pending_get_info = Some(
            PendingGetInfo {
                node_id: order.node_id,
                reply: order.reply,
                deadline: clock::after(now, GET_INFO_TIMEOUT),
            },
        );
    }

    /// A GetInfo request of the allocator was sent at time `now`.
    pub fn on_pnp_request_sent(&mut self, node_id: u16, now: u128)
        ensures
            *final(self) == (WorkerState {
                pnp_pending_get_info: Some(
                    PnpGetInfoPending {
                        node_id,
                        deadline: clock::later(now, PNP_GET_INFO_TIMEOUT),
                    },
                ),
                get_info_requests_sent: state::one_more(old(self).get_info_requests_sent),
                ..*old(self)
            }),
    {
        self.on_get_info_request_sent();
        self.pnp_pending_get_info = Some(
            PnpGetInfoPending { node_id, deadline: clock::after(now, PNP_GET_INFO_TIMEOUT) },
        );
    }
}

// ─── transports without an allocator ─────────────────────────────────────────

/// The node that a heartbeat shows.
pub open spec fn heard_node(source: Option<u16>, payload: Seq<u8>) -> NodeEntry {
    let heartbeat = messages::heartbeat_of(payload);
    NodeEntry {
        node_id: match source {
            Some(id) => id,
            None => ANONYMOUS,
        },
        uptime: heartbeat.uptime,
        health: heartbeat.health,
        mode: heartbeat.mode,
    }
}

/// Process a message at time `now`: heartbeats are recorded, and nothing else is
/// handled.
pub fn plain_message(
    state: &mut WorkerState,
    subject: u16,
    source: Option<u16>,
    payload: &[u8],
    now: u128,
) -> (handled: bool)
    ensures
        handled == (subject == messages::HEARTBEAT_SUBJECT),
        if handled {
            state::after_heartbeat(*old(state), *final(state), heard_node(source, payload@), now)
        } else {
            *final(state) == *old(state)
        },
{
    if subject != messages::HEARTBEAT_SUBJECT {
        return false;
    }
    match messages::read_heartbeat(payload) {
        Some(heartbeat) => {
            let node_id: u16 = match source {
                Some(id) => id,
                None => ANONYMOUS,
            };
            state.on_heartbeat_at(
                NodeEntry {
                    node_id,
                    uptime: heartbeat.uptime,
                    health: heartbeat.health,
                    mode: heartbeat.mode,
                },
                now,
            );
            true
        },
        None => false,
    }
}

/// The state once a GetInfo response has been counted.
pub open spec fn with_response_counted(state: WorkerState) -> WorkerState {
    WorkerState {
        get_info_responses_received: state::one_more(state.get_info_responses_received),
        ..state
    }
}

/// What a response does: it is counted and answers the GetInfo request that waits, if
/// there is one.
pub open spec fn plain_answered(
    before: WorkerState,
    after: WorkerState,
    service: u16,
    payload: Seq<u8>,
    outcome: ResponseOutcome,
) -> bool {
    &&& outcome.handled == (service == messages::GET_INFO_SERVICE
        && before.pending_get_info is Some)
    &&& if outcome.handled {
        exists|result: Result<GetInfoResult, String>| #[trigger]
            reports(before.pending_get_info->0.node_id, payload, result) && state::answers(
                with_response_counted(before),
                after,
                result,
                outcome.answer,
            )
    } else {
        outcome.answer is None && after == before
    }
}

/// Process a response: it is counted and answers the GetInfo request that waits, if
/// there is one.
pub fn plain_response(state: &mut WorkerState, service: u16, payload: &[u8]) -> (outcome:
    ResponseOutcome)
    ensures
        plain_answered(*old(state), *final(state), service, payload@, outcome),
{
    if service != messages::GET_INFO_SERVICE {
        return ResponseOutcome { handled: false, answer: None };
    }
    let node_id: u16 = match &state.pending_get_info {
        Some(pending) => pending.node_id,
        None => {
            return ResponseOutcome { handled: false, answer: None };
        },
    };
    let data = messages::read_get_info(payload);
    let result = get_info_result(node_id, &data);
    assert(reports(node_id, payload@, result));
    state.on_get_info_response_received();
    let answer = state.take_get_info_answer(result);
    ResponseOutcome { handled: true, answer }
}

/// What a worker without an allocator does about a command at time `now`.
pub open spec fn plain_action(
    state: WorkerState,
    cmd: TransportCommand,
    local_node_id: u16,
    refusal: Option<Seq<char>>,
    has_requester: bool,
    now: u128,
    action: CommandAction,
) -> bool {
    match cmd {
        TransportCommand::ListNodes { reply } => {
            &&& action matches CommandAction::Nodes { reply: r, nodes }
            &&& r == reply
            &&& state::is_snapshot(nodes@, state.observed_nodes@)
        },
        TransportCommand::Diagnostics { reply } => {
            &&& action matches CommandAction::Diagnostics { reply: r, diagnostics }
            &&& r == reply
            &&& state::describes(state, diagnostics, Some(local_node_id), now, false)
        },
        TransportCommand::GetInfo { node_id, reply } => is_plan(
            GetInfoOrder { node_id, reply },
            refusal,
            has_requester,
            action,
        ),
        TransportCommand::ListAllocations { reply } => {
            &&& action matches CommandAction::Allocations { reply: r, entries }
            &&& r == reply
            &&& entries@.len() == 0
        },
    }
}

/// Decide what a worker without an allocator does about a command at time `now`.
pub fn plain_command(
    state: &WorkerState,
    cmd: TransportCommand,
    local_node_id: u16,
    refusal: Option<String>,
    has_requester: bool,
    now: u128,
) -> (action: CommandAction)
    ensures
        plain_action(
            *state,
            cmd,
            local_node_id,
            match refusal {
                Some(message) => Some(message@),
                None => None,
            },
            has_requester,
            now,
            action,
        ),
{
    match cmd {
        TransportCommand::ListNodes { reply } => CommandAction::Nodes {
            reply,
            nodes: state.node_list(),
        },
        TransportCommand::Diagnostics { reply } => CommandAction::Diagnostics {
            reply,
            diagnostics: state.diagnostics_at(Some(local_node_id), now),
        },
        TransportCommand::GetInfo { node_id, reply } => plan_get_info(
            GetInfoOrder { node_id, reply },
            refusal,
            has_requester,
        ),
        TransportCommand::ListAllocations { reply } => CommandAction::Allocations {
            reply,
            entries: Vec::new(),
        },
    }
}

// ─── the loop ────────────────────────────────────────────────────────────────

/// What a worker does once it has looked for a shutdown signal.
pub fn on_shutdown_checked(stop: bool) -> (next: WorkerAction)
    ensures
        next == (if stop {
            WorkerAction::Stop
        } else {
            WorkerAction::NextCommand
        }),
{
    if stop {
        WorkerAction::Stop
    } else {
        WorkerAction::NextCommand
    }
}

/// Whether a step follows from what has to be done about a command: a request is
/// sent, and anything else is performed before the next command.
pub open spec fn follows(action: CommandAction, step: Step) -> bool {
    match action {
        CommandAction::Request(order) => step.deliver is None && step.next
            == WorkerAction::SendGetInfo(order),
        _ => step.deliver == Some(action) && step.next is NextCommand,
    }
}

/// The step that follows from what has to be done about a command.
pub fn step_for(action: CommandAction) -> (step: Step)
    ensures
        follows(action, step),
{
    match action {
        CommandAction::Request(order) => Step {
            deliver: None,
            next: WorkerAction::SendGetInfo(order),
        },
        other => Step { deliver: Some(other), next: WorkerAction::NextCommand },
    }
}

/// Whether `deliver` is the answer to a request that has timed out, if one has.
pub open spec fn delivers(answer: Option<GetInfoAnswer>, deliver: Option<CommandAction>) -> bool {
    deliver == (match answer {
        Some(a) => Some(CommandAction::Answer(a)),
        None => None,
    })
}

/// What a worker does once there are no more commands: a request that has timed out
/// is answered, and then transfers are received.
pub fn plain_commands_done(state: &mut WorkerState, now: u128) -> (step: Step)
    ensures
        step.next is Receive,
        exists|answer: Option<GetInfoAnswer>| #[trigger]
            state::times_out(*old(state), *final(state), now, answer) && delivers(
                answer,
                step.deliver,
            ),
{
    let answer = state.take_get_info_timeout(now);
    assert(state::times_out(*old(state), *state, now, answer));
    let deliver = match answer {
        Some(a) => Some(CommandAction::Answer(a)),
        None => None,
    };
    Step { deliver, next: WorkerAction::Receive }
}

/// What sending a GetInfo request for a command does: its answer is awaited, or the
/// command is answered with the error.
pub open spec fn request_settled(
    before: WorkerState,
    after: WorkerState,
    order: GetInfoOrder,
    error: Option<Seq<char>>,
    now: u128,
    step: Step,
) -> bool {
    &&& step.next is NextCommand
    &&& match error {
        None => {
            &&& step.deliver is None
            &&& awaits(before, after, order, now)
        },
        Some(e) => {
            &&& step.deliver matches Some(CommandAction::Answer(a))
            &&& a.reply == order.reply
            &&& is_error(a.result, "Failed to send GetInfo request: "@ + e)
            &&& after == before
        },
    }
}

/// What a worker does once it has tried to send a GetInfo request for a command.
pub fn plain_request_settled(
    state: &mut WorkerState,
    order: GetInfoOrder,
    error: Option<String>,
    now: u128,
) -> (step: Step)
    ensures
        request_settled(
            *old(state),
            *final(state),
            order,
            match error {
                Some(e) => Some(e@),
                None => None,
            },
            now,
            step,
        ),
{
    match error {
        None => {
            state.on_request_sent(order, now);
            Step { deliver: None, next: WorkerAction::NextCommand }
        },
        Some(e) => Step {
            deliver: Some(CommandAction::Answer(send_failure(order, e.as_str()))),
            next: WorkerAction::NextCommand,
        },
    }
}

/// Whether a second has gone by since the last per-second tasks.
pub open spec fn is_second_due(last_second: u128, now: u128) -> bool {
    clock::has_elapsed(last_second, now, clock::SECOND)
}

/// What a worker does once it has received transfers: the per-second tasks, when a
/// second has gone by since the last ones.
pub fn after_receiving(last_second: &mut u128, now: u128) -> (next: WorkerAction)
    ensures
        if is_second_due(*old(last_second), now) {
            *final(last_second) == now && next is RunPerSecondTasks
        } else {
            *final(last_second) == *old(last_second) && next is Continue
        },
{
    if clock::elapsed_at_least(*last_second, now, clock::SECOND) {
        *last_second = now;
        WorkerAction::RunPerSecondTasks
    } else {
        WorkerAction::Continue
    }
}

// ─── laws ────────────────────────────────────────────────────────────────────

/// The answer to a GetInfo command on a transport without an allocator goes back on the
/// channel that came with the command, and a success tells of the node that the command
/// named: its unique ID and versions stand in the response.
pub proof fn answers_are_of_the_node_that_was_asked(
    start: WorkerState,
    sent: WorkerState,
    before: WorkerState,
    after: WorkerState,
    node_id: u16,
    reply: SyncSender<Result<GetInfoResult, String>>,
    local_node_id: u16,
    now: u128,
    action: CommandAction,
    order: GetInfoOrder,
    step: Step,
    payload: Seq<u8>,
    outcome: ResponseOutcome,
)
    requires
        plain_action(
            start,
            TransportCommand::GetInfo { node_id, reply },
            local_node_id,
            None,
            true,
            now,
            action,
        ),
        action == CommandAction::Request(order),
        request_settled(start, sent, order, None, now, step),
        before.pending_get_info == sent.pending_get_info,
        plain_answered(before, after, 430, payload, outcome),
    ensures
        outcome.answer matches Some(answer) && answer.reply == reply && (answer.result matches Ok(
            info,
        ) ==> {
            &&& info.node_id == node_id
            &&& info.unique_id@ == messages::octets(payload, 14, 16)
            &&& info.hardware_version == (messages::octet(payload, 2), messages::octet(payload, 3))
            &&& info.software_version == (messages::octet(payload, 4), messages::octet(payload, 5))
        }),
        after.pending_get_info is None,
        before.get_info_responses_received < u64::MAX ==> after.get_info_responses_received
            == before.get_info_responses_received + 1,
{
}

/// A GetInfo request that was sent for a command at one time is given up once more than
/// three seconds have gone by, with an error on the channel of the command, and not
/// before.
pub proof fn requests_wait_three_seconds(
    start: WorkerState,
    sent: WorkerState,
    before: WorkerState,
    after: WorkerState,
    order: GetInfoOrder,
    sent_at: u128,
    now: u128,
    answer: Option<GetInfoAnswer>,
)
    requires
        awaits(start, sent, order, sent_at),
        before.pending_get_info == sent.pending_get_info,
        state::times_out(before, after, now, answer),
        sent_at + 3_000_000_000 < u128::MAX,
    ensures
        now - sent_at <= 3_000_000_000 ==> answer is None && after == before,
        now - sent_at > 3_000_000_000 ==> {
            &&& answer matches Some(a)
            &&& a.reply == order.reply
            &&& a.result is Err
            &&& after.pending_get_info is None
        },
{
}

/// The per-second tasks are due exactly when a second or more has gone by since the last
/// ones.
pub proof fn tasks_are_due_every_second(last: u128, now: u128)
    ensures
        is_second_due(last, now) <==> now - last >= 1_000_000_000,
{
}

} // verus!
