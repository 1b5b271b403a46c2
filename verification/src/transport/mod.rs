//! Cyphal transport layer.
//!
//! Each transport is served by a worker of its own. The REPL (and other callers)
//! interact with the workers through [`TransportHandle`] values that hold the
//! command channel sender.

pub mod can_gsusb;
pub mod handler;
pub mod messages;
pub mod node_info;
pub mod serial;
pub mod state;
pub mod udp;

pub use crate::clock::SystemClock;
pub use node_info::make_node_info;
pub use state::{
    GetInfoResult, NodeEntry, PendingGetInfo, PnpGetInfoPending, TransportDiagnostics, WorkerState,
};

use std::sync::mpsc::{Receiver, RecvTimeoutError, SendError, SyncSender, TrySendError};
use std::time::{Duration, Instant};

use vstd::prelude::*;

use crate::clock;
use crate::pnp::AllocationEntry;

verus! {

// ─── channels ────────────────────────────────────────────────────────────────

/// The sending end of a bounded channel.
#[verifier::external_type_specification]
#[verifier::external_body]
#[verifier::reject_recursive_types(T)]
pub struct ExSyncSender<T>(SyncSender<T>);

/// The receiving end of a channel.
#[verifier::external_type_specification]
#[verifier::external_body]
#[verifier::reject_recursive_types(T)]
pub struct ExReceiver<T>(Receiver<T>);

/// Why a value could not be sent.
#[verifier::external_type_specification]
#[verifier::external_body]
#[verifier::reject_recursive_types(T)]
pub struct ExSendError<T>(SendError<T>);

/// Why no value was received in time.
#[verifier::external_type_specification]
#[verifier::external_body]
pub struct ExRecvTimeoutError(RecvTimeoutError);

/// `std::sync::mpsc::sync_channel` makes a new channel.
pub assume_specification<T>[ std::sync::mpsc::sync_channel::<T> ](bound: usize) -> (ends: (
    SyncSender<T>,
    Receiver<T>,
));

/// `SyncSender::send` fails when the other end is gone, so nothing holds of every
/// outcome.
pub assume_specification<T>[ SyncSender::<T>::send ](sender: &SyncSender<T>, value: T) -> (sent:
    Result<(), SendError<T>>);

/// `Receiver::recv_timeout` waits for what the other end sends, so nothing holds of
/// every outcome.
pub assume_specification<T>[ Receiver::<T>::recv_timeout ](
    receiver: &Receiver<T>,
    timeout: Duration,
) -> (received: Result<T, RecvTimeoutError>);

/// `SyncSender::clone` gives another sending end of the same channel.
pub assume_specification<T>[ <SyncSender<T> as Clone>::clone ](sender: &SyncSender<T>) -> (other:
    SyncSender<T>);

/// Whether the two are the ends of a channel made for one reply.
pub open spec fn is_channel<T>(reply: SyncSender<T>, replies: Receiver<T>) -> bool {
    call_ensures(std::sync::mpsc::sync_channel::<T>, (1,), (reply, replies))
}

/// Whether the value was handed to `SyncSender::send` for the channel.
pub open spec fn was_sent<T>(to: SyncSender<T>, value: T) -> bool {
    exists|sent: Result<(), SendError<T>>| #[trigger]
        call_ensures(SyncSender::<T>::send, (&to, value), sent)
}

/// Whether `Receiver::recv_timeout`, waiting that long, came back with `received`.
pub open spec fn was_received<T>(
    replies: Receiver<T>,
    timeout: Duration,
    received: Result<T, RecvTimeoutError>,
) -> bool {
    call_ensures(Receiver::<T>::recv_timeout, (&replies, timeout), received)
}

// ─── commands ────────────────────────────────────────────────────────────────

/// Commands sent from the REPL to a transport worker.
#[allow(inconsistent_fields)]
pub enum TransportCommand {
    /// Request the list of nodes observed via heartbeats.
    ListNodes { reply: SyncSender<Vec<NodeEntry>> },
    /// Request the worker's diagnostics.
    Diagnostics { reply: SyncSender<TransportDiagnostics> },
    /// Request `uavcan.node.GetInfo` from a specific node.
    GetInfo { node_id: u16, reply: SyncSender<Result<GetInfoResult, String>> },
    /// Request the allocation table.
    ListAllocations { reply: SyncSender<Vec<AllocationEntry>> },
}

/// What became of a command on its way to a worker.
pub enum Delivery {
    /// It waits in the worker's queue.
    Queued,
    /// The worker's queue was full, and the command is back.
    Full(TransportCommand),
    /// The worker takes no commands any more.
    Disconnected,
}

/// `SyncSender::try_send` queues a command without waiting, unless the queue is full
/// or its other end is gone, and hands it back when the queue is full. Which of these
/// holds is up to the worker.
#[verifier::external_body]
fn try_deliver(sender: &SyncSender<TransportCommand>, command: TransportCommand) -> (delivery:
    Delivery)
    ensures
        delivery matches Delivery::Full(back) ==> back == command,
{
    match sender.try_send(command) {
        Ok(()) => Delivery::Queued,
        Err(TrySendError::Full(command)) => Delivery::Full(command),
        Err(TrySendError::Disconnected(_)) => Delivery::Disconnected,
    }
}

/// Whether trying to put the command into the queue, once, went so.
pub closed spec fn was_tried(
    queue: SyncSender<TransportCommand>,
    command: TransportCommand,
    delivery: Delivery,
) -> bool {
    call_ensures(try_deliver, (&queue, command), delivery)
}

/// What came of a command sent to a worker.
pub enum Outcome<T> {
    /// The worker takes no commands any more.
    Stopped,
    /// The worker did not answer in time.
    TimedOut,
    /// The worker answered.
    Answered(T),
}

/// Handle to a running transport worker.
///
/// Clone it freely; all clones share the same command channel.
#[derive(Clone)]
pub struct TransportHandle {
    /// Human-readable name matching the config `name` field.
    pub name: String,
    /// The node ID of the worker's own node, where it is known.
    pub local_node_id: Option<u16>,
    /// Where commands go.
    pub cmd_tx: SyncSender<TransportCommand>,
}

/// The nodes shown for what came of a `ListNodes` command: none without an answer.
pub fn nodes_from(outcome: Outcome<Vec<NodeEntry>>) -> (nodes: Vec<NodeEntry>)
    ensures
        nodes@ == (match outcome {
            Outcome::Answered(list) => list@,
            _ => Seq::empty(),
        }),
{
    match outcome {
        Outcome::Answered(list) => list,
        _ => Vec::new(),
    }
}

/// The entries shown for what came of a `ListAllocations` command: none without an
/// answer.
pub fn allocations_from(outcome: Outcome<Vec<AllocationEntry>>) -> (entries: Vec<AllocationEntry>)
    ensures
        entries@ == (match outcome {
            Outcome::Answered(list) => list@,
            _ => Seq::empty(),
        }),
{
    match outcome {
        Outcome::Answered(list) => list,
        _ => Vec::new(),
    }
}

/// The result for what came of a `GetInfo` command.
pub fn get_info_from(outcome: Outcome<Result<GetInfoResult, String>>) -> (result: Result<
    GetInfoResult,
    String,
>)
    ensures
        match outcome {
            Outcome::Answered(answer) => result == answer,
            Outcome::Stopped => result matches Err(e) && e@ == "transport worker has stopped"@,
            Outcome::TimedOut => result matches Err(e) && e@
                == "timed out waiting for GetInfo response"@,
        },
{
    match outcome {
        Outcome::Answered(answer) => answer,
        Outcome::Stopped => Err("transport worker has stopped".to_owned()),
        Outcome::TimedOut => Err("timed out waiting for GetInfo response".to_owned()),
    }
}

/// The result for what came of a `Diagnostics` command.
pub fn diagnostics_from(outcome: Outcome<TransportDiagnostics>) -> (result: Result<
    TransportDiagnostics,
    String,
>)
    ensures
        match outcome {
            Outcome::Answered(answer) => result == Ok::<TransportDiagnostics, String>(answer),
            Outcome::Stopped => result matches Err(e) && e@ == "transport worker has stopped"@,
            Outcome::TimedOut => result matches Err(e) && e@
                == "timed out waiting for diagnostics response"@,
        },
{
    match outcome {
        Outcome::Answered(answer) => Ok(answer),
        Outcome::Stopped => Err("transport worker has stopped".to_owned()),
        Outcome::TimedOut => Err("timed out waiting for diagnostics response".to_owned()),
    }
}

// ─── handles ─────────────────────────────────────────────────────────────────

/// What came of a command that was queued, given the reply that was received in time,
/// if any.
pub fn outcome_of<T>(reply: Option<T>) -> (outcome: Outcome<T>)
    ensures
        outcome == (match reply {
            Some(answer) => Outcome::Answered(answer),
            None => Outcome::TimedOut,
        }),
{
    match reply {
        Some(answer) => Outcome::Answered(answer),
        None => Outcome::TimedOut,
    }
}

/// How long to wait for room in a full queue before trying again, in nanoseconds.
pub const ROOM_INTERVAL: u64 = 1_000_000;

/// What to do after trying to queue a command.
#[allow(inconsistent_fields)]
pub enum Attempt {
    /// Wait for the reply.
    AwaitReply,
    /// Wait so many nanoseconds, and try again.
    Retry { command: TransportCommand, wait: u64 },
    /// The worker takes no commands any more.
    Stopped,
    /// There was no room in time.
    TimedOut,
}

/// What to do after trying to queue a command when so many nanoseconds are left. A full
/// queue is tried again until none are.
pub fn after_attempt(delivery: Delivery, left: u128) -> (attempt: Attempt)
    ensures
        attempt == (match delivery {
            Delivery::Queued => Attempt::AwaitReply,
            Delivery::Disconnected => Attempt::Stopped,
            Delivery::Full(command) => if left == 0 {
                Attempt::TimedOut
            } else if left < ROOM_INTERVAL {
                Attempt::Retry { command, wait: left as u64 }
            } else {
                Attempt::Retry { command, wait: ROOM_INTERVAL }
            },
        }),
{
    match delivery {
        Delivery::Queued => Attempt::AwaitReply,
        Delivery::Disconnected => Attempt::Stopped,
        Delivery::Full(command) => if left == 0 {
            Attempt::TimedOut
        } else if left < ROOM_INTERVAL as u128 {
            Attempt::Retry { command, wait: left as u64 }
        } else {
            Attempt::Retry { command, wait: ROOM_INTERVAL }
        },
    }
}

/// How much of `limit` is left when `left` was and then `wait` was waited for, and the
/// clock shows that `elapsed` has gone by in all: the less by either count.
pub fn time_left(limit: u128, left: u128, wait: u64, elapsed: u128) -> (rest: u128)
    requires
        wait <= left,
    ensures
        rest == (if limit - elapsed < left - wait {
            if elapsed < limit {
                limit - elapsed
            } else {
                0
            }
        } else {
            left - wait
        }),
{
    let counted: u128 = left - wait as u128;
    let measured: u128 = if elapsed < limit {
        limit - elapsed
    } else {
        0
    };
    if measured < counted {
        measured
    } else {
        counted
    }
}

/// A span of so many nanoseconds, or of as many as it can have.
pub open spec fn span(nanos: u128) -> Duration {
    clock::nanoseconds(
        if nanos < u64::MAX {
            nanos as u64
        } else {
            u64::MAX
        },
    )
}

/// A span of so many nanoseconds, or of as many as it can have.
fn span_of(nanos: u128) -> (duration: Duration)
    ensures
        duration == span(nanos),
{
    if nanos < u64::MAX as u128 {
        Duration::from_nanos(nanos as u64)
    } else {
        Duration::from_nanos(u64::MAX)
    }
}

/// Whether, with `left` of the time, the queue was found full, and `rest` is what is left
/// of `limit` after a wait: less by the wait, or by what the clock started at `start`
/// shows, whichever is less.
pub open spec fn was_retried<T>(
    queue: SyncSender<TransportCommand>,
    command: TransportCommand,
    replies: Receiver<T>,
    start: Instant,
    limit: u128,
    left: u128,
    rest: u128,
) -> bool {
    &&& left > 0
    &&& was_tried(queue, command, Delivery::Full(command))
    &&& exists|wait: u64, received: Result<T, RecvTimeoutError>, elapsed: u128|
        {
            &&& 0 < wait <= left
            &&& wait <= ROOM_INTERVAL
            &&& #[trigger] was_received(replies, clock::nanoseconds(wait), received)
            &&& #[trigger] clock::is_reading(start, elapsed)
            &&& rest <= left - wait
            &&& rest == left - wait || rest == limit - elapsed || rest == 0 && elapsed > limit
            &&& elapsed <= limit ==> rest <= limit - elapsed
            &&& elapsed > limit ==> rest == 0
        }
}

/// Whether asking went so, where `lefts` is what was left of `limit` at each try. A full
/// queue was tried again as long as time was left. The outcome is an answer where the
/// command was queued and the answer received, a timeout where no answer came in what
/// was left then or the queue stayed full to the end, and a stopped worker where nobody
/// takes commands any more.
pub open spec fn is_exchange<T>(
    queue: SyncSender<TransportCommand>,
    command: TransportCommand,
    replies: Receiver<T>,
    start: Instant,
    limit: u128,
    lefts: Seq<u128>,
    outcome: Outcome<T>,
) -> bool {
    &&& lefts.len() > 0
    &&& lefts[0] == limit
    &&& forall|i: int|
        0 <= i < lefts.len() - 1 ==> was_retried(
            queue,
            command,
            replies,
            start,
            limit,
            #[trigger] lefts[i],
            lefts[i + 1],
        )
    &&& match outcome {
        Outcome::Answered(answer) => {
            &&& was_tried(queue, command, Delivery::Queued)
            &&& was_received(replies, span(lefts.last()), Ok(answer))
        },
        Outcome::TimedOut => {
            ||| was_tried(queue, command, Delivery::Queued) && exists|e: RecvTimeoutError|
                #[trigger] was_received(replies, span(lefts.last()), Err(e))
            ||| was_tried(queue, command, Delivery::Full(command)) && lefts.last() == 0
        },
        Outcome::Stopped => was_tried(queue, command, Delivery::Disconnected),
    }
}

/// Whether that came of the command, given so much time in all.
pub open spec fn came_of<T>(
    queue: SyncSender<TransportCommand>,
    command: TransportCommand,
    replies: Receiver<T>,
    timeout: Duration,
    outcome: Outcome<T>,
) -> bool {
    exists|start: Instant, limit: u128, lefts: Seq<u128>|
        {
            &&& clock::is_moment(start)
            &&& call_ensures(Duration::as_nanos, (&timeout,), limit)
            &&& #[trigger] is_exchange(queue, command, replies, start, limit, lefts, outcome)
        }
}

/// Whether the worker behind the handle, asked for its nodes, told so; none are told
/// where it did not answer.
pub open spec fn told_nodes(
    handle: TransportHandle,
    timeout: Duration,
    nodes: Seq<NodeEntry>,
) -> bool {
    exists|
        reply: SyncSender<Vec<NodeEntry>>,
        replies: Receiver<Vec<NodeEntry>>,
        outcome: Outcome<Vec<NodeEntry>>,
    |
        {
            &&& is_channel(reply, replies)
            &&& #[trigger] came_of(
                handle.cmd_tx,
                TransportCommand::ListNodes { reply },
                replies,
                timeout,
                outcome,
            )
            &&& nodes == (match outcome {
                Outcome::Answered(list) => list@,
                _ => Seq::empty(),
            })
        }
}

/// Whether the worker behind the handle, asked for its allocation table, told so; an
/// empty one is told where it did not answer.
pub open spec fn told_allocations(
    handle: TransportHandle,
    timeout: Duration,
    entries: Seq<AllocationEntry>,
) -> bool {
    exists|
        reply: SyncSender<Vec<AllocationEntry>>,
        replies: Receiver<Vec<AllocationEntry>>,
        outcome: Outcome<Vec<AllocationEntry>>,
    |
        {
            &&& is_channel(reply, replies)
            &&& #[trigger] came_of(
                handle.cmd_tx,
                TransportCommand::ListAllocations { reply },
                replies,
                timeout,
                outcome,
            )
            &&& entries == (match outcome {
                Outcome::Answered(list) => list@,
                _ => Seq::empty(),
            })
        }
}

/// Whether the worker behind the handle, asked for its diagnostics, told so.
pub open spec fn told_diagnostics(
    handle: TransportHandle,
    timeout: Duration,
    result: Result<TransportDiagnostics, String>,
) -> bool {
    exists|
        reply: SyncSender<TransportDiagnostics>,
        replies: Receiver<TransportDiagnostics>,
        outcome: Outcome<TransportDiagnostics>,
    |
        {
            &&& is_channel(reply, replies)
            &&& #[trigger] came_of(
                handle.cmd_tx,
                TransportCommand::Diagnostics { reply },
                replies,
                timeout,
                outcome,
            )
            &&& match outcome {
                Outcome::Answered(answer) => result == Ok::<TransportDiagnostics, String>(answer),
                Outcome::Stopped => result matches Err(e) && e@ == "transport worker has stopped"@,
                Outcome::TimedOut => result matches Err(e) && e@
                    == "timed out waiting for diagnostics response"@,
            }
        }
}

/// Whether the worker behind the handle, asked for the information of the node, told
/// so.
pub open spec fn told_info(
    handle: TransportHandle,
    node_id: u16,
    timeout: Duration,
    result: Result<GetInfoResult, String>,
) -> bool {
    exists|
        reply: SyncSender<Result<GetInfoResult, String>>,
        replies: Receiver<Result<GetInfoResult, String>>,
        outcome: Outcome<Result<GetInfoResult, String>>,
    |
        {
            &&& is_channel(reply, replies)
            &&& #[trigger] came_of(
                handle.cmd_tx,
                TransportCommand::GetInfo { node_id, reply },
                replies,
                timeout,
                outcome,
            )
            &&& match outcome {
                Outcome::Answered(answer) => result == answer,
                Outcome::Stopped => result matches Err(e) && e@ == "transport worker has stopped"@,
                Outcome::TimedOut => result matches Err(e) && e@
                    == "timed out waiting for GetInfo response"@,
            }
        }
}

/// A command, and where its reply comes in.
#[verifier::reject_recursive_types(T)]
pub struct Query<T> {
    pub command: TransportCommand,
    pub replies: Receiver<T>,
}

/// The command that asks for the nodes.
pub fn list_nodes_query() -> (query: Query<Vec<NodeEntry>>)
    ensures
        query.command matches TransportCommand::ListNodes { reply } && is_channel(
            reply,
            query.replies,
        ),
{
    let (reply, replies) = std::sync::mpsc::sync_channel(1);
    Query { command: TransportCommand::ListNodes { reply }, replies }
}

/// The command that asks for the diagnostics.
pub fn diagnostics_query() -> (query: Query<TransportDiagnostics>)
    ensures
        query.command matches TransportCommand::Diagnostics { reply } && is_channel(
            reply,
            query.replies,
        ),
{
    let (reply, replies) = std::sync::mpsc::sync_channel(1);
    Query { command: TransportCommand::Diagnostics { reply }, replies }
}

/// The command that asks a node for its information.
pub fn get_info_query(node_id: u16) -> (query: Query<Result<GetInfoResult, String>>)
    ensures
        query.command matches TransportCommand::GetInfo { node_id: asked, reply } && asked == node_id
            && is_channel(reply, query.replies),
{
    let (reply, replies) = std::sync::mpsc::sync_channel(1);
    Query { command: TransportCommand::GetInfo { node_id, reply }, replies }
}

/// The command that asks for the allocation table.
pub fn list_allocations_query() -> (query: Query<Vec<AllocationEntry>>)
    ensures
        query.command matches TransportCommand::ListAllocations { reply } && is_channel(
            reply,
            query.replies,
        ),
{
    let (reply, replies) = std::sync::mpsc::sync_channel(1);
    Query { command: TransportCommand::ListAllocations { reply }, replies }
}

impl TransportHandle {
    /// A handle to the worker at the other end of `cmd_tx`.
    pub fn new(
        name: String,
        local_node_id: Option<u16>,
        cmd_tx: SyncSender<TransportCommand>,
    ) -> (handle: Self)
        ensures
            handle.name == name,
            handle.local_node_id == local_node_id,
            handle.cmd_tx == cmd_tx,
    {
        TransportHandle { name, local_node_id, cmd_tx }
    }

    /// Send a command and wait for its reply, in all up to `timeout`. What comes of it
    /// is up to the worker. A full queue is tried again as [`after_attempt`] and
    /// [`time_left`] say, and the reply is told as [`outcome_of`] says.
    fn ask<T>(&self, query: Query<T>, timeout: Duration) -> (outcome: Outcome<T>)
        ensures
            came_of(self.cmd_tx, query.command, query.replies, timeout, outcome),
    {
        let mut clock = SystemClock::new();
        let limit: u128 = timeout.as_nanos();
        let mut left: u128 = limit;
        let ghost asked = query.command;
        let mut next = query.command;
        let replies = query.replies;
        let ghost start = clock.origin();
        let ghost mut lefts: Seq<u128> = seq![limit];
        loop
            invariant
                clock::is_moment(start),
                clock.origin() == start,
                clock.latest() == 0 || clock::is_reading(start, clock.latest()),
                call_ensures(Duration::as_nanos, (&timeout,), limit),
                asked == query.command,
                next == asked,
                replies == query.replies,
                lefts.len() > 0,
                lefts[0] == limit,
                lefts.last() == left,
                forall|i: int|
                    0 <= i < lefts.len() - 1 ==> was_retried(
                        self.cmd_tx,
                        asked,
                        replies,
                        start,
                        limit,
                        #[trigger] lefts[i],
                        lefts[i + 1],
                    ),
            decreases left,
        {
            let delivery = try_deliver(&self.cmd_tx, next);
            assert(was_tried(self.cmd_tx, asked, delivery));
            match after_attempt(delivery, left) {
                Attempt::AwaitReply => {
                    let outcome = match replies.recv_timeout(span_of(left)) {
                        Ok(answer) => {
                            assert(was_received(replies, span(left), Ok(answer)));
                            outcome_of(Some(answer))
                        },
                        Err(e) => {
                            assert(was_received(replies, span(left), Err(e)));
                            outcome_of(None)
                        },
                    };
                    assert(is_exchange(self.cmd_tx, asked, replies, start, limit, lefts, outcome));
                    return outcome;
                },
                Attempt::Retry { command, wait } => {
                    // Nobody else has the other end while the command is here, so this
                    // only lets time pass.
                    let received = replies.recv_timeout(Duration::from_nanos(wait));
                    let ghost before = left;
                    let ghost earlier = lefts;
                    let elapsed: u128 = clock.nanos();
                    left = time_left(limit, left, wait, elapsed);
                    next = command;
                    proof {
                        assert(was_received(replies, clock::nanoseconds(wait), received));
                        assert(clock::is_reading(start, elapsed));
                        lefts = lefts.push(left);
                        assert forall|i: int| 0 <= i < lefts.len() - 1 implies was_retried(
                            self.cmd_tx,
                            asked,
                            replies,
                            start,
                            limit,
                            #[trigger] lefts[i],
                            lefts[i + 1],
                        ) by {
                            assert(lefts[i] == earlier[i]);
                        }
                    }
                },
                Attempt::Stopped => {
                    let outcome = Outcome::Stopped;
                    assert(is_exchange(self.cmd_tx, asked, replies, start, limit, lefts, outcome));
                    return outcome;
                },
                Attempt::TimedOut => {
                    let outcome = Outcome::TimedOut;
                    assert(is_exchange(self.cmd_tx, asked, replies, start, limit, lefts, outcome));
                    return outcome;
                },
            }
        }
    }

    /// List all nodes observed on this transport (blocks up to `timeout`).
    ///
    /// Sends [`list_nodes_query`] and shows what came of it as [`nodes_from`] says.
    pub fn list_nodes(&self, timeout: Duration) -> (nodes: Vec<NodeEntry>)
        ensures
            told_nodes(*self, timeout, nodes@),
    {
        nodes_from(self.ask(list_nodes_query(), timeout))
    }

    /// Request the worker's diagnostics (blocks up to `timeout`).
    ///
    /// Sends [`diagnostics_query`] and shows what came of it as [`diagnostics_from`]
    /// says.
    pub fn diagnostics(&self, timeout: Duration) -> (result: Result<TransportDiagnostics, String>)
        ensures
            result matches Err(e) ==> e@ == "transport worker has stopped"@ || e@
                == "timed out waiting for diagnostics response"@,
            told_diagnostics(*self, timeout, result),
    {
        diagnostics_from(self.ask(diagnostics_query(), timeout))
    }

    /// Send a GetInfo request to `node_id` (blocks up to `timeout`).
    ///
    /// Sends [`get_info_query`] and shows what came of it as [`get_info_from`] says.
    pub fn get_info(&self, node_id: u16, timeout: Duration) -> (result: Result<
        GetInfoResult,
        String,
    >)
        ensures
            told_info(*self, node_id, timeout, result),
    {
        get_info_from(self.ask(get_info_query(node_id), timeout))
    }

    /// List the node-ID allocations of this transport (blocks up to `timeout`).
    ///
    /// Sends [`list_allocations_query`] and shows what came of it as
    /// [`allocations_from`] says.
    pub fn list_allocations(&self, timeout: Duration) -> (entries: Vec<AllocationEntry>)
        ensures
            told_allocations(*self, timeout, entries@),
    {
        allocations_from(self.ask(list_allocations_query(), timeout))
    }
}

/// Whether a step of a poll loop failed, after which the loop goes on.
pub fn log_err_and_continue<E>(result: &Result<(), E>) -> (failed: bool)
    ensures
        failed == (result is Err),
{
    match result {
        Ok(_) => false,
        Err(_) => true,
    }
}

// ─── laws ────────────────────────────────────────────────────────────────────

/// Whether a worker takes every such command into its queue, and whatever is received on
/// the channel of one is a reply as expected.
pub open spec fn always_answers<T>(
    queue: SyncSender<TransportCommand>,
    command: spec_fn(SyncSender<T>) -> TransportCommand,
    expected: spec_fn(T) -> bool,
) -> bool {
    forall|reply: SyncSender<T>, replies: Receiver<T>|
        #[trigger] is_channel(reply, replies) ==> {
            &&& forall|delivery: Delivery| #[trigger]
                was_tried(queue, command(reply), delivery) ==> delivery is Queued
            &&& forall|span: Duration, received: Result<T, RecvTimeoutError>| #[trigger]
                was_received(replies, span, received) ==> (received matches Ok(answer)
                    && expected(answer))
        }
}

/// Whether the answer was received on the channel of a command that the worker had in
/// its queue.
pub open spec fn was_answered<T>(
    queue: SyncSender<TransportCommand>,
    command: TransportCommand,
    replies: Receiver<T>,
    answer: T,
) -> bool {
    &&& was_tried(queue, command, Delivery::Queued)
    &&& exists|span: Duration| #[trigger] was_received(replies, span, Ok(answer))
}

/// Whether a command was refused by its queue, or queued and then not answered in the
/// time that there was.
pub open spec fn was_not_answered<T>(
    queue: SyncSender<TransportCommand>,
    command: TransportCommand,
    replies: Receiver<T>,
) -> bool {
    ||| was_tried(queue, command, Delivery::Disconnected)
    ||| was_tried(queue, command, Delivery::Full(command))
    ||| was_tried(queue, command, Delivery::Queued) && exists|
        span: Duration,
        e: RecvTimeoutError,
    | #[trigger] was_received(replies, span, Err(e))
}

/// A worker that always answers as expected is heard to answer so, and what came of a
/// command is an answer exactly where one was received.
proof fn outcomes_come_from_the_worker<T>(
    queue: SyncSender<TransportCommand>,
    command: TransportCommand,
    replies: Receiver<T>,
    timeout: Duration,
    outcome: Outcome<T>,
)
    requires
        came_of(queue, command, replies, timeout, outcome),
    ensures
        match outcome {
            Outcome::Answered(answer) => was_answered(queue, command, replies, answer),
            _ => was_not_answered(queue, command, replies),
        },
{
    let (start, limit, lefts) = choose|start: Instant, limit: u128, lefts: Seq<u128>|
        {
            &&& clock::is_moment(start)
            &&& call_ensures(Duration::as_nanos, (&timeout,), limit)
            &&& #[trigger] is_exchange(queue, command, replies, start, limit, lefts, outcome)
        };
    assert(is_exchange(queue, command, replies, start, limit, lefts, outcome));
}

/// A command that finds room at once is given the whole of the time: the reply is waited
/// for that long. So a reply is never missed by waiting less.
pub proof fn replies_get_the_whole_time<T>(
    queue: SyncSender<TransportCommand>,
    command: TransportCommand,
    replies: Receiver<T>,
    seconds: u64,
    outcome: Outcome<T>,
)
    requires
        came_of(queue, command, replies, clock::seconds(seconds), outcome),
        seconds * 1_000_000_000 < u64::MAX,
        forall|delivery: Delivery| #[trigger]
            was_tried(queue, command, delivery) ==> delivery is Queued,
    ensures
        ({
            let whole = clock::nanoseconds((seconds * 1_000_000_000) as u64);
            match outcome {
                Outcome::Answered(answer) => was_received(replies, whole, Ok(answer)),
                Outcome::TimedOut => exists|e: RecvTimeoutError| #[trigger]
                    was_received(replies, whole, Err(e)),
                Outcome::Stopped => false,
            }
        }),
{
    let timeout = clock::seconds(seconds);
    let (start, limit, lefts) = choose|start: Instant, limit: u128, lefts: Seq<u128>|
        {
            &&& clock::is_moment(start)
            &&& call_ensures(Duration::as_nanos, (&timeout,), limit)
            &&& #[trigger] is_exchange(queue, command, replies, start, limit, lefts, outcome)
        };
    assert(limit == seconds * 1_000_000_000);
    if lefts.len() > 1 {
        let left = lefts[0];
        assert(was_retried(queue, command, replies, start, limit, left, lefts[1]));
        assert(was_tried(queue, command, Delivery::Full(command)));
    }
    assert(lefts.last() == lefts[0]);
}

/// Giving up on a full queue, or waiting less for the reply, takes as much time as is
/// missing: at each try, what is left of the limit is less than it by no more than the
/// waits for room in all, or the time that the clock showed.
pub proof fn time_is_only_spent_waiting<T>(
    queue: SyncSender<TransportCommand>,
    command: TransportCommand,
    replies: Receiver<T>,
    start: Instant,
    limit: u128,
    lefts: Seq<u128>,
    outcome: Outcome<T>,
    n: int,
)
    requires
        is_exchange(queue, command, replies, start, limit, lefts, outcome),
        0 <= n < lefts.len(),
    ensures
        limit - lefts[n] <= n * ROOM_INTERVAL || exists|elapsed: u128| #[trigger]
            clock::is_reading(start, elapsed) && limit - lefts[n] <= elapsed + n * ROOM_INTERVAL,
        lefts[n] <= limit,
    decreases n,
{
    if n > 0 {
        time_is_only_spent_waiting(queue, command, replies, start, limit, lefts, outcome, n - 1);
        let left = lefts[n - 1];
        let rest = lefts[n];
        assert(was_retried(queue, command, replies, start, limit, left, lefts[n - 1 + 1]));
        assert(n * ROOM_INTERVAL == (n - 1) * ROOM_INTERVAL + ROOM_INTERVAL) by (nonlinear_arith);
        assert((n - 1) * ROOM_INTERVAL >= 0) by (nonlinear_arith)
            requires
                n > 0,
        ;
    }
}

/// Whether the worker always answers a request for its nodes with the list.
pub open spec fn always_tells_nodes(handle: TransportHandle, list: Seq<NodeEntry>) -> bool {
    always_answers(
        handle.cmd_tx,
        |reply: SyncSender<Vec<NodeEntry>>| TransportCommand::ListNodes { reply },
        |answer: Vec<NodeEntry>| answer@ == list,
    )
}

/// Whether the worker always answers a request for its allocation table with the
/// entries.
pub open spec fn always_tells_allocations(
    handle: TransportHandle,
    table: Seq<AllocationEntry>,
) -> bool {
    always_answers(
        handle.cmd_tx,
        |reply: SyncSender<Vec<AllocationEntry>>| TransportCommand::ListAllocations { reply },
        |answer: Vec<AllocationEntry>| answer@ == table,
    )
}

/// Whether the worker always answers a request for its diagnostics with these.
pub open spec fn always_tells_diagnostics(
    handle: TransportHandle,
    diagnostics: TransportDiagnostics,
) -> bool {
    always_answers(
        handle.cmd_tx,
        |reply: SyncSender<TransportDiagnostics>| TransportCommand::Diagnostics { reply },
        |answer: TransportDiagnostics| answer == diagnostics,
    )
}

/// Whether the worker always answers a request for the information of the node as
/// expected.
pub open spec fn always_tells_info(
    handle: TransportHandle,
    node_id: u16,
    expected: spec_fn(Result<GetInfoResult, String>) -> bool,
) -> bool {
    always_answers(
        handle.cmd_tx,
        |reply: SyncSender<Result<GetInfoResult, String>>|
            TransportCommand::GetInfo { node_id, reply },
        expected,
    )
}

/// A worker that always answers a request for its nodes with one list is shown with that
/// list, and nodes are only shown where they were received from the worker.
pub proof fn nodes_come_from_the_worker(
    handle: TransportHandle,
    timeout: Duration,
    nodes: Seq<NodeEntry>,
    list: Seq<NodeEntry>,
)
    requires
        told_nodes(handle, timeout, nodes),
    ensures
        always_tells_nodes(handle, list) ==> nodes == list,
        exists|reply: SyncSender<Vec<NodeEntry>>, replies: Receiver<Vec<NodeEntry>>|
            {
                &&& #[trigger] is_channel(reply, replies)
                &&& {
                    let command = TransportCommand::ListNodes { reply };
                    ||| exists|answer: Vec<NodeEntry>|
                        nodes == answer@ && #[trigger] was_answered(
                            handle.cmd_tx,
                            command,
                            replies,
                            answer,
                        )
                    ||| nodes.len() == 0 && was_not_answered(handle.cmd_tx, command, replies)
                }
            },
{
    let (reply, replies, outcome) = choose|
        reply: SyncSender<Vec<NodeEntry>>,
        replies: Receiver<Vec<NodeEntry>>,
        outcome: Outcome<Vec<NodeEntry>>,
    |
        {
            &&& is_channel(reply, replies)
            &&& #[trigger] came_of(
                handle.cmd_tx,
                TransportCommand::ListNodes { reply },
                replies,
                timeout,
                outcome,
            )
            &&& nodes == (match outcome {
                Outcome::Answered(list) => list@,
                _ => Seq::empty(),
            })
        };
    let command = |reply: SyncSender<Vec<NodeEntry>>| TransportCommand::ListNodes { reply };
    assert(command(reply) == TransportCommand::ListNodes { reply });
    outcomes_come_from_the_worker(
        handle.cmd_tx,
        TransportCommand::ListNodes { reply },
        replies,
        timeout,
        outcome,
    );
}

/// A worker that always answers a request for its allocation table with one table is
/// shown with that table, and entries are only shown where they were received from the
/// worker.
pub proof fn allocations_come_from_the_worker(
    handle: TransportHandle,
    timeout: Duration,
    entries: Seq<AllocationEntry>,
    table: Seq<AllocationEntry>,
)
    requires
        told_allocations(handle, timeout, entries),
    ensures
        always_tells_allocations(handle, table) ==> entries == table,
        exists|
            reply: SyncSender<Vec<AllocationEntry>>,
            replies: Receiver<Vec<AllocationEntry>>,
        |
            {
                &&& #[trigger] is_channel(reply, replies)
                &&& {
                    let command = TransportCommand::ListAllocations { reply };
                    ||| exists|answer: Vec<AllocationEntry>|
                        entries == answer@ && #[trigger] was_answered(
                            handle.cmd_tx,
                            command,
                            replies,
                            answer,
                        )
                    ||| entries.len() == 0 && was_not_answered(handle.cmd_tx, command, replies)
                }
            },
{
    let (reply, replies, outcome) = choose|
        reply: SyncSender<Vec<AllocationEntry>>,
        replies: Receiver<Vec<AllocationEntry>>,
        outcome: Outcome<Vec<AllocationEntry>>,
    |
        {
            &&& is_channel(reply, replies)
            &&& #[trigger] came_of(
                handle.cmd_tx,
                TransportCommand::ListAllocations { reply },
                replies,
                timeout,
                outcome,
            )
            &&& entries == (match outcome {
                Outcome::Answered(list) => list@,
                _ => Seq::empty(),
            })
        };
    let command = |reply: SyncSender<Vec<AllocationEntry>>|
        TransportCommand::ListAllocations { reply };
    assert(command(reply) == TransportCommand::ListAllocations { reply });
    outcomes_come_from_the_worker(
        handle.cmd_tx,
        TransportCommand::ListAllocations { reply },
        replies,
        timeout,
        outcome,
    );
}

/// A worker that always answers a request for its diagnostics with the same is shown
/// with those, and diagnostics are only shown where they were received from the worker.
pub proof fn diagnostics_come_from_the_worker(
    handle: TransportHandle,
    timeout: Duration,
    result: Result<TransportDiagnostics, String>,
    diagnostics: TransportDiagnostics,
)
    requires
        told_diagnostics(handle, timeout, result),
    ensures
        always_tells_diagnostics(handle, diagnostics) ==> result == Ok::<
            TransportDiagnostics,
            String,
        >(diagnostics),
        exists|reply: SyncSender<TransportDiagnostics>, replies: Receiver<TransportDiagnostics>|
            {
                &&& #[trigger] is_channel(reply, replies)
                &&& {
                    let command = TransportCommand::Diagnostics { reply };
                    match result {
                        Ok(answer) => was_answered(handle.cmd_tx, command, replies, answer),
                        Err(_) => was_not_answered(handle.cmd_tx, command, replies),
                    }
                }
            },
{
    let (reply, replies, outcome) = choose|
        reply: SyncSender<TransportDiagnostics>,
        replies: Receiver<TransportDiagnostics>,
        outcome: Outcome<TransportDiagnostics>,
    |
        {
            &&& is_channel(reply, replies)
            &&& #[trigger] came_of(
                handle.cmd_tx,
                TransportCommand::Diagnostics { reply },
                replies,
                timeout,
                outcome,
            )
            &&& match outcome {
                Outcome::Answered(answer) => result == Ok::<TransportDiagnostics, String>(answer),
                Outcome::Stopped => result matches Err(e) && e@ == "transport worker has stopped"@,
                Outcome::TimedOut => result matches Err(e) && e@
                    == "timed out waiting for diagnostics response"@,
            }
        };
    let command = |reply: SyncSender<TransportDiagnostics>| TransportCommand::Diagnostics { reply };
    assert(command(reply) == TransportCommand::Diagnostics { reply });
    outcomes_come_from_the_worker(
        handle.cmd_tx,
        TransportCommand::Diagnostics { reply },
        replies,
        timeout,
        outcome,
    );
}

/// What is told of a node is what the worker answered to a request for that very node:
/// whatever holds of all its answers to such requests holds of the result.
pub proof fn info_comes_from_the_worker(
    handle: TransportHandle,
    node_id: u16,
    timeout: Duration,
    result: Result<GetInfoResult, String>,
    expected: spec_fn(Result<GetInfoResult, String>) -> bool,
)
    requires
        told_info(handle, node_id, timeout, result),
    ensures
        always_tells_info(handle, node_id, expected) ==> expected(result),
        exists|
            reply: SyncSender<Result<GetInfoResult, String>>,
            replies: Receiver<Result<GetInfoResult, String>>,
        |
            {
                &&& #[trigger] is_channel(reply, replies)
                &&& {
                    let command = TransportCommand::GetInfo { node_id, reply };
                    ||| was_answered(handle.cmd_tx, command, replies, result)
                    ||| result is Err && was_not_answered(handle.cmd_tx, command, replies)
                }
            },
{
    let (reply, replies, outcome) = choose|
        reply: SyncSender<Result<GetInfoResult, String>>,
        replies: Receiver<Result<GetInfoResult, String>>,
        outcome: Outcome<Result<GetInfoResult, String>>,
    |
        {
            &&& is_channel(reply, replies)
            &&& #[trigger] came_of(
                handle.cmd_tx,
                TransportCommand::GetInfo { node_id, reply },
                replies,
                timeout,
                outcome,
            )
            &&& match outcome {
                Outcome::Answered(answer) => result == answer,
                Outcome::Stopped => result matches Err(e) && e@ == "transport worker has stopped"@,
                Outcome::TimedOut => result matches Err(e) && e@
                    == "timed out waiting for GetInfo response"@,
            }
        };
    let command = |reply: SyncSender<Result<GetInfoResult, String>>|
        TransportCommand::GetInfo { node_id, reply };
    assert(command(reply) == TransportCommand::GetInfo { node_id, reply });
    outcomes_come_from_the_worker(
        handle.cmd_tx,
        TransportCommand::GetInfo { node_id, reply },
        replies,
        timeout,
        outcome,
    );
}

} // verus!
