use std::sync::mpsc::{sync_channel, Receiver};
use std::time::Duration;

use canadensis_core::{ServiceId, SubjectId};
use canadensis_data_types::uavcan::node::{get_info_1_0, heartbeat_1_0};
use canadensis_data_types::uavcan::pnp::{
    node_id_allocation_data_1_0, node_id_allocation_data_2_0,
};
use cyphal_service::clock::{after, elapsed_at_least, wrap_micros, SystemClock, SECOND};
use cyphal_service::pnp::{AllocationDb, PnpAllocator};
use cyphal_service::transport::can_gsusb::GsUsbHandler;
use cyphal_service::transport::handler::{
    on_shutdown_checked, send_failure, CommandAction, GetInfoOrder, Publication, WorkerAction,
    GET_INFO_TIMEOUT, PNP_GET_INFO_TIMEOUT,
};
use cyphal_service::transport::messages::{
    GET_INFO_SERVICE, HEARTBEAT_SUBJECT, PNP_V1_SUBJECT, PNP_V2_SUBJECT,
};
use cyphal_service::transport::node_info::node_info_with;
use cyphal_service::transport::serial::SerialHandler;
use cyphal_service::transport::state::RECENT_HEARTBEATS;
use cyphal_service::transport::udp::{self, effective_port, UdpHandler};
use cyphal_service::transport::{
    allocations_from, diagnostics_from, diagnostics_query, get_info_from, get_info_query,
    list_allocations_query, list_nodes_query, log_err_and_continue, make_node_info, nodes_from,
    after_attempt, outcome_of, serial, time_left, Attempt, Delivery, GetInfoResult, NodeEntry,
    Outcome, TransportCommand, TransportHandle, WorkerState,
};

type Answer = Result<GetInfoResult, String>;

fn order(node_id: u16) -> (GetInfoOrder, Receiver<Answer>) {
    let (reply, answers) = sync_channel(1);
    (GetInfoOrder { node_id, reply }, answers)
}

fn get_info(node_id: u16) -> (TransportCommand, Receiver<Answer>) {
    let (reply, answers) = sync_channel(1);
    (TransportCommand::GetInfo { node_id, reply }, answers)
}

/// The payload of a GetInfo response.
fn response(name: &str, unique_id: [u8; 16]) -> Vec<u8> {
    let mut payload = vec![1, 0, 2, 3, 4, 5];
    payload.extend_from_slice(&[0; 8]);
    payload.extend_from_slice(&unique_id);
    payload.push(name.len() as u8);
    payload.extend_from_slice(name.as_bytes());
    payload.extend_from_slice(&[0, 0]);
    payload
}

fn udp_with_allocator() -> UdpHandler {
    let db = AllocationDb::open(":memory:").unwrap();
    UdpHandler::new(100, Some(PnpAllocator::new(db, 100, 127)), 0)
}

fn error_of(answer: Answer) -> String {
    match answer {
        Ok(_) => panic!("an error was expected"),
        Err(e) => e,
    }
}

// ─── constants ───────────────────────────────────────────────────────────────

#[test]
fn test_constants_are_those_of_the_protocol() {
    assert_eq!(
        SubjectId::try_from(HEARTBEAT_SUBJECT).unwrap(),
        heartbeat_1_0::SUBJECT
    );
    assert_eq!(
        SubjectId::try_from(PNP_V1_SUBJECT).unwrap(),
        node_id_allocation_data_1_0::SUBJECT
    );
    assert_eq!(
        SubjectId::try_from(PNP_V2_SUBJECT).unwrap(),
        node_id_allocation_data_2_0::SUBJECT
    );
    assert_eq!(
        ServiceId::try_from(GET_INFO_SERVICE).unwrap(),
        get_info_1_0::SERVICE
    );
    assert_eq!(udp::DEFAULT_PORT, canadensis_udp::DEFAULT_PORT);
    assert_eq!(effective_port(None), canadensis_udp::DEFAULT_PORT);
    assert_eq!(effective_port(Some(5)), 5);
}

#[test]
fn test_node_ids() {
    assert!(udp::is_node_id(0) && udp::is_node_id(65534) && !udp::is_node_id(65535));
    assert!(serial::is_node_id(0) && serial::is_node_id(65534) && !serial::is_node_id(65535));
}

#[test]
fn test_clock_wraps_microseconds() {
    assert_eq!(wrap_micros(999), 0);
    assert_eq!(wrap_micros(4_294_967_295_999), 0xFFFF_FFFF);
    assert_eq!(wrap_micros(4_294_967_296_000), 0);
    assert_eq!(wrap_micros(4_294_967_297_500), 1);
    let mut clock = SystemClock::new();
    let first = clock.nanos();
    let mut stepped = SystemClock::new();
    assert_eq!(stepped.advance(500), 500);
    assert_eq!(stepped.advance(200), 500);
    assert_eq!(stepped.advance(501), 501);
    assert!(clock.nanos() >= first);
    let ticks = clock.ticks();
    assert!(ticks >= wrap_micros(first));
}

// ─── handles ─────────────────────────────────────────────────────────────────

#[test]
fn test_outcomes() {
    assert!(matches!(outcome_of::<u8>(None), Outcome::TimedOut));
    assert!(matches!(outcome_of(Some(1)), Outcome::Answered(1)));
    assert!(nodes_from(Outcome::Stopped).is_empty());
    assert!(nodes_from(Outcome::TimedOut).is_empty());
    let node = NodeEntry {
        node_id: 1,
        uptime: 2,
        health: 0,
        mode: 0,
    };
    assert_eq!(nodes_from(Outcome::Answered(vec![node])).len(), 1);
    assert!(allocations_from(Outcome::TimedOut).is_empty());
    assert_eq!(
        error_of(get_info_from(Outcome::Stopped)),
        "transport worker has stopped"
    );
    assert_eq!(
        error_of(get_info_from(Outcome::TimedOut)),
        "timed out waiting for GetInfo response"
    );
    assert_eq!(
        error_of(get_info_from(Outcome::Answered(Err("x".to_string())))),
        "x"
    );
    assert_eq!(
        diagnostics_from(Outcome::Stopped).unwrap_err(),
        "transport worker has stopped"
    );
    assert_eq!(
        diagnostics_from(Outcome::TimedOut).unwrap_err(),
        "timed out waiting for diagnostics response"
    );
}

#[test]
fn test_handle_times_out_without_a_worker() {
    let (tx, _rx) = sync_channel(16);
    let handle = TransportHandle::new("t".to_string(), Some(7), tx);
    assert_eq!(handle.local_node_id, Some(7));
    let brief = Duration::from_millis(1);
    assert!(handle.list_nodes(brief).is_empty());
    assert!(handle.list_allocations(brief).is_empty());
    assert_eq!(
        error_of(handle.get_info(1, brief)),
        "timed out waiting for GetInfo response"
    );
    assert_eq!(
        handle.diagnostics(brief).unwrap_err(),
        "timed out waiting for diagnostics response"
    );
}

#[test]
fn test_attempts() {
    assert!(matches!(
        after_attempt(Delivery::Queued, 0),
        Attempt::AwaitReply
    ));
    assert!(matches!(
        after_attempt(Delivery::Disconnected, 5),
        Attempt::Stopped
    ));
    let full = || Delivery::Full(get_info_query(42).command);
    assert!(matches!(after_attempt(full(), 0), Attempt::TimedOut));
    for (left, expected) in [(1, 1), (999_999, 999_999), (1_000_000, 1_000_000), (u128::MAX, 1_000_000)] {
        match after_attempt(full(), left) {
            Attempt::Retry {
                command: TransportCommand::GetInfo { node_id: 42, .. },
                wait,
            } => assert_eq!(wait, expected),
            _ => panic!("a full queue is tried again"),
        }
    }
    assert_eq!(time_left(100, 100, 10, 10), 90);
    assert_eq!(time_left(100, 100, 10, 30), 70);
    assert_eq!(time_left(100, 100, 10, 5), 90);
    assert_eq!(time_left(100, 10, 10, 5), 0);
    assert_eq!(time_left(100, 50, 10, 100), 0);
    assert_eq!(time_left(100, 50, 10, 101), 0);
}

#[test]
fn test_handle_waits_for_room_until_the_timeout() {
    let (tx, commands) = sync_channel(1);
    let handle = TransportHandle::new("t".to_string(), None, tx);
    let brief = Duration::from_millis(1);
    assert!(handle.list_nodes(brief).is_empty());
    // The queue is full now, and nobody empties it.
    let mut clock = SystemClock::new();
    assert_eq!(
        error_of(handle.get_info(1, Duration::from_millis(20))),
        "timed out waiting for GetInfo response"
    );
    assert!(clock.nanos() >= 20_000_000);
    assert!(commands.try_recv().is_ok());
    assert!(commands.try_recv().is_err());
    drop(commands);
    assert_eq!(
        error_of(handle.get_info(1, brief)),
        "transport worker has stopped"
    );
}

#[test]
fn test_handle_sends_commands() {
    let (tx, commands) = sync_channel(16);
    let handle = TransportHandle::new("t".to_string(), None, tx);
    let other = handle.clone();
    let brief = Duration::from_millis(1);
    handle.list_nodes(brief);
    let _ = other.get_info(42, brief);
    assert!(matches!(
        commands.try_recv(),
        Ok(TransportCommand::ListNodes { .. })
    ));
    assert!(matches!(
        commands.try_recv(),
        Ok(TransportCommand::GetInfo { node_id: 42, .. })
    ));
}

#[test]
fn test_queries_carry_their_reply_channels() {
    let query = get_info_query(42);
    match query.command {
        TransportCommand::GetInfo { node_id, reply } => {
            assert_eq!(node_id, 42);
            reply.send(Err("x".to_string())).unwrap();
        }
        _ => panic!("GetInfo was asked for"),
    }
    assert_eq!(error_of(query.replies.try_recv().unwrap()), "x");
    let query = list_nodes_query();
    match query.command {
        TransportCommand::ListNodes { reply } => reply.send(vec![]).unwrap(),
        _ => panic!("the nodes were asked for"),
    }
    assert!(query.replies.try_recv().unwrap().is_empty());
    assert!(matches!(
        diagnostics_query().command,
        TransportCommand::Diagnostics { .. }
    ));
    assert!(matches!(
        list_allocations_query().command,
        TransportCommand::ListAllocations { .. }
    ));
}

#[test]
fn test_log_err_and_continue() {
    assert!(!log_err_and_continue::<u8>(&Ok(())));
    assert!(log_err_and_continue(&Err("x")));
}

// ─── worker state ────────────────────────────────────────────────────────────

#[test]
fn test_heartbeats_replace_nodes() {
    let mut state = WorkerState::default();
    state.on_heartbeat(5, 1, 2, 3);
    state.on_heartbeat(5, 9, 0, 1);
    state.on_heartbeat(6, 4, 0, 0);
    let mut nodes = state.node_list();
    nodes.sort_by_key(|n| n.node_id);
    assert_eq!(nodes.len(), 2);
    assert_eq!(
        (nodes[0].node_id, nodes[0].uptime, nodes[0].health, nodes[0].mode),
        (5, 9, 0, 1)
    );
    assert_eq!(nodes[1].node_id, 6);
    assert_eq!(state.heartbeat_messages_received, 3);
    assert_eq!(state.recent_heartbeat_sources, vec![6, 5]);
}

#[test]
fn test_recent_sources_are_bounded() {
    let mut state = WorkerState::default();
    for id in 1..=10 {
        state.on_heartbeat(id, 0, 0, 0);
    }
    state.on_heartbeat(5, 0, 0, 0);
    assert_eq!(state.recent_heartbeat_sources, vec![5, 10, 9, 8, 7, 6, 4, 3]);
    assert_eq!(state.recent_heartbeat_sources.len(), RECENT_HEARTBEATS);
}

#[test]
fn test_get_info_is_answered_once() {
    let mut state = WorkerState::default();
    let (order, answers) = order(42);
    state.on_request_sent(order, 1_000);
    state.on_get_info_response(Err("first".to_string()));
    state.on_get_info_response(Err("second".to_string()));
    assert_eq!(error_of(answers.try_recv().unwrap()), "first");
    assert!(answers.try_recv().is_err());
    assert!(state.pending_get_info.is_none());
    assert_eq!(state.get_info_requests_sent, 1);
}

#[test]
fn test_get_info_timeout() {
    let mut state = WorkerState::default();
    let (order, _answers) = order(42);
    state.on_request_sent(order, 1_000);
    assert!(state.take_get_info_timeout(1_000 + GET_INFO_TIMEOUT).is_none());
    let answer = state.take_get_info_timeout(1_001 + GET_INFO_TIMEOUT).unwrap();
    assert_eq!(error_of(answer.result), "GetInfo request timed out");
    assert!(state.take_get_info_timeout(u128::MAX).is_none());
}

#[test]
fn test_check_get_info_timeout_answers_old_requests() {
    let mut state = WorkerState::default();
    let (order, answers) = order(42);
    state.on_request_sent(order, 0);
    state.pending_get_info.as_mut().unwrap().deadline = 0;
    while state.clock.nanos() == 0 {}
    state.check_get_info_timeout();
    assert!(state.pending_get_info.is_none());
    assert_eq!(
        error_of(answers.try_recv().unwrap()),
        "GetInfo request timed out"
    );
}

#[test]
fn test_check_get_info_timeout_keeps_young_requests() {
    let mut state = WorkerState::default();
    let (order, answers) = order(42);
    let now = state.clock.nanos();
    state.on_request_sent(order, now);
    state.check_get_info_timeout();
    assert!(state.pending_get_info.is_some());
    assert!(answers.try_recv().is_err());
}

#[test]
fn test_local_node() {
    let mut state = WorkerState::default();
    state.tick_local_node(7);
    assert!(state.node_list().is_empty());
    state.register_local_node(7);
    state.tick_local_node(7);
    state.tick_local_node(7);
    assert_eq!(state.observed_nodes[&7].uptime, 2);
}

#[test]
fn test_diagnostics() {
    let mut state = WorkerState::default();
    state.on_heartbeat_at(
        NodeEntry {
            node_id: 9,
            uptime: 1,
            health: 0,
            mode: 0,
        },
        500,
    );
    state.on_message_received_at(800);
    state.record_error("oops".to_string());
    state.on_pnp_allocated();
    let d = state.diagnostics_at(Some(3), 1_000);
    assert_eq!(d.local_node_id, Some(3));
    assert_eq!(d.observed_node_count, 1);
    assert_eq!(d.total_messages_received, 2);
    assert_eq!(d.heartbeat_messages_received, 1);
    assert_eq!(d.last_message_age, Some(200));
    assert_eq!(d.last_heartbeat_age, Some(500));
    assert_eq!(d.recent_heartbeat_sources, vec![9]);
    assert_eq!(d.last_error, Some("oops".to_string()));
    assert_eq!(d.pnp_allocations, 1);
    assert!(!d.pnp_enabled);
}

// ─── serial and CAN ──────────────────────────────────────────────────────────

#[test]
fn test_plain_heartbeat() {
    let mut handler = SerialHandler::new(1, 0);
    let payload = [4, 3, 2, 1, 0xFE, 0xFB, 7];
    assert!(handler.handle_message(HEARTBEAT_SUBJECT, Some(42), &payload, 10));
    let node = handler.state.observed_nodes[&42];
    assert_eq!((node.uptime, node.health, node.mode), (0x0102_0304, 2, 3));

    // A short payload is read as if zeros followed, from an anonymous source.
    assert!(handler.handle_message(HEARTBEAT_SUBJECT, None, &[9], 11));
    assert_eq!(handler.state.observed_nodes[&0xFFFF].uptime, 9);

    assert!(!handler.handle_message(1, Some(43), &payload, 12));
    assert_eq!(handler.state.observed_nodes.len(), 2);
}

#[test]
fn test_plain_response() {
    let mut handler = GsUsbHandler::new(1, 0);
    let payload = response("org.node", [7; 16]);
    assert!(!handler.handle_response(GET_INFO_SERVICE, &payload).handled);

    let (order, _answers) = order(42);
    handler.state.on_request_sent(order, 0);
    assert!(!handler.handle_response(1, &payload).handled);
    let outcome = handler.handle_response(GET_INFO_SERVICE, &payload);
    assert!(outcome.handled);
    let info = outcome.answer.unwrap().result.unwrap();
    assert_eq!(info.node_id, 42);
    assert_eq!(info.name, "org.node");
    assert_eq!(info.hardware_version, (2, 3));
    assert_eq!(info.software_version, (4, 5));
    assert_eq!(info.unique_id, [7; 16]);
    assert!(handler.state.pending_get_info.is_none());
    assert_eq!(handler.state.get_info_responses_received, 1);
    assert_eq!(handler.state.get_info_requests_sent, 1);
}

#[test]
fn test_malformed_responses() {
    let name_too_long = {
        let mut p = response("", [0; 16]);
        p[30] = 51;
        p
    };
    let crc_too_long = {
        let mut p = response("ab", [0; 16]);
        p[33] = 2;
        p
    };
    let certificate_too_long = {
        let mut p = response("ab", [0; 16]);
        p[34] = 223;
        p
    };
    for payload in [name_too_long, crc_too_long, certificate_too_long] {
        let mut handler = SerialHandler::new(1, 0);
        let (order, _answers) = order(42);
        handler.state.on_request_sent(order, 0);
        let outcome = handler.handle_response(GET_INFO_SERVICE, &payload);
        assert!(outcome.handled);
        assert_eq!(
            error_of(outcome.answer.unwrap().result),
            "Failed to parse GetInfo response"
        );
    }
}

#[test]
fn test_names_that_are_not_utf8() {
    let mut payload = response("abc", [0; 16]);
    payload[32] = 0xFF;
    let mut handler = SerialHandler::new(1, 0);
    let (order, _answers) = order(42);
    handler.state.on_request_sent(order, 0);
    let outcome = handler.handle_response(GET_INFO_SERVICE, &payload);
    assert_eq!(outcome.answer.unwrap().result.unwrap().name, "a\u{FFFD}c");
}

#[test]
fn test_serial_commands() {
    let handler = SerialHandler::new(1, 0);
    let (bad, _answers) = get_info(65535);
    match handler.handle_command(bad, true, 0) {
        CommandAction::Answer(a) => {
            assert_eq!(error_of(a.result), "Invalid Serial node ID: 65535")
        }
        _ => panic!("the node ID is invalid"),
    }
    let (good, _answers) = get_info(65534);
    match handler.handle_command(good, false, 0) {
        CommandAction::Answer(a) => {
            assert_eq!(error_of(a.result), "GetInfo requester not available")
        }
        _ => panic!("there is no requester"),
    }
    let (good, answers) = get_info(65534);
    let order = handler.handle_command(good, true, 0).perform().unwrap();
    assert_eq!(order.node_id, 65534);
    send_failure(order, "Busy").deliver();
    assert_eq!(
        error_of(answers.try_recv().unwrap()),
        "Failed to send GetInfo request: Busy"
    );
    let (reply, entries) = sync_channel(1);
    let action = handler.handle_command(TransportCommand::ListAllocations { reply }, true, 0);
    assert!(action.perform().is_none());
    assert!(entries.try_recv().unwrap().is_empty());
}

#[test]
fn test_can_commands() {
    let mut handler = GsUsbHandler::new(1, 0);
    let (bad, _answers) = get_info(128);
    match handler.handle_command(bad, true, 0) {
        CommandAction::Answer(a) => assert_eq!(
            error_of(a.result),
            "CAN node ID 128 is out of range (0–127)"
        ),
        _ => panic!("the node ID is out of range"),
    }
    let (good, _answers) = get_info(127);
    assert_eq!(
        handler.handle_command(good, true, 0).perform().unwrap().node_id,
        127
    );
    handler.handle_message(HEARTBEAT_SUBJECT, Some(5), &[1, 0, 0, 0, 1, 2], 0);
    let (reply, nodes) = sync_channel(1);
    let action = handler.handle_command(TransportCommand::ListNodes { reply }, true, 0);
    assert!(action.perform().is_none());
    let nodes = nodes.try_recv().unwrap();
    assert_eq!(nodes.len(), 1);
    assert_eq!((nodes[0].node_id, nodes[0].health, nodes[0].mode), (5, 1, 2));
    let (reply, diagnostics) = sync_channel(1);
    let action = handler.handle_command(TransportCommand::Diagnostics { reply }, true, 0);
    assert!(action.perform().is_none());
    let diagnostics = diagnostics.try_recv().unwrap();
    assert_eq!(diagnostics.local_node_id, Some(1));
    assert_eq!(diagnostics.observed_node_count, 1);
}

// ─── UDP ─────────────────────────────────────────────────────────────────────

#[test]
fn test_udp_shows_its_own_node() {
    let handler = UdpHandler::new(100, None, 0);
    assert_eq!(handler.state.observed_nodes.len(), 1);
    assert_eq!(handler.state.observed_nodes[&100].uptime, 0);
}

#[test]
fn test_udp_commands() {
    let mut handler = UdpHandler::new(100, None, 0);
    let (bad, _answers) = get_info(65535);
    match handler.handle_command(bad, false, 0) {
        CommandAction::Answer(a) => assert_eq!(error_of(a.result), "Invalid UDP node ID: 65535"),
        _ => panic!("the node ID is invalid"),
    }
    assert_eq!(handler.state.last_error, None);
    let (good, _answers) = get_info(7);
    match handler.handle_command(good, false, 0) {
        CommandAction::Answer(a) => {
            assert_eq!(error_of(a.result), "GetInfo requester not available")
        }
        _ => panic!("there is no requester"),
    }
    assert_eq!(
        handler.state.last_error,
        Some("GetInfo requester not available".to_string())
    );
    let (order, _answers) = order(7);
    let answer = handler.on_request_failed(order, "Busy");
    assert_eq!(
        error_of(answer.result),
        "Failed to send GetInfo request: Busy"
    );
    assert_eq!(
        handler.state.last_error,
        Some("GetInfo request send failed: Busy".to_string())
    );
    handler.on_receive_failed("Socket");
    assert_eq!(
        handler.state.last_error,
        Some("Receive error: Socket".to_string())
    );
    let (reply, entries) = sync_channel(1);
    handler
        .handle_command(TransportCommand::ListAllocations { reply }, true, 0)
        .perform();
    assert!(entries.try_recv().unwrap().is_empty());
    let (reply, diagnostics) = sync_channel(1);
    handler
        .handle_command(TransportCommand::Diagnostics { reply }, true, 0)
        .perform();
    assert!(!diagnostics.try_recv().unwrap().pnp_enabled);
}

#[test]
fn test_udp_serves_allocation_requests() {
    let mut handler = udp_with_allocator();
    let mut v2 = vec![0, 0];
    v2.extend_from_slice(&[0xAB; 16]);
    let outcome = handler.handle_message(PNP_V2_SUBJECT, None, &v2, 0);
    assert!(outcome.handled);
    match outcome.publish {
        Some(Publication::V2(r)) => {
            assert_eq!(r.node_id.value, 1);
            assert_eq!(r.unique_id, [0xAB; 16]);
        }
        _ => panic!("the request must be answered"),
    }

    let v1 = [1, 2, 3, 4, 5, 6, 0];
    match handler.handle_message(PNP_V1_SUBJECT, None, &v1, 0).publish {
        Some(Publication::V1(r)) => {
            assert_eq!(r.unique_id_hash, 0x0605_0403_0201);
            assert_eq!(r.allocated_node_id[0].value, 2);
        }
        _ => panic!("the request must be answered"),
    }
    assert_eq!(handler.state.pnp_allocations, 2);

    // Responses, messages from other allocators and malformed messages.
    let response = [9, 0, 0, 0, 0, 0, 1, 7, 0];
    let outcome = handler.handle_message(PNP_V1_SUBJECT, None, &response, 0);
    assert!(outcome.handled && outcome.publish.is_none());
    let malformed = [9, 0, 0, 0, 0, 0, 2, 7, 0];
    let outcome = handler.handle_message(PNP_V1_SUBJECT, None, &malformed, 0);
    assert!(outcome.handled && outcome.publish.is_none());
    let outcome = handler.handle_message(PNP_V2_SUBJECT, Some(4), &v2, 0);
    assert!(outcome.handled && outcome.publish.is_none());
    assert_eq!(handler.state.pnp_allocations, 2);

    let (reply, entries) = sync_channel(1);
    handler
        .handle_command(TransportCommand::ListAllocations { reply }, true, 0)
        .perform();
    let ids: Vec<u16> = entries.try_recv().unwrap().iter().map(|e| e.node_id).collect();
    assert_eq!(ids, vec![1, 2, 100]);
    let (reply, diagnostics) = sync_channel(1);
    handler
        .handle_command(TransportCommand::Diagnostics { reply }, true, 0)
        .perform();
    assert!(diagnostics.try_recv().unwrap().pnp_enabled);
}

#[test]
fn test_udp_without_allocator_ignores_requests() {
    let mut handler = UdpHandler::new(100, None, 0);
    let outcome = handler.handle_message(PNP_V2_SUBJECT, None, &[0; 18], 0);
    assert!(!outcome.handled && outcome.publish.is_none());
    assert!(handler.handle_message(HEARTBEAT_SUBJECT, Some(1), &[], 0).handled);
}

#[test]
fn test_udp_asks_heard_nodes_for_their_unique_id() {
    let mut handler = udp_with_allocator();
    handler.handle_message(HEARTBEAT_SUBJECT, Some(42), &[1], 0);
    assert_eq!(handler.next_pnp_request(true), Some(42));
    handler.state.on_pnp_request_sent(42, 10);
    handler.handle_message(HEARTBEAT_SUBJECT, Some(43), &[1], 11);
    // One request at a time.
    assert_eq!(handler.next_pnp_request(true), None);

    let payload = response("n", [0x5A; 16]);
    assert!(!handler.handle_response(GET_INFO_SERVICE, 41, &payload, 12).handled);
    let outcome = handler.handle_response(GET_INFO_SERVICE, 42, &payload, 12);
    assert!(outcome.handled && outcome.answer.is_none());
    assert_eq!(handler.state.get_info_responses_received, 1);
    assert_eq!(handler.state.last_message, Some(12));
    let entries = handler.pnp.as_mut().unwrap().list_allocations();
    let entry = entries.iter().find(|e| e.node_id == 42).unwrap();
    assert_eq!(entry.unique_id_hex, "5a".repeat(16));

    // The next one cannot be asked, and may be queued again at once.
    assert_eq!(handler.next_pnp_request(false), None);
    handler.handle_message(HEARTBEAT_SUBJECT, Some(43), &[1], 13);
    assert_eq!(handler.next_pnp_request(true), Some(43));
    handler.on_pnp_request_failed(43);
    handler.handle_message(HEARTBEAT_SUBJECT, Some(43), &[1], 14);
    assert_eq!(handler.next_pnp_request(true), Some(43));

    // An anonymous heartbeat is recorded, but nobody can be asked.
    handler.handle_message(HEARTBEAT_SUBJECT, None, &[1], 15);
    assert_eq!(handler.next_pnp_request(true), None);
}

#[test]
fn test_udp_allocator_request_times_out() {
    let mut handler = udp_with_allocator();
    handler.handle_message(HEARTBEAT_SUBJECT, Some(42), &[1], 0);
    assert_eq!(handler.next_pnp_request(true), Some(42));
    handler.state.on_pnp_request_sent(42, 10);
    handler.check_pnp_timeout(10 + PNP_GET_INFO_TIMEOUT);
    assert!(handler.state.pnp_pending_get_info.is_some());
    handler.check_pnp_timeout(11 + PNP_GET_INFO_TIMEOUT);
    assert!(handler.state.pnp_pending_get_info.is_none());
    handler.handle_message(HEARTBEAT_SUBJECT, Some(42), &[1], 20);
    assert_eq!(handler.next_pnp_request(true), Some(42));
}

#[test]
fn test_udp_response_answers_command_and_allocator() {
    let mut handler = udp_with_allocator();
    let (order, _answers) = order(42);
    handler.state.on_request_sent(order, 0);
    handler.state.on_pnp_request_sent(42, 0);
    let payload = response("both", [3; 16]);
    let outcome = handler.handle_response(GET_INFO_SERVICE, 42, &payload, 5);
    let info = outcome.answer.unwrap().result.unwrap();
    assert_eq!((info.node_id, info.name.as_str()), (42, "both"));
    assert!(handler.state.pending_get_info.is_none());
    assert!(handler.state.pnp_pending_get_info.is_none());
    assert_eq!(handler.state.get_info_responses_received, 2);
    // A second response has nothing left to answer.
    let outcome = handler.handle_response(GET_INFO_SERVICE, 42, &payload, 6);
    assert!(!outcome.handled && outcome.answer.is_none());
    assert_eq!(handler.state.get_info_responses_received, 2);
}

// ─── the loop ────────────────────────────────────────────────────────────────

#[test]
fn test_spans_of_time() {
    assert_eq!(after(5, 7), 12);
    assert_eq!(after(u128::MAX - 1, 7), u128::MAX);
    assert!(elapsed_at_least(5, 5 + SECOND, SECOND));
    assert!(!elapsed_at_least(5, 4 + SECOND, SECOND));
    assert!(!elapsed_at_least(5, 4, SECOND));
    assert!(elapsed_at_least(5, 4, 0));
}

#[test]
fn test_loop_stops_on_shutdown() {
    assert!(matches!(on_shutdown_checked(true), WorkerAction::Stop));
    assert!(matches!(on_shutdown_checked(false), WorkerAction::NextCommand));
}

#[test]
fn test_plain_loop() {
    let mut handler = SerialHandler::new(1, 0);
    let (command, answers) = get_info(42);
    let step = handler.on_command(command, true, 5);
    assert!(step.deliver.is_none());
    let order = match step.next {
        WorkerAction::SendGetInfo(order) => order,
        _ => panic!("a request must be sent"),
    };
    let step = handler.on_request_settled(order, None, 10);
    assert!(step.deliver.is_none() && matches!(step.next, WorkerAction::NextCommand));
    assert_eq!(
        handler.state.pending_get_info.as_ref().unwrap().deadline,
        10 + GET_INFO_TIMEOUT
    );

    let step = handler.on_commands_done(10 + GET_INFO_TIMEOUT);
    assert!(step.deliver.is_none() && matches!(step.next, WorkerAction::Receive));
    let step = handler.on_commands_done(11 + GET_INFO_TIMEOUT);
    assert!(step.deliver.unwrap().perform().is_none());
    assert_eq!(
        error_of(answers.try_recv().unwrap()),
        "GetInfo request timed out"
    );

    let (command, answers) = get_info(43);
    let step = handler.on_command(command, false, 20);
    assert!(matches!(step.next, WorkerAction::NextCommand));
    step.deliver.unwrap().perform();
    assert_eq!(
        error_of(answers.try_recv().unwrap()),
        "GetInfo requester not available"
    );

    assert!(matches!(handler.on_received(SECOND - 1), WorkerAction::Continue));
    assert!(matches!(
        handler.on_received(SECOND),
        WorkerAction::RunPerSecondTasks
    ));
    assert!(matches!(
        handler.on_received(2 * SECOND - 1),
        WorkerAction::Continue
    ));
}

#[test]
fn test_plain_loop_reports_send_failures() {
    let mut handler = GsUsbHandler::new(1, 0);
    let (order, answers) = order(42);
    let step = handler.on_request_settled(order, Some("Full".to_string()), 10);
    step.deliver.unwrap().perform();
    assert_eq!(
        error_of(answers.try_recv().unwrap()),
        "Failed to send GetInfo request: Full"
    );
    assert!(handler.state.pending_get_info.is_none());
    let (reply, nodes) = sync_channel(1);
    let step = handler.on_command(TransportCommand::ListNodes { reply }, true, 0);
    assert!(step.deliver.unwrap().perform().is_none());
    assert!(nodes.try_recv().unwrap().is_empty());
}

#[test]
fn test_udp_loop() {
    let mut handler = udp_with_allocator();
    handler.handle_message(HEARTBEAT_SUBJECT, Some(42), &[1], 0);
    let step = handler.on_commands_done(true, 1);
    assert!(step.deliver.is_none());
    assert!(matches!(step.next, WorkerAction::SendPnpGetInfo(42)));
    let next = handler.on_pnp_request_settled(42, true, 2);
    assert!(matches!(next, WorkerAction::Receive));
    handler.handle_message(HEARTBEAT_SUBJECT, Some(43), &[1], 3);
    // One request at a time.
    let step = handler.on_commands_done(true, 4);
    assert!(matches!(step.next, WorkerAction::Receive));
    // The timeout is found in one round, and the next node is asked in the next.
    let late = 3 + PNP_GET_INFO_TIMEOUT;
    let step = handler.on_commands_done(true, late);
    assert!(matches!(step.next, WorkerAction::Receive));
    assert!(handler.state.pnp_pending_get_info.is_none());
    let step = handler.on_commands_done(true, late + 1);
    assert!(matches!(step.next, WorkerAction::SendPnpGetInfo(43)));
    handler.on_pnp_request_settled(43, false, late + 2);
    assert!(handler.state.pnp_pending_get_info.is_none());

    let next = handler.on_received(Some("Bad".to_string()), SECOND);
    assert!(matches!(next, WorkerAction::RunPerSecondTasks));
    assert_eq!(handler.state.observed_nodes[&100].uptime, 1);
    assert_eq!(
        handler.state.last_error,
        Some("Receive error: Bad".to_string())
    );
    let next = handler.on_received(None, SECOND + 1);
    assert!(matches!(next, WorkerAction::Continue));
    assert_eq!(handler.state.observed_nodes[&100].uptime, 1);
}

#[test]
fn test_udp_loop_settles_requests() {
    let mut handler = UdpHandler::new(100, None, 0);
    let (command, answers) = get_info(7);
    let order = match handler.on_command(command, true, 0).next {
        WorkerAction::SendGetInfo(order) => order,
        _ => panic!("a request must be sent"),
    };
    let step = handler.on_request_settled(order, Some("Full".to_string()), 0);
    step.deliver.unwrap().perform();
    assert_eq!(
        error_of(answers.try_recv().unwrap()),
        "Failed to send GetInfo request: Full"
    );
    assert_eq!(
        handler.state.last_error,
        Some("GetInfo request send failed: Full".to_string())
    );
    let (command, _answers) = get_info(7);
    let order = handler.handle_command(command, true, 0).perform().unwrap();
    let step = handler.on_request_settled(order, None, 0);
    assert!(step.deliver.is_none());
    assert_eq!(handler.state.get_info_requests_sent, 1);
}

// ─── node info ───────────────────────────────────────────────────────────────

#[test]
fn test_node_info() {
    let info = node_info_with("udp-ä", [9; 16]);
    assert_eq!(info.name_to_vec(), "org.cyphal_service.udp-ä".as_bytes());
    assert_eq!(info.unique_id, [9; 16]);
    assert_eq!(info.protocol_version, (1, 0));
    assert_eq!(info.hardware_version, (0, 0));
    assert_eq!(info.software_version, (0, 1));
    assert_eq!(info.software_vcs_revision_id, 0);
    let long = "x".repeat(60);
    let name = make_node_info(&long).name_to_vec();
    assert_eq!(name, format!("org.cyphal_service.{}", "x".repeat(31)).as_bytes());
    // Two nodes hardly ever draw the same unique ID.
    assert_ne!(make_node_info("a").unique_id, make_node_info("a").unique_id);
}
