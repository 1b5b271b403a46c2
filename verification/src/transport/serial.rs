//! Cyphal/Serial transport.

use vstd::prelude::*;

use crate::text;
use crate::transport::handler::{
    self, CommandAction, GetInfoOrder, ResponseOutcome, Step, WorkerAction,
};
use crate::transport::messages;
use crate::transport::state::{self, GetInfoAnswer, WorkerState};
use crate::transport::TransportCommand;

verus! {

/// `SerialNodeId::try_from` accepts every 16-bit node ID but the highest.
#[verifier::external_body]
pub(crate) fn serial_node_id_accepts(node_id: u16) -> (accepted: bool)
    ensures
        accepted == (node_id != 0xFFFF),
{
    canadensis_serial::SerialNodeId::try_from(node_id).is_ok()
}

/// Whether a serial transport can have the node ID.
pub fn is_node_id(node_id: u16) -> (valid: bool)
    ensures
        valid == (node_id != 0xFFFF),
{
    serial_node_id_accepts(node_id)
}

/// Why a serial worker refuses a command, if it does.
pub open spec fn refusal_of(cmd: TransportCommand) -> Option<Seq<char>> {
    match cmd {
        TransportCommand::GetInfo { node_id, .. } if node_id == 0xFFFF => Some(
            "Invalid Serial node ID: "@ + text::decimal(node_id as nat),
        ),
        _ => None,
    }
}

/// What a serial worker does with commands and transfers.
pub struct SerialHandler {
    pub state: WorkerState,
    pub local_node_id: u16,
    /// When the per-second tasks were run last.
    pub last_second: u128,
}

impl SerialHandler {
    /// The handler of a worker that starts at time `now`.
    pub fn new(local_node_id: u16, now: u128) -> (handler: Self)
        ensures
            handler.local_node_id == local_node_id,
            handler.last_second == now,
            state::is_new(handler.state),
    {
        SerialHandler { state: WorkerState::default(), local_node_id, last_second: now }
    }

    /// What to do about a command at time `now`.
    pub fn on_command(&self, cmd: TransportCommand, has_requester: bool, now: u128) -> (step: Step)
        ensures
            exists|action: CommandAction| #[trigger]
                handler::plain_action(
                    self.state,
                    cmd,
                    self.local_node_id,
                    refusal_of(cmd),
                    has_requester,
                    now,
                    action,
                ) && handler::follows(action, step),
    {
        let action = self.handle_command(cmd, has_requester, now);
        assert(handler::plain_action(
            self.state,
            cmd,
            self.local_node_id,
            refusal_of(cmd),
            has_requester,
            now,
            action,
        ));
        handler::step_for(action)
    }

    /// What to do once there are no more commands at time `now`.
    pub fn on_commands_done(&mut self, now: u128) -> (step: Step)
        ensures
            final(self).local_node_id == old(self).local_node_id,
            final(self).last_second == old(self).last_second,
            step.next is Receive,
            exists|answer: Option<GetInfoAnswer>| #[trigger]
                state::times_out(old(self).state, final(self).state, now, answer)
                    && handler::delivers(answer, step.deliver),
    {
        handler::plain_commands_done(&mut self.state, now)
    }

    /// What to do once a GetInfo request has been sent, or could not be.
    pub fn on_request_settled(&mut self, order: GetInfoOrder, error: Option<String>, now: u128) -> (
        step: Step)
        ensures
            final(self).local_node_id == old(self).local_node_id,
            final(self).last_second == old(self).last_second,
            handler::request_settled(
                old(self).state,
                final(self).state,
                order,
                match error {
                    Some(e) => Some(e@),
                    None => None,
                },
                now,
                step,
            ),
    {
        handler::plain_request_settled(&mut self.state, order, error, now)
    }

    /// What to do once transfers have been received at time `now`.
    pub fn on_received(&mut self, now: u128) -> (next: WorkerAction)
        ensures
            final(self).local_node_id == old(self).local_node_id,
            final(self).state == old(self).state,
            if handler::is_second_due(old(self).last_second, now) {
                final(self).last_second == now && next is RunPerSecondTasks
            } else {
                final(self).last_second == old(self).last_second && next is Continue
            },
    {
        handler::after_receiving(&mut self.last_second, now)
    }

    /// Decide what to do about a command at time `now`.
    pub fn handle_command(&self, cmd: TransportCommand, has_requester: bool, now: u128) -> (action:
        CommandAction)
        ensures
            handler::plain_action(
                self.state,
                cmd,
                self.local_node_id,
                refusal_of(cmd),
                has_requester,
                now,
                action,
            ),
    {
        let refusal: Option<String> = match &cmd {
            TransportCommand::GetInfo { node_id, .. } => if serial_node_id_accepts(*node_id) {
                None
            } else {
                Some(handler::number_text("Invalid Serial node ID: ", *node_id))
            },
            _ => None,
        };
        handler::plain_command(
            &self.state,
            cmd,
            self.local_node_id,
            refusal,
            has_requester,
            now,
        )
    }

    /// Process a message at time `now`.
    pub fn handle_message(
        &mut self,
        subject: u16,
        source: Option<u16>,
        payload: &[u8],
        now: u128,
    ) -> (handled: bool)
        ensures
            handled == (subject == messages::HEARTBEAT_SUBJECT),
            final(self).local_node_id == old(self).local_node_id,
            final(self).last_second == old(self).last_second,
            if handled {
                state::after_heartbeat(
                    old(self).state,
                    final(self).state,
                    handler::heard_node(source, payload@),
                    now,
                )
            } else {
                final(self).state == old(self).state
            },
    {
        handler::plain_message(&mut self.state, subject, source, payload, now)
    }

    /// Process a response.
    pub fn handle_response(&mut self, service: u16, payload: &[u8]) -> (outcome: ResponseOutcome)
        ensures
            final(self).local_node_id == old(self).local_node_id,
            final(self).last_second == old(self).last_second,
            handler::plain_answered(
                old(self).state,
                final(self).state,
                service,
                payload@,
                outcome,
            ),
    {
        handler::plain_response(&mut self.state, service, payload)
    }
}

} // verus!
