//! The gateway's routing decisions: command interception, session-key
//! resolution inputs and outbound composition. The driver performs the
//! channel I/O and the agent calls.

use vstd::prelude::*;

use crate::text::{chars_eq, str_chars};

verus! {

/// A file queued for sending as media.
#[derive(Debug, Clone)]
pub struct Attachment {
    pub path: String,
    pub mime_type: String,
}

/// An inbound message from any channel.
pub struct InboundMessage {
    pub channel: String,
    pub sender_id: String,
    pub text: String,
    pub is_group: bool,
    pub group_id: Option<String>,
    pub display_name: Option<String>,
    /// The chat to reply to; in groups it differs from the sender.
    pub reply_to: String,
}

/// An outbound message to send back through a channel.
pub struct OutboundMessage {
    pub channel: String,
    pub recipient_id: String,
    pub text: String,
    pub attachments: Vec<Attachment>,
}

/// The channel and chat the current message arrived from.
#[derive(Debug, Clone)]
pub struct ChannelContext {
    pub channel: String,
    pub recipient_id: String,
}

/// What the gateway does with a trimmed inbound text.
#[derive(Clone, Copy, Debug, PartialEq, Eq, Structural)]
pub enum GatewayPlan {
    /// A reset command: reset the session, reply with the confirmation, and
    /// do not invoke the agent.
    ResetCommand,
    /// An ordinary message: check the reset policy, then run a turn.
    RunTurn,
}

/// True for the texts that reset the session instead of running a turn.
pub open spec fn is_reset_command(t: Seq<char>) -> bool {
    t == "/new"@ || t == "/reset"@
}

/// Decide what to do with a trimmed inbound text.
pub fn plan_message(trimmed: &str) -> (r: GatewayPlan)
    ensures
        r == GatewayPlan::ResetCommand <==> is_reset_command(trimmed@),
{
    let t = str_chars(trimmed);
    let a = str_chars("/new");
    let b = str_chars("/reset");
    if chars_eq(&t, &a) || chars_eq(&t, &b) {
        GatewayPlan::ResetCommand
    } else {
        GatewayPlan::RunTurn
    }
}

/// The canned confirmation for a reset command.
pub fn reset_confirmation() -> (r: String)
    ensures
        r@ == "Session reset. Starting fresh."@,
{
    "Session reset. Starting fresh.".to_owned()
}

/// The peer id used for sessions created through the HTTP channel.
pub fn http_peer(sender_id: Option<&str>) -> (r: String)
    ensures
        match sender_id {
            Some(s) => r@ == s@,
            None => r@ == "http-default"@,
        },
{
    match sender_id {
        Some(s) => s.to_owned(),
        None => "http-default".to_owned(),
    }
}

/// Compose the outbound reply: the agent's text plus the attachments the
/// tools queued during the turn.
pub fn compose_outbound(
    channel: String,
    recipient_id: String,
    text: String,
    attachments: Vec<Attachment>,
) -> (r: OutboundMessage)
    ensures
        r.channel == channel,
        r.recipient_id == recipient_id,
        r.text == text,
        r.attachments == attachments,
{
    OutboundMessage { channel, recipient_id, text, attachments }
}

} // verus!
