//! The answers to messages of WebSocket clients.

use vstd::prelude::*;
use crate::text::{str_eq, views};

verus! {

/// The answer to a client message.
#[derive(Debug)]
pub enum ClientReply {
    /// Answer `{"type": "pong"}`.
    Pong,
    /// Answer `{"type": "subscribed", "channels": ...}` with these channels.
    Subscribed { channels: Option<Vec<String>> },
    /// An action the service does not know: no answer.
    Unknown,
}

/// The answer to a message with `action` and `channels`: "ping" is answered
/// with a pong, "subscribe" with the channels, anything else not at all.
pub fn client_reply(action: &str, channels: Option<Vec<String>>) -> (r: ClientReply)
    ensures
        action@ == "ping"@ ==> r is Pong,
        action@ == "subscribe"@ ==> (r matches ClientReply::Subscribed { channels: c } && c == channels),
        action@ != "ping"@ && action@ != "subscribe"@ ==> r is Unknown,
{
    proof {
        reveal_strlit("ping");
        reveal_strlit("subscribe");
        assert("ping"@.len() != "subscribe"@.len());
    }
    if str_eq(action, "ping") {
        ClientReply::Pong
    } else if str_eq(action, "subscribe") {
        ClientReply::Subscribed { channels }
    } else {
        ClientReply::Unknown
    }
}

} // verus!
