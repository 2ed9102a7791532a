//! What the property inspector asks of the plugin.

use vstd::prelude::*;
use vstd::string::*;
use crate::text::same_text;

verus! {

/// A request from the property inspector.
#[derive(Debug, PartialEq)]
pub enum BridgeRequest {
    /// Send it the lights, groups and daemon status.
    SendTargets,
    /// Allow and try a daemon start, poll, then send the targets.
    StartDaemon,
    /// Make this light blink.
    Identify(String),
    /// Nothing to do.
    Ignore,
}

/// What a message from the property inspector asks for, given its `event`
/// field, its `id` field, and the id of the action's target: the light to
/// identify is the message's, else the target's, and none where that is
/// empty.
pub fn bridge_request(event: Option<&str>, payload_id: Option<&str>, target_id: &str) -> (r: BridgeRequest)
    ensures
        match event {
            Some(e) => if e@ == "getTargets"@ {
                r == BridgeRequest::SendTargets
            } else if e@ == "startDaemon"@ {
                r == BridgeRequest::StartDaemon
            } else if e@ == "identify"@ {
                let id = match payload_id { Some(p) => p@, None => target_id@ };
                if id.len() > 0 { r is Identify && r->Identify_0@ == id } else { r == BridgeRequest::Ignore }
            } else {
                r == BridgeRequest::Ignore
            },
            None => r == BridgeRequest::Ignore,
        },
{
    match event {
        Some(e) => {
            if same_text(e, "getTargets") {
                BridgeRequest::SendTargets
            } else if same_text(e, "startDaemon") {
                BridgeRequest::StartDaemon
            } else if same_text(e, "identify") {
                let id = match payload_id {
                    Some(p) => p,
                    None => target_id,
                };
                if id.is_empty() {
                    BridgeRequest::Ignore
                } else {
                    BridgeRequest::Identify(id.to_owned())
                }
            } else {
                BridgeRequest::Ignore
            }
        },
        None => BridgeRequest::Ignore,
    }
}

} // verus!
