//! The decisions the keys and dials take that need no fractional settings.

use vstd::prelude::*;
use vstd::string::*;
use crate::client::UpdateRequest;
use crate::settings::{configured, Settings};
use crate::snapshot::{aggregate_result, Aggregate, Snapshot};
use crate::text::same_text;

verus! {

/// The aggregate an action may act on: where the daemon is up, the target
/// is set up, the snapshot holds it and it is reachable. `None` otherwise,
/// where the key shows an alert.
pub fn ready_target(daemon_up: bool, settings: &Settings, snapshot: &Snapshot) -> (r: Option<Aggregate>)
    requires
        snapshot.lights@.len() <= u32::MAX,
    ensures
        match r {
            Some(a) => daemon_up && configured(settings.target.kind@, settings.target.id@)
                && aggregate_result(snapshot, &settings.target, a) && a.reachable,
            None => !daemon_up || !configured(settings.target.kind@, settings.target.id@)
                || forall|a: Aggregate| aggregate_result(snapshot, &settings.target, a) ==> !a.reachable,
        },
{
    if !(daemon_up && settings.target.is_configured()) {
        return None;
    }
    match snapshot.aggregate(&settings.target) {
        Some(a) => if a.reachable {
            Some(a)
        } else {
            proof {
                crate::snapshot::lemma_aggregate_determined(snapshot, &settings.target);
            }
            None
        },
        None => None,
    }
}

/// The request that switches the target on where none of its lights is
/// on, and off otherwise.
pub fn toggle_patch(agg: &Aggregate) -> (p: UpdateRequest)
    ensures
        p == (UpdateRequest { on: Some(if agg.any_on { 0u8 } else { 1u8 }), ..UpdateRequest::nothing() }),
{
    let on: u8 = if agg.any_on { 0 } else { 1 };
    UpdateRequest { on: Some(on), brightness: None, kelvin: None, hue: None, saturation: None }
}

/// The request of the power key: on for mode "on", off for "off",
/// otherwise the opposite of whether any light is on.
pub fn power_patch(mode: &str, agg: &Aggregate) -> (p: UpdateRequest)
    ensures
        p == (UpdateRequest {
            on: Some(if mode@ == "on"@ { 1u8 } else if mode@ == "off"@ { 0u8 } else if agg.any_on { 0u8 } else { 1u8 }),
            ..UpdateRequest::nothing()
        }),
{
    let desired = if same_text(mode, "on") {
        true
    } else if same_text(mode, "off") {
        false
    } else {
        !agg.any_on
    };
    let on: u8 = if desired { 1 } else { 0 };
    UpdateRequest { on: Some(on), brightness: None, kelvin: None, hue: None, saturation: None }
}

/// Whether the identify key can act on its target: only a single light
/// can blink.
pub fn can_identify(settings: &Settings) -> (r: bool)
    ensures
        r == (settings.target.kind@ == "light"@),
{
    same_text(settings.target.kind.as_str(), "light")
}

} // verus!
