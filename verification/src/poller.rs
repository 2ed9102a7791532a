//! When to poll the daemon next, and which batteries to read.

use vstd::prelude::*;
use crate::snapshot::{texts, BatteryCache};

verus! {

/// How often every watched battery is read, in milliseconds.
pub const BATTERY_INTERVAL_MS: u64 = 30_000;

/// The seconds between polls while the daemon is down.
pub const DOWN_POLL_SECONDS: u64 = 5;

/// The seconds between polls while no action is on the device.
pub const IDLE_POLL_SECONDS: u64 = 15;

/// The seconds until the next poll: five while the daemon is down, the
/// configured interval (at least one) while actions are shown, fifteen
/// otherwise.
pub fn next_delay(daemon_up: bool, has_instances: bool, poll_seconds: u64) -> (secs: u64)
    ensures
        !daemon_up ==> secs == DOWN_POLL_SECONDS,
        daemon_up && has_instances ==> secs == if poll_seconds >= 1 { poll_seconds } else { 1 },
        daemon_up && !has_instances ==> secs == IDLE_POLL_SECONDS,
{
    if !daemon_up {
        return DOWN_POLL_SECONDS;
    }
    if has_instances {
        return if poll_seconds >= 1 { poll_seconds } else { 1 };
    }
    IDLE_POLL_SECONDS
}

/// Whether every battery is due for a read: never read, or last read at
/// least `BATTERY_INTERVAL_MS` ago.
pub fn battery_due(last_read_ms: Option<u64>, now_ms: u64) -> (due: bool)
    ensures
        due == match last_read_ms {
            Some(at) => now_ms >= at && now_ms - at >= BATTERY_INTERVAL_MS,
            None => true,
        },
{
    match last_read_ms {
        Some(at) => now_ms >= at && now_ms - at >= BATTERY_INTERVAL_MS,
        None => true,
    }
}

/// The watched ids whose battery is not known yet.
pub open spec fn missing_batteries(ids: Seq<Seq<char>>, known: Map<Seq<char>, Option<crate::client::Battery>>) -> Seq<Seq<char>> {
    ids.filter(|x: Seq<char>| !known.dom().contains(x))
}

/// Which batteries to read: none where no battery is watched; every
/// watched one where they are due; otherwise those not known yet, or none.
pub fn battery_refresh_plan(ids: &Vec<String>, known: &BatteryCache, due: bool) -> (wanted: Option<Vec<String>>)
    ensures
        ids@.len() == 0 ==> wanted is None,
        ids@.len() > 0 && due ==> wanted is Some && texts(wanted->0@) == texts(ids@),
        ids@.len() > 0 && !due ==> if missing_batteries(texts(ids@), known@).len() == 0 {
            wanted is None
        } else {
            wanted is Some && texts(wanted->0@) == missing_batteries(texts(ids@), known@)
        },
{
    if ids.len() == 0 {
        return None;
    }
    let ghost pred = |x: Seq<char>| !known@.dom().contains(x);
    let mut missing: Vec<String> = Vec::new();
    for i in 0..ids.len()
        invariant
            pred == (|x: Seq<char>| !known@.dom().contains(x)),
            texts(missing@) == texts(ids@).take(i as int).filter(pred),
    {
        proof {
            reveal_with_fuel(Seq::<_>::filter, 1);
            assert(texts(ids@).take(i + 1).drop_last() == texts(ids@).take(i as int));
        }
        if !known.contains_key(ids[i].as_str()) {
            let ghost before = missing@;
            missing.push(ids[i].clone());
            assert(texts(missing@) =~= texts(before).push(ids@[i as int]@));
        }
    }
    assert(texts(ids@).take(ids@.len() as int) == texts(ids@));
    if due {
        return Some(crate::client::clone_strings(ids));
    }
    if missing.len() == 0 {
        return None;
    }
    Some(missing)
}

} // verus!
