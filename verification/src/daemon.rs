//! What is known of the keylightd daemon, and the decisions taken while
//! making sure it runs.

use vstd::prelude::*;
use vstd::string::*;
use crate::text::same_text;

verus! {

/// The daemon version this plugin ships with.
pub const BUNDLED_VERSION: &'static str = "0.2.0";

/// How many times the plugin probes a daemon it has just started.
pub const START_PROBES: u8 = 8;

/// The pause before each of those probes, in milliseconds.
pub const START_PROBE_INTERVAL_MS: u64 = 250;

/// The daemon's state as last observed.
#[derive(Debug, PartialEq)]
pub enum DaemonStatus {
    Unknown,
    /// Running, with this version.
    Up(String),
    Starting,
    /// Not running, for this reason.
    Down(String),
}

impl Clone for DaemonStatus {
    fn clone(&self) -> (r: Self)
        ensures
            r == *self,
    {
        match self {
            DaemonStatus::Unknown => DaemonStatus::Unknown,
            DaemonStatus::Up(v) => DaemonStatus::Up(v.clone()),
            DaemonStatus::Starting => DaemonStatus::Starting,
            DaemonStatus::Down(r) => DaemonStatus::Down(r.clone()),
        }
    }
}

/// Whether two statuses are the same: the same variant with the same text.
pub open spec fn same_status(a: DaemonStatus, b: DaemonStatus) -> bool {
    match (a, b) {
        (DaemonStatus::Unknown, DaemonStatus::Unknown) => true,
        (DaemonStatus::Up(x), DaemonStatus::Up(y)) => x@ == y@,
        (DaemonStatus::Starting, DaemonStatus::Starting) => true,
        (DaemonStatus::Down(x), DaemonStatus::Down(y)) => x@ == y@,
        _ => false,
    }
}

/// Whether two statuses are the same.
pub fn status_eq(a: &DaemonStatus, b: &DaemonStatus) -> (r: bool)
    ensures
        r == same_status(*a, *b),
{
    match (a, b) {
        (DaemonStatus::Unknown, DaemonStatus::Unknown) => true,
        (DaemonStatus::Up(x), DaemonStatus::Up(y)) => same_text(x.as_str(), y.as_str()),
        (DaemonStatus::Starting, DaemonStatus::Starting) => true,
        (DaemonStatus::Down(x), DaemonStatus::Down(y)) => same_text(x.as_str(), y.as_str()),
        _ => false,
    }
}

/// The daemon's observed status, and whether the plugin has already tried
/// to start it since it was last allowed to.
#[derive(Debug)]
pub struct DaemonState {
    pub status: DaemonStatus,
    pub start_attempted: bool,
}

impl DaemonState {
    /// Nothing observed yet, and no start tried.
    pub fn new() -> (s: DaemonState)
        ensures
            s.status == DaemonStatus::Unknown,
            !s.start_attempted,
    {
        DaemonState { status: DaemonStatus::Unknown, start_attempted: false }
    }
}

/// The daemon's status.
pub fn status(state: &DaemonState) -> (s: DaemonStatus)
    ensures
        s == state.status,
{
    state.status.clone()
}

/// Whether the daemon is up.
pub fn is_up(state: &DaemonState) -> (r: bool)
    ensures
        r == state.status is Up,
{
    match &state.status {
        DaemonStatus::Up(_) => true,
        _ => false,
    }
}

/// The running daemon's version, or empty text where it is not up.
pub fn version(state: &DaemonState) -> (v: String)
    ensures
        v@ == match state.status {
            DaemonStatus::Up(v) => v@,
            _ => Seq::<char>::empty(),
        },
{
    match &state.status {
        DaemonStatus::Up(v) => v.clone(),
        _ => String::new(),
    }
}

/// Records a new status; tells whether it differs from the one before.
pub fn set_status(state: &mut DaemonState, new_status: DaemonStatus) -> (changed: bool)
    ensures
        changed == !same_status(old(state).status, new_status),
        changed ==> final(state).status == new_status,
        !changed ==> final(state).status == old(state).status,
        final(state).start_attempted == old(state).start_attempted,
{
    if status_eq(&state.status, &new_status) {
        return false;
    }
    state.status = new_status;
    true
}

/// Records that the daemon is down, for `reason`; tells whether that is news.
pub fn mark_down(state: &mut DaemonState, reason: String) -> (changed: bool)
    ensures
        changed == !same_status(old(state).status, DaemonStatus::Down(reason)),
        final(state).status is Down,
        same_status(final(state).status, DaemonStatus::Down(reason)),
        final(state).start_attempted == old(state).start_attempted,
{
    let ghost r = reason;
    set_status(state, DaemonStatus::Down(reason))
}

/// Lets the plugin try to start the daemon again.
pub fn allow_start_again(state: &mut DaemonState)
    ensures
        final(state).status == old(state).status,
        !final(state).start_attempted,
{
    state.start_attempted = false;
}

/// What to do next while making sure the daemon runs.
#[derive(Clone, Copy, Debug, PartialEq, Eq, Structural)]
pub enum StartupStep {
    /// Nothing more; the status says how it ended.
    Finished,
    /// Start the bundled daemon, then report how that went.
    Spawn,
    /// Wait `START_PROBE_INTERVAL_MS`, probe again, and report the probe as
    /// this attempt (counting from 1).
    ProbeAgain(u8),
}

/// Takes in the first probe of the daemon (its version where it answered).
/// Where it answered, it is up and may be started again later. Otherwise
/// it is started where the settings allow it and no start has been tried
/// yet (the try is recorded); else it is down.
pub fn after_first_probe(state: &mut DaemonState, probe: Option<String>, start_daemon: bool) -> (step: StartupStep)
    ensures
        match probe {
            Some(v) => step == StartupStep::Finished && same_status(final(state).status, DaemonStatus::Up(v))
                && !final(state).start_attempted,
            None => {
                &&& final(state).start_attempted == (old(state).start_attempted || start_daemon)
                &&& if start_daemon && !old(state).start_attempted {
                    step == StartupStep::Spawn && final(state).status == DaemonStatus::Starting
                } else {
                    step == StartupStep::Finished && final(state).status is Down
                        && final(state).status->Down_0@ == "keylightd is not reachable"@
                }
            },
        },
{
    match probe {
        Some(v) => {
            allow_start_again(state);
            set_status(state, DaemonStatus::Up(v));
            StartupStep::Finished
        },
        None => {
            let may_start = start_daemon && !state.start_attempted;
            if start_daemon {
                state.start_attempted = true;
            }
            if !may_start {
                let reason = String::from_str("keylightd is not reachable");
                set_status(state, DaemonStatus::Down(reason));
                return StartupStep::Finished;
            }
            set_status(state, DaemonStatus::Starting);
            StartupStep::Spawn
        },
    }
}

/// Takes in how starting the daemon went: on failure it is down with the
/// error, else it is probed (first attempt).
pub fn after_spawn(state: &mut DaemonState, spawned: Result<(), String>) -> (step: StartupStep)
    ensures
        final(state).start_attempted == old(state).start_attempted,
        match spawned {
            Ok(_) => step == StartupStep::ProbeAgain(1) && final(state).status == old(state).status,
            Err(why) => step == StartupStep::Finished && final(state).status is Down
                && final(state).status->Down_0@ == "could not start keylightd: "@ + why@,
        },
{
    match spawned {
        Ok(_) => StartupStep::ProbeAgain(1),
        Err(why) => {
            let mut reason = String::from_str("could not start keylightd: ");
            reason.append(why.as_str());
            set_status(state, DaemonStatus::Down(reason));
            StartupStep::Finished
        },
    }
}

/// Takes in a probe of a daemon just started: where it answered it is up;
/// otherwise it is probed again, up to `START_PROBES` attempts, after which
/// it is down.
pub fn after_retry(state: &mut DaemonState, attempt: u8, probe: Option<String>) -> (step: StartupStep)
    ensures
        final(state).start_attempted == old(state).start_attempted,
        match probe {
            Some(v) => step == StartupStep::Finished && same_status(final(state).status, DaemonStatus::Up(v)),
            None => if attempt < START_PROBES {
                step == StartupStep::ProbeAgain((attempt + 1) as u8) && final(state).status == old(state).status
            } else {
                step == StartupStep::Finished && final(state).status is Down
                    && final(state).status->Down_0@ == "keylightd did not start"@
            },
        },
{
    match probe {
        Some(v) => {
            set_status(state, DaemonStatus::Up(v));
            StartupStep::Finished
        },
        None => {
            if attempt < START_PROBES {
                StartupStep::ProbeAgain(attempt + 1)
            } else {
                let reason = String::from_str("keylightd did not start");
                set_status(state, DaemonStatus::Down(reason));
                StartupStep::Finished
            }
        },
    }
}


/// A status is the same as itself, so recording the status just recorded
/// is no change.
pub proof fn lemma_same_status_reflexive(s: DaemonStatus)
    ensures
        same_status(s, s),
{
}

} // verus!
