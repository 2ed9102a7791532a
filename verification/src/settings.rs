//! What an action is aimed at, its settings, and the plugin-wide settings.

use vstd::prelude::*;
use vstd::string::*;
use crate::text::{parse_unsigned, parse_unsigned_seq, same_text, trim, trim_seq};

verus! {

/// The daemon port used when neither the settings nor the environment name one.
pub const DEFAULT_PORT: u16 = 9124;

/// The seconds between polls used when the settings give none.
pub const DEFAULT_POLL_SECONDS: u64 = 3;

/// What an action controls: one light (`kind` "light", `id` its id), one
/// group (`kind` "group", `id` its name), or every light (`kind` "all").
#[derive(Debug, PartialEq)]
pub struct Target {
    pub kind: String,
    pub id: String,
}

/// Whether a target of this kind and id names something that can be acted on.
pub open spec fn configured(kind: Seq<char>, id: Seq<char>) -> bool {
    ||| kind == "all"@
    ||| (kind == "light"@ || kind == "group"@) && id.len() > 0
}

/// Which targets are set up: "all" always; a light or a group once it
/// names one; no other kind.
pub proof fn lemma_configured_targets(kind: Seq<char>, id: Seq<char>)
    ensures
        configured("all"@, id),
        configured("light"@, id) <==> id.len() > 0,
        configured("group"@, id) <==> id.len() > 0,
        kind != "all"@ && kind != "light"@ && kind != "group"@ ==> !configured(kind, id),
{
    lemma_kind_names_differ();
}

/// The three kinds of target are told apart by their names.
pub proof fn lemma_kind_names_differ()
    ensures
        "light"@ != "group"@,
        "light"@ != "all"@,
        "group"@ != "all"@,
{
    reveal_strlit("light");
    reveal_strlit("group");
    reveal_strlit("all");
    assert("light"@[0] != "group"@[0]);
    assert("light"@[0] != "all"@[0]);
    assert("group"@[0] != "all"@[0]);
}

/// The text that identifies a target: its kind, a colon, its id.
pub open spec fn key_seq(kind: Seq<char>, id: Seq<char>) -> Seq<char> {
    kind + seq![':'] + id
}

impl Clone for Target {
    fn clone(&self) -> (r: Self)
        ensures
            r == *self,
    {
        Target { kind: self.kind.clone(), id: self.id.clone() }
    }
}

impl Target {
    /// A target of the given kind and id.
    pub fn new(kind: &str, id: &str) -> (t: Target)
        ensures
            t.kind@ == kind@,
            t.id@ == id@,
    {
        Target { kind: kind.to_owned(), id: id.to_owned() }
    }

    /// Whether the target names something that can be acted on: "all", or a
    /// light or group with a non-empty id.
    pub fn is_configured(&self) -> (r: bool)
        ensures
            r == configured(self.kind@, self.id@),
    {
        if same_text(self.kind.as_str(), "all") {
            true
        } else if same_text(self.kind.as_str(), "light") || same_text(self.kind.as_str(), "group") {
            !self.id.as_str().is_empty()
        } else {
            false
        }
    }

    /// The text that identifies the target: `kind:id`.
    pub fn key(&self) -> (k: String)
        ensures
            k@ == key_seq(self.kind@, self.id@),
    {
        let mut k = self.kind.clone();
        k.append(":");
        proof {
            reveal_strlit(":");
        }
        k.append(self.id.as_str());
        k
    }
}

/// The settings of one action instance. The fractional settings are held as
/// the bit pattern of their `f64` value (`f64::to_bits`), since nothing in
/// this library computes with them.
#[derive(Debug, PartialEq)]
pub struct Settings {
    pub v: u8,
    pub target: Target,
    pub mode: String,
    pub value: Option<u64>,
    pub turn_on: Option<bool>,
    pub step: Option<u64>,
    pub kelvin: Option<u64>,
    pub hue: Option<u64>,
    pub saturation: Option<u64>,
    pub brightness: Option<u64>,
    pub use_color: Option<bool>,
    pub label: String,
    pub on: Option<bool>,
    pub step_per_tick: Option<u64>,
    pub tap_preset: Option<u64>,
}

impl Clone for Settings {
    fn clone(&self) -> (r: Self)
        ensures
            r == *self,
    {
        Settings {
            v: self.v,
            target: self.target.clone(),
            mode: self.mode.clone(),
            value: self.value,
            turn_on: self.turn_on,
            step: self.step,
            kelvin: self.kelvin,
            hue: self.hue,
            saturation: self.saturation,
            brightness: self.brightness,
            use_color: self.use_color,
            label: self.label.clone(),
            on: self.on,
            step_per_tick: self.step_per_tick,
            tap_preset: self.tap_preset,
        }
    }
}

impl Settings {
    /// Settings with every field absent or empty, aimed at `target`.
    pub fn for_target(target: Target) -> (s: Settings)
        ensures
            s.target == target,
            s.label@ == Seq::<char>::empty(),
            s.mode@ == Seq::<char>::empty(),
    {
        Settings {
            v: 0,
            target,
            mode: String::new(),
            value: None,
            turn_on: None,
            step: None,
            kelvin: None,
            hue: None,
            saturation: None,
            brightness: None,
            use_color: None,
            label: String::new(),
            on: None,
            step_per_tick: None,
            tap_preset: None,
        }
    }
}

/// Plugin-wide settings.
#[derive(Clone, Copy, Debug, PartialEq, Eq)]
pub struct GlobalSettings {
    pub port: u16,
    pub poll_seconds: u64,
    pub start_daemon: bool,
}

/// The port that the environment's `LIMELIGHT_PORT` value names: its
/// trimmed text parsed as a `u16`, unless that fails or gives zero.
pub open spec fn env_port_spec(env: Option<Seq<char>>) -> Option<nat> {
    match env {
        Some(text) => match parse_unsigned_seq(trim_seq(text), 0xffff) {
            Some(p) => if p != 0 { Some(p) } else { None },
            None => None,
        },
        None => None,
    }
}

/// The default port given the environment: the port it names, else
/// `DEFAULT_PORT`.
pub open spec fn default_port_spec(env: Option<Seq<char>>) -> nat {
    match env_port_spec(env) {
        Some(p) => p,
        None => DEFAULT_PORT as nat,
    }
}

/// The port that the `LIMELIGHT_PORT` value `env` names, if any.
pub fn env_port(env: Option<&str>) -> (p: Option<u16>)
    ensures
        match env {
            Some(text) => match env_port_spec(Some(text@)) {
                Some(v) => p == Some(v as u16),
                None => p is None,
            },
            None => p is None,
        },
{
    match env {
        None => None,
        Some(text) => {
            let trimmed = trim(text);
            match parse_unsigned(trimmed.as_str(), 0xffff) {
                Some(v) => if v != 0 { Some(v as u16) } else { None },
                None => None,
            }
        },
    }
}

impl GlobalSettings {
    /// The settings in force before any are received: the port from the
    /// `LIMELIGHT_PORT` value `env` (else `DEFAULT_PORT`), a poll every three
    /// seconds, and the daemon started when needed.
    pub fn from_env(env: Option<&str>) -> (g: GlobalSettings)
        ensures
            g.port as nat == default_port_spec(match env { Some(t) => Some(t@), None => None }),
            g.poll_seconds == DEFAULT_POLL_SECONDS,
            g.start_daemon,
    {
        let port = match env_port(env) {
            Some(p) => p,
            None => DEFAULT_PORT,
        };
        GlobalSettings { port, poll_seconds: DEFAULT_POLL_SECONDS, start_daemon: true }
    }
}

/// The settings that received ones stand for: a zero port becomes the
/// default port (given the `LIMELIGHT_PORT` value `env`), a zero poll
/// interval becomes three seconds, and the rest is kept.
pub open spec fn normalized(received: GlobalSettings, env: Option<Seq<char>>) -> GlobalSettings {
    GlobalSettings {
        port: if received.port == 0 { default_port_spec(env) as u16 } else { received.port },
        poll_seconds: if received.poll_seconds == 0 { DEFAULT_POLL_SECONDS } else { received.poll_seconds },
        start_daemon: received.start_daemon,
    }
}

/// The settings that received ones stand for (see `normalized`).
pub fn normalize_global(received: GlobalSettings, env: Option<&str>) -> (g: GlobalSettings)
    ensures
        g == normalized(received, match env { Some(t) => Some(t@), None => None }),
        g.port != 0,
        g.poll_seconds != 0,
{
    let mut g = received;
    if g.port == 0 {
        g.port = GlobalSettings::from_env(env).port;
    }
    if g.poll_seconds == 0 {
        g.poll_seconds = DEFAULT_POLL_SECONDS;
    }
    g
}


/// Normalizing twice is normalizing once.
pub proof fn lemma_normalize_idempotent(g: GlobalSettings, env: Option<Seq<char>>)
    ensures
        normalized(normalized(g, env), env) == normalized(g, env),
{
    lemma_default_port_nonzero(env);
}

/// The default port is never zero.
pub proof fn lemma_default_port_nonzero(env: Option<Seq<char>>)
    ensures
        default_port_spec(env) != 0,
        default_port_spec(env) <= 0xffff,
{
}

} // verus!
