//! The action instances on the device, what each shows, and what changes
//! must be sent to the device when a view is redrawn.

use vstd::prelude::*;
use vstd::string::*;
use dashmap::DashMap;
use crate::settings::{lemma_kind_names_differ, Settings};
use crate::snapshot::{target_exists_spec, Aggregate, Snapshot};
use crate::client::Battery;
use crate::svg::{battery_color, battery_color_seq, Badge, Glyph, Tile, AMBER, DARK, DARK_RED, LIME, MUTED, SLATE};
use crate::text::{chars_of, decimal, decimal_seq, parse_unsigned, parse_unsigned_seq, same_text, string_of_range, trim, trim_seq};

verus! {

broadcast use vstd::string::group_string_axioms;

/// The prefix of every action UUID of this plugin.
pub const UUID_PREFIX: &'static str = "io.github.chimi6.limelight.";

/// How long after registering an instance the device's title events are
/// taken as echoes of the plugin's own titles, in milliseconds.
pub const TITLE_ECHO_MS: u64 = 1000;

/// The plugin's actions.
#[derive(Clone, Copy, PartialEq, Eq, Debug, Structural)]
pub enum Kind {
    Power,
    BrightnessSet,
    BrightnessAdjust,
    TemperatureSet,
    TemperatureAdjust,
    Color,
    Preset,
    Battery,
    Identify,
    Scan,
    DialBrightness,
    DialTemperature,
}

/// The part of an action's UUID after the prefix.
pub open spec fn kind_suffix(k: Kind) -> Seq<char> {
    match k {
        Kind::Power => "power"@,
        Kind::BrightnessSet => "brightness.set"@,
        Kind::BrightnessAdjust => "brightness.adjust"@,
        Kind::TemperatureSet => "temperature.set"@,
        Kind::TemperatureAdjust => "temperature.adjust"@,
        Kind::Color => "color"@,
        Kind::Preset => "preset"@,
        Kind::Battery => "battery"@,
        Kind::Identify => "identify"@,
        Kind::Scan => "scan"@,
        Kind::DialBrightness => "dial.brightness"@,
        Kind::DialTemperature => "dial.temperature"@,
    }
}

/// The action a UUID suffix names, if any.
pub open spec fn kind_of_suffix(s: Seq<char>) -> Option<Kind> {
    if s == "power"@ { Some(Kind::Power) }
    else if s == "brightness.set"@ { Some(Kind::BrightnessSet) }
    else if s == "brightness.adjust"@ { Some(Kind::BrightnessAdjust) }
    else if s == "temperature.set"@ { Some(Kind::TemperatureSet) }
    else if s == "temperature.adjust"@ { Some(Kind::TemperatureAdjust) }
    else if s == "color"@ { Some(Kind::Color) }
    else if s == "preset"@ { Some(Kind::Preset) }
    else if s == "battery"@ { Some(Kind::Battery) }
    else if s == "identify"@ { Some(Kind::Identify) }
    else if s == "scan"@ { Some(Kind::Scan) }
    else if s == "dial.brightness"@ { Some(Kind::DialBrightness) }
    else if s == "dial.temperature"@ { Some(Kind::DialTemperature) }
    else { None }
}

/// The action a UUID names: the plugin's prefix followed by a known suffix.
pub open spec fn kind_of_uuid(uuid: Seq<char>) -> Option<Kind> {
    let p = UUID_PREFIX@;
    if p.len() <= uuid.len() && uuid.take(p.len() as int) == p {
        kind_of_suffix(uuid.skip(p.len() as int))
    } else {
        None
    }
}

/// The suffixes of the actions are all different.
pub proof fn lemma_suffixes_differ(a: Kind, b: Kind)
    requires
        a != b,
    ensures
        kind_suffix(a) != kind_suffix(b),
{
    reveal_strlit("power");
    reveal_strlit("brightness.set");
    reveal_strlit("brightness.adjust");
    reveal_strlit("temperature.set");
    reveal_strlit("temperature.adjust");
    reveal_strlit("color");
    reveal_strlit("preset");
    reveal_strlit("battery");
    reveal_strlit("identify");
    reveal_strlit("scan");
    reveal_strlit("dial.brightness");
    reveal_strlit("dial.temperature");
    let x = kind_suffix(a);
    let y = kind_suffix(b);
    if x.len() == y.len() {
        if x[0] == y[0] {
            if x[1] == y[1] {
                assert(x[x.len() - 1] != y[y.len() - 1] || x[5] != y[5]);
            }
        }
    }
}

/// Each action's UUID names that action.
pub proof fn lemma_uuid_round_trip(k: Kind)
    ensures
        kind_of_uuid(UUID_PREFIX@ + kind_suffix(k)) == Some(k),
{
    let p = UUID_PREFIX@;
    let u = p + kind_suffix(k);
    assert(u.take(p.len() as int) =~= p);
    assert(u.skip(p.len() as int) =~= kind_suffix(k));
    if k != Kind::Power {
        lemma_suffixes_differ(Kind::Power, k);
    }
    if k != Kind::BrightnessSet {
        lemma_suffixes_differ(Kind::BrightnessSet, k);
    }
    if k != Kind::BrightnessAdjust {
        lemma_suffixes_differ(Kind::BrightnessAdjust, k);
    }
    if k != Kind::TemperatureSet {
        lemma_suffixes_differ(Kind::TemperatureSet, k);
    }
    if k != Kind::TemperatureAdjust {
        lemma_suffixes_differ(Kind::TemperatureAdjust, k);
    }
    if k != Kind::Color {
        lemma_suffixes_differ(Kind::Color, k);
    }
    if k != Kind::Preset {
        lemma_suffixes_differ(Kind::Preset, k);
    }
    if k != Kind::Battery {
        lemma_suffixes_differ(Kind::Battery, k);
    }
    if k != Kind::Identify {
        lemma_suffixes_differ(Kind::Identify, k);
    }
    if k != Kind::Scan {
        lemma_suffixes_differ(Kind::Scan, k);
    }
    if k != Kind::DialBrightness {
        lemma_suffixes_differ(Kind::DialBrightness, k);
    }
    if k != Kind::DialTemperature {
        lemma_suffixes_differ(Kind::DialTemperature, k);
    }
}

/// The manifest's action UUIDs: the plugin's prefix followed by each
/// action's own suffix names that action, and each action's UUID carries
/// that suffix.
pub proof fn lemma_uuid_table()
    ensures
        kind_suffix(Kind::Power) == "power"@,
        kind_suffix(Kind::BrightnessSet) == "brightness.set"@,
        kind_suffix(Kind::BrightnessAdjust) == "brightness.adjust"@,
        kind_suffix(Kind::TemperatureSet) == "temperature.set"@,
        kind_suffix(Kind::TemperatureAdjust) == "temperature.adjust"@,
        kind_suffix(Kind::Color) == "color"@,
        kind_suffix(Kind::Preset) == "preset"@,
        kind_suffix(Kind::Battery) == "battery"@,
        kind_suffix(Kind::Identify) == "identify"@,
        kind_suffix(Kind::Scan) == "scan"@,
        kind_suffix(Kind::DialBrightness) == "dial.brightness"@,
        kind_suffix(Kind::DialTemperature) == "dial.temperature"@,
        kind_of_uuid(UUID_PREFIX@ + "power"@) == Some(Kind::Power),
        kind_of_uuid(UUID_PREFIX@ + "brightness.set"@) == Some(Kind::BrightnessSet),
        kind_of_uuid(UUID_PREFIX@ + "brightness.adjust"@) == Some(Kind::BrightnessAdjust),
        kind_of_uuid(UUID_PREFIX@ + "temperature.set"@) == Some(Kind::TemperatureSet),
        kind_of_uuid(UUID_PREFIX@ + "temperature.adjust"@) == Some(Kind::TemperatureAdjust),
        kind_of_uuid(UUID_PREFIX@ + "color"@) == Some(Kind::Color),
        kind_of_uuid(UUID_PREFIX@ + "preset"@) == Some(Kind::Preset),
        kind_of_uuid(UUID_PREFIX@ + "battery"@) == Some(Kind::Battery),
        kind_of_uuid(UUID_PREFIX@ + "identify"@) == Some(Kind::Identify),
        kind_of_uuid(UUID_PREFIX@ + "scan"@) == Some(Kind::Scan),
        kind_of_uuid(UUID_PREFIX@ + "dial.brightness"@) == Some(Kind::DialBrightness),
        kind_of_uuid(UUID_PREFIX@ + "dial.temperature"@) == Some(Kind::DialTemperature),
{
    lemma_uuid_round_trip(Kind::Power);
    lemma_uuid_round_trip(Kind::BrightnessSet);
    lemma_uuid_round_trip(Kind::BrightnessAdjust);
    lemma_uuid_round_trip(Kind::TemperatureSet);
    lemma_uuid_round_trip(Kind::TemperatureAdjust);
    lemma_uuid_round_trip(Kind::Color);
    lemma_uuid_round_trip(Kind::Preset);
    lemma_uuid_round_trip(Kind::Battery);
    lemma_uuid_round_trip(Kind::Identify);
    lemma_uuid_round_trip(Kind::Scan);
    lemma_uuid_round_trip(Kind::DialBrightness);
    lemma_uuid_round_trip(Kind::DialTemperature);
}

/// The glyph of each action: the panel for power, the sun for brightness,
/// the thermometer for temperature, the droplet for colour, the star for
/// presets, the battery, the eye for identify and the radar for scan.
pub proof fn lemma_glyph_table()
    ensures
        kind_glyph(Kind::Power) == Glyph::Panel,
        kind_glyph(Kind::BrightnessSet) == Glyph::Sun,
        kind_glyph(Kind::BrightnessAdjust) == Glyph::Sun,
        kind_glyph(Kind::DialBrightness) == Glyph::Sun,
        kind_glyph(Kind::TemperatureSet) == Glyph::Thermometer,
        kind_glyph(Kind::TemperatureAdjust) == Glyph::Thermometer,
        kind_glyph(Kind::DialTemperature) == Glyph::Thermometer,
        kind_glyph(Kind::Color) == Glyph::Droplet,
        kind_glyph(Kind::Preset) == Glyph::Star,
        kind_glyph(Kind::Battery) == Glyph::Battery,
        kind_glyph(Kind::Identify) == Glyph::Eye,
        kind_glyph(Kind::Scan) == Glyph::Radar,
{
}

impl Kind {
    /// The action a UUID names, if it is one of this plugin's.
    pub fn from_uuid(uuid: &str) -> (k: Option<Kind>)
        ensures
            k == kind_of_uuid(uuid@),
    {
        let u = chars_of(uuid);
        let p = chars_of(UUID_PREFIX);
        if p.len() > u.len() {
            return None;
        }
        let mut i: usize = 0;
        while i < p.len()
            invariant
                i <= p@.len() <= u@.len(),
                u@ == uuid@,
                p@ == UUID_PREFIX@,
                forall|j: int| 0 <= j < i ==> u@[j] == p@[j],
            decreases p.len() - i,
        {
            if u[i] != p[i] {
                assert(u@.take(p@.len() as int)[i as int] != p@[i as int]);
                return None;
            }
            i += 1;
        }
        assert(u@.take(p@.len() as int) =~= p@);
        let suffix = string_of_range(&u, p.len(), u.len());
        assert(suffix@ == uuid@.skip(p@.len() as int));
        let s = suffix.as_str();
        if same_text(s, "power") { Some(Kind::Power) }
        else if same_text(s, "brightness.set") { Some(Kind::BrightnessSet) }
        else if same_text(s, "brightness.adjust") { Some(Kind::BrightnessAdjust) }
        else if same_text(s, "temperature.set") { Some(Kind::TemperatureSet) }
        else if same_text(s, "temperature.adjust") { Some(Kind::TemperatureAdjust) }
        else if same_text(s, "color") { Some(Kind::Color) }
        else if same_text(s, "preset") { Some(Kind::Preset) }
        else if same_text(s, "battery") { Some(Kind::Battery) }
        else if same_text(s, "identify") { Some(Kind::Identify) }
        else if same_text(s, "scan") { Some(Kind::Scan) }
        else if same_text(s, "dial.brightness") { Some(Kind::DialBrightness) }
        else if same_text(s, "dial.temperature") { Some(Kind::DialTemperature) }
        else { None }
    }

    /// The action's UUID.
    pub fn uuid(self) -> (u: String)
        ensures
            u@ == UUID_PREFIX@ + kind_suffix(self),
    {
        let suffix = match self {
            Kind::Power => "power",
            Kind::BrightnessSet => "brightness.set",
            Kind::BrightnessAdjust => "brightness.adjust",
            Kind::TemperatureSet => "temperature.set",
            Kind::TemperatureAdjust => "temperature.adjust",
            Kind::Color => "color",
            Kind::Preset => "preset",
            Kind::Battery => "battery",
            Kind::Identify => "identify",
            Kind::Scan => "scan",
            Kind::DialBrightness => "dial.brightness",
            Kind::DialTemperature => "dial.temperature",
        };
        let mut u = String::from_str(UUID_PREFIX);
        u.append(suffix);
        u
    }

    /// Whether the action is a dial.
    pub fn is_dial(self) -> (r: bool)
        ensures
            r == (self == Kind::DialBrightness || self == Kind::DialTemperature),
    {
        match self {
            Kind::DialBrightness | Kind::DialTemperature => true,
            _ => false,
        }
    }

    /// The glyph that stands for the action.
    pub fn glyph(self) -> (g: Glyph)
        ensures
            g == kind_glyph(self),
    {
        match self {
            Kind::Power => Glyph::Panel,
            Kind::BrightnessSet | Kind::BrightnessAdjust | Kind::DialBrightness => Glyph::Sun,
            Kind::TemperatureSet | Kind::TemperatureAdjust | Kind::DialTemperature => Glyph::Thermometer,
            Kind::Color => Glyph::Droplet,
            Kind::Preset => Glyph::Star,
            Kind::Battery => Glyph::Battery,
            Kind::Identify => Glyph::Eye,
            Kind::Scan => Glyph::Radar,
        }
    }
}

/// The glyph that stands for an action.
pub open spec fn kind_glyph(k: Kind) -> Glyph {
    match k {
        Kind::Power => Glyph::Panel,
        Kind::BrightnessSet | Kind::BrightnessAdjust | Kind::DialBrightness => Glyph::Sun,
        Kind::TemperatureSet | Kind::TemperatureAdjust | Kind::DialTemperature => Glyph::Thermometer,
        Kind::Color => Glyph::Droplet,
        Kind::Preset => Glyph::Star,
        Kind::Battery => Glyph::Battery,
        Kind::Identify => Glyph::Eye,
        Kind::Scan => Glyph::Radar,
    }
}


/// What a dial shows on the device's touch strip.
#[derive(Debug, PartialEq)]
pub struct DialFeedback {
    pub title: String,
    pub value: String,
    pub indicator: u16,
    pub icon: String,
}

impl Clone for DialFeedback {
    fn clone(&self) -> (r: Self)
        ensures
            r == *self,
    {
        DialFeedback {
            title: self.title.clone(),
            value: self.value.clone(),
            indicator: self.indicator,
            icon: self.icon.clone(),
        }
    }
}

/// What an instance shows (its view): an image (a data URI), a title, a state and,
/// for a dial, its touch strip.
#[derive(Debug, PartialEq)]
pub struct Appearance {
    pub image: Option<String>,
    pub title: Option<String>,
    pub state: Option<u16>,
    pub feedback: Option<DialFeedback>,
}

impl Clone for Appearance {
    fn clone(&self) -> (r: Self)
        ensures
            r == *self,
    {
        Appearance {
            image: crate::client::clone_opt_string(&self.image),
            title: crate::client::clone_opt_string(&self.title),
            state: self.state,
            feedback: match &self.feedback {
                Some(f) => Some(f.clone()),
                None => None,
            },
        }
    }
}

impl Appearance {
    /// The view that shows nothing.
    pub open spec fn blank() -> Appearance {
        Appearance { image: None, title: None, state: None, feedback: None }
    }
}

/// One action instance on the device.
#[derive(Debug, PartialEq)]
pub struct Registered {
    pub kind: Kind,
    pub settings: Settings,
    pub device_id: String,
    /// Whether the plugin sets the title (the user has not set one).
    pub titles_enabled: bool,
    /// When the instance appeared, in milliseconds on the plugin's clock.
    pub registered_at_ms: u64,
    /// The view last sent.
    pub last: Option<Appearance>,
}

impl Clone for Registered {
    fn clone(&self) -> (r: Self)
        ensures
            r == *self,
    {
        Registered {
            kind: self.kind,
            settings: self.settings.clone(),
            device_id: self.device_id.clone(),
            titles_enabled: self.titles_enabled,
            registered_at_ms: self.registered_at_ms,
            last: match &self.last {
                Some(v) => Some(v.clone()),
                None => None,
            },
        }
    }
}

/// `dashmap::DashMap`, the concurrent map the instances are kept in.
#[verifier::external_type_specification]
#[verifier::external_body]
#[verifier::reject_recursive_types(K)]
#[verifier::reject_recursive_types(V)]
#[verifier::reject_recursive_types(S)]
pub struct ExDashMap<K, V, S>(DashMap<K, V, S>);

/// The map the instances are kept in, by instance id.
pub type InstanceMap = DashMap<String, Registered>;

/// The instances a map holds, by the characters of their id.
pub uninterp spec fn instances(m: InstanceMap) -> Map<Seq<char>, Registered>;

/// `DashMap::with_capacity`: a map that holds nothing, with room for
/// `capacity` instances before it grows.
#[verifier::external_body]
fn new_instance_map(capacity: usize) -> (r: InstanceMap)
    ensures
        instances(r).dom() == Set::<Seq<char>>::empty(),
{
    DashMap::with_capacity(capacity)
}

/// `DashMap::insert`: puts `value` under `key`, in place of any value there.
#[verifier::external_body]
fn instance_insert(m: &mut InstanceMap, key: String, value: Registered)
    ensures
        instances(*final(m)) == instances(*old(m)).insert(key@, value),
{
    m.insert(key, value);
}

/// `DashMap::remove`: takes out the value under `key`, if there is one.
#[verifier::external_body]
fn instance_remove(m: &mut InstanceMap, key: &str) -> (r: Option<Registered>)
    ensures
        match r {
            Some(v) => instances(*old(m)).dom().contains(key@) && v == instances(*old(m))[key@],
            None => !instances(*old(m)).dom().contains(key@),
        },
        instances(*final(m)) == instances(*old(m)).remove(key@),
{
    m.remove(key).map(|(_, v)| v)
}

/// `DashMap::get`: a copy (made by `Registered::clone`) of the value under
/// `key`, if there is one.
#[verifier::external_body]
fn instance_get(m: &InstanceMap, key: &str) -> (r: Option<Registered>)
    ensures
        match r {
            Some(v) => instances(*m).dom().contains(key@) && v == instances(*m)[key@],
            None => !instances(*m).dom().contains(key@),
        },
{
    m.get(key).map(|entry| entry.value().clone())
}

/// `DashMap::iter`: the keys of the map, each once, in the order the map
/// walks them, which is left open.
#[verifier::external_body]
fn instance_keys(m: &InstanceMap) -> (ks: Vec<String>)
    ensures
        forall|i: int| 0 <= i < ks@.len() ==> instances(*m).dom().contains(#[trigger] ks@[i]@),
        forall|k: Seq<char>| #[trigger] instances(*m).dom().contains(k)
            ==> exists|i: int| 0 <= i < ks@.len() && ks@[i]@ == k,
        forall|i: int, j: int| 0 <= i < ks@.len() && 0 <= j < ks@.len() && i != j
            ==> #[trigger] ks@[i]@ != #[trigger] ks@[j]@,
{
    m.iter().map(|entry| entry.key().clone()).collect()
}

/// `DashMap::is_empty`: whether the map holds nothing.
#[verifier::external_body]
fn instance_map_is_empty(m: &InstanceMap) -> (r: bool)
    ensures
        r == (instances(*m).dom() == Set::<Seq<char>>::empty()),
{
    m.is_empty()
}

/// The instances on the device, by instance id.
pub struct Registry {
    map: InstanceMap,
}

impl Registry {
    /// The instances, by the characters of their id.
    pub closed spec fn view(&self) -> Map<Seq<char>, Registered> {
        instances(self.map)
    }

    /// A registry with no instance.
    pub fn new() -> (r: Registry)
        ensures
            r@ == Map::<Seq<char>, Registered>::empty(),
    {
        let r = Registry { map: new_instance_map(0) };
        assert(r@ =~= Map::<Seq<char>, Registered>::empty());
        r
    }

    /// A copy of the instance registered under `id`, if any.
    pub fn get(&self, id: &str) -> (r: Option<Registered>)
        ensures
            match r {
                Some(v) => self@.dom().contains(id@) && v == self@[id@],
                None => !self@.dom().contains(id@),
            },
    {
        instance_get(&self.map, id)
    }

    fn insert(&mut self, id: String, entry: Registered)
        ensures
            final(self)@ == old(self)@.insert(id@, entry),
    {
        instance_insert(&mut self.map, id, entry);
    }

    fn remove(&mut self, id: &str) -> (r: Option<Registered>)
        ensures
            match r {
                Some(v) => old(self)@.dom().contains(id@) && v == old(self)@[id@],
                None => !old(self)@.dom().contains(id@),
            },
            final(self)@ == old(self)@.remove(id@),
    {
        instance_remove(&mut self.map, id)
    }

    /// The ids of the registered instances, each once, in no particular order.
    pub fn keys(&self) -> (ks: Vec<String>)
        ensures
            forall|i: int| 0 <= i < ks@.len() ==> self@.dom().contains(#[trigger] ks@[i]@),
            forall|k: Seq<char>| #[trigger] self@.dom().contains(k)
                ==> exists|i: int| 0 <= i < ks@.len() && ks@[i]@ == k,
            forall|i: int, j: int| 0 <= i < ks@.len() && 0 <= j < ks@.len() && i != j
                ==> #[trigger] ks@[i]@ != #[trigger] ks@[j]@,
    {
        instance_keys(&self.map)
    }

    fn is_empty(&self) -> (r: bool)
        ensures
            r == (self@ == Map::<Seq<char>, Registered>::empty()),
    {
        let r = instance_map_is_empty(&self.map);
        if r {
            assert(self@ =~= Map::<Seq<char>, Registered>::empty());
        } else {
            assert(!Map::<Seq<char>, Registered>::empty().dom().contains(self@.dom().choose()));
        }
        r
    }
}

/// Registers an instance as it appears. An instance of an action this
/// plugin does not know is ignored; one already registered only takes the
/// new settings; a new one shows plugin titles and has shown nothing yet.
pub fn register(
    registry: &mut Registry,
    action_uuid: &str,
    instance_id: &str,
    device_id: &str,
    settings: &Settings,
    now_ms: u64,
)
    ensures
        match kind_of_uuid(action_uuid@) {
            None => final(registry)@ == old(registry)@,
            Some(kind) => if old(registry)@.dom().contains(instance_id@) {
                final(registry)@ == old(registry)@.insert(
                    instance_id@,
                    Registered { settings: *settings, ..old(registry)@[instance_id@] },
                )
            } else {
                let e = final(registry)@[instance_id@];
                &&& final(registry)@ == old(registry)@.insert(instance_id@, e)
                &&& e.kind == kind
                &&& e.settings == *settings
                &&& e.device_id@ == device_id@
                &&& e.titles_enabled
                &&& e.registered_at_ms == now_ms
                &&& e.last is None
            },
        },
{
    let kind = match Kind::from_uuid(action_uuid) {
        Some(k) => k,
        None => return,
    };
    match registry.remove(instance_id) {
        Some(entry) => {
            let mut entry = entry;
            entry.settings = settings.clone();
            registry.insert(instance_id.to_owned(), entry);
            proof {
                assert(registry@ =~= old(registry)@.insert(
                    instance_id@,
                    Registered { settings: *settings, ..old(registry)@[instance_id@] },
                ));
            }
        },
        None => {
            let entry = Registered {
                kind,
                settings: settings.clone(),
                device_id: device_id.to_owned(),
                titles_enabled: true,
                registered_at_ms: now_ms,
                last: None,
            };
            registry.insert(instance_id.to_owned(), entry);
            proof {
                assert(registry@ =~= old(registry)@.insert(instance_id@, registry@[instance_id@]));
            }
        },
    }
}

/// Gives a registered instance new settings; an unknown id is ignored.
pub fn update_settings(registry: &mut Registry, id: &str, settings: &Settings)
    ensures
        if old(registry)@.dom().contains(id@) {
            final(registry)@ == old(registry)@.insert(id@, Registered { settings: *settings, ..old(registry)@[id@] })
        } else {
            final(registry)@ == old(registry)@
        },
{
    match registry.remove(id) {
        Some(entry) => {
            let mut entry = entry;
            entry.settings = settings.clone();
            registry.insert(id.to_owned(), entry);
            proof {
                assert(registry@ =~= old(registry)@.insert(id@, Registered { settings: *settings, ..old(registry)@[id@] }));
            }
        },
        None => {
            assert(registry@ =~= old(registry)@);
        },
    }
}

/// Forgets an instance.
pub fn unregister(registry: &mut Registry, id: &str)
    ensures
        final(registry)@ == old(registry)@.remove(id@),
{
    registry.remove(id);
}

/// Forgets every instance on a device.
pub fn unregister_device(registry: &mut Registry, device_id: &str)
    ensures
        forall|k: Seq<char>| #[trigger] final(registry)@.dom().contains(k) == (old(registry)@.dom().contains(k)
            && old(registry)@[k].device_id@ != device_id@),
        forall|k: Seq<char>| #[trigger] final(registry)@.dom().contains(k) ==> final(registry)@[k] == old(registry)@[k],
{
    let ghost start = registry@;
    let keys = registry.keys();
    for i in 0..keys.len()
        invariant
            forall|a: int| 0 <= a < keys@.len() ==> start.dom().contains(#[trigger] keys@[a]@),
            forall|k: Seq<char>| #[trigger] start.dom().contains(k)
                ==> exists|a: int| 0 <= a < keys@.len() && keys@[a]@ == k,
            forall|a: int, b: int| 0 <= a < keys@.len() && 0 <= b < keys@.len() && a != b
                ==> #[trigger] keys@[a]@ != #[trigger] keys@[b]@,
            forall|k: Seq<char>| #[trigger] registry@.dom().contains(k) == (start.dom().contains(k)
                && ((exists|a: int| 0 <= a < i && keys@[a]@ == k) ==> start[k].device_id@ != device_id@)),
            forall|k: Seq<char>| #[trigger] registry@.dom().contains(k) ==> registry@[k] == start[k],
    {
        let key = &keys[i];
        let on_device = match registry.get(key.as_str()) {
            Some(e) => same_text(e.device_id.as_str(), device_id),
            None => false,
        };
        if on_device {
            registry.remove(key.as_str());
        }
        proof {
            assert forall|k: Seq<char>| #[trigger] registry@.dom().contains(k) == (start.dom().contains(k)
                && ((exists|a: int| 0 <= a < i + 1 && keys@[a]@ == k) ==> start[k].device_id@ != device_id@)) by {
                if k != keys@[i as int]@ {
                    if exists|a: int| 0 <= a < i + 1 && keys@[a]@ == k {
                        let a = choose|a: int| 0 <= a < i + 1 && keys@[a]@ == k;
                        assert(a != i);
                    }
                }
            }
        }
    }
    proof {
        assert forall|k: Seq<char>| #[trigger] registry@.dom().contains(k) == (start.dom().contains(k)
            && start[k].device_id@ != device_id@) by {
            if start.dom().contains(k) {
                let a = choose|a: int| 0 <= a < keys@.len() && keys@[a]@ == k;
            }
        }
    }
}

/// Whether any instance is registered.
pub fn has_instances(registry: &Registry) -> (r: bool)
    ensures
        r == (registry@ != Map::<Seq<char>, Registered>::empty()),
{
    !registry.is_empty()
}

/// Whether an instance is a battery action aimed at one light.
pub open spec fn watches_battery(e: Registered) -> bool {
    e.kind == Kind::Battery && e.settings.target.kind@ == "light"@
}

/// The instances whose battery is read: battery keys aimed at a single
/// light, and no others.
pub proof fn lemma_battery_watchers(e: Registered)
    ensures
        watches_battery(e) <==> e.kind == Kind::Battery && e.settings.target.kind@ == "light"@,
{
}

/// The ids of the lights whose battery some instance shows: one per such
/// instance, in no particular order.
pub fn battery_targets(registry: &Registry) -> (ids: Vec<String>)
    ensures
        exists|src: Seq<Seq<char>>| {
            &&& src.len() == ids@.len()
            &&& src.no_duplicates()
            &&& forall|i: int| 0 <= i < src.len() ==> registry@.dom().contains(#[trigger] src[i])
                && watches_battery(registry@[src[i]])
                && ids@[i]@ == registry@[src[i]].settings.target.id@
            &&& forall|k: Seq<char>| registry@.dom().contains(k) && watches_battery(#[trigger] registry@[k])
                ==> src.contains(k)
        },
{
    let keys = registry.keys();
    let mut ids: Vec<String> = Vec::new();
    let ghost mut src: Seq<Seq<char>> = Seq::empty();
    let mut i: usize = 0;
    while i < keys.len()
        invariant
            i <= keys@.len(),
            forall|a: int| 0 <= a < keys@.len() ==> registry@.dom().contains(#[trigger] keys@[a]@),
            forall|k: Seq<char>| #[trigger] registry@.dom().contains(k)
                ==> exists|a: int| 0 <= a < keys@.len() && keys@[a]@ == k,
            forall|a: int, b: int| 0 <= a < keys@.len() && 0 <= b < keys@.len() && a != b
                ==> #[trigger] keys@[a]@ != #[trigger] keys@[b]@,
            src.len() == ids@.len(),
            src.no_duplicates(),
            forall|j: int| 0 <= j < src.len() ==> registry@.dom().contains(#[trigger] src[j])
                && watches_battery(registry@[src[j]])
                && ids@[j]@ == registry@[src[j]].settings.target.id@,
            forall|j: int| 0 <= j < src.len() ==> exists|a: int| 0 <= a < i && keys@[a]@ == #[trigger] src[j],
            forall|a: int| 0 <= a < i && watches_battery(registry@[#[trigger] keys@[a]@]) ==> src.contains(keys@[a]@),
        decreases keys.len() - i,
    {
        let key = &keys[i];
        match registry.get(key.as_str()) {
            Some(e) => {
                if e.kind == Kind::Battery && same_text(e.settings.target.kind.as_str(), "light") {
                    ids.push(e.settings.target.id.clone());
                    proof {
                        assert(!src.contains(keys@[i as int]@)) by {
                            if src.contains(keys@[i as int]@) {
                                let j = choose|j: int| 0 <= j < src.len() && src[j] == keys@[i as int]@;
                                let a = choose|a: int| 0 <= a < i && keys@[a]@ == src[j];
                                assert(keys@[a]@ != keys@[i as int]@);
                            }
                        }
                        let before = src;
                        src = src.push(keys@[i as int]@);
                        assert forall|j: int| 0 <= j < src.len() implies exists|a: int| 0 <= a < i + 1
                            && keys@[a]@ == #[trigger] src[j] by {
                            if j < before.len() {
                                assert(src[j] == before[j]);
                                let a = choose|a: int| 0 <= a < i && keys@[a]@ == before[j];
                            } else {
                                assert(keys@[i as int]@ == src[j]);
                            }
                        }
                        assert forall|a: int| 0 <= a < i + 1 && watches_battery(registry@[#[trigger] keys@[a]@])
                            implies src.contains(keys@[a]@) by {
                            if a < i {
                                let j = choose|j: int| 0 <= j < before.len() && before[j] == keys@[a]@;
                                assert(src[j] == before[j]);
                            } else {
                                assert(src[src.len() - 1] == keys@[a]@);
                            }
                        }
                    }
                } else {
                    proof {
                        assert forall|j: int| 0 <= j < src.len() implies exists|a: int| 0 <= a < i + 1
                            && keys@[a]@ == #[trigger] src[j] by {
                            let a = choose|a: int| 0 <= a < i && keys@[a]@ == src[j];
                        }
                    }
                }
            },
            None => {},
        }
        i += 1;
    }
    proof {
        assert forall|k: Seq<char>| registry@.dom().contains(k) && watches_battery(#[trigger] registry@[k])
            implies src.contains(k) by {
            let a = choose|a: int| 0 <= a < keys@.len() && keys@[a]@ == k;
            assert(watches_battery(registry@[keys@[a]@]));
        }
    }
    ids
}


/// The titles the plugin itself writes on keys.
pub open spec fn is_fixed_title(t: Seq<char>) -> bool {
    ||| t == "Set up"@
    ||| t == "Missing"@
    ||| t == "Offline"@
    ||| t == "No daemon"@
    ||| t == "n/a"@
    ||| t == "..."@
}

/// `s` without trailing `%` and `K` marks (`trim_end_matches(['%', 'K'])`).
pub open spec fn strip_marks(s: Seq<char>) -> Seq<char>
    decreases s.len(),
{
    if s.len() > 0 && (s.last() == '%' || s.last() == 'K') {
        strip_marks(s.drop_last())
    } else {
        s
    }
}

/// Whether a title looks like one the plugin wrote: a fixed title, the
/// action's trimmed label, or a number followed by `%` or `K` marks.
pub open spec fn looks_generated_spec(title: Seq<char>, label: Seq<char>) -> bool {
    ||| is_fixed_title(title)
    ||| title == trim_seq(label)
    ||| strip_marks(title).len() < title.len() && parse_unsigned_seq(strip_marks(title), 0xffff_ffff) is Some
}

proof fn lemma_strip_marks_skip(s: Seq<char>, j: int)
    requires
        0 <= j <= s.len(),
        forall|k: int| j <= k < s.len() ==> (#[trigger] s[k] == '%' || s[k] == 'K'),
        j == 0 || (s[j - 1] != '%' && s[j - 1] != 'K'),
    ensures
        strip_marks(s) == s.subrange(0, j),
    decreases s.len() - j,
{
    if j < s.len() {
        let t = s.drop_last();
        lemma_strip_marks_skip(t, j);
        assert(t.subrange(0, j) == s.subrange(0, j));
    } else {
        assert(s.subrange(0, j) == s);
    }
}

/// Whether a title looks like one the plugin wrote for an action with
/// these settings.
pub fn looks_generated(title: &str, settings: &Settings) -> (r: bool)
    ensures
        r == looks_generated_spec(title@, settings.label@),
{
    if same_text(title, "Set up") || same_text(title, "Missing") || same_text(title, "Offline")
        || same_text(title, "No daemon") || same_text(title, "n/a") || same_text(title, "...") {
        return true;
    }
    let label = trim(settings.label.as_str());
    if same_text(title, label.as_str()) {
        return true;
    }
    let v = chars_of(title);
    let mut j: usize = v.len();
    while j > 0 && (v[j - 1] == '%' || v[j - 1] == 'K')
        invariant
            j <= v@.len(),
            forall|k: int| j <= k < v@.len() ==> (#[trigger] v@[k] == '%' || v@[k] == 'K'),
        decreases j,
    {
        j -= 1;
    }
    proof {
        lemma_strip_marks_skip(v@, j as int);
    }
    if j == v.len() {
        return false;
    }
    let number = string_of_range(&v, 0, j);
    parse_unsigned(number.as_str(), 0xffff_ffff).is_some()
}

/// The title an instance last showed, or empty text.
pub open spec fn shown_title(last: Option<Appearance>) -> Seq<char> {
    match last {
        Some(v) => match v.title {
            Some(t) => t@,
            None => Seq::<char>::empty(),
        },
        None => Seq::<char>::empty(),
    }
}

/// The time from `at` to `now`, zero where `now` is earlier.
pub open spec fn since(at: u64, now: u64) -> nat {
    if now >= at { (now - at) as nat } else { 0 }
}

/// How an instance takes a title event from the device. Just after it
/// appeared, the event is an echo: where it carries a title the plugin
/// wrote, other than the one it last sent, that title is taken as last
/// shown. Later, an empty title hands titles back to the plugin (and
/// forgets the last one shown), and a title other than the last one the
/// plugin sent means the user set one, so the plugin stops writing titles.
pub open spec fn title_event_outcome(e: Registered, f: Registered, title: Seq<char>, now: u64) -> bool {
    let ours = shown_title(e.last);
    &&& f.kind == e.kind
    &&& f.settings == e.settings
    &&& f.device_id == e.device_id
    &&& f.registered_at_ms == e.registered_at_ms
    &&& if since(e.registered_at_ms, now) < TITLE_ECHO_MS {
        &&& f.titles_enabled == e.titles_enabled
        &&& if title.len() > 0 && title != ours && looks_generated_spec(title, e.settings.label@) && e.last is Some {
            &&& f.last is Some
            &&& f.last->0.image == e.last->0.image
            &&& f.last->0.state == e.last->0.state
            &&& f.last->0.feedback == e.last->0.feedback
            &&& f.last->0.title is Some
            &&& f.last->0.title->0@ == title
        } else {
            f.last == e.last
        }
    } else if title.len() == 0 {
        &&& f.titles_enabled
        &&& f.last == match e.last {
            Some(v) => Some(Appearance { title: None, ..v }),
            None => None,
        }
    } else if title != ours {
        !f.titles_enabled && f.last == e.last
    } else {
        f.titles_enabled == e.titles_enabled && f.last == e.last
    }
}

/// Takes in a title event from the device for instance `id` (its title,
/// already trimmed); an unknown id is ignored.
pub fn note_title_event(registry: &mut Registry, id: &str, title: &str, now_ms: u64)
    ensures
        if old(registry)@.dom().contains(id@) {
            &&& final(registry)@ == old(registry)@.insert(id@, final(registry)@[id@])
            &&& title_event_outcome(old(registry)@[id@], final(registry)@[id@], title@, now_ms)
        } else {
            final(registry)@ == old(registry)@
        },
{
    let entry = match registry.remove(id) {
        Some(e) => e,
        None => {
            assert(registry@ =~= old(registry)@);
            return;
        },
    };
    let ghost e0 = entry;
    let mut entry = entry;
    let ours: String = match &entry.last {
        Some(v) => match &v.title {
            Some(t) => t.clone(),
            None => String::new(),
        },
        None => String::new(),
    };
    let just_registered = now_ms.saturating_sub(entry.registered_at_ms) < TITLE_ECHO_MS;
    if just_registered {
        let stale_own_title = !title.is_empty() && !same_text(title, ours.as_str())
            && looks_generated(title, &entry.settings);
        if stale_own_title {
            match entry.last {
                Some(v) => {
                    let mut v = v;
                    v.title = Some(title.to_owned());
                    entry.last = Some(v);
                },
                None => {},
            }
        }
    } else if title.is_empty() {
        entry.titles_enabled = true;
        match entry.last {
            Some(v) => {
                let mut v = v;
                v.title = None;
                entry.last = Some(v);
            },
            None => {},
        }
    } else if !same_text(title, ours.as_str()) {
        entry.titles_enabled = false;
    }
    let ghost f = entry;
    registry.insert(id.to_owned(), entry);
    proof {
        assert(title_event_outcome(e0, f, title@, now_ms));
        assert(registry@ =~= old(registry)@.insert(id@, registry@[id@]));
    }
}

/// Whether two optional texts are the same.
pub open spec fn same_opt_text(a: Option<String>, b: Option<String>) -> bool {
    match (a, b) {
        (Some(x), Some(y)) => x@ == y@,
        (None, None) => true,
        _ => false,
    }
}

/// Whether two optional touch strips show the same.
pub open spec fn same_feedback(a: Option<DialFeedback>, b: Option<DialFeedback>) -> bool {
    match (a, b) {
        (Some(x), Some(y)) => x.title@ == y.title@ && x.value@ == y.value@ && x.indicator == y.indicator
            && x.icon@ == y.icon@,
        (None, None) => true,
        _ => false,
    }
}

fn opt_text_eq(a: &Option<String>, b: &Option<String>) -> (r: bool)
    ensures
        r == same_opt_text(*a, *b),
{
    match (a, b) {
        (Some(x), Some(y)) => same_text(x.as_str(), y.as_str()),
        (None, None) => true,
        _ => false,
    }
}

fn feedback_eq(a: &Option<DialFeedback>, b: &Option<DialFeedback>) -> (r: bool)
    ensures
        r == same_feedback(*a, *b),
{
    match (a, b) {
        (Some(x), Some(y)) => same_text(x.title.as_str(), y.title.as_str())
            && same_text(x.value.as_str(), y.value.as_str()) && x.indicator == y.indicator
            && same_text(x.icon.as_str(), y.icon.as_str()),
        (None, None) => true,
        _ => false,
    }
}

/// What must be sent to the device to go from the view last sent to a new
/// one: each field is present where it must be sent.
#[derive(Debug, PartialEq)]
pub struct ViewChanges {
    /// The image to set (which may clear it).
    pub image: Option<Option<String>>,
    pub state: Option<u16>,
    /// The title to set (which may clear it).
    pub title: Option<Option<String>>,
    pub feedback: Option<DialFeedback>,
}

/// What must be sent to an instance to show `view`: the image where it
/// differs from the view last sent (nothing sent counts as a blank view);
/// the state where it changed to a value; the title where it changed and
/// the plugin writes titles; the touch strip where it changed to a value.
pub open spec fn view_changes(e: Registered, view: Appearance) -> ViewChanges {
    let prev = match e.last { Some(v) => v, None => Appearance::blank() };
    ViewChanges {
        image: if same_opt_text(view.image, prev.image) { None } else { Some(view.image) },
        state: if view.state != prev.state { view.state } else { None },
        title: if e.titles_enabled && !same_opt_text(view.title, prev.title) { Some(view.title) } else { None },
        feedback: if !same_feedback(view.feedback, prev.feedback) { view.feedback } else { None },
    }
}

/// Records `view` as what instance `id` shows and gives what must be sent:
/// the image where it changed; the state where it changed to a value; the
/// title where it changed and the plugin writes titles; the touch strip
/// where it changed to a value. `None` for an unknown id.
pub fn record_view(registry: &mut Registry, id: &str, view: Appearance) -> (changes: Option<ViewChanges>)
    ensures
        if old(registry)@.dom().contains(id@) {
            let e = old(registry)@[id@];
            &&& final(registry)@ == old(registry)@.insert(id@, Registered { last: Some(view), ..e })
            &&& changes == Some(view_changes(e, view))
        } else {
            final(registry)@ == old(registry)@ && changes is None
        },
{
    let entry = match registry.remove(id) {
        Some(e) => e,
        None => {
            assert(registry@ =~= old(registry)@);
            return None;
        },
    };
    let mut entry = entry;
    let previous = match entry.last {
        Some(v) => v,
        None => Appearance { image: None, title: None, state: None, feedback: None },
    };
    let image = if opt_text_eq(&view.image, &previous.image) {
        None
    } else {
        Some(crate::client::clone_opt_string(&view.image))
    };
    let state = if view.state != previous.state { view.state } else { None };
    let title = if entry.titles_enabled && !opt_text_eq(&view.title, &previous.title) {
        Some(crate::client::clone_opt_string(&view.title))
    } else {
        None
    };
    let feedback = if !feedback_eq(&view.feedback, &previous.feedback) {
        match &view.feedback {
            Some(f) => Some(f.clone()),
            None => None,
        }
    } else {
        None
    };
    entry.last = Some(view);
    registry.insert(id.to_owned(), entry);
    proof {
        assert(registry@ =~= old(registry)@.insert(id@, Registered { last: Some(view), ..old(registry)@[id@] }));
    }
    Some(ViewChanges { image, state, title, feedback })
}

/// Where an action stands before it draws: the daemon is down, the target
/// is not set up, the snapshot lacks it, or it is offline or ready with
/// the aggregate of its lights.
#[derive(Debug, PartialEq)]
pub enum Status {
    NoDaemon,
    Unconfigured,
    Missing,
    Offline(Aggregate),
    Ready(Aggregate),
}

/// Where an action with these settings stands.
pub fn resolve_status(daemon_up: bool, settings: &Settings, snapshot: &Snapshot) -> (st: Status)
    requires
        snapshot.lights@.len() <= u32::MAX,
    ensures
        !daemon_up ==> st == Status::NoDaemon,
        daemon_up && !crate::settings::configured(settings.target.kind@, settings.target.id@)
            ==> st == Status::Unconfigured,
        daemon_up && crate::settings::configured(settings.target.kind@, settings.target.id@) ==> match st {
            Status::Missing => !target_exists_spec(
                snapshot.lights@,
                snapshot.groups@,
                settings.target.kind@,
                settings.target.id@,
            ),
            Status::Offline(a) => !a.reachable && crate::snapshot::aggregate_result(snapshot, &settings.target, a),
            Status::Ready(a) => a.reachable && crate::snapshot::aggregate_result(snapshot, &settings.target, a),
            _ => false,
        },
{
    if !daemon_up {
        return Status::NoDaemon;
    }
    if !settings.target.is_configured() {
        return Status::Unconfigured;
    }
    match snapshot.aggregate(&settings.target) {
        None => Status::Missing,
        Some(a) => if !a.reachable { Status::Offline(a) } else { Status::Ready(a) },
    }
}


/// A key's look before its artwork is drawn: the tile, the title and the
/// state.
#[derive(Debug, PartialEq)]
pub struct KeyPlan {
    pub tile: Tile,
    pub title: Option<String>,
    pub state: Option<u16>,
}

/// A tile spec: fill, glyph, dashed border, slash.
pub open spec fn tile_is(t: Tile, fill: Seq<char>, glyph: Glyph, dashed: bool, slash: bool) -> bool {
    &&& t.fill@ == fill
    &&& t.glyph == glyph
    &&& t.dashed == dashed
    &&& t.slash == slash
    &&& t.badge is None
    &&& t.battery_level is None
}

/// The title a plan shows.
pub open spec fn plan_title(p: KeyPlan) -> Option<Seq<char>> {
    match p.title {
        Some(t) => Some(t@),
        None => None,
    }
}

fn plan(tile: Tile, title: Option<&str>, state: Option<u16>) -> (p: KeyPlan)
    ensures
        p.tile == tile,
        p.state == state,
        plan_title(p) == match title { Some(t) => Some(t@), None => None },
{
    KeyPlan {
        tile,
        title: match title {
            Some(t) => Some(t.to_owned()),
            None => None,
        },
        state,
    }
}

/// The scan key: a radar on dark where the daemon is up, else the slashed
/// panel titled "No daemon".
pub fn scan_plan(daemon_up: bool) -> (p: KeyPlan)
    ensures
        daemon_up ==> tile_is(p.tile, DARK@, Glyph::Radar, false, false) && p.title is None && p.state is None,
        !daemon_up ==> tile_is(p.tile, DARK_RED@, Glyph::Panel, false, true)
            && plan_title(p) == Some("No daemon"@) && p.state is None,
{
    if daemon_up {
        plan(Tile::new(DARK, Glyph::Radar), None, None)
    } else {
        plan(Tile::new(DARK_RED, Glyph::Panel).slashed(), Some("No daemon"), None)
    }
}

/// How a key (not scan, not a dial) looks in a status, where that needs no
/// colour computed from the lights: the daemon down, the target not set up
/// or missing, the target offline, and the power, identify and scan keys
/// when ready. `None` where the key's look depends on computed colours.
pub fn status_plan(kind: Kind, status: &Status) -> (p: Option<KeyPlan>)
    ensures
        match *status {
            Status::NoDaemon => p is Some && tile_is(p->0.tile, DARK_RED@, Glyph::Panel, false, true)
                && plan_title(p->0) == Some("No daemon"@) && p->0.state == Some(1u16),
            Status::Unconfigured => p is Some && tile_is(p->0.tile, DARK@, Glyph::Sliders, true, false)
                && plan_title(p->0) == Some("Set up"@) && p->0.state == Some(1u16),
            Status::Missing => p is Some && tile_is(p->0.tile, DARK@, Glyph::Sliders, true, true)
                && plan_title(p->0) == Some("Missing"@) && p->0.state == Some(1u16),
            Status::Offline(_) => p is Some && tile_is(p->0.tile, AMBER@, kind_glyph(kind), false, true)
                && plan_title(p->0) == Some("Offline"@) && p->0.state == Some(1u16),
            Status::Ready(a) => match kind {
                Kind::Power => p is Some && tile_is(p->0.tile, if a.any_on { LIME@ } else { SLATE@ }, Glyph::Panel, false, false)
                    && p->0.title is None && p->0.state == Some(if a.any_on { 0u16 } else { 1u16 }),
                Kind::Identify => p is Some && tile_is(p->0.tile, DARK@, Glyph::Eye, false, false)
                    && p->0.title is None && p->0.state is None,
                Kind::Scan => p is Some && tile_is(p->0.tile, DARK@, Glyph::Radar, false, false)
                    && p->0.title is None && p->0.state is None,
                _ => p is None,
            },
        },
{
    match status {
        Status::NoDaemon => Some(plan(Tile::new(DARK_RED, Glyph::Panel).slashed(), Some("No daemon"), Some(1))),
        Status::Unconfigured => Some(plan(Tile::new(DARK, Glyph::Sliders).dashed(), Some("Set up"), Some(1))),
        Status::Missing => Some(plan(Tile::new(DARK, Glyph::Sliders).dashed().slashed(), Some("Missing"), Some(1))),
        Status::Offline(_) => Some(plan(Tile::new(AMBER, kind.glyph()).slashed(), Some("Offline"), Some(1))),
        Status::Ready(a) => match kind {
            Kind::Power => {
                let fill = if a.any_on { LIME } else { SLATE };
                let state: u16 = if a.any_on { 0 } else { 1 };
                Some(plan(Tile::new(fill, Glyph::Panel), None, Some(state)))
            },
            Kind::Identify => Some(plan(Tile::new(DARK, Glyph::Eye), None, None)),
            Kind::Scan => Some(plan(Tile::new(DARK, Glyph::Radar), None, None)),
            _ => None,
        },
    }
}

/// `value` rounded to the nearest multiple of `step`, halves rounded up.
pub open spec fn quantized(value: nat, step: nat) -> nat {
    (value + step / 2) / step * step
}

/// Quantizing gives the multiple of `step` nearest to `value`, halves
/// rounded up: the result is a multiple of `step`, and `value` plus half a
/// step lies from the result up to, not including, the next multiple.
pub proof fn lemma_quantized_nearest(value: nat, step: nat)
    requires
        step > 0,
    ensures
        quantized(value, step) % step == 0,
        quantized(value, step) <= value + step / 2,
        value + step / 2 < quantized(value, step) + step,
{
    let v = value as int;
    let t = step as int;
    let h = t / 2;
    let q = (v + h) / t;
    assert(quantized(value, step) == q * t);
    assert((q * t) % t == 0) by (nonlinear_arith) requires t > 0;
    assert(q * t <= v + h && v + h < q * t + t) by (nonlinear_arith)
        requires t > 0, q == (v + h) / t, v >= 0, h >= 0;
}

/// `value` rounded to the nearest multiple of `step`, halves rounded up, as
/// the colour of a level is looked up.
pub fn quantize(value: u64, step: u64) -> (q: u64)
    requires
        step > 0,
        value + step <= u64::MAX,
    ensures
        q as nat == quantized(value as nat, step as nat),
        q <= value + step / 2,
{
    proof {
        let v = value as int;
        let t = step as int;
        assert((v + t / 2) / t * t <= v + t / 2) by (nonlinear_arith)
            requires t > 0, v >= 0;
    }
    (value + step / 2) / step * step
}

/// The temperature level whose colour a temperature is drawn in: rounded to
/// 100 K.
pub open spec fn kelvin_level(kelvin: u16) -> u16 {
    quantized(kelvin as nat, 100) as u16
}

/// The brightness level whose colour a brightness is drawn in: rounded to
/// 5 %.
pub open spec fn brightness_level(brightness: u8) -> u8 {
    quantized(brightness as nat, 5) as u8
}

fn kelvin_level_of(kelvin: u16) -> (l: u16)
    ensures
        l == kelvin_level(kelvin),
        l as nat == quantized(kelvin as nat, 100),
{
    let q = quantize(kelvin as u64, 100);
    proof {
        let k = kelvin as nat;
        assert((k + 50) / 100 * 100 <= 65535) by (nonlinear_arith)
            requires k <= 65535;
    }
    q as u16
}

fn brightness_level_of(brightness: u8) -> (l: u8)
    ensures
        l == brightness_level(brightness),
        l as nat == quantized(brightness as nat, 5),
{
    let q = quantize(brightness as u64, 5);
    proof {
        let b = brightness as nat;
        assert((b + 2) / 5 * 5 <= 255) by (nonlinear_arith)
            requires b <= 255;
    }
    q as u8
}

/// The text of a dial's touch strip: its title, value and indicator.
#[derive(Debug, PartialEq)]
pub struct DialText {
    pub title: String,
    pub value: String,
    pub indicator: u16,
}

/// What a dial's touch strip says in each status: the status name where
/// there is no light, the name marked offline, or for a ready target its
/// name (marked off where no light is on) with the temperature in K or the
/// brightness in %.
pub open spec fn dial_text_matches(kind: Kind, status: Status, d: DialText) -> bool {
    match status {
        Status::NoDaemon => d.title@ == "No daemon"@ && d.value@ == "--"@ && d.indicator == 0,
        Status::Unconfigured => d.title@ == "Set up"@ && d.value@ == "--"@ && d.indicator == 0,
        Status::Missing => d.title@ == "Missing"@ && d.value@ == "--"@ && d.indicator == 0,
        Status::Offline(a) => d.title@ == a.name@ + " (offline)"@ && d.value@ == "--"@ && d.indicator == 0,
        Status::Ready(a) => {
            &&& d.title@ == if a.any_on { a.name@ } else { a.name@ + " \u{b7} off"@ }
            &&& if kind == Kind::DialTemperature {
                d.value@ == crate::text::decimal_seq(a.kelvin as nat) + "K"@ && d.indicator == a.kelvin
            } else {
                d.value@ == crate::text::decimal_seq(a.brightness as nat) + "%"@ && d.indicator == a.brightness as u16
            }
        },
    }
}

/// What a dial's touch strip says.
pub fn dial_text(kind: Kind, status: &Status) -> (d: DialText)
    ensures
        dial_text_matches(kind, *status, d),
{
    match status {
        Status::NoDaemon => DialText { title: String::from_str("No daemon"), value: String::from_str("--"), indicator: 0 },
        Status::Unconfigured => DialText { title: String::from_str("Set up"), value: String::from_str("--"), indicator: 0 },
        Status::Missing => DialText { title: String::from_str("Missing"), value: String::from_str("--"), indicator: 0 },
        Status::Offline(a) => {
            let mut title = a.name.clone();
            title.append(" (offline)");
            DialText { title, value: String::from_str("--"), indicator: 0 }
        },
        Status::Ready(a) => {
            let mut title = a.name.clone();
            if !a.any_on {
                title.append(" \u{b7} off");
            }
            if kind == Kind::DialTemperature {
                let mut value = crate::text::decimal(a.kelvin as u64);
                value.append("K");
                DialText { title, value, indicator: a.kelvin }
            } else {
                let mut value = crate::text::decimal(a.brightness as u64);
                value.append("%");
                DialText { title, value, indicator: a.brightness as u16 }
            }
        },
    }
}

/// The colour a dial icon is stroked in: a fixed colour, or the colour of a
/// brightness or temperature level (rounded to 5 % or 100 K) with the
/// lights on or off.
#[derive(Clone, Copy, Debug, PartialEq, Eq)]
pub enum Paint {
    Fixed(&'static str),
    Brightness(u8, bool),
    Kelvin(u16, bool),
}

/// The icon of a dial's touch strip: its glyph, paint, and whether it is
/// slashed.
pub fn dial_icon_plan(kind: Kind, status: &Status) -> (r: (Glyph, Paint, bool))
    ensures
        match *status {
            Status::NoDaemon => r.0 == Glyph::Panel && r.1 == Paint::Fixed(AMBER) && r.2,
            Status::Unconfigured => r.0 == Glyph::Sliders && r.1 == Paint::Fixed(MUTED) && !r.2,
            Status::Missing => r.0 == Glyph::Sliders && r.1 == Paint::Fixed(MUTED) && r.2,
            Status::Offline(_) => r.0 == kind_glyph(kind) && r.1 == Paint::Fixed(AMBER) && r.2,
            Status::Ready(a) => r.0 == kind_glyph(kind) && !r.2 && if kind == Kind::DialTemperature {
                r.1 == Paint::Kelvin(kelvin_level(a.kelvin), a.any_on)
            } else if a.any_on {
                r.1 == Paint::Brightness(brightness_level(a.brightness), true)
            } else {
                r.1 == Paint::Fixed(MUTED)
            },
        },
{
    match status {
        Status::NoDaemon => (Glyph::Panel, Paint::Fixed(AMBER), true),
        Status::Unconfigured => (Glyph::Sliders, Paint::Fixed(MUTED), false),
        Status::Missing => (Glyph::Sliders, Paint::Fixed(MUTED), true),
        Status::Offline(_) => (kind.glyph(), Paint::Fixed(AMBER), true),
        Status::Ready(a) => {
            if kind == Kind::DialTemperature {
                (kind.glyph(), Paint::Kelvin(kelvin_level_of(a.kelvin), a.any_on), false)
            } else if a.any_on {
                (kind.glyph(), Paint::Brightness(brightness_level_of(a.brightness), true), false)
            } else {
                (kind.glyph(), Paint::Fixed(MUTED), false)
            }
        },
    }
}


/// A key's look whose fill is a paint still to be mixed: glyph, paint,
/// badge and title.
#[derive(Debug, PartialEq)]
pub struct PaintedPlan {
    pub glyph: Glyph,
    pub paint: Paint,
    pub badge: Option<Badge>,
    pub title: Option<String>,
}

/// How the brightness and temperature keys look when their target is
/// ready: the sun or thermometer in the colour of the target's level (with
/// the lights on or off); the adjust keys badged down for a negative step
/// (`step_down`) and up otherwise, titled with the target's level; the set
/// keys titled with their own rounded setting (`setting`). `None` for the
/// other keys.
pub open spec fn level_plan_matches(kind: Kind, agg: Aggregate, step_down: bool, setting: u64, p: Option<PaintedPlan>) -> bool {
    let badge = Some(if step_down { Badge::Down } else { Badge::Up });
    let bright = Paint::Brightness(brightness_level(agg.brightness), agg.any_on);
    let warm = Paint::Kelvin(kelvin_level(agg.kelvin), agg.any_on);
    match kind {
        Kind::BrightnessSet => painted(p, Glyph::Sun, bright, None, decimal_seq(setting as nat) + "%"@),
        Kind::BrightnessAdjust => painted(p, Glyph::Sun, bright, badge, decimal_seq(agg.brightness as nat) + "%"@),
        Kind::TemperatureSet => painted(p, Glyph::Thermometer, warm, None, decimal_seq(setting as nat) + "K"@),
        Kind::TemperatureAdjust => painted(p, Glyph::Thermometer, warm, badge, decimal_seq(agg.kelvin as nat) + "K"@),
        _ => p is None,
    }
}

/// A painted plan with this glyph, paint, badge and title.
pub open spec fn painted(p: Option<PaintedPlan>, glyph: Glyph, paint: Paint, badge: Option<Badge>, title: Seq<char>) -> bool {
    &&& p is Some
    &&& p->0.glyph == glyph
    &&& p->0.paint == paint
    &&& p->0.badge == badge
    &&& p->0.title is Some
    &&& p->0.title->0@ == title
}

/// How a brightness or temperature key looks when its target is ready (see
/// `level_plan_matches`).
pub fn level_plan(kind: Kind, agg: &Aggregate, step_down: bool, setting: u64) -> (p: Option<PaintedPlan>)
    ensures
        level_plan_matches(kind, *agg, step_down, setting, p),
{
    let badge = Some(if step_down { Badge::Down } else { Badge::Up });
    match kind {
        Kind::BrightnessSet | Kind::BrightnessAdjust => {
            let paint = Paint::Brightness(brightness_level_of(agg.brightness), agg.any_on);
            let (shown, badge) = if kind == Kind::BrightnessSet { (setting, None) } else { (agg.brightness as u64, badge) };
            let mut title = decimal(shown);
            title.append("%");
            Some(PaintedPlan { glyph: Glyph::Sun, paint, badge, title: Some(title) })
        },
        Kind::TemperatureSet | Kind::TemperatureAdjust => {
            let paint = Paint::Kelvin(kelvin_level_of(agg.kelvin), agg.any_on);
            let (shown, badge) = if kind == Kind::TemperatureSet { (setting, None) } else { (agg.kelvin as u64, badge) };
            let mut title = decimal(shown);
            title.append("K");
            Some(PaintedPlan { glyph: Glyph::Thermometer, paint, badge, title: Some(title) })
        },
        _ => None,
    }
}

/// How the battery key looks: "..." on dark before the light's battery
/// was read, "n/a" on dark for a light without one, else the level (the
/// reading rounded into 0..=100, `level`) as a charge bar in the colour of
/// the level, badged with a bolt while charging, and titled with the level
/// in %.
pub fn battery_plan(known: Option<Option<Battery>>, level: u8) -> (p: KeyPlan)
    ensures
        p.state is None,
        p.tile.glyph == Glyph::Battery,
        !p.tile.dashed && !p.tile.slash,
        match known {
            None => p.tile.fill@ == DARK@ && p.tile.badge is None && p.tile.battery_level is None
                && plan_title(p) == Some("..."@),
            Some(None) => p.tile.fill@ == DARK@ && p.tile.badge is None && p.tile.battery_level is None
                && plan_title(p) == Some("n/a"@),
            Some(Some(b)) => p.tile.fill@ == battery_color_seq(level)
                && p.tile.battery_level == Some(level)
                && p.tile.badge == (if b.status == 2 || b.status == 3 { Some(Badge::Bolt) } else { None })
                && plan_title(p) == Some(decimal_seq(level as nat) + "%"@),
        },
{
    match known {
        None => plan(Tile::new(DARK, Glyph::Battery), Some("..."), None),
        Some(None) => plan(Tile::new(DARK, Glyph::Battery), Some("n/a"), None),
        Some(Some(b)) => {
            let mut tile = Tile::new(battery_color(level), Glyph::Battery).battery(level);
            if b.is_charging() {
                tile = tile.badge(Badge::Bolt);
            }
            let mut title = decimal(level as u64);
            title.append("%");
            KeyPlan { tile, title: Some(title), state: None }
        },
    }
}

/// What a redraw sends, whatever the views: never a title where the user
/// owns the title (the plugin does not write titles), a title only where it
/// differs from the one last sent, and otherwise only the new view's fields,
/// each where it differs from what was last sent (a blank view before the
/// first).
pub proof fn lemma_redraw_sends(e: Registered, view: Appearance)
    ensures
        !e.titles_enabled ==> view_changes(e, view).title is None,
        ({
            let prev_title = match e.last { Some(v) => v.title, None => None };
            &&& view_changes(e, view).title is Some ==> e.titles_enabled
                && view_changes(e, view).title == Some(view.title)
                && !same_opt_text(view.title, prev_title)
            &&& e.titles_enabled && !same_opt_text(view.title, prev_title)
                ==> view_changes(e, view).title == Some(view.title)
        }),
        ({
            let prev_image = match e.last { Some(v) => v.image, None => None };
            &&& view_changes(e, view).image is Some ==> view_changes(e, view).image == Some(view.image)
            &&& (view_changes(e, view).image is None <==> same_opt_text(view.image, prev_image))
        }),
        ({
            let prev_state = match e.last { Some(v) => v.state, None => None };
            &&& view_changes(e, view).state is Some ==> view_changes(e, view).state == view.state
                && view.state != prev_state
            &&& view.state is Some && view.state != prev_state ==> view_changes(e, view).state == view.state
        }),
        view_changes(e, view).feedback is Some ==> view_changes(e, view).feedback == view.feedback,
{
}

/// Who owns a key's title after a title event from the device. Just after
/// the instance appeared the event is an echo and ownership is unchanged.
/// Later, an empty title gives titles back to the plugin and forgets the
/// last title shown; the title the plugin last sent, echoed back, changes
/// nothing; any other title is the user's, and the plugin stops writing
/// titles. The instance's kind, settings, device and registration time
/// never change.
pub proof fn lemma_title_ownership(e: Registered, f: Registered, title: Seq<char>, now: u64)
    requires
        title_event_outcome(e, f, title, now),
    ensures
        f.kind == e.kind && f.settings == e.settings && f.device_id == e.device_id
            && f.registered_at_ms == e.registered_at_ms,
        now < e.registered_at_ms + TITLE_ECHO_MS ==> f.titles_enabled == e.titles_enabled,
        now < e.registered_at_ms + TITLE_ECHO_MS && (title.len() == 0 || title == shown_title(e.last)
            || !looks_generated_spec(title, e.settings.label@)) ==> f.last == e.last,
        now < e.registered_at_ms + TITLE_ECHO_MS && title.len() > 0 && title != shown_title(e.last)
            && looks_generated_spec(title, e.settings.label@) && e.last is Some ==> f.last is Some
            && f.last->0.title is Some && f.last->0.title->0@ == title && f.last->0.image == e.last->0.image
            && f.last->0.state == e.last->0.state && f.last->0.feedback == e.last->0.feedback,
        now >= e.registered_at_ms + TITLE_ECHO_MS && title.len() > 0 && e.last is Some
            && e.last->0.title is Some && title == e.last->0.title->0@
            ==> f.titles_enabled == e.titles_enabled && f.last == e.last,
        now >= e.registered_at_ms + TITLE_ECHO_MS && title.len() > 0
            && !(e.last is Some && e.last->0.title is Some && title == e.last->0.title->0@)
            ==> !f.titles_enabled && f.last == e.last,
        now >= e.registered_at_ms + TITLE_ECHO_MS && title.len() == 0
            ==> f.titles_enabled && (f.last is Some <==> e.last is Some)
                && (f.last is Some ==> f.last->0.title is None && f.last->0.image == e.last->0.image
                    && f.last->0.state == e.last->0.state && f.last->0.feedback == e.last->0.feedback),
{
}

/// The titles the plugin writes itself are recognised as its own: each
/// status title, the action's label, and any number followed by `%` or `K`.
pub proof fn lemma_own_titles(label: Seq<char>, digits: Seq<char>)
    ensures
        looks_generated_spec("Set up"@, label),
        looks_generated_spec("Missing"@, label),
        looks_generated_spec("Offline"@, label),
        looks_generated_spec("No daemon"@, label),
        looks_generated_spec("n/a"@, label),
        looks_generated_spec("..."@, label),
        looks_generated_spec(trim_seq(label), label),
        parse_unsigned_seq(digits, 0xffff_ffff) is Some && digits.len() > 0
            && digits.last() != '%' && digits.last() != 'K'
            ==> looks_generated_spec(digits + "%"@, label) && looks_generated_spec(digits + "K"@, label),
{
    reveal_strlit("%");
    reveal_strlit("K");
    let a = digits + "%"@;
    let b = digits + "K"@;
    if digits.len() > 0 && digits.last() != '%' && digits.last() != 'K' {
        assert(a.drop_last() =~= digits);
        assert(b.drop_last() =~= digits);
        assert(strip_marks(digits) == digits);
        assert(strip_marks(a) == strip_marks(digits));
        assert(strip_marks(b) == strip_marks(digits));
    }
}

/// A bare number is never taken for the plugin's own title: the plugin
/// writes levels with a `%` or `K` mark, so a title of digits alone is the
/// user's unless it is the action's label.
pub proof fn lemma_bare_numbers_are_users(t: Seq<char>, label: Seq<char>)
    requires
        t.len() > 0,
        forall|k: int| 0 <= k < t.len() ==> '0' <= #[trigger] t[k] <= '9',
        t != trim_seq(label),
    ensures
        !looks_generated_spec(t, label),
{
    reveal_strlit("Set up");
    reveal_strlit("Missing");
    reveal_strlit("Offline");
    reveal_strlit("No daemon");
    reveal_strlit("n/a");
    reveal_strlit("...");
    assert('0' <= t[0] <= '9');
    assert("Set up"@[0] == 'S');
    assert("Missing"@[0] == 'M');
    assert("Offline"@[0] == 'O');
    assert("No daemon"@[0] == 'N');
    assert("n/a"@[0] == 'n');
    assert("..."@[0] == '.');
    assert(!is_fixed_title(t));
    assert(t.last() != '%' && t.last() != 'K');
    assert(strip_marks(t) == t);
}

/// What a dial's strip says in each status: the status name with no value
/// where nothing can be shown, the target's name marked offline, or the
/// target's name (marked off where no light is on) with its temperature in
/// K or its brightness in % on the indicator.
pub proof fn lemma_dial_strips(kind: Kind, status: Status, d: DialText)
    requires
        dial_text_matches(kind, status, d),
    ensures
        status == Status::NoDaemon ==> d.title@ == "No daemon"@ && d.value@ == "--"@ && d.indicator == 0,
        status == Status::Unconfigured ==> d.title@ == "Set up"@ && d.value@ == "--"@ && d.indicator == 0,
        status == Status::Missing ==> d.title@ == "Missing"@ && d.value@ == "--"@ && d.indicator == 0,
        status matches Status::Offline(a) ==> d.title@ == a.name@ + " (offline)"@ && d.value@ == "--"@
            && d.indicator == 0,
        status matches Status::Ready(a) ==> (a.any_on ==> d.title@ == a.name@)
            && (!a.any_on ==> d.title@ == a.name@ + " \u{b7} off"@),
        kind == Kind::DialTemperature ==> (status matches Status::Ready(a) ==> d.indicator == a.kelvin
            && d.value@ == crate::text::decimal_seq(a.kelvin as nat) + "K"@),
        kind != Kind::DialTemperature ==> (status matches Status::Ready(a) ==> d.indicator == a.brightness as u16
            && d.value@ == crate::text::decimal_seq(a.brightness as nat) + "%"@),
{
}

/// The brightness and temperature keys when ready: the adjust keys are
/// badged with a down arrow exactly for a negative step and an up arrow
/// otherwise and titled with the target's level; the set keys carry no
/// badge and are titled with their setting; each shows its glyph in the
/// colour of the target's level rounded to 5 % or 100 K.
pub proof fn lemma_level_keys(kind: Kind, agg: Aggregate, step_down: bool, setting: u64, p: Option<PaintedPlan>)
    requires
        level_plan_matches(kind, agg, step_down, setting, p),
    ensures
        kind == Kind::BrightnessAdjust ==> p is Some && p->0.glyph == Glyph::Sun
            && (step_down ==> p->0.badge == Some(Badge::Down))
            && (!step_down ==> p->0.badge == Some(Badge::Up))
            && p->0.title is Some && p->0.title->0@ == crate::text::decimal_seq(agg.brightness as nat) + "%"@,
        kind == Kind::TemperatureAdjust ==> p is Some && p->0.glyph == Glyph::Thermometer
            && (step_down ==> p->0.badge == Some(Badge::Down))
            && (!step_down ==> p->0.badge == Some(Badge::Up))
            && p->0.title is Some && p->0.title->0@ == crate::text::decimal_seq(agg.kelvin as nat) + "K"@,
        kind == Kind::BrightnessSet ==> p is Some && p->0.glyph == Glyph::Sun && p->0.badge is None
            && p->0.title is Some && p->0.title->0@ == crate::text::decimal_seq(setting as nat) + "%"@,
        kind == Kind::TemperatureSet ==> p is Some && p->0.glyph == Glyph::Thermometer && p->0.badge is None
            && p->0.title is Some && p->0.title->0@ == crate::text::decimal_seq(setting as nat) + "K"@,
        kind == Kind::BrightnessSet || kind == Kind::BrightnessAdjust ==> p->0.paint
            == Paint::Brightness(((agg.brightness as int + 2) / 5 * 5) as u8, agg.any_on),
        kind == Kind::TemperatureSet || kind == Kind::TemperatureAdjust ==> p->0.paint
            == Paint::Kelvin(((agg.kelvin as int + 50) / 100 * 100) as u16, agg.any_on),
        kind != Kind::BrightnessSet && kind != Kind::BrightnessAdjust && kind != Kind::TemperatureSet
            && kind != Kind::TemperatureAdjust ==> p is None,
{
}

/// Drawing the same view twice sends nothing the second time: once a view
/// is recorded as what an instance shows, recording it again calls for no
/// change to be sent.
pub proof fn lemma_same_view_unchanged(e: Registered, view: Appearance)
    ensures
        view_changes(Registered { last: Some(view), ..e }, view)
            == (ViewChanges { image: None, state: None, title: None, feedback: None }),
{
}

} // verus!
