use limelight::actions::{can_identify, power_patch, ready_target, toggle_patch};
use limelight::bridge::{bridge_request, BridgeRequest};
use limelight::client::{Light, UpdateRequest};
use limelight::daemon::{
    after_first_probe, after_retry, after_spawn, allow_start_again, is_up, mark_down, set_status, status,
    version, DaemonState, DaemonStatus, StartupStep,
};
use limelight::keyed::Keyed;
use limelight::poller::{battery_due, battery_refresh_plan, next_delay};
use limelight::render::{
    battery_targets, dial_icon_plan, dial_text, has_instances, looks_generated, note_title_event, record_view,
    register, resolve_status, scan_plan, status_plan, unregister, unregister_device, update_settings, Appearance,
    Kind, Paint, Registry, Status,
};
use limelight::settings::{Settings, Target};
use limelight::snapshot::{set_battery, Aggregate, Snapshot};
use limelight::svg::{Glyph, AMBER, DARK, DARK_RED, LIME, MUTED, SLATE};

const ALL_KINDS: [Kind; 12] = [
    Kind::Power,
    Kind::BrightnessSet,
    Kind::BrightnessAdjust,
    Kind::TemperatureSet,
    Kind::TemperatureAdjust,
    Kind::Color,
    Kind::Preset,
    Kind::Battery,
    Kind::Identify,
    Kind::Scan,
    Kind::DialBrightness,
    Kind::DialTemperature,
];

fn settings(kind: &str, id: &str) -> Settings {
    Settings::for_target(Target::new(kind, id))
}

fn agg(name: &str, on: bool, reachable: bool) -> Aggregate {
    Aggregate {
        name: name.to_string(),
        any_on: on,
        brightness: 42,
        kelvin: 4550,
        hue: None,
        saturation: None,
        reachable,
        color_capable: false,
    }
}

#[test]
fn uuids_round_trip() {
    for k in ALL_KINDS {
        assert_eq!(Kind::from_uuid(&k.uuid()), Some(k));
    }
    assert_eq!(Kind::from_uuid("io.github.chimi6.limelight.power"), Some(Kind::Power));
    assert_eq!(Kind::from_uuid("io.github.chimi6.limelight.dial.temperature"), Some(Kind::DialTemperature));
    assert_eq!(Kind::from_uuid("io.github.chimi6.limelight.unknown"), None);
    assert_eq!(Kind::from_uuid("com.other.power"), None);
    assert_eq!(Kind::from_uuid(""), None);
}

#[test]
fn kind_glyphs_and_dials() {
    assert_eq!(Kind::Power.glyph(), Glyph::Panel);
    assert_eq!(Kind::DialBrightness.glyph(), Glyph::Sun);
    assert_eq!(Kind::TemperatureAdjust.glyph(), Glyph::Thermometer);
    assert_eq!(Kind::Battery.glyph(), Glyph::Battery);
    assert!(Kind::DialTemperature.is_dial());
    assert!(!Kind::Scan.is_dial());
}

#[test]
fn registry_lifecycle() {
    let mut r = Registry::new();
    assert!(!has_instances(&r));
    register(&mut r, "io.github.chimi6.limelight.battery", "i1", "dev1", &settings("light", "a"), 0);
    register(&mut r, "io.github.chimi6.limelight.battery", "i2", "dev2", &settings("group", "g"), 0);
    register(&mut r, "io.github.chimi6.limelight.power", "i3", "dev1", &settings("light", "b"), 0);
    register(&mut r, "other.plugin.thing", "i4", "dev1", &settings("light", "c"), 0);
    assert!(has_instances(&r));
    assert!(r.get("i4").is_none());
    assert_eq!(battery_targets(&r), vec!["a".to_string()]);
    update_settings(&mut r, "i2", &settings("light", "z"));
    let mut ids = battery_targets(&r);
    ids.sort();
    assert_eq!(ids, vec!["a".to_string(), "z".to_string()]);
    register(&mut r, "io.github.chimi6.limelight.battery", "i1", "dev9", &settings("light", "y"), 50);
    let e = r.get("i1").unwrap();
    assert_eq!(e.device_id, "dev1");
    assert_eq!(e.settings.target.id, "y");
    unregister_device(&mut r, "dev1");
    assert!(r.get("i1").is_none());
    assert!(r.get("i3").is_none());
    assert!(r.get("i2").is_some());
    unregister(&mut r, "i2");
    assert!(!has_instances(&r));
}

#[test]
fn generated_titles() {
    let mut s = settings("light", "a");
    s.label = "  Desk  ".to_string();
    assert!(looks_generated("Offline", &s));
    assert!(looks_generated("...", &s));
    assert!(looks_generated("Desk", &s));
    assert!(looks_generated("45%", &s));
    assert!(looks_generated("4500K", &s));
    assert!(looks_generated("7%K%", &s));
    assert!(!looks_generated("45", &s));
    assert!(!looks_generated("%", &s));
    assert!(!looks_generated("Kitchen", &s));
    assert!(!looks_generated("99999999999%", &s));
}

fn shown(title: Option<&str>) -> Appearance {
    Appearance { image: Some("img".to_string()), title: title.map(str::to_string), state: None, feedback: None }
}

#[test]
fn title_events() {
    let mut r = Registry::new();
    register(&mut r, "io.github.chimi6.limelight.power", "i", "d", &settings("light", "a"), 1_000);
    record_view(&mut r, "i", shown(Some("Offline")));
    note_title_event(&mut r, "i", "Missing", 1_500);
    let e = r.get("i").unwrap();
    assert!(e.titles_enabled);
    assert_eq!(e.last.unwrap().title, Some("Missing".to_string()));
    note_title_event(&mut r, "i", "My title", 1_600);
    assert!(r.get("i").unwrap().titles_enabled);
    note_title_event(&mut r, "i", "My title", 5_000);
    assert!(!r.get("i").unwrap().titles_enabled);
    note_title_event(&mut r, "i", "", 6_000);
    let e = r.get("i").unwrap();
    assert!(e.titles_enabled);
    assert_eq!(e.last.unwrap().title, None);
    note_title_event(&mut r, "unknown", "x", 6_000);
}

#[test]
fn view_changes() {
    let mut r = Registry::new();
    assert!(record_view(&mut r, "i", shown(None)).is_none());
    register(&mut r, "io.github.chimi6.limelight.power", "i", "d", &settings("light", "a"), 0);
    let c = record_view(&mut r, "i", Appearance { image: Some("a".to_string()), title: Some("t".to_string()), state: Some(1), feedback: None }).unwrap();
    assert_eq!(c.image, Some(Some("a".to_string())));
    assert_eq!(c.title, Some(Some("t".to_string())));
    assert_eq!(c.state, Some(1));
    assert_eq!(c.feedback, None);
    let c = record_view(&mut r, "i", Appearance { image: Some("a".to_string()), title: Some("t".to_string()), state: Some(1), feedback: None }).unwrap();
    assert_eq!(c.image, None);
    assert_eq!(c.title, None);
    assert_eq!(c.state, None);
    let c = record_view(&mut r, "i", Appearance { image: None, title: None, state: None, feedback: None }).unwrap();
    assert_eq!(c.image, Some(None));
    assert_eq!(c.title, Some(None));
    assert_eq!(c.state, None);
}

#[test]
fn statuses() {
    let mut snap = Snapshot::new();
    snap.lights = vec![Light {
        id: "a".to_string(),
        name: "A".to_string(),
        alias: None,
        enabled: true,
        reachable: false,
        on: true,
        brightness: 10,
        kelvin: 3000,
        hue: None,
        saturation: None,
        color_capable: false,
        product: None,
    }];
    assert_eq!(resolve_status(false, &settings("light", "a"), &snap), Status::NoDaemon);
    assert_eq!(resolve_status(true, &settings("light", ""), &snap), Status::Unconfigured);
    assert_eq!(resolve_status(true, &settings("light", "b"), &snap), Status::Missing);
    assert!(matches!(resolve_status(true, &settings("light", "a"), &snap), Status::Offline(_)));
    snap.lights[0].reachable = true;
    assert!(matches!(resolve_status(true, &settings("all", ""), &snap), Status::Ready(_)));
    assert!(ready_target(true, &settings("light", "a"), &snap).is_some());
    assert!(ready_target(false, &settings("light", "a"), &snap).is_none());
    snap.lights[0].reachable = false;
    assert!(ready_target(true, &settings("light", "a"), &snap).is_none());
}

#[test]
fn key_plans() {
    let p = scan_plan(true);
    assert_eq!((p.tile.fill.as_str(), p.tile.glyph, p.title), (DARK, Glyph::Radar, None));
    let p = scan_plan(false);
    assert_eq!(p.tile.fill, DARK_RED);
    assert!(p.tile.slash);
    assert_eq!(p.title, Some("No daemon".to_string()));
    let p = status_plan(Kind::Color, &Status::Unconfigured).unwrap();
    assert!(p.tile.dashed && !p.tile.slash);
    assert_eq!(p.tile.glyph, Glyph::Sliders);
    assert_eq!(p.state, Some(1));
    let p = status_plan(Kind::Color, &Status::Missing).unwrap();
    assert!(p.tile.dashed && p.tile.slash);
    let p = status_plan(Kind::Color, &Status::Offline(agg("x", true, false))).unwrap();
    assert_eq!(p.tile.fill, AMBER);
    assert_eq!(p.tile.glyph, Glyph::Droplet);
    assert_eq!(p.title, Some("Offline".to_string()));
    let p = status_plan(Kind::Power, &Status::Ready(agg("x", true, true))).unwrap();
    assert_eq!((p.tile.fill.as_str(), p.state), (LIME, Some(0)));
    let p = status_plan(Kind::Power, &Status::Ready(agg("x", false, true))).unwrap();
    assert_eq!((p.tile.fill.as_str(), p.state), (SLATE, Some(1)));
    assert!(status_plan(Kind::BrightnessSet, &Status::Ready(agg("x", false, true))).is_none());
}

#[test]
fn dial_texts_and_icons() {
    let d = dial_text(Kind::DialTemperature, &Status::Ready(agg("Desk", true, true)));
    assert_eq!((d.title.as_str(), d.value.as_str(), d.indicator), ("Desk", "4550K", 4550));
    let d = dial_text(Kind::DialBrightness, &Status::Ready(agg("Desk", false, true)));
    assert_eq!((d.title.as_str(), d.value.as_str(), d.indicator), ("Desk · off", "42%", 42));
    let d = dial_text(Kind::DialBrightness, &Status::Offline(agg("Desk", false, false)));
    assert_eq!((d.title.as_str(), d.value.as_str(), d.indicator), ("Desk (offline)", "--", 0));
    let d = dial_text(Kind::DialBrightness, &Status::NoDaemon);
    assert_eq!((d.title.as_str(), d.value.as_str()), ("No daemon", "--"));
    assert_eq!(dial_icon_plan(Kind::DialTemperature, &Status::Ready(agg("D", true, true))), (Glyph::Thermometer, Paint::Kelvin(4600, true), false));
    assert_eq!(dial_icon_plan(Kind::DialBrightness, &Status::Ready(agg("D", true, true))), (Glyph::Sun, Paint::Brightness(40, true), false));
    assert_eq!(dial_icon_plan(Kind::DialBrightness, &Status::Ready(agg("D", false, true))), (Glyph::Sun, Paint::Fixed(MUTED), false));
    assert_eq!(dial_icon_plan(Kind::DialBrightness, &Status::Missing), (Glyph::Sliders, Paint::Fixed(MUTED), true));
}

#[test]
fn daemon_status_changes() {
    let mut d = DaemonState::new();
    assert_eq!(status(&d), DaemonStatus::Unknown);
    assert!(set_status(&mut d, DaemonStatus::Up("0.2.0".to_string())));
    assert!(!set_status(&mut d, DaemonStatus::Up("0.2.0".to_string())));
    assert!(is_up(&d));
    assert_eq!(version(&d), "0.2.0");
    assert!(mark_down(&mut d, "gone".to_string()));
    assert!(!mark_down(&mut d, "gone".to_string()));
    assert!(mark_down(&mut d, "other".to_string()));
    assert_eq!(version(&d), "");
}

#[test]
fn startup_sequence() {
    let mut d = DaemonState::new();
    assert_eq!(after_first_probe(&mut d, None, true), StartupStep::Spawn);
    assert_eq!(d.status, DaemonStatus::Starting);
    assert!(d.start_attempted);
    assert_eq!(after_spawn(&mut d, Ok(())), StartupStep::ProbeAgain(1));
    assert_eq!(after_retry(&mut d, 1, None), StartupStep::ProbeAgain(2));
    assert_eq!(after_retry(&mut d, 8, None), StartupStep::Finished);
    assert_eq!(d.status, DaemonStatus::Down("keylightd did not start".to_string()));
    assert_eq!(after_first_probe(&mut d, None, true), StartupStep::Finished);
    assert_eq!(d.status, DaemonStatus::Down("keylightd is not reachable".to_string()));
    allow_start_again(&mut d);
    assert_eq!(after_first_probe(&mut d, None, true), StartupStep::Spawn);
    assert_eq!(after_spawn(&mut d, Err("no such file".to_string())), StartupStep::Finished);
    assert_eq!(d.status, DaemonStatus::Down("could not start keylightd: no such file".to_string()));
    assert_eq!(after_first_probe(&mut d, Some("0.3.0".to_string()), true), StartupStep::Finished);
    assert_eq!(d.status, DaemonStatus::Up("0.3.0".to_string()));
    assert!(!d.start_attempted);
    let mut d = DaemonState::new();
    assert_eq!(after_first_probe(&mut d, None, false), StartupStep::Finished);
    assert!(!d.start_attempted);
    assert_eq!(after_retry(&mut d, 3, Some("1".to_string())), StartupStep::Finished);
    assert!(is_up(&d));
}

#[test]
fn poll_delays() {
    assert_eq!(next_delay(false, true, 9), 5);
    assert_eq!(next_delay(true, true, 9), 9);
    assert_eq!(next_delay(true, true, 0), 1);
    assert_eq!(next_delay(true, false, 9), 15);
}

#[test]
fn battery_plans() {
    let mut known = Keyed::new();
    set_battery(&mut known, "a", None);
    let ids = vec!["a".to_string(), "b".to_string()];
    assert_eq!(battery_refresh_plan(&vec![], &known, true), None);
    assert_eq!(battery_refresh_plan(&ids, &known, true), Some(ids.clone()));
    assert_eq!(battery_refresh_plan(&ids, &known, false), Some(vec!["b".to_string()]));
    set_battery(&mut known, "b", None);
    assert_eq!(battery_refresh_plan(&ids, &known, false), None);
    assert!(battery_due(None, 0));
    assert!(battery_due(Some(1_000), 31_000));
    assert!(!battery_due(Some(1_000), 30_999));
}

#[test]
fn bridge_requests() {
    assert_eq!(bridge_request(Some("getTargets"), None, "a"), BridgeRequest::SendTargets);
    assert_eq!(bridge_request(Some("startDaemon"), None, "a"), BridgeRequest::StartDaemon);
    assert_eq!(bridge_request(Some("identify"), Some("x"), "a"), BridgeRequest::Identify("x".to_string()));
    assert_eq!(bridge_request(Some("identify"), None, "a"), BridgeRequest::Identify("a".to_string()));
    assert_eq!(bridge_request(Some("identify"), None, ""), BridgeRequest::Ignore);
    assert_eq!(bridge_request(Some("other"), None, "a"), BridgeRequest::Ignore);
    assert_eq!(bridge_request(None, None, "a"), BridgeRequest::Ignore);
}

#[test]
fn power_requests() {
    let on = agg("x", true, true);
    let off = agg("x", false, true);
    let only_on = |v: u8| UpdateRequest { on: Some(v), ..Default::default() };
    assert_eq!(power_patch("on", &on), only_on(1));
    assert_eq!(power_patch("off", &off), only_on(0));
    assert_eq!(power_patch("toggle", &on), only_on(0));
    assert_eq!(power_patch("", &off), only_on(1));
    assert_eq!(toggle_patch(&on), only_on(0));
    assert_eq!(toggle_patch(&off), only_on(1));
    assert!(can_identify(&settings("light", "a")));
    assert!(!can_identify(&settings("group", "a")));
}
