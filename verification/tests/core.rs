use limelight::client::{
    battery_outcome, check_status, encode_segment, target_path, Battery, ClientError, Group, Light,
    TargetResult, UpdateRequest,
};
use limelight::settings::{env_port, normalize_global, GlobalSettings, Target, DEFAULT_PORT};
use limelight::text::{decimal, parse_unsigned, trim};

fn light(id: &str, brightness: u8, kelvin: u16, on: bool, reachable: bool) -> Light {
    Light {
        id: id.to_string(),
        name: format!("Light {id}"),
        alias: None,
        enabled: true,
        reachable,
        on,
        brightness,
        kelvin,
        hue: None,
        saturation: None,
        color_capable: false,
        product: None,
    }
}

#[test]
fn target_key_joins_kind_and_id() {
    assert_eq!(Target::new("light", "abc").key(), "light:abc");
    assert_eq!(Target::new("all", "").key(), "all:");
}

#[test]
fn target_configuration() {
    assert!(Target::new("all", "").is_configured());
    assert!(Target::new("light", "a").is_configured());
    assert!(Target::new("group", "Desk").is_configured());
    assert!(!Target::new("light", "").is_configured());
    assert!(!Target::new("group", "").is_configured());
    assert!(!Target::new("lamp", "a").is_configured());
    assert!(!Target::new("", "").is_configured());
}

#[test]
fn encode_segment_keeps_unreserved_and_escapes_the_rest() {
    assert_eq!(encode_segment("Key-Light_1.~"), "Key-Light_1.~");
    assert_eq!(encode_segment("Key Light"), "Key%20Light");
    assert_eq!(encode_segment("a/b?c"), "a%2Fb%3Fc");
    assert_eq!(encode_segment("ü"), "%C3%BC");
    assert_eq!(encode_segment(""), "");
}

#[test]
fn target_paths() {
    assert_eq!(target_path(&Target::new("light", "Key Light")), "/lights/Key%20Light");
    assert_eq!(target_path(&Target::new("group", "desk")), "/groups/desk");
    assert_eq!(target_path(&Target::new("all", "")), "/all");
    assert_eq!(target_path(&Target::new("other", "x")), "/all");
}

#[test]
fn merge_prefers_newer_fields() {
    let mut older = UpdateRequest { on: Some(1), brightness: Some(40), kelvin: None, hue: None, saturation: None };
    let newer = UpdateRequest { on: None, brightness: Some(60), kelvin: Some(3000), hue: None, saturation: None };
    older.merge(&newer);
    assert_eq!(older, UpdateRequest { on: Some(1), brightness: Some(60), kelvin: Some(3000), hue: None, saturation: None });
}

#[test]
fn merge_with_nothing_is_identity() {
    let r = UpdateRequest { on: Some(0), brightness: Some(5), kelvin: Some(2900), hue: Some(1.5f32.to_bits()), saturation: None };
    let mut a = r;
    a.merge(&UpdateRequest::default());
    assert_eq!(a, r);
    let mut b = UpdateRequest::default();
    b.merge(&r);
    assert_eq!(b, r);
}

#[test]
fn merge_is_associative_on_an_example() {
    let a = UpdateRequest { on: Some(1), brightness: Some(10), kelvin: None, hue: None, saturation: None };
    let b = UpdateRequest { on: None, brightness: Some(20), kelvin: Some(4000), hue: None, saturation: None };
    let c = UpdateRequest { on: Some(0), brightness: None, kelvin: None, hue: Some(7), saturation: Some(8) };
    let mut left = a;
    left.merge(&b);
    left.merge(&c);
    let mut bc = b;
    bc.merge(&c);
    let mut right = a;
    right.merge(&bc);
    assert_eq!(left, right);
}

#[test]
fn client_error_texts() {
    assert_eq!(ClientError::Unreachable("refused".to_string()).to_string(), "daemon unreachable: refused");
    assert_eq!(ClientError::Status(404, "no such light".to_string()).to_string(), "HTTP 404: no such light");
    assert_eq!(ClientError::Decode("eof".to_string()).to_string(), "bad response: eof");
}

#[test]
fn status_checks() {
    assert_eq!(check_status(200, "{}".to_string(), None), None);
    assert_eq!(check_status(502, "{}".to_string(), None), None);
    assert_eq!(check_status(399, "x".to_string(), None), None);
    assert_eq!(
        check_status(404, "body".to_string(), Some("not found".to_string())),
        Some(ClientError::Status(404, "not found".to_string()))
    );
    assert_eq!(
        check_status(500, "plain text".to_string(), None),
        Some(ClientError::Status(500, "plain text".to_string()))
    );
}

#[test]
fn battery_outcomes() {
    let b = Battery { level: 80.0f32.to_bits(), status: 2 };
    assert_eq!(battery_outcome(Ok(b)), Ok(Some(b)));
    assert_eq!(battery_outcome(Err(ClientError::Status(404, "none".to_string()))), Ok(None));
    assert_eq!(
        battery_outcome(Err(ClientError::Status(500, "x".to_string()))),
        Err(ClientError::Status(500, "x".to_string()))
    );
    assert_eq!(
        battery_outcome(Err(ClientError::Unreachable("down".to_string()))),
        Err(ClientError::Unreachable("down".to_string()))
    );
}

#[test]
fn battery_charging_states() {
    assert!(Battery { level: 0, status: 2 }.is_charging());
    assert!(Battery { level: 0, status: 3 }.is_charging());
    assert!(!Battery { level: 0, status: 1 }.is_charging());
    assert!(!Battery { level: 0, status: 0 }.is_charging());
}

#[test]
fn display_name_prefers_trimmed_alias() {
    let mut l = light("a", 1, 2900, true, true);
    assert_eq!(l.display_name(), "Light a");
    l.alias = Some("  Desk \t".to_string());
    assert_eq!(l.display_name(), "Desk");
    l.alias = Some("   ".to_string());
    assert_eq!(l.display_name(), "Light a");
}

#[test]
fn trimming_and_numbers() {
    assert_eq!(trim("  a b \n"), "a b");
    assert_eq!(trim("\u{3000}x\u{a0}"), "x");
    assert_eq!(trim(""), "");
    assert_eq!(decimal(0), "0");
    assert_eq!(decimal(4500), "4500");
    assert_eq!(decimal(u64::MAX), u64::MAX.to_string());
    assert_eq!(parse_unsigned("9124", 65535), Some(9124));
    assert_eq!(parse_unsigned("+7", 65535), Some(7));
    assert_eq!(parse_unsigned("65536", 65535), None);
    assert_eq!(parse_unsigned("-1", 65535), None);
    assert_eq!(parse_unsigned("+", 65535), None);
    assert_eq!(parse_unsigned("", 65535), None);
    assert_eq!(parse_unsigned("12a", 65535), None);
}

#[test]
fn global_settings_from_environment() {
    assert_eq!(env_port(Some(" 8080 ")), Some(8080));
    assert_eq!(env_port(Some("0")), None);
    assert_eq!(env_port(Some("abc")), None);
    assert_eq!(env_port(None), None);
    let g = GlobalSettings::from_env(None);
    assert_eq!(g, GlobalSettings { port: DEFAULT_PORT, poll_seconds: 3, start_daemon: true });
    assert_eq!(GlobalSettings::from_env(Some("7000")).port, 7000);
}

#[test]
fn global_settings_normalized() {
    let g = normalize_global(GlobalSettings { port: 0, poll_seconds: 0, start_daemon: false }, None);
    assert_eq!(g, GlobalSettings { port: 9124, poll_seconds: 3, start_daemon: false });
    let g = normalize_global(GlobalSettings { port: 0, poll_seconds: 9, start_daemon: true }, Some("7001"));
    assert_eq!(g, GlobalSettings { port: 7001, poll_seconds: 9, start_daemon: true });
    let g = normalize_global(GlobalSettings { port: 1234, poll_seconds: 1, start_daemon: true }, Some("7001"));
    assert_eq!(g, GlobalSettings { port: 1234, poll_seconds: 1, start_daemon: true });
}

#[test]
fn group_and_result_values_are_plain() {
    let g = Group { name: "desk".to_string(), members: vec!["a".to_string()] };
    assert_eq!(g.clone(), g);
    let r = TargetResult { id: "a".to_string(), ok: true, error: None, state: None };
    assert!(r.ok);
}
