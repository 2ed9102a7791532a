use limelight::client::{Group, Light, TargetResult, UpdateRequest};
use limelight::keyed::Keyed;
use limelight::queue::{enqueue, finish_update, next_job, UpdateFollowUp, UpdateQueue};
use limelight::settings::Target;
use limelight::snapshot::{
    apply_results, battery, is_stale, mark_unreachable, optimistic, recently_touched_targets,
    replace_from_poll, set_battery, split_target_key, touch, Snapshot,
};
use limelight::client::{Battery, ClientError, UpdateResponse};
use limelight::daemon::{is_up, DaemonState, DaemonStatus};

fn light(id: &str, brightness: u8, kelvin: u16, on: bool, reachable: bool) -> Light {
    Light {
        id: id.to_string(),
        name: format!("Light {id}"),
        alias: None,
        enabled: true,
        reachable,
        on,
        brightness,
        kelvin,
        hue: None,
        saturation: None,
        color_capable: false,
        product: None,
    }
}

fn snapshot() -> Snapshot {
    let mut s = Snapshot::new();
    s.lights = vec![
        light("a", 40, 3000, true, true),
        light("b", 60, 5000, false, true),
        light("c", 100, 7000, true, false),
    ];
    s.groups = vec![
        Group { name: "desk".to_string(), members: vec!["a".to_string(), "b".to_string()] },
        Group { name: "shelf".to_string(), members: vec!["c".to_string()] },
        Group { name: "desk".to_string(), members: vec!["c".to_string()] },
    ];
    s
}

#[test]
fn member_ids_by_kind() {
    let s = snapshot();
    assert_eq!(s.member_ids(&Target::new("light", "zz")), vec!["zz".to_string()]);
    assert_eq!(s.member_ids(&Target::new("group", "desk")), vec!["a".to_string(), "b".to_string()]);
    assert!(s.member_ids(&Target::new("group", "none")).is_empty());
    assert_eq!(s.member_ids(&Target::new("all", "")), vec!["a".to_string(), "b".to_string(), "c".to_string()]);
    assert!(s.member_ids(&Target::new("other", "a")).is_empty());
}

#[test]
fn members_follow_snapshot_order() {
    let s = snapshot();
    let m = s.members(&Target::new("group", "desk"));
    assert_eq!(m.len(), 2);
    assert_eq!(m[0].id, "a");
    assert_eq!(m[1].id, "b");
    assert!(s.members(&Target::new("light", "zz")).is_empty());
}

#[test]
fn aggregate_averages_reachable_members() {
    let s = snapshot();
    let a = s.aggregate(&Target::new("all", "")).unwrap();
    assert_eq!(a.name, "All lights");
    assert_eq!(a.brightness, 50);
    assert_eq!(a.kelvin, 4000);
    assert!(a.any_on);
    assert!(a.reachable);
    assert!(!a.color_capable);
    assert_eq!(a.hue, None);
}

#[test]
fn aggregate_of_unreachable_light_uses_all_members() {
    let s = snapshot();
    let a = s.aggregate(&Target::new("light", "c")).unwrap();
    assert_eq!(a.name, "Light c");
    assert_eq!(a.brightness, 100);
    assert_eq!(a.kelvin, 7000);
    assert!(!a.reachable);
    assert!(!a.any_on);
}

#[test]
fn aggregate_of_group_and_missing_targets() {
    let s = snapshot();
    let a = s.aggregate(&Target::new("group", "desk")).unwrap();
    assert_eq!(a.name, "desk");
    assert_eq!(a.brightness, 50);
    assert!(s.aggregate(&Target::new("group", "nope")).is_none());
    assert!(s.aggregate(&Target::new("light", "nope")).is_none());
    assert!(s.aggregate(&Target::new("lamp", "a")).is_none());
}

#[test]
fn aggregate_takes_hue_from_first_coloured_light() {
    let mut s = snapshot();
    s.lights[1].hue = Some(120.0f32.to_bits());
    s.lights[1].saturation = Some(50.0f32.to_bits());
    s.lights[1].color_capable = true;
    let a = s.aggregate(&Target::new("all", "")).unwrap();
    assert_eq!(a.hue, Some(120.0f32.to_bits()));
    assert_eq!(a.saturation, Some(50.0f32.to_bits()));
    assert!(a.color_capable);
}

#[test]
fn aggregate_of_empty_all_divides_by_one() {
    let s = Snapshot::new();
    let a = s.aggregate(&Target::new("all", "")).unwrap();
    assert_eq!(a.brightness, 0);
    assert_eq!(a.kelvin, 0);
    assert!(!a.reachable);
}

#[test]
fn optimistic_patches_members_only() {
    let mut s = snapshot();
    let patch = UpdateRequest { on: Some(0), brightness: Some(10), kelvin: None, hue: Some(3), saturation: None };
    optimistic(&mut s, &Target::new("group", "desk"), &patch);
    assert!(!s.lights[0].on);
    assert_eq!(s.lights[0].brightness, 10);
    assert_eq!(s.lights[0].kelvin, 3000);
    assert_eq!(s.lights[0].hue, Some(3));
    assert_eq!(s.lights[1].brightness, 10);
    assert_eq!(s.lights[2].brightness, 100);
    assert!(s.lights[2].on);
}

#[test]
fn mark_unreachable_touches_members_only() {
    let mut s = snapshot();
    mark_unreachable(&mut s, &Target::new("light", "a"));
    assert!(!s.lights[0].reachable);
    assert!(s.lights[1].reachable);
}

#[test]
fn apply_results_replaces_by_id_in_order() {
    let mut s = snapshot();
    let results = vec![
        TargetResult { id: "b".to_string(), ok: true, error: None, state: Some(light("b", 1, 2900, true, true)) },
        TargetResult { id: "x".to_string(), ok: false, error: Some("gone".to_string()), state: None },
        TargetResult { id: "b".to_string(), ok: true, error: None, state: Some(light("b", 2, 2900, true, true)) },
        TargetResult { id: "zz".to_string(), ok: true, error: None, state: Some(light("zz", 9, 2900, true, true)) },
    ];
    apply_results(&mut s, &results);
    assert_eq!(s.lights.len(), 3);
    assert_eq!(s.lights[1].brightness, 2);
    assert_eq!(s.lights[0].brightness, 40);
}

#[test]
fn touches_expire_after_grace() {
    let mut log = Keyed::new();
    touch(&mut log, &Target::new("light", "a"), 1000);
    touch(&mut log, &Target::new("group", "desk"), 2000);
    let ts = recently_touched_targets(&mut log, 2600);
    assert_eq!(ts.len(), 1);
    assert_eq!(ts[0], Target::new("group", "desk"));
    assert!(log.contains_key("group:desk"));
    assert!(!log.contains_key("light:a"));
    let ts = recently_touched_targets(&mut log, 3500);
    assert!(ts.is_empty());
}

#[test]
fn split_target_key_cuts_at_first_colon() {
    assert_eq!(split_target_key("light:a:b"), Some(Target::new("light", "a:b")));
    assert_eq!(split_target_key("all:"), Some(Target::new("all", "")));
    assert_eq!(split_target_key("nocolon"), None);
    let t = Target::new("group", "Desk 1");
    assert_eq!(split_target_key(&t.key()), Some(t));
}

#[test]
fn poll_keeps_recently_touched_lights() {
    let mut s = snapshot();
    let mut log = Keyed::new();
    touch(&mut log, &Target::new("light", "a"), 10_000);
    let fresh = vec![light("a", 1, 2900, false, true), light("b", 2, 2900, false, true), light("new", 3, 2900, true, true)];
    replace_from_poll(&mut s, &mut log, fresh, vec![], 10_500);
    assert_eq!(s.lights.len(), 3);
    assert_eq!(s.lights[0].brightness, 40);
    assert_eq!(s.lights[1].brightness, 2);
    assert_eq!(s.lights[2].id, "new");
    assert!(s.groups.is_empty());
    assert_eq!(s.fetched_at, Some(10_500));
    assert!(!is_stale(&s, 12_000, 3_000));
    assert!(is_stale(&s, 14_000, 3_000));
    assert!(is_stale(&Snapshot::new(), 0, 3_000));
}

#[test]
fn poll_after_grace_takes_fresh_state() {
    let mut s = snapshot();
    let mut log = Keyed::new();
    touch(&mut log, &Target::new("light", "a"), 10_000);
    replace_from_poll(&mut s, &mut log, vec![light("a", 1, 2900, false, true)], vec![], 11_500);
    assert_eq!(s.lights[0].brightness, 1);
}

#[test]
fn battery_cache_reads_back_writes() {
    let mut cache = Keyed::new();
    assert_eq!(battery(&cache, "a"), None);
    set_battery(&mut cache, "a", None);
    assert_eq!(battery(&cache, "a"), Some(None));
    let b = Battery { level: 55.0f32.to_bits(), status: 1 };
    set_battery(&mut cache, "a", Some(b));
    assert_eq!(battery(&cache, "a"), Some(Some(b)));
    assert_eq!(battery(&cache, "b"), None);
}

#[test]
fn requests_for_one_target_coalesce() {
    let mut q = UpdateQueue::new();
    let mut s = snapshot();
    let mut log = Keyed::new();
    let t = Target::new("light", "a");
    let first = UpdateRequest { on: Some(1), brightness: Some(20), kelvin: None, hue: None, saturation: None };
    let second = UpdateRequest { on: None, brightness: Some(30), kelvin: Some(4000), hue: None, saturation: None };
    assert!(enqueue(&mut q, &mut s, &mut log, &t, first, 100));
    assert!(!enqueue(&mut q, &mut s, &mut log, &t, second, 120));
    assert_eq!(s.lights[0].brightness, 30);
    let (target, patch) = next_job(&mut q, "light:a").unwrap();
    assert_eq!(target, t);
    assert_eq!(patch, UpdateRequest { on: Some(1), brightness: Some(30), kelvin: Some(4000), hue: None, saturation: None });
    assert!(q.active.contains_key("light:a"));
    assert!(next_job(&mut q, "light:a").is_none());
    assert!(!q.active.contains_key("light:a"));
    assert!(enqueue(&mut q, &mut s, &mut log, &t, first, 500));
}

#[test]
fn finished_update_outcomes() {
    let q = UpdateQueue::new();
    let mut s = snapshot();
    let mut d = DaemonState::new();
    let t = Target::new("light", "a");
    let ok = UpdateResponse {
        ok: false,
        results: vec![TargetResult { id: "a".to_string(), ok: true, error: None, state: Some(light("a", 77, 2900, true, true)) }],
    };
    assert_eq!(finish_update(&q, &mut s, &mut d, &t, "light:a", Ok(ok)), UpdateFollowUp::Done);
    assert_eq!(s.lights[0].brightness, 77);
    assert!(!s.lights[0].reachable);
    let mut s = snapshot();
    assert_eq!(
        finish_update(&q, &mut s, &mut d, &t, "light:a", Err(ClientError::Unreachable("refused".to_string()))),
        UpdateFollowUp::PollSoon
    );
    assert_eq!(d.status, DaemonStatus::Down("refused".to_string()));
    assert!(!is_up(&d));
    assert!(s.lights[0].reachable);
    assert_eq!(
        finish_update(&q, &mut s, &mut d, &t, "light:a", Err(ClientError::Decode("bad".to_string()))),
        UpdateFollowUp::PollSoon
    );
    assert!(!s.lights[0].reachable);
}

#[test]
fn superseded_update_results_are_not_applied() {
    let mut q = UpdateQueue::new();
    let mut s = snapshot();
    let mut log = Keyed::new();
    let mut d = DaemonState::new();
    let t = Target::new("light", "a");
    let p = UpdateRequest { on: None, brightness: Some(5), kelvin: None, hue: None, saturation: None };
    enqueue(&mut q, &mut s, &mut log, &t, p, 0);
    let ok = UpdateResponse {
        ok: true,
        results: vec![TargetResult { id: "a".to_string(), ok: true, error: None, state: Some(light("a", 77, 2900, true, true)) }],
    };
    finish_update(&q, &mut s, &mut d, &t, "light:a", Ok(ok));
    assert_eq!(s.lights[0].brightness, 5);
}
