use limelight::client::Battery;
use limelight::render::{battery_plan, dial_icon_plan, level_plan, Kind, Paint, PaintedPlan, Status};
use limelight::snapshot::Aggregate;
use limelight::svg::{Badge, Glyph, BATTERY_LOW, BATTERY_MID, DARK, LIME};

fn level(brightness: u8, kelvin: u16, on: bool) -> Aggregate {
    Aggregate {
        name: "Desk".to_string(),
        any_on: on,
        brightness,
        kelvin,
        hue: None,
        saturation: None,
        reachable: true,
        color_capable: false,
    }
}

#[test]
fn brightness_keys_show_their_levels() {
    let a = level(42, 4550, true);
    let set = level_plan(Kind::BrightnessSet, &a, false, 70).unwrap();
    assert_eq!(
        set,
        PaintedPlan { glyph: Glyph::Sun, paint: Paint::Brightness(40, true), badge: None, title: Some("70%".to_string()) }
    );
    let down = level_plan(Kind::BrightnessAdjust, &a, true, 0).unwrap();
    assert_eq!(
        down,
        PaintedPlan { glyph: Glyph::Sun, paint: Paint::Brightness(40, true), badge: Some(Badge::Down), title: Some("42%".to_string()) }
    );
    let up = level_plan(Kind::BrightnessAdjust, &level(43, 4550, false), false, 0).unwrap();
    assert_eq!((up.paint, up.badge), (Paint::Brightness(45, false), Some(Badge::Up)));
}

#[test]
fn temperature_keys_show_their_levels() {
    let a = level(42, 4550, true);
    let set = level_plan(Kind::TemperatureSet, &a, false, 3200).unwrap();
    assert_eq!(
        set,
        PaintedPlan { glyph: Glyph::Thermometer, paint: Paint::Kelvin(4600, true), badge: None, title: Some("3200K".to_string()) }
    );
    let adjust = level_plan(Kind::TemperatureAdjust, &a, false, 0).unwrap();
    assert_eq!((adjust.badge, adjust.title.as_deref()), (Some(Badge::Up), Some("4550K")));
    assert!(level_plan(Kind::Power, &a, false, 0).is_none());
    assert!(level_plan(Kind::Color, &a, false, 0).is_none());
}

#[test]
fn levels_round_to_their_steps() {
    let hot = level(0, 65535, true);
    let plan = level_plan(Kind::TemperatureAdjust, &hot, false, 0).unwrap();
    assert_eq!(plan.paint, Paint::Kelvin(65500, true));
    assert_eq!(
        dial_icon_plan(Kind::DialTemperature, &Status::Ready(hot)),
        (Glyph::Thermometer, Paint::Kelvin(65500, true), false)
    );
    let plan = level_plan(Kind::TemperatureAdjust, &level(0, 2949, true), false, 0).unwrap();
    assert_eq!(plan.paint, Paint::Kelvin(2900, true));
    let plan = level_plan(Kind::BrightnessAdjust, &level(254, 2900, true), false, 0).unwrap();
    assert_eq!(plan.paint, Paint::Brightness(255, true));
}

#[test]
fn battery_key_states() {
    let unknown = battery_plan(None, 0);
    assert_eq!((unknown.tile.fill.as_str(), unknown.title.as_deref()), (DARK, Some("...")));
    assert_eq!(unknown.tile.glyph, Glyph::Battery);
    let none = battery_plan(Some(None), 0);
    assert_eq!((none.tile.fill.as_str(), none.title.as_deref(), none.tile.battery_level), (DARK, Some("n/a"), None));
    let full = battery_plan(Some(Some(Battery { level: 80.4f32.to_bits(), status: 1 })), 80);
    assert_eq!((full.tile.fill.as_str(), full.title.as_deref()), (LIME, Some("80%")));
    assert_eq!((full.tile.battery_level, full.tile.badge), (Some(80), None));
    let charging = battery_plan(Some(Some(Battery { level: 20.0f32.to_bits(), status: 2 })), 20);
    assert_eq!((charging.tile.fill.as_str(), charging.tile.badge), (BATTERY_MID, Some(Badge::Bolt)));
    let low = battery_plan(Some(Some(Battery { level: 5.0f32.to_bits(), status: 3 })), 5);
    assert_eq!((low.tile.fill.as_str(), low.title.as_deref(), low.tile.badge), (BATTERY_LOW, Some("5%"), Some(Badge::Bolt)));
    assert_eq!(low.state, None);
}
