use limelight::svg::{
    battery_color, data_uri, dial_icon, glyph_paths, Badge, Glyph, Ink, Tile, LIME, SLATE,
};

#[test]
fn data_uri_base64_encodes() {
    assert_eq!(data_uri("<svg/>"), "data:image/svg+xml;base64,PHN2Zy8+");
    assert_eq!(data_uri(""), "data:image/svg+xml;base64,");
    assert_eq!(data_uri("ab"), "data:image/svg+xml;base64,YWI=");
}

#[test]
fn plain_tile_svg() {
    let svg = Tile::new(SLATE, Glyph::Panel).svg(Ink::Light);
    let expected = [
        r#"<svg xmlns="http://www.w3.org/2000/svg" width="144" height="144" viewBox="0 0 144 144">"#,
        r##"<rect width="144" height="144" rx="28" fill="#2B3443"/>"##,
        r##"<g transform="translate(72 62) scale(3.2) translate(-12 -12)" fill="none" stroke="#E6EAF0" stroke-width="1.8" stroke-linecap="round" stroke-linejoin="round">"##,
        r#"<rect x="3" y="4" width="18" height="12" rx="2"/><path d="M12 16v5M8 21h8"/></g></svg>"#,
    ]
    .concat();
    assert_eq!(svg, expected);
}

#[test]
fn decorated_tile_svg() {
    let svg = Tile::new(LIME, Glyph::Sun).dashed().badge(Badge::Up).slashed().svg(Ink::Dark);
    assert!(svg.contains(r##"stroke="#6B7684" stroke-width="4" stroke-dasharray="14 10"/>"##));
    assert!(svg.contains(r##"<circle cx="118" cy="26" r="18" fill="#182010"/>"##));
    assert!(svg.contains(r##"stroke="#A8FF60" stroke-width="2.4""##));
    assert!(svg.contains(r#"<path d="M6 15l6-6 6 6"/>"#));
    assert!(svg.contains(r##"<path d="M28 28L116 116" stroke="#000" stroke-opacity="0.35" stroke-width="16" stroke-linecap="round"/><path d="M28 28L116 116" stroke="#FF5C5C" stroke-width="10" stroke-linecap="round"/>"##));
    assert!(svg.ends_with("</svg>"));
}

#[test]
fn tile_builders_set_one_field() {
    let t = Tile::new("#123456", Glyph::Star);
    assert!(!t.dashed && !t.slash && t.badge.is_none() && t.battery_level.is_none());
    let t = t.battery(75);
    assert_eq!(t.battery_level, Some(75));
    let t = t.badge(Badge::Bolt);
    assert_eq!(t.badge, Some(Badge::Bolt));
    assert_eq!(t.fill, "#123456");
}

#[test]
fn battery_glyph_width() {
    assert!(glyph_paths(Glyph::Battery, Some(75), "#fff").contains(r#"width="10.5" height="6""#));
    assert!(glyph_paths(Glyph::Battery, Some(80), "#fff").contains(r#"width="11.2""#));
    assert!(glyph_paths(Glyph::Battery, None, "#fff").contains(r#"width="0.0""#));
    assert!(glyph_paths(Glyph::Battery, Some(200), "#fff").contains(r#"width="14.0""#));
    assert!(glyph_paths(Glyph::Battery, Some(1), "#fff").contains(r#"width="0.1""#));
}

#[test]
fn dial_icons() {
    let icon = dial_icon(Glyph::Panel, "#B0552A", true);
    assert!(icon.starts_with(r#"<svg xmlns="http://www.w3.org/2000/svg" width="48" height="48" viewBox="0 0 48 48">"#));
    assert!(icon.contains(r##"stroke-width="6.4""##));
    assert!(icon.contains(r#"M10 10L38 38"#));
    assert!(!dial_icon(Glyph::Sun, "#fff", false).contains("M10 10"));
}

#[test]
fn battery_colors() {
    assert_eq!(battery_color(100), LIME);
    assert_eq!(battery_color(50), LIME);
    assert_eq!(battery_color(49), "#D9822B");
    assert_eq!(battery_color(15), "#D9822B");
    assert_eq!(battery_color(14), "#C0392B");
    assert_eq!(battery_color(101), "#C0392B");
}
