//! The key artwork: tiles with a glyph, badges and slashes, drawn as SVG,
//! and the data URIs that carry them.

use vstd::prelude::*;
use vstd::string::*;
use base64::Engine;
use crate::text::{decimal, decimal_seq, digit_char, push_char};

verus! {

pub const LIME: &'static str = "#A8FF60";
pub const SLATE: &'static str = "#2B3443";
pub const AMBER: &'static str = "#B0552A";
pub const DARK_RED: &'static str = "#5A1F1F";
pub const DARK: &'static str = "#1E232B";
pub const MUTED: &'static str = "#6B7684";
pub const GLYPH_DARK: &'static str = "#182010";
pub const GLYPH_LIGHT: &'static str = "#E6EAF0";
pub const BATTERY_LOW: &'static str = "#C0392B";
pub const BATTERY_MID: &'static str = "#D9822B";

/// The pictures a tile can show.
#[derive(Clone, Copy, PartialEq, Eq, Hash, Debug, Structural)]
pub enum Glyph {
    Panel,
    Sun,
    Thermometer,
    Droplet,
    Star,
    Battery,
    Eye,
    Radar,
    Sliders,
}

/// The small marks in a tile's corner.
#[derive(Clone, Copy, PartialEq, Eq, Hash, Debug, Structural)]
pub enum Badge {
    Up,
    Down,
    Bolt,
}

/// The ink a glyph is drawn in: dark on a light fill, light on a dark one.
#[derive(Clone, Copy, PartialEq, Eq, Hash, Debug, Structural)]
pub enum Ink {
    Dark,
    Light,
}

/// The colour of an ink.
pub open spec fn ink_seq(ink: Ink) -> Seq<char> {
    match ink {
        Ink::Dark => GLYPH_DARK@,
        Ink::Light => GLYPH_LIGHT@,
    }
}

/// The colour of an ink.
pub fn ink_color(ink: Ink) -> (c: &'static str)
    ensures
        c@ == ink_seq(ink),
{
    match ink {
        Ink::Dark => GLYPH_DARK,
        Ink::Light => GLYPH_LIGHT,
    }
}

/// A key tile: a rounded square of one fill with a glyph, optionally a
/// dashed inner border, a badge, a slash, and a battery level.
#[derive(PartialEq, Debug)]
pub struct Tile {
    pub fill: String,
    pub dashed: bool,
    pub glyph: Glyph,
    pub slash: bool,
    pub badge: Option<Badge>,
    pub battery_level: Option<u8>,
}

impl Clone for Tile {
    fn clone(&self) -> (r: Self)
        ensures
            r == *self,
    {
        Tile {
            fill: self.fill.clone(),
            dashed: self.dashed,
            glyph: self.glyph,
            slash: self.slash,
            badge: self.badge,
            battery_level: self.battery_level,
        }
    }
}

/// Tenths written as a decimal: `16` for 160, `6.4` for 64.
pub open spec fn tenths_seq(t: nat) -> Seq<char> {
    if t % 10 == 0 {
        decimal_seq(t / 10)
    } else {
        decimal_seq(t / 10) + seq!['.', digit_char(t % 10)]
    }
}

/// Tenths written with one decimal always: `10.5` for 105, `0.0` for 0.
pub open spec fn one_decimal_seq(t: nat) -> Seq<char> {
    decimal_seq(t / 10) + seq!['.', digit_char(t % 10)]
}

fn tenths(t: u64, always_decimal: bool) -> (s: String)
    ensures
        s@ == if always_decimal { one_decimal_seq(t as nat) } else { tenths_seq(t as nat) },
{
    let mut s = decimal(t / 10);
    if always_decimal || t % 10 != 0 {
        push_char(&mut s, '.');
        push_char(&mut s, crate::text::char_from_digit((t % 10) as u32));
    }
    s
}

/// The width, in tenths, of the charge bar for a level: 14 units at 100,
/// rounded to the nearest tenth.
pub open spec fn charge_tenths(level: u8) -> nat {
    let l = if level > 100 { 100nat } else { level as nat };
    (14 * l + 5) / 10
}

/// The SVG paths of a glyph; the battery shows its charge in `color`.
pub open spec fn glyph_paths_seq(glyph: Glyph, battery_level: Option<u8>, color: Seq<char>) -> Seq<char> {
    match glyph {
        Glyph::Panel => "<rect x=\"3\" y=\"4\" width=\"18\" height=\"12\" rx=\"2\"/><path d=\"M12 16v5M8 21h8\"/>"@,
        Glyph::Sun => "<circle cx=\"12\" cy=\"12\" r=\"4\"/><path d=\"M12 2v2M12 20v2M4.93 4.93l1.41 1.41M17.66 17.66l1.41 1.41M2 12h2M20 12h2M6.34 17.66l-1.41 1.41M19.07 4.93l-1.41 1.41\"/>"@,
        Glyph::Thermometer => "<path d=\"M14 14.76V3.5a2.5 2.5 0 0 0-5 0v11.26a4.5 4.5 0 1 0 5 0z\"/>"@,
        Glyph::Droplet => "<path d=\"M12 2.69l5.66 5.66a8 8 0 1 1-11.31 0z\"/>"@,
        Glyph::Star => "<path d=\"M12 2l3.09 6.26L22 9.27l-5 4.87 1.18 6.88L12 17.77l-6.18 3.25L7 14.14 2 9.27l6.91-1.01z\"/>"@,
        Glyph::Battery => "<rect x=\"2\" y=\"7\" width=\"18\" height=\"10\" rx=\"2\"/><path d=\"M22 11v2\"/><rect x=\"4\" y=\"9\" width=\""@
            + one_decimal_seq(charge_tenths(match battery_level { Some(l) => l, None => 0 }))
            + "\" height=\"6\" rx=\"1\" fill=\""@ + color + "\" stroke=\"none\"/>"@,
        Glyph::Eye => "<path d=\"M1 12s4-8 11-8 11 8 11 8-4 8-11 8-11-8-11-8z\"/><circle cx=\"12\" cy=\"12\" r=\"3\"/>"@,
        Glyph::Radar => "<path d=\"M23 4v6h-6M1 20v-6h6M3.51 9a9 9 0 0 1 14.85-3.36L23 10M1 14l4.64 4.36A9 9 0 0 0 20.49 15\"/>"@,
        Glyph::Sliders => "<path d=\"M4 21v-7M4 10V3M12 21v-9M12 8V3M20 21v-5M20 12V3M1 14h6M9 8h6M17 16h6\"/>"@,
    }
}

/// The drawings of the glyphs: each glyph other than the battery is the same
/// drawing whatever the level and colour; the battery is its outline with a
/// charge bar 14 units wide at 100 %, filled in the given colour.
pub proof fn lemma_glyph_drawings(level: Option<u8>, color: Seq<char>)
    ensures
        glyph_paths_seq(Glyph::Panel, level, color) == "<rect x=\"3\" y=\"4\" width=\"18\" height=\"12\" rx=\"2\"/><path d=\"M12 16v5M8 21h8\"/>"@,
        glyph_paths_seq(Glyph::Sun, level, color) == "<circle cx=\"12\" cy=\"12\" r=\"4\"/><path d=\"M12 2v2M12 20v2M4.93 4.93l1.41 1.41M17.66 17.66l1.41 1.41M2 12h2M20 12h2M6.34 17.66l-1.41 1.41M19.07 4.93l-1.41 1.41\"/>"@,
        glyph_paths_seq(Glyph::Thermometer, level, color) == "<path d=\"M14 14.76V3.5a2.5 2.5 0 0 0-5 0v11.26a4.5 4.5 0 1 0 5 0z\"/>"@,
        glyph_paths_seq(Glyph::Droplet, level, color) == "<path d=\"M12 2.69l5.66 5.66a8 8 0 1 1-11.31 0z\"/>"@,
        glyph_paths_seq(Glyph::Star, level, color) == "<path d=\"M12 2l3.09 6.26L22 9.27l-5 4.87 1.18 6.88L12 17.77l-6.18 3.25L7 14.14 2 9.27l6.91-1.01z\"/>"@,
        glyph_paths_seq(Glyph::Eye, level, color) == "<path d=\"M1 12s4-8 11-8 11 8 11 8-4 8-11 8-11-8-11-8z\"/><circle cx=\"12\" cy=\"12\" r=\"3\"/>"@,
        glyph_paths_seq(Glyph::Radar, level, color) == "<path d=\"M23 4v6h-6M1 20v-6h6M3.51 9a9 9 0 0 1 14.85-3.36L23 10M1 14l4.64 4.36A9 9 0 0 0 20.49 15\"/>"@,
        glyph_paths_seq(Glyph::Sliders, level, color) == "<path d=\"M4 21v-7M4 10V3M12 21v-9M12 8V3M20 21v-5M20 12V3M1 14h6M9 8h6M17 16h6\"/>"@,
        glyph_paths_seq(Glyph::Battery, level, color)
            == "<rect x=\"2\" y=\"7\" width=\"18\" height=\"10\" rx=\"2\"/><path d=\"M22 11v2\"/><rect x=\"4\" y=\"9\" width=\""@
            + one_decimal_seq((14 * (match level { Some(l) => if l > 100 { 100nat } else { l as nat }, None => 0nat }) + 5) / 10)
            + "\" height=\"6\" rx=\"1\" fill=\""@ + color + "\" stroke=\"none\"/>"@,
{
}

/// The inks: dark glyphs in `GLYPH_DARK`, light ones in `GLYPH_LIGHT`.
pub proof fn lemma_inks()
    ensures
        ink_seq(Ink::Dark) == GLYPH_DARK@,
        ink_seq(Ink::Light) == GLYPH_LIGHT@,
{
}

/// The battery colours: lime from 50 % to 100 %, orange from 15 % to 49 %,
/// red below 15 %.
pub proof fn lemma_battery_colors(level: u8)
    ensures
        50 <= level <= 100 ==> battery_color_seq(level) == LIME@,
        15 <= level < 50 ==> battery_color_seq(level) == BATTERY_MID@,
        level < 15 ==> battery_color_seq(level) == BATTERY_LOW@,
{
}

/// The SVG paths of a glyph.
pub fn glyph_paths(glyph: Glyph, battery_level: Option<u8>, color: &str) -> (s: String)
    ensures
        s@ == glyph_paths_seq(glyph, battery_level, color@),
{
    match glyph {
        Glyph::Panel => String::from_str("<rect x=\"3\" y=\"4\" width=\"18\" height=\"12\" rx=\"2\"/><path d=\"M12 16v5M8 21h8\"/>"),
        Glyph::Sun => String::from_str("<circle cx=\"12\" cy=\"12\" r=\"4\"/><path d=\"M12 2v2M12 20v2M4.93 4.93l1.41 1.41M17.66 17.66l1.41 1.41M2 12h2M20 12h2M6.34 17.66l-1.41 1.41M19.07 4.93l-1.41 1.41\"/>"),
        Glyph::Thermometer => String::from_str("<path d=\"M14 14.76V3.5a2.5 2.5 0 0 0-5 0v11.26a4.5 4.5 0 1 0 5 0z\"/>"),
        Glyph::Droplet => String::from_str("<path d=\"M12 2.69l5.66 5.66a8 8 0 1 1-11.31 0z\"/>"),
        Glyph::Star => String::from_str("<path d=\"M12 2l3.09 6.26L22 9.27l-5 4.87 1.18 6.88L12 17.77l-6.18 3.25L7 14.14 2 9.27l6.91-1.01z\"/>"),
        Glyph::Battery => {
            let level: u8 = match battery_level {
                Some(l) => l,
                None => 0,
            };
            let l: u64 = if level > 100 { 100 } else { level as u64 };
            let width = tenths((14 * l + 5) / 10, true);
            let mut s = String::from_str("<rect x=\"2\" y=\"7\" width=\"18\" height=\"10\" rx=\"2\"/><path d=\"M22 11v2\"/><rect x=\"4\" y=\"9\" width=\"");
            s.append(width.as_str());
            s.append("\" height=\"6\" rx=\"1\" fill=\"");
            s.append(color);
            s.append("\" stroke=\"none\"/>");
            s
        },
        Glyph::Eye => String::from_str("<path d=\"M1 12s4-8 11-8 11 8 11 8-4 8-11 8-11-8-11-8z\"/><circle cx=\"12\" cy=\"12\" r=\"3\"/>"),
        Glyph::Radar => String::from_str("<path d=\"M23 4v6h-6M1 20v-6h6M3.51 9a9 9 0 0 1 14.85-3.36L23 10M1 14l4.64 4.36A9 9 0 0 0 20.49 15\"/>"),
        Glyph::Sliders => String::from_str("<path d=\"M4 21v-7M4 10V3M12 21v-9M12 8V3M20 21v-5M20 12V3M1 14h6M9 8h6M17 16h6\"/>"),
    }
}

/// The path a badge draws.
pub open spec fn badge_path_seq(badge: Badge) -> Seq<char> {
    match badge {
        Badge::Up => "<path d=\"M6 15l6-6 6 6\"/>"@,
        Badge::Down => "<path d=\"M6 9l6 6 6-6\"/>"@,
        Badge::Bolt => "<path d=\"M13 2L3 14h9l-1 8 10-12h-9l1-8z\"/>"@,
    }
}

/// The marks of the badges: an up chevron, a down chevron and a lightning
/// bolt, each different from the others.
pub proof fn lemma_badge_marks()
    ensures
        badge_path_seq(Badge::Up) == "<path d=\"M6 15l6-6 6 6\"/>"@,
        badge_path_seq(Badge::Down) == "<path d=\"M6 9l6 6 6-6\"/>"@,
        badge_path_seq(Badge::Bolt) == "<path d=\"M13 2L3 14h9l-1 8 10-12h-9l1-8z\"/>"@,
        badge_path_seq(Badge::Up) != badge_path_seq(Badge::Down),
        badge_path_seq(Badge::Up) != badge_path_seq(Badge::Bolt),
        badge_path_seq(Badge::Down) != badge_path_seq(Badge::Bolt),
{
    reveal_strlit("<path d=\"M6 15l6-6 6 6\"/>");
    reveal_strlit("<path d=\"M6 9l6 6 6-6\"/>");
    reveal_strlit("<path d=\"M13 2L3 14h9l-1 8 10-12h-9l1-8z\"/>");
    assert(badge_path_seq(Badge::Up)[12] != badge_path_seq(Badge::Down)[12]);
    assert(badge_path_seq(Badge::Up)[12] != badge_path_seq(Badge::Bolt)[12]);
    assert(badge_path_seq(Badge::Down)[12] != badge_path_seq(Badge::Bolt)[12]);
}

/// A badge: a disc of colour `circle` in the top right corner with the
/// badge's mark stroked in `stroke`.
pub open spec fn badge_svg_seq(badge: Badge, circle: Seq<char>, stroke: Seq<char>) -> Seq<char> {
    "<circle cx=\"118\" cy=\"26\" r=\"18\" fill=\""@ + circle
        + "\"/><g transform=\"translate(118 26) scale(1.15) translate(-12 -12)\" fill=\"none\" stroke=\""@
        + stroke + "\" stroke-width=\"2.4\" stroke-linecap=\"round\" stroke-linejoin=\"round\">"@
        + badge_path_seq(badge) + "</g>"@
}

fn badge_svg(badge: Badge, circle: &str, stroke: &str) -> (s: String)
    ensures
        s@ == badge_svg_seq(badge, circle@, stroke@),
{
    let path = match badge {
        Badge::Up => "<path d=\"M6 15l6-6 6 6\"/>",
        Badge::Down => "<path d=\"M6 9l6 6 6-6\"/>",
        Badge::Bolt => "<path d=\"M13 2L3 14h9l-1 8 10-12h-9l1-8z\"/>",
    };
    let mut s = String::from_str("<circle cx=\"118\" cy=\"26\" r=\"18\" fill=\"");
    s.append(circle);
    s.append("\"/><g transform=\"translate(118 26) scale(1.15) translate(-12 -12)\" fill=\"none\" stroke=\"");
    s.append(stroke);
    s.append("\" stroke-width=\"2.4\" stroke-linecap=\"round\" stroke-linejoin=\"round\">");
    s.append(path);
    s.append("</g>");
    s
}

/// A slash from `(from, from)` to `(to, to)`, `width_tenths` tenths wide,
/// over a darker outline 1.6 times as wide.
pub open spec fn slash_svg_seq(from: nat, to: nat, width_tenths: nat) -> Seq<char> {
    let line = "<path d=\"M"@ + decimal_seq(from) + " "@ + decimal_seq(from) + "L"@ + decimal_seq(to) + " "@ + decimal_seq(to);
    line + "\" stroke=\"#000\" stroke-opacity=\"0.35\" stroke-width=\""@ + tenths_seq(width_tenths * 16 / 10)
        + "\" stroke-linecap=\"round\"/>"@ + line + "\" stroke=\"#FF5C5C\" stroke-width=\""@
        + tenths_seq(width_tenths) + "\" stroke-linecap=\"round\"/>"@
}

/// The slashes: across a key from (28, 28) to (116, 116), a red stroke 10
/// wide over a dark one 16 wide; across a dial icon from (10, 10) to
/// (38, 38), 4 wide over 6.4.
pub proof fn lemma_slashes()
    ensures
        slash_svg_seq(28, 116, 100)
            =~= "<path d=\"M28 28L116 116\" stroke=\"#000\" stroke-opacity=\"0.35\" stroke-width=\"16\" stroke-linecap=\"round\"/><path d=\"M28 28L116 116\" stroke=\"#FF5C5C\" stroke-width=\"10\" stroke-linecap=\"round\"/>"@,
        slash_svg_seq(10, 38, 40)
            =~= "<path d=\"M10 10L38 38\" stroke=\"#000\" stroke-opacity=\"0.35\" stroke-width=\"6.4\" stroke-linecap=\"round\"/><path d=\"M10 10L38 38\" stroke=\"#FF5C5C\" stroke-width=\"4\" stroke-linecap=\"round\"/>"@,
{
    reveal_strlit("<path d=\"M");
    reveal_strlit(" ");
    reveal_strlit("L");
    reveal_strlit("\" stroke=\"#000\" stroke-opacity=\"0.35\" stroke-width=\"");
    reveal_strlit("\" stroke-linecap=\"round\"/>");
    reveal_strlit("\" stroke=\"#FF5C5C\" stroke-width=\"");
    reveal_strlit("<path d=\"M28 28L116 116\" stroke=\"#000\" stroke-opacity=\"0.35\" stroke-width=\"16\" stroke-linecap=\"round\"/><path d=\"M28 28L116 116\" stroke=\"#FF5C5C\" stroke-width=\"10\" stroke-linecap=\"round\"/>");
    reveal_strlit("<path d=\"M10 10L38 38\" stroke=\"#000\" stroke-opacity=\"0.35\" stroke-width=\"6.4\" stroke-linecap=\"round\"/><path d=\"M10 10L38 38\" stroke=\"#FF5C5C\" stroke-width=\"4\" stroke-linecap=\"round\"/>");
    assert(decimal_seq(28) =~= seq!['2', '8']) by {
        assert(decimal_seq(2) == seq!['2']);
    }
    assert(decimal_seq(116) =~= seq!['1', '1', '6']) by {
        assert(decimal_seq(1) == seq!['1']);
        assert(decimal_seq(11) =~= seq!['1', '1']);
    }
    assert(decimal_seq(10) =~= seq!['1', '0']) by {
        assert(decimal_seq(1) == seq!['1']);
    }
    assert(decimal_seq(38) =~= seq!['3', '8']) by {
        assert(decimal_seq(3) == seq!['3']);
    }
    assert(tenths_seq(160) =~= seq!['1', '6']) by {
        assert(decimal_seq(1) == seq!['1']);
        assert(decimal_seq(16) =~= seq!['1', '6']);
    }
    assert(tenths_seq(100) =~= seq!['1', '0']) by {
        assert(decimal_seq(1) == seq!['1']);
        assert(decimal_seq(10) =~= seq!['1', '0']);
    }
    assert(tenths_seq(64) =~= seq!['6', '.', '4']) by {
        assert(decimal_seq(6) == seq!['6']);
        assert(digit_char(4) == '4');
    }
    assert(tenths_seq(40) =~= seq!['4']) by {
        assert(decimal_seq(4) == seq!['4']);
    }
}

fn slash_svg(from: u64, to: u64, width_tenths: u64) -> (s: String)
    requires
        width_tenths <= 1000,
    ensures
        s@ == slash_svg_seq(from as nat, to as nat, width_tenths as nat),
{
    let f = decimal(from);
    let t = decimal(to);
    let mut line = String::from_str("<path d=\"M");
    line.append(f.as_str());
    line.append(" ");
    line.append(f.as_str());
    line.append("L");
    line.append(t.as_str());
    line.append(" ");
    line.append(t.as_str());
    let outline = tenths(width_tenths * 16 / 10, false);
    let width = tenths(width_tenths, false);
    let mut s = line.clone();
    s.append("\" stroke=\"#000\" stroke-opacity=\"0.35\" stroke-width=\"");
    s.append(outline.as_str());
    s.append("\" stroke-linecap=\"round\"/>");
    s.append(line.as_str());
    s.append("\" stroke=\"#FF5C5C\" stroke-width=\"");
    s.append(width.as_str());
    s.append("\" stroke-linecap=\"round\"/>");
    s
}

/// The SVG of a tile whose glyph is drawn in `ink`.
pub open spec fn tile_svg_seq(tile: Tile, ink: Seq<char>) -> Seq<char> {
    let head = "<svg xmlns=\"http://www.w3.org/2000/svg\" width=\"144\" height=\"144\" viewBox=\"0 0 144 144\">"@
        + "<rect width=\"144\" height=\"144\" rx=\"28\" fill=\""@ + tile.fill@ + "\"/>"@;
    let border = if tile.dashed {
        "<rect x=\"6\" y=\"6\" width=\"132\" height=\"132\" rx=\"24\" fill=\"none\" stroke=\""@ + MUTED@
            + "\" stroke-width=\"4\" stroke-dasharray=\"14 10\"/>"@
    } else {
        Seq::<char>::empty()
    };
    let glyph = "<g transform=\"translate(72 62) scale(3.2) translate(-12 -12)\" fill=\"none\" stroke=\""@ + ink
        + "\" stroke-width=\"1.8\" stroke-linecap=\"round\" stroke-linejoin=\"round\">"@
        + glyph_paths_seq(tile.glyph, tile.battery_level, ink) + "</g>"@;
    let badge = match tile.badge {
        Some(b) => badge_svg_seq(b, ink, tile.fill@),
        None => Seq::<char>::empty(),
    };
    let slash = if tile.slash { slash_svg_seq(28, 116, 100) } else { Seq::<char>::empty() };
    head + border + glyph + badge + slash + "</svg>"@
}

/// How a key tile is drawn: a 144-unit rounded square in its fill; a
/// muted dashed inner border where dashed; the glyph in the ink, scaled up
/// in the middle; the badge disc in the ink at the top right with its mark
/// in the fill; the slash from corner to corner; in that order.
pub proof fn lemma_tile_drawing(tile: Tile, ink: Seq<char>)
    ensures
        tile_svg_seq(tile, ink) =~= "<svg xmlns=\"http://www.w3.org/2000/svg\" width=\"144\" height=\"144\" viewBox=\"0 0 144 144\">"@
            + "<rect width=\"144\" height=\"144\" rx=\"28\" fill=\""@ + tile.fill@ + "\"/>"@
            + (if tile.dashed {
                "<rect x=\"6\" y=\"6\" width=\"132\" height=\"132\" rx=\"24\" fill=\"none\" stroke=\""@ + "#6B7684"@
                    + "\" stroke-width=\"4\" stroke-dasharray=\"14 10\"/>"@
            } else {
                Seq::<char>::empty()
            })
            + "<g transform=\"translate(72 62) scale(3.2) translate(-12 -12)\" fill=\"none\" stroke=\""@ + ink
            + "\" stroke-width=\"1.8\" stroke-linecap=\"round\" stroke-linejoin=\"round\">"@
            + glyph_paths_seq(tile.glyph, tile.battery_level, ink) + "</g>"@
            + (match tile.badge {
                Some(b) => "<circle cx=\"118\" cy=\"26\" r=\"18\" fill=\""@ + ink
                    + "\"/><g transform=\"translate(118 26) scale(1.15) translate(-12 -12)\" fill=\"none\" stroke=\""@
                    + tile.fill@ + "\" stroke-width=\"2.4\" stroke-linecap=\"round\" stroke-linejoin=\"round\">"@
                    + badge_path_seq(b) + "</g>"@,
                None => Seq::<char>::empty(),
            })
            + (if tile.slash {
                "<path d=\"M28 28L116 116\" stroke=\"#000\" stroke-opacity=\"0.35\" stroke-width=\"16\" stroke-linecap=\"round\"/><path d=\"M28 28L116 116\" stroke=\"#FF5C5C\" stroke-width=\"10\" stroke-linecap=\"round\"/>"@
            } else {
                Seq::<char>::empty()
            })
            + "</svg>"@,
{
    lemma_slashes();
}

impl Tile {
    /// A plain tile of the given fill and glyph.
    pub fn new(fill: &str, glyph: Glyph) -> (t: Tile)
        ensures
            t.fill@ == fill@,
            t.glyph == glyph,
            !t.dashed,
            !t.slash,
            t.badge is None,
            t.battery_level is None,
    {
        Tile { fill: fill.to_owned(), dashed: false, glyph, slash: false, badge: None, battery_level: None }
    }

    /// The tile with a dashed inner border.
    pub fn dashed(self) -> (t: Tile)
        ensures
            t == (Tile { dashed: true, ..self }),
    {
        let mut t = self;
        t.dashed = true;
        t
    }

    /// The tile slashed through.
    pub fn slashed(self) -> (t: Tile)
        ensures
            t == (Tile { slash: true, ..self }),
    {
        let mut t = self;
        t.slash = true;
        t
    }

    /// The tile with a badge.
    pub fn badge(self, badge: Badge) -> (t: Tile)
        ensures
            t == (Tile { badge: Some(badge), ..self }),
    {
        let mut t = self;
        t.badge = Some(badge);
        t
    }

    /// The tile showing a battery level.
    pub fn battery(self, level: u8) -> (t: Tile)
        ensures
            t == (Tile { battery_level: Some(level), ..self }),
    {
        let mut t = self;
        t.battery_level = Some(level);
        t
    }

    /// The tile as SVG, its glyph (and badge disc) drawn in `ink`.
    #[verifier::spinoff_prover]
    pub fn svg(&self, ink: Ink) -> (s: String)
        ensures
            s@ == tile_svg_seq(*self, ink_seq(ink)),
    {
        let glyph_color = ink_color(ink);
        let mut s = String::from_str("<svg xmlns=\"http://www.w3.org/2000/svg\" width=\"144\" height=\"144\" viewBox=\"0 0 144 144\">");
        s.append("<rect width=\"144\" height=\"144\" rx=\"28\" fill=\"");
        s.append(self.fill.as_str());
        s.append("\"/>");
        if self.dashed {
            s.append("<rect x=\"6\" y=\"6\" width=\"132\" height=\"132\" rx=\"24\" fill=\"none\" stroke=\"");
            s.append(MUTED);
            s.append("\" stroke-width=\"4\" stroke-dasharray=\"14 10\"/>");
        }
        s.append("<g transform=\"translate(72 62) scale(3.2) translate(-12 -12)\" fill=\"none\" stroke=\"");
        s.append(glyph_color);
        s.append("\" stroke-width=\"1.8\" stroke-linecap=\"round\" stroke-linejoin=\"round\">");
        let paths = glyph_paths(self.glyph, self.battery_level, glyph_color);
        s.append(paths.as_str());
        s.append("</g>");
        match self.badge {
            Some(b) => {
                let badge = badge_svg(b, glyph_color, self.fill.as_str());
                s.append(badge.as_str());
            },
            None => {},
        }
        if self.slash {
            let slash = slash_svg(28, 116, 100);
            s.append(slash.as_str());
        }
        s.append("</svg>");
        s
    }
}

/// The SVG of a dial's small icon: the glyph stroked in `color`, slashed
/// where asked.
pub open spec fn dial_icon_seq(glyph: Glyph, color: Seq<char>, slashed: bool) -> Seq<char> {
    "<svg xmlns=\"http://www.w3.org/2000/svg\" width=\"48\" height=\"48\" viewBox=\"0 0 48 48\"><g transform=\"translate(24 24) scale(1.7) translate(-12 -12)\" fill=\"none\" stroke=\""@
        + color + "\" stroke-width=\"1.8\" stroke-linecap=\"round\" stroke-linejoin=\"round\">"@
        + glyph_paths_seq(glyph, None, color) + "</g>"@
        + (if slashed { slash_svg_seq(10, 38, 40) } else { Seq::<char>::empty() }) + "</svg>"@
}

/// How a dial icon is drawn: a 48-unit square with the glyph stroked in
/// the colour, slashed from (10, 10) to (38, 38) where asked.
pub proof fn lemma_dial_icon_drawing(glyph: Glyph, color: Seq<char>, slashed: bool)
    ensures
        dial_icon_seq(glyph, color, slashed) =~= "<svg xmlns=\"http://www.w3.org/2000/svg\" width=\"48\" height=\"48\" viewBox=\"0 0 48 48\"><g transform=\"translate(24 24) scale(1.7) translate(-12 -12)\" fill=\"none\" stroke=\""@
            + color + "\" stroke-width=\"1.8\" stroke-linecap=\"round\" stroke-linejoin=\"round\">"@
            + glyph_paths_seq(glyph, None, color) + "</g>"@
            + (if slashed {
                "<path d=\"M10 10L38 38\" stroke=\"#000\" stroke-opacity=\"0.35\" stroke-width=\"6.4\" stroke-linecap=\"round\"/><path d=\"M10 10L38 38\" stroke=\"#FF5C5C\" stroke-width=\"4\" stroke-linecap=\"round\"/>"@
            } else {
                Seq::<char>::empty()
            })
            + "</svg>"@,
{
    lemma_slashes();
}

/// A dial's small icon as SVG.
pub fn dial_icon(glyph: Glyph, color: &str, slashed: bool) -> (s: String)
    ensures
        s@ == dial_icon_seq(glyph, color@, slashed),
{
    let mut s = String::from_str("<svg xmlns=\"http://www.w3.org/2000/svg\" width=\"48\" height=\"48\" viewBox=\"0 0 48 48\"><g transform=\"translate(24 24) scale(1.7) translate(-12 -12)\" fill=\"none\" stroke=\"");
    s.append(color);
    s.append("\" stroke-width=\"1.8\" stroke-linecap=\"round\" stroke-linejoin=\"round\">");
    let paths = glyph_paths(glyph, None, color);
    s.append(paths.as_str());
    s.append("</g>");
    if slashed {
        let slash = slash_svg(10, 38, 40);
        s.append(slash.as_str());
    }
    s.append("</svg>");
    s
}

/// The colour of a battery level: lime from 50 to 100, orange from 15 to
/// 49, red otherwise.
pub open spec fn battery_color_seq(level: u8) -> Seq<char> {
    if 50 <= level <= 100 {
        LIME@
    } else if 15 <= level <= 49 {
        BATTERY_MID@
    } else {
        BATTERY_LOW@
    }
}

/// The colour of a battery level.
pub fn battery_color(level: u8) -> (c: &'static str)
    ensures
        c@ == battery_color_seq(level),
{
    if 50 <= level && level <= 100 {
        LIME
    } else if 15 <= level && level <= 49 {
        BATTERY_MID
    } else {
        BATTERY_LOW
    }
}

/// What base64's standard engine (`STANDARD.encode`) gives for `bytes`:
/// the padded base64 text with the standard alphabet.
pub uninterp spec fn base64_standard(bytes: Seq<u8>) -> Seq<char>;

/// Encodes bytes as padded base64 with the standard alphabet
/// (`base64::engine::general_purpose::STANDARD.encode`). The contract
/// names the text it gives and states its length, four characters for
/// every three bytes or part of three; what the characters are is not
/// stated here. The engine panics where the length overflows, which the
/// precondition rules out.
#[verifier::external_body]
fn encode_base64(bytes: &[u8]) -> (s: String)
    requires
        bytes@.len() <= usize::MAX / 2,
    ensures
        s@ == base64_standard(bytes@),
        s@.len() == 4 * ((bytes@.len() + 2) / 3),
{
    base64::engine::general_purpose::STANDARD.encode(bytes)
}

/// A data URI for SVG text given its base64 form.
pub fn data_uri_from_base64(encoded: &str) -> (uri: String)
    ensures
        uri@ == "data:image/svg+xml;base64,"@ + encoded@,
{
    let mut uri = String::from_str("data:image/svg+xml;base64,");
    uri.append(encoded);
    uri
}

/// A data URI that carries SVG text, base64-encoded.
pub fn data_uri(svg: &str) -> (uri: String)
    requires
        svg.spec_bytes().len() <= usize::MAX / 2,
    ensures
        uri@ == "data:image/svg+xml;base64,"@ + base64_standard(svg.spec_bytes()),
{
    let encoded = encode_base64(svg.as_bytes());
    data_uri_from_base64(encoded.as_str())
}

impl Tile {
    /// The tile as a data URI, its glyph drawn in `ink`.
    pub fn data_uri(&self, ink: Ink) -> (uri: String)
        requires
            vstd::utf8::encode_utf8(tile_svg_seq(*self, ink_seq(ink))).len() <= usize::MAX / 2,
        ensures
            uri@ == "data:image/svg+xml;base64,"@ + base64_standard(
                vstd::utf8::encode_utf8(tile_svg_seq(*self, ink_seq(ink))),
            ),
    {
        let svg = self.svg(ink);
        data_uri(svg.as_str())
    }
}

} // verus!
