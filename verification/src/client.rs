//! What the daemon's HTTP API speaks of: lights, groups, update requests and
//! their results, batteries, errors; and how a target becomes a URL path.

use vstd::prelude::*;
use vstd::string::*;
use vstd::utf8::encode_utf8;
use crate::settings::Target;
use crate::text::{decimal, decimal_seq, hex_upper, hex_upper_char, push_char, same_text, trim, trim_seq};

verus! {

broadcast use vstd::string::group_string_axioms;

/// One light as the daemon reports it. `hue` and `saturation` hold the bit
/// pattern of their `f32` value (`f32::to_bits`); nothing here computes with
/// them.
#[derive(Debug, PartialEq)]
pub struct Light {
    pub id: String,
    pub name: String,
    pub alias: Option<String>,
    pub enabled: bool,
    pub reachable: bool,
    pub on: bool,
    pub brightness: u8,
    pub kelvin: u16,
    pub hue: Option<u32>,
    pub saturation: Option<u32>,
    pub color_capable: bool,
    pub product: Option<String>,
}

/// A copy of an optional string.
pub fn clone_opt_string(s: &Option<String>) -> (r: Option<String>)
    ensures
        r == *s,
{
    match s {
        Some(t) => Some(t.clone()),
        None => None,
    }
}

/// A copy of a list of strings.
pub fn clone_strings(v: &Vec<String>) -> (r: Vec<String>)
    ensures
        r@ == v@,
{
    let mut r: Vec<String> = Vec::new();
    for i in 0..v.len()
        invariant
            r@ == v@.take(i as int),
    {
        r.push(v[i].clone());
        assert(v@.take(i + 1) == v@.take(i as int).push(v@[i as int]));
    }
    assert(v@.take(v@.len() as int) == v@);
    r
}

impl Clone for Light {
    fn clone(&self) -> (r: Self)
        ensures
            r == *self,
    {
        Light {
            id: self.id.clone(),
            name: self.name.clone(),
            alias: clone_opt_string(&self.alias),
            enabled: self.enabled,
            reachable: self.reachable,
            on: self.on,
            brightness: self.brightness,
            kelvin: self.kelvin,
            hue: self.hue,
            saturation: self.saturation,
            color_capable: self.color_capable,
            product: clone_opt_string(&self.product),
        }
    }
}

/// The name to show for a light: its alias, trimmed, unless that is empty;
/// otherwise its name.
pub open spec fn display_name_seq(l: Light) -> Seq<char> {
    let alias = match l.alias {
        Some(a) => trim_seq(a@),
        None => Seq::<char>::empty(),
    };
    if alias.len() == 0 { l.name@ } else { alias }
}

/// A light is called by its alias, trimmed, where that is not empty, and
/// by its name otherwise.
pub proof fn lemma_light_names(l: Light)
    ensures
        l.alias is Some && trim_seq(l.alias->0@).len() > 0 ==> display_name_seq(l) == trim_seq(l.alias->0@),
        l.alias is Some && trim_seq(l.alias->0@).len() == 0 ==> display_name_seq(l) == l.name@,
        l.alias is None ==> display_name_seq(l) == l.name@,
{
}

impl Light {
    /// The name to show for the light: its trimmed alias, or its name where
    /// the alias is missing or blank.
    pub fn display_name(&self) -> (n: String)
        ensures
            n@ == display_name_seq(*self),
    {
        match &self.alias {
            Some(a) => {
                let t = trim(a.as_str());
                if t.as_str().is_empty() { self.name.clone() } else { t }
            },
            None => self.name.clone(),
        }
    }
}

/// A named group of lights, by their ids.
#[derive(Debug, PartialEq)]
pub struct Group {
    pub name: String,
    pub members: Vec<String>,
}

impl Clone for Group {
    fn clone(&self) -> (r: Self)
        ensures
            r.name == self.name,
            r.members@ == self.members@,
    {
        Group { name: self.name.clone(), members: clone_strings(&self.members) }
    }
}

/// The daemon's health report.
#[derive(Debug, PartialEq)]
pub struct Health {
    pub version: String,
}

impl Clone for Health {
    fn clone(&self) -> (r: Self)
        ensures
            r == *self,
    {
        Health { version: self.version.clone() }
    }
}

/// A change to ask of the lights; an absent field is left as it is. `on` is
/// 1 to switch on and 0 to switch off. `hue` and `saturation` hold the bit
/// pattern of their `f32` value.
#[derive(Clone, Copy, Debug, PartialEq, Eq, Structural)]
pub struct UpdateRequest {
    pub on: Option<u8>,
    pub brightness: Option<u8>,
    pub kelvin: Option<u16>,
    pub hue: Option<u32>,
    pub saturation: Option<u32>,
}

impl Default for UpdateRequest {
    fn default() -> (r: Self)
        ensures
            r == UpdateRequest::nothing(),
    {
        UpdateRequest { on: None, brightness: None, kelvin: None, hue: None, saturation: None }
    }
}

/// `newer` where it is present, else `older`.
pub open spec fn prefer<T>(newer: Option<T>, older: Option<T>) -> Option<T> {
    match newer {
        Some(v) => Some(v),
        None => older,
    }
}

/// A later request laid over an earlier one: each field of `newer` that is
/// present wins, the others stay as in `older`.
pub open spec fn merged(older: UpdateRequest, newer: UpdateRequest) -> UpdateRequest {
    UpdateRequest {
        on: prefer(newer.on, older.on),
        brightness: prefer(newer.brightness, older.brightness),
        kelvin: prefer(newer.kelvin, older.kelvin),
        hue: prefer(newer.hue, older.hue),
        saturation: prefer(newer.saturation, older.saturation),
    }
}

fn prefer_exec<T: Copy>(newer: Option<T>, older: Option<T>) -> (r: Option<T>)
    ensures
        r == prefer(newer, older),
{
    match newer {
        Some(v) => Some(v),
        None => older,
    }
}

impl UpdateRequest {
    /// The request that changes nothing.
    pub open spec fn nothing() -> UpdateRequest {
        UpdateRequest { on: None, brightness: None, kelvin: None, hue: None, saturation: None }
    }

    /// Lays `newer` over this request: each field present in `newer` replaces
    /// the one here.
    pub fn merge(&mut self, newer: &UpdateRequest)
        ensures
            *final(self) == merged(*old(self), *newer),
    {
        self.on = prefer_exec(newer.on, self.on);
        self.brightness = prefer_exec(newer.brightness, self.brightness);
        self.kelvin = prefer_exec(newer.kelvin, self.kelvin);
        self.hue = prefer_exec(newer.hue, self.hue);
        self.saturation = prefer_exec(newer.saturation, self.saturation);
    }
}

/// Laying a request over the empty one gives that request; laying the empty
/// one over a request leaves it as it was.
pub proof fn lemma_merge_nothing(r: UpdateRequest)
    ensures
        merged(UpdateRequest::nothing(), r) == r,
        merged(r, UpdateRequest::nothing()) == r,
{
}

/// Merging is associative: folding three requests in order gives the same
/// result whichever pair is merged first.
pub proof fn lemma_merge_associative(a: UpdateRequest, b: UpdateRequest, c: UpdateRequest)
    ensures
        merged(merged(a, b), c) == merged(a, merged(b, c)),
{
}

/// Merging a request with itself changes nothing; merging the same newer
/// request twice is the same as merging it once.
pub proof fn lemma_merge_idempotent(a: UpdateRequest, b: UpdateRequest)
    ensures
        merged(a, a) == a,
        merged(merged(a, b), b) == merged(a, b),
{
}

/// A later request wins field by field: each field it sets is the merged
/// request's, and each it leaves out keeps the earlier request's value.
pub proof fn lemma_newer_request_wins(older: UpdateRequest, newer: UpdateRequest)
    ensures
        newer.on is Some ==> merged(older, newer).on == newer.on,
        newer.on is None ==> merged(older, newer).on == older.on,
        newer.brightness is Some ==> merged(older, newer).brightness == newer.brightness,
        newer.brightness is None ==> merged(older, newer).brightness == older.brightness,
        newer.kelvin is Some ==> merged(older, newer).kelvin == newer.kelvin,
        newer.kelvin is None ==> merged(older, newer).kelvin == older.kelvin,
        newer.hue is Some ==> merged(older, newer).hue == newer.hue,
        newer.hue is None ==> merged(older, newer).hue == older.hue,
        newer.saturation is Some ==> merged(older, newer).saturation == newer.saturation,
        newer.saturation is None ==> merged(older, newer).saturation == older.saturation,
{
}

/// The daemon's report on one light of an update.
#[derive(Debug, PartialEq)]
pub struct TargetResult {
    pub id: String,
    pub ok: bool,
    pub error: Option<String>,
    pub state: Option<Light>,
}

/// The daemon's answer to an update.
#[derive(Debug, PartialEq)]
pub struct UpdateResponse {
    pub ok: bool,
    pub results: Vec<TargetResult>,
}

/// A light's battery. `level` holds the bit pattern of its `f32` value.
#[derive(Clone, Copy, Debug, PartialEq, Eq, Structural)]
pub struct Battery {
    pub level: u32,
    pub status: u8,
}

impl Battery {
    /// Whether the battery is charging: status 2 or 3.
    pub fn is_charging(&self) -> (r: bool)
        ensures
            r == (self.status == 2 || self.status == 3),
    {
        self.status == 2 || self.status == 3
    }
}

/// Why a call to the daemon failed.
#[derive(Debug, PartialEq)]
pub enum ClientError {
    /// The daemon could not be reached.
    Unreachable(String),
    /// The daemon answered with an error status and message.
    Status(u16, String),
    /// The answer could not be read.
    Decode(String),
}

/// The text that describes an error.
pub open spec fn describe_error(e: ClientError) -> Seq<char> {
    match e {
        ClientError::Unreachable(why) => "daemon unreachable: "@ + why@,
        ClientError::Status(code, why) => "HTTP "@ + decimal_seq(code as nat) + ": "@ + why@,
        ClientError::Decode(why) => "bad response: "@ + why@,
    }
}

impl ClientError {
    /// The text that describes the error, as it is logged.
    pub fn to_string(&self) -> (s: String)
        ensures
            s@ == describe_error(*self),
    {
        match self {
            ClientError::Unreachable(why) => {
                let mut s = String::from_str("daemon unreachable: ");
                s.append(why.as_str());
                s
            },
            ClientError::Status(code, why) => {
                let mut s = String::from_str("HTTP ");
                let digits = decimal(*code as u64);
                s.append(digits.as_str());
                s.append(": ");
                s.append(why.as_str());
                s
            },
            ClientError::Decode(why) => {
                let mut s = String::from_str("bad response: ");
                s.append(why.as_str());
                s
            },
        }
    }
}

/// Whether a byte stays as it is in a URL path segment: an ASCII letter or
/// digit, or one of `-`, `_`, `.`, `~`.
pub open spec fn is_unreserved(b: u8) -> bool {
    ||| 0x30 <= b <= 0x39
    ||| 0x41 <= b <= 0x5a
    ||| 0x61 <= b <= 0x7a
    ||| b == 0x2d || b == 0x5f || b == 0x2e || b == 0x7e
}

/// How one byte is written in a path segment: itself, or `%` and two
/// upper-case hexadecimal digits.
pub open spec fn encode_byte(b: u8) -> Seq<char> {
    if is_unreserved(b) {
        seq![b as char]
    } else {
        seq!['%', hex_upper_char((b / 16) as nat), hex_upper_char((b % 16) as nat)]
    }
}

/// The percent-encoding of a byte string.
pub open spec fn encode_seq(bytes: Seq<u8>) -> Seq<char>
    decreases bytes.len(),
{
    if bytes.len() == 0 {
        Seq::<char>::empty()
    } else {
        encode_byte(bytes[0]) + encode_seq(bytes.drop_first())
    }
}

proof fn lemma_encode_push(bytes: Seq<u8>, b: u8)
    ensures
        encode_seq(bytes.push(b)) == encode_seq(bytes) + encode_byte(b),
    decreases bytes.len(),
{
    if bytes.len() == 0 {
        assert(bytes.push(b).drop_first() == Seq::<u8>::empty());
        assert(encode_seq(bytes.push(b)) == encode_byte(b) + encode_seq(Seq::<u8>::empty()));
        assert(encode_byte(b) + Seq::<char>::empty() == encode_byte(b));
    } else {
        assert(bytes.push(b).drop_first() == bytes.drop_first().push(b));
        lemma_encode_push(bytes.drop_first(), b);
        assert(bytes.push(b)[0] == bytes[0]);
        assert(encode_seq(bytes.push(b)) == encode_byte(bytes[0]) + (encode_seq(bytes.drop_first()) + encode_byte(b)));
    }
}

/// Percent-encodes `segment` for use as one URL path segment: every byte of
/// its UTF-8 form that is not an ASCII letter, digit, `-`, `_`, `.` or `~`
/// becomes `%XX`.
pub fn encode_segment(segment: &str) -> (out: String)
    ensures
        out@ == encode_seq(encode_utf8(segment@)),
{
    let bytes = segment.as_bytes();
    let mut out = String::new();
    for i in 0..bytes.len()
        invariant
            bytes@ == segment.spec_bytes(),
            out@ == encode_seq(bytes@.take(i as int)),
    {
        let b = bytes[i];
        proof {
            assert(bytes@.take(i + 1) == bytes@.take(i as int).push(b));
            lemma_encode_push(bytes@.take(i as int), b);
        }
        let keep = (0x30 <= b && b <= 0x39) || (0x41 <= b && b <= 0x5a) || (0x61 <= b && b <= 0x7a)
            || b == 0x2d || b == 0x5f || b == 0x2e || b == 0x7e;
        if keep {
            push_char(&mut out, b as char);
        } else {
            push_char(&mut out, '%');
            push_char(&mut out, hex_upper(b / 16));
            push_char(&mut out, hex_upper(b % 16));
        }
    }
    assert(bytes@.take(bytes@.len() as int) == bytes@);
    out
}

/// The value of an upper-case hexadecimal digit.
pub open spec fn hex_value(c: char) -> nat {
    let u = c as u32;
    if 0x30 <= u <= 0x39 { (u - 0x30) as nat } else { (u - 0x41 + 10) as nat }
}

/// Undoes percent-encoding: `%` and two digits stand for one byte, any other
/// character for its own code.
pub open spec fn decode_seq(s: Seq<char>) -> Seq<u8>
    decreases s.len(),
{
    if s.len() == 0 {
        Seq::<u8>::empty()
    } else if s[0] == '%' && s.len() >= 3 {
        seq![(hex_value(s[1]) * 16 + hex_value(s[2])) as u8] + decode_seq(s.subrange(3, s.len() as int))
    } else {
        seq![s[0] as u8] + decode_seq(s.drop_first())
    }
}

/// Percent-encoding loses nothing: decoding the encoding of any bytes gives
/// those bytes back.
pub proof fn lemma_encode_decode(bytes: Seq<u8>)
    ensures
        decode_seq(encode_seq(bytes)) == bytes,
    decreases bytes.len(),
{
    if bytes.len() > 0 {
        let b = bytes[0];
        let rest = encode_seq(bytes.drop_first());
        lemma_encode_decode(bytes.drop_first());
        let e = encode_byte(b) + rest;
        if is_unreserved(b) {
            assert(e[0] == b as char);
            assert(e.drop_first() == rest);
            assert((b as char) as u8 == b);
        } else {
            assert(e[0] == '%');
            assert(e.subrange(3, e.len() as int) == rest);
            let hi = (b / 16) as nat;
            let lo = (b % 16) as nat;
            assert(hex_value(hex_upper_char(hi)) == hi);
            assert(hex_value(hex_upper_char(lo)) == lo);
        }
        assert(bytes == seq![b] + bytes.drop_first());
    }
}

/// The path, under the API root, that addresses a target.
pub open spec fn target_path_seq(kind: Seq<char>, id: Seq<char>, id_bytes: Seq<u8>) -> Seq<char> {
    if kind == "light"@ {
        "/lights/"@ + encode_seq(id_bytes)
    } else if kind == "group"@ {
        "/groups/"@ + encode_seq(id_bytes)
    } else {
        "/all"@
    }
}

/// Whether a character may stand in an encoded path segment: an ASCII
/// letter or digit, one of `-_.~`, or the `%` that starts an escape.
pub open spec fn segment_char(c: char) -> bool {
    ||| '0' <= c <= '9'
    ||| 'A' <= c <= 'Z'
    ||| 'a' <= c <= 'z'
    ||| c == '-' || c == '_' || c == '.' || c == '~' || c == '%'
}

/// Path-segment encoding keeps ASCII letters, digits and `-_.~` as they
/// are and writes every other byte as `%` and two upper-case hexadecimal
/// digits, so an encoded segment holds no `/`, space or other character
/// that would change the path.
pub proof fn lemma_segment_encoding(b: u8, bytes: Seq<u8>)
    ensures
        (0x30 <= b <= 0x39 || 0x41 <= b <= 0x5a || 0x61 <= b <= 0x7a || b == 0x2d || b == 0x5f
            || b == 0x2e || b == 0x7e) ==> encode_byte(b) == seq![b as char],
        !(0x30 <= b <= 0x39 || 0x41 <= b <= 0x5a || 0x61 <= b <= 0x7a || b == 0x2d || b == 0x5f
            || b == 0x2e || b == 0x7e) ==> encode_byte(b).len() == 3 && encode_byte(b)[0] == '%'
            && hex_value(encode_byte(b)[1]) * 16 + hex_value(encode_byte(b)[2]) == b
            && ('0' <= encode_byte(b)[1] <= '9' || 'A' <= encode_byte(b)[1] <= 'F')
            && ('0' <= encode_byte(b)[2] <= '9' || 'A' <= encode_byte(b)[2] <= 'F'),
        forall|i: int| 0 <= i < encode_seq(bytes).len() ==> segment_char(#[trigger] encode_seq(bytes)[i]),
    decreases bytes.len(),
{
    if !is_unreserved(b) {
        let hi = (b / 16) as nat;
        let lo = (b % 16) as nat;
        assert(hex_value(hex_upper_char(hi)) == hi);
        assert(hex_value(hex_upper_char(lo)) == lo);
    }
    if bytes.len() > 0 {
        lemma_segment_encoding(bytes[0], bytes.drop_first());
        let h = encode_byte(bytes[0]);
        let t = encode_seq(bytes.drop_first());
        assert forall|i: int| 0 <= i < encode_seq(bytes).len() implies segment_char(#[trigger] encode_seq(bytes)[i]) by {
            assert(encode_seq(bytes) == h + t);
            if i < h.len() {
                assert(encode_seq(bytes)[i] == h[i]);
            } else {
                assert(encode_seq(bytes)[i] == t[i - h.len()]);
            }
        }
    }
}

/// The paths of the three kinds of target: `/lights/` or `/groups/`
/// followed by the encoded id, and `/all` for any other kind.
pub proof fn lemma_target_paths(kind: Seq<char>, id: Seq<char>, id_bytes: Seq<u8>)
    ensures
        target_path_seq("light"@, id, id_bytes) == "/lights/"@ + encode_seq(id_bytes),
        target_path_seq("group"@, id, id_bytes) == "/groups/"@ + encode_seq(id_bytes),
        kind != "light"@ && kind != "group"@ ==> target_path_seq(kind, id, id_bytes) == "/all"@,
{
    crate::settings::lemma_kind_names_differ();
}

/// The error statuses: every status from 400 up except 502; nothing below.
pub proof fn lemma_error_statuses(status: u16)
    ensures
        status < 400 ==> !is_error_status(status),
        status >= 400 && status != 502 ==> is_error_status(status),
        !is_error_status(502),
{
}

/// The text of each error: its kind, then its detail.
pub proof fn lemma_error_texts(why: String, code: u16)
    ensures
        describe_error(ClientError::Unreachable(why)) == "daemon unreachable: "@ + why@,
        describe_error(ClientError::Status(code, why)) == "HTTP "@ + decimal_seq(code as nat) + ": "@ + why@,
        describe_error(ClientError::Decode(why)) == "bad response: "@ + why@,
{
}

/// The API path for a target: `/lights/<id>`, `/groups/<name>` or `/all`.
pub fn target_path(target: &Target) -> (p: String)
    ensures
        p@ == target_path_seq(target.kind@, target.id@, encode_utf8(target.id@)),
{
    if same_text(target.kind.as_str(), "light") {
        let mut p = String::from_str("/lights/");
        let e = encode_segment(target.id.as_str());
        p.append(e.as_str());
        p
    } else if same_text(target.kind.as_str(), "group") {
        let mut p = String::from_str("/groups/");
        let e = encode_segment(target.id.as_str());
        p.append(e.as_str());
        p
    } else {
        String::from_str("/all")
    }
}

/// Whether an HTTP status is an error for this API: 400 and above, except
/// 502, which the daemon uses for an update that reached no light.
pub open spec fn is_error_status(status: u16) -> bool {
    status >= 400 && status != 502
}

/// What an answer with this status means: `None` where it is no error,
/// else the error with the message of the body's `error` field where it has
/// one (`error_field`), or the whole body.
pub fn check_status(status: u16, body: String, error_field: Option<String>) -> (r: Option<ClientError>)
    ensures
        !is_error_status(status) ==> r is None,
        is_error_status(status) ==> r == Some(ClientError::Status(
            status,
            match error_field { Some(m) => m, None => body },
        )),
{
    if status >= 400 && status != 502 {
        let message = match error_field {
            Some(m) => m,
            None => body,
        };
        Some(ClientError::Status(status, message))
    } else {
        None
    }
}

/// What a battery lookup gives: a battery, `None` where the daemon answers
/// 404 (the light has none), or the error.
pub fn battery_outcome(result: Result<Battery, ClientError>) -> (r: Result<Option<Battery>, ClientError>)
    ensures
        match result {
            Ok(b) => r == Ok::<Option<Battery>, ClientError>(Some(b)),
            Err(ClientError::Status(404, _)) => r == Ok::<Option<Battery>, ClientError>(None),
            Err(e) => r == Err::<Option<Battery>, ClientError>(e),
        },
{
    match result {
        Ok(b) => Ok(Some(b)),
        Err(ClientError::Status(404, m)) => {
            let _ = m;
            Ok(None)
        },
        Err(e) => Err(e),
    }
}

} // verus!
