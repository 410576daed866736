//! Gateway requests, built without any I/O.
//!
//! Every builder states the exact request it produces: method, path, JSON
//! body and whether it is an observation; the fallible ones state on which
//! inputs they fail and with which error.
use vstd::prelude::*;
use vstd::string::*;
use crate::json::{entries_view, json_get, json_uint, lookup_entries, Json, JsonValue};
use crate::text::{debug_quoted, debug_text, decimal, decimal_text, text3};
use crate::protocol::{AIR_PURIFIER_FAN_RANGE, AIR_PURIFIER_MODE_AUTO, ATTR_AIR_PURIFIER_CONTROLS_LOCKED, ATTR_AIR_PURIFIER_LEDS_OFF, ATTR_AIR_PURIFIER_MODE, ATTR_BLIND_CURRENT_POSITION, ATTR_BLIND_TRIGGER, ATTR_CLIENT_IDENTITY, ATTR_DEVICE_STATE, ATTR_LIGHT_COLOR_HEX, ATTR_LIGHT_COLOR_HUE, ATTR_LIGHT_COLOR_SATURATION, ATTR_LIGHT_COLOR_X, ATTR_LIGHT_COLOR_Y, ATTR_LIGHT_CONTROL, ATTR_LIGHT_DIMMER, ATTR_LIGHT_MIREDS, ATTR_SOCKET_CONTROL, ATTR_TRANSITION_TIME, BLIND_POSITION_RANGE, BRIGHTNESS_RANGE, HUE_RANGE, MIRED_RANGE, ROOT_AIR_PURIFIER, ROOT_BLINDS, ROOT_DEVICES, ROOT_GROUPS, SATURATION_RANGE, XY_RANGE, auth_path, auth_path_spec, device_path, device_path_spec, group_path, group_path_spec};

verus! {

#[derive(Clone, Copy, PartialEq, Eq, Structural, Debug)]
pub enum Method {
    Get,
    Put,
    Post,
}

#[derive(Clone, PartialEq, Debug)]
pub struct Command {
    pub method: Method,
    pub path: String,
    pub body: Option<JsonValue>,
    pub observe: bool,
}

/// Model of a command.
pub struct CommandView {
    pub method: Method,
    pub path: Seq<char>,
    pub body: Option<Json>,
    pub observe: bool,
}

impl View for Command {
    type V = CommandView;

    open spec fn view(&self) -> CommandView {
        CommandView {
            method: self.method,
            path: self.path@,
            body: match self.body {
                Some(b) => Some(b@),
                None => None,
            },
            observe: self.observe,
        }
    }
}

/// A read of `path`.
pub open spec fn get_view(path: Seq<char>) -> CommandView {
    CommandView { method: Method::Get, path, body: None, observe: false }
}

/// An observation of `path`.
pub open spec fn observe_view(path: Seq<char>) -> CommandView {
    CommandView { method: Method::Get, path, body: None, observe: true }
}

/// A write of `body` to `path`.
pub open spec fn put_view(path: Seq<char>, body: Json) -> CommandView {
    CommandView { method: Method::Put, path, body: Some(body), observe: false }
}

/// A creation request with `body` at `path`.
pub open spec fn post_view(path: Seq<char>, body: Json) -> CommandView {
    CommandView { method: Method::Post, path, body: Some(body), observe: false }
}

impl Command {
    pub fn get(path: &str) -> (r: Self)
        ensures
            r@ == get_view(path@),
    {
        Command { method: Method::Get, path: path.to_owned(), body: None, observe: false }
    }

    pub fn put(path: &str, body: JsonValue) -> (r: Self)
        ensures
            r@ == put_view(path@, body@),
    {
        Command { method: Method::Put, path: path.to_owned(), body: Some(body), observe: false }
    }

    pub fn post(path: &str, body: JsonValue) -> (r: Self)
        ensures
            r@ == post_view(path@, body@),
    {
        Command { method: Method::Post, path: path.to_owned(), body: Some(body), observe: false }
    }

    /// The same command, as an observation.
    pub fn observed(self) -> (r: Self)
        ensures
            r@ == (CommandView { observe: true, ..self@ }),
    {
        let mut c = self;
        c.observe = true;
        c
    }
}

#[derive(Clone, PartialEq, Eq, Debug)]
pub enum CommandError {
    Brightness(u16),
    ColorTemperature(u16),
    Hue(u16),
    Saturation(u16),
    ColorX(u16),
    ColorY(u16),
    BlindPosition(u8),
    AirPurifierFanSpeed(u8),
    HexColor(String),
}

/// The text of a command error, as the error's `Display` renders it.
pub open spec fn command_message(e: CommandError) -> Seq<char> {
    match e {
        CommandError::Brightness(v) => "brightness "@ + decimal(v as nat)
            + " is outside the TRADFRI range 0..=254"@,
        CommandError::ColorTemperature(v) => "color temperature "@ + decimal(v as nat)
            + " is outside the TRADFRI range 250..=454 mired"@,
        CommandError::Hue(v) => "hue "@ + decimal(v as nat)
            + " is outside the TRADFRI range 0..=65535"@,
        CommandError::Saturation(v) => "saturation "@ + decimal(v as nat)
            + " is outside the TRADFRI range 0..=65279"@,
        CommandError::ColorX(v) => "x color coordinate "@ + decimal(v as nat)
            + " is outside the TRADFRI range 0..=65535"@,
        CommandError::ColorY(v) => "y color coordinate "@ + decimal(v as nat)
            + " is outside the TRADFRI range 0..=65535"@,
        CommandError::BlindPosition(v) => "blind position "@ + decimal(v as nat)
            + " is outside the TRADFRI range 0..=100"@,
        CommandError::AirPurifierFanSpeed(v) => "air purifier fan speed "@ + decimal(v as nat)
            + " is outside the TRADFRI range 2..=50"@,
        CommandError::HexColor(c) => "light color must be exactly six hexadecimal digits, got "@
            + debug_quoted(c@),
    }
}

impl CommandError {
    /// The text of the error.
    pub fn message(&self) -> (r: String)
        ensures
            r@ == command_message(*self),
    {
        match self {
            CommandError::Brightness(v) => text3(
                "brightness ",
                decimal_text(*v as u64).as_str(),
                " is outside the TRADFRI range 0..=254",
            ),
            CommandError::ColorTemperature(v) => text3(
                "color temperature ",
                decimal_text(*v as u64).as_str(),
                " is outside the TRADFRI range 250..=454 mired",
            ),
            CommandError::Hue(v) => text3(
                "hue ",
                decimal_text(*v as u64).as_str(),
                " is outside the TRADFRI range 0..=65535",
            ),
            CommandError::Saturation(v) => text3(
                "saturation ",
                decimal_text(*v as u64).as_str(),
                " is outside the TRADFRI range 0..=65279",
            ),
            CommandError::ColorX(v) => text3(
                "x color coordinate ",
                decimal_text(*v as u64).as_str(),
                " is outside the TRADFRI range 0..=65535",
            ),
            CommandError::ColorY(v) => text3(
                "y color coordinate ",
                decimal_text(*v as u64).as_str(),
                " is outside the TRADFRI range 0..=65535",
            ),
            CommandError::BlindPosition(v) => text3(
                "blind position ",
                decimal_text(*v as u64).as_str(),
                " is outside the TRADFRI range 0..=100",
            ),
            CommandError::AirPurifierFanSpeed(v) => text3(
                "air purifier fan speed ",
                decimal_text(*v as u64).as_str(),
                " is outside the TRADFRI range 2..=50",
            ),
            CommandError::HexColor(c) => {
                let mut r = String::from_str(
                    "light color must be exactly six hexadecimal digits, got ",
                );
                r.append(debug_text(c.as_str()).as_str());
                r
            },
        }
    }
}

/// `value` lies in the inclusive range `range`.
pub open spec fn in_range(value: int, range: (u16, u16)) -> bool {
    range.0 <= value <= range.1
}

/// The body of a write to the first endpoint below `endpoint`.
pub open spec fn endpoint_body(endpoint: Seq<char>, fields: Seq<(Seq<char>, Json)>) -> Json {
    Json::Object(seq![(endpoint, Json::Array(seq![Json::Object(fields)]))])
}

/// An on/off flag, as the gateway encodes it: `1` or `0`.
pub open spec fn flag(on: bool) -> Json {
    json_uint(if on { 1 } else { 0 })
}

/// The optional transition-time field.
pub open spec fn transition_fields(transition_time: Option<u16>) -> Seq<(Seq<char>, Json)> {
    match transition_time {
        Some(t) => seq![(ATTR_TRANSITION_TIME@, json_uint(t as nat))],
        None => Seq::empty(),
    }
}

/// A write to the device endpoint `endpoint` of `device_id`.
pub open spec fn device_write(
    device_id: u32,
    endpoint: Seq<char>,
    fields: Seq<(Seq<char>, Json)>,
) -> CommandView {
    put_view(device_path_spec(device_id as nat), endpoint_body(endpoint, fields))
}

/// A write of `fields` directly to the group `group_id`.
pub open spec fn group_write(group_id: u32, fields: Seq<(Seq<char>, Json)>) -> CommandView {
    put_view(group_path_spec(group_id as nat), Json::Object(fields))
}

fn entry(key: &str, value: JsonValue) -> (r: (String, JsonValue))
    ensures
        r.0@ == key@,
        r.1@ == value@,
{
    (key.to_owned(), value)
}

fn push_entry(values: &mut Vec<(String, JsonValue)>, key: &str, value: JsonValue)
    ensures
        entries_view(final(values)@) == entries_view(old(values)@).push((key@, value@)),
{
    let e = entry(key, value);
    values.push(e);
    assert(entries_view(values@) =~= entries_view(old(values)@).push((key@, value@)));
}

fn flag_value(on: bool) -> (r: JsonValue)
    ensures
        r@ == flag(on),
{
    JsonValue::from_u64(if on { 1 } else { 0 })
}

fn push_transition(values: &mut Vec<(String, JsonValue)>, transition_time: Option<u16>)
    ensures
        entries_view(final(values)@) == entries_view(old(values)@) + transition_fields(
            transition_time,
        ),
{
    if let Some(transition_time) = transition_time {
        push_entry(values, ATTR_TRANSITION_TIME, JsonValue::from_u64(transition_time as u64));
    } else {
        assert(entries_view(values@) =~= entries_view(old(values)@) + transition_fields(
            transition_time,
        ));
    }
}

fn single(key: &str, value: JsonValue) -> (r: Vec<(String, JsonValue)>)
    ensures
        entries_view(r@) == seq![(key@, value@)],
{
    let mut values: Vec<(String, JsonValue)> = Vec::new();
    push_entry(&mut values, key, value);
    assert(entries_view(Seq::<(String, JsonValue)>::empty()) =~= Seq::empty());
    values
}

fn endpoint_put(path: String, endpoint: &str, values: Vec<(String, JsonValue)>) -> (r: Command)
    ensures
        r@ == put_view(path@, endpoint_body(endpoint@, entries_view(values@))),
{
    let endpoint_values = JsonValue::object(values);
    let mut items: Vec<JsonValue> = Vec::new();
    items.push(endpoint_values);
    let array = JsonValue::array(items);
    assert(crate::json::items_view(items@) =~= seq![endpoint_values@]);
    let body = JsonValue::object(single(endpoint, array));
    Command::put(path.as_str(), body)
}

fn direct_put(path: String, values: Vec<(String, JsonValue)>) -> (r: Command)
    ensures
        r@ == put_view(path@, Json::Object(entries_view(values@))),
{
    Command::put(path.as_str(), JsonValue::object(values))
}

fn device_put(device_id: u32, endpoint: &str, values: Vec<(String, JsonValue)>) -> (r: Command)
    ensures
        r@ == device_write(device_id, endpoint@, entries_view(values@)),
{
    endpoint_put(device_path(device_id), endpoint, values)
}

fn air_purifier_put(device_id: u32, key: &str, value: JsonValue) -> (r: Command)
    ensures
        r@ == device_write(device_id, ROOT_AIR_PURIFIER@, seq![(key@, value@)]),
{
    device_put(device_id, ROOT_AIR_PURIFIER, single(key, value))
}

/// Accepts `value` when it lies in `range`, else fails with `error`.
pub fn validate_u16(value: u16, range: (u16, u16), error: CommandError) -> (r: Result<
    (),
    CommandError,
>)
    ensures
        r is Ok <==> in_range(value as int, range),
        r matches Err(e) ==> e == error,
{
    if range.0 <= value && value <= range.1 {
        Ok(())
    } else {
        Err(error)
    }
}

/// `s` without one leading `#`.
pub open spec fn strip_hash(s: Seq<char>) -> Seq<char> {
    if s.len() > 0 && s[0] == '#' {
        s.drop_first()
    } else {
        s
    }
}

/// An ASCII hexadecimal digit.
pub open spec fn is_hex_digit(c: char) -> bool {
    ||| 48 <= (c as int) <= 57
    ||| 65 <= (c as int) <= 70
    ||| 97 <= (c as int) <= 102
}

/// ASCII lower-casing of one character.
pub open spec fn ascii_lower(c: char) -> char {
    if 65 <= (c as int) <= 90 {
        ((c as int) + 32) as char
    } else {
        c
    }
}

/// `color`, without a leading `#`, is exactly six hexadecimal digits.
pub open spec fn valid_hex_color(color: Seq<char>) -> bool {
    &&& strip_hash(color).len() == 6
    &&& forall|i: int| 0 <= i < 6 ==> is_hex_digit(#[trigger] strip_hash(color)[i])
}

/// The normalized form of a valid color: without `#`, in lower case.
pub open spec fn normalized_hex_color(color: Seq<char>) -> Seq<char> {
    strip_hash(color).map_values(|c: char| ascii_lower(c))
}

fn hex_digit(c: char) -> (r: bool)
    ensures
        r == is_hex_digit(c),
{
    let v = c as u32;
    (48 <= v && v <= 57) || (65 <= v && v <= 70) || (97 <= v && v <= 102)
}

fn lower(c: char) -> (r: char)
    requires
        is_hex_digit(c),
    ensures
        r == ascii_lower(c),
{
    let v = c as u32;
    if 65 <= v && v <= 90 {
        ((v as u8) + 32) as char
    } else {
        c
    }
}

/// Strips one leading `#`, checks for six hexadecimal digits and lower-cases them.
pub fn normalize_hex_color(color: &str) -> (r: Result<String, CommandError>)
    ensures
        r is Ok <==> valid_hex_color(color@),
        r matches Ok(n) ==> n@ == normalized_hex_color(color@),
        r matches Err(e) ==> e matches CommandError::HexColor(c) && c@ == color@,
{
    let len = color.unicode_len();
    let normalized = if len > 0 && color.get_char(0) == '#' {
        color.substring_char(1, len)
    } else {
        color.substring_char(0, len)
    };
    assert(color@.subrange(0, len as int) =~= color@);
    assert(color@.subrange(1, len as int) =~= color@.drop_first());
    assert(normalized@ == strip_hash(color@));
    let n = normalized.unicode_len();
    if n != 6 {
        return Err(CommandError::HexColor(color.to_owned()));
    }
    let mut out = String::new();
    let mut i: usize = 0;
    while i < 6
        invariant
            n == 6,
            normalized@ == strip_hash(color@),
            normalized@.len() == 6,
            i <= 6,
            forall|k: int| 0 <= k < i ==> is_hex_digit(#[trigger] normalized@[k]),
            out@ == normalized@.subrange(0, i as int).map_values(|c: char| ascii_lower(c)),
        decreases 6 - i,
    {
        let c = normalized.get_char(i);
        if !hex_digit(c) {
            return Err(CommandError::HexColor(color.to_owned()));
        }
        let ghost before = out@;
        crate::text::push_char(&mut out, lower(c));
        assert(normalized@.subrange(0, i + 1).map_values(|c: char| ascii_lower(c))
            =~= before.push(ascii_lower(c)));
        i = i + 1;
    }
    assert(normalized@.subrange(0, 6) =~= normalized@);
    Ok(out)
}

pub fn list_devices() -> (r: Command)
    ensures
        r@ == get_view(ROOT_DEVICES@),
{
    Command::get(ROOT_DEVICES)
}

pub fn get_device(device_id: u32) -> (r: Command)
    ensures
        r@ == get_view(device_path_spec(device_id as nat)),
{
    Command::get(device_path(device_id).as_str())
}

pub fn observe_device(device_id: u32) -> (r: Command)
    ensures
        r@ == observe_view(device_path_spec(device_id as nat)),
{
    Command::get(device_path(device_id).as_str()).observed()
}

pub fn list_groups() -> (r: Command)
    ensures
        r@ == get_view(ROOT_GROUPS@),
{
    Command::get(ROOT_GROUPS)
}

pub fn get_group(group_id: u32) -> (r: Command)
    ensures
        r@ == get_view(group_path_spec(group_id as nat)),
{
    Command::get(group_path(group_id).as_str())
}

pub fn observe_group(group_id: u32) -> (r: Command)
    ensures
        r@ == observe_view(group_path_spec(group_id as nat)),
{
    Command::get(group_path(group_id).as_str()).observed()
}

/// Build the first-time credential provisioning request.
///
/// The transport layer must open this request using the gateway's printed
/// security code with the fixed `Client_identity` DTLS identity. The response
/// contains the long-lived PSK under attribute `9091`.
pub fn provision_identity(identity: &str) -> (r: Command)
    ensures
        r@ == post_view(
            auth_path_spec(),
            Json::Object(seq![(ATTR_CLIENT_IDENTITY@, Json::Str(identity@))]),
        ),
{
    let body = JsonValue::object(single(ATTR_CLIENT_IDENTITY, JsonValue::from_text(identity)));
    Command::post(auth_path().as_str(), body)
}

pub fn set_light_state(device_id: u32, on: bool) -> (r: Command)
    ensures
        r@ == device_write(device_id, ATTR_LIGHT_CONTROL@, seq![(ATTR_DEVICE_STATE@, flag(on))]),
{
    device_put(device_id, ATTR_LIGHT_CONTROL, single(ATTR_DEVICE_STATE, flag_value(on)))
}

/// Build a light brightness command.
///
/// Fails when `brightness` is outside `0..=254`.
pub fn set_light_brightness(device_id: u32, brightness: u16, transition_time: Option<u16>) -> (r:
    Result<Command, CommandError>)
    ensures
        r is Ok <==> in_range(brightness as int, BRIGHTNESS_RANGE),
        r matches Ok(c) ==> c@ == device_write(
            device_id,
            ATTR_LIGHT_CONTROL@,
            seq![(ATTR_LIGHT_DIMMER@, json_uint(brightness as nat))] + transition_fields(
                transition_time,
            ),
        ),
        r matches Err(e) ==> e == CommandError::Brightness(brightness),
        r matches Ok(c) ==> light_field(c@, ATTR_TRANSITION_TIME@) == optional_uint(
            transition_time,
        ),
{
    validate_u16(brightness, BRIGHTNESS_RANGE, CommandError::Brightness(brightness))?;
    let mut values = single(ATTR_LIGHT_DIMMER, JsonValue::from_u64(brightness as u64));
    push_transition(&mut values, transition_time);
    proof {
        lemma_light_keys_differ();
        lemma_lookup_single(ATTR_LIGHT_DIMMER@, json_uint(brightness as nat), ATTR_TRANSITION_TIME@);
        lemma_light_transition(
            device_id,
            seq![(ATTR_LIGHT_DIMMER@, json_uint(brightness as nat))],
            transition_time,
        );
    }
    Ok(device_put(device_id, ATTR_LIGHT_CONTROL, values))
}

/// Build a light color-temperature command.
///
/// Fails when `mireds` is outside `250..=454`.
pub fn set_light_color_temperature(
    device_id: u32,
    mireds: u16,
    transition_time: Option<u16>,
) -> (r: Result<Command, CommandError>)
    ensures
        r is Ok <==> in_range(mireds as int, MIRED_RANGE),
        r matches Ok(c) ==> c@ == device_write(
            device_id,
            ATTR_LIGHT_CONTROL@,
            seq![(ATTR_LIGHT_MIREDS@, json_uint(mireds as nat))] + transition_fields(
                transition_time,
            ),
        ),
        r matches Err(e) ==> e == CommandError::ColorTemperature(mireds),
        r matches Ok(c) ==> light_field(c@, ATTR_TRANSITION_TIME@) == optional_uint(
            transition_time,
        ),
{
    validate_u16(mireds, MIRED_RANGE, CommandError::ColorTemperature(mireds))?;
    let mut values = single(ATTR_LIGHT_MIREDS, JsonValue::from_u64(mireds as u64));
    push_transition(&mut values, transition_time);
    proof {
        lemma_light_keys_differ();
        lemma_lookup_single(ATTR_LIGHT_MIREDS@, json_uint(mireds as nat), ATTR_TRANSITION_TIME@);
        lemma_light_transition(
            device_id,
            seq![(ATTR_LIGHT_MIREDS@, json_uint(mireds as nat))],
            transition_time,
        );
    }
    Ok(device_put(device_id, ATTR_LIGHT_CONTROL, values))
}

/// Build a light hexadecimal-color command.
///
/// Fails unless `color` holds exactly six hexadecimal digits (after one
/// optional leading `#`).
pub fn set_light_hex_color(device_id: u32, color: &str, transition_time: Option<u16>) -> (r:
    Result<Command, CommandError>)
    ensures
        r is Ok <==> valid_hex_color(color@),
        r matches Ok(c) ==> c@ == device_write(
            device_id,
            ATTR_LIGHT_CONTROL@,
            seq![(ATTR_LIGHT_COLOR_HEX@, Json::Str(normalized_hex_color(color@)))]
                + transition_fields(transition_time),
        ),
        r matches Err(e) ==> e matches CommandError::HexColor(c) && c@ == color@,
        r matches Ok(c) ==> light_field(c@, ATTR_TRANSITION_TIME@) == optional_uint(
            transition_time,
        ),
{
    let ghost given = color@;
    let color = normalize_hex_color(color)?;
    let mut values = single(ATTR_LIGHT_COLOR_HEX, JsonValue::String(color));
    push_transition(&mut values, transition_time);
    proof {
        lemma_light_keys_differ();
        lemma_lookup_single(
            ATTR_LIGHT_COLOR_HEX@,
            Json::Str(normalized_hex_color(given)),
            ATTR_TRANSITION_TIME@,
        );
        lemma_light_transition(
            device_id,
            seq![(ATTR_LIGHT_COLOR_HEX@, Json::Str(normalized_hex_color(given)))],
            transition_time,
        );
    }
    Ok(device_put(device_id, ATTR_LIGHT_CONTROL, values))
}

/// Build a light XY-color command.
///
/// Fails when either coordinate is outside the gateway range.
pub fn set_light_xy_color(device_id: u32, x: u16, y: u16, transition_time: Option<u16>) -> (r:
    Result<Command, CommandError>)
    ensures
        r is Ok <==> in_range(x as int, XY_RANGE) && in_range(y as int, XY_RANGE),
        r matches Ok(c) ==> c@ == device_write(
            device_id,
            ATTR_LIGHT_CONTROL@,
            seq![
                (ATTR_LIGHT_COLOR_X@, json_uint(x as nat)),
                (ATTR_LIGHT_COLOR_Y@, json_uint(y as nat)),
            ] + transition_fields(transition_time),
        ),
        r matches Err(e) ==> if !in_range(x as int, XY_RANGE) {
            e == CommandError::ColorX(x)
        } else {
            e == CommandError::ColorY(y)
        },
        r matches Ok(c) ==> light_field(c@, ATTR_TRANSITION_TIME@) == optional_uint(
            transition_time,
        ),
{
    validate_u16(x, XY_RANGE, CommandError::ColorX(x))?;
    validate_u16(y, XY_RANGE, CommandError::ColorY(y))?;
    let mut values = single(ATTR_LIGHT_COLOR_X, JsonValue::from_u64(x as u64));
    push_entry(&mut values, ATTR_LIGHT_COLOR_Y, JsonValue::from_u64(y as u64));
    push_transition(&mut values, transition_time);
    assert(entries_view(values@) =~= seq![
        (ATTR_LIGHT_COLOR_X@, json_uint(x as nat)),
        (ATTR_LIGHT_COLOR_Y@, json_uint(y as nat)),
    ] + transition_fields(transition_time));
    proof {
        let xe = seq![(ATTR_LIGHT_COLOR_X@, json_uint(x as nat))];
        let ye = seq![(ATTR_LIGHT_COLOR_Y@, json_uint(y as nat))];
        lemma_light_keys_differ();
        assert(xe + ye =~= seq![
            (ATTR_LIGHT_COLOR_X@, json_uint(x as nat)),
            (ATTR_LIGHT_COLOR_Y@, json_uint(y as nat)),
        ]);
        lemma_lookup_concat(xe, ye, ATTR_TRANSITION_TIME@);
        lemma_lookup_single(ATTR_LIGHT_COLOR_X@, json_uint(x as nat), ATTR_TRANSITION_TIME@);
        lemma_lookup_single(ATTR_LIGHT_COLOR_Y@, json_uint(y as nat), ATTR_TRANSITION_TIME@);
        lemma_light_transition(device_id, xe + ye, transition_time);
    }
    Ok(device_put(device_id, ATTR_LIGHT_CONTROL, values))
}

/// The fields of a light HSB command.
pub open spec fn hsb_fields(
    hue: u16,
    saturation: u16,
    brightness: Option<u16>,
    transition_time: Option<u16>,
) -> Seq<(Seq<char>, Json)> {
    seq![
        (ATTR_LIGHT_COLOR_HUE@, json_uint(hue as nat)),
        (ATTR_LIGHT_COLOR_SATURATION@, json_uint(saturation as nat)),
    ] + match brightness {
        Some(b) => seq![(ATTR_LIGHT_DIMMER@, json_uint(b as nat))],
        None => Seq::empty(),
    } + transition_fields(transition_time)
}

/// The value of `key` in the endpoint object of a light write: the first
/// object listed under `3311` in the command's body.
pub open spec fn light_field(c: CommandView, key: Seq<char>) -> Option<Json> {
    match c.body {
        Some(body) => match json_get(body, ATTR_LIGHT_CONTROL@) {
            Some(Json::Array(items)) => if items.len() > 0 {
                json_get(items[0], key)
            } else {
                None
            },
            _ => None,
        },
        None => None,
    }
}

/// The value of `key` in the object a group write sends.
pub open spec fn group_field(c: CommandView, key: Seq<char>) -> Option<Json> {
    match c.body {
        Some(body) => json_get(body, key),
        None => None,
    }
}

/// An optional number as the field it gives, if any.
pub open spec fn optional_uint(v: Option<u16>) -> Option<Json> {
    match v {
        Some(x) => Some(json_uint(x as nat)),
        None => None,
    }
}

proof fn lemma_lookup_concat(a: Seq<(Seq<char>, Json)>, b: Seq<(Seq<char>, Json)>, k: Seq<char>)
    ensures
        lookup_entries(a + b, k) == match lookup_entries(a, k) {
            Some(v) => Some(v),
            None => lookup_entries(b, k),
        },
    decreases a.len(),
{
    if a.len() > 0 {
        assert((a + b).drop_first() =~= a.drop_first() + b);
        assert((a + b)[0] == a[0]);
        lemma_lookup_concat(a.drop_first(), b, k);
    } else {
        assert(a + b =~= b);
    }
}

proof fn lemma_lookup_single(key: Seq<char>, value: Json, k: Seq<char>)
    ensures
        lookup_entries(seq![(key, value)], k) == if k == key {
            Some(value)
        } else {
            None
        },
{
    let s = seq![(key, value)];
    assert(s.drop_first() =~= Seq::<(Seq<char>, Json)>::empty());
    assert(lookup_entries(s.drop_first(), k) is None);
    assert(s[0] == (key, value));
}

/// A light write carries exactly the fields it was built from.
proof fn lemma_light_field(device_id: u32, fields: Seq<(Seq<char>, Json)>, key: Seq<char>)
    ensures
        light_field(device_write(device_id, ATTR_LIGHT_CONTROL@, fields), key) == lookup_entries(
            fields,
            key,
        ),
{
    let items = seq![Json::Object(fields)];
    lemma_lookup_single(ATTR_LIGHT_CONTROL@, Json::Array(items), ATTR_LIGHT_CONTROL@);
}

/// The transition field appended to fields that hold none is found with the
/// transition time, and only when one was given.
proof fn lemma_transition_found(fields: Seq<(Seq<char>, Json)>, transition_time: Option<u16>)
    requires
        lookup_entries(fields, ATTR_TRANSITION_TIME@) is None,
    ensures
        lookup_entries(fields + transition_fields(transition_time), ATTR_TRANSITION_TIME@)
            == optional_uint(transition_time),
{
    lemma_lookup_concat(fields, transition_fields(transition_time), ATTR_TRANSITION_TIME@);
    match transition_time {
        Some(t) => lemma_lookup_single(
            ATTR_TRANSITION_TIME@,
            json_uint(t as nat),
            ATTR_TRANSITION_TIME@,
        ),
        None => {},
    }
}

/// The light attribute keys are pairwise different.
proof fn lemma_light_keys_differ()
    ensures
        ATTR_LIGHT_COLOR_HUE@ != ATTR_LIGHT_COLOR_SATURATION@,
        ATTR_LIGHT_COLOR_HUE@ != ATTR_LIGHT_DIMMER@,
        ATTR_LIGHT_COLOR_HUE@ != ATTR_TRANSITION_TIME@,
        ATTR_LIGHT_COLOR_SATURATION@ != ATTR_LIGHT_DIMMER@,
        ATTR_LIGHT_COLOR_SATURATION@ != ATTR_TRANSITION_TIME@,
        ATTR_LIGHT_DIMMER@ != ATTR_TRANSITION_TIME@,
        ATTR_LIGHT_MIREDS@ != ATTR_TRANSITION_TIME@,
        ATTR_LIGHT_COLOR_HEX@ != ATTR_TRANSITION_TIME@,
        ATTR_LIGHT_COLOR_X@ != ATTR_TRANSITION_TIME@,
        ATTR_LIGHT_COLOR_Y@ != ATTR_TRANSITION_TIME@,
{
    reveal_strlit("5707");
    reveal_strlit("5708");
    reveal_strlit("5851");
    reveal_strlit("5712");
    reveal_strlit("5711");
    reveal_strlit("5706");
    reveal_strlit("5709");
    reveal_strlit("5710");
    assert("5707"@[3] != "5708"@[3]);
    assert("5707"@[1] != "5851"@[1]);
    assert("5707"@[2] != "5712"@[2]);
    assert("5708"@[1] != "5851"@[1]);
    assert("5708"@[2] != "5712"@[2]);
    assert("5851"@[1] != "5712"@[1]);
    assert("5711"@[3] != "5712"@[3]);
    assert("5706"@[2] != "5712"@[2]);
    assert("5709"@[2] != "5712"@[2]);
    assert("5710"@[3] != "5712"@[3]);
}

/// A transition time given to a light write built from `base` (which has no
/// transition field of its own) is carried as field `5712`; none is carried
/// when none is given.
pub proof fn lemma_light_transition(
    device_id: u32,
    base: Seq<(Seq<char>, Json)>,
    transition_time: Option<u16>,
)
    requires
        lookup_entries(base, ATTR_TRANSITION_TIME@) is None,
    ensures
        light_field(
            device_write(device_id, ATTR_LIGHT_CONTROL@, base + transition_fields(transition_time)),
            ATTR_TRANSITION_TIME@,
        ) == optional_uint(transition_time),
{
    lemma_light_field(device_id, base + transition_fields(transition_time), ATTR_TRANSITION_TIME@);
    lemma_transition_found(base, transition_time);
}

/// A light HSB write sends the hue and the saturation, the brightness exactly
/// when one is given, and the transition time exactly when one is given,
/// each with its value; the brightness does not decide the transition.
pub proof fn lemma_light_hsb_law(
    device_id: u32,
    hue: u16,
    saturation: u16,
    brightness: Option<u16>,
    transition_time: Option<u16>,
)
    ensures
        light_field(
            device_write(
                device_id,
                ATTR_LIGHT_CONTROL@,
                hsb_fields(hue, saturation, brightness, transition_time),
            ),
            ATTR_LIGHT_COLOR_HUE@,
        ) == Some(json_uint(hue as nat)),
        light_field(
            device_write(
                device_id,
                ATTR_LIGHT_CONTROL@,
                hsb_fields(hue, saturation, brightness, transition_time),
            ),
            ATTR_LIGHT_COLOR_SATURATION@,
        ) == Some(json_uint(saturation as nat)),
        light_field(
            device_write(
                device_id,
                ATTR_LIGHT_CONTROL@,
                hsb_fields(hue, saturation, brightness, transition_time),
            ),
            ATTR_LIGHT_DIMMER@,
        ) == optional_uint(brightness),
        light_field(
            device_write(
                device_id,
                ATTR_LIGHT_CONTROL@,
                hsb_fields(hue, saturation, brightness, transition_time),
            ),
            ATTR_TRANSITION_TIME@,
        ) == optional_uint(transition_time),
{
    lemma_light_keys_differ();
    let hs = seq![
        (ATTR_LIGHT_COLOR_HUE@, json_uint(hue as nat)),
        (ATTR_LIGHT_COLOR_SATURATION@, json_uint(saturation as nat)),
    ];
    let bf: Seq<(Seq<char>, Json)> = match brightness {
        Some(b) => seq![(ATTR_LIGHT_DIMMER@, json_uint(b as nat))],
        None => Seq::empty(),
    };
    let tf = transition_fields(transition_time);
    let fields = hsb_fields(hue, saturation, brightness, transition_time);
    assert(fields == hs + bf + tf);
    assert(hs =~= seq![(ATTR_LIGHT_COLOR_HUE@, json_uint(hue as nat))] + seq![
        (ATTR_LIGHT_COLOR_SATURATION@, json_uint(saturation as nat)),
    ]);
    let keys = seq![
        ATTR_LIGHT_COLOR_HUE@,
        ATTR_LIGHT_COLOR_SATURATION@,
        ATTR_LIGHT_DIMMER@,
        ATTR_TRANSITION_TIME@,
    ];
    assert forall|j: int| 0 <= j < 4 implies lookup_entries(fields, #[trigger] keys[j]) == (
    if j == 0 {
        Some(json_uint(hue as nat))
    } else if j == 1 {
        Some(json_uint(saturation as nat))
    } else if j == 2 {
        optional_uint(brightness)
    } else {
        optional_uint(transition_time)
    }) by {
        let k = keys[j];
        lemma_light_field(device_id, fields, k);
        lemma_lookup_concat(hs + bf, tf, k);
        lemma_lookup_concat(hs, bf, k);
        lemma_lookup_concat(
            seq![(ATTR_LIGHT_COLOR_HUE@, json_uint(hue as nat))],
            seq![(ATTR_LIGHT_COLOR_SATURATION@, json_uint(saturation as nat))],
            k,
        );
        lemma_lookup_single(ATTR_LIGHT_COLOR_HUE@, json_uint(hue as nat), k);
        lemma_lookup_single(ATTR_LIGHT_COLOR_SATURATION@, json_uint(saturation as nat), k);
        match brightness {
            Some(b) => lemma_lookup_single(ATTR_LIGHT_DIMMER@, json_uint(b as nat), k),
            None => {},
        }
        match transition_time {
            Some(t) => lemma_lookup_single(ATTR_TRANSITION_TIME@, json_uint(t as nat), k),
            None => {},
        }
    }
    assert(keys[0] == ATTR_LIGHT_COLOR_HUE@);
    assert(keys[1] == ATTR_LIGHT_COLOR_SATURATION@);
    assert(keys[2] == ATTR_LIGHT_DIMMER@);
    assert(keys[3] == ATTR_TRANSITION_TIME@);
    lemma_light_field(device_id, fields, ATTR_LIGHT_COLOR_HUE@);
    lemma_light_field(device_id, fields, ATTR_LIGHT_COLOR_SATURATION@);
    lemma_light_field(device_id, fields, ATTR_LIGHT_DIMMER@);
    lemma_light_field(device_id, fields, ATTR_TRANSITION_TIME@);
}

/// Build a light HSB command.
///
/// Fails when hue, saturation, or optional brightness is outside its gateway
/// range; they are checked in that order.
pub fn set_light_hsb(
    device_id: u32,
    hue: u16,
    saturation: u16,
    brightness: Option<u16>,
    transition_time: Option<u16>,
) -> (r: Result<Command, CommandError>)
    ensures
        r is Ok <==> {
            &&& in_range(hue as int, HUE_RANGE)
            &&& in_range(saturation as int, SATURATION_RANGE)
            &&& brightness matches Some(b) ==> in_range(b as int, BRIGHTNESS_RANGE)
        },
        r matches Ok(c) ==> c@ == device_write(
            device_id,
            ATTR_LIGHT_CONTROL@,
            hsb_fields(hue, saturation, brightness, transition_time),
        ),
        r matches Err(e) ==> if !in_range(hue as int, HUE_RANGE) {
            e == CommandError::Hue(hue)
        } else if !in_range(saturation as int, SATURATION_RANGE) {
            e == CommandError::Saturation(saturation)
        } else {
            brightness matches Some(b) && e == CommandError::Brightness(b)
        },
        r matches Ok(c) ==> {
            &&& light_field(c@, ATTR_LIGHT_COLOR_HUE@) == Some(json_uint(hue as nat))
            &&& light_field(c@, ATTR_LIGHT_COLOR_SATURATION@) == Some(json_uint(saturation as nat))
            &&& light_field(c@, ATTR_LIGHT_DIMMER@) == optional_uint(brightness)
            &&& light_field(c@, ATTR_TRANSITION_TIME@) == optional_uint(transition_time)
        },
{
    validate_u16(hue, HUE_RANGE, CommandError::Hue(hue))?;
    validate_u16(saturation, SATURATION_RANGE, CommandError::Saturation(saturation))?;
    let mut values = single(ATTR_LIGHT_COLOR_HUE, JsonValue::from_u64(hue as u64));
    push_entry(&mut values, ATTR_LIGHT_COLOR_SATURATION, JsonValue::from_u64(saturation as u64));
    let ghost base = entries_view(values@);
    if let Some(brightness) = brightness {
        validate_u16(brightness, BRIGHTNESS_RANGE, CommandError::Brightness(brightness))?;
        push_entry(&mut values, ATTR_LIGHT_DIMMER, JsonValue::from_u64(brightness as u64));
    }
    push_transition(&mut values, transition_time);
    assert(entries_view(values@) =~= hsb_fields(hue, saturation, brightness, transition_time));
    proof {
        lemma_light_hsb_law(device_id, hue, saturation, brightness, transition_time);
    }
    Ok(device_put(device_id, ATTR_LIGHT_CONTROL, values))
}

pub fn set_socket_state(device_id: u32, on: bool) -> (r: Command)
    ensures
        r@ == device_write(device_id, ATTR_SOCKET_CONTROL@, seq![(ATTR_DEVICE_STATE@, flag(on))]),
{
    device_put(device_id, ATTR_SOCKET_CONTROL, single(ATTR_DEVICE_STATE, flag_value(on)))
}

/// Build a blind-position command.
///
/// Fails when `position` is outside `0..=100`.
pub fn set_blind_position(device_id: u32, position: u8) -> (r: Result<Command, CommandError>)
    ensures
        r is Ok <==> BLIND_POSITION_RANGE.0 <= position <= BLIND_POSITION_RANGE.1,
        r matches Ok(c) ==> c@ == device_write(
            device_id,
            ROOT_BLINDS@,
            seq![(ATTR_BLIND_CURRENT_POSITION@, json_uint(position as nat))],
        ),
        r matches Err(e) ==> e == CommandError::BlindPosition(position),
{
    if !(BLIND_POSITION_RANGE.0 <= position && position <= BLIND_POSITION_RANGE.1) {
        return Err(CommandError::BlindPosition(position));
    }
    Ok(
        device_put(
            device_id,
            ROOT_BLINDS,
            single(ATTR_BLIND_CURRENT_POSITION, JsonValue::from_u64(position as u64)),
        ),
    )
}

pub fn trigger_blind(device_id: u32) -> (r: Command)
    ensures
        r@ == device_write(device_id, ROOT_BLINDS@, seq![(ATTR_BLIND_TRIGGER@, Json::Bool(true))]),
{
    device_put(device_id, ROOT_BLINDS, single(ATTR_BLIND_TRIGGER, JsonValue::Bool(true)))
}

pub fn turn_air_purifier_off(device_id: u32) -> (r: Command)
    ensures
        r@ == device_write(device_id, ROOT_AIR_PURIFIER@, seq![(ATTR_AIR_PURIFIER_MODE@, json_uint(0))]),
{
    air_purifier_put(device_id, ATTR_AIR_PURIFIER_MODE, JsonValue::from_u64(0))
}

pub fn set_air_purifier_auto(device_id: u32) -> (r: Command)
    ensures
        r@ == device_write(
            device_id,
            ROOT_AIR_PURIFIER@,
            seq![(ATTR_AIR_PURIFIER_MODE@, json_uint(AIR_PURIFIER_MODE_AUTO as nat))],
        ),
{
    air_purifier_put(
        device_id,
        ATTR_AIR_PURIFIER_MODE,
        JsonValue::from_u64(AIR_PURIFIER_MODE_AUTO as u64),
    )
}

/// Build an air-purifier fan-speed command.
///
/// Fails when `speed` is outside `2..=50`.
pub fn set_air_purifier_fan_speed(device_id: u32, speed: u8) -> (r: Result<Command, CommandError>)
    ensures
        r is Ok <==> AIR_PURIFIER_FAN_RANGE.0 <= speed <= AIR_PURIFIER_FAN_RANGE.1,
        r matches Ok(c) ==> c@ == device_write(
            device_id,
            ROOT_AIR_PURIFIER@,
            seq![(ATTR_AIR_PURIFIER_MODE@, json_uint(speed as nat))],
        ),
        r matches Err(e) ==> e == CommandError::AirPurifierFanSpeed(speed),
{
    if !(AIR_PURIFIER_FAN_RANGE.0 <= speed && speed <= AIR_PURIFIER_FAN_RANGE.1) {
        return Err(CommandError::AirPurifierFanSpeed(speed));
    }
    Ok(air_purifier_put(device_id, ATTR_AIR_PURIFIER_MODE, JsonValue::from_u64(speed as u64)))
}

pub fn set_air_purifier_controls_locked(device_id: u32, locked: bool) -> (r: Command)
    ensures
        r@ == device_write(
            device_id,
            ROOT_AIR_PURIFIER@,
            seq![(ATTR_AIR_PURIFIER_CONTROLS_LOCKED@, flag(locked))],
        ),
{
    air_purifier_put(device_id, ATTR_AIR_PURIFIER_CONTROLS_LOCKED, flag_value(locked))
}

pub fn set_air_purifier_leds_off(device_id: u32, leds_off: bool) -> (r: Command)
    ensures
        r@ == device_write(
            device_id,
            ROOT_AIR_PURIFIER@,
            seq![(ATTR_AIR_PURIFIER_LEDS_OFF@, flag(leds_off))],
        ),
{
    air_purifier_put(device_id, ATTR_AIR_PURIFIER_LEDS_OFF, flag_value(leds_off))
}

pub fn set_group_state(group_id: u32, on: bool) -> (r: Command)
    ensures
        r@ == group_write(group_id, seq![(ATTR_DEVICE_STATE@, flag(on))]),
{
    direct_put(group_path(group_id), single(ATTR_DEVICE_STATE, flag_value(on)))
}

/// Build a group brightness command.
///
/// Fails when `brightness` is outside `0..=254`.
pub fn set_group_brightness(group_id: u32, brightness: u16, transition_time: Option<u16>) -> (r:
    Result<Command, CommandError>)
    ensures
        r is Ok <==> in_range(brightness as int, BRIGHTNESS_RANGE),
        r matches Ok(c) ==> c@ == group_write(
            group_id,
            seq![(ATTR_LIGHT_DIMMER@, json_uint(brightness as nat))] + transition_fields(
                transition_time,
            ),
        ),
        r matches Err(e) ==> e == CommandError::Brightness(brightness),
        r matches Ok(c) ==> group_field(c@, ATTR_TRANSITION_TIME@) == optional_uint(
            transition_time,
        ),
{
    validate_u16(brightness, BRIGHTNESS_RANGE, CommandError::Brightness(brightness))?;
    let mut values = single(ATTR_LIGHT_DIMMER, JsonValue::from_u64(brightness as u64));
    push_transition(&mut values, transition_time);
    proof {
        lemma_light_keys_differ();
        lemma_lookup_single(ATTR_LIGHT_DIMMER@, json_uint(brightness as nat), ATTR_TRANSITION_TIME@);
        lemma_transition_found(
            seq![(ATTR_LIGHT_DIMMER@, json_uint(brightness as nat))],
            transition_time,
        );
    }
    Ok(direct_put(group_path(group_id), values))
}

/// Build a group color-temperature command.
///
/// Fails when `mireds` is outside `250..=454`.
pub fn set_group_color_temperature(
    group_id: u32,
    mireds: u16,
    transition_time: Option<u16>,
) -> (r: Result<Command, CommandError>)
    ensures
        r is Ok <==> in_range(mireds as int, MIRED_RANGE),
        r matches Ok(c) ==> c@ == group_write(
            group_id,
            seq![(ATTR_LIGHT_MIREDS@, json_uint(mireds as nat))] + transition_fields(
                transition_time,
            ),
        ),
        r matches Err(e) ==> e == CommandError::ColorTemperature(mireds),
        r matches Ok(c) ==> group_field(c@, ATTR_TRANSITION_TIME@) == optional_uint(
            transition_time,
        ),
{
    validate_u16(mireds, MIRED_RANGE, CommandError::ColorTemperature(mireds))?;
    let mut values = single(ATTR_LIGHT_MIREDS, JsonValue::from_u64(mireds as u64));
    push_transition(&mut values, transition_time);
    proof {
        lemma_light_keys_differ();
        lemma_lookup_single(ATTR_LIGHT_MIREDS@, json_uint(mireds as nat), ATTR_TRANSITION_TIME@);
        lemma_transition_found(
            seq![(ATTR_LIGHT_MIREDS@, json_uint(mireds as nat))],
            transition_time,
        );
    }
    Ok(direct_put(group_path(group_id), values))
}

} // verus!
