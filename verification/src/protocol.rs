//! TRÅDFRI CoAP paths and numeric attribute identifiers.
//!
//! IKEA's classic gateway represents resources as JSON objects whose keys are
//! LwM2M/IPSO-style numeric strings. Keeping them in one module makes the wire
//! format explicit without leaking magic numbers through the rest of the crate.
use vstd::prelude::*;
use vstd::string::*;
use crate::text::{decimal, decimal_text};

verus! {

pub const DEFAULT_PORT: u16 = 5684;
pub const DISCOVERY_SERVICE: &'static str = "_coap._udp.local.";
pub const GATEWAY_HOST_PREFIX: &'static str = "TRADFRI-Gateway-";

pub const ROOT_DEVICES: &'static str = "15001";
pub const ROOT_GROUPS: &'static str = "15004";
pub const ROOT_MOODS: &'static str = "15005";
pub const ROOT_SMART_TASKS: &'static str = "15010";
pub const ROOT_GATEWAY: &'static str = "15011";
pub const ROOT_SIGNAL_REPEATER: &'static str = "15014";
pub const ROOT_BLINDS: &'static str = "15015";
pub const ROOT_AIR_PURIFIER: &'static str = "15025";

pub const ATTR_DEVICE_INFO: &'static str = "3";
pub const ATTR_NAME: &'static str = "9001";
pub const ATTR_CREATED_AT: &'static str = "9002";
pub const ATTR_ID: &'static str = "9003";
pub const ATTR_REACHABLE: &'static str = "9019";
pub const ATTR_LAST_SEEN: &'static str = "9020";
pub const ATTR_GROUP_MEMBERS: &'static str = "9018";
pub const ATTR_GROUP_ID: &'static str = "9038";
pub const ATTR_MOOD: &'static str = "9039";
pub const ATTR_HS_LINK: &'static str = "15002";
pub const ATTR_AUTH: &'static str = "9063";
pub const ATTR_CLIENT_IDENTITY: &'static str = "9090";
pub const ATTR_PSK: &'static str = "9091";
pub const ATTR_APPLICATION_TYPE: &'static str = "5750";

pub const ATTR_DEVICE_MANUFACTURER: &'static str = "0";
pub const ATTR_DEVICE_MODEL_NUMBER: &'static str = "1";
pub const ATTR_DEVICE_SERIAL: &'static str = "2";
pub const ATTR_DEVICE_FIRMWARE_VERSION: &'static str = "3";
pub const ATTR_DEVICE_POWER_SOURCE: &'static str = "6";
pub const ATTR_DEVICE_BATTERY: &'static str = "9";

pub const ATTR_LIGHT_CONTROL: &'static str = "3311";
pub const ATTR_SOCKET_CONTROL: &'static str = "3312";
pub const ATTR_DEVICE_STATE: &'static str = "5850";
pub const ATTR_LIGHT_DIMMER: &'static str = "5851";
pub const ATTR_SOCKET_ON_TIME: &'static str = "5852";
pub const ATTR_SOCKET_CUM_ACTIVE_POWER: &'static str = "5805";
pub const ATTR_SOCKET_POWER_FACTOR: &'static str = "5820";
pub const ATTR_LIGHT_COLOR_HEX: &'static str = "5706";
pub const ATTR_LIGHT_COLOR_HUE: &'static str = "5707";
pub const ATTR_LIGHT_COLOR_SATURATION: &'static str = "5708";
pub const ATTR_LIGHT_COLOR_X: &'static str = "5709";
pub const ATTR_LIGHT_COLOR_Y: &'static str = "5710";
pub const ATTR_LIGHT_MIREDS: &'static str = "5711";
pub const ATTR_TRANSITION_TIME: &'static str = "5712";

pub const ATTR_BLIND_CURRENT_POSITION: &'static str = "5536";
pub const ATTR_BLIND_TRIGGER: &'static str = "5523";

pub const ATTR_AIR_PURIFIER_MODE: &'static str = "5900";
pub const ATTR_AIR_PURIFIER_FILTER_RUNTIME: &'static str = "5902";
pub const ATTR_AIR_PURIFIER_FILTER_STATUS: &'static str = "5903";
pub const ATTR_AIR_PURIFIER_FILTER_LIFETIME_TOTAL: &'static str = "5904";
pub const ATTR_AIR_PURIFIER_CONTROLS_LOCKED: &'static str = "5905";
pub const ATTR_AIR_PURIFIER_LEDS_OFF: &'static str = "5906";
pub const ATTR_AIR_PURIFIER_AIR_QUALITY: &'static str = "5907";
pub const ATTR_AIR_PURIFIER_FAN_SPEED: &'static str = "5908";
pub const ATTR_AIR_PURIFIER_MOTOR_RUNTIME_TOTAL: &'static str = "5909";
pub const ATTR_AIR_PURIFIER_FILTER_LIFETIME_REMAINING: &'static str = "5910";
pub const AIR_PURIFIER_MODE_AUTO: u8 = 1;

pub const BRIGHTNESS_RANGE: (u16, u16) = (0, 254);
pub const MIRED_RANGE: (u16, u16) = (250, 454);
pub const HUE_RANGE: (u16, u16) = (0, 65_535);
pub const SATURATION_RANGE: (u16, u16) = (0, 65_279);
pub const XY_RANGE: (u16, u16) = (0, 65_535);
pub const BLIND_POSITION_RANGE: (u8, u8) = (0, 100);
pub const AIR_PURIFIER_FAN_RANGE: (u8, u8) = (2, 50);

/// `root/leaf`.
pub open spec fn join_path(root: Seq<char>, leaf: Seq<char>) -> Seq<char> {
    root + seq!['/'] + leaf
}

/// The path of the device resource `device_id`.
pub open spec fn device_path_spec(device_id: nat) -> Seq<char> {
    join_path(ROOT_DEVICES@, decimal(device_id))
}

/// The path of the group resource `group_id`.
pub open spec fn group_path_spec(group_id: nat) -> Seq<char> {
    join_path(ROOT_GROUPS@, decimal(group_id))
}

/// The path of the identity provisioning endpoint.
pub open spec fn auth_path_spec() -> Seq<char> {
    join_path(ROOT_GATEWAY@, ATTR_AUTH@)
}

fn join(root: &str, leaf: &str) -> (r: String)
    ensures
        r@ == join_path(root@, leaf@),
{
    let mut s = root.to_owned();
    crate::text::push_char(&mut s, '/');
    s.append(leaf);
    s
}

/// `15001/{device_id}`.
pub fn device_path(device_id: u32) -> (r: String)
    ensures
        r@ == device_path_spec(device_id as nat),
{
    let id = decimal_text(device_id as u64);
    join(ROOT_DEVICES, id.as_str())
}

/// `15004/{group_id}`.
pub fn group_path(group_id: u32) -> (r: String)
    ensures
        r@ == group_path_spec(group_id as nat),
{
    let id = decimal_text(group_id as u64);
    join(ROOT_GROUPS, id.as_str())
}

/// `15011/9063`.
pub fn auth_path() -> (r: String)
    ensures
        r@ == auth_path_spec(),
{
    join(ROOT_GATEWAY, ATTR_AUTH)
}

} // verus!
