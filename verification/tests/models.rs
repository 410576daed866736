use glimta::json::{F64Bits, JsonMap, JsonNumber, JsonValue};
use glimta::model::{AirPurifier, Blind, Device, DeviceInfo, DeviceKind, Group, Socket};

fn bare_device() -> Device {
    Device {
        id: 1,
        display_name: None,
        application_type: None,
        info: DeviceInfo::default(),
        last_seen: None,
        reachable: None,
        lights: vec![],
        sockets: vec![],
        blinds: vec![],
        air_purifiers: vec![],
        signal_repeaters: vec![],
        extra: JsonMap::default(),
    }
}

fn purifier(mode: Option<i64>) -> AirPurifier {
    AirPurifier {
        id: 0,
        mode,
        filter_runtime: None,
        filter_status: Some(0),
        filter_lifetime_total: None,
        controls_locked: Some(1),
        leds_off: Some(0),
        air_quality: None,
        fan_speed: None,
        motor_runtime_total: None,
        filter_lifetime_remaining: None,
        extra: JsonMap::default(),
    }
}

fn group(raw_members: JsonValue) -> Group {
    Group {
        id: 131073,
        display_name: None,
        state: 0,
        brightness: None,
        color_hex: None,
        mood_id: None,
        raw_members,
        extra: JsonMap::default(),
    }
}

fn obj(entries: Vec<(&str, JsonValue)>) -> JsonValue {
    JsonValue::Object(JsonMap(entries.into_iter().map(|(k, v)| (k.to_string(), v)).collect()))
}

fn num(n: u64) -> JsonValue {
    JsonValue::Number(JsonNumber::PosInt(n))
}

#[test]
fn a_device_without_endpoints_is_other_and_unnamed() {
    let device = bare_device();
    assert_eq!(device.capabilities(), vec![DeviceKind::Other]);
    assert_eq!(device.kind(), DeviceKind::Other);
    assert_eq!(device.name(), "Unnamed device");
    assert_eq!(device.is_reachable(), None);
    assert!(device.primary_light().is_none());
}

#[test]
fn capabilities_follow_the_fixed_order() {
    let mut device = bare_device();
    device.air_purifiers.push(purifier(Some(1)));
    device.sockets.push(Socket {
        id: 0,
        state: 1,
        on_time: None,
        cumulative_active_power: Some(F64Bits(1.5f64.to_bits())),
        power_factor: None,
        extra: JsonMap::default(),
    });
    device.blinds.push(Blind { id: 0, current_position: F64Bits(40.0f64.to_bits()), extra: JsonMap::default() });
    device.reachable = Some(0);
    assert_eq!(
        device.capabilities(),
        vec![DeviceKind::Socket, DeviceKind::Blind, DeviceKind::AirPurifier]
    );
    assert_eq!(device.kind(), DeviceKind::Socket);
    assert_eq!(device.is_reachable(), Some(false));
    assert!(device.sockets[0].is_on());
}

#[test]
fn air_purifier_readings() {
    let auto = purifier(Some(1));
    assert_eq!(auto.is_on(), Some(true));
    assert_eq!(auto.is_auto_mode(), Some(true));
    assert_eq!(auto.controls_locked(), Some(true));
    assert_eq!(auto.leds_off(), Some(false));
    assert_eq!(auto.filter_needs_replacement(), Some(false));
    let manual = purifier(Some(10));
    assert_eq!(manual.is_on(), Some(true));
    assert_eq!(manual.is_auto_mode(), Some(false));
    let off = purifier(Some(0));
    assert_eq!(off.is_on(), Some(false));
    assert_eq!(purifier(None).is_on(), None);
    assert_eq!(purifier(None).is_auto_mode(), None);
}

#[test]
fn group_members_are_read_from_the_link_list() {
    let raw = obj(vec![(
        "15002",
        obj(vec![(
            "9003",
            JsonValue::Array(vec![
                num(65537),
                JsonValue::Number(JsonNumber::NegInt(-3)),
                num(4_294_967_296),
                JsonValue::String("65540".to_string()),
                JsonValue::Number(JsonNumber::Float(F64Bits(2.0f64.to_bits()))),
                num(65539),
            ]),
        )]),
    )]);
    let g = group(raw);
    assert_eq!(g.member_ids(), vec![65537, 65539]);
    assert_eq!(g.name(), "Unnamed group");
    assert!(!g.is_on());
}

#[test]
fn groups_without_a_link_list_have_no_members() {
    assert_eq!(group(JsonValue::Null).member_ids(), Vec::<u32>::new());
    assert_eq!(group(obj(vec![("15002", num(1))])).member_ids(), Vec::<u32>::new());
    assert_eq!(
        group(obj(vec![("15002", obj(vec![("9003", num(1))]))])).member_ids(),
        Vec::<u32>::new()
    );
    let mut named = group(JsonValue::Null);
    named.display_name = Some("Kitchen".to_string());
    named.state = 1;
    assert_eq!(named.name(), "Kitchen");
    assert!(named.is_on());
}

#[test]
fn json_lookup_takes_the_first_matching_key() {
    let value = obj(vec![("a", num(1)), ("b", num(2)), ("a", num(3))]);
    assert_eq!(value.get("a").and_then(JsonValue::as_u64), Some(1));
    assert_eq!(value.get("b").and_then(JsonValue::as_u64), Some(2));
    assert_eq!(value.get("c"), None);
    assert_eq!(num(5).get("a"), None);
    let array = JsonValue::Array(vec![JsonValue::Bool(true)]);
    assert_eq!(array.get_index(0).and_then(JsonValue::as_bool), Some(true));
    assert_eq!(array.get_index(1), None);
    assert_eq!(value.clone(), value);
    assert_ne!(value, obj(vec![("a", num(1))]));
}
