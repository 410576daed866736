use glimta::command::{
    observe_device, provision_identity, set_light_brightness, set_light_state, CommandError,
    Method,
};
use glimta::json::{JsonMap, JsonValue};
use glimta::{Device, DeviceInfo, DeviceKind, Light};

fn member<'a>(value: &'a JsonValue, key: &str) -> &'a JsonValue {
    value.get(key).expect("member")
}

fn item(value: &JsonValue, index: usize) -> &JsonValue {
    value.get_index(index).expect("item")
}

fn light_fixture() -> Device {
    Device {
        id: 65537,
        display_name: Some("Vardagsrum".to_string()),
        application_type: Some(2),
        info: DeviceInfo {
            manufacturer: Some("IKEA of Sweden".to_string()),
            model_number: Some("TRADFRI bulb E27".to_string()),
            serial: Some("deadbeef".to_string()),
            firmware_version: Some("1.2.3".to_string()),
            ..DeviceInfo::default()
        },
        last_seen: Some(1700000000),
        reachable: Some(1),
        lights: vec![Light {
            id: 0,
            state: 1,
            brightness: Some(128),
            color_temperature_mireds: Some(370),
            color_hex: None,
            hue: None,
            saturation: None,
            color_x: None,
            color_y: None,
            extra: JsonMap::default(),
        }],
        sockets: vec![],
        blinds: vec![],
        air_purifiers: vec![],
        signal_repeaters: vec![],
        extra: JsonMap::default(),
    }
}

#[test]
fn parses_a_classic_tradfri_light_payload() {
    let device = light_fixture();

    assert_eq!(device.id, 65537);
    assert_eq!(device.name(), "Vardagsrum");
    assert_eq!(device.kind(), DeviceKind::Light);
    assert_eq!(device.is_reachable(), Some(true));
    assert_eq!(device.info.manufacturer.as_deref(), Some("IKEA of Sweden"));

    let light = device.primary_light().expect("light should exist");
    assert!(light.is_on());
    assert_eq!(light.brightness, Some(128));
    assert_eq!(light.color_temperature_mireds, Some(370));
}

#[test]
fn builds_the_gateway_identity_provisioning_request() {
    let command = provision_identity("glimta-test");

    assert_eq!(command.method, Method::Post);
    assert_eq!(command.path, "15011/9063");
    assert_eq!(member(&command.body.expect("body"), "9090").as_str(), Some("glimta-test"));
}

#[test]
fn builds_light_commands_using_the_gateway_wire_shape() {
    let command = set_light_state(65537, true);

    assert_eq!(command.method, Method::Put);
    assert_eq!(command.path, "15001/65537");
    let body = command.body.expect("body");
    assert_eq!(member(item(member(&body, "3311"), 0), "5850").as_u64(), Some(1));

    let command = set_light_brightness(65537, 42, Some(10)).expect("valid brightness");
    let body = command.body.expect("body");
    assert_eq!(member(item(member(&body, "3311"), 0), "5851").as_u64(), Some(42));
    assert_eq!(member(item(member(&body, "3311"), 0), "5712").as_u64(), Some(10));
}

#[test]
fn rejects_invalid_brightness_before_network_io() {
    assert_eq!(set_light_brightness(65537, 255, None), Err(CommandError::Brightness(255)));
}

#[test]
fn observation_is_a_property_of_the_command_not_the_model() {
    let command = observe_device(65537);
    assert_eq!(command.method, Method::Get);
    assert!(command.observe);
}
