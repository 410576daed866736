use glimta::command::{
    get_device, get_group, list_devices, list_groups, normalize_hex_color, observe_group,
    set_air_purifier_auto, set_air_purifier_controls_locked, set_air_purifier_fan_speed,
    set_air_purifier_leds_off, set_blind_position, set_group_brightness,
    set_group_color_temperature, set_group_state, set_light_color_temperature,
    set_light_hex_color, set_light_hsb, set_light_xy_color, set_socket_state, trigger_blind,
    turn_air_purifier_off, validate_u16, Command, CommandError, Method,
};
use glimta::json::{JsonMap, JsonNumber, JsonValue};
use glimta::protocol::{auth_path, device_path, group_path, BRIGHTNESS_RANGE};

fn num(n: u64) -> JsonValue {
    JsonValue::Number(JsonNumber::PosInt(n))
}

fn obj(entries: Vec<(&str, JsonValue)>) -> JsonValue {
    JsonValue::Object(JsonMap(entries.into_iter().map(|(k, v)| (k.to_string(), v)).collect()))
}

fn endpoint(endpoint: &str, fields: Vec<(&str, JsonValue)>) -> JsonValue {
    obj(vec![(endpoint, JsonValue::Array(vec![obj(fields)]))])
}

fn put(path: &str, body: JsonValue) -> Command {
    Command { method: Method::Put, path: path.to_string(), body: Some(body), observe: false }
}

#[test]
fn paths_are_root_slash_id() {
    assert_eq!(device_path(65537), "15001/65537");
    assert_eq!(device_path(0), "15001/0");
    assert_eq!(device_path(u32::MAX), "15001/4294967295");
    assert_eq!(group_path(131073), "15004/131073");
    assert_eq!(auth_path(), "15011/9063");
}

#[test]
fn reads_and_observations() {
    assert_eq!(list_devices(), Command::get("15001"));
    assert_eq!(list_groups(), Command::get("15004"));
    assert_eq!(get_device(7), Command::get("15001/7"));
    assert_eq!(get_group(9), Command::get("15004/9"));
    let observed = observe_group(9);
    assert_eq!(observed.method, Method::Get);
    assert_eq!(observed.path, "15004/9");
    assert!(observed.observe);
    assert_eq!(observed.body, None);
    assert!(!get_group(9).observe);
}

#[test]
fn color_temperature_is_checked_against_the_mired_range() {
    assert_eq!(
        set_light_color_temperature(1, 370, None),
        Ok(put("15001/1", endpoint("3311", vec![("5711", num(370))])))
    );
    assert_eq!(set_light_color_temperature(1, 249, None), Err(CommandError::ColorTemperature(249)));
    assert_eq!(set_light_color_temperature(1, 455, Some(3)), Err(CommandError::ColorTemperature(455)));
    assert!(set_light_color_temperature(1, 250, None).is_ok());
    assert!(set_light_color_temperature(1, 454, None).is_ok());
}

#[test]
fn hex_colors_are_normalized() {
    assert_eq!(normalize_hex_color("#A1b2C3"), Ok("a1b2c3".to_string()));
    assert_eq!(normalize_hex_color("f1e0d9"), Ok("f1e0d9".to_string()));
    assert_eq!(normalize_hex_color("abcd"), Err(CommandError::HexColor("abcd".to_string())));
    assert_eq!(normalize_hex_color("#12345G"), Err(CommandError::HexColor("#12345G".to_string())));
    assert_eq!(normalize_hex_color("##123456"), Err(CommandError::HexColor("##123456".to_string())));
    assert_eq!(normalize_hex_color("1234567"), Err(CommandError::HexColor("1234567".to_string())));
    assert_eq!(normalize_hex_color("ééé"), Err(CommandError::HexColor("ééé".to_string())));
    assert_eq!(
        set_light_hex_color(5, "#FF00aa", Some(2)),
        Ok(put(
            "15001/5",
            endpoint("3311", vec![("5706", JsonValue::String("ff00aa".to_string())), ("5712", num(2))])
        ))
    );
}

#[test]
fn xy_colors_carry_both_coordinates() {
    assert_eq!(
        set_light_xy_color(3, 30015, 26870, None),
        Ok(put("15001/3", endpoint("3311", vec![("5709", num(30015)), ("5710", num(26870))])))
    );
}

#[test]
fn hsb_checks_saturation_then_brightness() {
    assert_eq!(
        set_light_hsb(3, 100, 200, Some(50), Some(4)),
        Ok(put(
            "15001/3",
            endpoint(
                "3311",
                vec![("5707", num(100)), ("5708", num(200)), ("5851", num(50)), ("5712", num(4))]
            )
        ))
    );
    assert_eq!(
        set_light_hsb(3, 100, 200, None, None),
        Ok(put("15001/3", endpoint("3311", vec![("5707", num(100)), ("5708", num(200))])))
    );
    assert_eq!(set_light_hsb(3, 1, 65280, Some(255), None), Err(CommandError::Saturation(65280)));
    assert_eq!(set_light_hsb(3, 1, 65279, Some(255), None), Err(CommandError::Brightness(255)));
}

#[test]
fn socket_blind_and_purifier_commands() {
    assert_eq!(set_socket_state(2, false), put("15001/2", endpoint("3312", vec![("5850", num(0))])));
    assert_eq!(
        set_blind_position(4, 100),
        Ok(put("15001/4", endpoint("15015", vec![("5536", num(100))])))
    );
    assert_eq!(set_blind_position(4, 101), Err(CommandError::BlindPosition(101)));
    assert_eq!(
        trigger_blind(4),
        put("15001/4", endpoint("15015", vec![("5523", JsonValue::Bool(true))]))
    );
    assert_eq!(turn_air_purifier_off(6), put("15001/6", endpoint("15025", vec![("5900", num(0))])));
    assert_eq!(set_air_purifier_auto(6), put("15001/6", endpoint("15025", vec![("5900", num(1))])));
    assert_eq!(
        set_air_purifier_fan_speed(6, 2),
        Ok(put("15001/6", endpoint("15025", vec![("5900", num(2))])))
    );
    assert!(set_air_purifier_fan_speed(6, 50).is_ok());
    assert_eq!(set_air_purifier_fan_speed(6, 1), Err(CommandError::AirPurifierFanSpeed(1)));
    assert_eq!(set_air_purifier_fan_speed(6, 51), Err(CommandError::AirPurifierFanSpeed(51)));
    assert_eq!(
        set_air_purifier_controls_locked(6, true),
        put("15001/6", endpoint("15025", vec![("5905", num(1))]))
    );
    assert_eq!(
        set_air_purifier_leds_off(6, false),
        put("15001/6", endpoint("15025", vec![("5906", num(0))]))
    );
}

#[test]
fn group_commands_write_directly_to_the_group() {
    assert_eq!(set_group_state(8, true), put("15004/8", obj(vec![("5850", num(1))])));
    assert_eq!(
        set_group_brightness(8, 254, Some(1)),
        Ok(put("15004/8", obj(vec![("5851", num(254)), ("5712", num(1))])))
    );
    assert_eq!(set_group_brightness(8, 255, None), Err(CommandError::Brightness(255)));
    assert_eq!(
        set_group_color_temperature(8, 300, None),
        Ok(put("15004/8", obj(vec![("5711", num(300))])))
    );
    assert_eq!(set_group_color_temperature(8, 100, None), Err(CommandError::ColorTemperature(100)));
}

#[test]
fn range_validation() {
    assert_eq!(validate_u16(254, BRIGHTNESS_RANGE, CommandError::Brightness(254)), Ok(()));
    assert_eq!(
        validate_u16(255, BRIGHTNESS_RANGE, CommandError::Brightness(255)),
        Err(CommandError::Brightness(255))
    );
}

#[test]
fn observed_only_marks_the_observation() {
    let command = Command::put("15001/1", JsonValue::Null).observed();
    assert_eq!(
        command,
        Command { method: Method::Put, path: "15001/1".to_string(), body: Some(JsonValue::Null), observe: true }
    );
}
