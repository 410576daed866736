use glimta::command::CommandError;
use glimta::{Credentials, Error};

#[test]
fn command_errors_describe_the_rejected_value() {
    assert_eq!(
        CommandError::Brightness(255).message(),
        "brightness 255 is outside the TRADFRI range 0..=254"
    );
    assert_eq!(
        CommandError::ColorTemperature(100).message(),
        "color temperature 100 is outside the TRADFRI range 250..=454 mired"
    );
    assert_eq!(
        CommandError::AirPurifierFanSpeed(1).message(),
        "air purifier fan speed 1 is outside the TRADFRI range 2..=50"
    );
    assert_eq!(
        CommandError::HexColor("#12\"".to_string()).message(),
        "light color must be exactly six hexadecimal digits, got \"#12\\\"\""
    );
}

#[test]
fn errors_have_their_texts() {
    assert_eq!(Error::EmptyCredential("identity").message(), "identity must not be empty");
    assert_eq!(
        Error::GatewayStatus { status: "NotFound".to_string(), path: "15001/1".to_string() }
            .message(),
        "gateway returned CoAP status NotFound for 15001/1"
    );
    assert_eq!(
        Error::ObservationLagged { dropped: 3 }.message(),
        "an observation dropped 3 stale update(s); the next item is the newest snapshot"
    );
    assert_eq!(
        Error::Command(CommandError::Hue(7)).message(),
        CommandError::Hue(7).message()
    );
    assert_eq!(
        Error::ObservationReconnect("down".to_string()).message(),
        "an observation reconnect attempt failed: down"
    );
}

#[test]
fn credentials_description_redacts_the_key() {
    let credentials = Credentials::new("client", "secret").expect("valid credentials");
    let text = credentials.description();
    assert_eq!(text, "Credentials { identity: \"client\", pre_shared_key: \"<redacted>\" }");
    assert!(!text.contains("secret"));
    let other = Credentials::new("client", "another").expect("valid credentials");
    assert_eq!(other.description(), text);
}
