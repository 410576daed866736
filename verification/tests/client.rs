use glimta::client::{
    bootstrap_credentials, identity_from, min_reconnect_delay, next_reconnect_delay,
    random_identity, record_resource_result, BulkRead, GatewayAddress, IpAddress, Ipv4Endpoint,
    Ipv6Endpoint,
};
use glimta::time::TimeSpan;
use glimta::{ClientOptions, Credentials, Error, Gateway, ReconnectOptions};

#[test]
fn reconnect_backoff_is_bounded_and_never_hot_loops() {
    let normalized = ReconnectOptions {
        initial_delay: TimeSpan::zero(),
        max_delay: TimeSpan::zero(),
    }
    .normalized();

    assert_eq!(normalized.initial_delay, min_reconnect_delay());
    assert_eq!(normalized.max_delay, min_reconnect_delay());
    assert_eq!(
        next_reconnect_delay(TimeSpan::from_secs(20), TimeSpan::from_secs(30)),
        TimeSpan::from_secs(30)
    );
}

#[test]
fn best_effort_read_keeps_successes_and_failures() {
    let mut read = BulkRead::with_capacity(2);
    record_resource_result(&mut read, 1, Ok("healthy"));
    record_resource_result::<&str>(&mut read, 2, Err(Error::NoGatewayFound));

    assert_eq!(read.items, vec!["healthy"]);
    assert_eq!(read.failures.len(), 1);
    assert_eq!(read.failures[0].id, 2);
    assert!(!read.is_complete());
}

#[test]
fn a_read_without_failures_is_complete() {
    let mut read: BulkRead<u32> = BulkRead::with_capacity(0);
    assert!(read.is_complete());
    record_resource_result(&mut read, 7, Ok(70));
    record_resource_result(&mut read, 8, Ok(80));
    assert_eq!(read.items, vec![70, 80]);
    assert!(read.is_complete());
}

#[test]
fn normalization_keeps_longer_delays() {
    let options = ReconnectOptions {
        initial_delay: TimeSpan::from_secs(2),
        max_delay: TimeSpan::from_secs(1),
    }
    .normalized();
    assert_eq!(options.initial_delay, TimeSpan::from_secs(2));
    assert_eq!(options.max_delay, TimeSpan::from_secs(2));

    let defaults = ReconnectOptions::default().normalized();
    assert_eq!(defaults.initial_delay, TimeSpan::from_secs(1));
    assert_eq!(defaults.max_delay, TimeSpan::from_secs(30));
}

#[test]
fn backoff_doubles_below_the_maximum() {
    assert_eq!(
        next_reconnect_delay(TimeSpan::from_millis(100), TimeSpan::from_secs(30)),
        TimeSpan::from_millis(200)
    );
    assert_eq!(
        next_reconnect_delay(TimeSpan::new(1, 600_000_000), TimeSpan::from_secs(30)),
        TimeSpan::new(3, 200_000_000)
    );
    assert_eq!(
        next_reconnect_delay(TimeSpan::max_value(), TimeSpan::max_value()),
        TimeSpan::max_value()
    );
}

#[test]
fn default_client_options() {
    let options = ClientOptions::default();
    assert_eq!(options.request_timeout, TimeSpan::from_secs(3));
    assert_eq!(options.retries, 3);
}

#[test]
fn gateway_uses_the_default_port() {
    let gateway = Gateway::new(IpAddress::V4(Ipv4Endpoint::from_octets([192, 168, 1, 5], 0).ip));
    assert_eq!(
        gateway.address(),
        GatewayAddress::V4(Ipv4Endpoint::from_octets([192, 168, 1, 5], 5684))
    );
    assert_eq!(gateway.hostname(), None);

    let gateway = Gateway::new(IpAddress::V6(1));
    assert_eq!(
        gateway.address(),
        GatewayAddress::V6(Ipv6Endpoint { ip: 1, port: 5684, flowinfo: 0, scope_id: 0 })
    );
}

#[test]
fn octets_form_the_address_bits() {
    assert_eq!(Ipv4Endpoint::from_octets([192, 0, 2, 10], 1).ip, 0xC000_020A);
    assert_eq!(Ipv4Endpoint::from_octets([255, 255, 255, 255], 1).ip, u32::MAX);
}

#[test]
fn connecting_keeps_gateway_credentials_and_options() {
    let gateway = Gateway::new(IpAddress::V4(0x0A00_0001));
    let credentials = Credentials::new("id", "key").expect("valid");
    let client = gateway.connect(credentials.clone());
    assert_eq!(client.gateway(), &gateway);
    assert!(client.credentials() == &credentials);
    assert_eq!(client.options(), ClientOptions::default());

    let options = ClientOptions { request_timeout: TimeSpan::from_millis(500), retries: 1 };
    let client = gateway.connect_with_options(credentials, options);
    assert_eq!(client.options(), options);
}

#[test]
fn identity_is_two_zero_padded_hex_numbers() {
    assert_eq!(
        identity_from(1, 0xabc),
        "glimta-00000000000000010000000000000abc"
    );
    assert_eq!(
        identity_from(u64::MAX, 0),
        "glimta-ffffffffffffffff0000000000000000"
    );
}

#[test]
fn random_identities_have_the_identity_shape() {
    let identity = random_identity();
    assert_eq!(identity.len(), "glimta-".len() + 32);
    assert!(identity.starts_with("glimta-"));
    assert!(identity["glimta-".len()..]
        .chars()
        .all(|c| c.is_ascii_hexdigit() && !c.is_ascii_uppercase()));
}

#[test]
fn credentials_must_not_be_empty() {
    assert!(matches!(Credentials::new("", "key"), Err(Error::EmptyCredential("identity"))));
    assert!(matches!(Credentials::new("", ""), Err(Error::EmptyCredential("identity"))));
    assert!(matches!(
        Credentials::new("id", ""),
        Err(Error::EmptyCredential("pre-shared key"))
    ));
    let credentials = Credentials::new("id", "key").expect("valid");
    assert_eq!(credentials.identity(), "id");
    assert_eq!(credentials.pre_shared_key(), "key");
}

#[test]
fn provisioning_uses_the_bootstrap_identity() {
    let credentials = bootstrap_credentials("CODE1234").expect("valid code");
    assert_eq!(credentials.identity(), "Client_identity");
    assert_eq!(credentials.pre_shared_key(), "CODE1234");
    assert!(matches!(
        bootstrap_credentials(""),
        Err(Error::EmptyCredential("pre-shared key"))
    ));
}
