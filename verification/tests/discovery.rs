use glimta::client::{GatewayAddress, Ipv4Endpoint};
use glimta::discovery::{
    gateways_from_map, is_gateway_hostname, record_gateway, record_service, service_port,
    DiscoveredGateways,
};
use glimta::Error;

fn v4(octets: [u8; 4], port: u16) -> Ipv4Endpoint {
    Ipv4Endpoint::from_octets(octets, port)
}

#[test]
fn discovery_order_and_address_selection_are_deterministic() {
    let mut discovered = DiscoveredGateways::new();
    record_gateway(&mut discovered, "TRADFRI-Gateway-z", v4([192, 0, 2, 20], 5684));
    record_gateway(&mut discovered, "TRADFRI-Gateway-a", v4([192, 0, 2, 30], 5684));
    record_gateway(&mut discovered, "TRADFRI-Gateway-a", v4([192, 0, 2, 10], 5684));

    let gateways = gateways_from_map(discovered).expect("gateways exist");
    assert_eq!(gateways.len(), 2);
    assert_eq!(gateways[0].hostname(), Some("TRADFRI-Gateway-a"));
    assert_eq!(gateways[0].address(), GatewayAddress::V4(v4([192, 0, 2, 10], 5684)));
    assert_eq!(gateways[1].hostname(), Some("TRADFRI-Gateway-z"));
}

#[test]
fn no_gateway_is_an_error() {
    assert!(matches!(gateways_from_map(DiscoveredGateways::new()), Err(Error::NoGatewayFound)));
}

#[test]
fn announcement_order_does_not_matter() {
    let addresses = [
        ("TRADFRI-Gateway-b", v4([10, 0, 0, 9], 5684)),
        ("TRADFRI-Gateway-c", v4([10, 0, 0, 1], 5684)),
        ("TRADFRI-Gateway-b", v4([10, 0, 0, 9], 5683)),
        ("TRADFRI-Gateway-a", v4([10, 0, 0, 5], 5684)),
    ];
    let mut forward = DiscoveredGateways::new();
    for (host, address) in addresses.iter() {
        record_gateway(&mut forward, host, *address);
    }
    let mut backward = DiscoveredGateways::new();
    for (host, address) in addresses.iter().rev() {
        record_gateway(&mut backward, host, *address);
    }
    let forward = gateways_from_map(forward).expect("found");
    let backward = gateways_from_map(backward).expect("found");
    assert_eq!(forward, backward);
    let hosts: Vec<_> = forward.iter().map(|g| g.hostname().unwrap().to_string()).collect();
    assert_eq!(hosts, vec!["TRADFRI-Gateway-a", "TRADFRI-Gateway-b", "TRADFRI-Gateway-c"]);
    assert_eq!(forward[1].address(), GatewayAddress::V4(v4([10, 0, 0, 9], 5683)));
}

#[test]
fn only_gateway_services_are_recorded() {
    assert!(is_gateway_hostname("TRADFRI-Gateway-1234"));
    assert!(!is_gateway_hostname("TRADFRI-Gatewa"));
    assert!(!is_gateway_hostname("printer.local."));
    assert_eq!(service_port(0), 5684);
    assert_eq!(service_port(5683), 5683);

    let mut discovered = DiscoveredGateways::new();
    record_service(&mut discovered, "printer.local.", 631, &vec![0x0A00_0002]);
    assert!(discovered.is_empty());
    record_service(&mut discovered, "TRADFRI-Gateway-x", 0, &vec![0x0A00_0003, 0x0A00_0002]);
    assert_eq!(discovered.len(), 1);
    let gateways = gateways_from_map(discovered).expect("found");
    assert_eq!(gateways[0].address(), GatewayAddress::V4(v4([10, 0, 0, 2], 5684)));
}
