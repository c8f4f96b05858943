use home_telemetry::{InitializationPacket, IpAddress, Registry};

fn metadata(location: &str, measurand: &str, unit: &str) -> InitializationPacket {
    InitializationPacket {
        version: "0.0".to_string(),
        location: location.to_string(),
        measurands: vec![measurand.to_string()],
        units: vec![unit.to_string()],
    }
}

#[test]
fn new_registry_knows_nobody() {
    let registry = Registry::new();
    assert_eq!(registry.lookup(&IpAddress::V4(0x0a00_0001)), None);
    assert_eq!(registry.lookup(&IpAddress::V6(1)), None);
}

#[test]
fn registered_metadata_is_found_again() {
    let mut registry = Registry::new();
    registry.register(IpAddress::V4(7), metadata("kitchen", "temperature", "C"));
    assert_eq!(registry.lookup(&IpAddress::V4(7)), Some(metadata("kitchen", "temperature", "C")));
}

#[test]
fn second_handshake_replaces_the_first() {
    let mut registry = Registry::new();
    let address = IpAddress::V4(0xc0a8_0105);
    registry.register(address, metadata("kitchen", "temperature", "C"));
    registry.register(address, metadata("attic", "humidity", "%"));
    assert_eq!(registry.lookup(&address), Some(metadata("attic", "humidity", "%")));
}

#[test]
fn sessions_of_other_addresses_are_untouched() {
    let mut registry = Registry::new();
    registry.register(IpAddress::V4(1), metadata("kitchen", "temperature", "C"));
    registry.register(IpAddress::V4(2), metadata("attic", "humidity", "%"));
    registry.register(IpAddress::V4(2), metadata("cellar", "pressure", "hPa"));
    assert_eq!(registry.lookup(&IpAddress::V4(1)), Some(metadata("kitchen", "temperature", "C")));
    assert_eq!(registry.lookup(&IpAddress::V4(3)), None);
}

#[test]
fn address_families_are_kept_apart() {
    let mut registry = Registry::new();
    registry.register(IpAddress::V4(1), metadata("kitchen", "temperature", "C"));
    assert_eq!(registry.lookup(&IpAddress::V6(1)), None);
    registry.register(IpAddress::V6(1), metadata("attic", "humidity", "%"));
    assert_eq!(registry.lookup(&IpAddress::V4(1)), Some(metadata("kitchen", "temperature", "C")));
    assert_eq!(registry.lookup(&IpAddress::V6(1)), Some(metadata("attic", "humidity", "%")));
    assert_eq!(registry.lookup(&IpAddress::V6(u128::MAX)), None);
}

#[test]
fn lookup_hands_out_a_copy() {
    let mut registry = Registry::new();
    registry.register(IpAddress::V4(1), metadata("kitchen", "temperature", "C"));
    let mut copy = registry.lookup(&IpAddress::V4(1)).unwrap();
    copy.location.push_str(" changed");
    assert_eq!(registry.lookup(&IpAddress::V4(1)), Some(metadata("kitchen", "temperature", "C")));
}
