use home_telemetry::metadata::{acknowledgment, is_ack};
use home_telemetry::server::{
    after_read, handle_data, handle_datagram, handle_initialization, pair_readings,
};
use home_telemetry::{
    ConfigError, ConverterError, DatagramOutcome, IngestPlan, InitializationPacket, IpAddress,
    NetworkPacket, ReadStep, Registry, Sendable, StorageWrite,
};

fn strings(items: &[&str]) -> Vec<String> {
    items.iter().map(|item| item.to_string()).collect()
}

fn metadata(location: &str, measurands: &[&str], units: &[&str]) -> InitializationPacket {
    InitializationPacket {
        version: "0.0".to_string(),
        location: location.to_string(),
        measurands: strings(measurands),
        units: strings(units),
    }
}

fn frame(values: &[f32]) -> NetworkPacket {
    NetworkPacket { data: values.iter().map(|value| value.to_bits()).collect(), ..Default::default() }
}

fn write(location: &str, measurand: &str, value: f32, unit: &str) -> StorageWrite {
    StorageWrite {
        location: location.to_string(),
        measurand: measurand.to_string(),
        value: value.to_bits(),
        unit: unit.to_string(),
    }
}

const DEVICE: IpAddress = IpAddress::V4(0xc0a8_0117);

#[test]
fn acknowledgment_is_the_text_200() {
    assert_eq!(acknowledgment(), b"200");
    assert!(is_ack(b"200"));
    assert!(!is_ack(b"200\n"));
    assert!(!is_ack(b"20"));
    assert!(!is_ack(b""));
    assert!(!is_ack(b"404"));
    assert!(!is_ack(b"201"));
    assert!(!is_ack(b"210"));
}

#[test]
fn kitchen_handshake_then_one_reading_gives_one_write() {
    let mut registry = Registry::new();
    let handshake = metadata("kitchen", &["temperature"], &["C"]).to_bytes().unwrap();
    let reply = handle_initialization(DEVICE, &handshake, &mut registry).unwrap();
    assert_eq!(reply, b"200");
    let datagram = NetworkPacket {
        version: "0.0".to_string(),
        units: String::new(),
        location: String::new(),
        data: vec![32.0f32.to_bits()],
    }
    .to_bytes()
    .unwrap();
    match handle_datagram(&DEVICE, &datagram, &registry) {
        DatagramOutcome::Accepted(plan) => {
            assert_eq!(plan.writes, vec![write("kitchen", "temperature", 32.0, "C")]);
            assert_eq!(f32::from_bits(plan.writes[0].value), 32.0);
        },
        other => panic!("unexpected outcome: {:?}", other),
    }
}

#[test]
fn decoded_frame_of_one_announced_reading_gives_exactly_one_write() {
    let mut registry = Registry::new();
    registry.register(DEVICE, metadata("kitchen", &["temperature"], &["C"]));
    let plan = handle_data(&DEVICE, &frame(&[32.0]), &registry).unwrap();
    assert_eq!(
        plan,
        IngestPlan { writes: vec![write("kitchen", "temperature", 32.0, "C")], length_mismatch: false }
    );
}

#[test]
fn unregistered_sender_is_refused_and_nothing_is_written() {
    let mut registry = Registry::new();
    registry.register(IpAddress::V4(1), metadata("kitchen", &["temperature"], &["C"]));
    let refusal = handle_data(&DEVICE, &frame(&[32.0]), &registry).unwrap_err();
    assert_eq!(refusal, ConfigError::NotConfigured(DEVICE));
    let datagram = frame(&[32.0]).to_bytes().unwrap();
    assert_eq!(
        handle_datagram(&DEVICE, &datagram, &registry),
        DatagramOutcome::Unconfigured(ConfigError::NotConfigured(DEVICE))
    );
}

#[test]
fn datagram_that_is_no_frame_is_dropped_whoever_sent_it() {
    let mut registry = Registry::new();
    let expected = DatagramOutcome::Undecodable(ConverterError::BytesConvertError(
        "version not existing: 9.9".to_string(),
    ));
    assert_eq!(handle_datagram(&DEVICE, b"99 and more", &registry), expected);
    registry.register(DEVICE, metadata("kitchen", &["temperature"], &["C"]));
    assert_eq!(handle_datagram(&DEVICE, b"99 and more", &registry), expected);
    assert_eq!(
        handle_datagram(&DEVICE, b"", &registry),
        DatagramOutcome::Undecodable(ConverterError::BytesConvertError(
            "Frame is cut short".to_string()
        ))
    );
}

#[test]
fn location_is_stored_as_it_was_announced() {
    let mut registry = Registry::new();
    registry.register(DEVICE, metadata("Kitchen NORTH", &["Temperature"], &["C"]));
    let plan = handle_data(&DEVICE, &frame(&[21.5]), &registry).unwrap();
    assert_eq!(plan.writes, vec![write("Kitchen NORTH", "Temperature", 21.5, "C")]);
}

#[test]
fn registered_kitchen_gives_a_row_for_kitchen_with_its_capital() {
    let mut registry = Registry::new();
    registry.register(DEVICE, metadata("Kitchen", &["temperature"], &["C"]));
    let plan = handle_data(&DEVICE, &frame(&[32.0]), &registry).unwrap();
    assert_eq!(plan.writes, vec![write("Kitchen", "temperature", 32.0, "C")]);
    assert!(!plan.length_mismatch);
}

#[test]
fn readings_are_paired_by_position() {
    let announced = metadata("attic", &["temperature", "humidity", "pressure"], &["C", "%", "hPa"]);
    let plan = pair_readings(&"attic".to_string(), &announced, &frame(&[19.0, 55.5, 1013.25]));
    assert_eq!(
        plan.writes,
        vec![
            write("attic", "temperature", 19.0, "C"),
            write("attic", "humidity", 55.5, "%"),
            write("attic", "pressure", 1013.25, "hPa"),
        ]
    );
    assert!(!plan.length_mismatch);
}

#[test]
fn surplus_readings_are_left_out_and_reported() {
    let announced = metadata("attic", &["temperature"], &["C"]);
    let plan = pair_readings(&"attic".to_string(), &announced, &frame(&[19.0, 55.5]));
    assert_eq!(plan.writes, vec![write("attic", "temperature", 19.0, "C")]);
    assert!(plan.length_mismatch);
}

#[test]
fn missing_readings_are_reported_and_the_rest_written() {
    let announced = metadata("attic", &["temperature", "humidity"], &["C", "%"]);
    let plan = pair_readings(&"attic".to_string(), &announced, &frame(&[19.0]));
    assert_eq!(plan.writes, vec![write("attic", "temperature", 19.0, "C")]);
    assert!(plan.length_mismatch);
}

#[test]
fn unequal_lists_pair_as_far_as_the_shortest() {
    let announced = metadata("attic", &["temperature", "humidity"], &["C"]);
    let plan = pair_readings(&"attic".to_string(), &announced, &frame(&[19.0, 55.5]));
    assert_eq!(plan.writes, vec![write("attic", "temperature", 19.0, "C")]);
    assert!(plan.length_mismatch);
}

#[test]
fn frame_without_readings_gives_no_writes() {
    let announced = metadata("attic", &["temperature"], &["C"]);
    let plan = pair_readings(&"attic".to_string(), &announced, &frame(&[]));
    assert!(plan.writes.is_empty());
    assert!(plan.length_mismatch);
    let nothing = metadata("attic", &[], &[]);
    let plan = pair_readings(&"attic".to_string(), &nothing, &frame(&[]));
    assert!(plan.writes.is_empty());
    assert!(!plan.length_mismatch);
}

#[test]
fn full_datagram_from_a_device_with_one_measurand_reports_a_mismatch() {
    let mut registry = Registry::new();
    registry.register(DEVICE, metadata("kitchen", &["temperature"], &["C"]));
    let datagram = frame(&[32.0]).to_bytes().unwrap();
    match handle_datagram(&DEVICE, &datagram, &registry) {
        DatagramOutcome::Accepted(plan) => {
            assert_eq!(plan.writes.len(), 1);
            assert!(plan.length_mismatch);
        },
        other => panic!("unexpected outcome: {:?}", other),
    }
}

#[test]
fn handshake_that_does_not_decode_registers_nothing() {
    let mut registry = Registry::new();
    let error = handle_initialization(DEVICE, b"0.1;kitchen;t;C\n", &mut registry).unwrap_err();
    assert_eq!(error, ConverterError::BytesConvertError("Version does not exist: 0.1".to_string()));
    assert_eq!(registry.lookup(&DEVICE), None);
    registry.register(DEVICE, metadata("kitchen", &["temperature"], &["C"]));
    assert!(handle_initialization(DEVICE, b"0.0;attic\n", &mut registry).is_err());
    assert_eq!(registry.lookup(&DEVICE), Some(metadata("kitchen", &["temperature"], &["C"])));
}

#[test]
fn second_handshake_of_an_address_replaces_its_session() {
    let mut registry = Registry::new();
    assert_eq!(handle_initialization(DEVICE, b"0.0;kitchen;temperature;C\n", &mut registry).unwrap(), b"200");
    assert_eq!(handle_initialization(DEVICE, b"0.0;attic;humidity;%\n", &mut registry).unwrap(), b"200");
    assert_eq!(registry.lookup(&DEVICE), Some(metadata("attic", &["humidity"], &["%"])));
    let plan = handle_data(&DEVICE, &frame(&[40.0]), &registry).unwrap();
    assert_eq!(plan.writes, vec![write("attic", "humidity", 40.0, "%")]);
}

#[test]
fn readings_are_stored_whatever_the_text_fields_of_the_frame_hold() {
    let mut registry = Registry::new();
    registry.register(DEVICE, metadata("kitchen", &["temperature"], &["C"]));
    let mut datagram = frame(&[32.0]).to_bytes().unwrap();
    datagram[2] = 0xFF;
    datagram[40] = 0xC2;
    match handle_datagram(&DEVICE, &datagram, &registry) {
        DatagramOutcome::Accepted(plan) => {
            assert_eq!(plan.writes, vec![write("kitchen", "temperature", 32.0, "C")]);
        },
        other => panic!("unexpected outcome: {:?}", other),
    }
}

#[test]
fn reading_goes_on_until_the_line_feed() {
    assert_eq!(after_read(b"0.0;kit", 7), ReadStep::Continue);
    assert_eq!(after_read(b"0.0;kitchen;t;C\n", 9), ReadStep::Complete);
    assert_eq!(after_read(b"\n", 1), ReadStep::Complete);
}

#[test]
fn end_of_stream_before_the_line_feed_gives_the_handshake_up() {
    assert_eq!(after_read(b"0.0;kit", 0), ReadStep::Abort);
    assert_eq!(after_read(b"", 0), ReadStep::Abort);
    assert_eq!(after_read(b"0.0;kitchen;t;C\n", 0), ReadStep::Complete);
}
