use brewtech::can_protocol::{
    encode_float_bits, encode_uint32, MSG_TYPE_CALIBRATION_ACK, MSG_TYPE_DENSITY,
    MSG_TYPE_TEMPERATURE,
};
use brewtech::can_tasks::{
    calibration_command, classify_frame, probe_request, RxEvent, SensorReading, SensorState,
};
use brewtech::test_device::{is_density_probe, measurement_report, OWN_NODE_ID};

#[test]
fn temperature_frame_becomes_reading() {
    let bits = 20.5f32.to_bits();
    let ev = classify_frame(Some(0x0020_400C), &encode_float_bits(bits), 0);
    assert_eq!(
        ev,
        RxEvent::Reading(SensorReading::Temperature { node_id: 0, celsius_bits: bits })
    );
}

#[test]
fn density_frame_becomes_reading() {
    let bits = 1.045f32.to_bits();
    let ev = classify_frame(Some(0x0020_430E), &encode_float_bits(bits), 3);
    assert_eq!(ev, RxEvent::Reading(SensorReading::Density { node_id: 3, sg_bits: bits }));
}

#[test]
fn calibration_ack_is_forwarded() {
    let ev = classify_frame(Some(0x0020_401D), &encode_uint32(2), 0);
    assert_eq!(ev, RxEvent::CalibrationAck(2));
}

#[test]
fn calibration_ack_none_is_dropped() {
    assert_eq!(classify_frame(Some(0x0020_401D), &encode_uint32(0), 0), RxEvent::Ignored);
}

#[test]
fn frames_for_other_nodes_or_senders_are_ignored() {
    let data = encode_float_bits(1.0f32.to_bits());
    // another node id
    assert_eq!(classify_frame(Some(0x0020_410C), &data, 0), RxEvent::Ignored);
    // sender is a pressure sensor
    assert_eq!(classify_frame(Some(0x0018_400C), &data, 0), RxEvent::Ignored);
    // standard identifier
    assert_eq!(classify_frame(None, &data, 0), RxEvent::Ignored);
    // unhandled message type
    assert_eq!(classify_frame(Some(0x0020_4001), &data, 0), RxEvent::Ignored);
}

#[test]
fn short_payload_is_ignored() {
    assert_eq!(classify_frame(Some(0x0020_400C), &[0, 1, 2], 0), RxEvent::Ignored);
    assert_eq!(classify_frame(Some(0x0020_401D), &[0, 0, 0, 2], 0), RxEvent::Ignored);
}

#[test]
fn probe_request_frame() {
    let f = probe_request(0);
    assert_eq!(f.id, 0x0840_2021);
    assert_eq!(f.data, vec![0u8]);
    assert_eq!(probe_request(7).id, 0x0840_2721);
}

#[test]
fn calibration_command_frame() {
    let bits = 1.054f32.to_bits();
    let f = calibration_command(3, bits);
    assert_eq!(f.id, 0x0040_231C);
    let b = 1.054f32.to_le_bytes();
    assert_eq!(f.data, vec![0, b[0], b[1], b[2], b[3]]);
}

#[test]
fn sensor_recognises_probe_for_its_node_only() {
    let f = probe_request(OWN_NODE_ID);
    assert!(is_density_probe(f.id, OWN_NODE_ID));
    assert!(!is_density_probe(probe_request(1).id, OWN_NODE_ID));
    assert!(!is_density_probe(calibration_command(0, 0).id, OWN_NODE_ID));
}

#[test]
fn measurement_report_frames() {
    let bits = 20.5f32.to_bits();
    let f = measurement_report(0, MSG_TYPE_TEMPERATURE, bits);
    assert_eq!(f.id, 0x0020_400C);
    assert_eq!(f.data, encode_float_bits(bits).to_vec());
    assert_eq!(measurement_report(0, MSG_TYPE_DENSITY, bits).id, 0x0020_400E);
    assert_eq!(measurement_report(2, MSG_TYPE_CALIBRATION_ACK, 0).id, 0x0020_421D);
}

#[test]
fn report_reaches_controller() {
    let bits = 1.045f32.to_bits();
    let f = measurement_report(5, MSG_TYPE_DENSITY, bits);
    assert_eq!(
        classify_frame(Some(f.id), &f.data, 5),
        RxEvent::Reading(SensorReading::Density { node_id: 5, sg_bits: bits })
    );
    assert_eq!(classify_frame(Some(f.id), &f.data, 4), RxEvent::Ignored);
}

#[test]
fn sensor_state_keeps_latest_values_of_own_node() {
    let mut s = SensorState::new();
    assert_eq!(s.temperature, None);
    assert_eq!(s.density, None);
    assert!(s.apply_reading(SensorReading::Temperature { node_id: 0, celsius_bits: 1 }, 0));
    assert!(s.apply_reading(SensorReading::Temperature { node_id: 0, celsius_bits: 2 }, 0));
    assert!(s.apply_reading(SensorReading::Density { node_id: 0, sg_bits: 3 }, 0));
    assert!(!s.apply_reading(SensorReading::Density { node_id: 1, sg_bits: 4 }, 0));
    assert_eq!(s.temperature, Some(2));
    assert_eq!(s.density, Some(3));
}

#[test]
fn reading_node_id() {
    assert_eq!(SensorReading::Temperature { node_id: 6, celsius_bits: 0 }.node_id(), 6);
    assert_eq!(SensorReading::Density { node_id: 2, sg_bits: 0 }.node_id(), 2);
}
