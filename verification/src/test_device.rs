//! The decisions of the bench device that simulates a density sensor: which
//! frames are measurement probes for it, and the frames it reports with.
use vstd::prelude::*;
use crate::can_protocol::{
    encode_float_bits, float_payload, lemma_float_bits_roundtrip, lemma_id_roundtrip,
    lemma_uint32_roundtrip, uint32_payload, CanId, ACK_TYPE_NONE, EXTENDED_ID_MAX,
    MSG_TYPE_CALIBRATION_ACK, MSG_TYPE_DENSITY, MSG_TYPE_START_MEASUREMENT_CMD, MSG_TYPE_TEMPERATURE,
    NODE_TYPE_DENSITY_SENSOR, NODE_TYPE_PLC, PRIORITY_HIGH,
};
use crate::can_tasks::{
    payload_vec, probe_id, spec_classify_frame, CanFrame, RxEvent, SensorReading,
};

verus! {

/// The node id the bench device answers to.
pub const OWN_NODE_ID: u8 = 0;

/// Whether the extended identifier `raw_id` is a start-measurement command to
/// the density sensor with node id `own_node_id` (from any sender).
pub open spec fn spec_is_density_probe(raw_id: u32, own_node_id: u8) -> bool {
    let id = CanId::spec_from_raw(raw_id);
    id.receiver_node_type == NODE_TYPE_DENSITY_SENSOR && id.secondary_node_id == own_node_id
        && id.msg_type == MSG_TYPE_START_MEASUREMENT_CMD
}

/// Tells whether a received extended identifier asks this sensor for a density measurement.
pub fn is_density_probe(raw_id: u32, own_node_id: u8) -> (r: bool)
    ensures
        r == spec_is_density_probe(raw_id, own_node_id),
        r ==> CanId::spec_from_raw(raw_id).msg_type == MSG_TYPE_START_MEASUREMENT_CMD,
        r ==> CanId::spec_from_raw(raw_id).secondary_node_id == own_node_id,
{
    let can_id = CanId::from_u32(raw_id);
    can_id.receiver_node_type == NODE_TYPE_DENSITY_SENSOR && can_id.secondary_node_id
        == own_node_id && can_id.msg_type == MSG_TYPE_START_MEASUREMENT_CMD
}

/// The identifier of a report of message type `msg_type` from density sensor `node_id`.
pub open spec fn report_id(node_id: u8, msg_type: u8) -> CanId {
    CanId {
        priority: PRIORITY_HIGH,
        sender_node_type: NODE_TYPE_DENSITY_SENSOR,
        receiver_node_type: NODE_TYPE_PLC,
        secondary_node_id: node_id,
        msg_type: msg_type,
    }
}

/// The frame density sensor `node_id` sends to report the `f32` whose bit
/// pattern is `value_bits` under message type `msg_type`.
pub fn measurement_report(node_id: u8, msg_type: u8, value_bits: u32) -> (f: CanFrame)
    ensures
        f.id == report_id(node_id, msg_type).spec_raw(),
        f.data@ == float_payload(value_bits),
        node_id < 8 ==> f.id <= EXTENDED_ID_MAX,
        node_id < 8 ==> CanId::spec_from_raw(f.id) == (CanId {
            priority: PRIORITY_HIGH,
            sender_node_type: NODE_TYPE_DENSITY_SENSOR,
            receiver_node_type: NODE_TYPE_PLC,
            secondary_node_id: node_id,
            msg_type: msg_type,
        }),
{
    proof {
        if node_id < 8 {
            lemma_id_roundtrip(report_id(node_id, msg_type));
        }
    }
    let id = CanId {
        priority: PRIORITY_HIGH,
        sender_node_type: NODE_TYPE_DENSITY_SENSOR,
        receiver_node_type: NODE_TYPE_PLC,
        secondary_node_id: node_id,
        msg_type,
    }.to_u32();
    CanFrame { id, data: payload_vec(encode_float_bits(value_bits)) }
}

/// Law: the controller's probe to density sensor `node_id` is recognised by
/// that sensor and by no sensor with another node id.
pub proof fn lemma_probe_recognised(node_id: u8, own_node_id: u8)
    requires
        node_id < 8,
    ensures
        spec_is_density_probe(probe_id(node_id).spec_raw(), own_node_id) == (node_id
            == own_node_id),
{
    lemma_id_roundtrip(probe_id(node_id));
}

/// Law: a temperature report from sensor `node_id` reaches a controller
/// listening to that node as exactly the temperature that was sent.
pub proof fn lemma_temperature_report_received(node_id: u8, bits: u32)
    requires
        node_id < 8,
    ensures
        spec_classify_frame(
            Some(report_id(node_id, MSG_TYPE_TEMPERATURE).spec_raw()),
            float_payload(bits),
            node_id,
        ) == RxEvent::Reading(SensorReading::Temperature { node_id: node_id, celsius_bits: bits }),
{
    lemma_id_roundtrip(report_id(node_id, MSG_TYPE_TEMPERATURE));
    lemma_float_bits_roundtrip(bits);
}

/// Law: a density report from sensor `node_id` reaches a controller listening
/// to that node as exactly the gravity that was sent.
pub proof fn lemma_density_report_received(node_id: u8, bits: u32)
    requires
        node_id < 8,
    ensures
        spec_classify_frame(
            Some(report_id(node_id, MSG_TYPE_DENSITY).spec_raw()),
            float_payload(bits),
            node_id,
        ) == RxEvent::Reading(SensorReading::Density { node_id: node_id, sg_bits: bits }),
{
    lemma_id_roundtrip(report_id(node_id, MSG_TYPE_DENSITY));
    lemma_float_bits_roundtrip(bits);
}

/// Law: a calibration acknowledgement from sensor `node_id` reaches a
/// controller listening to that node as the acknowledged value, unless it is
/// `ACK_TYPE_NONE`, which is dropped.
pub proof fn lemma_calibration_ack_received(node_id: u8, ack: u32)
    requires
        node_id < 8,
    ensures
        spec_classify_frame(
            Some(report_id(node_id, MSG_TYPE_CALIBRATION_ACK).spec_raw()),
            uint32_payload(ack),
            node_id,
        ) == (if ack != ACK_TYPE_NONE {
            RxEvent::CalibrationAck(ack)
        } else {
            RxEvent::Ignored
        }),
{
    lemma_id_roundtrip(report_id(node_id, MSG_TYPE_CALIBRATION_ACK));
    lemma_uint32_roundtrip(ack);
}

/// Law: a frame is a density probe for the sensor with node id `own_node_id`
/// exactly when it is addressed to density sensors, to that node id, with the
/// start-measurement message type, whoever sent it and at whatever priority;
/// any other message type (calibration, node-id update, ...) is never a probe.
pub proof fn lemma_probe_exactly_start_measurement(raw: u32, own_node_id: u8)
    ensures
        spec_is_density_probe(raw, own_node_id) <==> (CanId::spec_from_raw(raw).receiver_node_type
            == NODE_TYPE_DENSITY_SENSOR && CanId::spec_from_raw(raw).secondary_node_id
            == own_node_id && CanId::spec_from_raw(raw).msg_type == MSG_TYPE_START_MEASUREMENT_CMD),
{
}

/// Law: a frame is a probe for at most one node id.
pub proof fn lemma_probe_for_one_node(raw: u32, n1: u8, n2: u8)
    requires
        spec_is_density_probe(raw, n1),
        spec_is_density_probe(raw, n2),
    ensures
        n1 == n2,
{
}

} // verus!
