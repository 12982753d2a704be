//! The controller's CAN decisions: what a received frame means, which frames
//! to transmit, and how readings update the latest known sensor values.
//!
//! Float readings are carried by their IEEE-754 bit pattern (`f32::to_bits`).
use vstd::prelude::*;
use crate::can_protocol::{
    be_value, le_value, decode_float_bits, decode_uint32, encode_float_bits, float_payload, lemma_id_roundtrip,
    spec_decode_float_bits, spec_decode_uint32, CanId, ACK_TYPE_NONE, EXTENDED_ID_MAX,
    MSG_TYPE_CALIBRATION_ACK, MSG_TYPE_CALIBRATION_CMD, MSG_TYPE_DENSITY,
    MSG_TYPE_START_MEASUREMENT_CMD, MSG_TYPE_TEMPERATURE, NODE_TYPE_DENSITY_SENSOR, NODE_TYPE_PLC,
    PRIORITY_HIGH, PRIORITY_MEDIUM,
};

verus! {

/// A sensor reading decoded from the bus; the value is the bit pattern of the
/// `f32` the sensor sent.
#[derive(Clone, Copy, Debug, PartialEq, Eq, Structural)]
pub enum SensorReading {
    Temperature { node_id: u8, celsius_bits: u32 },
    Density { node_id: u8, sg_bits: u32 },
}

impl SensorReading {
    pub open spec fn spec_node_id(self) -> u8 {
        match self {
            SensorReading::Temperature { node_id, .. } => node_id,
            SensorReading::Density { node_id, .. } => node_id,
        }
    }

    /// The node the reading came from.
    pub fn node_id(&self) -> (r: u8)
        ensures
            r == self.spec_node_id(),
    {
        match self {
            SensorReading::Temperature { node_id, .. } => *node_id,
            SensorReading::Density { node_id, .. } => *node_id,
        }
    }
}

/// What a received frame asks of the controller.
#[derive(Clone, Copy, Debug, PartialEq, Eq, Structural)]
pub enum RxEvent {
    /// A reading to forward to the readings channel.
    Reading(SensorReading),
    /// A calibration acknowledgement (never `ACK_TYPE_NONE`) to forward.
    CalibrationAck(u32),
    /// Nothing to do.
    Ignored,
}

/// A frame to transmit: a 29-bit extended identifier and its data bytes.
#[derive(Debug)]
pub struct CanFrame {
    pub id: u32,
    pub data: Vec<u8>,
}

/// What a frame with identifier `raw_id` (`None` for a standard identifier)
/// and data `data` means to a controller that listens to density sensor
/// `node_id`.
pub open spec fn spec_classify_frame(raw_id: Option<u32>, data: Seq<u8>, node_id: u8) -> RxEvent {
    match raw_id {
        None => RxEvent::Ignored,
        Some(raw) => {
            let id = CanId::spec_from_raw(raw);
            if id.sender_node_type != NODE_TYPE_DENSITY_SENSOR || id.secondary_node_id != node_id {
                RxEvent::Ignored
            } else if id.msg_type == MSG_TYPE_TEMPERATURE {
                match spec_decode_float_bits(data) {
                    Some(b) => RxEvent::Reading(
                        SensorReading::Temperature { node_id: node_id, celsius_bits: b },
                    ),
                    None => RxEvent::Ignored,
                }
            } else if id.msg_type == MSG_TYPE_DENSITY {
                match spec_decode_float_bits(data) {
                    Some(b) => RxEvent::Reading(SensorReading::Density { node_id: node_id, sg_bits: b }),
                    None => RxEvent::Ignored,
                }
            } else if id.msg_type == MSG_TYPE_CALIBRATION_ACK {
                match spec_decode_uint32(data) {
                    Some(ack) => if ack != ACK_TYPE_NONE {
                        RxEvent::CalibrationAck(ack)
                    } else {
                        RxEvent::Ignored
                    },
                    None => RxEvent::Ignored,
                }
            } else {
                RxEvent::Ignored
            }
        },
    }
}

/// Decides what a received frame means: temperature and density readings and
/// non-empty calibration acknowledgements from density sensor `node_id` are
/// kept, everything else is ignored.
pub fn classify_frame(raw_id: Option<u32>, data: &[u8], node_id: u8) -> (r: RxEvent)
    ensures
        r == spec_classify_frame(raw_id, data@, node_id),
{
    let raw = match raw_id {
        Some(raw) => raw,
        None => return RxEvent::Ignored,
    };
    let can_id = CanId::from_u32(raw);
    if can_id.sender_node_type != NODE_TYPE_DENSITY_SENSOR || can_id.secondary_node_id != node_id {
        return RxEvent::Ignored;
    }
    if can_id.msg_type == MSG_TYPE_TEMPERATURE {
        match decode_float_bits(data) {
            Some(b) => RxEvent::Reading(SensorReading::Temperature { node_id, celsius_bits: b }),
            None => RxEvent::Ignored,
        }
    } else if can_id.msg_type == MSG_TYPE_DENSITY {
        match decode_float_bits(data) {
            Some(b) => RxEvent::Reading(SensorReading::Density { node_id, sg_bits: b }),
            None => RxEvent::Ignored,
        }
    } else if can_id.msg_type == MSG_TYPE_CALIBRATION_ACK {
        match decode_uint32(data) {
            Some(ack) => if ack != ACK_TYPE_NONE {
                RxEvent::CalibrationAck(ack)
            } else {
                RxEvent::Ignored
            },
            None => RxEvent::Ignored,
        }
    } else {
        RxEvent::Ignored
    }
}

/// The identifier of the controller's start-measurement probe to density sensor `node_id`.
pub open spec fn probe_id(node_id: u8) -> CanId {
    CanId {
        priority: PRIORITY_MEDIUM,
        sender_node_type: NODE_TYPE_PLC,
        receiver_node_type: NODE_TYPE_DENSITY_SENSOR,
        secondary_node_id: node_id,
        msg_type: MSG_TYPE_START_MEASUREMENT_CMD,
    }
}

/// The identifier of the controller's calibration command to density sensor `node_id`.
pub open spec fn calibration_id(node_id: u8) -> CanId {
    CanId {
        priority: PRIORITY_HIGH,
        sender_node_type: NODE_TYPE_PLC,
        receiver_node_type: NODE_TYPE_DENSITY_SENSOR,
        secondary_node_id: node_id,
        msg_type: MSG_TYPE_CALIBRATION_CMD,
    }
}

/// The data bytes of a frame that carries the payload `p`.
pub(crate) fn payload_vec(p: [u8; 5]) -> (v: Vec<u8>)
    ensures
        v@ == p@,
{
    let v = vec![p[0], p[1], p[2], p[3], p[4]];
    assert(v@ =~= p@);
    v
}

/// The start-measurement probe to density sensor `node_id`: data is a single
/// zero sub-index byte.
pub fn probe_request(node_id: u8) -> (f: CanFrame)
    ensures
        f.id == probe_id(node_id).spec_raw(),
        f.data@ == seq![0u8],
        node_id < 8 ==> f.id <= EXTENDED_ID_MAX,
        node_id < 8 ==> CanId::spec_from_raw(f.id) == (CanId {
            priority: PRIORITY_MEDIUM,
            sender_node_type: NODE_TYPE_PLC,
            receiver_node_type: NODE_TYPE_DENSITY_SENSOR,
            secondary_node_id: node_id,
            msg_type: MSG_TYPE_START_MEASUREMENT_CMD,
        }),
{
    proof {
        if node_id < 8 {
            lemma_probe_fields(node_id);
        }
    }
    let id = CanId {
        priority: PRIORITY_MEDIUM,
        sender_node_type: NODE_TYPE_PLC,
        receiver_node_type: NODE_TYPE_DENSITY_SENSOR,
        secondary_node_id: node_id,
        msg_type: MSG_TYPE_START_MEASUREMENT_CMD,
    }.to_u32();
    let data = vec![0u8];
    assert(data@ =~= seq![0u8]);
    CanFrame { id, data }
}

/// The calibration command to density sensor `node_id` carrying the reference
/// gravity whose `f32` bit pattern is `sg_bits`.
pub fn calibration_command(node_id: u8, sg_bits: u32) -> (f: CanFrame)
    ensures
        f.id == calibration_id(node_id).spec_raw(),
        f.data@ == float_payload(sg_bits),
        node_id < 8 ==> f.id <= EXTENDED_ID_MAX,
        node_id < 8 ==> CanId::spec_from_raw(f.id) == (CanId {
            priority: PRIORITY_HIGH,
            sender_node_type: NODE_TYPE_PLC,
            receiver_node_type: NODE_TYPE_DENSITY_SENSOR,
            secondary_node_id: node_id,
            msg_type: MSG_TYPE_CALIBRATION_CMD,
        }),
{
    proof {
        if node_id < 8 {
            lemma_calibration_fields(node_id);
        }
    }
    let id = CanId {
        priority: PRIORITY_HIGH,
        sender_node_type: NODE_TYPE_PLC,
        receiver_node_type: NODE_TYPE_DENSITY_SENSOR,
        secondary_node_id: node_id,
        msg_type: MSG_TYPE_CALIBRATION_CMD,
    }.to_u32();
    CanFrame { id, data: payload_vec(encode_float_bits(sg_bits)) }
}

/// The latest values received from the sensor the controller listens to, as
/// `f32` bit patterns.
#[derive(Clone, Copy, Debug, PartialEq, Eq, Structural)]
pub struct SensorState {
    pub temperature: Option<u32>,
    pub density: Option<u32>,
}

impl SensorState {
    /// The state after `reading` arrives at a controller listening to `node_id`:
    /// a reading of that node replaces the value of its kind, any other reading
    /// changes nothing.
    pub open spec fn spec_apply(self, reading: SensorReading, node_id: u8) -> SensorState {
        match reading {
            SensorReading::Temperature { node_id: id, celsius_bits } => if id == node_id {
                SensorState { temperature: Some(celsius_bits), ..self }
            } else {
                self
            },
            SensorReading::Density { node_id: id, sg_bits } => if id == node_id {
                SensorState { density: Some(sg_bits), ..self }
            } else {
                self
            },
        }
    }

    /// No value received yet.
    pub fn new() -> (s: SensorState)
        ensures
            s.temperature is None,
            s.density is None,
    {
        SensorState { temperature: None, density: None }
    }

    /// Records `reading` if it comes from `node_id`; returns whether it did.
    pub fn apply_reading(&mut self, reading: SensorReading, node_id: u8) -> (accepted: bool)
        ensures
            *final(self) == old(self).spec_apply(reading, node_id),
            accepted == (reading.spec_node_id() == node_id),
    {
        match reading {
            SensorReading::Temperature { node_id: id, celsius_bits } => {
                if id == node_id {
                    self.temperature = Some(celsius_bits);
                    true
                } else {
                    false
                }
            },
            SensorReading::Density { node_id: id, sg_bits } => {
                if id == node_id {
                    self.density = Some(sg_bits);
                    true
                } else {
                    false
                }
            },
        }
    }
}

/// Law: a reading from the listened-to node becomes the latest value of its
/// kind.
pub proof fn lemma_reading_recorded(s: SensorState, reading: SensorReading, node_id: u8)
    requires
        reading.spec_node_id() == node_id,
    ensures
        reading matches SensorReading::Temperature { celsius_bits, .. } ==> s.spec_apply(
            reading,
            node_id,
        ).temperature == Some(celsius_bits),
        reading matches SensorReading::Density { sg_bits, .. } ==> s.spec_apply(
            reading,
            node_id,
        ).density == Some(sg_bits),
{
}

/// Law: a reading from another node leaves the state unchanged.
pub proof fn lemma_other_node_ignored(s: SensorState, reading: SensorReading, node_id: u8)
    requires
        reading.spec_node_id() != node_id,
    ensures
        s.spec_apply(reading, node_id) == s,
{
}

/// Law: of two readings of the same kind from the listened-to node, the later
/// one wins.
pub proof fn lemma_latest_reading_wins(
    s: SensorState,
    first: SensorReading,
    second: SensorReading,
    node_id: u8,
)
    requires
        first.spec_node_id() == node_id,
        second.spec_node_id() == node_id,
        (first is Temperature) == (second is Temperature),
    ensures
        s.spec_apply(first, node_id).spec_apply(second, node_id) == s.spec_apply(second, node_id),
{
}

/// Law: a reading of one kind leaves the value of the other kind unchanged.
pub proof fn lemma_kinds_independent(s: SensorState, reading: SensorReading, node_id: u8)
    ensures
        reading is Temperature ==> s.spec_apply(reading, node_id).density == s.density,
        reading is Density ==> s.spec_apply(reading, node_id).temperature == s.temperature,
{
}

/// Law: a standard (11-bit) identifier is never acted on.
pub proof fn lemma_standard_id_ignored(data: Seq<u8>, node_id: u8)
    ensures
        spec_classify_frame(None, data, node_id) == RxEvent::Ignored,
{
}

/// Law: frames from any node other than the listened-to one are ignored.
pub proof fn lemma_other_sensor_ignored(raw: u32, data: Seq<u8>, node_id: u8)
    requires
        CanId::spec_from_raw(raw).secondary_node_id != node_id,
    ensures
        spec_classify_frame(Some(raw), data, node_id) == RxEvent::Ignored,
{
}

/// Law: the controller's own commands are never taken for sensor messages.
pub proof fn lemma_own_commands_ignored(node_id: u8, listened: u8, data: Seq<u8>)
    requires
        node_id < 8,
    ensures
        spec_classify_frame(Some(probe_id(node_id).spec_raw()), data, listened) == RxEvent::Ignored,
        spec_classify_frame(Some(calibration_id(node_id).spec_raw()), data, listened)
            == RxEvent::Ignored,
{
    lemma_id_roundtrip(probe_id(node_id));
    lemma_id_roundtrip(calibration_id(node_id));
}

/// Law: the probe to density sensor `node_id` (a node id 0-7) carries, field by
/// field, medium priority, the PLC as sender, density sensors as receiver, that
/// node id and the start-measurement message type.
pub proof fn lemma_probe_fields(node_id: u8)
    requires
        node_id < 8,
    ensures
        CanId::spec_from_raw(probe_id(node_id).spec_raw()) == (CanId {
            priority: PRIORITY_MEDIUM,
            sender_node_type: NODE_TYPE_PLC,
            receiver_node_type: NODE_TYPE_DENSITY_SENSOR,
            secondary_node_id: node_id,
            msg_type: MSG_TYPE_START_MEASUREMENT_CMD,
        }),
{
    lemma_id_roundtrip(probe_id(node_id));
}

/// Law: the calibration command to density sensor `node_id` (a node id 0-7)
/// carries, field by field, high priority, the PLC as sender, density sensors
/// as receiver, that node id and the calibration-command message type; so
/// commands to different nodes have different identifiers.
pub proof fn lemma_calibration_fields(node_id: u8)
    requires
        node_id < 8,
    ensures
        CanId::spec_from_raw(calibration_id(node_id).spec_raw()) == (CanId {
            priority: PRIORITY_HIGH,
            sender_node_type: NODE_TYPE_PLC,
            receiver_node_type: NODE_TYPE_DENSITY_SENSOR,
            secondary_node_id: node_id,
            msg_type: MSG_TYPE_CALIBRATION_CMD,
        }),
{
    lemma_id_roundtrip(calibration_id(node_id));
}

/// Law: what a frame means depends only on its sender type, node id and
/// message type (and its data): priority and receiver type play no part.
pub proof fn lemma_classify_ignores_priority_and_receiver(
    raw1: u32,
    raw2: u32,
    data: Seq<u8>,
    node_id: u8,
)
    requires
        CanId::spec_from_raw(raw1).sender_node_type == CanId::spec_from_raw(raw2).sender_node_type,
        CanId::spec_from_raw(raw1).secondary_node_id == CanId::spec_from_raw(raw2).secondary_node_id,
        CanId::spec_from_raw(raw1).msg_type == CanId::spec_from_raw(raw2).msg_type,
    ensures
        spec_classify_frame(Some(raw1), data, node_id) == spec_classify_frame(Some(raw2), data, node_id),
{
}

/// Law: a frame from density sensor `node_id`, whatever its priority and
/// receiver, is a temperature or density reading of bytes 1-4 read
/// little-endian, or a calibration acknowledgement of bytes 1-4 read
/// big-endian (dropped when 0), by its message type; other message types and
/// data shorter than five bytes are ignored.
pub proof fn lemma_classify_sensor_frame(raw: u32, data: Seq<u8>, node_id: u8)
    requires
        CanId::spec_from_raw(raw).sender_node_type == NODE_TYPE_DENSITY_SENSOR,
        CanId::spec_from_raw(raw).secondary_node_id == node_id,
    ensures
        data.len() < 5 ==> spec_classify_frame(Some(raw), data, node_id) == RxEvent::Ignored,
        data.len() >= 5 && CanId::spec_from_raw(raw).msg_type == MSG_TYPE_TEMPERATURE
            ==> spec_classify_frame(Some(raw), data, node_id) == RxEvent::Reading(
            SensorReading::Temperature {
                node_id: node_id,
                celsius_bits: le_value(data[1], data[2], data[3], data[4]) as u32,
            },
        ),
        data.len() >= 5 && CanId::spec_from_raw(raw).msg_type == MSG_TYPE_DENSITY
            ==> spec_classify_frame(Some(raw), data, node_id) == RxEvent::Reading(
            SensorReading::Density {
                node_id: node_id,
                sg_bits: le_value(data[1], data[2], data[3], data[4]) as u32,
            },
        ),
        data.len() >= 5 && CanId::spec_from_raw(raw).msg_type == MSG_TYPE_CALIBRATION_ACK
            ==> spec_classify_frame(Some(raw), data, node_id) == (if be_value(
            data[1],
            data[2],
            data[3],
            data[4],
        ) != 0 {
            RxEvent::CalibrationAck(be_value(data[1], data[2], data[3], data[4]) as u32)
        } else {
            RxEvent::Ignored
        }),
        CanId::spec_from_raw(raw).msg_type != MSG_TYPE_TEMPERATURE && CanId::spec_from_raw(
            raw,
        ).msg_type != MSG_TYPE_DENSITY && CanId::spec_from_raw(raw).msg_type
            != MSG_TYPE_CALIBRATION_ACK ==> spec_classify_frame(Some(raw), data, node_id)
            == RxEvent::Ignored,
{
    if data.len() >= 5 {
        assert(0 <= be_value(data[1], data[2], data[3], data[4]) < 0x1_0000_0000);
    }
}

} // verus!
