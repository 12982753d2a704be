//! BrewTools CAN protocol: identifier layout, message constants and payload encodings.
use vstd::prelude::*;

verus! {

// Priorities (2-bit field, lower value = higher priority)
pub const PRIORITY_HIGH: u8 = 0;

pub const PRIORITY_MEDIUM: u8 = 1;

// Node types
pub const NODE_TYPE_FCS_F_IO: u8 = 2;

pub const NODE_TYPE_PRESSURE_SENSOR: u8 = 3;

pub const NODE_TYPE_DENSITY_SENSOR: u8 = 4;

pub const NODE_TYPE_LEVEL_SENSOR: u8 = 5;

pub const NODE_TYPE_AGITATOR: u8 = 6;

pub const NODE_TYPE_PLC: u8 = 8;

// Message types
pub const MSG_TYPE_SEMANTIC_VERSION: u8 = 1;

pub const MSG_TYPE_TEMPERATURE: u8 = 12;

pub const MSG_TYPE_PRESSURE: u8 = 13;

pub const MSG_TYPE_DENSITY: u8 = 14;

pub const MSG_TYPE_LEVEL: u8 = 16;

pub const MSG_TYPE_RPM: u8 = 17;

pub const MSG_TYPE_DCC: u8 = 18;

pub const MSG_TYPE_ACC: u8 = 19;

pub const MSG_TYPE_PWM: u8 = 27;

pub const MSG_TYPE_CALIBRATION_CMD: u8 = 28;

pub const MSG_TYPE_CALIBRATION_ACK: u8 = 29;

pub const MSG_TYPE_START_MEASUREMENT_CMD: u8 = 33;

pub const MSG_TYPE_NODE_ID: u8 = 36;

// Calibration acknowledgement values (carried as big-endian u32 in bytes 1-4)
pub const ACK_TYPE_NONE: u32 = 0;

pub const ACK_TYPE_CALIBRATING: u32 = 1;

pub const ACK_TYPE_OK: u32 = 2;

pub const ACK_TYPE_ERROR: u32 = 3;

pub const MAX_NODES: usize = 8;

/// Largest value that fits in a 29-bit extended CAN identifier.
pub const EXTENDED_ID_MAX: u32 = 0x1FFF_FFFF;

/// Decoded fields of a 29-bit extended CAN identifier.
///
/// Layout (MSB -> LSB):
///   [28:27] priority, [26:19] senderNodeType, [18:11] receiverNodeType,
///   [10:8]  secondaryNodeId, [7:0] msgType
#[derive(Clone, Copy, Debug, PartialEq, Eq, Structural)]
pub struct CanId {
    pub priority: u8,
    pub sender_node_type: u8,
    pub receiver_node_type: u8,
    pub secondary_node_id: u8,
    pub msg_type: u8,
}

impl CanId {
    /// Every field fits in its slot of the identifier: the priority in two bits,
    /// the secondary node id in three (node ids 0-7).
    pub open spec fn wf(self) -> bool {
        self.priority < 4 && self.secondary_node_id < 8
    }

    /// The fields that the identifier `id` carries (bits above 28 are ignored).
    pub open spec fn spec_from_raw(id: u32) -> CanId {
        CanId {
            priority: ((id >> 27u32) & 0x3u32) as u8,
            sender_node_type: ((id >> 19u32) & 0xFFu32) as u8,
            receiver_node_type: ((id >> 11u32) & 0xFFu32) as u8,
            secondary_node_id: ((id >> 8u32) & 0x7u32) as u8,
            msg_type: (id & 0xFFu32) as u8,
        }
    }

    /// The identifier built from the fields: each field shifted to its slot and
    /// all of them or-ed together, in 32 bits (the protocol's `getCANid`).
    pub open spec fn spec_raw(self) -> u32 {
        ((self.priority as u32) << 27u32) | ((self.sender_node_type as u32) << 19u32) | ((
        self.receiver_node_type as u32) << 11u32) | ((self.secondary_node_id as u32) << 8u32) | (
        self.msg_type as u32)
    }

    /// The same identifier as plain arithmetic, where the fields do not overlap.
    pub open spec fn spec_packed(self) -> int {
        self.priority * 0x800_0000 + self.sender_node_type * 0x8_0000 + self.receiver_node_type
            * 0x800 + self.secondary_node_id * 0x100 + self.msg_type
    }

    /// Splits a raw identifier into its fields.
    pub fn from_u32(id: u32) -> (r: CanId)
        ensures
            r == CanId::spec_from_raw(id),
            r.wf(),
    {
        let r = CanId {
            priority: ((id >> 27) & 0x03) as u8,
            sender_node_type: ((id >> 19) & 0xFF) as u8,
            receiver_node_type: ((id >> 11) & 0xFF) as u8,
            secondary_node_id: ((id >> 8) & 0x07) as u8,
            msg_type: (id & 0xFF) as u8,
        };
        proof {
            lemma_from_raw_wf(id);
        }
        r
    }

    /// Packs the fields into a raw identifier.
    pub fn to_u32(&self) -> (r: u32)
        ensures
            r == self.spec_raw(),
            self.wf() ==> r == self.spec_packed(),
            self.wf() ==> r <= EXTENDED_ID_MAX,
    {
        let r = ((self.priority as u32) << 27) | ((self.sender_node_type as u32) << 19) | ((
        self.receiver_node_type as u32) << 11) | ((self.secondary_node_id as u32) << 8) | (
        self.msg_type as u32);
        proof {
            if self.wf() {
                lemma_raw_packed(*self);
            }
        }
        r
    }
}

/// For a well-formed identifier, or-ing the shifted fields is adding them, and
/// the result fits in 29 bits.
pub proof fn lemma_raw_packed(id: CanId)
    requires
        id.wf(),
    ensures
        id.spec_raw() == id.spec_packed(),
        id.spec_raw() <= EXTENDED_ID_MAX,
{
    let p = id.priority;
    let s = id.sender_node_type;
    let r = id.receiver_node_type;
    let n = id.secondary_node_id;
    let m = id.msg_type;
    assert(((p as u32) << 27u32) | ((s as u32) << 19u32) | ((r as u32) << 11u32) | ((n as u32)
        << 8u32) | (m as u32) == (p as u32 * 0x800_0000u32 + s as u32 * 0x8_0000u32 + r as u32
        * 0x800u32 + n as u32 * 0x100u32 + m as u32) as u32) by (bit_vector)
        requires
            p < 4,
            n < 8,
    ;
    assert(((p as u32) << 27u32) | ((s as u32) << 19u32) | ((r as u32) << 11u32) | ((n as u32)
        << 8u32) | (m as u32) <= 0x1FFF_FFFFu32) by (bit_vector)
        requires
            p < 4,
            n < 8,
    ;
}

/// Law: splitting a raw identifier always gives well-formed fields.
pub proof fn lemma_from_raw_wf(raw: u32)
    ensures
        CanId::spec_from_raw(raw).wf(),
{
    assert((((raw >> 27u32) & 0x3u32) as u8) < 4u8) by (bit_vector);
    assert((((raw >> 8u32) & 0x7u32) as u8) < 8u8) by (bit_vector);
}

/// Law: packing well-formed fields and splitting the result gives the fields back.
pub proof fn lemma_id_roundtrip(id: CanId)
    requires
        id.wf(),
    ensures
        CanId::spec_from_raw(id.spec_raw()) == id,
{
    let p = id.priority;
    let s = id.sender_node_type;
    let r = id.receiver_node_type;
    let n = id.secondary_node_id;
    let m = id.msg_type;
    let x = id.spec_raw();
    assert(x == ((p as u32) << 27u32) | ((s as u32) << 19u32) | ((r as u32) << 11u32) | ((
    n as u32) << 8u32) | (m as u32));
    assert(((x >> 27u32) & 0x3u32) as u8 == p && ((x >> 19u32) & 0xFFu32) as u8 == s && ((x
        >> 11u32) & 0xFFu32) as u8 == r && ((x >> 8u32) & 0x7u32) as u8 == n && (x & 0xFFu32) as u8
        == m) by (bit_vector)
        requires
            p < 4,
            n < 8,
            x == ((p as u32) << 27u32) | ((s as u32) << 19u32) | ((r as u32) << 11u32) | ((
            n as u32) << 8u32) | (m as u32),
    ;
}

/// Law: splitting a raw identifier and packing the fields again keeps exactly
/// its low 29 bits.
pub proof fn lemma_raw_roundtrip(raw: u32)
    ensures
        CanId::spec_from_raw(raw).spec_raw() == raw & 0x1FFF_FFFFu32,
{
    let id = CanId::spec_from_raw(raw);
    let p = id.priority;
    let s = id.sender_node_type;
    let r = id.receiver_node_type;
    let n = id.secondary_node_id;
    let m = id.msg_type;
    assert(((p as u32) << 27u32) | ((s as u32) << 19u32) | ((r as u32) << 11u32) | ((n as u32)
        << 8u32) | (m as u32) == raw & 0x1FFF_FFFFu32) by (bit_vector)
        requires
            p == ((raw >> 27u32) & 0x3u32) as u8,
            s == ((raw >> 19u32) & 0xFFu32) as u8,
            r == ((raw >> 11u32) & 0xFFu32) as u8,
            n == ((raw >> 8u32) & 0x7u32) as u8,
            m == (raw & 0xFFu32) as u8,
    ;
}

/// Law: the fields of a raw identifier are its bit slices: laid back at their
/// positions (priority at bit 27, sender at 19, receiver at 11, node id at 8,
/// message type at 0) they add up to its low 29 bits.
pub proof fn lemma_from_raw_positions(raw: u32)
    ensures
        CanId::spec_from_raw(raw).spec_packed() == (raw & 0x1FFF_FFFFu32) as int,
{
    lemma_from_raw_wf(raw);
    lemma_raw_packed(CanId::spec_from_raw(raw));
    lemma_raw_roundtrip(raw);
}

/// The value that four bytes give, most significant first.
pub open spec fn be_value(b0: u8, b1: u8, b2: u8, b3: u8) -> int {
    b0 * 0x100_0000 + b1 * 0x1_0000 + b2 * 0x100 + b3
}

/// The value that four bytes give, least significant first.
pub open spec fn le_value(b0: u8, b1: u8, b2: u8, b3: u8) -> int {
    b0 + b1 * 0x100 + b2 * 0x1_0000 + b3 * 0x100_0000
}

/// Byte `k` of `v`, counting from the least significant byte.
pub open spec fn byte_of(v: u32, k: int) -> u8 {
    if k == 0 {
        (v & 0xFFu32) as u8
    } else if k == 1 {
        ((v >> 8u32) & 0xFFu32) as u8
    } else if k == 2 {
        ((v >> 16u32) & 0xFFu32) as u8
    } else {
        ((v >> 24u32) & 0xFFu32) as u8
    }
}

/// The 5-byte payload of a `u32`: sub-index 0, then the value big-endian.
pub open spec fn uint32_payload(v: u32) -> Seq<u8> {
    seq![0u8, byte_of(v, 3), byte_of(v, 2), byte_of(v, 1), byte_of(v, 0)]
}

/// The 5-byte payload of a float given by its bit pattern: sub-index 0, then
/// the bits little-endian.
pub open spec fn float_payload(bits: u32) -> Seq<u8> {
    seq![0u8, byte_of(bits, 0), byte_of(bits, 1), byte_of(bits, 2), byte_of(bits, 3)]
}

/// What `decode_uint32` gives for a data field: `None` when it is shorter than
/// five bytes, else bytes 1-4 read big-endian.
pub open spec fn spec_decode_uint32(data: Seq<u8>) -> Option<u32> {
    if data.len() < 5 {
        None
    } else {
        Some(be_value(data[1], data[2], data[3], data[4]) as u32)
    }
}

/// What `decode_float_bits` gives for a data field: `None` when it is shorter
/// than five bytes, else bytes 1-4 read little-endian.
pub open spec fn spec_decode_float_bits(data: Seq<u8>) -> Option<u32> {
    if data.len() < 5 {
        None
    } else {
        Some(le_value(data[1], data[2], data[3], data[4]) as u32)
    }
}

/// Encode a `u32` as a 5-byte payload: `[sub_index = 0, big-endian bytes...]`.
pub fn encode_uint32(value: u32) -> (out: [u8; 5])
    ensures
        out@ == uint32_payload(value),
{
    let out = [
        0,
        ((value >> 24) & 0xFF) as u8,
        ((value >> 16) & 0xFF) as u8,
        ((value >> 8) & 0xFF) as u8,
        (value & 0xFF) as u8,
    ];
    assert(out@ =~= uint32_payload(value));
    out
}

/// Decode a big-endian `u32` from bytes 1-4 of a CAN data slice.
/// Returns `None` if the slice is too short.
pub fn decode_uint32(data: &[u8]) -> (r: Option<u32>)
    ensures
        r == spec_decode_uint32(data@),
{
    if data.len() < 5 {
        return None;
    }
    let b0 = data[1];
    let b1 = data[2];
    let b2 = data[3];
    let b3 = data[4];
    let v = ((b0 as u32) << 24) | ((b1 as u32) << 16) | ((b2 as u32) << 8) | (b3 as u32);
    assert(((b0 as u32) << 24u32) | ((b1 as u32) << 16u32) | ((b2 as u32) << 8u32) | (b3 as u32)
        == (b0 as u32 * 0x100_0000u32 + b1 as u32 * 0x1_0000u32 + b2 as u32 * 0x100u32
        + b3 as u32) as u32) by (bit_vector);
    Some(v)
}

/// Encode a float, given by its bit pattern, as a 5-byte payload:
/// `[sub_index = 0, little-endian bytes...]`.
pub fn encode_float_bits(bits: u32) -> (out: [u8; 5])
    ensures
        out@ == float_payload(bits),
{
    let out = [
        0,
        (bits & 0xFF) as u8,
        ((bits >> 8) & 0xFF) as u8,
        ((bits >> 16) & 0xFF) as u8,
        ((bits >> 24) & 0xFF) as u8,
    ];
    assert(out@ =~= float_payload(bits));
    out
}

/// Decode the bit pattern of a float from bytes 1-4 (little-endian) of a CAN
/// data slice. Returns `None` if the slice is too short.
pub fn decode_float_bits(data: &[u8]) -> (r: Option<u32>)
    ensures
        r == spec_decode_float_bits(data@),
{
    if data.len() < 5 {
        return None;
    }
    let b0 = data[1];
    let b1 = data[2];
    let b2 = data[3];
    let b3 = data[4];
    let v = (b0 as u32) | ((b1 as u32) << 8) | ((b2 as u32) << 16) | ((b3 as u32) << 24);
    assert((b0 as u32) | ((b1 as u32) << 8u32) | ((b2 as u32) << 16u32) | ((b3 as u32) << 24u32)
        == (b0 as u32 + b1 as u32 * 0x100u32 + b2 as u32 * 0x1_0000u32 + b3 as u32
        * 0x100_0000u32) as u32) by (bit_vector);
    Some(v)
}

/// Law: decoding the payload of a `u32` gives the value back.
pub proof fn lemma_uint32_roundtrip(v: u32)
    ensures
        spec_decode_uint32(uint32_payload(v)) == Some(v),
{
    let s = uint32_payload(v);
    assert(be_value(byte_of(v, 3), byte_of(v, 2), byte_of(v, 1), byte_of(v, 0)) == v) by {
        let b0 = ((v >> 24u32) & 0xFFu32) as u8;
        let b1 = ((v >> 16u32) & 0xFFu32) as u8;
        let b2 = ((v >> 8u32) & 0xFFu32) as u8;
        let b3 = (v & 0xFFu32) as u8;
        assert((b0 as u32 * 0x100_0000u32 + b1 as u32 * 0x1_0000u32 + b2 as u32 * 0x100u32
            + b3 as u32) as u32 == v) by (bit_vector)
            requires
                b0 == ((v >> 24u32) & 0xFFu32) as u8,
                b1 == ((v >> 16u32) & 0xFFu32) as u8,
                b2 == ((v >> 8u32) & 0xFFu32) as u8,
                b3 == (v & 0xFFu32) as u8,
        ;
    }
}

/// Law: re-encoding the value decoded from a data field gives back its bytes
/// 1-4, behind a zero sub-index.
pub proof fn lemma_uint32_payload_of_decoded(data: Seq<u8>)
    requires
        data.len() >= 5,
    ensures
        uint32_payload(spec_decode_uint32(data).unwrap()) == seq![0u8] + data.subrange(1, 5),
{
    let b0 = data[1];
    let b1 = data[2];
    let b2 = data[3];
    let b3 = data[4];
    let v = be_value(b0, b1, b2, b3) as u32;
    assert(((v >> 24u32) & 0xFFu32) as u8 == b0 && ((v >> 16u32) & 0xFFu32) as u8 == b1 && ((v
        >> 8u32) & 0xFFu32) as u8 == b2 && (v & 0xFFu32) as u8 == b3) by (bit_vector)
        requires
            v == (b0 as u32 * 0x100_0000u32 + b1 as u32 * 0x1_0000u32 + b2 as u32 * 0x100u32
                + b3 as u32) as u32,
    ;
    assert(uint32_payload(v) =~= seq![0u8] + data.subrange(1, 5));
}

/// Law: decoding the payload of a float's bit pattern gives the bits back.
pub proof fn lemma_float_bits_roundtrip(bits: u32)
    ensures
        spec_decode_float_bits(float_payload(bits)) == Some(bits),
{
    let v = bits;
    assert(le_value(byte_of(v, 0), byte_of(v, 1), byte_of(v, 2), byte_of(v, 3)) == v) by {
        let b3 = ((v >> 24u32) & 0xFFu32) as u8;
        let b2 = ((v >> 16u32) & 0xFFu32) as u8;
        let b1 = ((v >> 8u32) & 0xFFu32) as u8;
        let b0 = (v & 0xFFu32) as u8;
        assert((b0 as u32 + b1 as u32 * 0x100u32 + b2 as u32 * 0x1_0000u32 + b3 as u32
            * 0x100_0000u32) as u32 == v) by (bit_vector)
            requires
                b3 == ((v >> 24u32) & 0xFFu32) as u8,
                b2 == ((v >> 16u32) & 0xFFu32) as u8,
                b1 == ((v >> 8u32) & 0xFFu32) as u8,
                b0 == (v & 0xFFu32) as u8,
        ;
    }
}

/// Law: re-encoding the bit pattern decoded from a data field gives back its
/// bytes 1-4, behind a zero sub-index.
pub proof fn lemma_float_payload_of_decoded(data: Seq<u8>)
    requires
        data.len() >= 5,
    ensures
        float_payload(spec_decode_float_bits(data).unwrap()) == seq![0u8] + data.subrange(1, 5),
{
    let b0 = data[1];
    let b1 = data[2];
    let b2 = data[3];
    let b3 = data[4];
    let v = le_value(b0, b1, b2, b3) as u32;
    assert((v & 0xFFu32) as u8 == b0 && ((v >> 8u32) & 0xFFu32) as u8 == b1 && ((v >> 16u32)
        & 0xFFu32) as u8 == b2 && ((v >> 24u32) & 0xFFu32) as u8 == b3) by (bit_vector)
        requires
            v == (b0 as u32 + b1 as u32 * 0x100u32 + b2 as u32 * 0x1_0000u32 + b3 as u32
                * 0x100_0000u32) as u32,
    ;
    assert(float_payload(v) =~= seq![0u8] + data.subrange(1, 5));
}

} // verus!
