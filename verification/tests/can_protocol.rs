use brewtech::can_protocol::{
    decode_float_bits, decode_uint32, encode_float_bits, encode_uint32, CanId, ACK_TYPE_OK,
    EXTENDED_ID_MAX, MSG_TYPE_START_MEASUREMENT_CMD, NODE_TYPE_DENSITY_SENSOR, NODE_TYPE_PLC,
    PRIORITY_MEDIUM,
};

#[test]
fn from_u32_splits_probe_identifier() {
    let id = CanId::from_u32(0x0840_2021);
    assert_eq!(
        id,
        CanId {
            priority: PRIORITY_MEDIUM,
            sender_node_type: NODE_TYPE_PLC,
            receiver_node_type: NODE_TYPE_DENSITY_SENSOR,
            secondary_node_id: 0,
            msg_type: MSG_TYPE_START_MEASUREMENT_CMD,
        }
    );
}

#[test]
fn to_u32_packs_fields() {
    let id = CanId {
        priority: 1,
        sender_node_type: 8,
        receiver_node_type: 4,
        secondary_node_id: 3,
        msg_type: 33,
    };
    assert_eq!(id.to_u32(), 0x0840_2321);
}

#[test]
fn from_u32_ignores_bits_above_28() {
    let id = CanId::from_u32(0xFFFF_FFFF);
    assert_eq!(
        id,
        CanId {
            priority: 3,
            sender_node_type: 255,
            receiver_node_type: 255,
            secondary_node_id: 7,
            msg_type: 255,
        }
    );
    assert_eq!(id.to_u32(), EXTENDED_ID_MAX);
}

#[test]
fn identifier_roundtrips() {
    for raw in [0u32, 1, 0x0840_2021, 0x0020_400C, 0x1FFF_FFFF, 0x1234_5678] {
        let id = CanId::from_u32(raw);
        assert_eq!(id.to_u32(), raw & 0x1FFF_FFFF);
        assert_eq!(CanId::from_u32(id.to_u32()), id);
    }
}

#[test]
fn to_u32_out_of_range_priority_overflows_the_29_bits() {
    let id = CanId {
        priority: 4,
        sender_node_type: 0,
        receiver_node_type: 0,
        secondary_node_id: 0,
        msg_type: 0,
    };
    assert_eq!(id.to_u32(), 0x2000_0000);
}

#[test]
fn to_u32_out_of_range_node_id_overlaps_receiver_field() {
    let id = CanId {
        priority: 0,
        sender_node_type: 0,
        receiver_node_type: 0,
        secondary_node_id: 9,
        msg_type: 0,
    };
    assert_eq!(id.to_u32(), 0x900);
    assert_eq!(CanId::from_u32(0x900).receiver_node_type, 1);
}

#[test]
fn encode_uint32_is_big_endian_after_sub_index() {
    assert_eq!(encode_uint32(0x0102_0304), [0, 1, 2, 3, 4]);
    assert_eq!(encode_uint32(ACK_TYPE_OK), [0, 0, 0, 0, 2]);
    assert_eq!(encode_uint32(u32::MAX), [0, 255, 255, 255, 255]);
}

#[test]
fn decode_uint32_reads_bytes_one_to_four() {
    assert_eq!(decode_uint32(&[9, 1, 2, 3, 4, 99]), Some(0x0102_0304));
    assert_eq!(decode_uint32(&[0, 0, 0, 0, 3]), Some(3));
}

#[test]
fn decode_uint32_short_slice_is_none() {
    assert_eq!(decode_uint32(&[0, 1, 2, 3]), None);
    assert_eq!(decode_uint32(&[]), None);
}

#[test]
fn uint32_roundtrips() {
    for v in [0u32, 1, 3, 0xDEAD_BEEF, u32::MAX] {
        assert_eq!(decode_uint32(&encode_uint32(v)), Some(v));
    }
}

#[test]
fn encode_float_bits_matches_le_bytes() {
    let v: f32 = 1.045;
    let b = v.to_le_bytes();
    assert_eq!(encode_float_bits(v.to_bits()), [0, b[0], b[1], b[2], b[3]]);
    assert_eq!(encode_float_bits(0x0102_0304), [0, 4, 3, 2, 1]);
}

#[test]
fn decode_float_bits_reads_little_endian() {
    let v: f32 = 20.5;
    let b = v.to_le_bytes();
    let bits = decode_float_bits(&[0, b[0], b[1], b[2], b[3]]).unwrap();
    assert_eq!(f32::from_bits(bits), 20.5);
    assert_eq!(decode_float_bits(&[7, 4, 3, 2, 1]), Some(0x0102_0304));
    assert_eq!(decode_float_bits(&[0, 1, 2]), None);
}

#[test]
fn float_bits_roundtrip() {
    for v in [0.0f32, -1.5, 1.045, 20.5, f32::MAX] {
        let bits = decode_float_bits(&encode_float_bits(v.to_bits())).unwrap();
        assert_eq!(f32::from_bits(bits), v);
    }
}
