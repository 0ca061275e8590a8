use raycasting_term::codec::{
    decode_id, decode_roster, decode_update, encode_id, encode_roster, encode_update, WireSprite,
};

#[test]
fn update_round_trip() {
    let x = 3.25f64.to_bits();
    let y = 4.5f64.to_bits();
    let a = std::f64::consts::PI.to_bits();
    let bytes = encode_update(x, y, a);
    assert_eq!(bytes.len(), 24);
    assert_eq!(decode_update(&bytes), Some((x, y, a)));
}

#[test]
fn update_matches_plain_tuple_serialization() {
    // The update datagram is what serializing ((x, y), angle) as plain
    // little-endian doubles produces.
    let x = 3.25f64;
    let y = 4.5f64;
    let a = 1.75f64;
    let reference: Vec<u8> = bincode::serialize(&((x, y), a)).unwrap();
    assert_eq!(encode_update(x.to_bits(), y.to_bits(), a.to_bits()), reference);
}

#[test]
fn id_round_trip_and_serialization_shape() {
    let bytes = encode_id(0xdead_beef);
    assert_eq!(bytes.len(), 4);
    assert_eq!(decode_id(&bytes), Some(0xdead_beef));
    let reference: Vec<u8> = bincode::serialize(&7u32).unwrap();
    assert_eq!(encode_id(7), reference);
}

#[test]
fn truncated_or_padded_datagrams_are_rejected() {
    let mut bytes = encode_update(1, 2, 3);
    bytes.pop();
    assert_eq!(decode_update(&bytes), None);
    let mut bytes = encode_update(1, 2, 3);
    bytes.push(0);
    assert_eq!(decode_update(&bytes), None);
    assert_eq!(decode_id(&vec![1, 2, 3]), None);
    assert_eq!(decode_id(&vec![1, 2, 3, 4, 5]), None);
}

fn sample_roster() -> Vec<WireSprite> {
    vec![
        WireSprite {
            id: 0,
            x_bits: 3.0f64.to_bits(),
            y_bits: 4.0f64.to_bits(),
            sprite_sheet_index: 0,
            angle_bits: Some(1.5f64.to_bits()),
        },
        WireSprite {
            id: 1,
            x_bits: 6.9f64.to_bits(),
            y_bits: 4.0f64.to_bits(),
            sprite_sheet_index: 2,
            angle_bits: None,
        },
    ]
}

#[test]
fn roster_round_trip() {
    let roster = sample_roster();
    let bytes = encode_roster(&roster);
    // 8-byte count, then a 37-byte record with an angle and a 29-byte one
    // without.
    assert_eq!(bytes.len(), 8 + 37 + 29);
    let back = decode_roster(&bytes).unwrap();
    assert_eq!(back.len(), 2);
    assert_eq!(back[0].id, 0);
    assert_eq!(back[0].angle_bits, Some(1.5f64.to_bits()));
    assert_eq!(back[1].id, 1);
    assert_eq!(back[1].sprite_sheet_index, 2);
    assert_eq!(back[1].angle_bits, None);
}

#[test]
fn empty_roster_round_trip() {
    let bytes = encode_roster(&Vec::new());
    assert_eq!(bytes.len(), 8);
    let back = decode_roster(&bytes).unwrap();
    assert_eq!(back.len(), 0);
}

#[test]
fn malformed_rosters_are_rejected() {
    let roster = sample_roster();
    // Truncated.
    let mut bytes = encode_roster(&roster);
    bytes.pop();
    assert!(decode_roster(&bytes).is_none());
    // Trailing garbage.
    let mut bytes = encode_roster(&roster);
    bytes.push(0);
    assert!(decode_roster(&bytes).is_none());
    // A bad angle tag.
    let mut bytes = encode_roster(&roster);
    bytes[8 + 28] = 9;
    assert!(decode_roster(&bytes).is_none());
    // A count that promises more records than there are.
    let mut bytes = encode_roster(&roster);
    bytes[0] = 3;
    assert!(decode_roster(&bytes).is_none());
    // Too short for a count at all.
    assert!(decode_roster(&vec![1, 2, 3]).is_none());
}

#[test]
fn an_empty_count_with_trailing_bytes_is_rejected() {
    let mut bytes = encode_roster(&Vec::new());
    bytes.push(0);
    assert!(decode_roster(&bytes).is_none());
}
