use skyrender::records::{
    bright_star_bytes, pack_records, unpack_records, StarRecord,
};

fn rec(ra: f32, dec: f32, mag: f32, temp: f32) -> StarRecord {
    StarRecord {
        ra_bits: ra.to_bits(),
        dec_bits: dec.to_bits(),
        mag_bits: mag.to_bits(),
        temp_bits: temp.to_bits(),
    }
}

#[test]
fn pack_layout_is_little_endian_quadruples() {
    let records = vec![rec(1.0, -2.5, 0.25, 5800.0)];
    let bytes = pack_records(&records);
    assert_eq!(bytes.len(), 16);
    let mut expected = Vec::new();
    for v in [1.0f32, -2.5, 0.25, 5800.0] {
        expected.extend_from_slice(&v.to_bits().to_le_bytes());
    }
    assert_eq!(bytes, expected);
}

#[test]
fn pack_then_unpack_is_bit_identical() {
    let records = vec![
        rec(0.0, 0.0, 0.0, 0.0),
        rec(359.99, -89.5, 21.75, 3400.0),
        rec(-0.0, 1.0e-12, -26.7, 40900.0),
        rec(f32::INFINITY, f32::NEG_INFINITY, f32::MIN_POSITIVE, 1000.0),
    ];
    let bytes = pack_records(&records);
    assert_eq!(bytes.len() % 16, 0);
    let back = unpack_records(&bytes).expect("multiple of 16");
    assert_eq!(back, records);
}

#[test]
fn unpack_rejects_ragged_length() {
    assert!(unpack_records(&vec![0u8; 15]).is_none());
    assert!(unpack_records(&vec![0u8; 17]).is_none());
    assert!(unpack_records(&Vec::new()).is_some());
}

#[test]
fn unpack_empty_is_empty_batch() {
    let back = unpack_records(&Vec::new()).unwrap();
    assert!(back.is_empty());
}

#[test]
fn bright_star_record_layout() {
    let ra = 1.5f32;
    let dec = -0.25f32;
    let mag = -11.0f32;
    let out = bright_star_bytes(ra.to_bits(), dec.to_bits(), mag.to_bits(), 255, 128, 7);
    assert_eq!(out.len(), 16);
    let mut expected = Vec::new();
    expected.extend_from_slice(&ra.to_bits().to_le_bytes());
    expected.extend_from_slice(&dec.to_bits().to_le_bytes());
    expected.extend_from_slice(&mag.to_bits().to_le_bytes());
    expected.extend_from_slice(&[255u8, 128, 7, 0]);
    assert_eq!(out, expected);
}
