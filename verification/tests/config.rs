use esp_ahrs_probe::config::{
    MagCalibration, F32_ONE_BITS, HEADER_LEN, MAG_CALIBRATION_BLOB_LEN, STORAGE_MAGIC_LEN,
    STORAGE_RESERVED_LEN,
};

fn floats(bits: &[u32]) -> Vec<f32> {
    bits.iter().map(|b| f32::from_bits(*b)).collect()
}

#[test]
fn default_is_do_nothing() {
    let c = MagCalibration::default();

    assert_eq!(floats(c.matrix()), vec![1.0, 0.0, 0.0, 0.0, 1.0, 0.0, 0.0, 0.0, 1.0]);
    assert_eq!(floats(c.bias()), vec![0.0, 0.0, 0.0]);
}

#[test]
fn blob_round_trip_preserves_values() {
    let c = MagCalibration::from_parts(
        [1.5f32, 0.2, -0.1, 0.0, 2.0, 0.3, -0.4, 0.1, 0.75].map(f32::to_bits),
        [-1.0f32, -2.0, -3.0].map(f32::to_bits),
    );

    let blob = c.to_blob();
    let decoded = MagCalibration::from_blob(&blob).expect("expected valid calibration blob");

    assert_eq!(decoded.matrix(), c.matrix());
    assert_eq!(decoded.bias(), c.bias());
}

#[test]
fn from_blob_rejects_bad_magic() {
    let c = MagCalibration::default();
    let mut blob = c.to_blob();
    blob[0] ^= 0xFF;

    assert!(MagCalibration::from_blob(&blob).is_none());
}

#[test]
fn from_blob_rejects_bad_version() {
    let c = MagCalibration::default();
    let mut blob = c.to_blob();
    blob[STORAGE_MAGIC_LEN] = 99;

    assert!(MagCalibration::from_blob(&blob).is_none());
}

#[test]
fn from_blob_rejects_non_finite_values() {
    let c = MagCalibration::default();
    let mut blob = c.to_blob();

    let offset = STORAGE_MAGIC_LEN + 1 + STORAGE_RESERVED_LEN;
    let nan_bytes = f32::NAN.to_le_bytes();
    blob[offset..offset + 4].copy_from_slice(&nan_bytes);

    assert!(MagCalibration::from_blob(&blob).is_none());
}

#[test]
fn new_matches_default() {
    let a = MagCalibration::new();
    let b = MagCalibration::default();
    assert_eq!(a.matrix(), b.matrix());
    assert_eq!(a.bias(), b.bias());
    assert_eq!(a.matrix()[0], F32_ONE_BITS);
}

#[test]
fn blob_layout_is_exact() {
    let c = MagCalibration::from_parts(
        [0x0403_0201, 0, 0, 0, 0, 0, 0, 0, 0x0c0b_0a09],
        [0x1122_3344, 0, 0xdead_0001],
    );
    let blob = c.to_blob();
    assert_eq!(blob.len(), MAG_CALIBRATION_BLOB_LEN);
    assert_eq!(&blob[0..8], &[b'M', b'C', b'A', b'L', 1, 0, 0, 0]);
    assert_eq!(&blob[8..12], &[0x01, 0x02, 0x03, 0x04]);
    assert_eq!(&blob[40..44], &[0x09, 0x0a, 0x0b, 0x0c]);
    assert_eq!(&blob[44..48], &[0x44, 0x33, 0x22, 0x11]);
    assert_eq!(&blob[52..56], &[0x01, 0x00, 0xad, 0xde]);
}

#[test]
fn default_blob_has_identity_words() {
    let blob = MagCalibration::default().to_blob();
    assert_eq!(&blob[HEADER_LEN..HEADER_LEN + 4], &1.0f32.to_le_bytes());
    assert_eq!(&blob[HEADER_LEN + 4..HEADER_LEN + 8], &[0, 0, 0, 0]);
    assert_eq!(&blob[HEADER_LEN + 16..HEADER_LEN + 20], &1.0f32.to_le_bytes());
}

#[test]
fn from_blob_rejects_wrong_length() {
    let blob = MagCalibration::default().to_blob();
    assert!(MagCalibration::from_blob(&blob[..55]).is_none());
    let mut longer = blob.to_vec();
    longer.push(0);
    assert!(MagCalibration::from_blob(&longer).is_none());
    assert!(MagCalibration::from_blob(&[]).is_none());
}

#[test]
fn from_blob_ignores_reserved_bytes() {
    let diagonal = [2.0f32, 0.0, 0.0, 0.0, 3.0, 0.0, 0.0, 0.0, 4.0].map(f32::to_bits);
    let c = MagCalibration::from_parts(diagonal, [9; 3]);
    let mut blob = c.to_blob();
    blob[5] = 0xaa;
    blob[6] = 0xbb;
    blob[7] = 0xcc;
    let decoded = MagCalibration::from_blob(&blob).expect("reserved bytes are ignored");
    assert_eq!(decoded.matrix(), &diagonal);
    assert_eq!(decoded.bias(), &[9; 3]);
    let rewritten = decoded.to_blob();
    assert_eq!(&rewritten[5..8], &[0, 0, 0]);
    assert_eq!(&rewritten[8..], &blob[8..]);
}

#[test]
fn from_blob_rejects_infinite_bias() {
    let identity = *MagCalibration::new().matrix();
    let c = MagCalibration::from_parts(identity, [0, f32::INFINITY.to_bits(), 0]);
    assert!(MagCalibration::from_blob(&c.to_blob()).is_none());
    let finite = MagCalibration::from_parts(identity, [0, f32::MAX.to_bits(), 0]);
    assert!(MagCalibration::from_blob(&finite.to_blob()).is_some());
}

#[test]
fn default_round_trips() {
    let c = MagCalibration::default();
    let decoded = MagCalibration::from_blob(&c.to_blob()).expect("the default calibration is stored");
    assert_eq!(decoded.matrix(), c.matrix());
    assert_eq!(decoded.bias(), c.bias());
}
