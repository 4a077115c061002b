use iomon::store::{
    StateImage, BASELINE_OFFSET, COEFFICIENT_OFFSET, COUNTER_OFFSET, PRESSURE_OFFSET,
    SCALE_OFFSET, STATE_LEN,
};

#[test]
fn initialize_empty_image_seeds_all_defaults() {
    let mut img = StateImage::from_bytes(Vec::new());
    img.initialize();
    assert_eq!(img.len(), STATE_LEN);
    assert_eq!(img.read_field(COUNTER_OFFSET), Some(0.0f32.to_bits()));
    assert_eq!(img.read_field(SCALE_OFFSET), Some(1.0f32.to_bits()));
    assert_eq!(img.read_field(PRESSURE_OFFSET), Some(0.0f32.to_bits()));
    assert_eq!(img.read_field(BASELINE_OFFSET), Some(4.0f32.to_bits()));
    assert_eq!(img.read_field(COEFFICIENT_OFFSET), Some(0.625f32.to_bits()));
}

#[test]
fn initialized_image_has_big_endian_layout() {
    let mut img = StateImage::from_bytes(Vec::new());
    img.initialize();
    let expected: Vec<u8> = vec![
        0x00, 0x00, 0x00, 0x00, // counter 0.0
        0x3F, 0x80, 0x00, 0x00, // scale 1.0
        0x00, 0x00, 0x00, 0x00, // pressure 0.0
        0x40, 0x80, 0x00, 0x00, // baseline 4.0
        0x3F, 0x20, 0x00, 0x00, // coefficient 0.625
    ];
    assert_eq!(img.bytes().as_slice(), expected.as_slice());
}

#[test]
fn initialize_is_incremental_over_partial_file() {
    // A file holding exactly the first three fields: offsets 0 through 11.
    let existing: Vec<u8> = vec![
        0x41, 0x20, 0x00, 0x00, // counter 10.0
        0x40, 0x00, 0x00, 0x00, // scale 2.0
        0x40, 0x70, 0x00, 0x00, // pressure 3.75
    ];
    let mut img = StateImage::from_bytes(existing.clone());
    img.initialize();
    assert_eq!(img.len(), STATE_LEN);
    assert_eq!(&img.bytes()[..12], existing.as_slice());
    assert_eq!(img.read_field(COUNTER_OFFSET), Some(10.0f32.to_bits()));
    assert_eq!(img.read_field(SCALE_OFFSET), Some(2.0f32.to_bits()));
    assert_eq!(img.read_field(PRESSURE_OFFSET), Some(3.75f32.to_bits()));
    assert_eq!(img.read_field(BASELINE_OFFSET), Some(4.0f32.to_bits()));
    assert_eq!(img.read_field(COEFFICIENT_OFFSET), Some(0.625f32.to_bits()));
}

#[test]
fn initialize_is_idempotent() {
    let mut img = StateImage::from_bytes(vec![0x41, 0x20, 0x00, 0x00, 0x40]);
    img.initialize();
    let first = img.bytes().clone();
    img.initialize();
    assert_eq!(img.bytes(), &first);
}

#[test]
fn write_then_read_round_trips_exact_value() {
    let mut img = StateImage::from_bytes(Vec::new());
    img.initialize();
    let written = 3.75f32;
    img.write_field(PRESSURE_OFFSET, written.to_bits());
    let got = img.read_field(PRESSURE_OFFSET).unwrap();
    assert_eq!(got, written.to_bits());
    assert_eq!(f32::from_bits(got), written);
}

#[test]
fn round_trip_preserves_awkward_values() {
    let mut img = StateImage::from_bytes(Vec::new());
    img.initialize();
    for v in [0.1f32, -0.0f32, f32::MIN_POSITIVE, 1.0e-42f32, 3.4e38f32] {
        img.write_field(COUNTER_OFFSET, v.to_bits());
        let got = img.read_field(COUNTER_OFFSET).unwrap();
        assert_eq!(got, v.to_bits());
        assert_eq!(f32::from_bits(got), v);
    }
}

#[test]
fn read_past_end_of_truncated_image_fails() {
    let img = StateImage::from_bytes(vec![0x00, 0x00, 0x00, 0x00, 0x3F, 0x80]);
    assert_eq!(img.read_field(COUNTER_OFFSET), Some(0));
    assert_eq!(img.read_field(SCALE_OFFSET), None);
    assert_eq!(img.read_field(COEFFICIENT_OFFSET), None);
}

#[test]
fn write_past_end_zero_fills_the_gap() {
    let mut img = StateImage::from_bytes(Vec::new());
    img.write_field(PRESSURE_OFFSET, 1.0f32.to_bits());
    assert_eq!(
        img.bytes().as_slice(),
        &[0, 0, 0, 0, 0, 0, 0, 0, 0x3F, 0x80, 0x00, 0x00]
    );
}

#[test]
fn disjoint_writes_from_the_two_monitors_never_corrupt_each_other() {
    let mut left = StateImage::from_bytes(Vec::new());
    left.initialize();
    let mut right = StateImage::from_bytes(Vec::new());
    right.initialize();

    let counter = 6.0f32.to_bits();
    let pressure = 3.75f32.to_bits();
    // One interleaving per image: counter first, then pressure; and the
    // reverse. Each write is a single four-byte operation.
    left.write_field(COUNTER_OFFSET, counter);
    left.write_field(PRESSURE_OFFSET, pressure);
    right.write_field(PRESSURE_OFFSET, pressure);
    right.write_field(COUNTER_OFFSET, counter);

    assert_eq!(left.bytes(), right.bytes());
    assert_eq!(left.read_field(COUNTER_OFFSET), Some(counter));
    assert_eq!(left.read_field(PRESSURE_OFFSET), Some(pressure));
    assert_eq!(right.read_field(COUNTER_OFFSET), Some(counter));
    assert_eq!(right.read_field(PRESSURE_OFFSET), Some(pressure));
}

#[test]
fn initialize_keeps_bytes_past_the_last_field() {
    let mut long: Vec<u8> = Vec::new();
    for i in 0..24u8 {
        long.push(i);
    }
    let mut img = StateImage::from_bytes(long.clone());
    img.initialize();
    assert_eq!(img.bytes(), &long);
}
