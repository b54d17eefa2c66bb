use delta2_lidar::protocol::Measurement;
use delta2_lidar::protocol::MeasurementFrame;
use delta2_lidar::protocol::PartialFrame;

/// Modulo-65536 sum of `bytes`, as the device computes its frame checksum.
fn checksum(bytes: &[u8]) -> u16 {
    let mut acc: u32 = 0;
    for b in bytes {
        acc = (acc + *b as u32) % 65536;
    }
    acc as u16
}

/// Builds one whole wire frame: header, command `cmd`, the payload, and a
/// correctly computed trailing checksum.
fn frame_with(cmd: u8, payload: &[u8]) -> Vec<u8> {
    let n: u16 = payload.len() as u16;
    let mut f: Vec<u8> = vec![
        0xAA,
        0x00,
        0x00,
        0x01,
        0x61,
        cmd,
        (n >> 8) as u8,
        (n & 0xFF) as u8,
    ];
    f.extend_from_slice(payload);
    let c: u16 = checksum(&f);
    f.push((c >> 8) as u8);
    f.push((c & 0xFF) as u8);
    f
}

/// Builds a measurement payload: rpm byte, raw offset angle, raw start
/// angle, then 3 bytes per sample.
fn measurement_payload(rpm: u8, offset_raw: u16, start_raw: u16, samples: &[(u8, u16)]) -> Vec<u8> {
    let mut p: Vec<u8> = vec![
        rpm,
        (offset_raw >> 8) as u8,
        (offset_raw & 0xFF) as u8,
        (start_raw >> 8) as u8,
        (start_raw & 0xFF) as u8,
    ];
    for (q, d) in samples {
        p.push(*q);
        p.push((*d >> 8) as u8);
        p.push((*d & 0xFF) as u8);
    }
    p
}

#[test]
fn fresh_assembler_wants_header() {
    let f: PartialFrame = PartialFrame::new();
    assert_eq!(f.data.len(), 0);
    assert_eq!(f.bytes_wanted, 8);
    assert_eq!(f.bytes_written, 0);
    assert!(!f.finished());
    assert!(!f.is_measurement_type());
    assert!(!f.is_health_type());
    assert!(!f.has_payload_length());
    assert_eq!(f.payload_length(), 0);
    assert_eq!(f.measurements_count(), 0);
    assert!(!f.crc_16_valid());
}

#[test]
fn checksum_round_trip() {
    let wire: Vec<u8> = frame_with(0xAD, &measurement_payload(4, 0, 100, &[(9, 400)]));
    let mut f: PartialFrame = PartialFrame::new();
    assert!(f.write_all(&wire).is_ok());
    assert!(f.finished());
    assert!(f.crc_16_valid());
    // completion happened exactly once: the frame stays as it is and takes
    // nothing more until reset
    let before: usize = f.data.len();
    assert!(f.write_all(&[0x00]).is_err());
    assert!(f.finished());
    assert_eq!(f.data.len(), before);
}

#[test]
fn any_single_payload_bit_flip_fails_the_checksum() {
    let wire: Vec<u8> = frame_with(0xAD, &measurement_payload(4, 0, 100, &[(9, 400)]));
    let end: usize = wire.len() - 2;
    for idx in 8..end {
        for bit in 0..8u8 {
            let mut bad: Vec<u8> = wire.clone();
            bad[idx] ^= 1u8 << bit;
            let mut f: PartialFrame = PartialFrame::new();
            let _ = f.write_all(&bad);
            assert!(!f.finished(), "flipping bit {} of byte {} went unnoticed", bit, idx);
        }
    }
}

#[test]
fn resync_after_noise() {
    // none of these bytes survives its positional check: the last noise byte
    // breaks the 0xAA,0x00,0x00 false start at the version position
    let noise: Vec<u8> = vec![0x13, 0x37, 0xAA, 0x00, 0x00, 0xFF];
    let wire: Vec<u8> = frame_with(0xAD, &measurement_payload(10, 0, 2000, &[(1, 8), (2, 16)]));
    let mut stream: Vec<u8> = noise.clone();
    stream.extend_from_slice(&wire);

    let mut f: PartialFrame = PartialFrame::new();
    assert!(f.write_all(&stream).is_ok());
    assert_eq!(f.bytes_written, stream.len());
    assert!(f.finished());
    assert_eq!(f.data, wire);
    let decoded: Option<MeasurementFrame> = f.completed_frame();
    assert!(decoded.is_some());
    assert_eq!(decoded.unwrap().measurements.len(), 2);
}

#[test]
fn noise_alone_yields_nothing() {
    let noise: Vec<u8> = vec![0x13, 0x37, 0xAA, 0x00, 0x00, 0xFF, 0x42];
    let mut f: PartialFrame = PartialFrame::new();
    assert!(f.write_all(&noise).is_ok());
    assert!(!f.finished());
    assert_eq!(f.data.len(), 0);
    assert!(f.completed_frame().is_none());
}

#[test]
fn chunk_boundary_idempotence() {
    let wire: Vec<u8> = frame_with(
        0xAD,
        &measurement_payload(7, 300, 12345, &[(50, 1000), (60, 2000), (70, 3000)]),
    );

    let mut whole: PartialFrame = PartialFrame::new();
    assert!(whole.write_all(&wire).is_ok());
    let a: MeasurementFrame = whole.completed_frame().expect("whole feed decodes");

    let mut chunked: PartialFrame = PartialFrame::new();
    for b in &wire {
        assert!(chunked.write_all(std::slice::from_ref(b)).is_ok());
    }
    let b: MeasurementFrame = chunked.completed_frame().expect("chunked feed decodes");

    // the wall-clock stamp may differ; every decoded field must not
    assert_eq!(a.rpm, b.rpm);
    assert_eq!(a.start_angle_cdeg, b.start_angle_cdeg);
    assert_eq!(a.measurements, b.measurements);
}

#[test]
fn measurement_count_from_payload_length() {
    // payload length 35 carries (35 - 5) / 3 == 10 samples
    let samples: Vec<(u8, u16)> = (0..10u16).map(|i| (i as u8, 100 * i)).collect();
    let payload: Vec<u8> = measurement_payload(1, 0, 0, &samples);
    assert_eq!(payload.len(), 35);
    let wire: Vec<u8> = frame_with(0xAD, &payload);
    let mut f: PartialFrame = PartialFrame::new();
    assert!(f.write_all(&wire).is_ok());
    assert_eq!(f.payload_length(), 35);
    assert_eq!(f.measurements_count(), 10);
    let decoded: MeasurementFrame = f.completed_frame().expect("decodes");
    assert_eq!(decoded.measurements.len(), 10);
    for (i, m) in decoded.measurements.iter().enumerate() {
        assert_eq!(m.signal_quality, i as u8);
        assert_eq!(m.distance_q, 100 * i as u16);
    }
}

#[test]
fn start_angle_gets_housing_correction_and_wraps() {
    // raw 0.00 degrees corrects to 180.00; raw 350.00 wraps to 170.00;
    // raw 5.50 corrects to 185.50 — all inside [0, 360.00)
    for (raw, corrected) in [(0u16, 18000u16), (35000, 17000), (550, 18550)] {
        let wire: Vec<u8> = frame_with(0xAD, &measurement_payload(1, 0, raw, &[(1, 1)]));
        let mut f: PartialFrame = PartialFrame::new();
        assert!(f.write_all(&wire).is_ok());
        let decoded: MeasurementFrame = f.completed_frame().expect("decodes");
        assert_eq!(decoded.start_angle_cdeg, corrected);
        assert!(decoded.start_angle_cdeg < 36000);
    }
}

#[test]
fn end_to_end_single_measurement() {
    // one sample: payload length 8, rpm byte 5, start angle 23.00 degrees,
    // quality 77, raw distance 258 (64.5 mm)
    let mut wire: Vec<u8> = vec![
        0xAA, 0x00, 0x00, 0x01, 0x61, 0xAD, 0x00, 0x08, 5, 0, 0, 0x08, 0xFC, 77, 0x01, 0x02,
    ];
    let c: u16 = checksum(&wire);
    wire.push((c >> 8) as u8);
    wire.push((c & 0xFF) as u8);
    assert_eq!(wire.len(), 18);

    let mut f: PartialFrame = PartialFrame::new();
    assert!(f.write_all(&wire).is_ok());
    assert!(f.finished());
    assert!(f.is_measurement_type());
    assert_eq!(f.measurements_count(), 1);

    let decoded: MeasurementFrame = f.completed_frame().expect("decodes");
    assert_eq!(decoded.rpm, 15); // raw byte times 3
    assert_eq!(decoded.start_angle_cdeg, 20300); // 23.00 + 180.00 degrees
    assert_eq!(decoded.measurements.len(), 1);
    let m: Measurement = decoded.measurements[0];
    assert_eq!(m.signal_quality, 77);
    assert_eq!(m.distance_q, 258);
    let distance_mm: f32 = m.distance_q as f32 * 0.25;
    assert_eq!(distance_mm, 64.5);
}

#[test]
fn health_frame_completes_but_is_filtered() {
    let wire: Vec<u8> = frame_with(0xAE, &[1, 2, 3, 4, 5, 6]);
    let mut f: PartialFrame = PartialFrame::new();
    assert!(f.write_all(&wire).is_ok());
    assert!(f.finished());
    assert!(f.is_health_type());
    assert!(!f.is_measurement_type());
    assert!(f.completed_frame().is_none());
}

#[test]
fn saturated_frame_reports_leftovers_and_reset_recovers() {
    let wire: Vec<u8> = frame_with(0xAD, &measurement_payload(2, 0, 900, &[(3, 12)]));
    let mut stream: Vec<u8> = wire.clone();
    stream.extend_from_slice(&wire); // a second frame right behind the first

    let mut f: PartialFrame = PartialFrame::new();
    assert!(f.write_all(&stream).is_err()); // the caller must collect first
    assert_eq!(f.bytes_written, wire.len()); // only the first frame was taken
    assert!(f.finished());
    let first: MeasurementFrame = f.completed_frame().expect("first frame decodes");
    assert_eq!(first.start_angle_cdeg, (900 + 18000) % 36000);

    f.reset();
    assert_eq!(f.data.len(), 0);
    assert_eq!(f.bytes_wanted, 8);
    assert!(f.write_all(&stream[wire.len()..]).is_ok());
    assert!(f.finished());
    assert!(f.completed_frame().is_some());
}

#[test]
fn rejected_byte_is_discarded_not_retried() {
    // a header byte arriving where the version byte was expected is thrown
    // away together with the false start
    let mut f: PartialFrame = PartialFrame::new();
    assert!(f.write_all(&[0xAA, 0x00, 0x00, 0xAA]).is_ok());
    assert_eq!(f.data.len(), 0);
    assert_eq!(f.bytes_wanted, 8);
}

#[test]
fn header_fields_are_validated_in_position() {
    // wrong version, wrong type, wrong command: each mismatch resets
    for (idx, bad) in [(3usize, 0x02u8), (4, 0x62), (5, 0xAF)] {
        let mut wire: Vec<u8> = frame_with(0xAD, &measurement_payload(1, 0, 0, &[(1, 1)]));
        wire[idx] = bad;
        let mut f: PartialFrame = PartialFrame::new();
        let _ = f.write_all(&wire);
        assert!(!f.finished(), "mismatch at byte {} was accepted", idx);
    }
}

#[test]
fn short_payload_completes_but_does_not_decode() {
    // a checksum-valid measurement frame whose payload lacks the 5 fixed
    // bytes is recognised, never decoded into samples
    let wire: Vec<u8> = frame_with(0xAD, &[1, 2, 3]);
    let mut f: PartialFrame = PartialFrame::new();
    assert!(f.write_all(&wire).is_ok());
    assert!(f.finished());
    assert_eq!(f.measurements_count(), 0);
    assert!(f.completed_frame().is_none());
}

#[test]
fn write_reports_consumed_and_partial_state() {
    let wire: Vec<u8> = frame_with(0xAD, &measurement_payload(1, 0, 0, &[(1, 1)]));
    let mut f: PartialFrame = PartialFrame::new();
    let n: usize = f.write(&wire[..3]);
    assert_eq!(n, 3);
    assert_eq!(f.data.len(), 3);
    assert_eq!(f.bytes_wanted, 5);
    let n2: usize = f.write(&wire[3..8]);
    assert_eq!(n2, 5);
    // after the payload-length field, payload plus checksum are wanted
    assert_eq!(f.payload_length(), 8);
    assert_eq!(f.bytes_wanted, 10);
    let n3: usize = f.write(&wire[8..]);
    assert_eq!(n3, 10);
    assert_eq!(f.bytes_wanted, 0);
    assert!(f.finished());
}

#[test]
fn default_frame_placeholder() {
    let d: MeasurementFrame = MeasurementFrame::default();
    assert_eq!(d.rpm, 0);
    assert_eq!(d.start_angle_cdeg, 0);
    assert_eq!(d.timestamp, 0);
    assert_eq!(d.measurements, vec![Measurement::default()]);
    let m: Measurement = Measurement::default();
    assert_eq!(m.signal_quality, 0);
    assert_eq!(m.distance_q, 0);
}

#[test]
fn from_partial_of_unfinished_buffer_is_placeholder() {
    let mut f: PartialFrame = PartialFrame::new();
    let _ = f.write(&[0xAA, 0x00, 0x00]);
    let decoded: MeasurementFrame = MeasurementFrame::from_partial(&f);
    assert_eq!(decoded.rpm, 0);
    assert_eq!(decoded.measurements.len(), 1);
}
