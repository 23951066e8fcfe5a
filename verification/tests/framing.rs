use client::video::encoding::{
    add_prefix_to_nal_unit, convert_fu_a_to_nal_units, convert_payload_to_nal_units,
    convert_stap_a_to_nal_units, get_prefix_code, split_prefix_code, stap_a_dropped_bytes, NalType,
    NAL_PREFIX_CODE,
};
use client::video::error::Error;

fn framed(unit: &[u8]) -> Vec<u8> {
    let mut bytes = vec![0, 0, 0, 1];
    bytes.extend_from_slice(unit);
    bytes
}

fn stap_a(units: &[&[u8]]) -> Vec<u8> {
    let mut payload = vec![0x78];
    for unit in units {
        payload.push((unit.len() / 256) as u8);
        payload.push((unit.len() % 256) as u8);
        payload.extend_from_slice(unit);
    }
    payload
}

#[test]
fn start_code_is_four_bytes() {
    assert_eq!(NAL_PREFIX_CODE, [0, 0, 0, 1]);
    assert_eq!(add_prefix_to_nal_unit(&[9, 8]), vec![0, 0, 0, 1, 9, 8]);
    assert_eq!(add_prefix_to_nal_unit(&[]), vec![0, 0, 0, 1]);
}

#[test]
fn nal_type_from_code() {
    assert_eq!(NalType::from(1), NalType::NonIDR);
    assert_eq!(NalType::from(5), NalType::IDR);
    assert_eq!(NalType::from(7), NalType::SPS);
    assert_eq!(NalType::from(8), NalType::PPS);
    assert_eq!(NalType::from(24), NalType::STAP_A);
    assert_eq!(NalType::from(28), NalType::FU_A);
    assert_eq!(NalType::from(0), NalType::Unknown);
    assert_eq!(NalType::from(31), NalType::Unknown);
    assert_eq!(NalType::from(255), NalType::Unknown);
}

#[test]
fn nal_type_code_round_trip() {
    for kind in [
        NalType::NonIDR,
        NalType::IDR,
        NalType::SPS,
        NalType::PPS,
        NalType::STAP_A,
        NalType::FU_A,
    ] {
        assert_eq!(NalType::from(kind.code()), kind);
    }
    assert_eq!(NalType::Unknown.code(), 255);
}

#[test]
fn empty_payload_gives_nothing() {
    let mut accumulator: Vec<u8> = vec![7, 7];
    assert_eq!(convert_payload_to_nal_units(&[], &mut accumulator), None);
    assert_eq!(accumulator, vec![7, 7]);
}

#[test]
fn single_unit_is_prefixed_with_start_code() {
    for header in 0..=255u8 {
        let kind = header & 0x1F;
        if kind == 24 || kind == 28 {
            continue;
        }
        let mut accumulator: Vec<u8> = vec![1, 2, 3];
        let payload: Vec<u8> = vec![header, 0xAA, 0xBB];
        let units = convert_payload_to_nal_units(&payload, &mut accumulator);
        assert_eq!(units, Some(vec![framed(&payload)]));
        assert_eq!(accumulator, vec![1, 2, 3]);
    }
}

#[test]
fn single_byte_unit_is_passed_on() {
    let mut accumulator: Vec<u8> = Vec::new();
    assert_eq!(
        convert_payload_to_nal_units(&[0x41], &mut accumulator),
        Some(vec![vec![0, 0, 0, 1, 0x41]])
    );
}

#[test]
fn stap_a_gives_units_in_order() {
    let first: &[u8] = &[0x67, 1, 2, 3];
    let second: &[u8] = &[0x68, 4];
    let third: &[u8] = &[0x65, 5, 6, 7, 8, 9];
    let payload = stap_a(&[first, second, third]);
    let mut accumulator: Vec<u8> = Vec::new();
    let units = convert_payload_to_nal_units(&payload, &mut accumulator);
    assert_eq!(units, Some(vec![framed(first), framed(second), framed(third)]));
    assert!(accumulator.is_empty());
}

#[test]
fn stap_a_with_overrunning_last_length_drops_last_unit() {
    let first: &[u8] = &[0x67, 1, 2, 3];
    let second: &[u8] = &[0x68, 4];
    let third: &[u8] = &[0x65, 5, 6, 7, 8, 9];
    let mut payload = stap_a(&[first, second, third]);
    payload.pop();
    let units = convert_stap_a_to_nal_units(&payload);
    assert_eq!(units, Some(vec![framed(first), framed(second)]));
}

#[test]
fn stap_a_with_cut_length_field_drops_the_rest() {
    let first: &[u8] = &[0x67, 1, 2, 3];
    let mut payload = stap_a(&[first]);
    payload.push(0);
    let units = convert_stap_a_to_nal_units(&payload);
    assert_eq!(units, Some(vec![framed(first)]));
}

#[test]
fn stap_a_stops_at_zero_length() {
    let first: &[u8] = &[0x67, 1];
    let mut payload = stap_a(&[first]);
    payload.extend_from_slice(&[0, 0, 0, 1, 0x65]);
    let units = convert_stap_a_to_nal_units(&payload);
    assert_eq!(units, Some(vec![framed(first)]));
}

#[test]
fn stap_a_without_entries_gives_no_units() {
    assert_eq!(convert_stap_a_to_nal_units(&[0x78]), Some(vec![]));
    assert_eq!(convert_stap_a_to_nal_units(&[0x78, 0]), Some(vec![]));
    assert_eq!(convert_stap_a_to_nal_units(&[]), Some(vec![]));
    let mut accumulator: Vec<u8> = Vec::new();
    assert_eq!(convert_payload_to_nal_units(&[0x18], &mut accumulator), Some(vec![]));
}

#[test]
fn stap_a_reads_lengths_big_endian() {
    let unit: Vec<u8> = (0..300).map(|i| (i % 251) as u8 + 1).collect();
    let mut payload = vec![0x18, 0x01, 0x2C];
    payload.extend_from_slice(&unit);
    let units = convert_stap_a_to_nal_units(&payload);
    assert_eq!(units, Some(vec![framed(&unit)]));
}

#[test]
fn fu_a_gives_one_unit_at_the_end() {
    let mut accumulator: Vec<u8> = vec![9, 9, 9];
    let start = [0x7C, 0x85, 1, 2, 3];
    let middle = [0x7C, 0x05, 4, 5];
    let end = [0x7C, 0x45, 6];
    assert_eq!(convert_payload_to_nal_units(&start, &mut accumulator), None);
    assert_eq!(accumulator, vec![0x65, 1, 2, 3]);
    assert_eq!(convert_payload_to_nal_units(&middle, &mut accumulator), None);
    assert_eq!(accumulator, vec![0x65, 1, 2, 3, 4, 5]);
    let units = convert_payload_to_nal_units(&end, &mut accumulator);
    assert_eq!(units, Some(vec![vec![0, 0, 0, 1, 0x65, 1, 2, 3, 4, 5, 6]]));
    assert!(accumulator.is_empty());
}

#[test]
fn fu_a_header_takes_high_bits_of_outer_header() {
    let mut accumulator: Vec<u8> = Vec::new();
    let outer: u8 = 0x3C;
    let inner: u8 = 0xC1;
    let units = convert_fu_a_to_nal_units(&[outer, inner, 0xEE], &mut accumulator);
    let header = (outer & 0xE0) | (inner & 0x1F);
    assert_eq!(header, 0x21);
    assert_eq!(units, Some(vec![vec![0, 0, 0, 1, header, 0xEE]]));
    assert!(accumulator.is_empty());
}

#[test]
fn fu_a_too_short_changes_nothing() {
    let mut accumulator: Vec<u8> = vec![4, 2];
    assert_eq!(convert_payload_to_nal_units(&[0x7C], &mut accumulator), None);
    assert_eq!(accumulator, vec![4, 2]);
}

#[test]
fn fu_a_start_discards_unfinished_unit() {
    let mut accumulator: Vec<u8> = Vec::new();
    assert_eq!(convert_fu_a_to_nal_units(&[0x7C, 0x85, 1, 2], &mut accumulator), None);
    assert_eq!(convert_fu_a_to_nal_units(&[0x7C, 0x81, 7], &mut accumulator), None);
    assert_eq!(accumulator, vec![0x61, 7]);
}

#[test]
fn deframe_recognizes_both_start_codes() {
    let (kind, unit) = split_prefix_code(&[0, 0, 1, 0x67, 5]).unwrap();
    assert_eq!(kind, NalType::SPS);
    assert_eq!(unit, &[0x67, 5]);
    let (kind, unit) = split_prefix_code(&[0, 0, 0, 1, 0x68, 6, 7]).unwrap();
    assert_eq!(kind, NalType::PPS);
    assert_eq!(unit, &[0x68, 6, 7]);
}

#[test]
fn deframe_rejects_other_prefixes() {
    assert!(matches!(split_prefix_code(&[]), Err(Error::MalformedNalUnit)));
    assert!(matches!(split_prefix_code(&[0, 0]), Err(Error::MalformedNalUnit)));
    assert!(matches!(split_prefix_code(&[1, 0, 0, 1, 0x65]), Err(Error::MalformedNalUnit)));
    assert!(matches!(split_prefix_code(&[0, 0, 2, 0x65]), Err(Error::MalformedNalUnit)));
    assert!(matches!(split_prefix_code(&[0, 0, 0, 0, 1, 0x65]), Err(Error::MalformedNalUnit)));
    assert!(matches!(get_prefix_code(&[0x65, 0, 0, 1]), Err(Error::MalformedNalUnit)));
}

#[test]
fn deframe_rejects_start_code_without_header() {
    assert!(matches!(split_prefix_code(&[0, 0, 1]), Err(Error::MalformedNalUnit)));
    assert!(matches!(split_prefix_code(&[0, 0, 0, 1]), Err(Error::MalformedNalUnit)));
}

#[test]
fn deframe_inverts_reframe() {
    for header in 0..=255u8 {
        let kind = header & 0x1F;
        if kind == 24 || kind == 28 {
            continue;
        }
        let payload = vec![header, 3, 1, 4, 1, 5];
        let mut accumulator: Vec<u8> = Vec::new();
        let units = convert_payload_to_nal_units(&payload, &mut accumulator).unwrap();
        assert_eq!(units.len(), 1);
        let (found, unit) = split_prefix_code(&units[0]).unwrap();
        assert_eq!(found, NalType::from(kind));
        assert_eq!(unit, &payload[..]);
        assert_eq!(get_prefix_code(&units[0]).unwrap(), NalType::from(kind));
    }
}

#[test]
fn error_messages() {
    assert_eq!(Error::Decoding.message(), "nothing to decode");
    assert_eq!(Error::MalformedNalUnit.message(), "malformed NAL unit");
    assert_eq!(Error::OpenH264 { message: String::from("codec says no") }.message(), "codec says no");
    assert_eq!(Error::CameraNotReady { message: String::from("no camera") }.message(), "no camera");
}

#[test]
fn dropped_bytes_of_aggregation_packets_are_counted() {
    let first: &[u8] = &[0x67, 1, 2, 3];
    let second: &[u8] = &[0x68, 4];
    let whole = stap_a(&[first, second]);
    assert_eq!(stap_a_dropped_bytes(&whole), 0);
    let mut cut = whole.clone();
    cut.pop();
    assert_eq!(stap_a_dropped_bytes(&cut), 3);
    let mut trailing = whole.clone();
    trailing.push(9);
    assert_eq!(stap_a_dropped_bytes(&trailing), 1);
    let mut zero = whole.clone();
    zero.extend_from_slice(&[0, 0, 5, 6]);
    assert_eq!(stap_a_dropped_bytes(&zero), 4);
    assert_eq!(stap_a_dropped_bytes(&[0x78]), 0);
    assert_eq!(stap_a_dropped_bytes(&[]), 0);
}
