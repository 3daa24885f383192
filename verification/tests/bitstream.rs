use rust_player::video::nal::{
    extradata_to_annex_b, mp4_sample_to_annex_b, nal_length_size_from_extradata, parse_avcc,
    parse_hvcc, ANNEX_B_START_CODE,
};
use rust_player::video::obu::{mp4_sample_to_obu_stream, read_leb128};

#[test]
fn mp4_sample_length_prefix_to_annex_b() {
    let sample = [0, 0, 0, 3, 0xAB, 0xCD, 0xEF];
    let annex = mp4_sample_to_annex_b(&sample, 4);
    assert_eq!(&annex[..4], ANNEX_B_START_CODE);
    assert_eq!(&annex[4..], &[0xAB, 0xCD, 0xEF]);
}

#[test]
fn avcc_extradata_parses_sps_pps() {
    let avcc = [
        1, 0x64, 0x00, 0x1f, 0xff, 0xe1, 0x00, 0x03, 0xAA, 0xBB, 0xCC, 0x01, 0x00, 0x02, 0x11,
        0x22,
    ];
    let annex = parse_avcc(&avcc);
    assert!(annex.windows(4).any(|w| w == ANNEX_B_START_CODE));
    assert!(annex.contains(&0xAA));
    assert!(annex.contains(&0x11));
}

#[test]
fn passes_through_raw_obu() {
    let sample = [0x12u8, 0x00, 0x0a, 0x07];
    assert_eq!(mp4_sample_to_obu_stream(&sample), sample.to_vec());
}

#[test]
fn small_size_prefix_as_raw_obu() {
    let sample = [0x02u8, 0x0a, 0x0b];
    assert_eq!(mp4_sample_to_obu_stream(&sample), sample.to_vec());
}

#[test]
fn annex_b_exact_output_two_nals() {
    let sample = [0, 2, 0x65, 0x88, 0, 1, 0x41];
    assert_eq!(
        mp4_sample_to_annex_b(&sample, 2),
        vec![0, 0, 0, 1, 0x65, 0x88, 0, 0, 0, 1, 0x41]
    );
}

#[test]
fn annex_b_stops_at_truncated_or_zero_nal() {
    assert_eq!(mp4_sample_to_annex_b(&[0, 0, 0, 9, 1, 2], 4), Vec::<u8>::new());
    assert_eq!(mp4_sample_to_annex_b(&[0, 1, 7, 0, 0, 0, 1], 2), vec![0, 0, 0, 1, 7]);
    // a 3-byte prefix reads big-endian like the others
    assert_eq!(mp4_sample_to_annex_b(&[0, 0, 1, 9], 3), vec![0, 0, 0, 1, 9]);
    // width 0 is clamped to 1
    assert_eq!(mp4_sample_to_annex_b(&[1, 9], 0), vec![0, 0, 0, 1, 9]);
}

#[test]
fn avcc_exact_sps_then_pps() {
    let avcc = [
        1, 0x64, 0x00, 0x1f, 0xff, 0xe1, 0x00, 0x03, 0xAA, 0xBB, 0xCC, 0x01, 0x00, 0x02, 0x11,
        0x22,
    ];
    assert_eq!(
        parse_avcc(&avcc),
        vec![0, 0, 0, 1, 0xAA, 0xBB, 0xCC, 0, 0, 0, 1, 0x11, 0x22]
    );
    assert_eq!(extradata_to_annex_b(&avcc), parse_avcc(&avcc));
    assert_eq!(nal_length_size_from_extradata(&avcc), 4);
    assert_eq!(nal_length_size_from_extradata(&[1, 2]), 4);
}

#[test]
fn hvcc_arrays_in_order() {
    let mut hvcc = vec![0u8; 22];
    hvcc[4] = 0xfd;
    hvcc.push(2); // two arrays
    hvcc.extend_from_slice(&[0x20, 0, 1, 0, 2, 0x40, 0x01]);
    hvcc.extend_from_slice(&[0x21, 0, 1, 0, 1, 0x42]);
    assert_eq!(
        parse_hvcc(&hvcc),
        Some(vec![0, 0, 0, 1, 0x40, 0x01, 0, 0, 0, 1, 0x42])
    );
    assert_eq!(parse_hvcc(&hvcc[..10]), None);
    assert_eq!(
        extradata_to_annex_b(&hvcc),
        vec![0, 0, 0, 1, 0x40, 0x01, 0, 0, 0, 1, 0x42]
    );
    assert_eq!(nal_length_size_from_extradata(&hvcc), 2);
}

#[test]
fn size_prefixed_obus_are_unwrapped() {
    // forbidden bit set: read as LEB128 size + OBU pairs
    let sample = [0x82u8, 0x00, 0xAA, 0xBB, 0x01, 0xCC];
    assert_eq!(mp4_sample_to_obu_stream(&sample), vec![0xAA, 0xBB, 0xCC]);
    // an unreadable size falls back to the sample itself
    let bad = [0x80u8, 0x80, 0x80, 0x80, 0x80, 0x80];
    assert_eq!(mp4_sample_to_obu_stream(&bad), bad.to_vec());
    assert_eq!(mp4_sample_to_obu_stream(&[]), Vec::<u8>::new());
}

#[test]
fn leb128_values() {
    assert_eq!(read_leb128(&[0x05]), Some((5, 1)));
    assert_eq!(read_leb128(&[0xE5, 0x8E, 0x26]), Some((624485, 3)));
    assert_eq!(read_leb128(&[0x80, 0x80, 0x80, 0x80, 0x80, 0x01]), None);
    assert_eq!(read_leb128(&[0x80]), None);
}

#[test]
fn length_prefixed_units_read_back() {
    // Two NAL units behind 2-byte lengths, then 1-byte lengths.
    let two = [0u8, 2, 0x67, 0x42, 0, 1, 0x68];
    assert_eq!(
        mp4_sample_to_annex_b(&two, 2),
        vec![0, 0, 0, 1, 0x67, 0x42, 0, 0, 0, 1, 0x68]
    );
    let one = [3u8, 1, 2, 3, 1, 9];
    assert_eq!(mp4_sample_to_annex_b(&one, 1), vec![0, 0, 0, 1, 1, 2, 3, 0, 0, 0, 1, 9]);
}

#[test]
fn size_prefixed_obus_read_back() {
    // A 200-byte OBU behind its two-byte size, then a 3-byte OBU behind a one-byte size.
    let first: Vec<u8> = (0..200u32).map(|i| (i % 251) as u8).collect();
    let second = vec![0x12u8, 0x34, 0x56];
    let mut sample = vec![0xC8u8, 0x01];
    sample.extend_from_slice(&first);
    sample.push(0x03);
    sample.extend_from_slice(&second);
    let mut expected = first.clone();
    expected.extend_from_slice(&second);
    assert_eq!(mp4_sample_to_obu_stream(&sample), expected);
}

#[test]
fn three_byte_length_prefixes_read_back() {
    let three = [0u8, 0, 2, 0x67, 0x42, 0, 0, 1, 0x68];
    assert_eq!(
        mp4_sample_to_annex_b(&three, 3),
        vec![0, 0, 0, 1, 0x67, 0x42, 0, 0, 0, 1, 0x68]
    );
}
