use starmap::codec::{encode_record, read_i32_le, write_i32_le, DecodeError, FieldName};
use starmap::filter::{star_subset, RENDER_SCALE_DENOM};
use starmap::loader::load_catalog;

fn padded(s: &str, width: usize) -> Vec<u8> {
    let mut v = s.as_bytes().to_vec();
    while v.len() < width {
        v.push(b' ');
    }
    v
}

fn record(x: i32, y_stored: i32, z: i32, index: i32, name: &str, tag: &str) -> Vec<u8> {
    encode_record(x, y_stored, z, index, 0, &padded(name, 20), &padded(tag, 4))
}

#[test]
fn round_trip_valid_record() {
    let bytes = encode_record(10, -22, 33, 7, 99, &padded("Vega", 20), &padded("S05", 4));
    assert_eq!(bytes.len(), 44);
    let e = starmap::codec::decode_record(&bytes).unwrap();
    assert_eq!(e.x, 10);
    assert_eq!(e.y, 22); // sign-corrected on decode
    assert_eq!(e.z, 33);
    assert_eq!(e.index, 7);
    assert_eq!(e.reserved, 99);
    assert_eq!(e.name, b"Vega".to_vec());
    assert_eq!(e.type_tag, b"S05".to_vec());
    let reencoded = encode_record(
        e.x,
        starmap::codec::negate_i32(e.y),
        e.z,
        e.index,
        e.reserved,
        &bytes[20..40],
        &bytes[40..44],
    );
    assert_eq!(reencoded, bytes);
}

#[test]
fn round_trip_minimum_y() {
    let bytes = encode_record(0, i32::MIN, 0, 0, 0, &padded("Edge", 20), &padded("S00", 4));
    let e = starmap::codec::decode_record(&bytes).unwrap();
    // The negation of i32::MIN is not representable; it is stored unchanged.
    assert_eq!(e.y, i32::MIN);
    let reencoded = encode_record(
        e.x,
        starmap::codec::negate_i32(e.y),
        e.z,
        e.index,
        e.reserved,
        &bytes[20..40],
        &bytes[40..44],
    );
    assert_eq!(reencoded, bytes);
}

#[test]
fn le_i32_codec() {
    let b = write_i32_le(-1);
    assert_eq!(b, vec![0xFF, 0xFF, 0xFF, 0xFF]);
    assert_eq!(read_i32_le(&b, 0), -1);
    let b = write_i32_le(0x01020304);
    assert_eq!(b, vec![0x04, 0x03, 0x02, 0x01]);
    assert_eq!(read_i32_le(&b, 0), 0x01020304);
    let b = write_i32_le(i32::MIN);
    assert_eq!(b, vec![0x00, 0x00, 0x00, 0x80]);
    assert_eq!(read_i32_le(&b, 0), i32::MIN);
}

#[test]
fn exact_multiple_all_valid() {
    let mut stream = record(1, 0, 0, 1, "One", "S00");
    stream.extend(record(2, 0, 0, 2, "Two", "P42"));
    stream.extend(record(3, 0, 0, 3, "Three", "S11"));
    assert_eq!(stream.len() % 44, 0);
    let r = load_catalog(&stream);
    assert_eq!(r.entities.len(), stream.len() / 44);
    assert_eq!(r.diagnostics.len(), 0);
    assert_eq!(r.entities[0].name, b"One".to_vec());
    assert_eq!(r.entities[1].name, b"Two".to_vec());
    assert_eq!(r.entities[2].name, b"Three".to_vec());
}

#[test]
fn truncated_tail() {
    let mut stream = record(1, 0, 0, 1, "One", "S00");
    stream.extend([0u8; 10]);
    let r = load_catalog(&stream);
    assert_eq!(r.entities.len(), 1);
    assert_eq!(r.diagnostics.len(), 1);
    assert_eq!(r.diagnostics[0].record, 2);
    assert!(matches!(r.diagnostics[0].error, DecodeError::TruncatedRecord));
}

#[test]
fn classify_star_and_planet() {
    let star = starmap::codec::decode_record(&record(0, 0, 0, 0, "A", "S05")).unwrap();
    assert!(star.is_star());
    assert!(!star.is_planet());
    let planet = starmap::codec::decode_record(&record(0, 0, 0, 0, "B", "P12")).unwrap();
    assert!(planet.is_planet());
    assert!(!planet.is_star());
}

#[test]
fn star_subindex_out_of_range_rejected() {
    let err = starmap::codec::decode_record(&record(0, 0, 0, 0, "C", "S12")).unwrap_err();
    match err {
        DecodeError::InvalidTypeTag(tag) => assert_eq!(tag, b"S12".to_vec()),
        other => panic!("expected InvalidTypeTag, got {:?}", other),
    }
}

#[test]
fn tag_grammar_edges() {
    // Planet sub-types span the whole two-digit range.
    assert!(starmap::codec::decode_record(&record(0, 0, 0, 0, "", "P00")).is_ok());
    assert!(starmap::codec::decode_record(&record(0, 0, 0, 0, "", "P99")).is_ok());
    // Star sub-types stop at 11.
    assert!(starmap::codec::decode_record(&record(0, 0, 0, 0, "", "S11")).is_ok());
    assert!(starmap::codec::decode_record(&record(0, 0, 0, 0, "", "S99")).is_err());
    // Too short, too long, or unknown leading letter.
    assert!(starmap::codec::decode_record(&record(0, 0, 0, 0, "", "S1")).is_err());
    assert!(starmap::codec::decode_record(&record(0, 0, 0, 0, "", "S051")).is_err());
    assert!(starmap::codec::decode_record(&record(0, 0, 0, 0, "", "X05")).is_err());
}

#[test]
fn non_ascii_name_rejected_and_load_continues() {
    let mut bad = record(0, 0, 0, 0, "Bad", "S00");
    bad[25] = 0xFF; // inside the 20-byte name field
    let err = starmap::codec::decode_record(&bad).unwrap_err();
    assert!(matches!(
        err,
        DecodeError::InvalidEncoding { field: FieldName::Name }
    ));
    let mut stream = bad;
    stream.extend(record(5, 0, 0, 5, "Good", "P01"));
    let r = load_catalog(&stream);
    assert_eq!(r.entities.len(), 1);
    assert_eq!(r.entities[0].name, b"Good".to_vec());
    assert_eq!(r.diagnostics.len(), 1);
    assert_eq!(r.diagnostics[0].record, 1);
    assert!(matches!(
        r.diagnostics[0].error,
        DecodeError::InvalidEncoding { field: FieldName::Name }
    ));
}

#[test]
fn non_ascii_typestr_rejected() {
    let mut bad = record(0, 0, 0, 0, "Name", "S00");
    bad[41] = 0x80; // inside the 4-byte tag field
    let err = starmap::codec::decode_record(&bad).unwrap_err();
    assert!(matches!(
        err,
        DecodeError::InvalidEncoding { field: FieldName::TypeStr }
    ));
}

#[test]
fn mixed_stream_recovers() {
    let mut stream = Vec::new();
    stream.extend(record(1, 0, 0, 1, "One", "S00"));
    stream.extend(record(2, 0, 0, 2, "Two", "P05"));
    stream.extend(record(3, 0, 0, 3, "Three", "S11"));
    stream.extend([0xDE, 0xAD, 0xBE, 0xEF]);
    let r = load_catalog(&stream);
    assert_eq!(r.entities.len(), 3);
    assert_eq!(r.diagnostics.len(), 1);
    assert_eq!(r.diagnostics[0].record, 4);
    assert!(matches!(r.diagnostics[0].error, DecodeError::TruncatedRecord));
}

#[test]
fn star_filter_keeps_stars_in_order_and_scales() {
    let mut stream = Vec::new();
    stream.extend(record(10_000_000, -20_000_000, 30_000_000, 1, "First", "S00"));
    stream.extend(record(4, 5, 6, 2, "Second", "P05"));
    stream.extend(record(-50_000_000, 0, 2_500_000, 3, "Third", "S11"));
    let r = load_catalog(&stream);
    assert_eq!(r.entities.len(), 3);
    let stars = star_subset(&r.entities);
    assert_eq!(stars.len(), 2);
    assert_eq!(stars[0].name, b"First".to_vec());
    assert_eq!(stars[0].index, 1);
    assert_eq!(stars[1].name, b"Third".to_vec());
    assert_eq!(stars[1].index, 3);
    let scale = 1.0f64 / RENDER_SCALE_DENOM as f64;
    assert_eq!(stars[0].x as f64 * scale, 1.0);
    assert_eq!(stars[0].y as f64 * scale, 2.0); // stored -2e7, sign-corrected
    assert_eq!(stars[0].z as f64 * scale, 3.0);
    assert_eq!(stars[1].x as f64 * scale, -5.0);
    assert_eq!(stars[1].y as f64 * scale, 0.0);
    assert_eq!(stars[1].z as f64 * scale, 0.25);
}

#[test]
fn empty_stream_is_empty_catalog() {
    let r = load_catalog(&[]);
    assert_eq!(r.entities.len(), 0);
    assert_eq!(r.diagnostics.len(), 0);
}

#[test]
fn whitespace_only_name_trims_to_empty() {
    let e = starmap::codec::decode_record(&record(0, 0, 0, 0, "", "P07")).unwrap();
    assert_eq!(e.name, Vec::<u8>::new());
    let mut name = b"\t Spaced name \t".to_vec();
    name.resize(20, b' ');
    let tabbed = encode_record(0, 0, 0, 0, 0, &name, &padded("P07", 4));
    let e = starmap::codec::decode_record(&tabbed).unwrap();
    assert_eq!(e.name, b"Spaced name".to_vec());
}

#[test]
fn duplicate_copies_every_field() {
    let e = starmap::codec::decode_record(&record(7, -8, 9, 4, "Copy", "S01")).unwrap();
    let d = e.duplicate();
    assert_eq!(d.x, e.x);
    assert_eq!(d.y, e.y);
    assert_eq!(d.z, e.z);
    assert_eq!(d.index, e.index);
    assert_eq!(d.reserved, e.reserved);
    assert_eq!(d.name, e.name);
    assert_eq!(d.type_tag, e.type_tag);
}
