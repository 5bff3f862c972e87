//! Tests of the relation-option codec: parsing, validation, the packed
//! byte layout and the textual round trip.

use fulon_am::options::{
    dioptions, pack_options, parse_bounded_int, parse_options, reserialize_options, size_text,
    unpack_options, IndexOptions, OptionError, ParsedInt,
};

fn pairs(items: &[(&str, &str)]) -> Vec<(String, String)> {
    items.iter().map(|(k, v)| (k.to_string(), v.to_string())).collect()
}

#[test]
fn default_size_when_no_option_supplied() {
    let opts = pairs(&[]);
    let o = parse_options(&opts, true).unwrap();
    assert_eq!(o.size, 10);
    assert_eq!(o.vl_len, 8);
}

#[test]
fn every_valid_size_parses_and_round_trips() {
    for n in -10..=100 {
        let opts = pairs(&[("size", &n.to_string())]);
        let o = parse_options(&opts, true).unwrap();
        assert_eq!(o.size, n);
        // Re-serialize the packed record as text and parse it again.
        let again = reserialize_options(&o);
        let o2 = parse_options(&again, true).unwrap();
        assert_eq!(o2.size, n);
    }
}

#[test]
fn out_of_range_size_reports_the_key() {
    for v in ["101", "-11", "1000", "99999999999999999999999"] {
        let opts = pairs(&[("size", v)]);
        match parse_options(&opts, true) {
            Err(OptionError::OutOfRange { key, value }) => {
                assert_eq!(key, "size");
                assert_eq!(value, v);
            }
            other => panic!("expected an out-of-range error, got {:?}", other),
        }
    }
}

#[test]
fn malformed_size_reports_the_key() {
    for v in ["", "-", "abc", "12x", "--3", "1.5", " 7"] {
        let opts = pairs(&[("size", v)]);
        match parse_options(&opts, true) {
            Err(OptionError::Invalid { key, value }) => {
                assert_eq!(key, "size");
                assert_eq!(value, v);
            }
            other => panic!("expected an invalid-value error, got {:?}", other),
        }
    }
}

#[test]
fn unknown_key_fails_validation() {
    let opts = pairs(&[("fillfactor", "70")]);
    match parse_options(&opts, true) {
        Err(OptionError::Unknown { key }) => assert_eq!(key, "fillfactor"),
        other => panic!("expected an unknown-key error, got {:?}", other),
    }
}

#[test]
fn unknown_key_is_ignored_without_validation() {
    let opts = pairs(&[("fillfactor", "70"), ("size", "33")]);
    let o = parse_options(&opts, false).unwrap();
    assert_eq!(o.size, 33);
}

#[test]
fn malformed_stored_options_are_a_fatal_inconsistency() {
    for v in ["abc", "101", "-11"] {
        let opts = pairs(&[("size", v)]);
        match parse_options(&opts, false) {
            Err(OptionError::Corrupt) => {}
            other => panic!("expected a consistency error, got {:?}", other),
        }
    }
}

#[test]
fn later_size_replaces_earlier() {
    let opts = pairs(&[("size", "5"), ("size", "42")]);
    let o = parse_options(&opts, true).unwrap();
    assert_eq!(o.size, 42);
}

#[test]
fn first_offending_pair_decides_the_error() {
    let opts = pairs(&[("size", "7"), ("size", "abc"), ("size", "200")]);
    match parse_options(&opts, true) {
        Err(OptionError::Invalid { key, value }) => {
            assert_eq!(key, "size");
            assert_eq!(value, "abc");
        }
        other => panic!("expected an invalid-value error, got {:?}", other),
    }
}

#[test]
fn bounded_int_accepts_leading_zeros_and_sign() {
    assert_eq!(parse_bounded_int("007", -10, 100), ParsedInt::Value(7));
    assert_eq!(parse_bounded_int("-010", -10, 100), ParsedInt::Value(-10));
    assert_eq!(
        parse_bounded_int("0000000000000000000000100", -10, 100),
        ParsedInt::Value(100)
    );
    assert_eq!(parse_bounded_int("-0", -10, 100), ParsedInt::Value(0));
    assert_eq!(parse_bounded_int("00101", -10, 100), ParsedInt::OutOfBounds);
    assert_eq!(parse_bounded_int("+7", -10, 100), ParsedInt::Malformed);
}

#[test]
fn packed_layout_is_byte_exact() {
    let o = IndexOptions { vl_len: 8, size: 10 };
    assert_eq!(pack_options(&o), vec![8, 0, 0, 0, 10, 0, 0, 0]);
    let neg = IndexOptions { vl_len: 8, size: -10 };
    assert_eq!(pack_options(&neg), vec![8, 0, 0, 0, 0xf6, 0xff, 0xff, 0xff]);
}

#[test]
fn packing_is_deterministic() {
    let opts = pairs(&[("size", "64")]);
    let a = dioptions(&opts, true).unwrap();
    let b = dioptions(&opts, true).unwrap();
    assert_eq!(a, b);
    assert_eq!(a.len(), 8);
}

#[test]
fn packed_record_unpacks_to_the_same_record() {
    for n in [-10, 0, 10, 100] {
        let o = IndexOptions { vl_len: 8, size: n };
        let bytes = pack_options(&o);
        let back = unpack_options(&bytes).unwrap();
        assert_eq!(back.vl_len, 8);
        assert_eq!(back.size, n);
    }
}

#[test]
fn unpack_rejects_malformed_records() {
    assert!(unpack_options(&vec![]).is_none());
    assert!(unpack_options(&vec![8, 0, 0, 0, 10, 0, 0]).is_none());
    // Wrong length header.
    assert!(unpack_options(&vec![9, 0, 0, 0, 10, 0, 0, 0]).is_none());
    // Size out of bounds.
    assert!(unpack_options(&vec![8, 0, 0, 0, 101, 0, 0, 0]).is_none());
}

#[test]
fn size_text_writes_plain_decimals() {
    assert_eq!(size_text(-10), "-10");
    assert_eq!(size_text(0), "0");
    assert_eq!(size_text(7), "7");
    assert_eq!(size_text(100), "100");
}

#[test]
fn dioptions_reports_errors_like_the_parse() {
    let opts = pairs(&[("size", "101")]);
    match dioptions(&opts, true) {
        Err(OptionError::OutOfRange { key, .. }) => assert_eq!(key, "size"),
        other => panic!("expected an out-of-range error, got {:?}", other),
    }
}
