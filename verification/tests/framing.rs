use warc_parser::framer::{
    classify_line, parse_warc_type, read_all_records, read_record, HeaderLine, WarcError, WarcType,
};
use warc_parser::header::Header;
use warc_parser::lines::{scan_line, skip_line};
use warc_parser::text::{parse_usize, trim_range};

fn render(kind: &str, extra: &[(&str, &str)], payload: &[u8]) -> Vec<u8> {
    let mut out = Vec::new();
    out.extend_from_slice(b"WARC/1.0\r\n");
    out.extend_from_slice(format!("WARC-Type: {}\r\n", kind).as_bytes());
    for (name, value) in extra {
        out.extend_from_slice(format!("{}: {}\r\n", name, value).as_bytes());
    }
    out.extend_from_slice(format!("Content-Length: {}\r\n", payload.len()).as_bytes());
    out.extend_from_slice(b"\r\n");
    out.extend_from_slice(payload);
    out.extend_from_slice(b"\r\n\r\n");
    out
}

#[test]
fn framing_round_trip_of_three_records() {
    let payloads: Vec<Vec<u8>> = vec![
        b"first payload".to_vec(),
        vec![0u8, 10, 13, 255, 58, 10, 10],
        Vec::new(),
    ];
    let mut stream = Vec::new();
    stream.extend(render("warcinfo", &[], &payloads[0]));
    stream.extend(render("response", &[("X-Note", "binary")], &payloads[1]));
    stream.extend(render("conversion", &[], &payloads[2]));
    let (records, failure) = read_all_records(&stream);
    assert_eq!(failure, None);
    assert_eq!(records.len(), 3);
    for i in 0..3 {
        assert_eq!(records[i].payload, payloads[i]);
        assert_eq!(records[i].content_length, payloads[i].len());
        assert_eq!(records[i].warc_version, "1.0");
    }
    assert_eq!(records[0].warc_type, WarcType::WarcInfo);
    assert_eq!(records[1].warc_type, WarcType::Response);
    assert_eq!(records[2].warc_type, WarcType::Conversion);
    assert_eq!(records[1].header.get("X-Note").unwrap(), "binary");
}

#[test]
fn empty_stream_has_no_records() {
    let (records, failure) = read_all_records(b"");
    assert_eq!(records.len(), 0);
    assert_eq!(failure, None);
    assert!(matches!(read_record(b"", 0), Ok(None)));
}

#[test]
fn read_record_reports_where_the_next_record_starts() {
    let first = render("request", &[], b"abc");
    let mut stream = first.clone();
    stream.extend(render("metadata", &[], b"de"));
    let (record, next) = read_record(&stream, 0).unwrap().unwrap();
    assert_eq!(record.warc_type, WarcType::Request);
    assert_eq!(next, first.len());
    let (record, next) = read_record(&stream, next).unwrap().unwrap();
    assert_eq!(record.warc_type, WarcType::Metadata);
    assert_eq!(record.payload, b"de");
    assert_eq!(next, stream.len());
    assert!(matches!(read_record(&stream, next), Ok(None)));
}

#[test]
fn line_feed_only_line_ends_are_accepted() {
    let stream = b"WARC/1.0\nWARC-Type: resource\nContent-Length: 4\n\nbody\n\n";
    let (records, failure) = read_all_records(stream);
    assert_eq!(failure, None);
    assert_eq!(records.len(), 1);
    assert_eq!(records[0].payload, b"body");
    assert_eq!(records[0].warc_type, WarcType::Resource);
}

#[test]
fn truncated_payload_is_a_fatal_error() {
    let mut stream = render("warcinfo", &[], b"complete");
    stream.extend_from_slice(b"WARC/1.0\r\nWARC-Type: conversion\r\nContent-Length: 10\r\n\r\nshort");
    let (records, failure) = read_all_records(&stream);
    assert_eq!(records.len(), 1);
    assert_eq!(records[0].payload, b"complete");
    assert_eq!(failure, Some(WarcError::TruncatedPayload));
}

#[test]
fn payload_that_ends_with_the_stream_is_accepted() {
    let stream = b"WARC/1.0\r\nWARC-Type: conversion\r\nContent-Length: 5\r\n\r\nexact";
    let (record, next) = read_record(stream, 0).unwrap().unwrap();
    assert_eq!(record.payload, b"exact");
    assert_eq!(next, stream.len());
}

#[test]
fn stray_line_stops_framing_without_error() {
    let mut stream = Vec::new();
    stream.extend(render("warcinfo", &[], b"one"));
    stream.extend(render("revisit", &[], b"two"));
    stream.extend_from_slice(b"garbage\r\n");
    stream.extend(render("continuation", &[], b"three"));
    let (records, failure) = read_all_records(&stream);
    assert_eq!(failure, None);
    assert_eq!(records.len(), 2);
    assert_eq!(records[0].payload, b"one");
    assert_eq!(records[1].payload, b"two");
}

#[test]
fn stray_line_inside_a_header_stops_framing() {
    let mut stream = render("warcinfo", &[], b"one");
    stream.extend_from_slice(b"WARC/1.0\r\nWARC-Type: conversion\r\nnot a field\r\n\r\n");
    let (records, failure) = read_all_records(&stream);
    assert_eq!(failure, None);
    assert_eq!(records.len(), 1);
}

#[test]
fn header_cut_off_by_the_end_of_the_stream_gives_no_record() {
    let stream = b"WARC/1.0\r\nWARC-Type: conversion\r\n";
    assert!(matches!(read_record(stream, 0), Ok(None)));
}

#[test]
fn line_with_several_colons_is_split_at_the_first() {
    match classify_line("WARC-Date: 2020-01-01T00:00:00Z") {
        HeaderLine::Field { name, value } => {
            assert_eq!(name, "WARC-Date");
            assert_eq!(value, "2020-01-01T00:00:00Z");
        }
        _ => panic!("expected a field"),
    }
    match classify_line("a:b:c") {
        HeaderLine::Field { name, value } => {
            assert_eq!(name, "a");
            assert_eq!(value, "b:c");
        }
        _ => panic!("expected a field"),
    }
}

#[test]
fn header_lines_are_classified() {
    assert!(matches!(classify_line("WARC/1.0"), HeaderLine::Version));
    assert!(matches!(classify_line("  WARC/1.0\t"), HeaderLine::Version));
    assert!(matches!(classify_line(""), HeaderLine::Blank));
    assert!(matches!(classify_line(" \t\u{a0}\u{3000}"), HeaderLine::Blank));
    assert!(matches!(classify_line("WARC/1.1"), HeaderLine::Stray));
    assert!(matches!(classify_line("token"), HeaderLine::Stray));
    match classify_line("  Key \t:  spaced value  ") {
        HeaderLine::Field { name, value } => {
            assert_eq!(name, "Key");
            assert_eq!(value, "spaced value");
        }
        _ => panic!("expected a field"),
    }
    match classify_line(":") {
        HeaderLine::Field { name, value } => {
            assert_eq!(name, "");
            assert_eq!(value, "");
        }
        _ => panic!("expected a field"),
    }
}

#[test]
fn missing_version_is_fatal() {
    let stream = b"WARC-Type: conversion\r\nContent-Length: 0\r\n\r\n\r\n\r\n";
    assert_eq!(read_record(stream, 0).err(), Some(WarcError::MissingVersion));
}

#[test]
fn missing_type_is_fatal() {
    let stream = b"WARC/1.0\r\nContent-Length: 0\r\n\r\n\r\n\r\n";
    assert_eq!(read_record(stream, 0).err(), Some(WarcError::MissingType));
}

#[test]
fn unknown_type_is_fatal() {
    let stream = b"WARC/1.0\r\nWARC-Type: Conversion\r\nContent-Length: 0\r\n\r\n\r\n\r\n";
    assert_eq!(read_record(stream, 0).err(), Some(WarcError::UnknownType));
}

#[test]
fn missing_content_length_is_fatal() {
    let stream = b"WARC/1.0\r\nWARC-Type: conversion\r\n\r\n\r\n\r\n";
    assert_eq!(read_record(stream, 0).err(), Some(WarcError::MissingContentLength));
}

#[test]
fn invalid_content_length_is_fatal() {
    for value in ["-1", "ten", "", "1 0", "99999999999999999999999999"] {
        let stream = format!("WARC/1.0\r\nWARC-Type: conversion\r\nContent-Length: {}\r\n\r\n", value);
        assert_eq!(
            read_record(stream.as_bytes(), 0).err(),
            Some(WarcError::InvalidContentLength)
        );
    }
}

#[test]
fn header_line_that_is_not_utf8_is_fatal() {
    let stream = b"WARC/1.0\r\nX-Bad: \xff\xfe\r\nWARC-Type: conversion\r\nContent-Length: 0\r\n\r\n";
    assert_eq!(read_record(stream, 0).err(), Some(WarcError::InvalidHeaderEncoding));
}

#[test]
fn last_value_of_a_repeated_field_wins() {
    let stream = b"WARC/1.0\r\nWARC-Type: request\r\nWARC-Type: response\r\nContent-Length: 9\r\nContent-Length: 2\r\n\r\nok\r\n\r\n";
    let (record, _) = read_record(stream, 0).unwrap().unwrap();
    assert_eq!(record.warc_type, WarcType::Response);
    assert_eq!(record.content_length, 2);
    assert_eq!(record.payload, b"ok");
    assert_eq!(record.header.get("WARC-Type").unwrap(), "response");
}

#[test]
fn header_map_keeps_the_last_write() {
    let mut header = Header::new();
    assert!(header.get("a").is_none());
    assert!(!header.contains("a"));
    header.insert("a".to_string(), "1".to_string());
    header.insert("b".to_string(), "2".to_string());
    header.insert("a".to_string(), "3".to_string());
    assert_eq!(header.get("a").unwrap(), "3");
    assert_eq!(header.get("b").unwrap(), "2");
    assert!(header.contains("b"));
    assert!(header.get("A").is_none());
}

#[test]
fn separator_lines_are_discarded_whatever_they_hold() {
    let stream = b"WARC/1.0\nWARC-Type: warcinfo\nContent-Length: 1\n\nxrest of line\n\xff junk\nWARC/1.0\nWARC-Type: metadata\nContent-Length: 0\n\n";
    let (records, failure) = read_all_records(stream);
    assert_eq!(failure, None);
    assert_eq!(records.len(), 2);
    assert_eq!(records[0].payload, b"x");
    assert_eq!(records[1].warc_type, WarcType::Metadata);
}

#[test]
fn every_record_type_is_known_by_its_name() {
    assert_eq!(parse_warc_type("warcinfo"), Some(WarcType::WarcInfo));
    assert_eq!(parse_warc_type("response"), Some(WarcType::Response));
    assert_eq!(parse_warc_type("resource"), Some(WarcType::Resource));
    assert_eq!(parse_warc_type("request"), Some(WarcType::Request));
    assert_eq!(parse_warc_type("metadata"), Some(WarcType::Metadata));
    assert_eq!(parse_warc_type("revisit"), Some(WarcType::Revisit));
    assert_eq!(parse_warc_type("conversion"), Some(WarcType::Conversion));
    assert_eq!(parse_warc_type("continuation"), Some(WarcType::Continuation));
    assert_eq!(parse_warc_type("other"), None);
    assert_eq!(parse_warc_type(""), None);
}

#[test]
fn lines_are_split_at_line_feeds() {
    let input = b"ab\r\ncd\n\r\nlast";
    assert_eq!(scan_line(input, 0), (2, 4));
    assert_eq!(scan_line(input, 4), (6, 7));
    assert_eq!(scan_line(input, 7), (7, 9));
    assert_eq!(scan_line(input, 9), (13, 13));
    assert_eq!(scan_line(input, 13), (13, 13));
    assert_eq!(skip_line(input, 1), 4);
    assert_eq!(scan_line(b"x\r", 0), (2, 2));
}

#[test]
fn unsigned_numbers_are_read() {
    assert_eq!(parse_usize("0"), Some(0));
    assert_eq!(parse_usize("007"), Some(7));
    assert_eq!(parse_usize("+42"), Some(42));
    assert_eq!(parse_usize("18446744073709551615"), "18446744073709551615".parse::<usize>().ok());
    assert_eq!(parse_usize("18446744073709551616"), None);
    assert_eq!(parse_usize(""), None);
    assert_eq!(parse_usize("+"), None);
    assert_eq!(parse_usize("-3"), None);
    assert_eq!(parse_usize("1_000"), None);
    assert_eq!(parse_usize(" 1"), None);
    assert_eq!(parse_usize("\u{0661}"), None);
}

#[test]
fn trimming_agrees_with_the_standard_library() {
    for text in ["", " ", "a", "  a b  ", "\t\r\nx\u{2003}", "\u{85}\u{a0}y\u{205f}", "\u{200b}z"] {
        let chars: Vec<char> = text.chars().collect();
        let (start, end) = trim_range(&chars, 0, chars.len());
        let trimmed: String = chars[start..end].iter().collect();
        assert_eq!(trimmed, text.trim());
    }
}
