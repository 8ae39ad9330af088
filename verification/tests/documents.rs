use warc_parser::framer::{read_record, WarcError};
use warc_parser::warc::{derive_title, extract_records_and_add_to_index, record_to_document};

fn conversion(headers: &str, payload: &[u8]) -> Vec<u8> {
    let mut out = Vec::new();
    out.extend_from_slice(b"WARC/1.0\r\nWARC-Type: conversion\r\n");
    out.extend_from_slice(headers.as_bytes());
    out.extend_from_slice(format!("Content-Length: {}\r\n\r\n", payload.len()).as_bytes());
    out.extend_from_slice(payload);
    out.extend_from_slice(b"\r\n\r\n");
    out
}

const FULL: &str = "WARC-Target-URI: http://example.org/a\r\nWARC-Date: 2020-04-10T14:25:56Z\r\n";

#[test]
fn title_of_a_short_body_is_empty() {
    assert_eq!(derive_title("12345"), "");
    assert_eq!(derive_title(""), "");
    assert_eq!(derive_title("123456789"), "");
}

#[test]
fn title_of_a_long_body_has_ten_characters() {
    let body = "abcdefghij".repeat(20);
    assert_eq!(body.chars().count(), 200);
    assert_eq!(derive_title(&body), "abcdefghij");
    let body = "x".repeat(100);
    assert_eq!(derive_title(&body).chars().count(), 10);
    let body = "x".repeat(99);
    assert_eq!(derive_title(&body).chars().count(), 9);
}

#[test]
fn title_length_is_a_tenth_of_the_body() {
    assert_eq!(derive_title("hello world this is ten words total"), "hel");
    assert_eq!(derive_title("0123456789"), "0");
    assert_eq!(derive_title("0123456789012345678"), "0");
    assert_eq!(derive_title("01234567890123456789"), "01");
}

#[test]
fn title_counts_characters_not_bytes() {
    let body = "\u{e9}\u{4e2d}\u{1f600}".repeat(10);
    assert_eq!(body.chars().count(), 30);
    assert_eq!(derive_title(&body), "\u{e9}\u{4e2d}\u{1f600}");
}

#[test]
fn conversion_record_becomes_a_document() {
    let stream = conversion(FULL, "The quick brown fox jumps over the lazy dog".as_bytes());
    let (record, _) = read_record(&stream, 0).unwrap().unwrap();
    let doc = record_to_document(record).unwrap().unwrap();
    assert_eq!(doc.uri, "http://example.org/a");
    assert_eq!(doc.date, "2020-04-10T14:25:56Z");
    assert_eq!(doc.body, "The quick brown fox jumps over the lazy dog");
    assert_eq!(doc.title, "The ");
}

#[test]
fn other_records_give_no_document() {
    let stream = b"WARC/1.0\r\nWARC-Type: response\r\nContent-Length: 2\r\n\r\n\xff\xff\r\n\r\n";
    let (record, _) = read_record(stream, 0).unwrap().unwrap();
    assert_eq!(record_to_document(record), Ok(None));
}

#[test]
fn body_that_is_not_utf8_is_fatal() {
    let stream = conversion(FULL, b"ok \xc3\x28 broken");
    let (record, _) = read_record(&stream, 0).unwrap().unwrap();
    assert_eq!(record_to_document(record), Err(WarcError::InvalidBodyEncoding));
}

#[test]
fn missing_target_uri_is_fatal() {
    let stream = conversion("WARC-Date: 2020-04-10T14:25:56Z\r\n", b"text");
    let (record, _) = read_record(&stream, 0).unwrap().unwrap();
    assert_eq!(record_to_document(record), Err(WarcError::MissingTargetUri));
}

#[test]
fn missing_date_is_fatal() {
    let stream = conversion("WARC-Target-URI: http://example.org/a\r\n", b"text");
    let (record, _) = read_record(&stream, 0).unwrap().unwrap();
    assert_eq!(record_to_document(record), Err(WarcError::MissingDate));
}

#[test]
fn empty_body_gives_a_document_with_an_empty_title() {
    let stream = conversion(FULL, b"");
    let (record, _) = read_record(&stream, 0).unwrap().unwrap();
    let doc = record_to_document(record).unwrap().unwrap();
    assert_eq!(doc.body, "");
    assert_eq!(doc.title, "");
}

#[test]
fn documents_come_in_stream_order() {
    let mut stream = Vec::new();
    stream.extend_from_slice(b"WARC/1.0\r\nWARC-Type: warcinfo\r\nContent-Length: 4\r\n\r\ninfo\r\n\r\n");
    stream.extend(conversion(FULL, b"first"));
    stream.extend_from_slice(b"WARC/1.0\r\nWARC-Type: revisit\r\nContent-Length: 0\r\n\r\n\r\n\r\n");
    stream.extend(conversion(FULL, b"second"));
    let out = extract_records_and_add_to_index(&stream);
    assert_eq!(out.failure, None);
    assert_eq!(out.documents.len(), 2);
    assert_eq!(out.documents[0].body, "first");
    assert_eq!(out.documents[1].body, "second");
}

#[test]
fn documents_before_a_fatal_error_are_kept() {
    let mut stream = Vec::new();
    stream.extend(conversion(FULL, b"kept"));
    stream.extend(conversion("", b"no uri"));
    stream.extend(conversion(FULL, b"never reached"));
    let out = extract_records_and_add_to_index(&stream);
    assert_eq!(out.failure, Some(WarcError::MissingTargetUri));
    assert_eq!(out.documents.len(), 1);
    assert_eq!(out.documents[0].body, "kept");
}

#[test]
fn archive_without_conversion_records_gives_no_documents() {
    let stream = b"WARC/1.0\r\nWARC-Type: warcinfo\r\nContent-Length: 0\r\n\r\n\r\n\r\n";
    let out = extract_records_and_add_to_index(stream);
    assert_eq!(out.failure, None);
    assert!(out.documents.is_empty());
}
