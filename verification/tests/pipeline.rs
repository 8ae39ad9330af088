use std::io::Write;
use warc_parser::codec::{codec_for_extension, decode_stream, Codec};
use warc_parser::pipeline::{
    entry_selected, parse_source_type, process_archive_file, range_bound, Admission, FileOutcome,
    Orchestrator, Phase, SourceType, CHANNEL_CAPACITY, DEFAULT_FROM, DEFAULT_POOL_SIZE, DEFAULT_TO,
};

fn gzip(data: &[u8]) -> Vec<u8> {
    let mut encoder = flate2::write::GzEncoder::new(Vec::new(), flate2::Compression::default());
    encoder.write_all(data).unwrap();
    encoder.finish().unwrap()
}

const ARCHIVE: &[u8] = b"WARC/1.0\r\nWARC-Type: conversion\r\nWARC-Target-URI: http://x/\r\nWARC-Date: 2020-01-01T00:00:00Z\r\nContent-Length: 35\r\n\r\nhello world this is ten words total\r\n\r\n";

#[test]
fn range_filter_opens_exactly_the_entries_in_range() {
    let mut run = Orchestrator::new(3, 5, 16);
    let mut opened = Vec::new();
    let mut skipped = Vec::new();
    for _ in 0..10 {
        match run.next_entry() {
            Admission::Open { seq } => opened.push(seq),
            Admission::Skip { seq } => skipped.push(seq),
            Admission::Refused => panic!("the listing is not over"),
        }
    }
    assert_eq!(opened, vec![3, 4, 5]);
    assert_eq!(skipped, vec![1, 2, 6, 7, 8, 9, 10]);
}

#[test]
fn range_bounds_are_inclusive() {
    assert!(!entry_selected(2, 3, 5));
    assert!(entry_selected(3, 3, 5));
    assert!(entry_selected(4, 3, 5));
    assert!(entry_selected(5, 3, 5));
    assert!(!entry_selected(6, 3, 5));
    assert!(entry_selected(1, DEFAULT_FROM, DEFAULT_TO));
    assert!(entry_selected(usize::MAX, DEFAULT_FROM, DEFAULT_TO));
    assert!(!entry_selected(4, 5, 3));
}

#[test]
fn range_bounds_fall_back_to_their_defaults() {
    assert_eq!(range_bound("3", DEFAULT_FROM), 3);
    assert_eq!(range_bound("", DEFAULT_FROM), 0);
    assert_eq!(range_bound("x", DEFAULT_TO), usize::MAX);
    assert_eq!(range_bound("12", DEFAULT_TO), 12);
    assert_eq!(DEFAULT_POOL_SIZE, 16);
    assert_eq!(CHANNEL_CAPACITY, 1000);
}

#[test]
fn source_types_are_known_by_name() {
    assert_eq!(parse_source_type("WARC"), Some(SourceType::Warc));
    assert_eq!(parse_source_type("WIKIPEDIA_ABSTRACT"), Some(SourceType::WikipediaAbstract));
    assert_eq!(parse_source_type("ENTREZ"), Some(SourceType::Entrez));
    assert_eq!(parse_source_type("warc"), None);
    assert_eq!(parse_source_type(""), None);
}

#[test]
fn codec_follows_the_extension() {
    assert_eq!(codec_for_extension(Some("gz")), Some(Codec::Gzip));
    assert_eq!(codec_for_extension(Some("wet")), Some(Codec::Plain));
    assert_eq!(codec_for_extension(Some("txt")), None);
    assert_eq!(codec_for_extension(Some("GZ")), None);
    assert_eq!(codec_for_extension(None), None);
}

#[test]
fn plain_stream_is_passed_through() {
    assert_eq!(decode_stream(Codec::Plain, b"as it is".to_vec()), Some(b"as it is".to_vec()));
}

#[test]
fn gzip_stream_is_decompressed() {
    let data = b"compressed text, compressed text, compressed text";
    let packed = gzip(data);
    assert_ne!(packed, data.to_vec());
    assert_eq!(decode_stream(Codec::Gzip, packed), Some(data.to_vec()));
}

#[test]
fn concatenated_gzip_members_are_all_decoded() {
    let mut packed = gzip(b"first member|");
    packed.extend(gzip(b"second member"));
    assert_eq!(decode_stream(Codec::Gzip, packed), Some(b"first member|second member".to_vec()));
}

#[test]
fn broken_gzip_stream_is_reported() {
    assert_eq!(decode_stream(Codec::Gzip, b"this is not gzip".to_vec()), None);
    let mut packed = gzip(b"some data that is cut off in the middle of the member");
    packed.truncate(packed.len() / 2);
    assert_eq!(decode_stream(Codec::Gzip, packed), None);
}

#[test]
fn file_with_unknown_extension_is_skipped() {
    assert!(matches!(process_archive_file(Some("zip"), ARCHIVE.to_vec(), 10), FileOutcome::Skipped));
    assert!(matches!(process_archive_file(None, ARCHIVE.to_vec(), 10), FileOutcome::Skipped));
}

#[test]
fn plain_archive_file_is_processed() {
    match process_archive_file(Some("wet"), ARCHIVE.to_vec(), 10) {
        FileOutcome::Processed { delivery, failure } => {
            assert_eq!(failure, None);
            assert_eq!(delivery.count, 1);
            assert_eq!(delivery.batches.len(), 1);
            assert_eq!(delivery.batches[0][0].title, "hel");
        }
        _ => panic!("expected the file to be processed"),
    }
}

#[test]
fn compressed_archive_file_is_processed() {
    match process_archive_file(Some("gz"), gzip(ARCHIVE), 10) {
        FileOutcome::Processed { delivery, failure } => {
            assert_eq!(failure, None);
            assert_eq!(delivery.count, 1);
            assert_eq!(delivery.batches[0][0].uri, "http://x/");
        }
        _ => panic!("expected the file to be processed"),
    }
}

#[test]
fn archive_file_that_is_not_gzip_is_undecodable() {
    assert!(matches!(
        process_archive_file(Some("gz"), ARCHIVE.to_vec(), 10),
        FileOutcome::Undecodable
    ));
}

#[test]
fn permits_bound_the_files_in_flight() {
    let mut run = Orchestrator::new(0, usize::MAX, 2);
    assert_eq!(run.running(), 0);
    assert!(run.try_acquire());
    assert!(run.try_acquire());
    assert!(!run.try_acquire());
    assert_eq!(run.running(), 2);
    assert!(run.release());
    assert_eq!(run.running(), 1);
    assert!(run.try_acquire());
    assert!(run.release());
    assert!(run.release());
    assert!(!run.release());
    assert_eq!(run.running(), 0);
}

#[test]
fn run_ends_only_after_tasks_and_drain() {
    let mut run = Orchestrator::new(0, usize::MAX, 4);
    assert_eq!(run.phase(), Phase::Listing);
    assert_eq!(run.next_entry(), Admission::Open { seq: 1 });
    assert!(run.try_acquire());
    assert!(!run.try_close_channel());
    assert!(!run.drain_finished());
    run.listing_finished();
    assert_eq!(run.phase(), Phase::Draining);
    assert_eq!(run.next_entry(), Admission::Refused);
    assert!(!run.try_acquire());
    assert!(!run.try_close_channel());
    assert!(run.release());
    assert!(!run.drain_finished());
    assert!(run.try_close_channel());
    assert!(!run.try_close_channel());
    assert_eq!(run.phase(), Phase::Draining);
    assert!(run.drain_finished());
    assert_eq!(run.phase(), Phase::Done);
}
