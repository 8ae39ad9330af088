use warc_parser::json::encode_batch;
use warc_parser::warc::{extract_records_and_push_to_quickwit, FILE_BATCH_THRESHOLD};

fn record(kind: &str, extra: &[(&str, &str)], payload: &[u8]) -> Vec<u8> {
    let mut out = Vec::new();
    out.extend_from_slice(b"WARC/1.0\r\n");
    out.extend_from_slice(format!("WARC-Type: {}\r\n", kind).as_bytes());
    for (name, value) in extra {
        out.extend_from_slice(format!("{}: {}\r\n", name, value).as_bytes());
    }
    out.extend_from_slice(format!("Content-Length: {}\r\n", payload.len()).as_bytes());
    out.extend_from_slice(b"\r\n");
    out.extend_from_slice(payload);
    out.extend_from_slice(b"\r\n\r\n");
    out
}

#[test]
fn two_record_archive_gives_one_json_line() {
    let body = "hello world this is ten words total";
    let mut archive = record("warcinfo", &[], b"software: test\r\n");
    archive.extend(record(
        "conversion",
        &[("WARC-Target-URI", "http://x/"), ("WARC-Date", "2020-01-01T00:00:00Z")],
        body.as_bytes(),
    ));
    let (out, failure) = extract_records_and_push_to_quickwit(&archive, FILE_BATCH_THRESHOLD);
    assert_eq!(failure, None);
    assert_eq!(out.count, 1);
    assert_eq!(out.batches.len(), 1);
    let doc = &out.batches[0][0];
    assert_eq!(doc.uri, "http://x/");
    assert_eq!(doc.date, "2020-01-01T00:00:00Z");
    assert_eq!(doc.body, body);
    assert_eq!(doc.title, "hel");
    let blob = encode_batch(&out.batches[0]).unwrap();
    assert_eq!(blob.lines().count(), 1);
    assert_eq!(
        blob,
        "{\"uri\":\"http://x/\",\"title\":\"hel\",\"body\":\"hello world this is ten words total\",\"date\":\"2020-01-01T00:00:00Z\"}"
    );
}
