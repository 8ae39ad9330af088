use warc_parser::batch::{batch_documents, BatchSink};
use warc_parser::json::{assemble_object, encode_batch, encode_document};
use warc_parser::warc::{extract_records_and_push_to_quickwit, DocJson, FILE_BATCH_THRESHOLD, INGEST_BATCH_THRESHOLD};

fn doc(n: usize) -> DocJson {
    DocJson {
        uri: format!("http://example.org/{}", n),
        title: format!("t{}", n),
        body: format!("body {}", n),
        date: String::new(),
    }
}

#[test]
fn one_more_than_the_threshold_flushes_once() {
    let threshold = 4;
    let mut sink = BatchSink::new(threshold);
    let mut flushes = Vec::new();
    for n in 0..threshold + 1 {
        if let Some(batch) = sink.push(doc(n)) {
            flushes.push(batch);
        }
    }
    assert_eq!(flushes.len(), 1);
    assert_eq!(flushes[0].len(), threshold + 1);
    for n in 0..threshold + 1 {
        assert_eq!(flushes[0][n], doc(n));
    }
    assert_eq!(sink.pending_len(), 0);
    assert!(sink.finish().is_none());
}

#[test]
fn no_documents_no_flush() {
    let mut sink = BatchSink::new(10);
    assert_eq!(sink.pending_len(), 0);
    assert!(sink.finish().is_none());
    assert!(batch_documents(Vec::new(), 10).is_empty());
}

#[test]
fn threshold_many_documents_wait_for_the_end() {
    let mut sink = BatchSink::new(3);
    for n in 0..3 {
        assert!(sink.push(doc(n)).is_none());
    }
    assert_eq!(sink.pending_len(), 3);
    let rest = sink.finish().unwrap();
    assert_eq!(rest.len(), 3);
    assert_eq!(sink.pending_len(), 0);
    assert!(sink.finish().is_none());
}

#[test]
fn single_document_is_flushed_at_the_end() {
    let mut sink = BatchSink::new(1000);
    assert!(sink.push(doc(7)).is_none());
    let rest = sink.finish().unwrap();
    assert_eq!(rest, vec![doc(7)]);
}

#[test]
fn zero_threshold_flushes_every_document() {
    let mut sink = BatchSink::new(0);
    assert_eq!(sink.push(doc(1)), Some(vec![doc(1)]));
    assert_eq!(sink.push(doc(2)), Some(vec![doc(2)]));
    assert!(sink.finish().is_none());
}

#[test]
fn documents_are_cut_into_batches_in_order() {
    let docs: Vec<DocJson> = (0..11).map(doc).collect();
    let batches = batch_documents(docs.clone(), 3);
    let sizes: Vec<usize> = batches.iter().map(|b| b.len()).collect();
    assert_eq!(sizes, vec![4, 4, 3]);
    let flat: Vec<DocJson> = batches.into_iter().flatten().collect();
    assert_eq!(flat, docs);
    let batches = batch_documents((0..8).map(doc).collect(), 3);
    let sizes: Vec<usize> = batches.iter().map(|b| b.len()).collect();
    assert_eq!(sizes, vec![4, 4]);
}

#[test]
fn thresholds_of_the_two_targets() {
    assert_eq!(FILE_BATCH_THRESHOLD, 10);
    assert_eq!(INGEST_BATCH_THRESHOLD, 1000);
}

#[test]
fn archive_documents_are_delivered_in_batches() {
    let mut stream = Vec::new();
    for n in 0..25 {
        let body = format!("document number {}", n);
        stream.extend_from_slice(
            format!(
                "WARC/1.0\r\nWARC-Type: conversion\r\nWARC-Target-URI: http://x/{}\r\nWARC-Date: d\r\nContent-Length: {}\r\n\r\n{}\r\n\r\n",
                n,
                body.len(),
                body
            )
            .as_bytes(),
        );
    }
    let (out, failure) = extract_records_and_push_to_quickwit(&stream, FILE_BATCH_THRESHOLD);
    assert_eq!(failure, None);
    assert_eq!(out.count, 25);
    let sizes: Vec<usize> = out.batches.iter().map(|b| b.len()).collect();
    assert_eq!(sizes, vec![11, 11, 3]);
    assert_eq!(out.batches[1][0].uri, "http://x/11");
    assert_eq!(out.batches[2][2].body, "document number 24");
}

#[test]
fn document_is_written_as_one_json_object() {
    let line = encode_document(&DocJson {
        uri: "http://x/".to_string(),
        title: "hel".to_string(),
        body: "hello".to_string(),
        date: String::new(),
    })
    .unwrap();
    assert_eq!(line, "{\"uri\":\"http://x/\",\"title\":\"hel\",\"body\":\"hello\",\"date\":\"\"}");
}

#[test]
fn strings_are_escaped_in_json() {
    let source = DocJson {
        uri: "a\"b".to_string(),
        title: "back\\slash".to_string(),
        body: "line one\nline two\ttab \u{1} \u{e9}".to_string(),
        date: "\r".to_string(),
    };
    let line = encode_document(&source).unwrap();
    assert_eq!(
        line,
        "{\"uri\":\"a\\\"b\",\"title\":\"back\\\\slash\",\"body\":\"line one\\nline two\\ttab \\u0001 \u{e9}\",\"date\":\"\\r\"}"
    );
    assert!(!line.contains('\n'));
    let value: serde_json::Value = serde_json::from_str(&line).unwrap();
    assert_eq!(value["uri"], "a\"b");
    assert_eq!(value["title"], "back\\slash");
    assert_eq!(value["body"], "line one\nline two\ttab \u{1} \u{e9}");
    assert_eq!(value["date"], "\r");
    assert_eq!(value.as_object().unwrap().len(), 4);
}

#[test]
fn object_is_assembled_from_literals() {
    assert_eq!(
        assemble_object("1", "2", "3", "4"),
        "{\"uri\":1,\"title\":2,\"body\":3,\"date\":4}"
    );
}

#[test]
fn batch_is_written_one_object_per_line() {
    let docs: Vec<DocJson> = (0..3).map(doc).collect();
    let blob = encode_batch(&docs).unwrap();
    let lines: Vec<&str> = blob.split('\n').collect();
    assert_eq!(lines.len(), 3);
    for (n, line) in lines.iter().enumerate() {
        assert_eq!(*line, encode_document(&doc(n)).unwrap());
    }
    assert!(!blob.ends_with('\n'));
    assert_eq!(encode_batch(&Vec::new()).unwrap(), "");
    assert_eq!(encode_batch(&vec![doc(5)]).unwrap(), encode_document(&doc(5)).unwrap());
}

#[test]
fn batch_has_one_line_per_document_whatever_the_text() {
    let docs: Vec<DocJson> = (0..4)
        .map(|n| DocJson {
            uri: format!("http://x/{}\n", n),
            title: "\n\n".to_string(),
            body: format!("first line\nsecond line\r\nthird {}", n),
            date: "\u{2028}".to_string(),
        })
        .collect();
    let blob = encode_batch(&docs).unwrap();
    assert_eq!(blob.matches('\n').count() + 1, docs.len());
    for (n, line) in blob.split('\n').enumerate() {
        let value: serde_json::Value = serde_json::from_str(line).unwrap();
        assert_eq!(value["body"], format!("first line\nsecond line\r\nthird {}", n));
    }
}
