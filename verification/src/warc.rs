//! Canonical documents and the conversion of archive records into them.

use vstd::prelude::*;
use vstd::string::*;
use vstd::utf8::*;
use crate::batch::{batch_documents, batch_views, Delivery, SinkModel};
use crate::framer::{frame_all, read_record, RecordView, WarcError, WarcRecord, WarcType};
use crate::text::decode_text;

verus! {

broadcast use vstd::string::group_string_axioms;

/// The canonical document: what every source is normalised to.
#[derive(Clone, Debug, PartialEq, Eq)]
pub struct DocJson {
    pub uri: String,
    pub title: String,
    pub body: String,
    pub date: String,
}

/// A canonical document as a mathematical value.
pub struct DocView {
    pub uri: Seq<char>,
    pub title: Seq<char>,
    pub body: Seq<char>,
    pub date: Seq<char>,
}

impl View for DocJson {
    type V = DocView;

    open spec fn view(&self) -> DocView {
        DocView { uri: self.uri@, title: self.title@, body: self.body@, date: self.date@ }
    }
}

/// The views of `docs`, in order.
pub open spec fn doc_views(docs: Seq<DocJson>) -> Seq<DocView> {
    docs.map_values(|d: DocJson| d@)
}

/// The longest title that a body can give.
pub const MAX_TITLE_LENGTH: usize = 10;

/// How many characters of a body of `body_length` characters make its title.
pub open spec fn title_length(body_length: nat) -> nat {
    if body_length / 10 < MAX_TITLE_LENGTH {
        body_length / 10
    } else {
        MAX_TITLE_LENGTH as nat
    }
}

/// The title of a body: its first `title_length` characters.
pub open spec fn title_of(body: Seq<char>) -> Seq<char> {
    body.take(title_length(body.len()) as int)
}

/// Derives the title of a body.
pub fn derive_title(body: &str) -> (title: String)
    ensures
        title@ == title_of(body@),
        title@.len() == title_length(body@.len()),
{
    let count = body.unicode_len();
    let length = if count / 10 < MAX_TITLE_LENGTH {
        count / 10
    } else {
        MAX_TITLE_LENGTH
    };
    body.substring_char(0, length).to_owned()
}

/// The document that a conversion record holds.
pub open spec fn document_of(record: RecordView) -> Result<DocView, WarcError> {
    if !valid_utf8(record.payload) {
        Err(WarcError::InvalidBodyEncoding)
    } else if !record.header.contains_key("WARC-Target-URI"@) {
        Err(WarcError::MissingTargetUri)
    } else if !record.header.contains_key("WARC-Date"@) {
        Err(WarcError::MissingDate)
    } else {
        Ok(
            DocView {
                uri: record.header["WARC-Target-URI"@],
                title: title_of(decode_utf8(record.payload)),
                body: decode_utf8(record.payload),
                date: record.header["WARC-Date"@],
            },
        )
    }
}

/// What a record contributes: a document for a conversion record, nothing
/// for a record of another kind.
pub open spec fn normalize(record: RecordView) -> Result<Option<DocView>, WarcError> {
    if record.kind == WarcType::Conversion {
        match document_of(record) {
            Ok(doc) => Ok(Some(doc)),
            Err(e) => Err(e),
        }
    } else {
        Ok(None)
    }
}

/// Converts a record into the document it holds, if it is a conversion record.
pub fn record_to_document(record: WarcRecord) -> (r: Result<Option<DocJson>, WarcError>)
    ensures
        match normalize(record@) {
            Ok(Some(doc)) => r matches Ok(Some(d)) && d@ == doc,
            Ok(None) => r matches Ok(None),
            Err(e) => r matches Err(err) && err == e,
        },
{
    let WarcRecord { warc_version: _, warc_type, content_length: _, payload, header } = record;
    match warc_type {
        WarcType::Conversion => {},
        _ => {
            return Ok(None);
        },
    }
    let body = match decode_text(payload) {
        Some(body) => body,
        None => {
            return Err(WarcError::InvalidBodyEncoding);
        },
    };
    let uri = match header.get("WARC-Target-URI") {
        Some(uri) => uri.clone(),
        None => {
            return Err(WarcError::MissingTargetUri);
        },
    };
    let date = match header.get("WARC-Date") {
        Some(date) => date.clone(),
        None => {
            return Err(WarcError::MissingDate);
        },
    };
    let title = derive_title(body.as_str());
    Ok(Some(DocJson { uri, title, body, date }))
}

/// The documents of a stream, in order, and the error that ended the
/// extraction, if any.
pub struct Extracted {
    pub documents: Seq<DocView>,
    pub failure: Option<WarcError>,
}

impl Extracted {
    /// The extraction that yields `doc` and then goes on as `self`.
    pub open spec fn after(self, doc: DocView) -> Extracted {
        Extracted { documents: seq![doc] + self.documents, failure: self.failure }
    }
}

/// Normalises framed records in order, up to the first that has no document
/// to give although it should; `failure` is what ended the framing.
pub open spec fn collect_documents(records: Seq<RecordView>, failure: Option<WarcError>) -> Extracted
    decreases records.len(),
{
    if records.len() == 0 {
        Extracted { documents: Seq::empty(), failure }
    } else {
        match normalize(records.first()) {
            Ok(Some(doc)) => collect_documents(records.drop_first(), failure).after(doc),
            Ok(None) => collect_documents(records.drop_first(), failure),
            Err(e) => Extracted { documents: Seq::empty(), failure: Some(e) },
        }
    }
}

/// The documents that a stream holds.
pub open spec fn documents_of_stream(s: Seq<u8>) -> Extracted {
    collect_documents(frame_all(s, 0).records, frame_all(s, 0).failure)
}

/// The documents of an archive, and why the extraction ended early, if it did.
pub struct Extraction {
    pub documents: Vec<DocJson>,
    pub failure: Option<WarcError>,
}

/// Extracts the documents of an archive for an index, in stream order: one
/// document for each conversion record.
///
/// Extraction stops at the first record that cannot be framed or converted;
/// the documents before it are returned together with the error.
pub fn extract_records_and_add_to_index(input: &[u8]) -> (out: Extraction)
    ensures
        doc_views(out.documents@) == documents_of_stream(input@).documents,
        out.failure == documents_of_stream(input@).failure,
{
    let mut docs: Vec<DocJson> = Vec::new();
    let mut at: usize = 0;
    loop
        invariant
            at <= input@.len(),
            documents_of_stream(input@).documents == doc_views(docs@) + collect_documents(
                frame_all(input@, at as int).records,
                frame_all(input@, at as int).failure,
            ).documents,
            documents_of_stream(input@).failure == collect_documents(
                frame_all(input@, at as int).records,
                frame_all(input@, at as int).failure,
            ).failure,
        decreases input@.len() - at,
    {
        let ghost here = frame_all(input@, at as int);
        match read_record(input, at) {
            Ok(Some((record, next))) => {
                let ghost rest = frame_all(input@, next as int);
                proof {
                    assert(here.records.drop_first() == rest.records);
                }
                match record_to_document(record) {
                    Ok(Some(doc)) => {
                        docs.push(doc);
                    },
                    Ok(None) => {},
                    Err(e) => {
                        return Extraction { documents: docs, failure: Some(e) };
                    },
                }
                at = next;
            },
            Ok(None) => {
                return Extraction { documents: docs, failure: None };
            },
            Err(e) => {
                return Extraction { documents: docs, failure: Some(e) };
            },
        }
    }
}

/// The threshold of a sink that appends to a file.
pub const FILE_BATCH_THRESHOLD: usize = 10;

/// The threshold of a sink that submits to an ingest endpoint.
pub const INGEST_BATCH_THRESHOLD: usize = 1000;

/// Extracts the documents of an archive and cuts them into the batches that
/// a sink with `threshold` delivers, in order.
///
/// Extraction stops at the first record that cannot be framed or converted;
/// the documents before it are still delivered, and the error is reported.
pub fn extract_records_and_push_to_quickwit(input: &[u8], threshold: usize) -> (out: (
    Delivery,
    Option<WarcError>,
))
    ensures
        batch_views(out.0.batches@) == SinkModel::empty(threshold as nat).deliver(
            documents_of_stream(input@).documents,
        ),
        out.0.count == documents_of_stream(input@).documents.len(),
        out.1 == documents_of_stream(input@).failure,
{
    let Extraction { documents, failure } = extract_records_and_add_to_index(input);
    let count = documents.len();
    (Delivery { batches: batch_documents(documents, threshold), count }, failure)
}

} // verus!
