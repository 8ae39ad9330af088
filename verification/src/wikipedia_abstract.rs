//! Encyclopedia abstracts: the entries of a parsed feed and their conversion
//! into documents.

use vstd::prelude::*;
use vstd::string::*;
use crate::batch::{batch_documents, batch_views, Delivery, SinkModel};
use crate::warc::{doc_views, DocJson, DocView};

verus! {

/// One entry of a feed.
pub struct DocEntry {
    pub abstract_text: String,
    pub title: String,
    pub url: String,
}

/// A feed: its entries in source order.
pub struct Feed {
    pub doc: Vec<DocEntry>,
}

/// The document that an entry gives: its title, its URL as origin, its
/// abstract as body, no date.
pub open spec fn document_of_entry(entry: DocEntry) -> DocView {
    DocView { uri: entry.url@, title: entry.title@, body: entry.abstract_text@, date: Seq::empty() }
}

/// The documents of the entries, in order.
pub open spec fn documents_of_entries(entries: Seq<DocEntry>) -> Seq<DocView> {
    entries.map_values(|e: DocEntry| document_of_entry(e))
}

/// Converts one entry of a feed into a document.
pub fn entry_to_document(entry: DocEntry) -> (doc: DocJson)
    ensures
        doc@ == document_of_entry(entry),
{
    DocJson { uri: entry.url, title: entry.title, body: entry.abstract_text, date: String::new() }
}

/// Converts a feed into documents, in order.
pub fn feed_to_documents(feed: Feed) -> (docs: Vec<DocJson>)
    ensures
        doc_views(docs@) == documents_of_entries(feed.doc@),
{
    let ghost entries = feed.doc@;
    let mut docs: Vec<DocJson> = Vec::new();
    for entry in it: feed.doc
        invariant
            it.seq() == entries,
            doc_views(docs@) == documents_of_entries(entries.take(it.index())),
    {
        let doc = entry_to_document(entry);
        proof {
            assert(documents_of_entries(entries.take(it.index() + 1)) == documents_of_entries(
                entries.take(it.index()),
            ).push(document_of_entry(entry)));
        }
        docs.push(doc);
    }
    docs
}

/// Converts a feed into documents and cuts them into the batches that a
/// sink with `threshold` delivers, in order.
pub fn extract_records_and_add_to_json(feed: Feed, threshold: usize) -> (out: Delivery)
    ensures
        batch_views(out.batches@) == SinkModel::empty(threshold as nat).deliver(
            documents_of_entries(feed.doc@),
        ),
        out.count == feed.doc@.len(),
{
    let docs = feed_to_documents(feed);
    let count = docs.len();
    Delivery { batches: batch_documents(docs, threshold), count }
}

} // verus!
