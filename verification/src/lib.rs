//! Extraction of documents from archival corpora.
//!
//! A byte stream is framed into archive records (`framer`), conversion
//! records become canonical documents (`warc`), and documents are handed out
//! in batches (`batch`) as newline-delimited JSON (`json`). Parsed article
//! sets (`pubmed`) and abstract feeds (`wikipedia_abstract`) are normalised to
//! the same documents. `pipeline` holds the decisions of a run over a
//! directory of files, `codec` what a file's bytes stand for, and `stream`
//! what framing gives for streams that are built from well-formed records.

pub mod batch;
pub mod codec;
pub mod framer;
pub mod header;
pub mod json;
pub mod lines;
pub mod pipeline;
pub mod pubmed;
pub mod stream;
pub mod text;
pub mod warc;
pub mod wikipedia_abstract;
