//! Biomedical articles: the part of a parsed article set that a document is
//! made of, and the conversion into documents.

use vstd::prelude::*;
use vstd::string::*;
use crate::batch::{batch_documents, batch_views, Delivery, SinkModel};
use crate::warc::{doc_views, DocJson, DocView};

verus! {

broadcast use vstd::string::group_string_axioms;

/// One segment of an abstract.
pub struct AbstractText {
    pub value: Option<String>,
}

/// The abstract of an article: its segments in source order.
pub struct Abstract {
    pub text: Vec<AbstractText>,
}

/// What an article says of itself.
pub struct Article {
    pub title: Option<String>,
    pub abstract_text: Option<Abstract>,
}

/// The citation of an article.
pub struct MedlineCitation {
    pub article: Option<Article>,
}

/// One entry of an article set.
pub struct PubmedArticle {
    pub medline_citation: Option<MedlineCitation>,
}

/// Why an article cannot become a document.
#[derive(Clone, Copy, Debug, PartialEq, Eq, Structural)]
pub enum PubmedError {
    /// The entry has no citation.
    MissingCitation,
    /// The citation has no article.
    MissingArticle,
}

/// The segments that hold text, appended to one another in order.
pub open spec fn joined_segments(text: Seq<AbstractText>) -> Seq<char>
    decreases text.len(),
{
    if text.len() == 0 {
        Seq::empty()
    } else {
        joined_segments(text.drop_last()) + match text.last().value {
            Some(value) => value@,
            None => Seq::empty(),
        }
    }
}

/// The document that an article gives: its title, or none; its abstract,
/// or none; neither an origin nor a date.
pub open spec fn document_of_article(entry: PubmedArticle) -> Result<DocView, PubmedError> {
    match entry.medline_citation {
        None => Err(PubmedError::MissingCitation),
        Some(citation) => match citation.article {
            None => Err(PubmedError::MissingArticle),
            Some(article) => Ok(
                DocView {
                    uri: Seq::empty(),
                    title: match article.title {
                        Some(title) => title@,
                        None => Seq::empty(),
                    },
                    body: match article.abstract_text {
                        Some(abstract_text) => joined_segments(abstract_text.text@),
                        None => Seq::empty(),
                    },
                    date: Seq::empty(),
                },
            ),
        },
    }
}

/// The documents of an article set, in order, up to the first entry that
/// gives none, and the error of that entry.
pub open spec fn documents_of_articles(entries: Seq<PubmedArticle>) -> (Seq<DocView>, Option<
    PubmedError,
>)
    decreases entries.len(),
{
    if entries.len() == 0 {
        (Seq::empty(), None)
    } else {
        match document_of_article(entries.first()) {
            Ok(doc) => {
                let rest = documents_of_articles(entries.drop_first());
                (seq![doc] + rest.0, rest.1)
            },
            Err(e) => (Seq::empty(), Some(e)),
        }
    }
}

/// Appends the segments of an abstract that hold text.
pub fn join_segments(text: &Vec<AbstractText>) -> (body: String)
    ensures
        body@ == joined_segments(text@),
{
    let mut body = String::new();
    let mut i: usize = 0;
    while i < text.len()
        invariant
            i <= text@.len(),
            body@ == joined_segments(text@.take(i as int)),
        decreases text@.len() - i,
    {
        assert(text@.take(i + 1).drop_last() == text@.take(i as int));
        match &text[i].value {
            Some(value) => {
                body.append(value.as_str());
            },
            None => {},
        }
        i += 1;
    }
    assert(text@.take(i as int) == text@);
    body
}

/// Converts one entry of an article set into a document.
pub fn article_to_document(entry: PubmedArticle) -> (r: Result<DocJson, PubmedError>)
    ensures
        match document_of_article(entry) {
            Ok(doc) => r matches Ok(d) && d@ == doc,
            Err(e) => r matches Err(err) && err == e,
        },
{
    let citation = match entry.medline_citation {
        Some(citation) => citation,
        None => {
            return Err(PubmedError::MissingCitation);
        },
    };
    let article = match citation.article {
        Some(article) => article,
        None => {
            return Err(PubmedError::MissingArticle);
        },
    };
    let title = match article.title {
        Some(title) => title,
        None => String::new(),
    };
    let body = match article.abstract_text {
        Some(abstract_text) => join_segments(&abstract_text.text),
        None => String::new(),
    };
    Ok(DocJson { uri: String::new(), title, body, date: String::new() })
}

/// Converts an article set into documents, in order.
///
/// Conversion stops at the first entry without a citation or an article; the
/// documents before it are returned together with the error.
pub fn articles_to_documents(entries: Vec<PubmedArticle>) -> (out: (Vec<DocJson>, Option<
    PubmedError,
>))
    ensures
        doc_views(out.0@) == documents_of_articles(entries@).0,
        out.1 == documents_of_articles(entries@).1,
{
    let mut docs: Vec<DocJson> = Vec::new();
    proof {
        assert(entries@.skip(0) == entries@);
    }
    for entry in it: entries
        invariant
            it.seq() == entries@,
            documents_of_articles(entries@).0 == doc_views(docs@) + documents_of_articles(
                entries@.skip(it.index()),
            ).0,
            documents_of_articles(entries@).1 == documents_of_articles(
                entries@.skip(it.index()),
            ).1,
    {
        let ghost here = entries@.skip(it.index());
        proof {
            assert(here.drop_first() == entries@.skip(it.index() + 1));
        }
        match article_to_document(entry) {
            Ok(doc) => {
                docs.push(doc);
            },
            Err(e) => {
                return (docs, Some(e));
            },
        }
    }
    (docs, None)
}

/// Converts an article set into documents and cuts them into the batches
/// that a sink with `threshold` delivers, in order.
///
/// Conversion stops at the first entry without a citation or an article; the
/// documents before it are still delivered, and the error is reported.
pub fn extract_records_and_add_to_json(entries: Vec<PubmedArticle>, threshold: usize) -> (out: (
    Delivery,
    Option<PubmedError>,
))
    ensures
        batch_views(out.0.batches@) == SinkModel::empty(threshold as nat).deliver(
            documents_of_articles(entries@).0,
        ),
        out.0.count == documents_of_articles(entries@).0.len(),
        out.1 == documents_of_articles(entries@).1,
{
    let (docs, failure) = articles_to_documents(entries);
    let count = docs.len();
    (Delivery { batches: batch_documents(docs, threshold), count }, failure)
}

} // verus!
