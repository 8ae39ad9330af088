//! The wire format: one JSON object per document, one object per line.
//!
//! The object is put together here; the escaping of each string is left to
//! `serde_json`.

use vstd::prelude::*;
use vstd::string::*;
use crate::warc::{doc_views, DocJson, DocView};

verus! {

broadcast use vstd::string::group_string_axioms;

/// The JSON string literal that `serde_json::to_string` gives for the text
/// `s`, quotes included; `None` where it reports an error.
pub uninterp spec fn json_string(s: Seq<char>) -> Option<Seq<char>>;

/// Whether no character of `s` is a line feed.
pub open spec fn on_one_line(s: Seq<char>) -> bool {
    forall|i: int| 0 <= i < s.len() ==> s[i] != '\n'
}

/// The number of line feeds in `s`.
pub open spec fn line_feeds(s: Seq<char>) -> nat
    decreases s.len(),
{
    if s.len() == 0 {
        0
    } else {
        line_feeds(s.drop_last()) + if s.last() == '\n' {
            1nat
        } else {
            0nat
        }
    }
}

/// Writes `s` as a JSON string literal.
///
/// Trusted: the body calls `serde_json::to_string` on a string slice. The
/// contract claims that the outcome is a function of the text: the literal,
/// or the fact that an error was reported, is what `json_string` names for
/// it. It also claims that the literal holds no line feed: `serde_json`
/// writes every character below U+0020 as an escape sequence.
#[verifier::external_body]
fn encode_json_string(s: &str) -> (r: Option<String>)
    ensures
        match r {
            Some(literal) => json_string(s@) == Some(literal@) && on_one_line(literal@),
            None => json_string(s@) is None,
        },
{
    match serde_json::to_string(s) {
        Ok(literal) => Some(literal),
        Err(_) => None,
    }
}

/// The object whose four members have the given literals as values.
pub open spec fn json_object(
    uri: Seq<char>,
    title: Seq<char>,
    body: Seq<char>,
    date: Seq<char>,
) -> Seq<char> {
    "{\"uri\":"@ + uri + ",\"title\":"@ + title + ",\"body\":"@ + body + ",\"date\":"@ + date
        + "}"@
}

/// The line that stands for `doc`, if each of its fields can be written.
pub open spec fn json_line(doc: DocView) -> Option<Seq<char>> {
    if json_string(doc.uri) is Some && json_string(doc.title) is Some && json_string(doc.body)
        is Some && json_string(doc.date) is Some {
        Some(
            json_object(
                json_string(doc.uri)->0,
                json_string(doc.title)->0,
                json_string(doc.body)->0,
                json_string(doc.date)->0,
            ),
        )
    } else {
        None
    }
}

/// The lines of `docs`, if each document can be written.
pub open spec fn json_lines(docs: Seq<DocView>) -> Option<Seq<Seq<char>>>
    decreases docs.len(),
{
    if docs.len() == 0 {
        Some(Seq::empty())
    } else if json_lines(docs.drop_last()) is Some && json_line(docs.last()) is Some {
        Some(json_lines(docs.drop_last())->0.push(json_line(docs.last())->0))
    } else {
        None
    }
}

/// `lines` joined by line feeds, with none after the last line.
pub open spec fn join_lines(lines: Seq<Seq<char>>) -> Seq<char>
    decreases lines.len(),
{
    if lines.len() == 0 {
        Seq::empty()
    } else if lines.len() == 1 {
        lines[0]
    } else {
        join_lines(lines.drop_last()) + "\n"@ + lines.last()
    }
}

/// A batch as newline-delimited JSON.
pub open spec fn ndjson(docs: Seq<DocView>) -> Option<Seq<char>> {
    match json_lines(docs) {
        Some(lines) => Some(join_lines(lines)),
        None => None,
    }
}

/// Text put together from pieces without line feeds has none.
proof fn lemma_on_one_line_concat(a: Seq<char>, b: Seq<char>)
    requires
        on_one_line(a),
        on_one_line(b),
    ensures
        on_one_line(a + b),
{
    assert(forall|i: int| 0 <= i < (a + b).len() ==> (a + b)[i] != '\n');
}

/// The line feeds of a text are those of its two parts.
proof fn lemma_line_feeds_concat(a: Seq<char>, b: Seq<char>)
    ensures
        line_feeds(a + b) == line_feeds(a) + line_feeds(b),
    decreases b.len(),
{
    if b.len() > 0 {
        lemma_line_feeds_concat(a, b.drop_last());
        assert((a + b).drop_last() == a + b.drop_last());
    }
}

/// Text on one line holds no line feed.
proof fn lemma_line_feeds_on_one_line(s: Seq<char>)
    requires
        on_one_line(s),
    ensures
        line_feeds(s) == 0,
    decreases s.len(),
{
    if s.len() > 0 {
        lemma_line_feeds_on_one_line(s.drop_last());
    }
}

/// An object whose four literals hold no line feed holds none.
proof fn lemma_object_on_one_line(
    uri: Seq<char>,
    title: Seq<char>,
    body: Seq<char>,
    date: Seq<char>,
)
    requires
        on_one_line(uri),
        on_one_line(title),
        on_one_line(body),
        on_one_line(date),
    ensures
        on_one_line(json_object(uri, title, body, date)),
{
    reveal_strlit("{\"uri\":");
    reveal_strlit(",\"title\":");
    reveal_strlit(",\"body\":");
    reveal_strlit(",\"date\":");
    reveal_strlit("}");
    let a = "{\"uri\":"@ + uri;
    let b = a + ",\"title\":"@;
    let c = b + title;
    let d = c + ",\"body\":"@;
    let e = d + body;
    let f = e + ",\"date\":"@;
    let g = f + date;
    lemma_on_one_line_concat("{\"uri\":"@, uri);
    lemma_on_one_line_concat(a, ",\"title\":"@);
    lemma_on_one_line_concat(b, title);
    lemma_on_one_line_concat(c, ",\"body\":"@);
    lemma_on_one_line_concat(d, body);
    lemma_on_one_line_concat(e, ",\"date\":"@);
    lemma_on_one_line_concat(f, date);
    lemma_on_one_line_concat(g, "}"@);
}

/// Puts the object together from the literals of its four values.
pub fn assemble_object(uri: &str, title: &str, body: &str, date: &str) -> (object: String)
    ensures
        object@ == json_object(uri@, title@, body@, date@),
{
    let mut object = "{\"uri\":".to_owned();
    object.append(uri);
    object.append(",\"title\":");
    object.append(title);
    object.append(",\"body\":");
    object.append(body);
    object.append(",\"date\":");
    object.append(date);
    object.append("}");
    object
}

/// Writes one document as a JSON object on one line.
///
/// Returns `None` exactly when one of the fields cannot be written.
pub fn encode_document(doc: &DocJson) -> (r: Option<String>)
    ensures
        match json_line(doc@) {
            Some(line) => r matches Some(text) && text@ == line && on_one_line(text@),
            None => r is None,
        },
{
    let uri = match encode_json_string(doc.uri.as_str()) {
        Some(literal) => literal,
        None => {
            return None;
        },
    };
    let title = match encode_json_string(doc.title.as_str()) {
        Some(literal) => literal,
        None => {
            return None;
        },
    };
    let body = match encode_json_string(doc.body.as_str()) {
        Some(literal) => literal,
        None => {
            return None;
        },
    };
    let date = match encode_json_string(doc.date.as_str()) {
        Some(literal) => literal,
        None => {
            return None;
        },
    };
    proof {
        lemma_object_on_one_line(uri@, title@, body@, date@);
    }
    Some(assemble_object(uri.as_str(), title.as_str(), body.as_str(), date.as_str()))
}

/// If a batch can be written, so can each document in it.
proof fn lemma_json_lines_need_every_line(docs: Seq<DocView>, i: int)
    requires
        0 <= i < docs.len(),
        json_line(docs[i]) is None,
    ensures
        json_lines(docs) is None,
    decreases docs.len(),
{
    if i < docs.len() - 1 {
        lemma_json_lines_need_every_line(docs.drop_last(), i);
    }
}

/// Writes a batch as newline-delimited JSON: one object per document, in
/// order, separated by line feeds. The text has as many lines as the batch
/// has documents.
///
/// Returns `None` exactly when one of the documents cannot be written.
pub fn encode_batch(docs: &Vec<DocJson>) -> (r: Option<String>)
    ensures
        match ndjson(doc_views(docs@)) {
            Some(blob) => r matches Some(text) && text@ == blob && (docs@.len() > 0
                ==> line_feeds(text@) + 1 == docs@.len()),
            None => r is None,
        },
{
    let ghost all = doc_views(docs@);
    let mut blob = String::new();
    let mut i: usize = 0;
    while i < docs.len()
        invariant
            i <= docs@.len(),
            all == doc_views(docs@),
            json_lines(all.take(i as int)) is Some,
            blob@ == join_lines(json_lines(all.take(i as int))->0),
            json_lines(all.take(i as int))->0.len() == i,
            i > 0 ==> line_feeds(blob@) + 1 == i,
        decreases docs@.len() - i,
    {
        let ghost done = all.take(i as int);
        let ghost next = all.take(i + 1);
        proof {
            assert(next.drop_last() == done);
        }
        let line = match encode_document(&docs[i]) {
            Some(line) => line,
            None => {
                proof {
                    lemma_json_lines_need_every_line(all, i as int);
                }
                return None;
            },
        };
        let ghost before = blob@;
        if i > 0 {
            blob.append("\n");
        }
        blob.append(line.as_str());
        proof {
            reveal_strlit("\n");
            lemma_line_feeds_on_one_line(line@);
            if i > 0 {
                assert(line_feeds("\n"@) == 1) by {
                    assert(line_feeds("\n"@.drop_last()) == 0);
                }
                lemma_line_feeds_concat(before, "\n"@);
                lemma_line_feeds_concat(before + "\n"@, line@);
            }
            assert(json_lines(next)->0.drop_last() == json_lines(done)->0);
        }
        i += 1;
    }
    assert(all.take(i as int) == all);
    Some(blob)
}

} // verus!
