//! The framing of a byte stream into archive records.
//!
//! A record is a block of header lines, an empty line, a payload whose
//! length the header declares, and two separator lines. `frame_record` says
//! what the framer makes of the bytes at a position; `read_record` computes it.

use vstd::prelude::*;
use vstd::string::*;
use vstd::utf8::*;
use crate::header::Header;
use crate::lines::{copy_range, lemma_next_line_advances, line_content, next_line, scan_line, skip_line};
use crate::text::{chars_of, colon_position, decode_text, find_colon, parse_usize, parse_usize_spec, text_eq, trim, trim_range};

verus! {

broadcast use vstd::string::group_string_axioms;

/// The kinds of record.
#[derive(Clone, Copy, Debug, PartialEq, Eq, Structural)]
pub enum WarcType {
    WarcInfo,
    Response,
    Resource,
    Request,
    Metadata,
    Revisit,
    Conversion,
    Continuation,
}

/// Why a stream cannot be framed or a record cannot become a document.
#[derive(Clone, Copy, Debug, PartialEq, Eq, Structural)]
pub enum WarcError {
    /// A header line is not valid UTF-8.
    InvalidHeaderEncoding,
    /// The header ended without a version line.
    MissingVersion,
    /// The header has no `WARC-Type` field.
    MissingType,
    /// The `WARC-Type` field names no known kind of record.
    UnknownType,
    /// The header has no `Content-Length` field.
    MissingContentLength,
    /// The `Content-Length` field is not an unsigned decimal number that fits.
    InvalidContentLength,
    /// The stream ends before the declared number of payload bytes.
    TruncatedPayload,
    /// The payload of a conversion record is not valid UTF-8.
    InvalidBodyEncoding,
    /// A conversion record has no `WARC-Target-URI` field.
    MissingTargetUri,
    /// A conversion record has no `WARC-Date` field.
    MissingDate,
}

/// One record of an archive.
pub struct WarcRecord {
    pub warc_version: String,
    pub warc_type: WarcType,
    pub content_length: usize,
    pub payload: Vec<u8>,
    pub header: Header,
}

/// A record as a mathematical value.
pub struct RecordView {
    pub version: Seq<char>,
    pub kind: WarcType,
    pub content_length: nat,
    pub payload: Seq<u8>,
    pub header: Map<Seq<char>, Seq<char>>,
}

impl View for WarcRecord {
    type V = RecordView;

    open spec fn view(&self) -> RecordView {
        RecordView {
            version: self.warc_version@,
            kind: self.warc_type,
            content_length: self.content_length as nat,
            payload: self.payload@,
            header: self.header@,
        }
    }
}

impl RecordView {
    /// The payload has the declared length.
    pub open spec fn well_formed(self) -> bool {
        self.payload.len() == self.content_length
    }
}

/// What a header line is.
pub enum LineKind {
    /// `name: value`, split at the first colon, both sides trimmed.
    Field { name: Seq<char>, value: Seq<char> },
    /// The version marker.
    Version,
    /// A line without content: the end of the header.
    Blank,
    /// Anything else.
    Stray,
}

/// A header line as read.
pub enum HeaderLine {
    Field { name: String, value: String },
    Version,
    Blank,
    Stray,
}

impl View for HeaderLine {
    type V = LineKind;

    open spec fn view(&self) -> LineKind {
        match self {
            HeaderLine::Field { name, value } => LineKind::Field { name: name@, value: value@ },
            HeaderLine::Version => LineKind::Version,
            HeaderLine::Blank => LineKind::Blank,
            HeaderLine::Stray => LineKind::Stray,
        }
    }
}

/// The line that opens a record.
pub open spec fn version_marker() -> Seq<char> {
    "WARC/1.0"@
}

/// The version that the marker declares.
pub open spec fn declared_version() -> Seq<char> {
    "1.0"@
}

/// Classifies one header line.
pub open spec fn classify(line: Seq<char>) -> LineKind {
    let colon = colon_position(line, 0);
    if colon < line.len() {
        LineKind::Field {
            name: trim(line.subrange(0, colon)),
            value: trim(line.subrange(colon + 1, line.len() as int)),
        }
    } else if trim(line) == version_marker() {
        LineKind::Version
    } else if trim(line).len() == 0 {
        LineKind::Blank
    } else {
        LineKind::Stray
    }
}

/// The kind of record that a `WARC-Type` value names.
pub open spec fn warc_type_of(name: Seq<char>) -> Option<WarcType> {
    if name == "conversion"@ {
        Some(WarcType::Conversion)
    } else if name == "warcinfo"@ {
        Some(WarcType::WarcInfo)
    } else if name == "continuation"@ {
        Some(WarcType::Continuation)
    } else if name == "revisit"@ {
        Some(WarcType::Revisit)
    } else if name == "metadata"@ {
        Some(WarcType::Metadata)
    } else if name == "request"@ {
        Some(WarcType::Request)
    } else if name == "resource"@ {
        Some(WarcType::Resource)
    } else if name == "response"@ {
        Some(WarcType::Response)
    } else {
        None
    }
}

/// How reading a header ends.
pub enum HeaderEnd {
    /// An empty line was reached; the payload starts at `body_start`.
    Complete { fields: Map<Seq<char>, Seq<char>>, has_version: bool, body_start: int },
    /// The stream ended, or a stray line was met, before the header was complete.
    Stopped,
    /// A line is not valid UTF-8.
    BadEncoding,
}

/// Reads header lines from `pos` on, starting from the fields read so far.
pub open spec fn scan_header(
    s: Seq<u8>,
    pos: int,
    fields: Map<Seq<char>, Seq<char>>,
    has_version: bool,
) -> HeaderEnd
    decreases s.len() - pos,
{
    if !(0 <= pos < s.len()) {
        HeaderEnd::Stopped
    } else if !valid_utf8(line_content(s, pos)) {
        HeaderEnd::BadEncoding
    } else {
        proof {
            lemma_next_line_advances(s, pos);
        }
        match classify(decode_utf8(line_content(s, pos))) {
            LineKind::Field { name, value } => scan_header(
                s,
                next_line(s, pos),
                fields.insert(name, value),
                has_version,
            ),
            LineKind::Version => scan_header(s, next_line(s, pos), fields, true),
            LineKind::Blank => HeaderEnd::Complete {
                fields,
                has_version,
                body_start: next_line(s, pos),
            },
            LineKind::Stray => HeaderEnd::Stopped,
        }
    }
}

/// What the framer makes of the bytes at a position.
pub enum Framed {
    /// A record, and where the next one starts.
    Record { record: RecordView, next: int },
    /// No more records.
    End,
    /// The stream cannot be framed.
    Failed(WarcError),
}

/// Checks a complete header and takes the payload and the separator.
pub open spec fn complete_record(
    s: Seq<u8>,
    fields: Map<Seq<char>, Seq<char>>,
    has_version: bool,
    body_start: int,
) -> Framed {
    if !has_version {
        Framed::Failed(WarcError::MissingVersion)
    } else if !fields.contains_key("WARC-Type"@) {
        Framed::Failed(WarcError::MissingType)
    } else if warc_type_of(fields["WARC-Type"@]) is None {
        Framed::Failed(WarcError::UnknownType)
    } else if !fields.contains_key("Content-Length"@) {
        Framed::Failed(WarcError::MissingContentLength)
    } else if parse_usize_spec(fields["Content-Length"@]) is None {
        Framed::Failed(WarcError::InvalidContentLength)
    } else {
        let length = parse_usize_spec(fields["Content-Length"@])->0 as int;
        if body_start + length > s.len() {
            Framed::Failed(WarcError::TruncatedPayload)
        } else {
            Framed::Record {
                record: RecordView {
                    version: declared_version(),
                    kind: warc_type_of(fields["WARC-Type"@])->0,
                    content_length: length as nat,
                    payload: s.subrange(body_start, body_start + length),
                    header: fields,
                },
                next: next_line(s, next_line(s, body_start + length)),
            }
        }
    }
}

/// The record that starts at `pos`, if the stream holds one there.
pub open spec fn frame_record(s: Seq<u8>, pos: int) -> Framed {
    match scan_header(s, pos, Map::empty(), false) {
        HeaderEnd::Complete { fields, has_version, body_start } => complete_record(
            s,
            fields,
            has_version,
            body_start,
        ),
        HeaderEnd::Stopped => Framed::End,
        HeaderEnd::BadEncoding => Framed::Failed(WarcError::InvalidHeaderEncoding),
    }
}

/// Classifies one header line.
pub fn classify_line(line: &str) -> (r: HeaderLine)
    ensures
        r@ == classify(line@),
{
    let v = chars_of(line);
    let colon = find_colon(&v);
    if colon < v.len() {
        let (a, b) = trim_range(&v, 0, colon);
        let (c, d) = trim_range(&v, colon + 1, v.len());
        let name = line.substring_char(a, b).to_owned();
        let value = line.substring_char(c, d).to_owned();
        HeaderLine::Field { name, value }
    } else {
        let (a, b) = trim_range(&v, 0, v.len());
        assert(v@.subrange(0, v@.len() as int) == v@);
        if text_eq(line.substring_char(a, b), "WARC/1.0") {
            HeaderLine::Version
        } else if a == b {
            HeaderLine::Blank
        } else {
            HeaderLine::Stray
        }
    }
}

/// The kind of record that a `WARC-Type` value names.
pub fn parse_warc_type(name: &str) -> (r: Option<WarcType>)
    ensures
        r == warc_type_of(name@),
{
    if text_eq(name, "conversion") {
        Some(WarcType::Conversion)
    } else if text_eq(name, "warcinfo") {
        Some(WarcType::WarcInfo)
    } else if text_eq(name, "continuation") {
        Some(WarcType::Continuation)
    } else if text_eq(name, "revisit") {
        Some(WarcType::Revisit)
    } else if text_eq(name, "metadata") {
        Some(WarcType::Metadata)
    } else if text_eq(name, "request") {
        Some(WarcType::Request)
    } else if text_eq(name, "resource") {
        Some(WarcType::Resource)
    } else if text_eq(name, "response") {
        Some(WarcType::Response)
    } else {
        None
    }
}

/// Checks a complete header, then takes the payload and skips the separator.
fn finish_record(input: &[u8], header: Header, has_version: bool, body_start: usize) -> (r: Result<
    (WarcRecord, usize),
    WarcError,
>)
    requires
        body_start <= input@.len(),
    ensures
        match complete_record(input@, header@, has_version, body_start as int) {
            Framed::Record { record, next } => r matches Ok((rec, after)) && rec@ == record
                && rec@.well_formed() && after == next && body_start <= after <= input@.len(),
            Framed::End => false,
            Framed::Failed(e) => r == Err::<(WarcRecord, usize), WarcError>(e),
        },
{
    if !has_version {
        return Err(WarcError::MissingVersion);
    }
    let warc_type = match header.get("WARC-Type") {
        None => {
            return Err(WarcError::MissingType);
        },
        Some(name) => match parse_warc_type(name.as_str()) {
            None => {
                return Err(WarcError::UnknownType);
            },
            Some(kind) => kind,
        },
    };
    let content_length = match header.get("Content-Length") {
        None => {
            return Err(WarcError::MissingContentLength);
        },
        Some(text) => match parse_usize(text.as_str()) {
            None => {
                return Err(WarcError::InvalidContentLength);
            },
            Some(n) => n,
        },
    };
    if content_length > input.len() - body_start {
        return Err(WarcError::TruncatedPayload);
    }
    let payload_end = body_start + content_length;
    let payload = copy_range(input, body_start, payload_end);
    let after = skip_line(input, skip_line(input, payload_end));
    let record = WarcRecord {
        warc_version: "1.0".to_owned(),
        warc_type,
        content_length,
        payload,
        header,
    };
    Ok((record, after))
}

/// Reads the record that starts at `pos`.
///
/// Returns the record and the position of the next one; `None` when the
/// stream holds no further record; an error when it cannot be framed.
pub fn read_record(input: &[u8], pos: usize) -> (r: Result<Option<(WarcRecord, usize)>, WarcError>)
    requires
        pos <= input@.len(),
    ensures
        match frame_record(input@, pos as int) {
            Framed::Record { record, next } => r matches Ok(Some((rec, after))) && rec@ == record
                && rec@.well_formed() && after == next && pos < after <= input@.len(),
            Framed::End => r matches Ok(None),
            Framed::Failed(e) => r matches Err(err) && err == e,
        },
{
    let mut header = Header::new();
    let mut has_version = false;
    let mut at: usize = pos;
    while at < input.len()
        invariant
            pos <= at <= input@.len(),
            scan_header(input@, pos as int, Map::empty(), false) == scan_header(
                input@,
                at as int,
                header@,
                has_version,
            ),
        decreases input@.len() - at,
    {
        let (end, next) = scan_line(input, at);
        let line = match decode_text(copy_range(input, at, end)) {
            Some(line) => line,
            None => {
                return Err(WarcError::InvalidHeaderEncoding);
            },
        };
        match classify_line(line.as_str()) {
            HeaderLine::Field { name, value } => {
                header.insert(name, value);
            },
            HeaderLine::Version => {
                has_version = true;
            },
            HeaderLine::Blank => {
                return match finish_record(input, header, has_version, next) {
                    Ok((record, after)) => Ok(Some((record, after))),
                    Err(e) => Err(e),
                };
            },
            HeaderLine::Stray => {
                return Ok(None);
            },
        }
        at = next;
    }
    Ok(None)
}

/// When a record is framed, the next one starts after it and inside the stream.
pub proof fn lemma_scan_header_advances(
    s: Seq<u8>,
    pos: int,
    fields: Map<Seq<char>, Seq<char>>,
    has_version: bool,
)
    requires
        0 <= pos <= s.len(),
    ensures
        scan_header(s, pos, fields, has_version) matches HeaderEnd::Complete { body_start, .. }
            ==> pos < body_start <= s.len(),
    decreases s.len() - pos,
{
    if pos < s.len() && valid_utf8(line_content(s, pos)) {
        lemma_next_line_advances(s, pos);
        match classify(decode_utf8(line_content(s, pos))) {
            LineKind::Field { name, value } => {
                lemma_scan_header_advances(
                    s,
                    next_line(s, pos),
                    fields.insert(name, value),
                    has_version,
                );
            },
            LineKind::Version => {
                lemma_scan_header_advances(s, next_line(s, pos), fields, true);
            },
            _ => {},
        }
    }
}

/// A framed record has a payload of the declared length, and framing moves forward.
pub proof fn lemma_frame_record_advances(s: Seq<u8>, pos: int)
    requires
        0 <= pos <= s.len(),
    ensures
        frame_record(s, pos) matches Framed::Record { record, next } ==> pos < next <= s.len()
            && record.well_formed(),
{
    lemma_scan_header_advances(s, pos, Map::empty(), false);
    if let HeaderEnd::Complete { fields, has_version, body_start } = scan_header(
        s,
        pos,
        Map::empty(),
        false,
    ) {
        if let Framed::Record { record, next } = complete_record(
            s,
            fields,
            has_version,
            body_start,
        ) {
            let after = body_start + record.content_length;
            lemma_next_line_advances(s, after);
            lemma_next_line_advances(s, next_line(s, after));
        }
    }
}

/// The records of a stream, in order, and the error that ended the framing, if any.
pub struct FramedStream {
    pub records: Seq<RecordView>,
    pub failure: Option<WarcError>,
}

impl FramedStream {
    /// The stream that yields `record` and then goes on as `self`.
    pub open spec fn after(self, record: RecordView) -> FramedStream {
        FramedStream { records: seq![record] + self.records, failure: self.failure }
    }
}

/// Frames the stream from `pos` to its end.
pub open spec fn frame_all(s: Seq<u8>, pos: int) -> FramedStream
    decreases s.len() - pos,
{
    if !(0 <= pos <= s.len()) {
        FramedStream { records: Seq::empty(), failure: None }
    } else {
        proof {
            lemma_frame_record_advances(s, pos);
        }
        match frame_record(s, pos) {
            Framed::Record { record, next } => frame_all(s, next).after(record),
            Framed::End => FramedStream { records: Seq::empty(), failure: None },
            Framed::Failed(e) => FramedStream { records: Seq::empty(), failure: Some(e) },
        }
    }
}

/// The views of `records`, in order.
pub open spec fn record_views(records: Seq<WarcRecord>) -> Seq<RecordView> {
    records.map_values(|r: WarcRecord| r@)
}

/// Frames a whole stream: all its records up to the first that cannot be
/// framed, and the error that stopped the framing, if any.
pub fn read_all_records(input: &[u8]) -> (r: (Vec<WarcRecord>, Option<WarcError>))
    ensures
        record_views(r.0@) == frame_all(input@, 0).records,
        r.1 == frame_all(input@, 0).failure,
{
    let mut records: Vec<WarcRecord> = Vec::new();
    let mut at: usize = 0;
    loop
        invariant
            at <= input@.len(),
            frame_all(input@, 0).records == record_views(records@) + frame_all(
                input@,
                at as int,
            ).records,
            frame_all(input@, 0).failure == frame_all(input@, at as int).failure,
        decreases input@.len() - at,
    {
        match read_record(input, at) {
            Ok(Some((record, next))) => {
                records.push(record);
                at = next;
            },
            Ok(None) => {
                return (records, None);
            },
            Err(e) => {
                return (records, Some(e));
            },
        }
    }
}

} // verus!
