//! What framing makes of streams that are built from well-formed records.
//!
//! The statements here relate the framer to the way a stream is put
//! together: framing the records of a stream one after the other gives back
//! what the stream was built from, whatever follows them.

use vstd::prelude::*;
use vstd::utf8::*;
use crate::framer::{classify, complete_record, frame_all, frame_record, lemma_frame_record_advances, lemma_scan_header_advances, scan_header, version_marker, warc_type_of, declared_version, Framed, FramedStream, HeaderEnd, LineKind, RecordView, WarcError};
use crate::lines::{content_end, lemma_line_end, lemma_line_end_is_first_feed, lemma_next_line_advances, line_content, line_end, next_line, CARRIAGE_RETURN, LINE_FEED};
use crate::text::{is_digit, is_trimmed, is_whitespace, lemma_colon_position_is_first, lemma_trim_after_space, lemma_trim_of_trimmed, parse_unsigned, parse_usize_spec};
use crate::warc::{collect_documents, documents_of_stream};

verus! {

/// Lines of `b` are found in `a + b` where they stand, moved by the length of `a`.
proof fn lemma_line_end_shift(a: Seq<u8>, b: Seq<u8>, k: int)
    requires
        0 <= k <= b.len(),
    ensures
        line_end(a + b, a.len() + k) == a.len() + line_end(b, k),
    decreases b.len() - k,
{
    if k < b.len() && b[k] != LINE_FEED {
        lemma_line_end_shift(a, b, k + 1);
    }
}

/// So are their contents and the starts of the lines that follow.
proof fn lemma_line_shift(a: Seq<u8>, b: Seq<u8>, k: int)
    requires
        0 <= k <= b.len(),
    ensures
        next_line(a + b, a.len() + k) == a.len() + next_line(b, k),
        content_end(a + b, a.len() + k) == a.len() + content_end(b, k),
        line_content(a + b, a.len() + k) == line_content(b, k),
{
    lemma_line_end_shift(a, b, k);
    lemma_line_end(b, k);
}

/// A header end, moved by `by` bytes.
pub open spec fn shifted_end(end: HeaderEnd, by: int) -> HeaderEnd {
    match end {
        HeaderEnd::Complete { fields, has_version, body_start } => HeaderEnd::Complete {
            fields,
            has_version,
            body_start: body_start + by,
        },
        other => other,
    }
}

/// A framing result, moved by `by` bytes.
pub open spec fn shifted(framed: Framed, by: int) -> Framed {
    match framed {
        Framed::Record { record, next } => Framed::Record { record, next: next + by },
        other => other,
    }
}

/// A header of `b` reads the same in `a + b`, moved by the length of `a`.
proof fn lemma_scan_header_shift(
    a: Seq<u8>,
    b: Seq<u8>,
    k: int,
    fields: Map<Seq<char>, Seq<char>>,
    has_version: bool,
)
    requires
        0 <= k <= b.len(),
    ensures
        scan_header(a + b, a.len() + k, fields, has_version) == shifted_end(
            scan_header(b, k, fields, has_version),
            a.len() as int,
        ),
    decreases b.len() - k,
{
    if k < b.len() {
        lemma_line_shift(a, b, k);
        lemma_next_line_advances(b, k);
        if valid_utf8(line_content(b, k)) {
            match classify(decode_utf8(line_content(b, k))) {
                LineKind::Field { name, value } => {
                    lemma_scan_header_shift(
                        a,
                        b,
                        next_line(b, k),
                        fields.insert(name, value),
                        has_version,
                    );
                },
                LineKind::Version => {
                    lemma_scan_header_shift(a, b, next_line(b, k), fields, true);
                },
                _ => {},
            }
        }
    }
}

/// So do the payload and the separator that follow a header.
proof fn lemma_complete_record_shift(
    a: Seq<u8>,
    b: Seq<u8>,
    fields: Map<Seq<char>, Seq<char>>,
    has_version: bool,
    body_start: int,
)
    requires
        0 <= body_start <= b.len(),
    ensures
        complete_record(a + b, fields, has_version, a.len() + body_start) == shifted(
            complete_record(b, fields, has_version, body_start),
            a.len() as int,
        ),
{
    let s = a + b;
    if let Framed::Record { record, next } = complete_record(b, fields, has_version, body_start) {
        let after = body_start + record.content_length;
        assert(s.subrange(a.len() + body_start, a.len() + after) == b.subrange(body_start, after));
        lemma_line_shift(a, b, after);
        lemma_next_line_advances(b, after);
        lemma_line_shift(a, b, next_line(b, after));
    }
}

/// A record of `b` is framed the same in `a + b`, moved by the length of `a`.
proof fn lemma_frame_record_shift(a: Seq<u8>, b: Seq<u8>, k: int)
    requires
        0 <= k <= b.len(),
    ensures
        frame_record(a + b, a.len() + k) == shifted(frame_record(b, k), a.len() as int),
{
    lemma_scan_header_shift(a, b, k, Map::empty(), false);
    lemma_scan_header_advances(b, k, Map::empty(), false);
    if let HeaderEnd::Complete { fields, has_version, body_start } = scan_header(
        b,
        k,
        Map::empty(),
        false,
    ) {
        lemma_complete_record_shift(a, b, fields, has_version, body_start);
    }
}

/// What follows a prefix is framed as if the prefix were not there.
pub proof fn lemma_frame_all_shift(a: Seq<u8>, b: Seq<u8>, k: int)
    requires
        0 <= k <= b.len(),
    ensures
        frame_all(a + b, a.len() + k) == frame_all(b, k),
    decreases b.len() - k,
{
    lemma_frame_record_shift(a, b, k);
    lemma_frame_record_advances(b, k);
    if let Framed::Record { record, next } = frame_record(b, k) {
        lemma_frame_all_shift(a, b, next);
    }
}

/// A line that ends inside `h` is the same line in `h` followed by anything.
proof fn lemma_line_end_prefix(h: Seq<u8>, t: Seq<u8>, pos: int)
    requires
        0 <= pos <= h.len(),
        line_end(h, pos) < h.len(),
    ensures
        line_end(h + t, pos) == line_end(h, pos),
    decreases h.len() - pos,
{
    if pos < h.len() && h[pos] != LINE_FEED {
        lemma_line_end_prefix(h, t, pos + 1);
    }
}

/// So are its content and the start of the line that follows.
proof fn lemma_line_prefix(h: Seq<u8>, t: Seq<u8>, pos: int)
    requires
        0 <= pos <= h.len(),
        line_end(h, pos) < h.len(),
    ensures
        next_line(h + t, pos) == next_line(h, pos),
        content_end(h + t, pos) == content_end(h, pos),
        line_content(h + t, pos) == line_content(h, pos),
{
    lemma_line_end_prefix(h, t, pos);
    lemma_line_end(h, pos);
}

/// In a block that ends with a line feed, every line ends inside the block.
proof fn lemma_line_ends_inside(h: Seq<u8>, pos: int)
    requires
        0 <= pos < h.len(),
        h.last() == LINE_FEED,
    ensures
        line_end(h, pos) < h.len(),
    decreases h.len() - pos,
{
    if h[pos] != LINE_FEED {
        lemma_line_ends_inside(h, pos + 1);
    }
}

/// A header that is complete within a block of whole lines reads the same
/// when anything follows the block.
proof fn lemma_scan_header_prefix(
    h: Seq<u8>,
    t: Seq<u8>,
    pos: int,
    fields: Map<Seq<char>, Seq<char>>,
    has_version: bool,
)
    requires
        0 <= pos <= h.len(),
        h.len() > 0,
        h.last() == LINE_FEED,
        scan_header(h, pos, fields, has_version) is Complete,
    ensures
        scan_header(h + t, pos, fields, has_version) == scan_header(h, pos, fields, has_version),
    decreases h.len() - pos,
{
    if pos < h.len() {
        lemma_line_ends_inside(h, pos);
        lemma_line_prefix(h, t, pos);
        lemma_next_line_advances(h, pos);
        match classify(decode_utf8(line_content(h, pos))) {
            LineKind::Field { name, value } => {
                lemma_scan_header_prefix(
                    h,
                    t,
                    next_line(h, pos),
                    fields.insert(name, value),
                    has_version,
                );
            },
            LineKind::Version => {
                lemma_scan_header_prefix(h, t, next_line(h, pos), fields, true);
            },
            _ => {},
        }
    }
}

/// Whether no byte of `line` is a line feed.
pub open spec fn single_line(line: Seq<u8>) -> bool {
    forall|i: int| 0 <= i < line.len() ==> line[i] != LINE_FEED
}

/// A header block: whole lines that read as a complete header, with the
/// version marker among them, a known record type, and a content length.
pub open spec fn header_block(head: Seq<u8>) -> bool {
    &&& head.len() > 0
    &&& head.last() == LINE_FEED
    &&& scan_header(head, 0, Map::empty(), false) matches HeaderEnd::Complete {
        fields,
        has_version,
        body_start,
    }
    &&& has_version
    &&& body_start == head.len()
    &&& fields.contains_key("WARC-Type"@)
    &&& warc_type_of(fields["WARC-Type"@]) is Some
    &&& fields.contains_key("Content-Length"@)
    &&& parse_usize_spec(fields["Content-Length"@]) is Some
}

/// The fields of a header block.
pub open spec fn block_fields(head: Seq<u8>) -> Map<Seq<char>, Seq<char>> {
    scan_header(head, 0, Map::empty(), false)->fields
}

/// The content length that a header block declares.
pub open spec fn declared_length(head: Seq<u8>) -> nat {
    parse_usize_spec(block_fields(head)["Content-Length"@])->0 as nat
}

/// The parts of one record as it stands in a stream.
pub struct RecordBytes {
    /// The header lines, up to and including the empty line.
    pub head: Seq<u8>,
    pub payload: Seq<u8>,
    /// The content of the first separator line.
    pub gap: Seq<u8>,
    /// The content of the second separator line.
    pub trail: Seq<u8>,
}

impl RecordBytes {
    /// The record in the stream: header, payload, and two separator lines.
    pub open spec fn bytes(self) -> Seq<u8> {
        self.head + self.payload + self.gap + seq![LINE_FEED] + self.trail + seq![LINE_FEED]
    }

    /// The header is a header block that declares the length of the payload,
    /// and each separator is one line.
    pub open spec fn well_formed(self) -> bool {
        &&& header_block(self.head)
        &&& declared_length(self.head) == self.payload.len()
        &&& single_line(self.gap)
        &&& single_line(self.trail)
    }

    /// The record that the bytes stand for.
    pub open spec fn record(self) -> RecordView {
        RecordView {
            version: declared_version(),
            kind: warc_type_of(block_fields(self.head)["WARC-Type"@])->0,
            content_length: self.payload.len(),
            payload: self.payload,
            header: block_fields(self.head),
        }
    }
}

/// The stream that holds `records` one after the other.
pub open spec fn stream_of(records: Seq<RecordBytes>) -> Seq<u8>
    decreases records.len(),
{
    if records.len() == 0 {
        Seq::empty()
    } else {
        records.first().bytes() + stream_of(records.drop_first())
    }
}

/// The records that `records` stand for, in order.
pub open spec fn records_of(records: Seq<RecordBytes>) -> Seq<RecordView> {
    records.map_values(|r: RecordBytes| r.record())
}

/// Whether every one of `records` is well-formed.
pub open spec fn all_well_formed(records: Seq<RecordBytes>) -> bool {
    forall|i: int| 0 <= i < records.len() ==> (#[trigger] records[i]).well_formed()
}

/// A header block reads the same whatever follows it.
proof fn lemma_header_block_scan(head: Seq<u8>, rest: Seq<u8>)
    requires
        header_block(head),
    ensures
        scan_header(head + rest, 0, Map::empty(), false) == (HeaderEnd::Complete {
            fields: block_fields(head),
            has_version: true,
            body_start: head.len() as int,
        }),
{
    lemma_scan_header_prefix(head, rest, 0, Map::empty(), false);
}

/// A well-formed record at the start of a stream is framed as that record,
/// and the next record is looked for right after its second separator line.
pub proof fn lemma_frame_first_record(r: RecordBytes, rest: Seq<u8>)
    requires
        r.well_formed(),
    ensures
        frame_record(r.bytes() + rest, 0) == (Framed::Record {
            record: r.record(),
            next: r.bytes().len() as int,
        }),
{
    let s = r.bytes() + rest;
    let tail = r.payload + r.gap + seq![LINE_FEED] + r.trail + seq![LINE_FEED] + rest;
    assert(s == r.head + tail);
    lemma_header_block_scan(r.head, tail);
    let body_start = r.head.len() as int;
    let after = body_start + r.payload.len();
    let gap_end = after + r.gap.len();
    let trail_start = gap_end + 1;
    let trail_end = trail_start + r.trail.len();
    assert(s.subrange(body_start, after) == r.payload);
    assert(forall|i: int| after <= i < gap_end ==> s[i] != LINE_FEED);
    lemma_line_end_is_first_feed(s, after, gap_end);
    assert(forall|i: int| trail_start <= i < trail_end ==> s[i] != LINE_FEED);
    lemma_line_end_is_first_feed(s, trail_start, trail_end);
}

/// Framing a stream that starts with well-formed records gives these
/// records, in order and with their payloads unchanged, and then whatever
/// framing gives for the rest of the stream.
pub proof fn framing_gives_back_records(records: Seq<RecordBytes>, rest: Seq<u8>)
    requires
        all_well_formed(records),
    ensures
        frame_all(stream_of(records) + rest, 0).records == records_of(records) + frame_all(
            rest,
            0,
        ).records,
        frame_all(stream_of(records) + rest, 0).failure == frame_all(rest, 0).failure,
    decreases records.len(),
{
    if records.len() > 0 {
        let first = records.first();
        let others = records.drop_first();
        let tail = stream_of(others) + rest;
        assert(all_well_formed(others));
        assert(stream_of(records) + rest == first.bytes() + tail);
        lemma_frame_first_record(first, tail);
        lemma_frame_all_shift(first.bytes(), tail, 0);
        framing_gives_back_records(others, rest);
    }
}

/// A stream built from well-formed records, and nothing else, is framed
/// into exactly these records, each with the payload it was built with.
pub proof fn framing_round_trip(records: Seq<RecordBytes>)
    requires
        all_well_formed(records),
    ensures
        frame_all(stream_of(records), 0) == (FramedStream {
            records: records_of(records),
            failure: None,
        }),
        frame_all(stream_of(records), 0).records.len() == records.len(),
        forall|i: int|
            0 <= i < records.len() ==> (#[trigger] frame_all(
                stream_of(records),
                0,
            ).records[i]).payload == records[i].payload,
{
    framing_gives_back_records(records, Seq::empty());
}

/// The documents of a stream built from well-formed records are those of
/// its records, taken in order.
pub proof fn documents_of_well_formed_stream(records: Seq<RecordBytes>)
    requires
        all_well_formed(records),
    ensures
        documents_of_stream(stream_of(records)) == collect_documents(records_of(records), None),
{
    framing_round_trip(records);
}

/// A stream that ends before the payload that a header declares is complete
/// cannot be framed: after the records before it, framing fails, and no
/// record with a shorter payload is given.
pub proof fn truncated_payload_is_fatal(records: Seq<RecordBytes>, head: Seq<u8>, short: Seq<u8>)
    requires
        all_well_formed(records),
        header_block(head),
        short.len() < declared_length(head),
    ensures
        frame_all(stream_of(records) + head + short, 0) == (FramedStream {
            records: records_of(records),
            failure: Some(WarcError::TruncatedPayload),
        }),
{
    let tail = head + short;
    lemma_header_block_scan(head, short);
    framing_gives_back_records(records, tail);
    assert(stream_of(records) + head + short == stream_of(records) + tail);
}

/// A line that is neither a field, nor the version marker, nor empty ends
/// the framing without an error: the records before it are given, and
/// nothing after it is.
pub proof fn stray_line_stops_framing(records: Seq<RecordBytes>, tail: Seq<u8>)
    requires
        all_well_formed(records),
        tail.len() > 0,
        valid_utf8(line_content(tail, 0)),
        classify(decode_utf8(line_content(tail, 0))) is Stray,
    ensures
        frame_all(stream_of(records) + tail, 0) == (FramedStream {
            records: records_of(records),
            failure: None,
        }),
{
    framing_gives_back_records(records, tail);
}

/// Text that can stand on a header line as it is: ASCII without a line
/// feed, and no whitespace at either end.
pub open spec fn plain_text(text: Seq<char>) -> bool {
    &&& is_ascii_chars(text)
    &&& forall|i: int| 0 <= i < text.len() ==> text[i] != '\n'
    &&& is_trimmed(text)
}

/// A header field as it is written.
pub struct FieldText {
    pub name: Seq<char>,
    pub value: Seq<char>,
}

impl FieldText {
    /// The name and the value are plain text, and the name holds no colon.
    pub open spec fn well_formed(self) -> bool {
        &&& plain_text(self.name)
        &&& plain_text(self.value)
        &&& forall|i: int| 0 <= i < self.name.len() ==> self.name[i] != ':'
    }

    /// The text of the field's line: the name, a colon, a space, the value.
    pub open spec fn text(self) -> Seq<char> {
        self.name + seq![':', ' '] + self.value
    }
}

/// A line of text as bytes, ended by a carriage return and a line feed.
pub open spec fn text_line(text: Seq<char>) -> Seq<u8> {
    encode_utf8(text) + seq![CARRIAGE_RETURN, LINE_FEED]
}

/// The lines of `fields`, in order.
pub open spec fn field_lines(fields: Seq<FieldText>) -> Seq<u8>
    decreases fields.len(),
{
    if fields.len() == 0 {
        Seq::empty()
    } else {
        text_line(fields.first().text()) + field_lines(fields.drop_first())
    }
}

/// The header that writing `fields` in order onto `onto` leaves.
pub open spec fn fields_written(
    fields: Seq<FieldText>,
    onto: Map<Seq<char>, Seq<char>>,
) -> Map<Seq<char>, Seq<char>>
    decreases fields.len(),
{
    if fields.len() == 0 {
        onto
    } else {
        fields_written(fields.drop_first(), onto.insert(fields.first().name, fields.first().value))
    }
}

/// A header as it is written: the version marker, the fields, an empty line.
pub open spec fn rendered_head(fields: Seq<FieldText>) -> Seq<u8> {
    text_line(version_marker()) + (field_lines(fields) + text_line(Seq::empty()))
}

/// A written line of ASCII text is read back as that text, and the next
/// line starts right after it.
proof fn lemma_read_text_line(text: Seq<char>, rest: Seq<u8>)
    requires
        is_ascii_chars(text),
        forall|i: int| 0 <= i < text.len() ==> text[i] != '\n',
    ensures
        line_content(text_line(text) + rest, 0) == encode_utf8(text),
        next_line(text_line(text) + rest, 0) == text_line(text).len(),
        text_line(text).len() == text.len() + 2,
        valid_utf8(encode_utf8(text)),
        decode_utf8(encode_utf8(text)) == text,
{
    let s = text_line(text) + rest;
    let n = text.len() as int;
    is_ascii_chars_encode_utf8(text);
    encode_utf8_valid_utf8(text);
    encode_utf8_decode_utf8(text);
    assert(forall|i: int| 0 <= i < n + 1 ==> s[i] != LINE_FEED);
    lemma_line_end_is_first_feed(s, 0, n + 1);
}

/// The line of a well-formed field is read as that field.
proof fn lemma_classify_field(field: FieldText)
    requires
        field.well_formed(),
    ensures
        classify(field.text()) == (LineKind::Field { name: field.name, value: field.value }),
{
    let line = field.text();
    let at = field.name.len() as int;
    assert(forall|i: int| 0 <= i < at ==> line[i] != ':');
    lemma_colon_position_is_first(line, 0, at);
    assert(line.subrange(0, at) == field.name);
    assert(line.subrange(at + 1, line.len() as int) == seq![' '] + field.value);
    lemma_trim_of_trimmed(field.name);
    lemma_trim_after_space(field.value);
}

/// The version marker is read as such, and an empty line as the end of the header.
proof fn lemma_classify_marker_and_blank()
    ensures
        classify(version_marker()) == LineKind::Version,
        classify(Seq::empty()) == LineKind::Blank,
        plain_text(version_marker()),
{
    reveal_strlit("WARC/1.0");
    lemma_colon_position_is_first(version_marker(), 0, 8);
    lemma_trim_of_trimmed(version_marker());
}

/// Written field lines followed by an empty line read as the fields, written
/// in order onto what was read before.
proof fn lemma_scan_field_lines(
    fields: Seq<FieldText>,
    rest: Seq<u8>,
    onto: Map<Seq<char>, Seq<char>>,
    has_version: bool,
)
    requires
        forall|i: int| 0 <= i < fields.len() ==> (#[trigger] fields[i]).well_formed(),
    ensures
        scan_header(field_lines(fields) + text_line(Seq::empty()) + rest, 0, onto, has_version)
            == (HeaderEnd::Complete {
            fields: fields_written(fields, onto),
            has_version,
            body_start: (field_lines(fields) + text_line(Seq::empty())).len() as int,
        }),
    decreases fields.len(),
{
    let blank = text_line(Seq::empty());
    let s = field_lines(fields) + blank + rest;
    if fields.len() == 0 {
        lemma_classify_marker_and_blank();
        lemma_read_text_line(Seq::empty(), rest);
    } else {
        let first = fields.first();
        let others = fields.drop_first();
        let line = text_line(first.text());
        let tail = field_lines(others) + blank + rest;
        let text = first.text();
        assert(s == line + tail);
        assert(forall|i: int|
            0 <= i < text.len() ==> '\0' <= #[trigger] text[i] <= '\u{7f}' && text[i] != '\n');
        lemma_read_text_line(text, tail);
        lemma_classify_field(first);
        assert(forall|i: int| 0 <= i < others.len() ==> (#[trigger] others[i]).well_formed());
        lemma_scan_field_lines(others, rest, onto.insert(first.name, first.value), has_version);
        lemma_scan_header_shift(line, tail, 0, onto.insert(first.name, first.value), has_version);
    }
}

/// A header written from well-formed fields that name a known record type
/// and a content length is a header block with exactly these fields.
pub proof fn rendered_head_is_header_block(fields: Seq<FieldText>)
    requires
        forall|i: int| 0 <= i < fields.len() ==> (#[trigger] fields[i]).well_formed(),
        fields_written(fields, Map::empty()).contains_key("WARC-Type"@),
        warc_type_of(fields_written(fields, Map::empty())["WARC-Type"@]) is Some,
        fields_written(fields, Map::empty()).contains_key("Content-Length"@),
        parse_usize_spec(fields_written(fields, Map::empty())["Content-Length"@]) is Some,
    ensures
        header_block(rendered_head(fields)),
        block_fields(rendered_head(fields)) == fields_written(fields, Map::empty()),
{
    let marker = text_line(version_marker());
    let body = field_lines(fields) + text_line(Seq::empty());
    let head = rendered_head(fields);
    lemma_classify_marker_and_blank();
    lemma_read_text_line(version_marker(), body);
    lemma_scan_field_lines(fields, Seq::empty(), Map::empty(), true);
    lemma_scan_header_shift(marker, body, 0, Map::empty(), true);
    assert(head.last() == LINE_FEED) by {
        lemma_read_text_line(Seq::empty(), Seq::empty());
    }
}

/// A record as it is written: the header from `fields`, the payload, and
/// two empty separator lines.
pub open spec fn rendered_record(fields: Seq<FieldText>, payload: Seq<u8>) -> RecordBytes {
    RecordBytes {
        head: rendered_head(fields),
        payload,
        gap: seq![CARRIAGE_RETURN],
        trail: seq![CARRIAGE_RETURN],
    }
}

/// A record written from well-formed fields that name a known record type
/// and the length of the payload is well-formed: in a stream it is framed
/// as a record with these fields and this payload.
pub proof fn rendered_record_is_well_formed(fields: Seq<FieldText>, payload: Seq<u8>)
    requires
        forall|i: int| 0 <= i < fields.len() ==> (#[trigger] fields[i]).well_formed(),
        fields_written(fields, Map::empty()).contains_key("WARC-Type"@),
        warc_type_of(fields_written(fields, Map::empty())["WARC-Type"@]) is Some,
        fields_written(fields, Map::empty()).contains_key("Content-Length"@),
        parse_usize_spec(fields_written(fields, Map::empty())["Content-Length"@]) == Some(
            payload.len() as usize,
        ),
        payload.len() <= usize::MAX,
    ensures
        rendered_record(fields, payload).well_formed(),
        rendered_record(fields, payload).record().header == fields_written(fields, Map::empty()),
        rendered_record(fields, payload).record().payload == payload,
{
    rendered_head_is_header_block(fields);
}

/// The fields that every record has: its type and the length of its payload.
pub open spec fn required_fields(kind: Seq<char>, length: Seq<char>) -> Seq<FieldText> {
    seq![
        FieldText { name: "WARC-Type"@, value: kind },
        FieldText { name: "Content-Length"@, value: length },
    ]
}

/// The smallest record of a kind: the version marker, the type, the length
/// of the payload, the payload, and two empty separator lines.
pub open spec fn minimal_record(kind: Seq<char>, length: Seq<char>, payload: Seq<u8>) -> RecordBytes {
    rendered_record(required_fields(kind, length), payload)
}

/// The name of a known record type is plain text.
proof fn lemma_type_name_is_plain(kind: Seq<char>)
    requires
        warc_type_of(kind) is Some,
    ensures
        plain_text(kind),
{
    reveal_strlit("conversion");
    reveal_strlit("warcinfo");
    reveal_strlit("continuation");
    reveal_strlit("revisit");
    reveal_strlit("metadata");
    reveal_strlit("request");
    reveal_strlit("resource");
    reveal_strlit("response");
}

/// An unsigned decimal number is plain text.
proof fn lemma_number_is_plain(text: Seq<char>)
    requires
        parse_unsigned(text) is Some,
    ensures
        plain_text(text),
{
    let digits = if text.len() > 0 && text[0] == '+' {
        text.drop_first()
    } else {
        text
    };
    assert forall|i: int| 0 <= i < text.len() implies is_digit(#[trigger] text[i]) || text[i]
        == '+' by {
        if text.len() > 0 && text[0] == '+' && i > 0 {
            assert(digits[i - 1] == text[i]);
        }
    }
    assert forall|i: int| 0 <= i < text.len() implies '\0' <= #[trigger] text[i] <= '\u{7f}'
        && text[i] != '\n' && !is_whitespace(text[i]) by {
        char_u32_cast(text[i], text[i] as u32);
    }
}

/// A minimal record of a known type whose length field gives the length of
/// the payload is well-formed: in a stream it is framed as a record of that
/// type with exactly this payload.
pub proof fn minimal_record_is_well_formed(kind: Seq<char>, length: Seq<char>, payload: Seq<u8>)
    requires
        warc_type_of(kind) is Some,
        parse_usize_spec(length) == Some(payload.len() as usize),
        payload.len() <= usize::MAX,
    ensures
        minimal_record(kind, length, payload).well_formed(),
        minimal_record(kind, length, payload).record() == (RecordView {
            version: declared_version(),
            kind: warc_type_of(kind)->0,
            content_length: payload.len(),
            payload,
            header: Map::empty().insert("WARC-Type"@, kind).insert("Content-Length"@, length),
        }),
{
    let fields = required_fields(kind, length);
    let header = Map::<Seq<char>, Seq<char>>::empty().insert("WARC-Type"@, kind).insert(
        "Content-Length"@,
        length,
    );
    reveal_strlit("WARC-Type");
    reveal_strlit("Content-Length");
    lemma_type_name_is_plain(kind);
    lemma_number_is_plain(length);
    assert(fields_written(fields, Map::empty()) == header) by {
        reveal_with_fuel(fields_written, 3);
    }
    assert("WARC-Type"@ != "Content-Length"@);
    rendered_record_is_well_formed(fields, payload);
}

} // verus!
