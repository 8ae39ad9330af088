//! How the bytes of a file become the byte stream that is framed.

use flate2::read::MultiGzDecoder;
use std::io::Read;
use vstd::prelude::*;
use crate::text::text_eq;

verus! {

/// How a file stores its byte stream.
#[derive(Clone, Copy, Debug, PartialEq, Eq, Structural)]
pub enum Codec {
    /// The file is the stream.
    Plain,
    /// The file is a series of gzip members that together hold the stream.
    Gzip,
}

/// The codec that a file name extension stands for, if it is a known one.
pub open spec fn codec_of(extension: Option<Seq<char>>) -> Option<Codec> {
    match extension {
        Some(ext) => if ext == "gz"@ {
            Some(Codec::Gzip)
        } else if ext == "wet"@ {
            Some(Codec::Plain)
        } else {
            None
        },
        None => None,
    }
}

/// Selects the codec by the extension of the file's name. `None` means that
/// the file is to be skipped.
pub fn codec_for_extension(extension: Option<&str>) -> (codec: Option<Codec>)
    ensures
        codec == codec_of(
            match extension {
                Some(ext) => Some(ext@),
                None => None,
            },
        ),
{
    match extension {
        Some(ext) => if text_eq(ext, "gz") {
            Some(Codec::Gzip)
        } else if text_eq(ext, "wet") {
            Some(Codec::Plain)
        } else {
            None
        },
        None => None,
    }
}

/// What `flate2`'s multi-member gzip decoder reads from a source that holds
/// `raw`, up to the end of the source; `None` where it reports an error.
pub uninterp spec fn gunzip(raw: Seq<u8>) -> Option<Seq<u8>>;

/// Decompresses a series of gzip members.
///
/// Trusted: the body reads a `flate2::read::MultiGzDecoder` over `raw` to its
/// end. The contract claims only that the outcome is a function of the
/// bytes: the data read, or the fact that an error was reported, is what
/// `gunzip` names for them.
#[verifier::external_body]
fn gunzip_members(raw: &[u8]) -> (r: Option<Vec<u8>>)
    ensures
        match r {
            Some(data) => gunzip(raw@) == Some(data@),
            None => gunzip(raw@) is None,
        },
{
    let mut data = Vec::new();
    match MultiGzDecoder::new(raw).read_to_end(&mut data) {
        Ok(_) => Some(data),
        Err(_) => None,
    }
}

/// The byte stream that a file holding `raw` stores under `codec`.
pub open spec fn decoded(codec: Codec, raw: Seq<u8>) -> Option<Seq<u8>> {
    match codec {
        Codec::Plain => Some(raw),
        Codec::Gzip => gunzip(raw),
    }
}

/// Turns the bytes of a file into its byte stream. `None` means that the
/// file cannot be decompressed.
pub fn decode_stream(codec: Codec, raw: Vec<u8>) -> (r: Option<Vec<u8>>)
    ensures
        match decoded(codec, raw@) {
            Some(stream) => r matches Some(data) && data@ == stream,
            None => r is None,
        },
{
    match codec {
        Codec::Plain => Some(raw),
        Codec::Gzip => gunzip_members(raw.as_slice()),
    }
}

} // verus!
