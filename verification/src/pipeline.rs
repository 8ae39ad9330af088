//! The decisions of a run: which directory entries are processed, how a file
//! is read, how many files are in flight, and when the run may end.
//!
//! Listing the directory, opening files, waiting for a permit and moving
//! documents to the sink are the caller's part; what to do next is decided here.

use vstd::prelude::*;
use crate::batch::{batch_views, Delivery, SinkModel};
use crate::codec::{codec_for_extension, codec_of, decode_stream, decoded};
use crate::framer::WarcError;
use crate::pubmed::{articles_to_documents, documents_of_articles, PubmedArticle, PubmedError};
use crate::text::{parse_usize, parse_usize_spec, text_eq};
use crate::warc::{doc_views, documents_of_stream, extract_records_and_add_to_index, extract_records_and_push_to_quickwit, DocJson, DocView, Extraction};
use crate::wikipedia_abstract::{documents_of_entries, feed_to_documents, Feed};

verus! {

/// The source formats.
#[derive(Clone, Copy, Debug, PartialEq, Eq, Structural)]
pub enum SourceType {
    Warc,
    WikipediaAbstract,
    Entrez,
}

/// The source format that a configuration value selects, if it names one.
pub open spec fn source_type_of(name: Seq<char>) -> Option<SourceType> {
    if name == "WARC"@ {
        Some(SourceType::Warc)
    } else if name == "WIKIPEDIA_ABSTRACT"@ {
        Some(SourceType::WikipediaAbstract)
    } else if name == "ENTREZ"@ {
        Some(SourceType::Entrez)
    } else {
        None
    }
}

/// Reads the source-type selector. `None` means that the value names no
/// source format: files are then skipped.
pub fn parse_source_type(name: &str) -> (r: Option<SourceType>)
    ensures
        r == source_type_of(name@),
{
    if text_eq(name, "WARC") {
        Some(SourceType::Warc)
    } else if text_eq(name, "WIKIPEDIA_ABSTRACT") {
        Some(SourceType::WikipediaAbstract)
    } else if text_eq(name, "ENTREZ") {
        Some(SourceType::Entrez)
    } else {
        None
    }
}

/// One unit of a source, in the form in which its format is read.
pub enum SourceUnit {
    /// The byte stream of an archive.
    Archive(Vec<u8>),
    /// The entries of a parsed article set.
    Articles(Vec<PubmedArticle>),
    /// A parsed abstract feed.
    Abstracts(Feed),
}

/// Why the extraction from a source unit ended early.
#[derive(Clone, Copy, Debug, PartialEq, Eq, Structural)]
pub enum ExtractError {
    /// The archive cannot be framed, or a record cannot be converted.
    Archive(WarcError),
    /// An entry of the article set cannot be converted.
    Article(PubmedError),
}

/// The documents that a source unit holds, in order, and the error that
/// ended the extraction, if any.
pub open spec fn documents_of_unit(unit: SourceUnit) -> (Seq<DocView>, Option<ExtractError>) {
    match unit {
        SourceUnit::Archive(stream) => (
            documents_of_stream(stream@).documents,
            match documents_of_stream(stream@).failure {
                Some(e) => Some(ExtractError::Archive(e)),
                None => None,
            },
        ),
        SourceUnit::Articles(entries) => (
            documents_of_articles(entries@).0,
            match documents_of_articles(entries@).1 {
                Some(e) => Some(ExtractError::Article(e)),
                None => None,
            },
        ),
        SourceUnit::Abstracts(feed) => (documents_of_entries(feed.doc@), None),
    }
}

/// Produces the documents of one source unit, by the policy of its format.
///
/// Extraction stops at the first error; the documents before it are
/// returned together with the error.
pub fn normalize_unit(unit: SourceUnit) -> (out: (Vec<DocJson>, Option<ExtractError>))
    ensures
        doc_views(out.0@) == documents_of_unit(unit).0,
        out.1 == documents_of_unit(unit).1,
{
    match unit {
        SourceUnit::Archive(stream) => {
            let Extraction { documents, failure } = extract_records_and_add_to_index(
                stream.as_slice(),
            );
            match failure {
                Some(e) => (documents, Some(ExtractError::Archive(e))),
                None => (documents, None),
            }
        },
        SourceUnit::Articles(entries) => {
            let (documents, failure) = articles_to_documents(entries);
            match failure {
                Some(e) => (documents, Some(ExtractError::Article(e))),
                None => (documents, None),
            }
        },
        SourceUnit::Abstracts(feed) => (feed_to_documents(feed), None),
    }
}

/// The first entry that is processed when no lower bound is given.
pub const DEFAULT_FROM: usize = 0;

/// The last entry that is processed when no upper bound is given.
pub const DEFAULT_TO: usize = usize::MAX;

/// The number of file tasks that may run at once when none is configured.
pub const DEFAULT_POOL_SIZE: usize = 16;

/// The number of documents that the delivery channel holds.
pub const CHANNEL_CAPACITY: usize = 1000;

/// Reads a bound of the file range; `default` stands in for a value that is
/// absent or not a number.
pub fn range_bound(text: &str, default: usize) -> (bound: usize)
    ensures
        bound == match parse_usize_spec(text@) {
            Some(n) => n,
            None => default,
        },
{
    match parse_usize(text) {
        Some(n) => n,
        None => default,
    }
}

/// Whether the entry with sequence number `seq` lies in the inclusive range
/// from `from` to `to`.
pub open spec fn in_range(seq: nat, from: nat, to: nat) -> bool {
    from <= seq <= to
}

/// Decides whether the directory entry numbered `seq` is processed.
pub fn entry_selected(seq: usize, from: usize, to: usize) -> (keep: bool)
    ensures
        keep == in_range(seq as nat, from as nat, to as nat),
{
    !(seq < from || seq > to)
}

/// What became of one archive file.
pub enum FileOutcome {
    /// The extension of the file's name is not a known one: nothing was read.
    Skipped,
    /// The file could not be decompressed.
    Undecodable,
    /// The file was framed. `failure` says why its extraction ended early, if it did.
    Processed { delivery: Delivery, failure: Option<WarcError> },
}

/// Processes one archive file, given the extension of its name and its bytes.
pub fn process_archive_file(extension: Option<&str>, raw: Vec<u8>, threshold: usize) -> (out:
    FileOutcome)
    ensures
        match codec_of(
            match extension {
                Some(ext) => Some(ext@),
                None => None,
            },
        ) {
            None => out is Skipped,
            Some(codec) => match decoded(codec, raw@) {
                None => out is Undecodable,
                Some(stream) => out matches FileOutcome::Processed { delivery, failure }
                    && batch_views(delivery.batches@) == SinkModel::empty(
                    threshold as nat,
                ).deliver(documents_of_stream(stream).documents) && delivery.count
                    == documents_of_stream(stream).documents.len() && failure
                    == documents_of_stream(stream).failure,
            },
        },
{
    let codec = match codec_for_extension(extension) {
        Some(codec) => codec,
        None => {
            return FileOutcome::Skipped;
        },
    };
    let stream = match decode_stream(codec, raw) {
        Some(stream) => stream,
        None => {
            return FileOutcome::Undecodable;
        },
    };
    let (delivery, failure) = extract_records_and_push_to_quickwit(stream.as_slice(), threshold);
    FileOutcome::Processed { delivery, failure }
}

/// Where a run stands.
#[derive(Clone, Copy, Debug, PartialEq, Eq, Structural)]
pub enum Phase {
    /// Directory entries are still being listed and dispatched.
    Listing,
    /// No entry will follow; file tasks may still run and the sink still drains.
    Draining,
    /// The channel is closed and the sink has flushed: the run is over.
    Done,
}

/// A run as a mathematical value.
pub struct RunModel {
    pub from: nat,
    pub to: nat,
    /// The number of permits.
    pub pool: nat,
    /// The number of directory entries seen so far.
    pub seen: nat,
    /// The number of permits that file tasks hold.
    pub running: nat,
    pub phase: Phase,
    /// Whether the producer side of the delivery channel is closed.
    pub closed: bool,
}

/// What to do with a directory entry.
#[derive(Clone, Copy, Debug, PartialEq, Eq, Structural)]
pub enum Admission {
    /// The entry is outside the range: it is never opened.
    Skip { seq: usize },
    /// The entry is to be processed once a permit is held.
    Open { seq: usize },
    /// The entry cannot be taken: the listing is over, or the count is exhausted.
    Refused,
}

/// The state of a run.
pub struct Orchestrator {
    from: usize,
    to: usize,
    pool: usize,
    seen: usize,
    running: usize,
    phase: Phase,
    closed: bool,
}

impl View for Orchestrator {
    type V = RunModel;

    closed spec fn view(&self) -> RunModel {
        RunModel {
            from: self.from as nat,
            to: self.to as nat,
            pool: self.pool as nat,
            seen: self.seen as nat,
            running: self.running as nat,
            phase: self.phase,
            closed: self.closed,
        }
    }
}

impl RunModel {
    /// No more file tasks run than there are permits; the channel is closed
    /// only when the listing is over and no file task runs; the run is over
    /// only when the channel is closed.
    pub open spec fn well_formed(self) -> bool {
        &&& self.running <= self.pool
        &&& self.closed ==> self.phase != Phase::Listing && self.running == 0
        &&& self.phase == Phase::Done ==> self.closed
    }

    /// Takes the next directory entry: it gets the next sequence number,
    /// counting from 1, and is opened if that number lies in the range.
    pub open spec fn next_entry(self) -> (RunModel, Admission) {
        if self.phase == Phase::Listing && self.seen < usize::MAX {
            let seq = self.seen + 1;
            (
                RunModel { seen: seq, ..self },
                if in_range(seq, self.from, self.to) {
                    Admission::Open { seq: seq as usize }
                } else {
                    Admission::Skip { seq: seq as usize }
                },
            )
        } else {
            (self, Admission::Refused)
        }
    }

    /// The run after `n` more directory entries.
    pub open spec fn after_entries(self, n: nat) -> RunModel
        decreases n,
    {
        if n == 0 {
            self
        } else {
            self.after_entries((n - 1) as nat).next_entry().0
        }
    }
}

/// Of the entries of a directory, exactly those whose sequence number lies
/// in the range are opened: the entry that follows `n` others gets the
/// number `n + 1` after those seen before, and is opened if and only if
/// that number lies between `from` and `to`.
pub proof fn range_filter_opens_the_range(run: RunModel, n: nat)
    requires
        run.phase == Phase::Listing,
        run.seen + n < usize::MAX,
    ensures
        run.after_entries(n) == (RunModel { seen: run.seen + n, ..run }),
        run.after_entries(n).next_entry().1 == if in_range(run.seen + n + 1, run.from, run.to) {
            Admission::Open { seq: (run.seen + n + 1) as usize }
        } else {
            Admission::Skip { seq: (run.seen + n + 1) as usize }
        },
    decreases n,
{
    if n > 0 {
        range_filter_opens_the_range(run, (n - 1) as nat);
    }
}

impl Orchestrator {
    #[verifier::type_invariant]
    spec fn consistent(self) -> bool {
        self@.well_formed()
    }

    /// A run over the entries numbered `from` to `to`, with `pool` permits.
    pub fn new(from: usize, to: usize, pool: usize) -> (run: Orchestrator)
        ensures
            run@ == (RunModel {
                from: from as nat,
                to: to as nat,
                pool: pool as nat,
                seen: 0,
                running: 0,
                phase: Phase::Listing,
                closed: false,
            }),
    {
        Orchestrator { from, to, pool, seen: 0, running: 0, phase: Phase::Listing, closed: false }
    }

    /// Where the run stands.
    pub fn phase(&self) -> (phase: Phase)
        ensures
            phase == self@.phase,
            self@.well_formed(),
    {
        proof {
            use_type_invariant(self);
        }
        self.phase
    }

    /// The number of permits that file tasks hold.
    pub fn running(&self) -> (running: usize)
        ensures
            running == self@.running,
            running <= self@.pool,
    {
        proof {
            use_type_invariant(self);
        }
        self.running
    }

    /// Takes the next directory entry: gives it the next sequence number,
    /// counting from 1, and decides by the range whether it is opened.
    pub fn next_entry(&mut self) -> (admission: Admission)
        ensures
            final(self)@.well_formed(),
            (final(self)@, admission) == old(self)@.next_entry(),
    {
        proof {
            use_type_invariant(&*self);
        }
        match self.phase {
            Phase::Listing => {},
            _ => {
                return Admission::Refused;
            },
        }
        if self.seen == usize::MAX {
            return Admission::Refused;
        }
        self.seen = self.seen + 1;
        if entry_selected(self.seen, self.from, self.to) {
            Admission::Open { seq: self.seen }
        } else {
            Admission::Skip { seq: self.seen }
        }
    }

    /// Takes a permit for a file task if one is free.
    ///
    /// Returns `false`, and changes nothing, when every permit is held or
    /// the listing is over: the caller then waits for a task to finish.
    pub fn try_acquire(&mut self) -> (granted: bool)
        ensures
            final(self)@.well_formed(),
            granted == (old(self)@.phase == Phase::Listing && old(self)@.running < old(
                self,
            )@.pool),
            final(self)@ == if granted {
                RunModel { running: old(self)@.running + 1, ..old(self)@ }
            } else {
                old(self)@
            },
    {
        proof {
            use_type_invariant(&*self);
        }
        match self.phase {
            Phase::Listing => {},
            _ => {
                return false;
            },
        }
        if self.running < self.pool {
            self.running = self.running + 1;
            true
        } else {
            false
        }
    }

    /// Gives back the permit of a file task that has ended, however it ended.
    ///
    /// Returns `false`, and changes nothing, when no permit is held.
    pub fn release(&mut self) -> (released: bool)
        ensures
            final(self)@.well_formed(),
            released == (old(self)@.running > 0),
            final(self)@ == if released {
                RunModel { running: (old(self)@.running - 1) as nat, ..old(self)@ }
            } else {
                old(self)@
            },
    {
        proof {
            use_type_invariant(&*self);
        }
        if self.running > 0 {
            self.running = self.running - 1;
            true
        } else {
            false
        }
    }

    /// The directory has no further entry.
    pub fn listing_finished(&mut self)
        ensures
            final(self)@.well_formed(),
            final(self)@ == if old(self)@.phase == Phase::Listing {
                RunModel { phase: Phase::Draining, ..old(self)@ }
            } else {
                old(self)@
            },
    {
        proof {
            use_type_invariant(&*self);
        }
        match self.phase {
            Phase::Listing => {
                self.phase = Phase::Draining;
            },
            _ => {},
        }
    }

    /// Closes the producer side of the delivery channel if that is due: the
    /// listing is over and every file task has ended.
    ///
    /// Returns whether the channel is to be closed now.
    pub fn try_close_channel(&mut self) -> (close: bool)
        ensures
            final(self)@.well_formed(),
            close == (old(self)@.phase == Phase::Draining && old(self)@.running == 0 && !old(
                self,
            )@.closed),
            final(self)@ == if close {
                RunModel { closed: true, ..old(self)@ }
            } else {
                old(self)@
            },
    {
        proof {
            use_type_invariant(&*self);
        }
        match self.phase {
            Phase::Draining => {},
            _ => {
                return false;
            },
        }
        if self.running == 0 && !self.closed {
            self.closed = true;
            true
        } else {
            false
        }
    }

    /// The sink has received everything and flushed. The run ends if the
    /// channel was closed before.
    ///
    /// Returns whether the run is over.
    pub fn drain_finished(&mut self) -> (done: bool)
        ensures
            final(self)@.well_formed(),
            done == old(self)@.closed,
            final(self)@ == if done {
                RunModel { phase: Phase::Done, ..old(self)@ }
            } else {
                old(self)@
            },
    {
        proof {
            use_type_invariant(&*self);
        }
        if self.closed {
            self.phase = Phase::Done;
            true
        } else {
            false
        }
    }
}

} // verus!
