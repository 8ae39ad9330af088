//! The batching sink: documents are collected until there are more than a
//! threshold, then handed out together for one delivery.

use vstd::prelude::*;
use vstd::seq_lib::lemma_flatten_concat;
use crate::warc::{doc_views, DocJson, DocView};

verus! {

/// The sink as a mathematical value.
pub struct SinkModel {
    /// The documents that wait for the next flush, oldest first.
    pub pending: Seq<DocView>,
    /// A flush is due once more documents than this are pending.
    pub threshold: nat,
}

/// The sink after one operation, and the batch that the operation flushed.
pub struct SinkStep {
    pub sink: SinkModel,
    pub flushed: Option<Seq<DocView>>,
}

/// The sink after a run of pushes, and the batches flushed meanwhile, in order.
pub struct SinkRun {
    pub sink: SinkModel,
    pub flushes: Seq<Seq<DocView>>,
}

impl SinkModel {
    /// A sink with nothing pending.
    pub open spec fn empty(threshold: nat) -> SinkModel {
        SinkModel { pending: Seq::empty(), threshold }
    }

    /// Accepts one document; flushes everything pending once there are more
    /// than `threshold` documents.
    pub open spec fn push(self, doc: DocView) -> SinkStep {
        let grown = self.pending.push(doc);
        if grown.len() > self.threshold {
            SinkStep { sink: SinkModel::empty(self.threshold), flushed: Some(grown) }
        } else {
            SinkStep {
                sink: SinkModel { pending: grown, threshold: self.threshold },
                flushed: None,
            }
        }
    }

    /// End of input: flushes what is pending, if anything is.
    pub open spec fn finish(self) -> SinkStep {
        if self.pending.len() > 0 {
            SinkStep { sink: SinkModel::empty(self.threshold), flushed: Some(self.pending) }
        } else {
            SinkStep { sink: self, flushed: None }
        }
    }

    /// Pushes `docs` in order.
    pub open spec fn feed(self, docs: Seq<DocView>) -> SinkRun
        decreases docs.len(),
    {
        if docs.len() == 0 {
            SinkRun { sink: self, flushes: Seq::empty() }
        } else {
            let before = self.feed(docs.drop_last());
            let step = before.sink.push(docs.last());
            SinkRun {
                sink: step.sink,
                flushes: match step.flushed {
                    Some(batch) => before.flushes.push(batch),
                    None => before.flushes,
                },
            }
        }
    }

    /// Every batch that pushing `docs` and then ending the input flushes.
    pub open spec fn deliver(self, docs: Seq<DocView>) -> Seq<Seq<DocView>> {
        let run = self.feed(docs);
        match run.sink.finish().flushed {
            Some(batch) => run.flushes.push(batch),
            None => run.flushes,
        }
    }
}

/// `docs` cut into consecutive pieces of `size` documents; the last piece
/// holds what is left and is never empty.
pub open spec fn chunks(docs: Seq<DocView>, size: nat) -> Seq<Seq<DocView>>
    decreases docs.len(),
{
    if size == 0 || docs.len() == 0 {
        Seq::empty()
    } else if docs.len() <= size {
        seq![docs]
    } else {
        seq![docs.take(size as int)] + chunks(docs.skip(size as int), size)
    }
}

/// The views of `batches`, in order.
pub open spec fn batch_views(batches: Seq<Vec<DocJson>>) -> Seq<Seq<DocView>> {
    batches.map_values(|b: Vec<DocJson>| doc_views(b@))
}

/// Accumulates documents and hands them out in batches.
pub struct BatchSink {
    pending: Vec<DocJson>,
    threshold: usize,
}

impl View for BatchSink {
    type V = SinkModel;

    closed spec fn view(&self) -> SinkModel {
        SinkModel { pending: doc_views(self.pending@), threshold: self.threshold as nat }
    }
}

impl BatchSink {
    /// A sink that flushes once more than `threshold` documents are pending.
    pub fn new(threshold: usize) -> (sink: BatchSink)
        ensures
            sink@ == SinkModel::empty(threshold as nat),
    {
        let sink = BatchSink { pending: Vec::new(), threshold };
        assert(doc_views(sink.pending@) == Seq::<DocView>::empty());
        sink
    }

    /// The number of documents that wait for the next flush.
    pub fn pending_len(&self) -> (n: usize)
        ensures
            n == self@.pending.len(),
    {
        self.pending.len()
    }

    /// Accepts `doc`. Returns the batch to deliver when this push made one due.
    pub fn push(&mut self, doc: DocJson) -> (flushed: Option<Vec<DocJson>>)
        ensures
            final(self)@ == old(self)@.push(doc@).sink,
            match old(self)@.push(doc@).flushed {
                Some(batch) => flushed matches Some(b) && doc_views(b@) == batch,
                None => flushed is None,
            },
    {
        assert(doc_views(self.pending@.push(doc)) == doc_views(self.pending@).push(doc@));
        self.pending.push(doc);
        if self.pending.len() > self.threshold {
            let mut full: Vec<DocJson> = Vec::new();
            std::mem::swap(&mut self.pending, &mut full);
            assert(doc_views(self.pending@) == Seq::<DocView>::empty());
            Some(full)
        } else {
            None
        }
    }

    /// End of input. Returns the remaining documents as a last batch, if there are any.
    pub fn finish(&mut self) -> (flushed: Option<Vec<DocJson>>)
        ensures
            final(self)@ == old(self)@.finish().sink,
            match old(self)@.finish().flushed {
                Some(batch) => flushed matches Some(b) && doc_views(b@) == batch,
                None => flushed is None,
            },
    {
        if self.pending.len() > 0 {
            let mut rest: Vec<DocJson> = Vec::new();
            std::mem::swap(&mut self.pending, &mut rest);
            assert(doc_views(self.pending@) == Seq::<DocView>::empty());
            Some(rest)
        } else {
            None
        }
    }
}

/// What the extraction of one source hands to the sink's target.
pub struct Delivery {
    /// The batches to deliver, in order: one delivery operation each.
    pub batches: Vec<Vec<DocJson>>,
    /// The number of documents in all batches.
    pub count: usize,
}

/// Cuts `docs` into the batches that a sink with `threshold` delivers.
pub fn batch_documents(docs: Vec<DocJson>, threshold: usize) -> (batches: Vec<Vec<DocJson>>)
    ensures
        batch_views(batches@) == SinkModel::empty(threshold as nat).deliver(doc_views(docs@)),
{
    let ghost all = doc_views(docs@);
    let ghost start = SinkModel::empty(threshold as nat);
    let mut sink = BatchSink::new(threshold);
    let mut batches: Vec<Vec<DocJson>> = Vec::new();
    for doc in it: docs
        invariant
            it.seq() == docs@,
            all == doc_views(docs@),
            start == SinkModel::empty(threshold as nat),
            sink@ == start.feed(all.take(it.index())).sink,
            batch_views(batches@) == start.feed(all.take(it.index())).flushes,
    {
        proof {
            let next = all.take(it.index() + 1);
            assert(next.drop_last() == all.take(it.index()));
        }
        match sink.push(doc) {
            Some(batch) => {
                batches.push(batch);
            },
            None => {},
        }
    }
    assert(all.take(docs@.len() as int) == all);
    match sink.finish() {
        Some(batch) => {
            batches.push(batch);
        },
        None => {},
    }
    batches
}

/// What a run of pushes into an empty sink leaves: the flushed batches and
/// the pending documents together are the documents pushed, in order; every
/// flushed batch holds one document more than the threshold; no more than the
/// threshold are pending.
pub proof fn lemma_feed_shape(threshold: nat, docs: Seq<DocView>)
    ensures
        ({
            let run = SinkModel::empty(threshold).feed(docs);
            &&& run.flushes.flatten() + run.sink.pending == docs
            &&& run.sink.threshold == threshold
            &&& run.sink.pending.len() <= threshold
            &&& forall|i: int|
                0 <= i < run.flushes.len() ==> (#[trigger] run.flushes[i]).len() == threshold + 1
        }),
    decreases docs.len(),
{
    let start = SinkModel::empty(threshold);
    if docs.len() > 0 {
        lemma_feed_shape(threshold, docs.drop_last());
        let before = start.feed(docs.drop_last());
        if let Some(batch) = before.sink.push(docs.last()).flushed {
            assert(start.feed(docs).flushes == before.flushes + seq![batch]);
            lemma_flatten_concat(before.flushes, seq![batch]);
            seq![batch].lemma_flatten_one_element();
        }
        assert(docs.drop_last().push(docs.last()) == docs);
    }
}

/// A full piece in front of `rest` is the first chunk of the whole.
proof fn lemma_chunks_prepend(piece: Seq<DocView>, rest: Seq<DocView>, size: nat)
    requires
        size > 0,
        piece.len() == size,
    ensures
        chunks(piece + rest, size) == seq![piece] + chunks(rest, size),
{
    let all = piece + rest;
    if rest.len() > 0 {
        assert(all.take(size as int) == piece);
        assert(all.skip(size as int) == rest);
    }
}

/// Full batches followed by a remainder are the chunks of the whole.
proof fn lemma_chunks_after_full_batches(
    batches: Seq<Seq<DocView>>,
    tail: Seq<DocView>,
    size: nat,
)
    requires
        size > 0,
        forall|i: int| 0 <= i < batches.len() ==> (#[trigger] batches[i]).len() == size,
    ensures
        chunks(batches.flatten() + tail, size) == batches + chunks(tail, size),
    decreases batches.len(),
{
    if batches.len() > 0 {
        let rest = batches.drop_first();
        lemma_chunks_after_full_batches(rest, tail, size);
        lemma_chunks_prepend(batches.first(), rest.flatten() + tail, size);
        assert(batches.flatten() + tail == batches.first() + (rest.flatten() + tail));
    }
}

/// A sink that starts empty delivers its documents in order, in batches of
/// one more than the threshold, the last batch holding what is left.
pub proof fn sink_delivers_chunks(threshold: nat, docs: Seq<DocView>)
    ensures
        SinkModel::empty(threshold).deliver(docs) == chunks(docs, threshold + 1),
        SinkModel::empty(threshold).deliver(docs).flatten() == docs,
{
    lemma_feed_shape(threshold, docs);
    let run = SinkModel::empty(threshold).feed(docs);
    lemma_chunks_after_full_batches(run.flushes, run.sink.pending, threshold + 1);
    if run.sink.pending.len() > 0 {
        lemma_flatten_concat(run.flushes, seq![run.sink.pending]);
        seq![run.sink.pending].lemma_flatten_one_element();
    }
}

/// Pushing exactly one document more than the threshold flushes once, all of
/// them together, and leaves nothing pending; the end of input then flushes
/// nothing more.
pub proof fn full_batch_flushes_once(threshold: nat, docs: Seq<DocView>)
    requires
        docs.len() == threshold + 1,
    ensures
        SinkModel::empty(threshold).feed(docs).flushes == seq![docs],
        SinkModel::empty(threshold).feed(docs).sink == SinkModel::empty(threshold),
        SinkModel::empty(threshold).feed(docs).sink.finish().flushed is None,
        SinkModel::empty(threshold).deliver(docs) == seq![docs],
{
    lemma_feed_below_threshold(threshold, docs.drop_last());
    assert(docs.drop_last().push(docs.last()) == docs);
}

/// As long as no more than the threshold were pushed, nothing is flushed.
proof fn lemma_feed_below_threshold(threshold: nat, docs: Seq<DocView>)
    requires
        docs.len() <= threshold,
    ensures
        SinkModel::empty(threshold).feed(docs).flushes == Seq::<Seq<DocView>>::empty(),
        SinkModel::empty(threshold).feed(docs).sink == (SinkModel { pending: docs, threshold }),
    decreases docs.len(),
{
    if docs.len() > 0 {
        lemma_feed_below_threshold(threshold, docs.drop_last());
        assert(docs.drop_last().push(docs.last()) == docs);
    } else {
        assert(docs == Seq::<DocView>::empty());
    }
}

/// Without documents, the end of input flushes nothing.
pub proof fn no_documents_no_flush(threshold: nat)
    ensures
        SinkModel::empty(threshold).deliver(Seq::empty()) == Seq::<Seq<DocView>>::empty(),
{
}

} // verus!
