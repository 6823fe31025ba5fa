//! The bounded buffer and its flush protocol.
//!
//! Records are appended one by one. The append that brings the buffer to its
//! threshold hands the whole content out as one batch and leaves the buffer
//! empty; a final drain hands out what is left. So the buffer never holds
//! more than the threshold, and every record leaves it exactly once, in the
//! order in which it came.

use crate::record::PrimeRecord;
use vstd::arithmetic::div_mod::{lemma_fundamental_div_mod, lemma_fundamental_div_mod_converse};
use vstd::prelude::*;

verus! {

/// The threshold of a buffer made with [`BoundedBuffer::with_default_threshold`].
pub const FLUSH_THRESHOLD: usize = 10000;

/// What one append does: the batch that it flushes, if any, and what stays pending.
pub open spec fn append_step<A>(pending: Seq<A>, threshold: nat, item: A) -> (
    Option<Seq<A>>,
    Seq<A>,
) {
    let all = pending.push(item);
    if all.len() >= threshold {
        (Some(all), Seq::empty())
    } else {
        (None, all)
    }
}

/// What a drain does: it flushes what is pending, if anything is.
pub open spec fn drain_step<A>(pending: Seq<A>) -> Option<Seq<A>> {
    if pending.len() > 0 {
        Some(pending)
    } else {
        None
    }
}

/// What is pending after `items` were appended, in order, to an empty buffer.
pub open spec fn pending_after<A>(items: Seq<A>, threshold: nat) -> Seq<A>
    decreases items.len(),
{
    if items.len() == 0 {
        Seq::empty()
    } else {
        append_step(pending_after(items.drop_last(), threshold), threshold, items.last()).1
    }
}

/// The batches flushed, in order, while `items` were appended to an empty buffer.
pub open spec fn batches_after<A>(items: Seq<A>, threshold: nat) -> Seq<Seq<A>>
    decreases items.len(),
{
    if items.len() == 0 {
        Seq::empty()
    } else {
        let before = batches_after(items.drop_last(), threshold);
        match append_step(pending_after(items.drop_last(), threshold), threshold, items.last()).0 {
            Some(batch) => before.push(batch),
            None => before,
        }
    }
}

/// All the batches of a whole run: those flushed by the appends, then the
/// one of the final drain where anything was left.
pub open spec fn batches_of_run<A>(items: Seq<A>, threshold: nat) -> Seq<Seq<A>> {
    match drain_step(pending_after(items, threshold)) {
        Some(rest) => batches_after(items, threshold).push(rest),
        None => batches_after(items, threshold),
    }
}

/// Whatever the threshold, no item is lost or doubled: the batches flushed
/// so far, put together, and then the pending items are the items
/// appended, in order.
pub proof fn lemma_appends_keep_every_item<A>(items: Seq<A>, threshold: nat)
    ensures
        batches_after(items, threshold).flatten() + pending_after(items, threshold) == items,
    decreases items.len(),
{
    if items.len() == 0 {
        assert(batches_after(items, threshold).flatten() + pending_after(items, threshold)
            =~= items);
    } else {
        let head = items.drop_last();
        lemma_appends_keep_every_item(head, threshold);
        let before = batches_after(head, threshold);
        let pending = pending_after(head, threshold);
        let all = pending.push(items.last());
        assert(before.flatten() + all =~= items) by {
            assert(before.flatten() + pending == head);
            assert(head.push(items.last()) =~= items);
        }
        if all.len() >= threshold {
            before.lemma_flatten_push(all);
            assert(before.push(all).flatten() + Seq::<A>::empty() =~= items);
        }
    }
}

/// Whatever the threshold, the batches of a whole run, put together, are
/// the items appended, in order: each left the buffer exactly once.
pub proof fn lemma_run_keeps_every_item<A>(items: Seq<A>, threshold: nat)
    ensures
        batches_of_run(items, threshold).flatten() == items,
{
    lemma_appends_keep_every_item(items, threshold);
    let batches = batches_after(items, threshold);
    let pending = pending_after(items, threshold);
    if pending.len() > 0 {
        batches.lemma_flatten_push(pending);
    } else {
        assert(batches.flatten() + pending =~= batches.flatten());
    }
}

/// With a threshold `t` of at least 1, appending `k` items flushes
/// `k / t` batches of `t` items each and leaves `k % t` items pending.
pub proof fn lemma_appends_flush_full_batches<A>(items: Seq<A>, threshold: nat)
    requires
        threshold >= 1,
    ensures
        batches_after(items, threshold).len() == items.len() / threshold,
        pending_after(items, threshold).len() == items.len() % threshold,
        forall|i: int|
            0 <= i < batches_after(items, threshold).len() ==> (#[trigger] batches_after(
                items,
                threshold,
            )[i]).len() == threshold,
    decreases items.len(),
{
    let t = threshold as int;
    let k = items.len() as int;
    if items.len() == 0 {
        lemma_fundamental_div_mod_converse(0, t, 0, 0);
    } else {
        let head = items.drop_last();
        lemma_appends_flush_full_batches(head, threshold);
        let pending = pending_after(head, threshold);
        let all = pending.push(items.last());
        let q = (k - 1) / t;
        let r = (k - 1) % t;
        lemma_fundamental_div_mod(k - 1, t);
        if all.len() >= threshold {
            assert(k == (q + 1) * t + 0) by (nonlinear_arith)
                requires
                    k - 1 == t * q + r,
                    r + 1 == t,
            ;
            lemma_fundamental_div_mod_converse(k, t, q + 1, 0);
        } else {
            assert(k == q * t + (r + 1)) by (nonlinear_arith)
                requires
                    k - 1 == t * q + r,
            ;
            lemma_fundamental_div_mod_converse(k, t, q, r + 1);
        }
    }
}

/// After `k` appends at a threshold `t` of at least 1, the appends have
/// flushed `k / t` batches, and the drain flushes one more exactly when
/// `k % t` is not 0.
pub proof fn lemma_run_flush_count<A>(items: Seq<A>, threshold: nat)
    requires
        threshold >= 1,
    ensures
        batches_after(items, threshold).len() == items.len() / threshold,
        drain_step(pending_after(items, threshold)) is Some <==> items.len() % threshold != 0,
        batches_of_run(items, threshold).len() == items.len() / threshold + (if items.len()
            % threshold != 0 {
            1nat
        } else {
            0nat
        }),
{
    lemma_appends_flush_full_batches(items, threshold);
}

/// The order in which the items arrive, and the threshold, change the cut
/// of the batches and nothing else: two runs over the same items, in
/// whatever order, flush the same items, each as often as it was appended,
/// and so the same number of them.
pub proof fn lemma_arrival_order_keeps_content<A>(
    first: Seq<A>,
    first_threshold: nat,
    second: Seq<A>,
    second_threshold: nat,
)
    requires
        first.to_multiset() == second.to_multiset(),
    ensures
        batches_of_run(first, first_threshold).flatten().to_multiset() == batches_of_run(
            second,
            second_threshold,
        ).flatten().to_multiset(),
        batches_of_run(first, first_threshold).flatten().len() == batches_of_run(
            second,
            second_threshold,
        ).flatten().len(),
{
    lemma_run_keeps_every_item(first, first_threshold);
    lemma_run_keeps_every_item(second, second_threshold);
    first.to_multiset_ensures();
    second.to_multiset_ensures();
}

/// An ordered sequence of records with a capacity threshold.
pub struct BoundedBuffer {
    pending: Vec<PrimeRecord>,
    threshold: usize,
}

impl BoundedBuffer {
    /// The records that wait for the next flush, oldest first.
    pub closed spec fn records(&self) -> Seq<PrimeRecord> {
        self.pending@
    }

    /// The threshold that the buffer was made with.
    pub closed spec fn limit(&self) -> nat {
        self.threshold as nat
    }

    /// Between two calls the buffer is below its threshold, or empty.
    pub open spec fn wf(&self) -> bool {
        self.records().len() == 0 || self.records().len() < self.limit()
    }

    /// An empty buffer that flushes when it holds `threshold` records.
    /// With a threshold of 0 or 1 every append flushes.
    pub fn new(threshold: usize) -> (buffer: BoundedBuffer)
        ensures
            buffer.wf(),
            buffer.records() == Seq::<PrimeRecord>::empty(),
            buffer.limit() == threshold,
    {
        BoundedBuffer { pending: Vec::new(), threshold }
    }

    /// An empty buffer with the default threshold, [`FLUSH_THRESHOLD`].
    pub fn with_default_threshold() -> (buffer: BoundedBuffer)
        ensures
            buffer.wf(),
            buffer.records() == Seq::<PrimeRecord>::empty(),
            buffer.limit() == FLUSH_THRESHOLD,
    {
        BoundedBuffer::new(FLUSH_THRESHOLD)
    }

    /// The threshold of this buffer.
    pub fn threshold(&self) -> (t: usize)
        ensures
            t == self.limit(),
    {
        self.threshold
    }

    /// The number of records that wait for the next flush.
    pub fn len(&self) -> (n: usize)
        ensures
            n == self.records().len(),
    {
        self.pending.len()
    }

    /// Whether no record waits for the next flush.
    pub fn is_empty(&self) -> (empty: bool)
        ensures
            empty == (self.records().len() == 0),
    {
        self.pending.len() == 0
    }

    /// Appends a record. Where that brings the buffer to its threshold, the
    /// whole content, the new record last, is handed out as the batch to
    /// flush and the buffer is left empty.
    pub fn append(&mut self, record: PrimeRecord) -> (flushed: Option<Vec<PrimeRecord>>)
        requires
            old(self).wf(),
        ensures
            final(self).wf(),
            final(self).limit() == old(self).limit(),
            final(self).records() == append_step(
                old(self).records(),
                old(self).limit(),
                record,
            ).1,
            match append_step(old(self).records(), old(self).limit(), record).0 {
                Some(batch) => flushed is Some && flushed.unwrap()@ == batch,
                None => flushed is None,
            },
    {
        self.pending.push(record);
        if self.pending.len() >= self.threshold {
            let mut batch: Vec<PrimeRecord> = Vec::new();
            std::mem::swap(&mut self.pending, &mut batch);
            Some(batch)
        } else {
            None
        }
    }

    /// Hands out whatever is left as the last batch, and leaves the buffer
    /// empty. Nothing is handed out where nothing was left.
    pub fn drain(&mut self) -> (flushed: Option<Vec<PrimeRecord>>)
        ensures
            final(self).wf(),
            final(self).limit() == old(self).limit(),
            final(self).records() == Seq::<PrimeRecord>::empty(),
            match drain_step(old(self).records()) {
                Some(batch) => flushed is Some && flushed.unwrap()@ == batch,
                None => flushed is None,
            },
    {
        if self.pending.len() == 0 {
            None
        } else {
            let mut batch: Vec<PrimeRecord> = Vec::new();
            std::mem::swap(&mut self.pending, &mut batch);
            Some(batch)
        }
    }
}

} // verus!
