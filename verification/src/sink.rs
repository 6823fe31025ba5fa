//! The text of the output table.
//!
//! The table is append-only text: a header row, written once where the
//! destination did not exist before, and one row per record. This module
//! computes the text to append; opening the destination and writing to it is
//! left to the caller.

use crate::record::{header_row, header_text, row_text, PrimeRecord};
use vstd::prelude::*;
use vstd::string::*;

verus! {

/// The rows of `records`, in order.
pub open spec fn rows_text(records: Seq<PrimeRecord>) -> Seq<char>
    decreases records.len(),
{
    if records.len() == 0 {
        Seq::empty()
    } else {
        rows_text(records.drop_last()) + row_text(records.last()@)
    }
}

/// The text that one write appends: the rows of `records`, after the header
/// row where that is due and there is any row to write.
pub open spec fn table_text(header_due: bool, records: Seq<PrimeRecord>) -> Seq<char> {
    if header_due && records.len() > 0 {
        header_text() + rows_text(records)
    } else {
        rows_text(records)
    }
}

/// Whether the header row is still due after a write of `records`.
pub open spec fn header_due_after(header_due: bool, records: Seq<PrimeRecord>) -> bool {
    header_due && records.len() == 0
}

/// The text that a sink appends over a run of batches, written one by one.
pub open spec fn batches_text(header_due: bool, batches: Seq<Seq<PrimeRecord>>) -> Seq<char>
    decreases batches.len(),
{
    if batches.len() == 0 {
        Seq::empty()
    } else {
        batches_text(header_due, batches.drop_last()) + table_text(
            header_due_after_all(header_due, batches.drop_last()),
            batches.last(),
        )
    }
}

/// Whether the header row is still due after a run of batches.
pub open spec fn header_due_after_all(header_due: bool, batches: Seq<Seq<PrimeRecord>>) -> bool
    decreases batches.len(),
{
    if batches.len() == 0 {
        header_due
    } else {
        header_due_after(header_due_after_all(header_due, batches.drop_last()), batches.last())
    }
}

/// The rows of two runs of records, one after the other, are the rows of
/// the two runs put together: appending never changes what was written.
pub proof fn lemma_rows_text_concat(first: Seq<PrimeRecord>, second: Seq<PrimeRecord>)
    ensures
        rows_text(first + second) == rows_text(first) + rows_text(second),
    decreases second.len(),
{
    if second.len() == 0 {
        assert(first + second =~= first);
        assert(rows_text(first) + rows_text(second) =~= rows_text(first));
    } else {
        lemma_rows_text_concat(first, second.drop_last());
        assert((first + second).drop_last() =~= first + second.drop_last());
        assert((first + second).last() == second.last());
        assert(rows_text(first + second) =~= rows_text(first) + rows_text(second));
    }
}

/// Writing batch by batch gives the text of one write of all the records:
/// the header row comes once, before the first row, where it was due, and
/// never again.
pub proof fn lemma_batches_text_is_table_text(header_due: bool, batches: Seq<Seq<PrimeRecord>>)
    ensures
        batches_text(header_due, batches) == table_text(header_due, batches.flatten()),
        header_due_after_all(header_due, batches) == header_due_after(
            header_due,
            batches.flatten(),
        ),
    decreases batches.len(),
{
    if batches.len() == 0 {
        assert(batches.flatten() =~= Seq::<PrimeRecord>::empty());
    } else {
        let head = batches.drop_last();
        let last = batches.last();
        lemma_batches_text_is_table_text(header_due, head);
        head.lemma_flatten_push(last);
        assert(head.push(last) =~= batches);
        lemma_rows_text_concat(head.flatten(), last);
        if head.flatten().len() == 0 {
            assert(head.flatten() + last =~= last);
            assert(rows_text(head.flatten()) + table_text(header_due, last) =~= table_text(
                header_due,
                last,
            ));
        } else {
            assert(batches_text(header_due, batches) =~= table_text(
                header_due,
                batches.flatten(),
            ));
        }
    }
}

/// The text to append for `data`: its rows, after the header row where
/// `header_due` says so and `data` is not empty.
pub fn write_to_csv(data: &Vec<PrimeRecord>, header_due: bool) -> (text: String)
    ensures
        text@ == table_text(header_due, data@),
{
    let mut text = if header_due && data.len() > 0 {
        header_row()
    } else {
        String::new()
    };
    let ghost prefix = text@;
    let mut i: usize = 0;
    assert(data@.take(0) =~= Seq::<PrimeRecord>::empty());
    while i < data.len()
        invariant
            i <= data.len(),
            text@ == prefix + rows_text(data@.take(i as int)),
        decreases data.len() - i,
    {
        let row = data[i].to_row();
        text.append(row.as_str());
        proof {
            let next = data@.take(i + 1);
            assert(next.drop_last() =~= data@.take(i as int));
            assert(next.last() == data@[i as int]);
            assert(text@ =~= prefix + rows_text(next));
        }
        i = i + 1;
    }
    assert(data@.take(data.len() as int) =~= data@);
    assert(Seq::<char>::empty() + rows_text(data@) =~= rows_text(data@));
    text
}

/// The text to append for the batch in `temp_storage`, which is cleared.
pub fn flush_to_csv(temp_storage: &mut Vec<PrimeRecord>, header_due: bool) -> (text: String)
    ensures
        text@ == table_text(header_due, old(temp_storage)@),
        final(temp_storage)@ == Seq::<PrimeRecord>::empty(),
{
    let text = write_to_csv(temp_storage, header_due);
    temp_storage.clear();
    text
}

/// The state of the destination that a run of writes needs: whether the
/// header row is still due.
pub struct CsvSink {
    header_due: bool,
}

impl CsvSink {
    /// Whether the next write that has any row starts with the header row.
    pub closed spec fn header_due(&self) -> bool {
        self.header_due
    }

    /// The sink for a destination that existed before, or did not.
    pub fn new(existed: bool) -> (sink: CsvSink)
        ensures
            sink.header_due() == !existed,
    {
        CsvSink { header_due: !existed }
    }

    /// The text to append for one batch, which is cleared. After a batch
    /// with any row the header row is no longer due.
    pub fn flush(&mut self, batch: &mut Vec<PrimeRecord>) -> (text: String)
        ensures
            text@ == table_text(old(self).header_due(), old(batch)@),
            final(self).header_due() == header_due_after(old(self).header_due(), old(batch)@),
            final(batch)@ == Seq::<PrimeRecord>::empty(),
    {
        let wrote = batch.len() > 0;
        let text = flush_to_csv(batch, self.header_due);
        if wrote {
            self.header_due = false;
        }
        text
    }
}

} // verus!
