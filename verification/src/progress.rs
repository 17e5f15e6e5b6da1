//! The progress protocol: how the worker counts what it has moved, and
//! how the host reads the worker's output, line by line, and what it makes
//! of the records that the lines carry.

use vstd::prelude::*;
use crate::wire::{decode_progress, record_in};

verus! {

/// A record of progress: `progress` bytes out of `total` are done.
#[derive(Clone, Copy, PartialEq, Eq, Structural, Debug)]
pub struct Progress {
    pub progress: u64,
    pub total: u64,
}

/// The smaller of two numbers.
pub open spec fn least(a: int, b: int) -> int {
    if a <= b {
        a
    } else {
        b
    }
}

/// The sum of the sizes of `chunks`.
pub open spec fn sum(chunks: Seq<u64>) -> int
    decreases chunks.len(),
{
    if chunks.len() == 0 {
        0
    } else {
        sum(chunks.drop_last()) + chunks.last()
    }
}

/// The records that the worker emits while it moves `chunks`: one after
/// each chunk.
pub open spec fn records(total: u64, chunks: Seq<u64>) -> Seq<Progress> {
    records_from(Progress { progress: 0, total }, chunks)
}

/// The records that a worker which has come as far as `start` emits
/// while it moves `chunks`: one after each chunk.
pub open spec fn records_from(start: Progress, chunks: Seq<u64>) -> Seq<Progress> {
    Seq::new(
        chunks.len(),
        |i: int|
            Progress {
                progress: least(start.progress + sum(chunks.take(i + 1)), start.total as int) as u64,
                total: start.total,
            },
    )
}

/// The worker's count of what it has moved, out of a total known from
/// the start.
#[derive(Debug)]
pub struct ProgressReporter {
    total_size: u64,
    progress: u64,
}

impl ProgressReporter {
    #[verifier::type_invariant]
    spec fn counted_within_total(self) -> bool {
        self.progress <= self.total_size
    }

    /// The record that stands for the count as it is.
    pub closed spec fn current(self) -> Progress {
        Progress { progress: self.progress, total: self.total_size }
    }

    /// A count of nothing out of `total_size`.
    pub fn new(total_size: u64) -> (reporter: ProgressReporter)
        ensures
            reporter.current() == (Progress { progress: 0, total: total_size }),
    {
        ProgressReporter { total_size, progress: 0 }
    }

    /// The count as it is.
    pub fn record(&self) -> (record: Progress)
        ensures
            record == self.current(),
            record.progress <= record.total,
    {
        proof {
            use_type_invariant(self);
        }
        Progress { progress: self.progress, total: self.total_size }
    }

    /// Counts a chunk of `bytes` and gives the record to emit: the count
    /// grows by the chunk, and stops at the total.
    pub fn advance(&mut self, bytes: u64) -> (record: Progress)
        ensures
            record == final(self).current(),
            record.total == old(self).current().total,
            record.progress == least(old(self).current().progress + bytes, record.total as int),
    {
        proof {
            use_type_invariant(&*self);
        }
        if bytes >= self.total_size - self.progress {
            self.progress = self.total_size;
        } else {
            self.progress = self.progress + bytes;
        }
        Progress { progress: self.progress, total: self.total_size }
    }

    /// Counts `chunks` one after the other, as they come in, and gives
    /// the records to emit, one for each chunk.
    pub fn listen(self, chunks: &Vec<u64>) -> (emitted: Vec<Progress>)
        ensures
            emitted@ == records_from(self.current(), chunks@),
    {
        let mut reporter = self;
        let ghost start = self.current();
        let mut emitted: Vec<Progress> = Vec::new();
        let mut i: usize = 0;
        proof {
            use_type_invariant(&reporter);
        }
        while i < chunks.len()
            invariant
                i <= chunks.len(),
                start.progress <= start.total,
                reporter.current().total == start.total,
                reporter.current().progress == least(
                    start.progress + sum(chunks@.take(i as int)),
                    start.total as int,
                ),
                emitted@ == records_from(start, chunks@.take(i as int)),
            decreases chunks.len() - i,
        {
            proof {
                assert(chunks@.take(i + 1).drop_last() == chunks@.take(i as int));
                lemma_sum_is_natural(chunks@.take(i as int));
            }
            let record = reporter.advance(chunks[i]);
            emitted.push(record);
            i += 1;
            proof {
                let before = chunks@.take(i - 1);
                let now = chunks@.take(i as int);
                assert forall|k: int| 0 <= k < i implies emitted@[k] == records_from(start, now)[k] by {
                    if k < i - 1 {
                        assert(before.take(k + 1) == now.take(k + 1));
                    } else {
                        assert(now.take(k + 1) == now);
                    }
                }
            }
        }
        proof {
            assert(chunks@.take(chunks.len() as int) == chunks@);
        }
        emitted
    }
}

/// A sum of sizes is not negative.
pub proof fn lemma_sum_is_natural(chunks: Seq<u64>)
    ensures
        sum(chunks) >= 0,
    decreases chunks.len(),
{
    if chunks.len() > 0 {
        lemma_sum_is_natural(chunks.drop_last());
    }
}

/// The sum of the first chunks is no more than the sum of all of them.
pub proof fn lemma_sum_grows(chunks: Seq<u64>, k: int)
    requires
        0 <= k <= chunks.len(),
    ensures
        sum(chunks.take(k)) <= sum(chunks),
    decreases chunks.len() - k,
{
    if k < chunks.len() {
        lemma_sum_grows(chunks, k + 1);
        assert(chunks.take(k + 1).drop_last() == chunks.take(k));
    } else {
        assert(chunks.take(k) == chunks);
    }
}

/// Progress never goes back and never passes the total. Among the
/// records emitted while chunks are moved, each carries the total, none
/// counts more than the total, and none counts less than one before it.
pub proof fn lemma_progress_is_monotonic(total: u64, chunks: Seq<u64>, i: int, j: int)
    requires
        0 <= i <= j < chunks.len(),
    ensures
        records(total, chunks)[j].total == total,
        records(total, chunks)[j].progress <= total,
        records(total, chunks)[i].progress <= records(total, chunks)[j].progress,
{
    let upto_j = chunks.take(j + 1);
    lemma_sum_is_natural(chunks.take(i + 1));
    lemma_sum_is_natural(upto_j);
    lemma_sum_grows(upto_j, i + 1);
    assert(upto_j.take(i + 1) == chunks.take(i + 1));
}

/// Progress ends at the total. When the chunks moved make up the total
/// or more, the last record emitted counts exactly the total.
pub proof fn lemma_progress_completes(total: u64, chunks: Seq<u64>)
    requires
        chunks.len() > 0,
        sum(chunks) >= total,
    ensures
        records(total, chunks).last().progress == total,
{
    assert(chunks.take(chunks.len() as int) == chunks);
}

/// The records of work that ended well: one after each chunk, and then
/// the one that counts the whole total.
pub open spec fn records_of_success(total: u64, chunks: Seq<u64>) -> Seq<Progress> {
    records(total, chunks).push(Progress { progress: total, total })
}

/// Work that ends well is told to the end. Whatever the chunks were,
/// the records of work that ended well never go back, none counts more
/// than the total, each carries the total, and the last counts exactly
/// the total.
pub proof fn lemma_success_completes(total: u64, chunks: Seq<u64>, i: int, j: int)
    requires
        0 <= i <= j <= chunks.len(),
    ensures
        records_of_success(total, chunks).len() == chunks.len() + 1,
        records_of_success(total, chunks)[j].total == total,
        records_of_success(total, chunks)[j].progress <= total,
        records_of_success(total, chunks)[i].progress <= records_of_success(total, chunks)[j].progress,
        records_of_success(total, chunks).last().progress == total,
{
    if j < chunks.len() {
        lemma_progress_is_monotonic(total, chunks, i, j);
    } else if i < chunks.len() {
        lemma_progress_is_monotonic(total, chunks, i, i);
    }
}

/// What the host does to its indicator on a message from the worker.
#[derive(Clone, Copy, PartialEq, Eq, Structural, Debug)]
pub struct BarUpdate {
    /// The length to give the indicator, when it is to change.
    pub length: Option<u64>,
    /// The position to move the indicator to, when it is to move.
    pub position: Option<u64>,
    /// Whether the indicator is to be finished.
    pub finish: bool,
}

/// What the host does to an indicator of length `bar_length` on the
/// record that a message carried, or on none when it carried none: a
/// record moves the indicator to its count, sets a length that differs
/// from its total, and finishes the indicator when the count has reached
/// the total; without a record nothing is done.
pub open spec fn update_for(bar_length: Option<u64>, record: Option<Progress>) -> BarUpdate {
    match record {
        Some(p) => BarUpdate {
            length: if bar_length is Some && bar_length != Some(p.total) {
                Some(p.total)
            } else {
                None
            },
            position: Some(p.progress),
            finish: p.progress == p.total,
        },
        None => BarUpdate { length: None, position: None, finish: false },
    }
}

/// What the host does to an indicator of length `bar_length` on
/// `record`.
pub fn apply_progress(bar_length: Option<u64>, record: Option<Progress>) -> (update: BarUpdate)
    ensures
        update == update_for(bar_length, record),
{
    match record {
        Some(p) => {
            let length = match bar_length {
                Some(len) => if len != p.total {
                    Some(p.total)
                } else {
                    None
                },
                None => None,
            };
            BarUpdate { length, position: Some(p.progress), finish: p.progress == p.total }
        },
        None => BarUpdate { length: None, position: None, finish: false },
    }
}

/// The byte that ends a line.
pub const LINE_FEED: u8 = 0x0a;

/// What follows the last line feed of `bytes`: the line that is not
/// finished yet. All of `bytes` when they hold no line feed.
pub open spec fn unfinished(bytes: Seq<u8>) -> Seq<u8>
    decreases bytes.len(),
{
    if bytes.len() == 0 || bytes.last() == LINE_FEED {
        Seq::empty()
    } else {
        unfinished(bytes.drop_last()).push(bytes.last())
    }
}

/// The complete lines of `bytes`, in order: what stands before each line
/// feed, from the line feed before it or from the start, without the
/// line feed itself.
pub open spec fn complete_lines(bytes: Seq<u8>) -> Seq<Seq<u8>>
    decreases bytes.len(),
{
    if bytes.len() == 0 {
        Seq::empty()
    } else if bytes.last() == LINE_FEED {
        complete_lines(bytes.drop_last()).push(unfinished(bytes.drop_last()))
    } else {
        complete_lines(bytes.drop_last())
    }
}

/// The lines of a message that is read on its own: its complete lines
/// and, as one more line, what follows its last line feed.
pub open spec fn lines_of(message: Seq<u8>) -> Seq<Seq<u8>> {
    complete_lines(message.push(LINE_FEED))
}

/// The last record among those that `lines` carry, if any carries one.
pub open spec fn last_record(lines: Seq<Seq<u8>>) -> Option<Progress>
    decreases lines.len(),
{
    if lines.len() == 0 {
        None
    } else if record_in(lines.last()) is Some {
        record_in(lines.last())
    } else {
        last_record(lines.drop_last())
    }
}

/// The bytes of each of `lines`.
pub open spec fn line_views(lines: Seq<Vec<u8>>) -> Seq<Seq<u8>> {
    Seq::new(lines.len(), |i: int| lines[i]@)
}

/// Parts `bytes` at its line feeds: the complete lines, and what follows
/// the last line feed.
pub fn split_lines(bytes: &[u8]) -> (parts: (Vec<Vec<u8>>, Vec<u8>))
    ensures
        line_views(parts.0@) == complete_lines(bytes@),
        parts.1@ == unfinished(bytes@),
{
    let mut lines: Vec<Vec<u8>> = Vec::new();
    let mut rest: Vec<u8> = Vec::new();
    let mut i: usize = 0;
    while i < bytes.len()
        invariant
            i <= bytes.len(),
            line_views(lines@) == complete_lines(bytes@.take(i as int)),
            rest@ == unfinished(bytes@.take(i as int)),
        decreases bytes.len() - i,
    {
        proof {
            assert(bytes@.take(i + 1).drop_last() == bytes@.take(i as int));
        }
        if bytes[i] == LINE_FEED {
            lines.push(rest);
            rest = Vec::new();
        } else {
            rest.push(bytes[i]);
        }
        i += 1;
    }
    proof {
        assert(bytes@.take(bytes.len() as int) == bytes@);
    }
    (lines, rest)
}

/// The last record among those that `lines` carry.
pub fn last_record_among(lines: &Vec<Vec<u8>>) -> (found: Option<Progress>)
    ensures
        found == last_record(line_views(lines@)),
{
    let ghost all = line_views(lines@);
    let mut found: Option<Progress> = None;
    let mut i: usize = 0;
    while i < lines.len()
        invariant
            i <= lines.len(),
            all == line_views(lines@),
            found == last_record(all.take(i as int)),
        decreases lines.len() - i,
    {
        proof {
            assert(all.take(i + 1).drop_last() == all.take(i as int));
        }
        let record = decode_progress(lines[i].as_slice());
        if record.is_some() {
            found = record;
        }
        i += 1;
    }
    proof {
        assert(all.take(lines.len() as int) == all);
    }
    found
}

fn push_bytes(out: &mut Vec<u8>, bytes: &[u8])
    ensures
        final(out)@ == old(out)@ + bytes@,
{
    let mut i: usize = 0;
    while i < bytes.len()
        invariant
            i <= bytes.len(),
            out@ == old(out)@ + bytes@.take(i as int),
        decreases bytes.len() - i,
    {
        out.push(bytes[i]);
        i += 1;
    }
}

/// What the host does to an indicator of length `bar_length` on a
/// message from the worker's output that is read on its own. The
/// message is read line by line, and the last record among its lines
/// counts; lines that carry no record are passed over.
pub fn handle_progress(message: &[u8], bar_length: Option<u64>) -> (update: BarUpdate)
    ensures
        update == update_for(bar_length, last_record(lines_of(message@))),
{
    let mut all: Vec<u8> = Vec::new();
    push_bytes(&mut all, message);
    all.push(LINE_FEED);
    let (lines, _) = split_lines(all.as_slice());
    apply_progress(bar_length, last_record_among(&lines))
}

/// The host's reading of the worker's output, message by message. It
/// keeps the line that the last message left unfinished, and remembers
/// the last record that it has read.
#[derive(Debug)]
pub struct ProgressConsumer {
    /// The bytes of the line that is not finished yet.
    pub pending: Vec<u8>,
    /// The last record read, if any was.
    pub last: Option<Progress>,
}

impl ProgressConsumer {
    /// A reading that has read nothing.
    pub fn new() -> (consumer: ProgressConsumer)
        ensures
            consumer.pending@ == Seq::<u8>::empty(),
            consumer.last is None,
    {
        ProgressConsumer { pending: Vec::new(), last: None }
    }

    /// Reads a message and tells what to do to an indicator of length
    /// `bar_length`. The message continues the line that was left
    /// unfinished. Every line that it completes is read, and the last
    /// record among those lines counts; what follows its last line feed
    /// is kept for the next message.
    pub fn consume(&mut self, message: &[u8], bar_length: Option<u64>) -> (update: BarUpdate)
        ensures
            final(self).pending@ == unfinished(old(self).pending@ + message@),
            final(self).last == match last_record(complete_lines(old(self).pending@ + message@)) {
                Some(p) => Some(p),
                None => old(self).last,
            },
            update == update_for(bar_length, last_record(complete_lines(old(self).pending@ + message@))),
    {
        let mut all: Vec<u8> = Vec::new();
        all.append(&mut self.pending);
        push_bytes(&mut all, message);
        let (lines, rest) = split_lines(all.as_slice());
        let found = last_record_among(&lines);
        self.pending = rest;
        if found.is_some() {
            self.last = found;
        }
        apply_progress(bar_length, found)
    }

    /// Reads what the output left unfinished when it ended: the end of
    /// the output ends the last line. Tells what to do to an indicator
    /// of length `bar_length`.
    pub fn end_of_output(&mut self, bar_length: Option<u64>) -> (update: BarUpdate)
        ensures
            final(self).pending@ == Seq::<u8>::empty(),
            final(self).last == match record_in(old(self).pending@) {
                Some(p) => Some(p),
                None => old(self).last,
            },
            update == update_for(bar_length, record_in(old(self).pending@)),
    {
        let found = decode_progress(self.pending.as_slice());
        self.pending = Vec::new();
        if found.is_some() {
            self.last = found;
        }
        apply_progress(bar_length, found)
    }

    /// Whether the worker has told that it is done: whether the last
    /// record read counts its whole total. When the output ends without
    /// that, the work is not known to be complete.
    pub fn is_complete(&self) -> (complete: bool)
        ensures
            complete == (self.last matches Some(p) && p.progress == p.total),
    {
        match self.last {
            Some(p) => p.progress == p.total,
            None => false,
        }
    }
}

/// An unfinished line holds no line feed: it has no complete line, and
/// all of it is unfinished.
pub proof fn lemma_unfinished_is_one_line(bytes: Seq<u8>)
    ensures
        complete_lines(unfinished(bytes)) == Seq::<Seq<u8>>::empty(),
        unfinished(unfinished(bytes)) == unfinished(bytes),
    decreases bytes.len(),
{
    if bytes.len() > 0 && bytes.last() != LINE_FEED {
        lemma_unfinished_is_one_line(bytes.drop_last());
        assert(unfinished(bytes).drop_last() == unfinished(bytes.drop_last()));
    }
}

/// It does not matter where the output is cut into messages. The lines
/// read from `before` and then from `after`, with what `before` left
/// unfinished carried over, are the lines of the two read as one; and the
/// same line is left unfinished.
pub proof fn lemma_lines_of_a_stream(before: Seq<u8>, after: Seq<u8>)
    ensures
        complete_lines(before + after) == complete_lines(before) + complete_lines(unfinished(before) + after),
        unfinished(before + after) == unfinished(unfinished(before) + after),
    decreases after.len(),
{
    if after.len() == 0 {
        lemma_unfinished_is_one_line(before);
    } else {
        lemma_lines_of_a_stream(before, after.drop_last());
        assert((before + after).drop_last() == before + after.drop_last());
        assert((unfinished(before) + after).drop_last() == unfinished(before) + after.drop_last());
    }
}

} // verus!
