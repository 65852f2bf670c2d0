//! The change chunker: a lazy, bounded-size splitter that converts the change
//! cursor of one committed version into a stream of broadcast-ready frames
//! covering contiguous sequence ranges.

use vstd::prelude::*;

use crate::change::Change;

verus! {

/// The closed range of sequence numbers that one frame covers.
#[derive(Clone, Copy, Debug, PartialEq, Eq, Structural)]
pub struct SeqRange {
    pub start: i64,
    pub end: i64,
}

impl SeqRange {
    pub fn new(start: i64, end: i64) -> (r: SeqRange)
        ensures
            r.start == start,
            r.end == end,
    {
        SeqRange { start, end }
    }
}

/// The error with which the underlying change cursor failed; it is yielded
/// verbatim and terminates the chunker.
#[derive(Clone, Debug, PartialEq, Eq)]
pub struct ChangeReadError {
    pub message: String,
}

/// One item of a chunker's ideal output: a frame of change records covering
/// the closed sequence range `start..=end`, or the verbatim cursor error.
pub enum ChunkOut {
    Frame { changes: Seq<Change>, start: int, end: int },
    Failed { error: ChangeReadError },
}

/// The whole sequence that a chunker in the given state will still yield.
///
/// `input` is the unconsumed cursor, `buf` the records buffered for the frame
/// being assembled, `start` that frame's range start, `last` the greatest
/// sequence number of the version, and `n` the chunk size.
pub open spec fn chunks_from(
    input: Seq<Result<Change, ChangeReadError>>,
    buf: Seq<Change>,
    start: int,
    last: int,
    n: int,
) -> Seq<ChunkOut>
    decreases input.len(),
{
    if input.len() == 0 {
        seq![ChunkOut::Frame { changes: buf, start: start, end: last }]
    } else {
        match input[0] {
            Result::Err(e) => seq![ChunkOut::Failed { error: e }],
            Result::Ok(c) => {
                if c.seq == last {
                    seq![ChunkOut::Frame { changes: buf.push(c), start: start, end: last }]
                } else if buf.len() + 1 >= n {
                    seq![ChunkOut::Frame { changes: buf.push(c), start: start, end: c.seq as int }]
                        + chunks_from(input.skip(1), Seq::empty(), c.seq + 1, last, n)
                } else {
                    chunks_from(input.skip(1), buf.push(c), start, last, n)
                }
            },
        }
    }
}

/// Every sequence number in the cursor leaves room for a successor, so that
/// the start of a follow-on range always fits in its type.
pub open spec fn seqs_have_successor(items: Seq<Result<Change, ChangeReadError>>) -> bool {
    forall|i: int|
        0 <= i < items.len() ==> ((#[trigger] items[i]) matches Ok(c) ==> c.seq < i64::MAX)
}

proof fn lemma_seqs_have_successor_skip(items: Seq<Result<Change, ChangeReadError>>)
    requires
        seqs_have_successor(items),
        items.len() > 0,
    ensures
        seqs_have_successor(items.skip(1)),
{
    assert forall|i: int|
        0 <= i < items.skip(1).len() implies ((#[trigger] items.skip(1)[i]) matches Ok(c)
        ==> c.seq < i64::MAX) by {
        assert(items.skip(1)[i] == items[i + 1]);
    }
}

/// Relates one yielded item of the executable chunker to one item of the
/// ideal output.
pub open spec fn out_matches(
    item: Result<(Vec<Change>, SeqRange), ChangeReadError>,
    out: ChunkOut,
) -> bool {
    match item {
        Result::Ok((frame, range)) => {
            &&& out matches ChunkOut::Frame { changes, start, end }
            &&& frame@ == changes
            &&& range.start as int == start
            &&& range.end as int == end
        },
        Result::Err(e) => {
            &&& out matches ChunkOut::Failed { error }
            &&& e == error
        },
    }
}

/// The concatenation, in order, of the records carried by the frames of an
/// ideal output.
pub open spec fn frames_concat(out: Seq<ChunkOut>) -> Seq<Change>
    decreases out.len(),
{
    if out.len() == 0 {
        Seq::empty()
    } else {
        (match out[0] {
            ChunkOut::Frame { changes, .. } => changes,
            ChunkOut::Failed { .. } => Seq::<Change>::empty(),
        }) + frames_concat(out.skip(1))
    }
}

/// The change records carried by a cursor, in cursor order, errors left out.
pub open spec fn record_seq(input: Seq<Result<Change, ChangeReadError>>) -> Seq<Change>
    decreases input.len(),
{
    if input.len() == 0 {
        Seq::empty()
    } else {
        (match input[0] {
            Result::Ok(c) => seq![c],
            Result::Err(_) => Seq::<Change>::empty(),
        }) + record_seq(input.skip(1))
    }
}

proof fn lemma_chunks_from_shape(
    input: Seq<Result<Change, ChangeReadError>>,
    buf: Seq<Change>,
    start: int,
    last: int,
    n: int,
)
    ensures
        ({
            let out = chunks_from(input, buf, start, last, n);
            &&& out.len() >= 1
            &&& (forall|i: int| 0 <= i < out.len() - 1 ==> #[trigger] out[i] is Frame)
            &&& (out.last() is Frame ==> out.last()->end == last)
            &&& (out[0] is Frame ==> out[0]->start == start)
        }),
    decreases input.len(),
{
    let out = chunks_from(input, buf, start, last, n);
    if input.len() == 0 {
    } else {
        match input[0] {
            Result::Err(_) => {},
            Result::Ok(c) => {
                if c.seq == last {
                } else if buf.len() + 1 >= n {
                    let head = seq![
                        ChunkOut::Frame { changes: buf.push(c), start: start, end: c.seq as int },
                    ];
                    let rest = chunks_from(input.skip(1), Seq::empty(), c.seq + 1, last, n);
                    lemma_chunks_from_shape(input.skip(1), Seq::empty(), c.seq + 1, last, n);
                    assert(out == head + rest);
                    assert(out.last() == rest.last());
                    assert forall|i: int| 0 <= i < out.len() - 1 implies #[trigger] out[i]
                        is Frame by {
                        if i >= 1 {
                            assert(out[i] == rest[i - 1]);
                        }
                    }
                } else {
                    lemma_chunks_from_shape(input.skip(1), buf.push(c), start, last, n);
                }
            },
        }
    }
}

/// For every chunker input with `last >= start`, the sequence of yielded
/// items is non-empty, everything before the terminal item is a frame, and
/// the terminal item, unless it is the cursor's error, is a frame whose
/// range ends at `last`. The first frame's range starts at `start`.
pub proof fn lemma_chunker_yields_coverage(
    input: Seq<Result<Change, ChangeReadError>>,
    start: int,
    last: int,
    n: int,
)
    requires
        start <= last,
    ensures
        ({
            let out = chunks_from(input, Seq::<Change>::empty(), start, last, n);
            &&& out.len() >= 1
            &&& (forall|i: int| 0 <= i < out.len() - 1 ==> #[trigger] out[i] is Frame)
            &&& (out.last() is Frame ==> out.last()->end == last)
            &&& (out[0] is Frame ==> out[0]->start == start)
        }),
{
    lemma_chunks_from_shape(input, Seq::<Change>::empty(), start, last, n);
}

/// The cursor row at index `i` is an error-free record whose sequence number
/// is `first_seq + i`.
pub open spec fn dense_at(
    input: Seq<Result<Change, ChangeReadError>>,
    first_seq: int,
    i: int,
) -> bool {
    input[i] matches Ok(c) && c.seq == first_seq + i
}

proof fn lemma_dense_chunks(
    input: Seq<Result<Change, ChangeReadError>>,
    buf: Seq<Change>,
    start: int,
    first_seq: int,
    last: int,
    n: int,
)
    requires
        n >= 1,
        input.len() == last + 1 - first_seq,
        first_seq <= last + 1,
        forall|i: int| 0 <= i < input.len() ==> #[trigger] dense_at(input, first_seq, i),
    ensures
        ({
            let out = chunks_from(input, buf, start, last, n);
            &&& (forall|i: int| 0 <= i < out.len() ==> #[trigger] out[i] is Frame)
            &&& frames_concat(out) == buf + record_seq(input)
            &&& out[0]->start == start
            &&& out.last()->end == last
            &&& (forall|i: int| 1 <= i < out.len() ==> #[trigger] out[i]->start == out[i - 1]->end + 1)
        }),
    decreases input.len(),
{
    let out = chunks_from(input, buf, start, last, n);
    if input.len() == 0 {
        assert(out == seq![ChunkOut::Frame { changes: buf, start: start, end: last }]);
        assert(out.skip(1) =~= Seq::<ChunkOut>::empty());
        assert(frames_concat(Seq::<ChunkOut>::empty()) == Seq::<Change>::empty());
        assert(record_seq(input) == Seq::<Change>::empty());
        assert(frames_concat(out) =~= buf + record_seq(input));
    } else {
        assert(dense_at(input, first_seq, 0));
        let c = input[0]->Ok_0;
        assert(c.seq == first_seq);
        assert(record_seq(input) == seq![c] + record_seq(input.skip(1)));
        assert forall|i: int|
            0 <= i < input.skip(1).len() implies #[trigger] dense_at(
            input.skip(1),
            first_seq + 1,
            i,
        ) by {
            assert(input.skip(1)[i] == input[i + 1]);
            assert(dense_at(input, first_seq, i + 1));
        }
        if c.seq == last {
            assert(input.len() == 1);
            assert(out == seq![ChunkOut::Frame { changes: buf.push(c), start: start, end: last }]);
            assert(input.skip(1).len() == 0);
            assert(record_seq(input.skip(1)) == Seq::<Change>::empty());
            assert(out.skip(1) =~= Seq::<ChunkOut>::empty());
            assert(frames_concat(Seq::<ChunkOut>::empty()) == Seq::<Change>::empty());
            assert(frames_concat(out) =~= buf + record_seq(input));
        } else {
            assert(first_seq < last);
            if buf.len() + 1 >= n {
                let head = seq![
                    ChunkOut::Frame { changes: buf.push(c), start: start, end: c.seq as int },
                ];
                let rest = chunks_from(input.skip(1), Seq::empty(), c.seq + 1, last, n);
                lemma_dense_chunks(input.skip(1), Seq::empty(), c.seq + 1, first_seq + 1, last, n);
                assert(out == head + rest);
                assert(out.skip(1) =~= rest);
                assert(frames_concat(out) =~= buf.push(c) + frames_concat(rest));
                assert(frames_concat(out) =~= buf + record_seq(input));
                assert(out.last() == rest.last());
                assert forall|i: int| 0 <= i < out.len() implies #[trigger] out[i] is Frame by {
                    if i >= 1 {
                        assert(out[i] == rest[i - 1]);
                    }
                }
                assert forall|i: int| 1 <= i < out.len() implies #[trigger] out[i]->start == out[i
                    - 1]->end + 1 by {
                    if i == 1 {
                        assert(out[1] == rest[0]);
                    } else {
                        assert(out[i] == rest[i - 1]);
                        assert(out[i - 1] == rest[i - 2]);
                        assert(rest[i - 1]->start == rest[i - 2]->end + 1);
                    }
                }
            } else {
                lemma_dense_chunks(input.skip(1), buf.push(c), start, first_seq + 1, last, n);
                assert(frames_concat(out) == buf.push(c) + record_seq(input.skip(1)));
                assert(frames_concat(out) =~= buf + record_seq(input));
            }
        }
    }
}

proof fn lemma_record_seq_dense(input: Seq<Result<Change, ChangeReadError>>, first_seq: int)
    requires
        forall|i: int| 0 <= i < input.len() ==> #[trigger] dense_at(input, first_seq, i),
    ensures
        record_seq(input).len() == input.len(),
        forall|i: int|
            0 <= i < input.len() ==> #[trigger] record_seq(input)[i].seq == first_seq + i,
    decreases input.len(),
{
    if input.len() == 0 {
    } else {
        assert(dense_at(input, first_seq, 0));
        let c = input[0]->Ok_0;
        assert(record_seq(input) == seq![c] + record_seq(input.skip(1)));
        assert forall|i: int|
            0 <= i < input.skip(1).len() implies #[trigger] dense_at(
            input.skip(1),
            first_seq + 1,
            i,
        ) by {
            assert(input.skip(1)[i] == input[i + 1]);
            assert(dense_at(input, first_seq, i + 1));
        }
        lemma_record_seq_dense(input.skip(1), first_seq + 1);
        assert forall|i: int|
            0 <= i < input.len() implies #[trigger] record_seq(input)[i].seq == first_seq + i by {
            if i == 0 {
                assert(record_seq(input)[0] == c);
            } else {
                assert(record_seq(input)[i] == record_seq(input.skip(1))[i - 1]);
                assert(record_seq(input.skip(1))[i - 1].seq == (first_seq + 1) + (i - 1));
            }
        }
    }
}

/// For one committed version whose cursor is error-free and dense — records
/// with sequence numbers exactly `0, 1, ..., last` in order — the frames'
/// ranges partition `0..=last` contiguously in ascending order, and the
/// concatenation of the frames is exactly the cursor's records, in ascending
/// sequence order.
pub proof fn lemma_version_frames_partition(
    input: Seq<Result<Change, ChangeReadError>>,
    last: int,
    n: int,
)
    requires
        n >= 1,
        0 <= last,
        input.len() == last + 1,
        forall|i: int| 0 <= i < input.len() ==> #[trigger] dense_at(input, 0, i),
    ensures
        ({
            let out = chunks_from(input, Seq::<Change>::empty(), 0, last, n);
            &&& out.len() >= 1
            &&& (forall|i: int| 0 <= i < out.len() ==> #[trigger] out[i] is Frame)
            &&& out[0]->start == 0
            &&& out.last()->end == last
            &&& (forall|i: int| 1 <= i < out.len() ==> #[trigger] out[i]->start == out[i - 1]->end + 1)
            &&& frames_concat(out) == record_seq(input)
            &&& frames_concat(out).len() == input.len()
            &&& (forall|i: int|
                0 <= i < frames_concat(out).len() ==> #[trigger] frames_concat(out)[i].seq == i)
        }),
{
    lemma_chunks_from_shape(input, Seq::<Change>::empty(), 0, last, n);
    lemma_dense_chunks(input, Seq::<Change>::empty(), 0, 0, last, n);
    let out = chunks_from(input, Seq::<Change>::empty(), 0, last, n);
    assert(frames_concat(out) =~= record_seq(input));
    lemma_record_seq_dense(input, 0);
}

/// A version whose dense, error-free records all fit into one chunk together
/// with what is already buffered yields exactly one frame.
pub proof fn lemma_small_dense_single_frame(
    input: Seq<Result<Change, ChangeReadError>>,
    buf: Seq<Change>,
    start: int,
    first_seq: int,
    last: int,
    n: int,
)
    requires
        n >= 1,
        input.len() >= 1,
        input.len() == last + 1 - first_seq,
        buf.len() + input.len() <= n,
        forall|i: int| 0 <= i < input.len() ==> #[trigger] dense_at(input, first_seq, i),
    ensures
        chunks_from(input, buf, start, last, n).len() == 1,
    decreases input.len(),
{
    assert(dense_at(input, first_seq, 0));
    let c = input[0]->Ok_0;
    if c.seq == last {
    } else {
        assert(input.len() >= 2);
        assert forall|i: int|
            0 <= i < input.skip(1).len() implies #[trigger] dense_at(
            input.skip(1),
            first_seq + 1,
            i,
        ) by {
            assert(input.skip(1)[i] == input[i + 1]);
            assert(dense_at(input, first_seq, i + 1));
        }
        lemma_small_dense_single_frame(input.skip(1), buf.push(c), start, first_seq + 1, last, n);
    }
}

/// Converts the change cursor of one committed version into frames of at most
/// `chunk_size` records, each paired with the contiguous sequence range it
/// covers, ending with a terminal frame whose range reaches `last_seq`.
pub struct ChunkedChanges {
    pub items: Vec<Result<Change, ChangeReadError>>,
    pub changes: Vec<Change>,
    pub last_start_seq: i64,
    pub last_seq: i64,
    pub chunk_size: usize,
    pub done: bool,
}

impl ChunkedChanges {
    pub open spec fn wf(self) -> bool {
        &&& self.chunk_size >= 1
        &&& seqs_have_successor(self.items@)
    }

    /// Everything this chunker will still yield, in order.
    pub open spec fn output(self) -> Seq<ChunkOut> {
        if self.done {
            Seq::empty()
        } else {
            chunks_from(
                self.items@,
                self.changes@,
                self.last_start_seq as int,
                self.last_seq as int,
                self.chunk_size as int,
            )
        }
    }

    /// A chunker over the given cursor rows. A chunk size of zero is rejected
    /// at construction.
    pub fn new(
        items: Vec<Result<Change, ChangeReadError>>,
        start_seq: i64,
        last_seq: i64,
        chunk_size: usize,
    ) -> (r: ChunkedChanges)
        requires
            chunk_size >= 1,
            seqs_have_successor(items@),
        ensures
            r.wf(),
            r.output() == chunks_from(
                items@,
                Seq::<Change>::empty(),
                start_seq as int,
                last_seq as int,
                chunk_size as int,
            ),
    {
        ChunkedChanges {
            items,
            changes: Vec::new(),
            last_start_seq: start_seq,
            last_seq,
            chunk_size,
            done: false,
        }
    }

    /// Yields the next frame (or the cursor's error), exactly following the
    /// ideal output of the state this chunker was in; `None` once exhausted.
    pub fn next(&mut self) -> (r: Option<Result<(Vec<Change>, SeqRange), ChangeReadError>>)
        requires
            old(self).wf(),
        ensures
            final(self).wf(),
            match r {
                None => old(self).output().len() == 0 && final(self).output().len() == 0,
                Some(item) => {
                    &&& old(self).output().len() > 0
                    &&& out_matches(item, old(self).output()[0])
                    &&& final(self).output() == old(self).output().skip(1)
                },
            },
    {
        if self.done {
            return None;
        }

        loop
            invariant
                self.wf(),
                !self.done,
                self.last_seq == old(self).last_seq,
                self.chunk_size == old(self).chunk_size,
                self.output() == old(self).output(),
            decreases self.items@.len(),
        {
            let ghost pre = *self;
            if self.items.len() > 0 {
                let item = self.items.remove(0);
                proof {
                    assert(pre.items@.remove(0) =~= pre.items@.skip(1));
                    lemma_seqs_have_successor_skip(pre.items@);
                }
                match item {
                    Result::Ok(change) => {
                        let change_seq = change.seq;
                        self.changes.push(change);

                        if change_seq == self.last_seq {
                            // this was the last seq: the frame is complete
                            self.done = true;
                            let mut frame: Vec<Change> = Vec::new();
                            core::mem::swap(&mut self.changes, &mut frame);
                            proof {
                                assert(old(self).output().skip(1) =~= Seq::<ChunkOut>::empty());
                            }
                            return Some(
                                Result::Ok((frame, SeqRange::new(self.last_start_seq, self.last_seq))),
                            );
                        }

                        if self.changes.len() >= self.chunk_size {
                            // chunking it up
                            let start_seq = self.last_start_seq;
                            self.last_start_seq = change_seq + 1;
                            let mut frame: Vec<Change> = Vec::new();
                            core::mem::swap(&mut self.changes, &mut frame);
                            proof {
                                let rest = chunks_from(
                                    self.items@,
                                    Seq::<Change>::empty(),
                                    self.last_start_seq as int,
                                    self.last_seq as int,
                                    self.chunk_size as int,
                                );
                                assert(old(self).output().skip(1) =~= rest);
                            }
                            return Some(
                                Result::Ok((frame, SeqRange::new(start_seq, change_seq))),
                            );
                        }
                    },
                    Result::Err(e) => {
                        // an error terminates the chunker
                        self.done = true;
                        proof {
                            assert(old(self).output().skip(1) =~= Seq::<ChunkOut>::empty());
                        }
                        return Some(Result::Err(e));
                    },
                }
            } else {
                // cursor exhausted: yield whatever is buffered, covering
                // everything up to `last_seq`
                self.done = true;
                let mut frame: Vec<Change> = Vec::new();
                core::mem::swap(&mut self.changes, &mut frame);
                proof {
                    assert(old(self).output().skip(1) =~= Seq::<ChunkOut>::empty());
                }
                return Some(
                    Result::Ok((frame, SeqRange::new(self.last_start_seq, self.last_seq))),
                );
            }
        }
    }
}

} // verus!
