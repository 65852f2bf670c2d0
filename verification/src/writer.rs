//! The serialized writer's commit decisions and the post-commit broadcast
//! fan-out.
//!
//! The transactional body itself and the bookkeeping side table live in the
//! database; what is decided here is everything that surrounds one commit:
//! which version the write gets, whether a bookkeeping row is inserted and a
//! broadcast scheduled (exactly when the change set is non-empty), and the
//! frames the broadcast carries.

use vstd::prelude::*;

use crate::MAX_CHANGES_PER_MESSAGE;
use crate::bookkeeping::{BookedVersions, KnownDbVersion};
use crate::change::{ActorId, Change, Timestamp};
use crate::chunker::{ChangeReadError, ChunkOut, ChunkedChanges, SeqRange};
use crate::chunker::{chunks_from, dense_at, seqs_have_successor};
use crate::chunker::{lemma_small_dense_single_frame, lemma_version_frames_partition};

verus! {

/// The row the writer inserts into the bookkeeping side table for a commit
/// that produced changes.
#[derive(Clone, Copy, Debug, PartialEq, Eq, Structural)]
pub struct BookkeepingRow {
    pub actor_id: ActorId,
    pub start_version: u64,
    pub db_version: i64,
    pub last_seq: i64,
    pub ts: Timestamp,
}

/// What the writer decides at commit time: the version allocated to this
/// write, the bookkeeping row to insert (absent for an empty change set), and
/// whether a post-commit broadcast must be scheduled.
#[derive(Clone, Copy, Debug, PartialEq, Eq, Structural)]
pub struct CommitPlan {
    pub version: u64,
    pub bookkeeping: Option<BookkeepingRow>,
    pub broadcast: bool,
}

/// The commit decisions for a write over a ledger previously holding
/// `book.len()` versions.
pub open spec fn commit_plan_spec(
    book: Seq<KnownDbVersion>,
    actor_id: ActorId,
    db_version: i64,
    last_seq: Option<i64>,
    ts: Timestamp,
) -> CommitPlan {
    let version = (book.len() + 1) as u64;
    CommitPlan {
        version,
        bookkeeping: match last_seq {
            Some(ls) => Some(
                BookkeepingRow {
                    actor_id,
                    start_version: version,
                    db_version,
                    last_seq: ls,
                    ts,
                },
            ),
            None => None,
        },
        broadcast: last_seq is Some,
    }
}

/// The ledger after the write: grown by one current version exactly when the
/// change set was non-empty, untouched otherwise.
pub open spec fn booked_after_spec(
    book: Seq<KnownDbVersion>,
    db_version: i64,
    last_seq: Option<i64>,
    ts: Timestamp,
) -> Seq<KnownDbVersion> {
    match last_seq {
        Some(ls) => book.push(KnownDbVersion::Current { db_version, last_seq: ls, ts }),
        None => book,
    }
}

/// The bookkeeping and broadcast decisions of one write, made under the
/// writer lock once the user statements have run.
///
/// `db_version` is the grouping id the CRR extension allocated to the
/// transaction, and `last_seq` the greatest locally originated sequence
/// number under it — absent exactly when the transaction produced no changes.
/// Allocates version `last + 1`, records the version as current in the
/// ledger and returns the bookkeeping row to insert iff the change set is
/// non-empty, and says whether a post-commit broadcast must be scheduled.
pub fn make_broadcastable_changes(
    book: &mut BookedVersions,
    actor_id: ActorId,
    db_version: i64,
    last_seq: Option<i64>,
    ts: Timestamp,
) -> (plan: CommitPlan)
    requires
        old(book).entries@.len() + 1 <= u64::MAX,
    ensures
        plan == commit_plan_spec(old(book).entries@, actor_id, db_version, last_seq, ts),
        final(book).entries@ == booked_after_spec(old(book).entries@, db_version, last_seq, ts),
{
    let last_version: u64 = match book.last() {
        Some(v) => v,
        None => 0,
    };
    let version = last_version + 1;

    match last_seq {
        Some(ls) => {
            book.insert(version, KnownDbVersion::Current { db_version, last_seq: ls, ts });
            CommitPlan {
                version,
                bookkeeping: Some(
                    BookkeepingRow {
                        actor_id,
                        start_version: version,
                        db_version,
                        last_seq: ls,
                        ts,
                    },
                ),
                broadcast: true,
            }
        },
        None => CommitPlan { version, bookkeeping: None, broadcast: false },
    }
}

/// The typed message enqueued on the broadcast channel: the full changeset of
/// one frame of one committed version.
#[derive(Clone, Debug, PartialEq, Eq)]
pub enum Changeset {
    Full { version: u64, changes: Vec<Change>, seqs: SeqRange, last_seq: i64, ts: Timestamp },
}

/// One version's change frame tagged with its origin actor.
#[derive(Clone, Debug, PartialEq, Eq)]
pub struct ChangeV1 {
    pub actor_id: ActorId,
    pub changeset: Changeset,
}

#[derive(Clone, Debug, PartialEq, Eq)]
pub enum MessageV1 {
    Change(ChangeV1),
}

#[derive(Clone, Debug, PartialEq, Eq)]
pub enum Message {
    V1(MessageV1),
}

/// What the fan-out hands to the gossip transport.
#[derive(Clone, Debug, PartialEq, Eq)]
pub enum BroadcastInput {
    AddBroadcast(Message),
}

/// The message `m` is the broadcast of the given frame of the given version.
pub open spec fn msg_for(
    m: BroadcastInput,
    actor_id: ActorId,
    version: u64,
    frame: ChunkOut,
    last_seq: i64,
    ts: Timestamp,
) -> bool {
    &&& frame is Frame
    &&& m matches BroadcastInput::AddBroadcast(Message::V1(MessageV1::Change(cv)))
    &&& cv.actor_id == actor_id
    &&& cv.changeset matches Changeset::Full { version: v, changes, seqs, last_seq: ls, ts: t }
    &&& v == version
    &&& changes@ == frame->changes
    &&& seqs.start as int == frame->start
    &&& seqs.end as int == frame->end
    &&& ls == last_seq
    &&& t == ts
}

/// The post-commit broadcast fan-out for one committed version.
///
/// `rows` is the change cursor for the version's `db_version`, ordered by
/// ascending `seq` with the local site id substituted. The rows are chunked
/// into frames of at most [`MAX_CHANGES_PER_MESSAGE`] records and each frame
/// becomes one `AddBroadcast` message, in ascending range order; a cursor
/// error aborts further frames for the version. The result is exactly the
/// frame prefix of the chunker's ideal output.
#[verifier::loop_isolation(false)]
pub fn version_broadcasts(
    actor_id: ActorId,
    version: u64,
    rows: Vec<Result<Change, ChangeReadError>>,
    last_seq: i64,
    ts: Timestamp,
) -> (msgs: Vec<BroadcastInput>)
    requires
        seqs_have_successor(rows@),
    ensures
        ({
            let out = chunks_from(
                rows@,
                Seq::<Change>::empty(),
                0,
                last_seq as int,
                MAX_CHANGES_PER_MESSAGE as int,
            );
            &&& msgs@.len() <= out.len()
            &&& (forall|i: int|
                0 <= i < msgs@.len() ==> msg_for(
                    #[trigger] msgs@[i],
                    actor_id,
                    version,
                    out[i],
                    last_seq,
                    ts,
                ))
            &&& (msgs@.len() < out.len() ==> out[msgs@.len() as int] is Failed)
        }),
{
    let mut chunked = ChunkedChanges::new(rows, 0, last_seq, MAX_CHANGES_PER_MESSAGE);
    let ghost out0 = chunked.output();
    let mut msgs: Vec<BroadcastInput> = Vec::new();

    loop
        invariant
            chunked.wf(),
            msgs@.len() + chunked.output().len() == out0.len(),
            chunked.output() == out0.skip(msgs@.len() as int),
            forall|i: int|
                0 <= i < msgs@.len() ==> msg_for(
                    #[trigger] msgs@[i],
                    actor_id,
                    version,
                    out0[i],
                    last_seq,
                    ts,
                ),
        decreases chunked.output().len(),
    {
        let ghost k = msgs@.len() as int;
        match chunked.next() {
            None => {
                return msgs;
            },
            Some(Result::Ok((changes, seqs))) => {
                proof {
                    assert(out0[k] == out0.skip(k)[0]);
                    assert(out0.skip(k).skip(1) =~= out0.skip(k + 1));
                }
                msgs.push(
                    BroadcastInput::AddBroadcast(
                        Message::V1(
                            MessageV1::Change(
                                ChangeV1 {
                                    actor_id,
                                    changeset: Changeset::Full {
                                        version,
                                        changes,
                                        seqs,
                                        last_seq,
                                        ts,
                                    },
                                },
                            ),
                        ),
                    ),
                );
            },
            Some(Result::Err(_e)) => {
                // the cursor failed: further frames for this version are
                // abandoned; the commit itself is already durable
                proof {
                    assert(out0[k] == out0.skip(k)[0]);
                }
                return msgs;
            },
        }
    }
}

/// For every write with a non-empty change set: exactly one bookkeeping row
/// is inserted, carrying this actor and version `last + 1`; the in-memory
/// ledger grows by exactly that version, now current; a broadcast is
/// scheduled; and the fan-out for the version yields only frames — exactly
/// one when the version's records fit in one chunk.
pub proof fn lemma_write_with_changes_books_and_broadcasts(
    book: Seq<KnownDbVersion>,
    actor_id: ActorId,
    db_version: i64,
    last_seq: i64,
    ts: Timestamp,
    rows: Seq<Result<Change, ChangeReadError>>,
)
    requires
        book.len() + 1 <= u64::MAX,
        0 <= last_seq,
        rows.len() == last_seq + 1,
        forall|i: int| 0 <= i < rows.len() ==> #[trigger] dense_at(rows, 0, i),
    ensures
        ({
            let plan = commit_plan_spec(book, actor_id, db_version, Some(last_seq), ts);
            let after = booked_after_spec(book, db_version, Some(last_seq), ts);
            let out = chunks_from(
                rows,
                Seq::<Change>::empty(),
                0,
                last_seq as int,
                MAX_CHANGES_PER_MESSAGE as int,
            );
            &&& plan.version == book.len() + 1
            &&& plan.bookkeeping == Some(
                (BookkeepingRow {
                    actor_id,
                    start_version: plan.version,
                    db_version,
                    last_seq,
                    ts,
                }),
            )
            &&& plan.broadcast
            &&& after == book.push(KnownDbVersion::Current { db_version, last_seq, ts })
            &&& out.len() >= 1
            &&& (forall|i: int| 0 <= i < out.len() ==> #[trigger] out[i] is Frame)
            &&& (last_seq + 1 <= MAX_CHANGES_PER_MESSAGE ==> out.len() == 1)
        }),
{
    lemma_version_frames_partition(rows, last_seq as int, MAX_CHANGES_PER_MESSAGE as int);
    if last_seq + 1 <= MAX_CHANGES_PER_MESSAGE {
        lemma_small_dense_single_frame(
            rows,
            Seq::<Change>::empty(),
            0,
            0,
            last_seq as int,
            MAX_CHANGES_PER_MESSAGE as int,
        );
    }
}

/// For every write with an empty change set: no bookkeeping row is inserted,
/// the ledger is untouched — no version is consumed — and no broadcast is
/// scheduled.
pub proof fn lemma_empty_write_is_silent(
    book: Seq<KnownDbVersion>,
    actor_id: ActorId,
    db_version: i64,
    ts: Timestamp,
)
    ensures
        ({
            let plan = commit_plan_spec(book, actor_id, db_version, None, ts);
            &&& plan.bookkeeping is None
            &&& !plan.broadcast
            &&& booked_after_spec(book, db_version, None, ts) == book
        }),
{
}

} // verus!
