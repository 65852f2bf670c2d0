use corro_agent::bookkeeping::{BookedVersions, KnownDbVersion};
use corro_agent::change::{ActorId, Change, Timestamp};
use corro_agent::chunker::SeqRange;
use corro_agent::writer::{
    make_broadcastable_changes, version_broadcasts, BookkeepingRow, BroadcastInput, ChangeV1,
    Changeset, Message, MessageV1,
};

#[test]
fn write_with_changes_books_and_broadcasts_version_one() {
    let actor = ActorId(7);
    let ts = Timestamp(42);
    let mut book = BookedVersions::new();

    let plan = make_broadcastable_changes(&mut book, actor, 1, Some(0), ts);

    assert_eq!(plan.version, 1);
    assert!(plan.broadcast);
    assert_eq!(
        plan.bookkeeping,
        Some(BookkeepingRow {
            actor_id: actor,
            start_version: 1,
            db_version: 1,
            last_seq: 0,
            ts,
        })
    );
    assert_eq!(book.last(), Some(1));
    assert_eq!(
        book.get(1),
        Some(KnownDbVersion::Current {
            db_version: 1,
            last_seq: 0,
            ts,
        })
    );

    let row = Change {
        seq: 0,
        db_version: 1,
        site_id: actor,
        ..Default::default()
    };
    let msgs = version_broadcasts(actor, plan.version, vec![Ok(row.clone())], 0, ts);
    assert_eq!(msgs.len(), 1);
    assert_eq!(
        msgs[0],
        BroadcastInput::AddBroadcast(Message::V1(MessageV1::Change(ChangeV1 {
            actor_id: actor,
            changeset: Changeset::Full {
                version: 1,
                changes: vec![row],
                seqs: SeqRange::new(0, 0),
                last_seq: 0,
                ts,
            },
        })))
    );
}

#[test]
fn write_without_changes_is_silent() {
    let actor = ActorId(7);
    let mut book = BookedVersions::new();
    let _ = make_broadcastable_changes(&mut book, actor, 1, Some(0), Timestamp(42));

    let plan = make_broadcastable_changes(&mut book, actor, 2, None, Timestamp(43));

    assert_eq!(plan.bookkeeping, None);
    assert!(!plan.broadcast);
    assert_eq!(book.last(), Some(1));
    assert_eq!(book.get(2), None);
}

#[test]
fn versions_are_allocated_contiguously() {
    let actor = ActorId(9);
    let mut book = BookedVersions::new();
    assert_eq!(book.last(), None);

    for n in 1..=4u64 {
        let plan = make_broadcastable_changes(&mut book, actor, n as i64, Some(0), Timestamp(n));
        assert_eq!(plan.version, n);
    }
    assert_eq!(book.last(), Some(4));
}

#[test]
fn version_broadcasts_one_message_per_frame() {
    let actor = ActorId(1);
    let ts = Timestamp(5);
    let rows: Vec<Result<Change, _>> = (0..3)
        .map(|s| {
            Ok(Change {
                seq: s,
                ..Default::default()
            })
        })
        .collect();

    // three records fit one chunk of fifty: exactly one message
    let msgs = version_broadcasts(actor, 1, rows, 2, ts);
    assert_eq!(msgs.len(), 1);
    let BroadcastInput::AddBroadcast(Message::V1(MessageV1::Change(cv))) = &msgs[0];
    assert_eq!(cv.actor_id, actor);
    let Changeset::Full {
        version,
        changes,
        seqs,
        last_seq,
        ts: t,
    } = &cv.changeset;
    assert_eq!(*version, 1);
    assert_eq!(changes.len(), 3);
    assert_eq!(*seqs, SeqRange::new(0, 2));
    assert_eq!(*last_seq, 2);
    assert_eq!(*t, ts);
}
