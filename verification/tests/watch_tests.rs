use corro_agent::api::{ChangeType, RowResult, Statement, HTTP_BAD_REQUEST, HTTP_NOT_FOUND};
use corro_agent::change::SqliteValue;
use corro_agent::watch::{
    plan_watch, watch_not_found, watch_statement_sql, watch_stream_step, ChangeRecvError,
    StreamAction, StreamEvent, StreamerState, TerminationAction, WatchPlan,
};

#[test]
fn non_simple_watch_statement_is_rejected_with_400() {
    let stmt = Statement::WithParams(
        "select * from tests where id = ?".to_string(),
        vec![SqliteValue::Text("a".to_string())],
    );
    let r = watch_statement_sql(stmt);
    assert_eq!(
        r,
        Err((
            HTTP_BAD_REQUEST,
            "only simple statements (no params) are accepted for watches".to_string(),
        ))
    );

    let simple = Statement::Simple("select * from tests".to_string());
    assert_eq!(watch_statement_sql(simple), Ok("select * from tests".to_string()));
}

#[test]
fn unknown_watch_id_gets_404_row_result() {
    let (status, row) = watch_not_found("0000-111".to_string());
    assert_eq!(status, HTTP_NOT_FOUND);
    assert_eq!(
        row,
        RowResult::Error("could not find watcher with id 0000-111".to_string())
    );
}

#[test]
fn watch_plan_reuses_registered_matcher_and_creates_fresh_ids() {
    assert_eq!(plan_watch(Some(55), true), WatchPlan::Attach(55));

    // a cached but no longer registered matcher, or no cached one, gets a
    // fresh random id whose version nibble is 4
    for plan in [plan_watch(Some(55), false), plan_watch(None, false)] {
        match plan {
            WatchPlan::Create(id) => assert_eq!((id >> 76) & 0xf, 4),
            WatchPlan::Attach(_) => panic!("expected a fresh matcher"),
        }
    }
}

#[test]
fn watch_stream_emits_snapshot_then_changes_in_order() {
    let mut state = StreamerState { init_done: false };

    let columns = RowResult::Columns(vec!["id".to_string(), "text".to_string()]);
    let row = |rowid: i64| RowResult::Row {
        rowid,
        change_type: ChangeType::Upsert,
        cells: vec![SqliteValue::Text("x".to_string())],
    };

    // initial snapshot: columns, two rows, end-of-query
    for event_row in [columns.clone(), row(1), row(2)] {
        let action = watch_stream_step(&mut state, StreamEvent::Snapshot(Some(event_row.clone())));
        assert_eq!(action, StreamAction::Emit(event_row));
        assert!(!state.init_done);
    }
    let action = watch_stream_step(&mut state, StreamEvent::Snapshot(Some(RowResult::EndOfQuery)));
    assert_eq!(action, StreamAction::Emit(RowResult::EndOfQuery));
    assert!(state.init_done);

    // from then on, change rows are forwarded with increasing rowids
    let action = watch_stream_step(&mut state, StreamEvent::Change(Ok(row(3))));
    assert_eq!(action, StreamAction::Emit(row(3)));
    let action = watch_stream_step(&mut state, StreamEvent::Change(Ok(row(4))));
    assert_eq!(action, StreamAction::Emit(row(4)));

    // a live peer keeps the stream open
    let action = watch_stream_step(&mut state, StreamEvent::KeepaliveTick(true));
    assert_eq!(action, StreamAction::Continue);
}

#[test]
fn watch_stream_snapshot_channel_close_switches_to_changes() {
    let mut state = StreamerState { init_done: false };
    let action = watch_stream_step(&mut state, StreamEvent::Snapshot(None));
    assert_eq!(action, StreamAction::Continue);
    assert!(state.init_done);
}

#[test]
fn watch_stream_termination_actions() {
    // cancellation is authoritative: the matcher is removed
    let mut state = StreamerState { init_done: true };
    let action = watch_stream_step(&mut state, StreamEvent::Cancelled);
    assert_eq!(action, StreamAction::Terminate(TerminationAction::RemoveMatcher));

    // a lagging subscription merely unsubscribes this streamer
    let action = watch_stream_step(
        &mut state,
        StreamEvent::Change(Err(ChangeRecvError::Lagged(12))),
    );
    assert_eq!(action, StreamAction::Terminate(TerminationAction::Unsubscribe));

    // a detached peer does too
    let action = watch_stream_step(&mut state, StreamEvent::KeepaliveTick(false));
    assert_eq!(action, StreamAction::Terminate(TerminationAction::Unsubscribe));
}

#[test]
fn attach_response_carries_the_rendered_id() {
    let id: u128 = 0x936da01f9abd4d9d80c702af85c822a8;

    let header = corro_agent::watch::watch_attach_response(true, id).unwrap();
    assert_eq!(header, "936da01f-9abd-4d9d-80c7-02af85c822a8");
    assert_eq!(header, uuid::Uuid::from_u128(id).to_string());

    let (status, row) = corro_agent::watch::watch_attach_response(false, id).unwrap_err();
    assert_eq!(status, HTTP_NOT_FOUND);
    assert_eq!(
        row,
        RowResult::Error(
            "could not find watcher with id 936da01f-9abd-4d9d-80c7-02af85c822a8".to_string()
        )
    );
}
