//! Subscription dispatch: the create-or-attach decision for live queries and
//! the streamer's event loop, as a state machine the host loop drives.

use vstd::prelude::*;
use vstd::string::StringExecFns;

use crate::api::{HTTP_BAD_REQUEST, HTTP_NOT_FOUND, RowResult, Statement};

verus! {

/// The message with which a non-simple watch statement is refused.
pub open spec fn watch_rejected_message() -> Seq<char> {
    "only simple statements (no params) are accepted for watches"@
}

/// The create-or-attach input check: only a simple statement — no parameters
/// — opens a watch; anything else is rejected with `400`.
pub fn watch_statement_sql(stmt: Statement) -> (r: Result<String, (u16, String)>)
    ensures
        match stmt {
            Statement::Simple(s) => r == Ok::<String, (u16, String)>(s),
            _ => {
                &&& r matches Err((status, msg))
                &&& status == HTTP_BAD_REQUEST
                &&& msg@ == watch_rejected_message()
            },
        },
{
    match stmt {
        Statement::Simple(s) => Ok(s),
        _ => {
            proof {
                reveal_strlit("only simple statements (no params) are accepted for watches");
            }
            Err(
                (
                    HTTP_BAD_REQUEST,
                    String::from_str("only simple statements (no params) are accepted for watches"),
                ),
            )
        },
    }
}

/// The `404` row-result with which an unknown watch id is answered. The id is
/// handed in already rendered.
pub fn watch_not_found(id_text: String) -> (r: (u16, RowResult))
    ensures
        r.0 == HTTP_NOT_FOUND,
        r.1 matches RowResult::Error(msg) && msg@ == "could not find watcher with id "@ + id_text@,
{
    proof {
        reveal_strlit("could not find watcher with id ");
    }
    let msg = String::from_str("could not find watcher with id ").concat(id_text.as_str());
    (HTTP_NOT_FOUND, RowResult::Error(msg))
}

/// The hyphenated text form of a 128-bit matcher id, as uuid renders it:
/// the text depends on the id alone.
pub uninterp spec fn uuid_text_of(id: u128) -> Seq<char>;

/// Relies on uuid::Uuid::to_string, for rendering a matcher id into the
/// `corro-query-id` header and the not-found message: the hyphenated form,
/// 36 characters, a function of the id alone.
#[verifier::external_body]
fn render_watch_id(id: u128) -> (r: String)
    ensures
        r@ == uuid_text_of(id),
        r@.len() == 36,
{
    uuid::Uuid::from_u128(id).to_string()
}

/// The attach endpoint's decision: a registered matcher id is streamed under
/// `200` with a `corro-query-id` header carrying its text; an unknown id is
/// answered `404` with an error row-result naming it.
pub fn watch_attach_response(found: bool, id: u128) -> (r: Result<String, (u16, RowResult)>)
    ensures
        found ==> (r matches Ok(header) && header@ == uuid_text_of(id)),
        !found ==> ({
            &&& r matches Err((status, row))
            &&& status == HTTP_NOT_FOUND
            &&& row matches RowResult::Error(msg) && msg@ == "could not find watcher with id "@
                + uuid_text_of(id)
        }),
{
    let id_text = render_watch_id(id);
    if found {
        Ok(id_text)
    } else {
        let (status, row) = watch_not_found(id_text);
        Err((status, row))
    }
}

/// Relies on uuid::Uuid::new_v4, for drawing the id of a newly created
/// matcher: a random UUID whose version nibble is 4; nothing else is promised
/// of its value.
#[verifier::external_body]
fn new_watch_id() -> (r: u128)
    ensures
        (r >> 76) & 0xf == 4,
{
    uuid::Uuid::new_v4().as_u128()
}

/// How a create-or-attach request proceeds: attach to the cached matcher when
/// one is cached for the query text and still registered; otherwise create a
/// new matcher under a freshly drawn id.
#[derive(Clone, Copy, Debug, PartialEq, Eq, Structural)]
pub enum WatchPlan {
    Attach(u128),
    Create(u128),
}

pub fn plan_watch(cached_id: Option<u128>, still_registered: bool) -> (r: WatchPlan)
    ensures
        match cached_id {
            Some(id) => if still_registered {
                r == WatchPlan::Attach(id)
            } else {
                r is Create
            },
            None => r is Create,
        },
{
    match cached_id {
        Some(id) => {
            if still_registered {
                WatchPlan::Attach(id)
            } else {
                WatchPlan::Create(new_watch_id())
            }
        },
        None => WatchPlan::Create(new_watch_id()),
    }
}

/// Why the change subscription stopped: its sender is gone, or this receiver
/// lagged behind by the given number of messages and was dropped.
#[derive(Clone, Copy, Debug, PartialEq, Eq, Structural)]
pub enum ChangeRecvError {
    Closed,
    Lagged(u64),
}

/// The streamer's state: whether the initial snapshot has been fully emitted.
#[derive(Clone, Copy, Debug, PartialEq, Eq, Structural)]
pub struct StreamerState {
    pub init_done: bool,
}

/// One event the streamer's select loop observes. Snapshot events are only
/// polled before the snapshot is done, change events only after.
#[derive(Debug, PartialEq, Eq)]
pub enum StreamEvent {
    /// The matcher's cancellation handle fired.
    Cancelled,
    /// The snapshot channel yielded a row result, or closed (`None`).
    Snapshot(Option<RowResult>),
    /// The change subscription yielded a row result, or stopped.
    Change(Result<RowResult, ChangeRecvError>),
    /// The one-second keepalive tick, carrying whether the peer still accepts
    /// data.
    KeepaliveTick(bool),
}

/// What the host loop must do for one observed event.
#[derive(Clone, Debug, PartialEq, Eq)]
pub enum StreamAction {
    /// Serialize the row result as one JSON line and send it on the body.
    Emit(RowResult),
    /// Nothing to send; poll again.
    Continue,
    /// Stop streaming and run the given termination step.
    Terminate(TerminationAction),
}

/// What happens to the matcher when a streamer stops. Cancellation is
/// authoritative — the matcher is gone from the process map — whereas a mere
/// disconnect only tells the matcher this subscriber left.
#[derive(Clone, Copy, Debug, PartialEq, Eq, Structural)]
pub enum TerminationAction {
    RemoveMatcher,
    Unsubscribe,
}

/// One step of the streamer's event loop.
///
/// Until the snapshot channel has emitted `EndOfQuery` or closed, snapshot
/// rows are forwarded; from then on, change rows are. Cancellation terminates
/// with the matcher removed; a stopped change subscription or a detached peer
/// terminates with an unsubscribe.
pub fn watch_stream_step(state: &mut StreamerState, event: StreamEvent) -> (r: StreamAction)
    requires
        event matches StreamEvent::Snapshot(_) ==> !old(state).init_done,
        event matches StreamEvent::Change(_) ==> old(state).init_done,
    ensures
        match event {
            StreamEvent::Cancelled => {
                &&& r == StreamAction::Terminate(TerminationAction::RemoveMatcher)
                &&& *final(state) == *old(state)
            },
            StreamEvent::Snapshot(Some(row)) => {
                &&& r == StreamAction::Emit(row)
                &&& final(state).init_done == (row is EndOfQuery)
            },
            StreamEvent::Snapshot(None) => {
                &&& r == StreamAction::Continue
                &&& final(state).init_done
            },
            StreamEvent::Change(Ok(row)) => {
                &&& r == StreamAction::Emit(row)
                &&& final(state).init_done
            },
            StreamEvent::Change(Err(_)) => {
                &&& r == StreamAction::Terminate(TerminationAction::Unsubscribe)
                &&& *final(state) == *old(state)
            },
            StreamEvent::KeepaliveTick(ready) => {
                &&& r == if ready {
                    StreamAction::Continue
                } else {
                    StreamAction::Terminate(TerminationAction::Unsubscribe)
                }
                &&& *final(state) == *old(state)
            },
        },
{
    match event {
        StreamEvent::Cancelled => StreamAction::Terminate(TerminationAction::RemoveMatcher),
        StreamEvent::Snapshot(Some(row)) => {
            state.init_done = matches!(row, RowResult::EndOfQuery);
            StreamAction::Emit(row)
        },
        StreamEvent::Snapshot(None) => {
            state.init_done = true;
            StreamAction::Continue
        },
        StreamEvent::Change(Ok(row)) => StreamAction::Emit(row),
        StreamEvent::Change(Err(_)) => StreamAction::Terminate(TerminationAction::Unsubscribe),
        StreamEvent::KeepaliveTick(ready) => {
            if ready {
                StreamAction::Continue
            } else {
                StreamAction::Terminate(TerminationAction::Unsubscribe)
            }
        },
    }
}

} // verus!
