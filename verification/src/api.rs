//! The request and response values of the HTTP surface, and the decision
//! cores of the transactional-execute and one-shot query endpoints.

use vstd::prelude::*;

use crate::change::SqliteValue;
use vstd::string::StringExecFns;

verus! {

pub const HTTP_OK: u16 = 200;

pub const HTTP_BAD_REQUEST: u16 = 400;

pub const HTTP_NOT_FOUND: u16 = 404;

pub const HTTP_INTERNAL_SERVER_ERROR: u16 = 500;

/// One user statement: bare SQL, SQL with positional parameters, or SQL with
/// named parameters.
#[derive(Clone, Debug, PartialEq, Eq)]
pub enum Statement {
    Simple(String),
    WithParams(String, Vec<SqliteValue>),
    WithNamedParams(String, Vec<(String, SqliteValue)>),
}

impl Statement {
    /// The SQL text of the statement, whichever variant carries it.
    pub fn sql(&self) -> (r: &String)
        ensures
            r == match self {
                Statement::Simple(q) => q,
                Statement::WithParams(q, _) => q,
                Statement::WithNamedParams(q, _) => q,
            },
    {
        match self {
            Statement::Simple(q) => q,
            Statement::WithParams(q, _) => q,
            Statement::WithNamedParams(q, _) => q,
        }
    }
}

/// Whether a row entered or left a materialized result.
#[derive(Clone, Copy, Debug, PartialEq, Eq, Structural)]
pub enum ChangeType {
    Upsert,
    Delete,
}

/// The over-the-wire unit of a streaming query body, one JSON value per line.
#[derive(Clone, Debug, PartialEq, Eq)]
pub enum RowResult {
    Columns(Vec<String>),
    Row { rowid: i64, change_type: ChangeType, cells: Vec<SqliteValue> },
    EndOfQuery,
    Error(String),
}

/// The outcome reported for one statement of a batch: the rows it affected
/// and the time it took, in nanoseconds, or the error it failed with.
#[derive(Clone, Debug, PartialEq, Eq)]
pub enum RqliteResult {
    Execute { rows_affected: usize, time: Option<u64> },
    Error { error: String },
}

/// The non-streaming endpoints' response: one result per statement and the
/// overall elapsed time, in nanoseconds.
#[derive(Clone, Debug, PartialEq, Eq)]
pub struct RqliteResponse {
    pub results: Vec<RqliteResult>,
    pub time: Option<u64>,
}

/// Why a one-shot query could not be served: no connection could be acquired
/// from the pool, or the storage engine failed.
#[derive(Clone, Debug, PartialEq, Eq)]
pub enum QueryError {
    Pool(String),
    Rusqlite(String),
}

/// The message with which a batch carrying no statements is refused.
pub open spec fn empty_statements_message() -> Seq<char> {
    "at least 1 statement is required"@
}

/// The `400` response refusing a batch with no statements.
pub fn empty_statements_response() -> (r: (u16, RqliteResponse))
    ensures
        r.0 == HTTP_BAD_REQUEST,
        r.1.results@.len() == 1,
        r.1.results@[0] matches RqliteResult::Error { error } && error@
            == empty_statements_message(),
        r.1.time is None,
{
    proof {
        reveal_strlit("at least 1 statement is required");
    }
    let error = String::from_str("at least 1 statement is required");
    (
        HTTP_BAD_REQUEST,
        RqliteResponse { results: vec![RqliteResult::Error { error }], time: None },
    )
}

/// The result reported for one statement run inside the writer transaction:
/// the statement's own failure is captured, not thrown.
pub open spec fn statement_result_spec(outcome: Result<(usize, u64), String>) -> RqliteResult {
    match outcome {
        Result::Ok((rows_affected, time)) => RqliteResult::Execute {
            rows_affected,
            time: Some(time),
        },
        Result::Err(error) => RqliteResult::Error { error },
    }
}

/// Builds the per-statement results of the transactional execute endpoint:
/// one `Execute` result per successful statement — rows affected and its
/// time — and one `Error` per failed one, in statement order. A statement's
/// failure does not abort the batch.
#[verifier::loop_isolation(false)]
pub fn collect_statement_results(outcomes: Vec<Result<(usize, u64), String>>) -> (r: Vec<
    RqliteResult,
>)
    ensures
        r@.len() == outcomes@.len(),
        forall|i: int|
            0 <= i < outcomes@.len() ==> #[trigger] r@[i] == statement_result_spec(outcomes@[i]),
{
    let mut rest = outcomes;
    let mut r: Vec<RqliteResult> = Vec::new();

    while rest.len() > 0
        invariant
            r@.len() + rest@.len() == outcomes@.len(),
            rest@ == outcomes@.skip(r@.len() as int),
            forall|i: int|
                0 <= i < r@.len() ==> #[trigger] r@[i] == statement_result_spec(outcomes@[i]),
        decreases rest@.len(),
    {
        let ghost k = r@.len() as int;
        let outcome = rest.remove(0);
        proof {
            assert(outcomes@.skip(k).remove(0) =~= outcomes@.skip(k + 1));
            assert(outcome == outcomes@[k]);
        }
        match outcome {
            Result::Ok((rows_affected, time)) => {
                r.push(RqliteResult::Execute { rows_affected, time: Some(time) });
            },
            Result::Err(error) => {
                r.push(RqliteResult::Error { error });
            },
        }
    }
    r
}

/// The transactional execute endpoint's response for a non-empty batch the
/// writer ran: `200` carrying the per-statement results and the elapsed time
/// on success, `500` carrying the writer's error otherwise.
pub fn transactions_response(outcome: Result<(Vec<RqliteResult>, u64), String>) -> (r: (
    u16,
    RqliteResponse,
))
    ensures
        match outcome {
            Result::Ok((results, elapsed)) => {
                &&& r.0 == HTTP_OK
                &&& r.1.results == results
                &&& r.1.time == Some(elapsed)
            },
            Result::Err(error) => {
                &&& r.0 == HTTP_INTERNAL_SERVER_ERROR
                &&& r.1.results@.len() == 1
                &&& r.1.results@[0] == (RqliteResult::Error { error })
                &&& r.1.time is None
            },
        },
{
    match outcome {
        Result::Ok((results, elapsed)) => (
            HTTP_OK,
            RqliteResponse { results, time: Some(elapsed) },
        ),
        Result::Err(error) => (
            HTTP_INTERNAL_SERVER_ERROR,
            RqliteResponse { results: vec![RqliteResult::Error { error }], time: None },
        ),
    }
}

/// The row results that follow the column row in a one-shot query stream:
/// one `Upsert` row per source row, in source order, carrying a synthetic
/// 1-based rowid; the first source error is emitted in-band and ends the
/// stream.
pub open spec fn row_events(rows: Seq<Result<Vec<SqliteValue>, String>>, rowid: int) -> Seq<
    RowResult,
>
    decreases rows.len(),
{
    if rows.len() == 0 {
        Seq::empty()
    } else {
        match rows[0] {
            Result::Ok(cells) => seq![
                RowResult::Row { rowid: rowid as i64, change_type: ChangeType::Upsert, cells },
            ] + row_events(rows.skip(1), rowid + 1),
            Result::Err(e) => seq![RowResult::Error(e)],
        }
    }
}

/// The one-shot query stream: the column names once, then one `Upsert` row
/// per source row with rowids counting from 1, then the stream closes; a
/// per-row error is emitted in-band as the terminal event.
#[verifier::loop_isolation(false)]
pub fn query_rows_to_results(col_names: Vec<String>, rows: Vec<Result<Vec<SqliteValue>, String>>)
    -> (r: Vec<RowResult>)
    requires
        rows@.len() < i64::MAX,
    ensures
        r@ == seq![RowResult::Columns(col_names)] + row_events(rows@, 1),
{
    let mut rest = rows;
    let mut r: Vec<RowResult> = Vec::new();
    r.push(RowResult::Columns(col_names));
    let mut rowid: i64 = 1;

    while rest.len() > 0
        invariant
            1 <= rowid,
            rowid + rest@.len() <= i64::MAX,
            seq![RowResult::Columns(col_names)] + row_events(rows@, 1) == r@ + row_events(
                rest@,
                rowid as int,
            ),
        decreases rest@.len(),
    {
        let ghost pre = rest@;
        let row = rest.remove(0);
        proof {
            assert(pre.remove(0) =~= pre.skip(1));
        }
        match row {
            Result::Ok(cells) => {
                r.push(RowResult::Row { rowid, change_type: ChangeType::Upsert, cells });
                rowid = rowid + 1;
            },
            Result::Err(e) => {
                r.push(RowResult::Error(e));
                return r;
            },
        }
    }
    r
}

} // verus!
