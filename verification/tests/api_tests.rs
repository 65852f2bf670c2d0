use corro_agent::api::{
    collect_statement_results, empty_statements_response, query_rows_to_results,
    transactions_response, ChangeType, RowResult, RqliteResult, Statement, HTTP_BAD_REQUEST,
    HTTP_INTERNAL_SERVER_ERROR, HTTP_OK,
};
use corro_agent::change::SqliteValue;

#[test]
fn empty_statement_list_is_rejected_with_400() {
    let (status, body) = empty_statements_response();
    assert_eq!(status, HTTP_BAD_REQUEST);
    assert_eq!(
        body.results,
        vec![RqliteResult::Error {
            error: "at least 1 statement is required".to_string(),
        }]
    );
    assert_eq!(body.time, None);
}

#[test]
fn statement_failures_are_captured_per_statement() {
    let outcomes = vec![
        Ok((1usize, 10u64)),
        Err("no such table: nope".to_string()),
        Ok((0usize, 3u64)),
    ];
    let results = collect_statement_results(outcomes);
    assert_eq!(
        results,
        vec![
            RqliteResult::Execute {
                rows_affected: 1,
                time: Some(10),
            },
            RqliteResult::Error {
                error: "no such table: nope".to_string(),
            },
            RqliteResult::Execute {
                rows_affected: 0,
                time: Some(3),
            },
        ]
    );
}

#[test]
fn transactions_response_reports_results_or_error() {
    let results = vec![RqliteResult::Execute {
        rows_affected: 2,
        time: Some(7),
    }];
    let (status, body) = transactions_response(Ok((results.clone(), 99)));
    assert_eq!(status, HTTP_OK);
    assert_eq!(body.results, results);
    assert_eq!(body.time, Some(99));

    let (status, body) = transactions_response(Err("writer failed".to_string()));
    assert_eq!(status, HTTP_INTERNAL_SERVER_ERROR);
    assert_eq!(
        body.results,
        vec![RqliteResult::Error {
            error: "writer failed".to_string(),
        }]
    );
    assert_eq!(body.time, None);
}

#[test]
fn query_stream_emits_columns_then_rows_with_synthetic_rowids() {
    let cols = vec!["id".to_string(), "text".to_string()];
    let rows = vec![
        Ok(vec![
            SqliteValue::Text("service-id".to_string()),
            SqliteValue::Text("service-name".to_string()),
        ]),
        Ok(vec![
            SqliteValue::Text("service-id-2".to_string()),
            SqliteValue::Text("service-name-2".to_string()),
        ]),
    ];
    let events = query_rows_to_results(cols.clone(), rows);
    assert_eq!(events.len(), 3);
    assert_eq!(events[0], RowResult::Columns(cols));
    assert_eq!(
        events[1],
        RowResult::Row {
            rowid: 1,
            change_type: ChangeType::Upsert,
            cells: vec![
                SqliteValue::Text("service-id".to_string()),
                SqliteValue::Text("service-name".to_string()),
            ],
        }
    );
    assert_eq!(
        events[2],
        RowResult::Row {
            rowid: 2,
            change_type: ChangeType::Upsert,
            cells: vec![
                SqliteValue::Text("service-id-2".to_string()),
                SqliteValue::Text("service-name-2".to_string()),
            ],
        }
    );
}

#[test]
fn query_stream_row_error_ends_the_stream_in_band() {
    let cols = vec!["id".to_string()];
    let rows = vec![
        Ok(vec![SqliteValue::Integer(1)]),
        Err("disk I/O error".to_string()),
        Ok(vec![SqliteValue::Integer(2)]),
    ];
    let events = query_rows_to_results(cols.clone(), rows);
    assert_eq!(events.len(), 3);
    assert_eq!(events[0], RowResult::Columns(cols));
    assert_eq!(
        events[1],
        RowResult::Row {
            rowid: 1,
            change_type: ChangeType::Upsert,
            cells: vec![SqliteValue::Integer(1)],
        }
    );
    assert_eq!(events[2], RowResult::Error("disk I/O error".to_string()));
}

#[test]
fn statement_sql_is_the_text_of_every_variant() {
    let simple = Statement::Simple("select 1".to_string());
    assert_eq!(simple.sql().as_str(), "select 1");

    let with_params = Statement::WithParams(
        "insert into tests (id, text) values (?,?)".to_string(),
        vec![SqliteValue::Integer(1), SqliteValue::Null],
    );
    assert_eq!(with_params.sql().as_str(), "insert into tests (id, text) values (?,?)");

    let named = Statement::WithNamedParams(
        "update tests SET text = :text".to_string(),
        vec![(":text".to_string(), SqliteValue::Text("b".to_string()))],
    );
    assert_eq!(named.sql().as_str(), "update tests SET text = :text");
}
