use corro_agent::api::{RqliteResult, HTTP_INTERNAL_SERVER_ERROR, HTTP_OK};
use corro_agent::bookkeeping::BookedVersions;
use corro_agent::change::{ActorId, Timestamp};
use corro_agent::schema::{join_statements, schema_response, Schema};
use corro_agent::writer::make_broadcastable_changes;
use corro_agent::MAX_CHANGES_PER_MESSAGE;

#[test]
fn schema_merge_keeps_submitted_definitions() {
    let mut schema = Schema::new();
    schema.apply_parsed_tables(vec![(
        "tests".to_string(),
        "CREATE TABLE tests (id BIGINT PRIMARY KEY, foo TEXT)".to_string(),
    )]);

    assert_eq!(
        schema.get_table("tests"),
        Some(&"CREATE TABLE tests (id BIGINT PRIMARY KEY, foo TEXT)".to_string())
    );
    assert_eq!(schema.get_table("tests2"), None);

    // a second batch overwrites by name and leaves the rest untouched
    schema.apply_parsed_tables(vec![
        (
            "tests2".to_string(),
            "CREATE TABLE tests2 (id BIGINT PRIMARY KEY, foo TEXT)".to_string(),
        ),
        (
            "tests".to_string(),
            "CREATE TABLE tests (id BIGINT PRIMARY KEY, foo TEXT, bar TEXT)".to_string(),
        ),
    ]);
    assert_eq!(
        schema.get_table("tests"),
        Some(&"CREATE TABLE tests (id BIGINT PRIMARY KEY, foo TEXT, bar TEXT)".to_string())
    );
    assert_eq!(
        schema.get_table("tests2"),
        Some(&"CREATE TABLE tests2 (id BIGINT PRIMARY KEY, foo TEXT)".to_string())
    );
}

#[test]
fn statements_are_joined_with_semicolons() {
    assert_eq!(join_statements(&vec![]).as_str(), "");
    assert_eq!(
        join_statements(&vec!["CREATE TABLE a (x)".to_string()]).as_str(),
        "CREATE TABLE a (x)"
    );
    assert_eq!(
        join_statements(&vec![
            "CREATE TABLE a (x)".to_string(),
            "CREATE TABLE b (y)".to_string(),
            "CREATE INDEX i ON a (x)".to_string(),
        ])
        .as_str(),
        "CREATE TABLE a (x);CREATE TABLE b (y);CREATE INDEX i ON a (x)"
    );
}

#[test]
fn schema_response_reports_success_or_merge_failure() {
    let (status, body) = schema_response(Ok(1234));
    assert_eq!(status, HTTP_OK);
    assert!(body.results.is_empty());
    assert_eq!(body.time, Some(1234));

    let (status, body) = schema_response(Err("near \"NOPE\": syntax error".to_string()));
    assert_eq!(status, HTTP_INTERNAL_SERVER_ERROR);
    assert_eq!(
        body.results,
        vec![RqliteResult::Error {
            error: "near \"NOPE\": syntax error".to_string(),
        }]
    );
    assert_eq!(body.time, None);
}

#[test]
fn chunk_size_constant_matches_broadcast_framing() {
    assert_eq!(MAX_CHANGES_PER_MESSAGE, 50);
}

#[test]
fn bookkeeping_ledger_is_contiguous_from_one() {
    let mut book = BookedVersions::new();
    assert_eq!(book.last(), None);
    assert_eq!(book.get(0), None);
    assert_eq!(book.get(1), None);

    let plan = make_broadcastable_changes(&mut book, ActorId(3), 10, Some(2), Timestamp(1));
    assert_eq!(plan.version, 1);
    assert_eq!(book.last(), Some(1));
    assert!(book.get(1).is_some());
    assert_eq!(book.get(2), None);
}
