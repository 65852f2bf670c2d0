use corro_agent::api::{ChangeType, RowResult};
use corro_agent::change::SqliteValue;
use corro_agent::json::render_row_result_line;

fn line_of(r: &RowResult) -> String {
    render_row_result_line(r)
        .expect("renderable row result")
        .into_iter()
        .collect()
}

#[test]
fn columns_line_matches_the_wire_form() {
    let r = RowResult::Columns(vec!["id".to_string(), "text".to_string()]);
    assert_eq!(line_of(&r), "{\"columns\":[\"id\",\"text\"]}\n");
}

#[test]
fn row_line_matches_the_wire_form() {
    let r = RowResult::Row {
        rowid: 1,
        change_type: ChangeType::Upsert,
        cells: vec![
            SqliteValue::Text("service-id".to_string()),
            SqliteValue::Text("service-name".to_string()),
        ],
    };
    assert_eq!(
        line_of(&r),
        "{\"row\":{\"rowid\":1,\"change_type\":\"upsert\",\"cells\":[\"service-id\",\"service-name\"]}}\n"
    );

    let r = RowResult::Row {
        rowid: -207,
        change_type: ChangeType::Delete,
        cells: vec![
            SqliteValue::Null,
            SqliteValue::Integer(-12),
            SqliteValue::Integer(4900),
            SqliteValue::Blob(vec![0, 17, 255]),
        ],
    };
    assert_eq!(
        line_of(&r),
        "{\"row\":{\"rowid\":-207,\"change_type\":\"delete\",\"cells\":[null,-12,4900,[0,17,255]]}}\n"
    );
}

#[test]
fn end_of_query_and_error_lines_match_the_wire_form() {
    assert_eq!(line_of(&RowResult::EndOfQuery), "\"end_of_query\"\n");
    assert_eq!(
        line_of(&RowResult::Error("boom".to_string())),
        "{\"error\":\"boom\"}\n"
    );
}

#[test]
fn strings_are_escaped_as_json_asks() {
    let r = RowResult::Error("he said \"hi\\bye\"\nthen\tleft\u{1}".to_string());
    assert_eq!(
        line_of(&r),
        "{\"error\":\"he said \\\"hi\\\\bye\\\"\\nthen\\tleft\\u0001\"}\n"
    );
}

#[test]
fn real_valued_cells_are_left_to_the_host() {
    let r = RowResult::Row {
        rowid: 1,
        change_type: ChangeType::Upsert,
        cells: vec![SqliteValue::Real(4.5f64.to_bits())],
    };
    assert_eq!(render_row_result_line(&r), None);

    let no_real = RowResult::Row {
        rowid: 1,
        change_type: ChangeType::Upsert,
        cells: vec![],
    };
    assert_eq!(
        render_row_result_line(&no_real).map(|v| v.into_iter().collect::<String>()),
        Some("{\"row\":{\"rowid\":1,\"change_type\":\"upsert\",\"cells\":[]}}\n".to_string())
    );
}
