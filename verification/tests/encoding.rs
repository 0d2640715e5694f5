//! Tests for the request encoder, the statement fragments, the connection
//! handle and the transaction framing.

use libsql_client::Connection;
use libsql_client::Meta;
use libsql_client::QueryResult;
use libsql_client::Row;
use libsql_client::CellValue;
use libsql_client::Statement;
use libsql_client::encode_batch_body;
use libsql_client::transaction_outcomes;
use libsql_client::transaction_statements;

#[test]
fn empty_batch_encodes_to_empty_statements_array() {
    let body = encode_batch_body(&vec![]);
    assert_eq!(body, "{\"statements\": []}");
}

#[test]
fn single_statement_encodes_quoted() {
    let body = encode_batch_body(&vec![Statement::new("SELECT 1")]);
    assert_eq!(body, "{\"statements\": [\"SELECT 1\"]}");
}

#[test]
fn statements_encode_comma_separated_in_order() {
    let stmts = vec![
        Statement::new("CREATE TABLE t(id)"),
        Statement::new("INSERT INTO t VALUES (42)"),
    ];
    let body = encode_batch_body(&stmts);
    assert_eq!(
        body,
        "{\"statements\": [\"CREATE TABLE t(id)\",\"INSERT INTO t VALUES (42)\"]}"
    );
}

#[test]
fn statement_fragment_is_the_text_between_quotes() {
    let s = Statement::new("SELECT * FROM t");
    assert_eq!(s.fragment(), "\"SELECT * FROM t\"");
}

#[test]
fn connection_keeps_its_url() {
    let db = Connection::connect("https://example.com");
    assert_eq!(db.url().as_str(), "https://example.com");
    let copy = db.clone();
    assert_eq!(copy.url().as_str(), "https://example.com");
}

#[test]
fn transaction_brackets_statements_with_sentinels() {
    let stmts = vec![Statement::new("s1"), Statement::new("s2")];
    let framed = transaction_statements(stmts);
    assert_eq!(framed.len(), 4);
    assert_eq!(framed[0].sql, "BEGIN");
    assert_eq!(framed[1].sql, "s1");
    assert_eq!(framed[2].sql, "s2");
    assert_eq!(framed[3].sql, "END");
}

#[test]
fn transaction_with_no_statements_issues_only_sentinels() {
    let framed = transaction_statements(vec![]);
    assert_eq!(framed.len(), 2);
    assert_eq!(framed[0].sql, "BEGIN");
    assert_eq!(framed[1].sql, "END");
}

#[test]
fn transaction_outcomes_discard_the_sentinel_outcomes() {
    let meta = Meta { duration: 0 };
    let outcomes = vec![
        QueryResult::Error("begin failed".to_string(), meta),
        QueryResult::Error("s1 failed".to_string(), meta),
        QueryResult::Success(
            libsql_client::ResultSet { columns: vec![], rows: vec![] },
            meta,
        ),
        QueryResult::Error("end failed".to_string(), meta),
    ];
    let kept = transaction_outcomes(outcomes);
    assert_eq!(kept.len(), 2);
    // The sentinels' outcomes are dropped even though they are errors.
    assert_eq!(kept[0], QueryResult::Error("s1 failed".to_string(), meta));
    assert!(matches!(&kept[1], QueryResult::Success(_, _)));
}

#[test]
fn row_insert_overwrites_by_column_name() {
    let mut row = Row::new();
    row.insert("k".to_string(), CellValue::Number(1));
    row.insert("k".to_string(), CellValue::Number(2));
    row.insert("other".to_string(), CellValue::Null);
    assert_eq!(row.cells.len(), 2);
    assert_eq!(row.get(&"k".to_string()), Some(&CellValue::Number(2)));
    assert_eq!(row.get(&"other".to_string()), Some(&CellValue::Null));
}

#[test]
fn meta_defaults_to_zero_duration() {
    assert_eq!(Meta::default(), Meta { duration: 0 });
}
