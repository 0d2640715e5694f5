//! Tests for the response decoder: shape validation, the error taxonomy
//! and the typed results it produces.

use libsql_client::CellValue;
use libsql_client::DecodeError;
use libsql_client::Meta;
use libsql_client::QueryResult;
use libsql_client::decode_batch_response;
use libsql_client::decode_execute_response;
use libsql_client::json::Json;
use libsql_client::decode::parse_value;

fn decode(body: &str, count: usize) -> Result<Vec<QueryResult>, DecodeError> {
    decode_batch_response(body.as_bytes(), count)
}

#[test]
fn empty_array_decodes_to_no_outcomes() {
    let outcomes = decode("[]", 0).unwrap();
    assert_eq!(outcomes.len(), 0);
}

#[test]
fn n_elements_decode_to_n_outcomes_in_order() {
    let body = r#"[{"error":{"message":"e1"}},{"results":{"columns":[],"rows":[]}},{"error":{"message":"e3"}}]"#;
    let outcomes = decode(body, 3).unwrap();
    assert_eq!(outcomes.len(), 3);
    assert!(matches!(&outcomes[0], QueryResult::Error(m, _) if m == "e1"));
    assert!(matches!(&outcomes[1], QueryResult::Success(_, _)));
    assert!(matches!(&outcomes[2], QueryResult::Error(m, _) if m == "e3"));
}

#[test]
fn wrong_length_fails_regardless_of_content() {
    let body = r#"[{"error":{"message":"e1"}}]"#;
    assert_eq!(decode(body, 2), Err(DecodeError::WrongCount { expected: 2 }));
    assert_eq!(decode("[]", 1), Err(DecodeError::WrongCount { expected: 1 }));
    // Even garbage elements do not change the error: length is checked first.
    assert_eq!(decode("[5]", 3), Err(DecodeError::WrongCount { expected: 3 }));
}

#[test]
fn non_string_column_fails_with_its_position() {
    let body = r#"[{"results":{"columns":["a",5,"c"],"rows":[]}}]"#;
    assert_eq!(
        decode(body, 1),
        Err(DecodeError::ColumnNotString { result_idx: 0, column_idx: 1 })
    );
}

#[test]
fn non_string_column_in_second_result_carries_result_index() {
    let body = r#"[{"results":{"columns":[],"rows":[]}},{"results":{"columns":[7],"rows":[]}}]"#;
    assert_eq!(
        decode(body, 2),
        Err(DecodeError::ColumnNotString { result_idx: 1, column_idx: 0 })
    );
}

#[test]
fn row_of_wrong_length_fails_with_its_index() {
    let body = r#"[{"results":{"columns":["a","b"],"rows":[["x","y"],["only one"]]}}]"#;
    assert_eq!(decode(body, 1), Err(DecodeError::RowWrongLength { result_idx: 0, row_idx: 1 }));
}

#[test]
fn non_array_row_fails_with_its_index() {
    let body = r#"[{"results":{"columns":["a"],"rows":[5]}}]"#;
    assert_eq!(decode(body, 1), Err(DecodeError::RowNotArray { result_idx: 0, row_idx: 0 }));
}

fn single_cell(body: &str) -> CellValue {
    let outcomes = decode(body, 1).unwrap();
    match &outcomes[0] {
        QueryResult::Success(rs, _) => {
            let row = &rs.rows[0];
            row.get(&"x".to_string()).unwrap().clone()
        }
        QueryResult::Error(m, _) => panic!("unexpected error outcome: {m}"),
    }
}

#[test]
fn fractional_number_decodes_to_float() {
    let cell = single_cell(r#"[{"results":{"columns":["x"],"rows":[[3.14]]}}]"#);
    assert_eq!(cell, CellValue::Float((3.14f64).to_bits()));
}

#[test]
fn small_integer_decodes_to_number() {
    let cell = single_cell(r#"[{"results":{"columns":["x"],"rows":[[42]]}}]"#);
    assert_eq!(cell, CellValue::Number(42));
}

#[test]
fn integer_that_fits_i64_decodes_to_number_even_beyond_float_precision() {
    // 9007199254740993 = 2^53 + 1 is not exactly representable as a 64-bit
    // float, but it fits a 64-bit signed integer, and the integer reading
    // takes precedence.
    let cell = single_cell(r#"[{"results":{"columns":["x"],"rows":[[9007199254740993]]}}]"#);
    assert_eq!(cell, CellValue::Number(9007199254740993));
}

#[test]
fn integer_beyond_i64_decodes_to_float() {
    let cell = single_cell(r#"[{"results":{"columns":["x"],"rows":[[18446744073709551615]]}}]"#);
    assert_eq!(cell, CellValue::Float((u64::MAX as f64).to_bits()));
}

#[test]
fn null_bool_and_text_cells_decode_directly() {
    let body = r#"[{"results":{"columns":["a","b","c"],"rows":[[null,true,"hi"]]}}]"#;
    let outcomes = decode(body, 1).unwrap();
    let QueryResult::Success(rs, _) = &outcomes[0] else { panic!("expected success") };
    let row = &rs.rows[0];
    assert_eq!(row.get(&"a".to_string()), Some(&CellValue::Null));
    assert_eq!(row.get(&"b".to_string()), Some(&CellValue::Bool(true)));
    assert_eq!(row.get(&"c".to_string()), Some(&CellValue::Text("hi".to_string())));
    assert_eq!(row.get(&"missing".to_string()), None);
}

#[test]
fn unknown_cell_type_fails_with_full_position() {
    let body = r#"[{"results":{"columns":["a","b"],"rows":[["ok",{}]]}}]"#;
    assert_eq!(
        decode(body, 1),
        Err(DecodeError::UnknownCellType { result_idx: 0, row_idx: 0, cell_idx: 1 })
    );
}

#[test]
fn number_readable_in_no_way_fails_with_full_position() {
    // No number the JSON parser accepts is readable in neither way, so this
    // error is reachable only through the cell decoder itself.
    let cell = Json::Number { as_int: None, as_float_bits: None };
    assert_eq!(
        parse_value(&cell, 1, 2, 3),
        Err(DecodeError::UnknownNumber { result_idx: 1, row_idx: 2, cell_idx: 3 })
    );
}

#[test]
fn success_outcome_carries_columns_and_rows() {
    let body = r#"[{"results":{"columns":["a","b"],"rows":[[1,"x"]]}}]"#;
    let outcomes = decode(body, 1).unwrap();
    assert_eq!(outcomes.len(), 1);
    let QueryResult::Success(rs, meta) = &outcomes[0] else { panic!("expected success") };
    assert_eq!(rs.columns, vec!["a".to_string(), "b".to_string()]);
    assert_eq!(rs.rows.len(), 1);
    assert_eq!(rs.rows[0].get(&"a".to_string()), Some(&CellValue::Number(1)));
    assert_eq!(rs.rows[0].get(&"b".to_string()), Some(&CellValue::Text("x".to_string())));
    assert_eq!(*meta, Meta { duration: 0 });
}

#[test]
fn error_outcome_carries_the_message() {
    let body = r#"[{"error":{"message":"no such table"}}]"#;
    let outcomes = decode(body, 1).unwrap();
    assert_eq!(outcomes.len(), 1);
    assert_eq!(
        outcomes[0],
        QueryResult::Error("no such table".to_string(), Meta { duration: 0 })
    );
}

#[test]
fn duplicate_column_names_collapse_to_the_later_cell() {
    let body = r#"[{"results":{"columns":["a","a"],"rows":[[1,2]]}}]"#;
    let outcomes = decode(body, 1).unwrap();
    let QueryResult::Success(rs, _) = &outcomes[0] else { panic!("expected success") };
    assert_eq!(rs.columns.len(), 2);
    let row = &rs.rows[0];
    assert_eq!(row.cells.len(), 1);
    assert_eq!(row.get(&"a".to_string()), Some(&CellValue::Number(2)));
}

#[test]
fn invalid_json_fails() {
    assert_eq!(decode("not json at all", 0), Err(DecodeError::InvalidJson));
    assert_eq!(decode("", 0), Err(DecodeError::InvalidJson));
}

#[test]
fn non_array_response_fails() {
    assert_eq!(decode("{}", 0), Err(DecodeError::NotAnArray));
    assert_eq!(decode("\"hello\"", 1), Err(DecodeError::NotAnArray));
}

#[test]
fn non_object_element_fails_with_its_index() {
    let body = r#"[{"error":{"message":"fine"}},5]"#;
    assert_eq!(decode(body, 2), Err(DecodeError::ElementNotObject { result_idx: 1 }));
}

#[test]
fn non_object_error_field_fails() {
    assert_eq!(
        decode(r#"[{"error":"boom"}]"#, 1),
        Err(DecodeError::ErrorNotObject { result_idx: 0 })
    );
}

#[test]
fn error_without_string_message_fails() {
    assert_eq!(
        decode(r#"[{"error":{"message":5}}]"#, 1),
        Err(DecodeError::ErrorMessageNotString { result_idx: 0 })
    );
    assert_eq!(
        decode(r#"[{"error":{}}]"#, 1),
        Err(DecodeError::ErrorMessageNotString { result_idx: 0 })
    );
}

#[test]
fn element_without_error_or_results_fails() {
    assert_eq!(
        decode(r#"[{"rows":[]}]"#, 1),
        Err(DecodeError::MissingResultsOrError { result_idx: 0 })
    );
}

#[test]
fn non_object_results_field_fails() {
    assert_eq!(
        decode(r#"[{"results":5}]"#, 1),
        Err(DecodeError::ResultsNotObject { result_idx: 0 })
    );
}

#[test]
fn results_without_columns_or_rows_fail() {
    assert_eq!(
        decode(r#"[{"results":{"rows":[]}}]"#, 1),
        Err(DecodeError::MissingColumns { result_idx: 0 })
    );
    assert_eq!(
        decode(r#"[{"results":{"columns":[]}}]"#, 1),
        Err(DecodeError::MissingRows { result_idx: 0 })
    );
}

#[test]
fn non_array_columns_or_rows_fail() {
    assert_eq!(
        decode(r#"[{"results":{"columns":5,"rows":[]}}]"#, 1),
        Err(DecodeError::ColumnsOrRowsNotArray { result_idx: 0 })
    );
    assert_eq!(
        decode(r#"[{"results":{"columns":[],"rows":5}}]"#, 1),
        Err(DecodeError::ColumnsOrRowsNotArray { result_idx: 0 })
    );
}

#[test]
fn error_beats_results_when_both_are_present() {
    let body = r#"[{"error":{"message":"boom"},"results":{"columns":[],"rows":[]}}]"#;
    let outcomes = decode(body, 1).unwrap();
    assert!(matches!(&outcomes[0], QueryResult::Error(m, _) if m == "boom"));
}

#[test]
fn messages_reference_the_offending_indices() {
    assert_eq!(
        DecodeError::ColumnNotString { result_idx: 2, column_idx: 10 }.message(),
        "Result 2 column name 10 not a string"
    );
    assert_eq!(
        DecodeError::RowWrongLength { result_idx: 0, row_idx: 13 }.message(),
        "Result 0 row 13 had wrong number of cells"
    );
    assert_eq!(
        DecodeError::WrongCount { expected: 105 }.message(),
        "Response array did not contain expected 105 results"
    );
    assert_eq!(
        DecodeError::UnknownCellType { result_idx: 1, row_idx: 2, cell_idx: 3 }.message(),
        "Result 1 row 2 cell 3 had unknown type"
    );
    assert_eq!(DecodeError::InvalidJson.message(), "Response was not valid JSON");
}

#[test]
fn decimal_rendering_is_exact() {
    assert_eq!(libsql_client::decode::format_usize(0), "0");
    assert_eq!(libsql_client::decode::format_usize(7), "7");
    assert_eq!(libsql_client::decode::format_usize(10), "10");
    assert_eq!(libsql_client::decode::format_usize(9876543210), "9876543210");
}

#[test]
fn execute_decode_returns_the_single_outcome() {
    let body = r#"[{"error":{"message":"oops"}}]"#;
    let outcome = decode_execute_response(body.as_bytes()).unwrap();
    assert_eq!(outcome, QueryResult::Error("oops".to_string(), Meta { duration: 0 }));
}

#[test]
fn execute_decode_matches_first_of_single_batch() {
    let bodies = [
        r#"[{"results":{"columns":["a"],"rows":[[1],[2]]}}]"#,
        r#"[{"error":{"message":"nope"}}]"#,
        r#"[]"#,
        r#"{}"#,
        "garbage",
    ];
    for body in bodies {
        let via_execute = decode_execute_response(body.as_bytes());
        let via_batch = decode_batch_response(body.as_bytes(), 1)
            .map(|mut outcomes| outcomes.remove(0));
        assert_eq!(via_execute, via_batch);
    }
}
