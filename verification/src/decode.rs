//! The response decoder: validates and converts the service's JSON response
//! — one entry per submitted statement — into typed outcomes.
//!
//! The decode is all-or-nothing: the first offending element fails the
//! whole response, even where every other element is well formed. Columns
//! are validated before rows, rows in array order, cells left to right, so
//! the error that surfaces is always the first one in that order.

use vstd::prelude::*;

use crate::cell_value::CellValue;
use crate::json::Json;
use crate::json::json_from_bytes;
use crate::json::json_of;
use crate::results::Meta;
use crate::results::QueryResult;
use crate::results::ResultSet;
use crate::results::Row;
use crate::results::SpecQueryResult;
use crate::results::SpecResultSet;
use vstd::string::StringExecFns;

verus! {

/// Why a response failed to decode. Every variant that concerns one
/// element of the response carries the index of that element; row and cell
/// problems carry their row and cell positions too.
#[derive(Clone, Copy, Debug, PartialEq, Eq, Structural)]
pub enum DecodeError {
    /// The response body is not valid JSON.
    InvalidJson,
    /// The response parsed, but not to an array.
    NotAnArray,
    /// The response array's length differs from the statement count.
    WrongCount { expected: usize },
    /// An element of the response array is not an object.
    ElementNotObject { result_idx: usize },
    /// An element's `error` field is not an object.
    ErrorNotObject { result_idx: usize },
    /// An element's `error` object has no string `message` field.
    ErrorMessageNotString { result_idx: usize },
    /// An element has neither an `error` nor a `results` field.
    MissingResultsOrError { result_idx: usize },
    /// An element's `results` field is not an object.
    ResultsNotObject { result_idx: usize },
    /// A `results` object has no `columns` field.
    MissingColumns { result_idx: usize },
    /// A `results` object has no `rows` field.
    MissingRows { result_idx: usize },
    /// A `results` object's `columns` or `rows` field is not an array.
    ColumnsOrRowsNotArray { result_idx: usize },
    /// A column entry is not a string.
    ColumnNotString { result_idx: usize, column_idx: usize },
    /// A row entry is not an array.
    RowNotArray { result_idx: usize, row_idx: usize },
    /// A row's length differs from the column count.
    RowWrongLength { result_idx: usize, row_idx: usize },
    /// A numeric cell is readable neither as a 64-bit signed integer nor as
    /// a 64-bit float.
    UnknownNumber { result_idx: usize, row_idx: usize, cell_idx: usize },
    /// A cell is neither null, boolean, number nor string.
    UnknownCellType { result_idx: usize, row_idx: usize, cell_idx: usize },
}

/// The decimal digit character for a value below ten.
pub open spec fn spec_digit(d: nat) -> char {
    if d == 0 {
        '0'
    } else if d == 1 {
        '1'
    } else if d == 2 {
        '2'
    } else if d == 3 {
        '3'
    } else if d == 4 {
        '4'
    } else if d == 5 {
        '5'
    } else if d == 6 {
        '6'
    } else if d == 7 {
        '7'
    } else if d == 8 {
        '8'
    } else {
        '9'
    }
}

/// The decimal rendering of a number, most significant digit first.
pub open spec fn spec_decimal(n: nat) -> Seq<char>
    decreases n,
{
    if n < 10 {
        seq![spec_digit(n)]
    } else {
        spec_decimal(n / 10) + seq![spec_digit(n % 10)]
    }
}

/// The one-character string for a decimal digit.
fn digit_str(d: usize) -> (r: &'static str)
    requires
        d < 10,
    ensures
        r@ == seq![spec_digit(d as nat)],
{
    proof {
        reveal_strlit("0");
        reveal_strlit("1");
        reveal_strlit("2");
        reveal_strlit("3");
        reveal_strlit("4");
        reveal_strlit("5");
        reveal_strlit("6");
        reveal_strlit("7");
        reveal_strlit("8");
        reveal_strlit("9");
        assert("0"@ =~= seq![spec_digit(0)]);
        assert("1"@ =~= seq![spec_digit(1)]);
        assert("2"@ =~= seq![spec_digit(2)]);
        assert("3"@ =~= seq![spec_digit(3)]);
        assert("4"@ =~= seq![spec_digit(4)]);
        assert("5"@ =~= seq![spec_digit(5)]);
        assert("6"@ =~= seq![spec_digit(6)]);
        assert("7"@ =~= seq![spec_digit(7)]);
        assert("8"@ =~= seq![spec_digit(8)]);
        assert("9"@ =~= seq![spec_digit(9)]);
    }
    if d == 0 {
        "0"
    } else if d == 1 {
        "1"
    } else if d == 2 {
        "2"
    } else if d == 3 {
        "3"
    } else if d == 4 {
        "4"
    } else if d == 5 {
        "5"
    } else if d == 6 {
        "6"
    } else if d == 7 {
        "7"
    } else if d == 8 {
        "8"
    } else {
        "9"
    }
}

/// Renders a number in decimal. See [`spec_decimal`].
pub fn format_usize(n: usize) -> (r: String)
    ensures
        r@ == spec_decimal(n as nat),
    decreases n,
{
    if n < 10 {
        String::from_str(digit_str(n))
    } else {
        let mut r = format_usize(n / 10);
        r.append(digit_str(n % 10));
        r
    }
}

/// The descriptive message for each decode failure, with every offending
/// index rendered in decimal.
pub open spec fn spec_message(e: DecodeError) -> Seq<char> {
    match e {
        DecodeError::InvalidJson => "Response was not valid JSON"@,
        DecodeError::NotAnArray => "Response was not an array"@,
        DecodeError::WrongCount { expected } => "Response array did not contain expected "@
            + spec_decimal(expected as nat) + " results"@,
        DecodeError::ElementNotObject { result_idx } => "Result "@ + spec_decimal(
            result_idx as nat,
        ) + " was not an object"@,
        DecodeError::ErrorNotObject { result_idx } => "Result "@ + spec_decimal(result_idx as nat)
            + " error was not an object"@,
        DecodeError::ErrorMessageNotString { result_idx } => "Result "@ + spec_decimal(
            result_idx as nat,
        ) + " error message was not a string"@,
        DecodeError::MissingResultsOrError { result_idx } => "Result "@ + spec_decimal(
            result_idx as nat,
        ) + " did not contain results or error"@,
        DecodeError::ResultsNotObject { result_idx } => "Result "@ + spec_decimal(
            result_idx as nat,
        ) + " results was not an object"@,
        DecodeError::MissingColumns { result_idx } => "Result "@ + spec_decimal(result_idx as nat)
            + " had no columns"@,
        DecodeError::MissingRows { result_idx } => "Result "@ + spec_decimal(result_idx as nat)
            + " had no rows"@,
        DecodeError::ColumnsOrRowsNotArray { result_idx } => "Result "@ + spec_decimal(
            result_idx as nat,
        ) + " had rows or columns that were not an array"@,
        DecodeError::ColumnNotString { result_idx, column_idx } => "Result "@ + spec_decimal(
            result_idx as nat,
        ) + " column name "@ + spec_decimal(column_idx as nat) + " not a string"@,
        DecodeError::RowNotArray { result_idx, row_idx } => "Result "@ + spec_decimal(
            result_idx as nat,
        ) + " row "@ + spec_decimal(row_idx as nat) + " was not an array"@,
        DecodeError::RowWrongLength { result_idx, row_idx } => "Result "@ + spec_decimal(
            result_idx as nat,
        ) + " row "@ + spec_decimal(row_idx as nat) + " had wrong number of cells"@,
        DecodeError::UnknownNumber { result_idx, row_idx, cell_idx } => "Result "@ + spec_decimal(
            result_idx as nat,
        ) + " row "@ + spec_decimal(row_idx as nat) + " cell "@ + spec_decimal(cell_idx as nat)
            + " had unknown number value"@,
        DecodeError::UnknownCellType { result_idx, row_idx, cell_idx } => "Result "@
            + spec_decimal(result_idx as nat) + " row "@ + spec_decimal(row_idx as nat) + " cell "@
            + spec_decimal(cell_idx as nat) + " had unknown type"@,
    }
}

impl DecodeError {
    /// The failure's descriptive message. See [`spec_message`].
    pub fn message(&self) -> (r: String)
        ensures
            r@ == spec_message(*self),
    {
        match self {
            DecodeError::InvalidJson => String::from_str("Response was not valid JSON"),
            DecodeError::NotAnArray => String::from_str("Response was not an array"),
            DecodeError::WrongCount { expected } => {
                let mut r = String::from_str("Response array did not contain expected ");
                r.append(format_usize(*expected).as_str());
                r.append(" results");
                r
            },
            DecodeError::ElementNotObject { result_idx } => {
                let mut r = String::from_str("Result ");
                r.append(format_usize(*result_idx).as_str());
                r.append(" was not an object");
                r
            },
            DecodeError::ErrorNotObject { result_idx } => {
                let mut r = String::from_str("Result ");
                r.append(format_usize(*result_idx).as_str());
                r.append(" error was not an object");
                r
            },
            DecodeError::ErrorMessageNotString { result_idx } => {
                let mut r = String::from_str("Result ");
                r.append(format_usize(*result_idx).as_str());
                r.append(" error message was not a string");
                r
            },
            DecodeError::MissingResultsOrError { result_idx } => {
                let mut r = String::from_str("Result ");
                r.append(format_usize(*result_idx).as_str());
                r.append(" did not contain results or error");
                r
            },
            DecodeError::ResultsNotObject { result_idx } => {
                let mut r = String::from_str("Result ");
                r.append(format_usize(*result_idx).as_str());
                r.append(" results was not an object");
                r
            },
            DecodeError::MissingColumns { result_idx } => {
                let mut r = String::from_str("Result ");
                r.append(format_usize(*result_idx).as_str());
                r.append(" had no columns");
                r
            },
            DecodeError::MissingRows { result_idx } => {
                let mut r = String::from_str("Result ");
                r.append(format_usize(*result_idx).as_str());
                r.append(" had no rows");
                r
            },
            DecodeError::ColumnsOrRowsNotArray { result_idx } => {
                let mut r = String::from_str("Result ");
                r.append(format_usize(*result_idx).as_str());
                r.append(" had rows or columns that were not an array");
                r
            },
            DecodeError::ColumnNotString { result_idx, column_idx } => {
                let mut r = String::from_str("Result ");
                r.append(format_usize(*result_idx).as_str());
                r.append(" column name ");
                r.append(format_usize(*column_idx).as_str());
                r.append(" not a string");
                r
            },
            DecodeError::RowNotArray { result_idx, row_idx } => {
                let mut r = String::from_str("Result ");
                r.append(format_usize(*result_idx).as_str());
                r.append(" row ");
                r.append(format_usize(*row_idx).as_str());
                r.append(" was not an array");
                r
            },
            DecodeError::RowWrongLength { result_idx, row_idx } => {
                let mut r = String::from_str("Result ");
                r.append(format_usize(*result_idx).as_str());
                r.append(" row ");
                r.append(format_usize(*row_idx).as_str());
                r.append(" had wrong number of cells");
                r
            },
            DecodeError::UnknownNumber { result_idx, row_idx, cell_idx } => {
                let mut r = String::from_str("Result ");
                r.append(format_usize(*result_idx).as_str());
                r.append(" row ");
                r.append(format_usize(*row_idx).as_str());
                r.append(" cell ");
                r.append(format_usize(*cell_idx).as_str());
                r.append(" had unknown number value");
                r
            },
            DecodeError::UnknownCellType { result_idx, row_idx, cell_idx } => {
                let mut r = String::from_str("Result ");
                r.append(format_usize(*result_idx).as_str());
                r.append(" row ");
                r.append(format_usize(*row_idx).as_str());
                r.append(" cell ");
                r.append(format_usize(*cell_idx).as_str());
                r.append(" had unknown type");
                r
            },
        }
    }
}

/// What one cell decodes to: null, boolean and string map directly; a
/// number becomes an integer exactly where the wire value fits a 64-bit
/// signed integer, else a float where it is readable as one.
pub open spec fn spec_parse_value(
    cell: Json,
    result_idx: usize,
    row_idx: usize,
    cell_idx: usize,
) -> Result<CellValue, DecodeError> {
    match cell {
        Json::Null => Ok(CellValue::Null),
        Json::Bool(b) => Ok(CellValue::Bool(b)),
        Json::Number { as_int, as_float_bits } => match as_int {
            Some(i) => Ok(CellValue::Number(i)),
            None => match as_float_bits {
                Some(bits) => Ok(CellValue::Float(bits)),
                None => Err(DecodeError::UnknownNumber { result_idx, row_idx, cell_idx }),
            },
        },
        Json::Text(s) => Ok(CellValue::Text(s)),
        _ => Err(DecodeError::UnknownCellType { result_idx, row_idx, cell_idx }),
    }
}

/// Decodes one cell. See [`spec_parse_value`].
pub fn parse_value(cell: &Json, result_idx: usize, row_idx: usize, cell_idx: usize) -> (r: Result<
    CellValue,
    DecodeError,
>)
    ensures
        r == spec_parse_value(*cell, result_idx, row_idx, cell_idx),
{
    match cell {
        Json::Null => Ok(CellValue::Null),
        Json::Bool(b) => Ok(CellValue::Bool(*b)),
        Json::Number { as_int, as_float_bits } => match as_int {
            Some(i) => Ok(CellValue::Number(*i)),
            None => match as_float_bits {
                Some(bits) => Ok(CellValue::Float(*bits)),
                None => Err(DecodeError::UnknownNumber { result_idx, row_idx, cell_idx }),
            },
        },
        Json::Text(s) => Ok(CellValue::Text(s.clone())),
        _ => Err(DecodeError::UnknownCellType { result_idx, row_idx, cell_idx }),
    }
}

/// What a column list decodes to: every entry must be a string; the first
/// entry that is not fails the decode with its position.
pub open spec fn spec_parse_columns(cols: Seq<Json>, result_idx: usize) -> Result<
    Seq<String>,
    DecodeError,
>
    decreases cols.len(),
{
    if cols.len() == 0 {
        Ok(Seq::empty())
    } else {
        match spec_parse_columns(cols.drop_last(), result_idx) {
            Err(e) => Err(e),
            Ok(pre) => match cols.last() {
                Json::Text(s) => Ok(pre.push(s)),
                _ => Err(
                    DecodeError::ColumnNotString {
                        result_idx,
                        column_idx: (cols.len() - 1) as usize,
                    },
                ),
            },
        }
    }
}

/// A failing prefix of the column list settles the whole column list's
/// decode: later entries cannot change the first error.
proof fn lemma_parse_columns_err_prefix(cols: Seq<Json>, k: int, result_idx: usize)
    requires
        0 <= k <= cols.len(),
        spec_parse_columns(cols.take(k), result_idx) is Err,
    ensures
        spec_parse_columns(cols, result_idx) == spec_parse_columns(cols.take(k), result_idx),
    decreases cols.len() - k,
{
    if k < cols.len() {
        assert(cols.take(k + 1).drop_last() =~= cols.take(k));
        lemma_parse_columns_err_prefix(cols, k + 1, result_idx);
    } else {
        assert(cols.take(k) =~= cols);
    }
}

/// A column list whose entries are strings up to some point decodes
/// cleanly up to that point.
proof fn lemma_parse_columns_ok_prefix(cols: Seq<Json>, result_idx: usize, k: int)
    requires
        0 <= k <= cols.len(),
        forall|j: int| 0 <= j < k ==> cols[j] is Text,
    ensures
        spec_parse_columns(cols.take(k), result_idx) is Ok,
    decreases k,
{
    if k > 0 {
        assert(cols.take(k).drop_last() =~= cols.take(k - 1));
        lemma_parse_columns_ok_prefix(cols, result_idx, k - 1);
    }
}

/// The first column entry that is not a string fails the whole column
/// list's decode, with exactly that entry's position in the error.
pub proof fn lemma_column_not_string_fails(cols: Seq<Json>, result_idx: usize, k: int)
    requires
        0 <= k < cols.len(),
        !(cols[k] is Text),
        forall|j: int| 0 <= j < k ==> cols[j] is Text,
    ensures
        spec_parse_columns(cols, result_idx) == Err::<Seq<String>, _>(
            DecodeError::ColumnNotString { result_idx, column_idx: k as usize },
        ),
{
    lemma_parse_columns_ok_prefix(cols, result_idx, k);
    assert(cols.take(k + 1).drop_last() =~= cols.take(k));
    assert(cols.take(k + 1).last() == cols[k]);
    lemma_parse_columns_err_prefix(cols, k + 1, result_idx);
}

/// Decodes a column list. See [`spec_parse_columns`].
pub fn parse_columns(columns: &Vec<Json>, result_idx: usize) -> (r: Result<
    Vec<String>,
    DecodeError,
>)
    ensures
        (match (r, spec_parse_columns(columns@, result_idx)) {
            (Ok(v), Ok(s)) => v@ == s,
            (Err(a), Err(b)) => a == b,
            _ => false,
        }),
{
    let mut out: Vec<String> = Vec::new();
    let n = columns.len();
    for i in 0..n
        invariant
            n == columns@.len(),
            spec_parse_columns(columns@.take(i as int), result_idx) == Ok::<_, DecodeError>(out@),
    {
        proof {
            assert(columns@.take(i as int + 1).drop_last() =~= columns@.take(i as int));
        }
        match &columns[i] {
            Json::Text(s) => out.push(s.clone()),
            _ => {
                proof {
                    lemma_parse_columns_err_prefix(columns@, i as int + 1, result_idx);
                }
                return Err(DecodeError::ColumnNotString { result_idx, column_idx: i });
            },
        }
    }
    proof {
        assert(columns@.take(n as int) =~= columns@);
    }
    Ok(out)
}

/// What one row's cells decode to: cells are decoded left to right and
/// bound to their column names in order, a later duplicate name
/// overwriting the earlier binding; the first failing cell fails the row.
pub open spec fn spec_parse_row_cells(
    cells: Seq<Json>,
    columns: Seq<String>,
    result_idx: usize,
    row_idx: usize,
) -> Result<Map<Seq<char>, CellValue>, DecodeError>
    decreases cells.len(),
{
    if cells.len() == 0 {
        Ok(Map::empty())
    } else {
        match spec_parse_row_cells(cells.drop_last(), columns, result_idx, row_idx) {
            Err(e) => Err(e),
            Ok(m) => match spec_parse_value(
                cells.last(),
                result_idx,
                row_idx,
                (cells.len() - 1) as usize,
            ) {
                Ok(v) => Ok(m.insert(columns[cells.len() - 1]@, v)),
                Err(e) => Err(e),
            },
        }
    }
}

/// A failing prefix of a row's cells settles the whole row's decode.
proof fn lemma_parse_row_cells_err_prefix(
    cells: Seq<Json>,
    columns: Seq<String>,
    k: int,
    result_idx: usize,
    row_idx: usize,
)
    requires
        0 <= k <= cells.len(),
        spec_parse_row_cells(cells.take(k), columns, result_idx, row_idx) is Err,
    ensures
        spec_parse_row_cells(cells, columns, result_idx, row_idx) == spec_parse_row_cells(
            cells.take(k),
            columns,
            result_idx,
            row_idx,
        ),
    decreases cells.len() - k,
{
    if k < cells.len() {
        assert(cells.take(k + 1).drop_last() =~= cells.take(k));
        lemma_parse_row_cells_err_prefix(cells, columns, k + 1, result_idx, row_idx);
    } else {
        assert(cells.take(k) =~= cells);
    }
}

/// Decodes one row's cells into a [`Row`]. See [`spec_parse_row_cells`].
fn parse_row_cells(
    cells: &Vec<Json>,
    columns: &Vec<String>,
    result_idx: usize,
    row_idx: usize,
) -> (r: Result<Row, DecodeError>)
    requires
        cells@.len() == columns@.len(),
    ensures
        (match (r, spec_parse_row_cells(cells@, columns@, result_idx, row_idx)) {
            (Ok(row), Ok(m)) => row@ == m && row.wf(),
            (Err(a), Err(b)) => a == b,
            _ => false,
        }),
{
    let mut row = Row::new();
    let n = cells.len();
    for i in 0..n
        invariant
            n == cells@.len(),
            cells@.len() == columns@.len(),
            row.wf(),
            spec_parse_row_cells(cells@.take(i as int), columns@, result_idx, row_idx)
                == Ok::<_, DecodeError>(row@),
    {
        proof {
            assert(cells@.take(i as int + 1).drop_last() =~= cells@.take(i as int));
        }
        match parse_value(&cells[i], result_idx, row_idx, i) {
            Ok(v) => {
                row.insert(columns[i].clone(), v);
            },
            Err(e) => {
                proof {
                    lemma_parse_row_cells_err_prefix(
                        cells@,
                        columns@,
                        i as int + 1,
                        result_idx,
                        row_idx,
                    );
                }
                return Err(e);
            },
        }
    }
    proof {
        assert(cells@.take(n as int) =~= cells@);
    }
    Ok(row)
}

/// What one row decodes to: the row must be an array of exactly one cell
/// per column; its cells are then decoded per [`spec_parse_row_cells`].
pub open spec fn spec_parse_row(
    row: Json,
    columns: Seq<String>,
    result_idx: usize,
    row_idx: usize,
) -> Result<Map<Seq<char>, CellValue>, DecodeError> {
    match row {
        Json::Array(cells) => if cells@.len() != columns.len() {
            Err(DecodeError::RowWrongLength { result_idx, row_idx })
        } else {
            spec_parse_row_cells(cells@, columns, result_idx, row_idx)
        },
        _ => Err(DecodeError::RowNotArray { result_idx, row_idx }),
    }
}

/// What a row list decodes to: rows are decoded in array order per
/// [`spec_parse_row`] and the first failing row fails the decode.
pub open spec fn spec_parse_rows(rows: Seq<Json>, columns: Seq<String>, result_idx: usize) -> Result<
    Seq<Map<Seq<char>, CellValue>>,
    DecodeError,
>
    decreases rows.len(),
{
    if rows.len() == 0 {
        Ok(Seq::empty())
    } else {
        match spec_parse_rows(rows.drop_last(), columns, result_idx) {
            Err(e) => Err(e),
            Ok(pre) => match spec_parse_row(
                rows.last(),
                columns,
                result_idx,
                (rows.len() - 1) as usize,
            ) {
                Ok(m) => Ok(pre.push(m)),
                Err(e) => Err(e),
            },
        }
    }
}

/// A failing prefix of the row list settles the whole row list's decode.
proof fn lemma_parse_rows_err_prefix(rows: Seq<Json>, columns: Seq<String>, k: int, result_idx: usize)
    requires
        0 <= k <= rows.len(),
        spec_parse_rows(rows.take(k), columns, result_idx) is Err,
    ensures
        spec_parse_rows(rows, columns, result_idx) == spec_parse_rows(
            rows.take(k),
            columns,
            result_idx,
        ),
    decreases rows.len() - k,
{
    if k < rows.len() {
        assert(rows.take(k + 1).drop_last() =~= rows.take(k));
        lemma_parse_rows_err_prefix(rows, columns, k + 1, result_idx);
    } else {
        assert(rows.take(k) =~= rows);
    }
}

/// A row list whose rows all decode cleanly up to some point decodes
/// cleanly up to that point.
proof fn lemma_parse_rows_ok_prefix(rows: Seq<Json>, columns: Seq<String>, result_idx: usize, k: int)
    requires
        0 <= k <= rows.len(),
        forall|j: int|
            0 <= j < k ==> #[trigger] spec_parse_row(rows[j], columns, result_idx, j as usize)
                is Ok,
    ensures
        spec_parse_rows(rows.take(k), columns, result_idx) is Ok,
    decreases k,
{
    if k > 0 {
        assert(rows.take(k).drop_last() =~= rows.take(k - 1));
        assert(rows.take(k).last() == rows[k - 1]);
        lemma_parse_rows_ok_prefix(rows, columns, result_idx, k - 1);
    }
}

/// The first row whose length differs from the column count fails the
/// whole row list's decode, with exactly that row's index in the error.
pub proof fn lemma_row_wrong_length_fails(
    rows: Seq<Json>,
    columns: Seq<String>,
    result_idx: usize,
    k: int,
)
    requires
        0 <= k < rows.len(),
        rows[k] matches Json::Array(cells) && cells@.len() != columns.len(),
        forall|j: int|
            0 <= j < k ==> #[trigger] spec_parse_row(rows[j], columns, result_idx, j as usize)
                is Ok,
    ensures
        spec_parse_rows(rows, columns, result_idx) == Err::<Seq<Map<Seq<char>, CellValue>>, _>(
            DecodeError::RowWrongLength { result_idx, row_idx: k as usize },
        ),
{
    lemma_parse_rows_ok_prefix(rows, columns, result_idx, k);
    assert(rows.take(k + 1).drop_last() =~= rows.take(k));
    assert(rows.take(k + 1).last() == rows[k]);
    lemma_parse_rows_err_prefix(rows, columns, k + 1, result_idx);
}

/// Decodes a row list. See [`spec_parse_rows`].
pub fn parse_rows(rows: &Vec<Json>, columns: &Vec<String>, result_idx: usize) -> (r: Result<
    Vec<Row>,
    DecodeError,
>)
    ensures
        (match (r, spec_parse_rows(rows@, columns@, result_idx)) {
            (Ok(v), Ok(s)) => v@.map_values(|row: Row| row@) == s && (forall|i: int|
                0 <= i < v@.len() ==> v@[i].wf()),
            (Err(a), Err(b)) => a == b,
            _ => false,
        }),
{
    let mut out: Vec<Row> = Vec::new();
    proof {
        assert(out@.map_values(|row: Row| row@) =~= Seq::<Map<Seq<char>, CellValue>>::empty());
    }
    let n = rows.len();
    for i in 0..n
        invariant
            n == rows@.len(),
            spec_parse_rows(rows@.take(i as int), columns@, result_idx) == Ok::<_, DecodeError>(
                out@.map_values(|row: Row| row@),
            ),
            forall|j: int| 0 <= j < out@.len() ==> out@[j].wf(),
    {
        proof {
            assert(rows@.take(i as int + 1).drop_last() =~= rows@.take(i as int));
        }
        match &rows[i] {
            Json::Array(cells) => {
                if cells.len() != columns.len() {
                    proof {
                        lemma_parse_rows_err_prefix(rows@, columns@, i as int + 1, result_idx);
                    }
                    return Err(DecodeError::RowWrongLength { result_idx, row_idx: i });
                }
                match parse_row_cells(cells, columns, result_idx, i) {
                    Ok(row) => {
                        let ghost pre = out@;
                        out.push(row);
                        proof {
                            assert(out@.map_values(|row: Row| row@) =~= pre.map_values(
                                |row: Row| row@,
                            ).push(out@.last()@));
                        }
                    },
                    Err(e) => {
                        proof {
                            lemma_parse_rows_err_prefix(rows@, columns@, i as int + 1, result_idx);
                        }
                        return Err(e);
                    },
                }
            },
            _ => {
                proof {
                    lemma_parse_rows_err_prefix(rows@, columns@, i as int + 1, result_idx);
                }
                return Err(DecodeError::RowNotArray { result_idx, row_idx: i });
            },
        }
    }
    proof {
        assert(rows@.take(n as int) =~= rows@);
    }
    Ok(out)
}

/// The first value bound under `key` in an object's entry list, if any.
pub open spec fn spec_obj_get(fields: Seq<(String, Json)>, key: Seq<char>) -> Option<Json>
    decreases fields.len(),
{
    if fields.len() == 0 {
        None
    } else if fields[0].0@ == key {
        Some(fields[0].1)
    } else {
        spec_obj_get(fields.drop_first(), key)
    }
}

/// Looks a key up in an object's entry list. See [`spec_obj_get`].
fn obj_get<'a>(fields: &'a Vec<(String, Json)>, key: &String) -> (r: Option<&'a Json>)
    ensures
        (match r {
            Some(j) => spec_obj_get(fields@, key@) == Some(*j),
            None => spec_obj_get(fields@, key@) is None,
        }),
{
    let n = fields.len();
    proof {
        assert(fields@.skip(0) =~= fields@);
    }
    for i in 0..n
        invariant
            n == fields@.len(),
            spec_obj_get(fields@, key@) == spec_obj_get(fields@.skip(i as int), key@),
            forall|k: int| 0 <= k < i ==> fields@[k].0@ != key@,
    {
        proof {
            assert(fields@.skip(i as int).drop_first() =~= fields@.skip(i as int + 1));
            assert(fields@.skip(i as int)[0] == fields@[i as int]);
        }
        if fields[i].0 == *key {
            return Some(&fields[i].1);
        }
    }
    None
}

/// What one element of the response array decodes to.
///
/// An object with an `error` field yields that error's string message; an
/// object with a `results` object yields its decoded columns and rows;
/// anything else fails with this element's index. Metadata is always the
/// default value: the wire format carries none.
pub open spec fn spec_parse_query_result(v: Json, result_idx: usize) -> Result<
    SpecQueryResult,
    DecodeError,
> {
    match v {
        Json::Object(fields) => match spec_obj_get(fields@, "error"@) {
            Some(err) => match err {
                Json::Object(efields) => match spec_obj_get(efields@, "message"@) {
                    Some(Json::Text(msg)) => Ok(
                        SpecQueryResult::Error(msg@, Meta { duration: 0 }),
                    ),
                    _ => Err(DecodeError::ErrorMessageNotString { result_idx }),
                },
                _ => Err(DecodeError::ErrorNotObject { result_idx }),
            },
            None => match spec_obj_get(fields@, "results"@) {
                Some(Json::Object(rfields)) => match spec_obj_get(rfields@, "columns"@) {
                    None => Err(DecodeError::MissingColumns { result_idx }),
                    Some(cols_json) => match spec_obj_get(rfields@, "rows"@) {
                        None => Err(DecodeError::MissingRows { result_idx }),
                        Some(rows_json) => match (rows_json, cols_json) {
                            (Json::Array(rows), Json::Array(cols)) => match spec_parse_columns(
                                cols@,
                                result_idx,
                            ) {
                                Err(e) => Err(e),
                                Ok(names) => match spec_parse_rows(rows@, names, result_idx) {
                                    Err(e) => Err(e),
                                    Ok(rmaps) => Ok(
                                        SpecQueryResult::Success(
                                            SpecResultSet { columns: names, rows: rmaps },
                                            Meta { duration: 0 },
                                        ),
                                    ),
                                },
                            },
                            _ => Err(DecodeError::ColumnsOrRowsNotArray { result_idx }),
                        },
                    },
                },
                Some(_) => Err(DecodeError::ResultsNotObject { result_idx }),
                None => Err(DecodeError::MissingResultsOrError { result_idx }),
            },
        },
        _ => Err(DecodeError::ElementNotObject { result_idx }),
    }
}

/// Decodes one element of the response array. See
/// [`spec_parse_query_result`].
pub fn parse_query_result(v: &Json, result_idx: usize) -> (r: Result<QueryResult, DecodeError>)
    ensures
        (match (r, spec_parse_query_result(*v, result_idx)) {
            (Ok(q), Ok(sq)) => q@ == sq,
            (Err(a), Err(b)) => a == b,
            _ => false,
        }),
{
    match v {
        Json::Object(fields) => match obj_get(fields, &String::from_str("error")) {
            Some(err) => match err {
                Json::Object(efields) => match obj_get(efields, &String::from_str("message")) {
                    Some(Json::Text(msg)) => Ok(
                        QueryResult::Error(msg.clone(), Meta { duration: 0 }),
                    ),
                    _ => Err(DecodeError::ErrorMessageNotString { result_idx }),
                },
                _ => Err(DecodeError::ErrorNotObject { result_idx }),
            },
            None => match obj_get(fields, &String::from_str("results")) {
                Some(results) => match results {
                    Json::Object(rfields) => match obj_get(rfields, &String::from_str("columns")) {
                        None => Err(DecodeError::MissingColumns { result_idx }),
                        Some(cols_json) => match obj_get(rfields, &String::from_str("rows")) {
                            None => Err(DecodeError::MissingRows { result_idx }),
                            Some(rows_json) => match (rows_json, cols_json) {
                                (Json::Array(rows), Json::Array(cols)) => match parse_columns(
                                    cols,
                                    result_idx,
                                ) {
                                    Err(e) => Err(e),
                                    Ok(names) => match parse_rows(rows, &names, result_idx) {
                                        Err(e) => Err(e),
                                        Ok(parsed_rows) => Ok(
                                            QueryResult::Success(
                                                ResultSet { columns: names, rows: parsed_rows },
                                                Meta { duration: 0 },
                                            ),
                                        ),
                                    },
                                },
                                _ => Err(DecodeError::ColumnsOrRowsNotArray { result_idx }),
                            },
                        },
                    },
                    _ => Err(DecodeError::ResultsNotObject { result_idx }),
                },
                None => Err(DecodeError::MissingResultsOrError { result_idx }),
            },
        },
        _ => Err(DecodeError::ElementNotObject { result_idx }),
    }
}

/// What the elements of the response array decode to, in order; the first
/// failing element fails the decode with its index.
pub open spec fn spec_decode_results(elems: Seq<Json>) -> Result<Seq<SpecQueryResult>, DecodeError>
    decreases elems.len(),
{
    if elems.len() == 0 {
        Ok(Seq::empty())
    } else {
        match spec_decode_results(elems.drop_last()) {
            Err(e) => Err(e),
            Ok(pre) => match spec_parse_query_result(
                elems.last(),
                (elems.len() - 1) as usize,
            ) {
                Ok(q) => Ok(pre.push(q)),
                Err(e) => Err(e),
            },
        }
    }
}

/// A failing prefix of the response array settles the whole decode.
proof fn lemma_decode_results_err_prefix(elems: Seq<Json>, k: int)
    requires
        0 <= k <= elems.len(),
        spec_decode_results(elems.take(k)) is Err,
    ensures
        spec_decode_results(elems) == spec_decode_results(elems.take(k)),
    decreases elems.len() - k,
{
    if k < elems.len() {
        assert(elems.take(k + 1).drop_last() =~= elems.take(k));
        lemma_decode_results_err_prefix(elems, k + 1);
    } else {
        assert(elems.take(k) =~= elems);
    }
}

/// What a parsed response decodes to, given the number of submitted
/// statements: the parse must yield an array of exactly that length, and
/// every element must decode; anything else fails the whole call.
pub open spec fn spec_decode(response: Json, count: usize) -> Result<
    Seq<SpecQueryResult>,
    DecodeError,
> {
    match response {
        Json::Array(elems) => if elems@.len() != count {
            Err(DecodeError::WrongCount { expected: count })
        } else {
            spec_decode_results(elems@)
        },
        _ => Err(DecodeError::NotAnArray),
    }
}

/// What a raw response body decodes to: the bytes must parse as JSON, and
/// the parsed document must decode per [`spec_decode`].
pub open spec fn spec_decode_response(body: Seq<u8>, count: usize) -> Result<
    Seq<SpecQueryResult>,
    DecodeError,
> {
    match json_of(body) {
        Some(j) => spec_decode(j, count),
        None => Err(DecodeError::InvalidJson),
    }
}

/// Decodes a parsed response into one outcome per submitted statement.
/// See [`spec_decode`].
pub fn decode_json(response: &Json, count: usize) -> (r: Result<Vec<QueryResult>, DecodeError>)
    ensures
        (match (r, spec_decode(*response, count)) {
            (Ok(v), Ok(s)) => v@.map_values(|q: QueryResult| q@) == s && v@.len() == count,
            (Err(a), Err(b)) => a == b,
            _ => false,
        }),
{
    match response {
        Json::Array(elems) => {
            if elems.len() != count {
                return Err(DecodeError::WrongCount { expected: count });
            }
            let mut out: Vec<QueryResult> = Vec::new();
            proof {
                assert(out@.map_values(|q: QueryResult| q@) =~= Seq::<
                    SpecQueryResult,
                >::empty());
            }
            let n = elems.len();
            for i in 0..n
                invariant
                    n == elems@.len(),
                    count == n,
                    *response == Json::Array(*elems),
                    out@.len() == i,
                    spec_decode_results(elems@.take(i as int)) == Ok::<_, DecodeError>(
                        out@.map_values(|q: QueryResult| q@),
                    ),
            {
                proof {
                    assert(elems@.take(i as int + 1).drop_last() =~= elems@.take(i as int));
                    assert(elems@.take(i as int + 1).last() == elems@[i as int]);
                }
                match parse_query_result(&elems[i], i) {
                    Ok(q) => {
                        let ghost pre = out@;
                        out.push(q);
                        proof {
                            assert(out@.map_values(|q: QueryResult| q@) =~= pre.map_values(
                                |q: QueryResult| q@,
                            ).push(out@.last()@));
                        }
                    },
                    Err(e) => {
                        proof {
                            lemma_decode_results_err_prefix(elems@, i as int + 1);
                        }
                        return Err(e);
                    },
                }
            }
            proof {
                assert(elems@.take(n as int) =~= elems@);
            }
            Ok(out)
        },
        _ => Err(DecodeError::NotAnArray),
    }
}

/// Decodes a raw response body into one outcome per submitted statement.
/// See [`spec_decode_response`].
pub fn decode_batch_response(body: &[u8], count: usize) -> (r: Result<Vec<QueryResult>, DecodeError>)
    ensures
        (match (r, spec_decode_response(body@, count)) {
            (Ok(v), Ok(s)) => v@.map_values(|q: QueryResult| q@) == s && v@.len() == count,
            (Err(a), Err(b)) => a == b,
            _ => false,
        }),
{
    match json_from_bytes(body) {
        Some(response) => decode_json(&response, count),
        None => Err(DecodeError::InvalidJson),
    }
}

/// What decoding the response to a single statement yields: the one
/// outcome of [`spec_decode_response`] with a count of one.
pub open spec fn spec_decode_execute_response(body: Seq<u8>) -> Result<
    SpecQueryResult,
    DecodeError,
> {
    match spec_decode_response(body, 1) {
        Ok(outcomes) => Ok(outcomes[0]),
        Err(e) => Err(e),
    }
}

/// Decodes the response to a single statement into its one outcome: the
/// same outcome that decoding it as a one-statement batch yields first.
pub fn decode_execute_response(body: &[u8]) -> (r: Result<QueryResult, DecodeError>)
    ensures
        (match (r, spec_decode_execute_response(body@)) {
            (Ok(q), Ok(sq)) => q@ == sq,
            (Err(a), Err(b)) => a == b,
            _ => false,
        }),
{
    match decode_batch_response(body, 1) {
        Ok(mut outcomes) => {
            let first = outcomes.remove(0);
            Ok(first)
        },
        Err(e) => Err(e),
    }
}

/// A single statement's outcome is the first outcome of the one-statement
/// batch: decoding a body for one statement and taking the batch's first
/// outcome is the same as decoding it as a single execution.
pub proof fn lemma_execute_matches_batch(body: Seq<u8>)
    ensures
        (match (spec_decode_execute_response(body), spec_decode_response(body, 1)) {
            (Ok(q), Ok(outcomes)) => outcomes.len() == 1 && q == outcomes[0],
            (Err(a), Err(b)) => a == b,
            _ => false,
        }),
{
    match spec_decode_response(body, 1) {
        Ok(outcomes) => {
            lemma_decode_count(body, 1);
        },
        Err(e) => {},
    }
}

/// A well-formed response decodes to exactly as many outcomes as there
/// were statements, in response order.
pub proof fn lemma_decode_count(body: Seq<u8>, count: usize)
    ensures
        spec_decode_response(body, count) matches Ok(outcomes) ==> outcomes.len() == count,
{
    if spec_decode_response(body, count) is Ok {
        let j = json_of(body)->0;
        let elems = j->Array_0;
        lemma_decode_results_len(elems@);
    }
}

/// Element-wise decoding preserves length and order: an `Ok` decode of a
/// sequence of elements has one outcome per element, each the decode of
/// the element at its own index.
pub proof fn lemma_decode_results_len(elems: Seq<Json>)
    ensures
        spec_decode_results(elems) matches Ok(outcomes) ==> {
            &&& outcomes.len() == elems.len()
            &&& forall|i: int|
                0 <= i < elems.len() ==> #[trigger] spec_parse_query_result(elems[i], i as usize)
                    == Ok::<_, DecodeError>(outcomes[i])
        },
    decreases elems.len(),
{
    if elems.len() > 0 {
        lemma_decode_results_len(elems.drop_last());
        match spec_decode_results(elems.drop_last()) {
            Ok(pre) => match spec_parse_query_result(elems.last(), (elems.len() - 1) as usize) {
                Ok(q) => {
                    let outcomes = pre.push(q);
                    assert forall|i: int|
                        0 <= i < elems.len() implies #[trigger] spec_parse_query_result(
                        elems[i],
                        i as usize,
                    ) == Ok::<_, DecodeError>(outcomes[i]) by {
                        if i < elems.len() - 1 {
                            assert(elems.drop_last()[i] == elems[i]);
                            assert(outcomes[i] == pre[i]);
                        } else {
                            assert(elems.last() == elems[i]);
                        }
                    }
                },
                Err(_) => {},
            },
            Err(_) => {},
        }
    }
}

/// Element-wise decoding is complete: where every element decodes, the
/// whole sequence decodes.
pub proof fn lemma_decode_results_complete(elems: Seq<Json>)
    requires
        forall|i: int|
            0 <= i < elems.len() ==> #[trigger] spec_parse_query_result(elems[i], i as usize)
                is Ok,
    ensures
        spec_decode_results(elems) is Ok,
    decreases elems.len(),
{
    if elems.len() > 0 {
        assert forall|i: int|
            0 <= i < elems.drop_last().len() implies #[trigger] spec_parse_query_result(
            elems.drop_last()[i],
            i as usize,
        ) is Ok by {
            assert(elems.drop_last()[i] == elems[i]);
        }
        lemma_decode_results_complete(elems.drop_last());
        assert(elems.last() == elems[elems.len() - 1]);
    }
}

/// For every statement count, a well-formed response array of that length
/// decodes to exactly one outcome per element, in order.
pub proof fn lemma_well_formed_response_decodes(response: Json, count: usize)
    requires
        response matches Json::Array(elems) && elems@.len() == count && (forall|i: int|
            0 <= i < elems@.len() ==> #[trigger] spec_parse_query_result(elems@[i], i as usize)
                is Ok),
    ensures
        spec_decode(response, count) matches Ok(outcomes) && outcomes.len() == count && (forall|
            i: int,
        |
            0 <= i < count ==> #[trigger] spec_parse_query_result(response->Array_0@[i], i as usize)
                == Ok::<_, DecodeError>(outcomes[i])),
{
    let elems = response->Array_0;
    lemma_decode_results_complete(elems@);
    lemma_decode_results_len(elems@);
}

/// A response array whose length differs from the statement count fails
/// the decode outright, whatever its elements hold.
pub proof fn lemma_wrong_count_fails(response: Json, count: usize)
    requires
        response matches Json::Array(elems) && elems@.len() != count,
    ensures
        spec_decode(response, count) == Err::<Seq<SpecQueryResult>, _>(
            DecodeError::WrongCount { expected: count },
        ),
{
}

} // verus!
