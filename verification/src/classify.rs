//! Classification of a single cell into a column type.

use vstd::prelude::*;
use crate::source::{cell_at, iso_datetime_parses, iso_is_datetime, range_cells};
use crate::types::{str_eq, CellError, CellModel, CellValue, DType, SchemaError};

verus! {

/// Whether a cell's text is one of the literals read as a missing value. The
/// match is exact and case-sensitive.
pub open spec fn is_null_token(text: Seq<char>) -> bool {
    ||| text == ""@
    ||| text == "#N/A"@
    ||| text == "#N/A N/A"@
    ||| text == "#NA"@
    ||| text == "-1.#IND"@
    ||| text == "-1.#QNAN"@
    ||| text == "-NaN"@
    ||| text == "-nan"@
    ||| text == "1.#IND"@
    ||| text == "1.#QNAN"@
    ||| text == "<NA>"@
    ||| text == "N/A"@
    ||| text == "NA"@
    ||| text == "NULL"@
    ||| text == "NaN"@
    ||| text == "None"@
    ||| text == "n/a"@
    ||| text == "nan"@
    ||| text == "null"@
}

/// Whether an error code stands for a legitimately missing value.
pub open spec fn is_missing_value(code: CellError) -> bool {
    code == CellError::NA || code == CellError::Value || code == CellError::Null
}

/// The type of a cell, given whether its text parses as a date-time (which
/// only an ISO date-time cell looks at).
pub open spec fn classify_given(cell: CellModel, iso_is_datetime: bool) -> Result<
    DType,
    SchemaError,
> {
    match cell {
        CellModel::Int => Ok(DType::Int),
        CellModel::Float => Ok(DType::Float),
        CellModel::String(text) => if is_null_token(text) {
            Ok(DType::Null)
        } else {
            Ok(DType::String)
        },
        CellModel::Bool => Ok(DType::Bool),
        CellModel::NativeDateTime(is_datetime) => if is_datetime {
            Ok(DType::DateTime)
        } else {
            Ok(DType::Duration)
        },
        CellModel::IsoDateTimeOrDate(_) => if iso_is_datetime {
            Ok(DType::DateTime)
        } else {
            Ok(DType::Date)
        },
        CellModel::IsoDuration => Ok(DType::Duration),
        CellModel::ErrorMarker(code) => if is_missing_value(code) {
            Ok(DType::Null)
        } else {
            Err(SchemaError::UnsupportedCellError(code))
        },
        CellModel::Empty => Ok(DType::Null),
    }
}

/// The type of a cell.
pub open spec fn classify(cell: CellModel) -> Result<DType, SchemaError> {
    match cell {
        CellModel::IsoDateTimeOrDate(text) => classify_given(cell, iso_datetime_parses(text)),
        _ => classify_given(cell, false),
    }
}

/// The type of the cell at (row, column) of a source, or the reason why it
/// has none.
pub open spec fn classify_at(
    range: calamine::Range<calamine::Data>,
    row: usize,
    col: usize,
) -> Result<DType, SchemaError> {
    if range_cells(range).contains_key((row as int, col as int)) {
        classify(range_cells(range)[(row as int, col as int)])
    } else {
        Err(SchemaError::CellOutOfRange(row, col))
    }
}

/// Tells whether `text` is one of the literals read as a missing value.
pub fn is_null_string(text: &str) -> (found: bool)
    ensures
        found == is_null_token(text@),
{
    str_eq(text, "") || str_eq(text, "#N/A") || str_eq(text, "#N/A N/A") || str_eq(text, "#NA")
        || str_eq(text, "-1.#IND") || str_eq(text, "-1.#QNAN") || str_eq(text, "-NaN") || str_eq(
        text,
        "-nan",
    ) || str_eq(text, "1.#IND") || str_eq(text, "1.#QNAN") || str_eq(text, "<NA>") || str_eq(
        text,
        "N/A",
    ) || str_eq(text, "NA") || str_eq(text, "NULL") || str_eq(text, "NaN") || str_eq(
        text,
        "None",
    ) || str_eq(text, "n/a") || str_eq(text, "nan") || str_eq(text, "null")
}

/// Classifies a cell whose text, if it is an ISO date-time cell, is already
/// known to parse as a date-time or not.
pub fn cell_dtype_given(cell: &CellValue, iso_is_datetime: bool) -> (dtype: Result<
    DType,
    SchemaError,
>)
    ensures
        dtype == classify_given(cell@, iso_is_datetime),
{
    match cell {
        CellValue::Int => Ok(DType::Int),
        CellValue::Float => Ok(DType::Float),
        CellValue::String(text) => {
            if is_null_string(text.as_str()) {
                Ok(DType::Null)
            } else {
                Ok(DType::String)
            }
        },
        CellValue::Bool => Ok(DType::Bool),
        CellValue::NativeDateTime(is_datetime) => {
            if *is_datetime {
                Ok(DType::DateTime)
            } else {
                Ok(DType::Duration)
            }
        },
        CellValue::IsoDateTimeOrDate(_) => {
            if iso_is_datetime {
                Ok(DType::DateTime)
            } else {
                Ok(DType::Date)
            }
        },
        CellValue::IsoDuration => Ok(DType::Duration),
        CellValue::ErrorMarker(code) => {
            match code {
                CellError::NA | CellError::Value | CellError::Null => Ok(DType::Null),
                _ => Err(SchemaError::UnsupportedCellError(*code)),
            }
        },
        CellValue::Empty => Ok(DType::Null),
    }
}

/// Classifies one cell. An ISO date-time cell is a date-time where its text
/// parses as one, and a date otherwise.
pub fn cell_dtype(cell: &CellValue) -> (dtype: Result<DType, SchemaError>)
    ensures
        dtype == classify(cell@),
{
    match cell {
        CellValue::IsoDateTimeOrDate(text) => {
            let parsed = iso_is_datetime(text.as_str());
            cell_dtype_given(cell, parsed)
        },
        _ => cell_dtype_given(cell, false),
    }
}

/// Classifies the cell at (row, column) of a source. A position outside the
/// source is an error, never a default type.
pub fn get_cell_dtype(range: &calamine::Range<calamine::Data>, row: usize, col: usize) -> (dtype:
    Result<DType, SchemaError>)
    ensures
        dtype == classify_at(*range, row, col),
        !range_cells(*range).contains_key((row as int, col as int)) <==> dtype == Err::<
            DType,
            SchemaError,
        >(SchemaError::CellOutOfRange(row, col)),
{
    match cell_at(range, row, col) {
        Some(cell) => cell_dtype(&cell),
        None => Err(SchemaError::CellOutOfRange(row, col)),
    }
}

} // verus!
