//! The cell source: a `calamine` range of cells, reached through a small set
//! of trusted declarations.

use vstd::prelude::*;
use crate::types::{CellError, CellModel, CellValue};

verus! {

/// `calamine::Range`, a rectangular selection of cells. Its contents are
/// opaque to the verifier and only reached through [`range_cells`].
#[verifier::external_type_specification]
#[verifier::external_body]
#[verifier::reject_recursive_types(T)]
pub struct ExRange<T>(calamine::Range<T>);

/// `calamine::Data`, the raw value of one cell.
#[verifier::external_type_specification]
#[verifier::external_body]
pub struct ExData(calamine::Data);

/// `calamine::CellErrorType`, the error code of a cell; an enum without
/// fields, whose variants the verifier reads from the crate itself.
#[verifier::external_type_specification]
pub struct ExCellErrorType(calamine::CellErrorType);

/// The cells a range holds, keyed by (row, column) relative to its top left
/// corner.
pub uninterp spec fn range_cells(range: calamine::Range<calamine::Data>) -> Map<(int, int), CellModel>;

/// Converts an error code of the source into the library's own.
pub fn cell_error_of(code: &calamine::CellErrorType) -> (out: CellError)
    ensures
        out == error_code(*code),
{
    match code {
        calamine::CellErrorType::Div0 => CellError::Div0,
        calamine::CellErrorType::NA => CellError::NA,
        calamine::CellErrorType::Name => CellError::Name,
        calamine::CellErrorType::Null => CellError::Null,
        calamine::CellErrorType::Num => CellError::Num,
        calamine::CellErrorType::Ref => CellError::Ref,
        calamine::CellErrorType::Value => CellError::Value,
        calamine::CellErrorType::GettingData => CellError::GettingData,
    }
}

/// The library's error code for an error code of the source.
pub open spec fn error_code(code: calamine::CellErrorType) -> CellError {
    match code {
        calamine::CellErrorType::Div0 => CellError::Div0,
        calamine::CellErrorType::NA => CellError::NA,
        calamine::CellErrorType::Name => CellError::Name,
        calamine::CellErrorType::Null => CellError::Null,
        calamine::CellErrorType::Num => CellError::Num,
        calamine::CellErrorType::Ref => CellError::Ref,
        calamine::CellErrorType::Value => CellError::Value,
        calamine::CellErrorType::GettingData => CellError::GettingData,
    }
}

/// `calamine::Range::get`: the cell at a position relative to the range's
/// top left corner, or `None` where the position lies outside the range.
/// The cell comes back as the library's own reading of it, variant for
/// variant; a native date-time carries what `calamine::ExcelDateTime::is_datetime`
/// says of it. Trusted: that [`range_cells`] holds exactly the cells that
/// `get` finds.
#[verifier::external_body]
pub(crate) fn cell_at(range: &calamine::Range<calamine::Data>, row: usize, col: usize) -> (cell: Option<CellValue>)
    ensures
        match cell {
            Some(value) => range_cells(*range).contains_key((row as int, col as int))
                && value@ == range_cells(*range)[(row as int, col as int)],
            None => !range_cells(*range).contains_key((row as int, col as int)),
        },
{
    range.get((row, col)).map(|d| match d {
        calamine::Data::Int(_) => CellValue::Int,
        calamine::Data::Float(_) => CellValue::Float,
        calamine::Data::String(s) => CellValue::String(s.clone()),
        calamine::Data::Bool(_) => CellValue::Bool,
        calamine::Data::DateTime(dt) => CellValue::NativeDateTime(dt.is_datetime()),
        calamine::Data::DateTimeIso(s) => CellValue::IsoDateTimeOrDate(s.clone()),
        calamine::Data::DurationIso(_) => CellValue::IsoDuration,
        calamine::Data::Error(e) => CellValue::ErrorMarker(cell_error_of(e)),
        calamine::Data::Empty => CellValue::Empty,
    })
}

/// Whether ISO 8601 text reads as a date-time, as opposed to a bare date or
/// time.
pub uninterp spec fn iso_datetime_parses(text: Seq<char>) -> bool;

/// `calamine::DataType::as_datetime` on an ISO 8601 cell: whether the text
/// of the cell parses as a date-time. Trusted: that the answer depends on
/// the text alone, which [`iso_datetime_parses`] names.
#[verifier::external_body]
pub(crate) fn iso_is_datetime(text: &str) -> (parsed: bool)
    ensures
        parsed == iso_datetime_parses(text@),
{
    calamine::DataType::as_datetime(&calamine::Data::DateTimeIso(text.to_owned())).is_some()
}

} // verus!
