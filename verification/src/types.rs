//! The plain data types shared by every part of the library.

use vstd::prelude::*;

verus! {

/// The logical type of a column, or of a single classified cell.
#[derive(Debug, Clone, Copy, PartialEq, Eq, Hash, Structural)]
pub enum DType {
    Null,
    Int,
    Float,
    String,
    Bool,
    DateTime,
    Date,
    Duration,
}

/// The error code carried by a cell that holds an error marker.
#[derive(Debug, Clone, Copy, PartialEq, Eq, Hash, Structural)]
pub enum CellError {
    Div0,
    NA,
    Name,
    Null,
    Num,
    Ref,
    Value,
    GettingData,
}

/// One raw reading of a cell, reduced to what type inference looks at.
#[derive(Debug, Clone, PartialEq, Eq)]
pub enum CellValue {
    Int,
    Float,
    String(String),
    Bool,
    /// A natively encoded date-time; the flag tells a point in time (`true`)
    /// from an elapsed interval (`false`).
    NativeDateTime(bool),
    /// ISO 8601 text that is either a date-time or a date.
    IsoDateTimeOrDate(String),
    IsoDuration,
    ErrorMarker(CellError),
    Empty,
}

/// What a cell reading holds, with its text as a sequence of characters.
pub enum CellModel {
    Int,
    Float,
    String(Seq<char>),
    Bool,
    NativeDateTime(bool),
    IsoDateTimeOrDate(Seq<char>),
    IsoDuration,
    ErrorMarker(CellError),
    Empty,
}

impl View for CellValue {
    type V = CellModel;

    open spec fn view(&self) -> CellModel {
        match self {
            CellValue::Int => CellModel::Int,
            CellValue::Float => CellModel::Float,
            CellValue::String(text) => CellModel::String(text@),
            CellValue::Bool => CellModel::Bool,
            CellValue::NativeDateTime(is_datetime) => CellModel::NativeDateTime(*is_datetime),
            CellValue::IsoDateTimeOrDate(text) => CellModel::IsoDateTimeOrDate(text@),
            CellValue::IsoDuration => CellModel::IsoDuration,
            CellValue::ErrorMarker(code) => CellModel::ErrorMarker(*code),
            CellValue::Empty => CellModel::Empty,
        }
    }
}

/// A set of column types, one flag per type.
#[derive(Debug, Clone, Copy, PartialEq, Eq, Hash, Structural)]
pub struct TypeSet {
    pub null: bool,
    pub int: bool,
    pub float: bool,
    pub string: bool,
    pub boolean: bool,
    pub datetime: bool,
    pub date: bool,
    pub duration: bool,
}

/// Everything that can stop a schema from being built.
#[derive(Debug, Clone, PartialEq, Eq)]
pub enum SchemaError {
    /// The source holds no cell at (row, column).
    CellOutOfRange(usize, usize),
    /// A cell carries an error code that is not read as a missing value.
    UnsupportedCellError(CellError),
    /// The non-null types observed in a column have no common type.
    IncompatibleColumnTypes(TypeSet),
    /// A type name outside the fixed vocabulary.
    InvalidTypeName(String),
}

/// The key of a type override: a zero-based column index or a column name.
#[derive(Debug, Clone, PartialEq, Eq, Hash)]
pub enum IdxOrName {
    Idx(usize),
    Name(String),
}

/// One column of a schema. Every field is nullable.
#[derive(Debug, Clone, PartialEq, Eq)]
pub struct Field {
    pub name: String,
    pub dtype: DType,
}

/// `str::eq`, the `==` of string slices. Trusted: that two slices are equal
/// exactly when they hold the same characters.
#[verifier::external_body]
pub(crate) fn str_eq(a: &str, b: &str) -> (same: bool)
    ensures
        same == (a@ == b@),
{
    a == b
}

/// The type that a name of the override vocabulary stands for.
pub open spec fn dtype_of_name(name: Seq<char>) -> Option<DType> {
    if name == "null"@ {
        Some(DType::Null)
    } else if name == "int"@ {
        Some(DType::Int)
    } else if name == "float"@ {
        Some(DType::Float)
    } else if name == "string"@ {
        Some(DType::String)
    } else if name == "boolean"@ {
        Some(DType::Bool)
    } else if name == "datetime"@ {
        Some(DType::DateTime)
    } else if name == "date"@ {
        Some(DType::Date)
    } else if name == "duration"@ {
        Some(DType::Duration)
    } else {
        None
    }
}

/// The name of a type in the override vocabulary.
pub open spec fn name_of_dtype(dtype: DType) -> Seq<char> {
    match dtype {
        DType::Null => "null"@,
        DType::Int => "int"@,
        DType::Float => "float"@,
        DType::String => "string"@,
        DType::Bool => "boolean"@,
        DType::DateTime => "datetime"@,
        DType::Date => "date"@,
        DType::Duration => "duration"@,
    }
}

impl DType {
    /// Reads a type name of the fixed vocabulary; any other text is refused
    /// and handed back in the error.
    pub fn from_str(raw_dtype: &str) -> (parsed: Result<DType, SchemaError>)
        ensures
            match dtype_of_name(raw_dtype@) {
                Some(dtype) => parsed == Ok::<DType, SchemaError>(dtype),
                None => parsed matches Err(SchemaError::InvalidTypeName(text)) && text@
                    == raw_dtype@,
            },
    {
        if str_eq(raw_dtype, "null") {
            Ok(DType::Null)
        } else if str_eq(raw_dtype, "int") {
            Ok(DType::Int)
        } else if str_eq(raw_dtype, "float") {
            Ok(DType::Float)
        } else if str_eq(raw_dtype, "string") {
            Ok(DType::String)
        } else if str_eq(raw_dtype, "boolean") {
            Ok(DType::Bool)
        } else if str_eq(raw_dtype, "datetime") {
            Ok(DType::DateTime)
        } else if str_eq(raw_dtype, "date") {
            Ok(DType::Date)
        } else if str_eq(raw_dtype, "duration") {
            Ok(DType::Duration)
        } else {
            Err(SchemaError::InvalidTypeName(raw_dtype.to_owned()))
        }
    }

    /// The name of this type in the override vocabulary.
    pub fn to_string(&self) -> (name: String)
        ensures
            name@ == name_of_dtype(*self),
    {
        let name: &str = match self {
            DType::Null => "null",
            DType::Int => "int",
            DType::Float => "float",
            DType::String => "string",
            DType::Bool => "boolean",
            DType::DateTime => "datetime",
            DType::Date => "date",
            DType::Duration => "duration",
        };
        name.to_owned()
    }
}

/// Reading back the name of a type gives that type.
pub proof fn lemma_name_round_trip(dtype: DType)
    ensures
        dtype_of_name(name_of_dtype(dtype)) == Some(dtype),
{
    reveal_strlit("null");
    reveal_strlit("int");
    reveal_strlit("float");
    reveal_strlit("string");
    reveal_strlit("boolean");
    reveal_strlit("datetime");
    reveal_strlit("date");
    reveal_strlit("duration");
    assert("null"@.len() == 4 && "int"@.len() == 3 && "float"@.len() == 5);
    assert("string"@.len() == 6 && "boolean"@.len() == 7 && "datetime"@.len() == 8);
    assert("date"@.len() == 4 && "duration"@.len() == 8);
    assert("null"@[0] == 'n' && "date"@[0] == 'd');
    assert("datetime"@[1] == 'a' && "duration"@[1] == 'u');
}

} // verus!
