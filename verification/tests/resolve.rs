use calamine::{Cell, CellErrorType, Data, Range};
use sheet_schema::resolve::{float_types, get_dtype_for_column, int_types, string_types};
use sheet_schema::types::{CellError, DType, SchemaError, TypeSet};

fn range() -> Range<Data> {
    Range::from_sparse(vec![
        Cell::new((0, 0), Data::Bool(true)),
        Cell::new((1, 0), Data::Bool(false)),
        Cell::new((2, 0), Data::String("NULL".to_string())),
        Cell::new((3, 0), Data::Int(42)),
        Cell::new((4, 0), Data::Float(13.37)),
        Cell::new((5, 0), Data::String("hello".to_string())),
        Cell::new((6, 0), Data::Empty),
        Cell::new((7, 0), Data::String("#N/A".to_string())),
        Cell::new((8, 0), Data::Int(12)),
        Cell::new((9, 0), Data::Float(12.21)),
        Cell::new((10, 0), Data::Bool(true)),
        Cell::new((11, 0), Data::Int(1337)),
    ])
}

fn set_of(types: &[DType]) -> TypeSet {
    let mut set = TypeSet::new();
    for dtype in types {
        set.insert(*dtype);
    }
    set
}

#[test]
fn get_arrow_column_type_multi_dtype_ok() {
    let cases = [
        (0, 2, DType::Bool),
        (3, 4, DType::Int),
        (4, 5, DType::Float),
        (5, 6, DType::String),
        (3, 5, DType::Float),
        (2, 5, DType::Float),
        (4, 6, DType::String),
        (3, 6, DType::String),
        (2, 8, DType::String),
        (6, 9, DType::Int),
        (7, 10, DType::Float),
        (7, 11, DType::Float),
        (10, 12, DType::Int),
    ];
    let range = range();
    for (start_row, end_row, expected) in cases {
        assert_eq!(get_dtype_for_column(&range, start_row, end_row, 0), Ok(expected));
    }
}

#[test]
fn lattice_fixed_points() {
    assert_eq!(set_of(&[DType::Bool]).resolve(), Ok(DType::Bool));
    assert_eq!(set_of(&[DType::Int, DType::Bool]).resolve(), Ok(DType::Int));
    assert_eq!(set_of(&[DType::Int, DType::Float, DType::Bool]).resolve(), Ok(DType::Float));
    assert_eq!(set_of(&[DType::Float, DType::String]).resolve(), Ok(DType::String));
    assert_eq!(set_of(&[DType::Int, DType::Float, DType::String]).resolve(), Ok(DType::String));
    assert_eq!(set_of(&[]).resolve(), Ok(DType::Null));
    assert_eq!(
        set_of(&[DType::Date, DType::Int]).resolve(),
        Err(SchemaError::IncompatibleColumnTypes(set_of(&[DType::Date, DType::Int])))
    );
}

#[test]
fn null_never_constrains() {
    assert_eq!(set_of(&[DType::Null]).resolve(), Ok(DType::Null));
    assert_eq!(set_of(&[DType::Null, DType::Date]).resolve(), Ok(DType::Date));
    assert_eq!(set_of(&[DType::Null, DType::Int, DType::Bool]).resolve(), Ok(DType::Int));
    assert_eq!(
        set_of(&[DType::Null, DType::String, DType::Bool]).resolve(),
        Err(SchemaError::IncompatibleColumnTypes(set_of(&[DType::String, DType::Bool])))
    );
}

#[test]
fn single_types_resolve_to_themselves() {
    for dtype in [
        DType::Int,
        DType::Float,
        DType::String,
        DType::Bool,
        DType::DateTime,
        DType::Date,
        DType::Duration,
    ] {
        assert_eq!(set_of(&[dtype]).resolve(), Ok(dtype));
        assert_eq!(set_of(&[dtype]).single(), Some(dtype));
    }
    assert_eq!(set_of(&[]).single(), None);
    assert_eq!(set_of(&[DType::Int, DType::Date]).single(), None);
}

#[test]
fn temporal_types_never_mix() {
    for other in [DType::Int, DType::Float, DType::String, DType::Bool, DType::Date] {
        let set = set_of(&[DType::DateTime, other]);
        assert_eq!(set.resolve(), Err(SchemaError::IncompatibleColumnTypes(set)));
    }
    let set = set_of(&[DType::Date, DType::Duration]);
    assert_eq!(set.resolve(), Err(SchemaError::IncompatibleColumnTypes(set)));
}

#[test]
fn compatible_sets_hold_their_types() {
    assert_eq!(int_types(), set_of(&[DType::Int, DType::Bool]));
    assert_eq!(float_types(), set_of(&[DType::Int, DType::Float, DType::Bool]));
    assert_eq!(string_types(), set_of(&[DType::Int, DType::Float, DType::String]));
    assert!(int_types().is_subset(&float_types()));
    assert!(!float_types().is_subset(&int_types()));
    assert!(!string_types().contains(DType::Bool));
    assert!(float_types().contains(DType::Bool));
}

#[test]
fn type_set_operations() {
    let mut set = TypeSet::new();
    assert!(set.is_empty());
    set.insert(DType::Float);
    set.insert(DType::Float);
    assert!(set.contains(DType::Float));
    assert!(!set.contains(DType::Int));
    assert!(!set.is_empty());
    set.remove(DType::Int);
    assert_eq!(set, set_of(&[DType::Float]));
    set.remove(DType::Float);
    assert!(set.is_empty());
}

#[test]
fn row_order_does_not_matter() {
    let cells = [Data::Int(1), Data::Float(2.5), Data::Empty, Data::Bool(true), Data::Int(7)];
    let orders: [[usize; 5]; 4] =
        [[0, 1, 2, 3, 4], [4, 3, 2, 1, 0], [2, 0, 4, 1, 3], [1, 3, 0, 4, 2]];
    for order in orders {
        let permuted: Vec<Cell<Data>> = order
            .iter()
            .enumerate()
            .map(|(row, from)| Cell::new((row as u32, 0), cells[*from].clone()))
            .collect();
        let range = Range::from_sparse(permuted);
        assert_eq!(get_dtype_for_column(&range, 0, 5, 0), Ok(DType::Float));
    }
}

#[test]
fn empty_row_range_is_null() {
    let range = range();
    assert_eq!(get_dtype_for_column(&range, 3, 3, 0), Ok(DType::Null));
    assert_eq!(get_dtype_for_column(&range, 5, 2, 0), Ok(DType::Null));
    assert_eq!(get_dtype_for_column(&range, 6, 8, 0), Ok(DType::Null));
}

#[test]
fn scan_past_the_source_fails() {
    let range = range();
    assert_eq!(get_dtype_for_column(&range, 10, 13, 0), Err(SchemaError::CellOutOfRange(12, 0)));
    assert_eq!(get_dtype_for_column(&range, 0, 2, 1), Err(SchemaError::CellOutOfRange(0, 1)));
}

#[test]
fn first_failing_row_decides_the_error() {
    let range = Range::from_sparse(vec![
        Cell::new((0, 0), Data::Int(1)),
        Cell::new((1, 0), Data::Error(CellErrorType::Div0)),
        Cell::new((2, 0), Data::Error(CellErrorType::Ref)),
    ]);
    assert_eq!(
        get_dtype_for_column(&range, 0, 3, 0),
        Err(SchemaError::UnsupportedCellError(CellError::Div0))
    );
    assert_eq!(
        get_dtype_for_column(&range, 2, 3, 0),
        Err(SchemaError::UnsupportedCellError(CellError::Ref))
    );
    assert_eq!(get_dtype_for_column(&range, 0, 1, 0), Ok(DType::Int));
}

#[test]
fn incompatible_column_names_its_types() {
    let range = Range::from_sparse(vec![
        Cell::new((0, 0), Data::Bool(true)),
        Cell::new((1, 0), Data::String("x".to_string())),
        Cell::new((2, 0), Data::Empty),
    ]);
    assert_eq!(
        get_dtype_for_column(&range, 0, 3, 0),
        Err(SchemaError::IncompatibleColumnTypes(set_of(&[DType::Bool, DType::String])))
    );
}
